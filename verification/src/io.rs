//! Byte-stream adapters between the UI and the stepping interpreter.

pub mod custom_reader;
pub mod custom_writer;
