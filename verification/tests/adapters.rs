use ram_debugger::io::custom_reader::{CustomReader, ReadError};
use ram_debugger::io::custom_writer::CustomWriter;

#[test]
fn set_input_tokenizes_on_whitespace_with_one_newline_per_token() {
    let reader = CustomReader::new("3   4\n\n5\t6");
    assert_eq!(reader.fill_buf().unwrap(), &b"3\n4\n5\n6\n"[..]);
}

#[test]
fn non_ascii_whitespace_is_token_content() {
    // The pinned separator class is ASCII whitespace alone: a no-break
    // space does not split a token.
    let reader = CustomReader::new("a\u{a0}b c");
    assert_eq!(reader.fill_buf().unwrap(), "a\u{a0}b\nc\n".as_bytes());
}

#[test]
fn set_input_of_blank_text_leaves_the_buffer_empty() {
    let mut reader = CustomReader::new("  \t \r\n ");
    assert!(matches!(reader.fill_buf(), Err(ReadError::Exhausted)));
    reader.set_input("x");
    assert_eq!(reader.fill_buf().unwrap(), &b"x\n"[..]);
    reader.set_input("");
    assert!(matches!(reader.fill_buf(), Err(ReadError::Exhausted)));
}

#[test]
fn reading_an_empty_buffer_fails_immediately_with_exhausted() {
    let mut reader = CustomReader::new("");
    let mut buf = vec![0u8; 8];
    assert!(matches!(reader.read(&mut buf), Err(ReadError::Exhausted)));
    assert!(matches!(reader.fill_buf(), Err(ReadError::Exhausted)));
    assert!(matches!(reader.read_line(), Err(ReadError::Exhausted)));
}

#[test]
fn read_copies_without_consuming() {
    let mut reader = CustomReader::new("345");
    let mut buf = vec![9u8; 2];
    assert_eq!(reader.read(&mut buf).unwrap(), 2);
    assert_eq!(buf, b"34");
    // A second read sees the same front of the buffer.
    let mut again = vec![9u8; 8];
    assert_eq!(reader.read(&mut again).unwrap(), 4);
    assert_eq!(&again[..4], &b"345\n"[..]);
    assert_eq!(&again[4..], &[9u8, 9, 9, 9][..]);
}

#[test]
fn consume_drops_from_the_front() {
    let mut reader = CustomReader::new("3 4 5");
    reader.consume(2);
    assert_eq!(reader.fill_buf().unwrap(), &b"4\n5\n"[..]);
    reader.consume(100);
    assert!(matches!(reader.fill_buf(), Err(ReadError::Exhausted)));
}

#[test]
fn read_line_consumes_one_line_without_its_newline() {
    let mut reader = CustomReader::new("34 56");
    assert_eq!(reader.read_line().unwrap(), b"34");
    assert_eq!(reader.read_line().unwrap(), b"56");
    assert!(matches!(reader.read_line(), Err(ReadError::Exhausted)));
}

#[test]
fn writer_reports_full_count_and_queues_decoded_text() {
    let mut writer = CustomWriter::new();
    assert_eq!(writer.write(b"3"), 1);
    assert_eq!(writer.write(b"hello"), 5);
    let messages = writer.take_messages();
    assert_eq!(messages, vec!["3".to_string(), "hello".to_string()]);
    // The queue is drained.
    assert!(writer.take_messages().is_empty());
}

#[test]
fn writer_decodes_invalid_utf8_lossily_instead_of_failing() {
    let mut writer = CustomWriter::new();
    assert_eq!(writer.write(&[0xff, 0x35]), 2);
    let messages = writer.take_messages();
    assert_eq!(messages, vec!["\u{fffd}5".to_string()]);
}

#[test]
fn writer_flush_is_a_no_op() {
    let mut writer = CustomWriter::new();
    writer.write(b"a");
    writer.flush();
    assert_eq!(writer.take_messages(), vec!["a".to_string()]);
}
