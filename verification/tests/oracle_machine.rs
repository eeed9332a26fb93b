use ram_debugger::io::custom_reader::CustomReader;
use ram_debugger::io::custom_writer::CustomWriter;
use ram_debugger::mini_ram::MiniRam;

#[test]
fn compile_accepts_the_three_instructions_and_blank_lines() {
    assert!(MiniRam::compile("").is_ok());
    assert!(MiniRam::compile("read 1\nwrite 1\nhalt").is_ok());
    assert!(MiniRam::compile("read 1\r\n\r\nwrite 1\r\nhalt").is_ok());
    assert!(MiniRam::compile("write 0\n\n\nhalt\n").is_ok());
}

#[test]
fn compile_rejects_malformed_lines() {
    assert!(MiniRam::compile("florp").is_err());
    assert!(MiniRam::compile("read").is_err());
    assert!(MiniRam::compile("read ").is_err());
    assert!(MiniRam::compile("read x").is_err());
    assert!(MiniRam::compile("read 1 ").is_err());
    assert!(MiniRam::compile("halt 1").is_err());
    assert!(MiniRam::compile("write 18446744073709551616").is_err());
    assert!(MiniRam::compile("write 1\nflorp\nhalt").is_err());
}

#[test]
fn stepping_reports_the_next_source_line() {
    let mut machine = MiniRam::compile("write 0\n\nwrite 0\nhalt").unwrap();
    let mut reader = CustomReader::new("");
    let mut writer = CustomWriter::new();
    // After the write on line 1, the next instruction sits on line 3.
    let snap = machine.advance(&mut reader, &mut writer).unwrap();
    assert_eq!(snap.line, 3);
    // After line 3, the halt sits on line 4.
    let snap = machine.advance(&mut reader, &mut writer).unwrap();
    assert_eq!(snap.line, 4);
    // The halt itself reports line 0: nothing is about to execute.
    let snap = machine.advance(&mut reader, &mut writer).unwrap();
    assert_eq!(snap.line, 0);
    // A halted machine reports termination.
    assert!(machine.advance(&mut reader, &mut writer).is_none());
    let terminal = machine.into_terminal();
    assert!(terminal.error.is_none());
}

#[test]
fn read_stores_the_parsed_value_and_consumes_one_token() {
    let mut machine = MiniRam::compile("read 2\nread 0").unwrap();
    let mut reader = CustomReader::new("-7 42");
    let mut writer = CustomWriter::new();
    let snap = machine.advance(&mut reader, &mut writer).unwrap();
    assert_eq!(snap.registers, vec![0, 0, -7]);
    let snap = machine.advance(&mut reader, &mut writer).unwrap();
    assert_eq!(snap.registers, vec![42, 0, -7]);
    assert!(machine.advance(&mut reader, &mut writer).is_none());
    assert!(machine.into_terminal().error.is_none());
}

#[test]
fn write_emits_the_register_as_decimal_text() {
    let mut machine = MiniRam::compile("read 1\nwrite 1\nwrite 5").unwrap();
    let mut reader = CustomReader::new("-12");
    let mut writer = CustomWriter::new();
    machine.advance(&mut reader, &mut writer);
    machine.advance(&mut reader, &mut writer);
    machine.advance(&mut reader, &mut writer);
    // An unwritten register reads as zero.
    assert_eq!(writer.take_messages(), vec!["-12".to_string(), "0".to_string()]);
}

#[test]
fn a_failed_read_faults_the_machine() {
    let mut machine = MiniRam::compile("read 1").unwrap();
    let mut reader = CustomReader::new("");
    let mut writer = CustomWriter::new();
    assert!(machine.advance(&mut reader, &mut writer).is_none());
    let terminal = machine.into_terminal();
    assert!(terminal.error.is_some());

    let mut machine = MiniRam::compile("read 1").unwrap();
    let mut reader = CustomReader::new("12x");
    assert!(machine.advance(&mut reader, &mut writer).is_none());
    assert!(machine.into_terminal().error.is_some());
}

#[test]
fn halt_stops_before_later_instructions() {
    let mut machine = MiniRam::compile("halt\nwrite 0").unwrap();
    let mut reader = CustomReader::new("");
    let mut writer = CustomWriter::new();
    assert!(machine.advance(&mut reader, &mut writer).is_some());
    assert!(machine.advance(&mut reader, &mut writer).is_none());
    assert!(writer.take_messages().is_empty());
    assert!(machine.into_terminal().error.is_none());
}
