use bi_parser::parser::decoder::{DecoderState, Event, Request, Step};
use bi_parser::parser::error::BiParserError;
use bi_parser::parser::reader::decode_field;
use bi_parser::prelude::{BiField, BiReader, BiWriter};
use bi_parser::rere::snapshot::{count_of, RecordState, RecordStep, SnapshotError};
use bi_parser::validator::error::BiValidationError;
use std::io::{BufRead, Cursor, Read};

fn fetch<R: BufRead>(source: &mut R, request: Request) -> Event {
    let mut bytes = Vec::new();
    match request {
        Request::Exact(n) => match source.by_ref().take(n as u64).read_to_end(&mut bytes) {
            Ok(_) if bytes.len() == n => Event::Bytes(bytes),
            Ok(_) => Event::Ended,
            Err(e) => Event::Failed(e.to_string()),
        },
        Request::Until(b) => match source.read_until(b, &mut bytes) {
            Ok(_) => Event::Bytes(bytes),
            Err(e) => Event::Failed(e.to_string()),
        },
    }
}

fn read_streaming<R: BufRead>(source: &mut R, validate: bool) -> Result<BiField, BiParserError> {
    let mut state = DecoderState::new();
    loop {
        let event = fetch(source, state.request());
        match state.advance(event, validate) {
            Step::Next(next) => state = next,
            Step::Done(field) => return Ok(field),
            Step::Failed(e) => return Err(e),
        }
    }
}

#[test]
fn decoder_asks_for_the_parts_in_order() {
    let state = DecoderState::new();
    assert_eq!(state.request(), Request::Exact(3));
    let state = match state.advance(Event::Bytes(b":b ".to_vec()), true) {
        Step::Next(state) => state,
        other => panic!("unexpected {:?}", other),
    };
    assert_eq!(state.request(), Request::Until(b' '));
    assert_eq!(state.part(), "field name");
    let state = match state.advance(Event::Bytes(b"data ".to_vec()), true) {
        Step::Next(state) => state,
        other => panic!("unexpected {:?}", other),
    };
    assert_eq!(state.request(), Request::Until(b'\n'));
    assert_eq!(state.part(), "blob size");
    let state = match state.advance(Event::Bytes(b"5\n".to_vec()), true) {
        Step::Next(state) => state,
        other => panic!("unexpected {:?}", other),
    };
    assert_eq!(state.request(), Request::Exact(6));
    match state.advance(Event::Bytes(b"hello\n".to_vec()), true) {
        Step::Done(field) => assert_eq!(
            field,
            BiField::Blob { name: b"data".to_vec(), data: b"hello".to_vec() }
        ),
        other => panic!("unexpected {:?}", other),
    }
}

#[test]
fn decoder_reads_what_the_buffer_reader_reads() {
    let streams: [&[u8]; 22] = [
        b"",
        b":",
        b":i",
        b":i ",
        b":i count",
        b":i count ",
        b":i count 42",
        b":i count 42\n",
        b":s code -7\nrest",
        b":b data 5\nhello\n",
        b":b data 5\nhello",
        b":b data 3\nhello\n",
        b":b data 10\nhello\n",
        b":b empty 0\n\n",
        b":b empty 0\n",
        b"#i count 42\n",
        b":x count 42\n",
        b":ixcount 42\n",
        b":i  42\n",
        b":i count abc\n",
        b":b data 18446744073709551615\nhello\n",
        b":b data 99999999999999999999\nhello\n",
    ];
    for bytes in streams {
        for validate in [true, false] {
            let mut source = Cursor::new(bytes.to_vec());
            let streamed = read_streaming(&mut source, validate);
            let (whole, consumed) = decode_field(bytes, validate);
            assert_eq!(
                format!("{:?}", streamed),
                format!("{:?}", whole),
                "{:?}",
                String::from_utf8_lossy(bytes)
            );
            assert_eq!(source.position(), consumed as u64);
        }
    }
}

#[test]
fn decoder_reports_a_source_that_fails() {
    let state = DecoderState::new();
    match state.advance(Event::Failed("broken pipe".to_string()), true) {
        Step::Failed(BiParserError::ReadError(msg)) => {
            assert_eq!(msg, "error reading marker: broken pipe")
        }
        other => panic!("unexpected {:?}", other),
    }
    let state = DecoderState::Size { name: b"n".to_vec() };
    match state.advance(Event::Failed("gone".to_string()), false) {
        Step::Failed(BiParserError::ReadError(msg)) => assert_eq!(msg, "error reading blob size: gone"),
        other => panic!("unexpected {:?}", other),
    }
    let state = DecoderState::Content { name: b"n".to_vec(), size: 4 };
    match state.advance(Event::Ended, true) {
        Step::Failed(BiParserError::ReadError(msg)) => {
            assert_eq!(msg, "unexpected end of input while reading blob content")
        }
        other => panic!("unexpected {:?}", other),
    }
    match DecoderState::new().advance(Event::Ended, true) {
        Step::Failed(BiParserError::UnexpectedEof(msg)) => assert_eq!(msg, "while reading marker"),
        other => panic!("unexpected {:?}", other),
    }
    match DecoderState::new().advance(Event::Bytes(b":i".to_vec()), true) {
        Step::Failed(BiParserError::UnexpectedEof(_)) => {}
        other => panic!("unexpected {:?}", other),
    }
    let state = DecoderState::Content { name: b"n".to_vec(), size: usize::MAX };
    assert_eq!(state.request(), Request::Exact(usize::MAX));
    let state = DecoderState::Value { signed: true, name: b"n".to_vec() };
    match state.advance(Event::Bytes(b"12".to_vec()), true) {
        Step::Failed(BiParserError::ReadError(msg)) => {
            assert_eq!(msg, "unexpected end of input while reading integer field value")
        }
        other => panic!("unexpected {:?}", other),
    }
    let state = DecoderState::Value { signed: false, name: b"n".to_vec() };
    match state.advance(Event::Bytes(b"-1\n".to_vec()), false) {
        Step::Failed(BiParserError::ValidationError(BiValidationError::InvalidInteger(text))) => {
            assert_eq!(text, "-1")
        }
        other => panic!("unexpected {:?}", other),
    }
}

#[test]
fn streamed_fields_follow_one_another() {
    let fields = vec![
        BiField::Integer { name: b"count".to_vec(), value: 1 },
        BiField::Blob { name: b"shell".to_vec(), data: b"echo\n hi".to_vec() },
        BiField::SignedInteger { name: b"returncode".to_vec(), value: -1 },
        BiField::Blob { name: b"stdout".to_vec(), data: vec![] },
    ];
    let mut writer = BiWriter::new(Vec::new());
    for field in &fields {
        writer.write_field_default(field).unwrap();
    }
    let mut source = Cursor::new(writer.into_inner());
    for field in &fields {
        assert_eq!(&read_streaming(&mut source, true).unwrap(), field);
    }
    assert!(matches!(
        read_streaming(&mut source, true).unwrap_err(),
        BiParserError::UnexpectedEof(_)
    ));
}

#[test]
fn record_is_assembled_field_by_field() {
    let bytes = b":b shell 2\nls\n:s returncode 3\n:b stdout 1\na\n:b stderr 1\nb\n".to_vec();
    let mut whole = BiReader::new(bytes.clone());
    let expected = whole.read_record().unwrap();
    let mut source = Cursor::new(bytes);
    let mut state = RecordState::new();
    assert!(state.shell().is_none());
    let record = loop {
        let field = read_streaming(&mut source, true).unwrap();
        match state.accept(field) {
            RecordStep::Next(next) => {
                state = next;
                assert_eq!(state.shell().unwrap(), "ls");
            }
            RecordStep::Done(record) => break record,
            RecordStep::Failed(e) => panic!("unexpected {:?}", e),
        }
    };
    assert_eq!(format!("{:?}", record), format!("{:?}", expected));
    assert_eq!(record.shell, "ls");
    assert_eq!(record.returncode, 3);
    assert_eq!(record.stdout, b"a");
    assert_eq!(record.stderr, b"b");
}

#[test]
fn record_refuses_fields_of_the_wrong_kind() {
    let int = || BiField::Integer { name: b"n".to_vec(), value: 1 };
    let signed = || BiField::SignedInteger { name: b"n".to_vec(), value: 1 };
    let blob = |data: &[u8]| BiField::Blob { name: b"n".to_vec(), data: data.to_vec() };
    assert!(matches!(
        RecordState::new().accept(int()),
        RecordStep::Failed(SnapshotError::ExpectedShell)
    ));
    assert!(matches!(
        RecordState::new().accept(blob(&[0xff])),
        RecordStep::Failed(SnapshotError::ShellNotUtf8(_))
    ));
    assert!(matches!(
        RecordState::ReturnCode { shell: "a".into() }.accept(int()),
        RecordStep::Failed(SnapshotError::ExpectedReturnCode)
    ));
    assert!(matches!(
        RecordState::Stdout { shell: "a".into(), returncode: 0 }.accept(signed()),
        RecordStep::Failed(SnapshotError::ExpectedStdout)
    ));
    assert!(matches!(
        RecordState::Stderr { shell: "a".into(), returncode: 0, stdout: vec![] }.accept(int()),
        RecordStep::Failed(SnapshotError::ExpectedStderr)
    ));
    assert_eq!(count_of(BiField::Integer { name: b"count".to_vec(), value: 7 }).unwrap(), 7);
    assert!(matches!(count_of(signed()), Err(SnapshotError::ExpectedCount)));
    assert!(matches!(count_of(blob(b"")), Err(SnapshotError::ExpectedCount)));
}
