use secret_entry::buffer::{SecureBuffer, CAPACITY};
use secret_entry::errors::{BufferError, TermError};
use secret_entry::reader::{
    erase_feedback, read_unbuffered, read_unbuffered_with_feedback, select_read_strategy,
    write_unbuffered, ByteCursor, ReadStrategy,
};
use secret_entry::settings::TermSettings;

fn test_settings() -> TermSettings {
    // Typical bindings: Ctrl-D for end-of-input, DEL for erase, Ctrl-U for kill.
    TermSettings { lflag: 0, veof: 4, verase: 127, vkill: 21 }
}

fn secret_string(buf: &SecureBuffer) -> String {
    let mut collected = String::new();
    let mut i = 0usize;
    loop {
        match buf.get(i) {
            Some(0) | None => break,
            Some(b) => {
                collected.push(b as char);
                i += 1;
            }
        }
    }
    collected
}

fn secret_len(buf: &SecureBuffer) -> usize {
    let mut i = 0usize;
    while let Some(b) = buf.get(i) {
        if b == 0 {
            break;
        }
        i += 1;
    }
    i
}

#[test]
fn miri_test_read() {
    let mut data = ByteCursor::new("password123\nhello world".as_bytes().to_vec());
    let buf = read_unbuffered(&mut data).unwrap();
    // check that the \n is not part of the input
    assert_eq!(secret_string(&buf), "password123");
    // check that the \n is also consumed but the rest of the input is still there
    assert_eq!(std::str::from_utf8(&data.remaining()).unwrap(), "hello world");
}

#[test]
fn miri_test_longpwd() {
    let mut short = ByteCursor::new("a".repeat(511).into_bytes());
    assert!(read_unbuffered(&mut short).is_ok());
    let mut long = ByteCursor::new("a".repeat(512).into_bytes());
    assert!(read_unbuffered(&mut long).is_err());
}

#[test]
fn miri_test_write() {
    let mut data = Vec::new();
    write_unbuffered(&mut data, "prompt".as_bytes());
    assert_eq!(std::str::from_utf8(&data).unwrap(), "prompt");
}

#[test]
fn silent_read_boundary_at_capacity() {
    // 511 bytes followed by a newline fit: one slot stays reserved.
    let mut input = "a".repeat(511).into_bytes();
    input.push(b'\n');
    let mut source = ByteCursor::new(input);
    let buf = read_unbuffered(&mut source).unwrap();
    assert_eq!(secret_len(&buf), 511);
    assert_eq!(buf.get(510), Some(b'a'));
    assert_eq!(buf.get(511), Some(0));
    assert_eq!(source.remaining(), Vec::<u8>::new());

    // 512 bytes before the newline leave no room for the terminator.
    let mut input = "a".repeat(512).into_bytes();
    input.push(b'\n');
    let mut source = ByteCursor::new(input);
    let err = match read_unbuffered(&mut source) {
        Ok(_) => panic!("an oversized secret must be refused"),
        Err(e) => e,
    };
    assert_eq!(err, TermError::SecretTooLong);
}

#[test]
fn silent_read_too_long_leaves_line_unread() {
    // On overflow exactly CAPACITY bytes are consumed; the rest of the
    // oversized line stays in the source.
    let mut input = "b".repeat(600).into_bytes();
    input.push(b'\n');
    let mut source = ByteCursor::new(input);
    assert!(matches!(read_unbuffered(&mut source), Err(TermError::SecretTooLong)));
    let rest = source.remaining();
    assert_eq!(rest.len(), 600 - CAPACITY + 1);
    assert_eq!(rest[0], b'b');
}

#[test]
fn silent_read_end_of_input_succeeds() {
    let mut source = ByteCursor::new(Vec::new());
    let buf = read_unbuffered(&mut source).unwrap();
    assert_eq!(secret_len(&buf), 0);

    let mut source = ByteCursor::new(b"abc".to_vec());
    let buf = read_unbuffered(&mut source).unwrap();
    assert_eq!(secret_string(&buf), "abc");
}

#[test]
fn silent_read_keeps_carriage_return() {
    // Only the newline terminates a silent read.
    let mut source = ByteCursor::new(b"a\rb\nrest".to_vec());
    let buf = read_unbuffered(&mut source).unwrap();
    assert_eq!(secret_len(&buf), 3);
    assert_eq!(buf.get(0), Some(b'a'));
    assert_eq!(buf.get(1), Some(b'\r'));
    assert_eq!(buf.get(2), Some(b'b'));
    assert_eq!(source.remaining(), b"rest".to_vec());
}

#[test]
fn feedback_backspace_edits_secret() {
    // "ab", erase-one, "c", newline: the secret is "ac".  The display shows
    // a mask per stored byte, one erase sequence for the backspace, and on
    // the newline the remaining two marks are erased before the echoed
    // line break.
    let st = test_settings();
    let mut source = ByteCursor::new(vec![b'a', b'b', 127, b'c', b'\n']);
    let mut sink = Vec::new();
    let buf = read_unbuffered_with_feedback(&mut source, &mut sink, &st).unwrap();
    assert_eq!(secret_string(&buf), "ac");
    assert_eq!(
        sink,
        vec![42, 42, 8, 32, 8, 42, 8, 32, 8, 8, 32, 8, 10],
    );
}

#[test]
fn feedback_kill_clears_line() {
    // "abc", kill, newline: the secret is empty; the kill erases the three
    // drawn marks and the final newline erases nothing further.
    let st = test_settings();
    let mut source = ByteCursor::new(vec![b'a', b'b', b'c', 21, b'\n']);
    let mut sink = Vec::new();
    let buf = read_unbuffered_with_feedback(&mut source, &mut sink, &st).unwrap();
    assert_eq!(secret_len(&buf), 0);
    assert_eq!(
        sink,
        vec![42, 42, 42, 8, 32, 8, 8, 32, 8, 8, 32, 8, 10],
    );
}

#[test]
fn feedback_end_of_input_clears_line() {
    // "ab", end-of-input: the secret is empty, exactly two erase sequences
    // are drawn and no newline is echoed; later bytes stay unread.
    let st = test_settings();
    let mut source = ByteCursor::new(vec![b'a', b'b', 4, b'x']);
    let mut sink = Vec::new();
    let buf = read_unbuffered_with_feedback(&mut source, &mut sink, &st).unwrap();
    assert_eq!(secret_len(&buf), 0);
    assert_eq!(sink, vec![42, 42, 8, 32, 8, 8, 32, 8]);
    assert_eq!(source.remaining(), b"x".to_vec());
}

#[test]
fn feedback_backspace_on_empty_line_is_noop() {
    let st = test_settings();
    let mut source = ByteCursor::new(vec![127, b'a', b'\n']);
    let mut sink = Vec::new();
    let buf = read_unbuffered_with_feedback(&mut source, &mut sink, &st).unwrap();
    assert_eq!(secret_string(&buf), "a");
    assert_eq!(sink, vec![42, 8, 32, 8, 10]);
}

#[test]
fn feedback_carriage_return_terminates() {
    let st = test_settings();
    let mut source = ByteCursor::new(vec![b'a', b'\r', b'z']);
    let mut sink = Vec::new();
    let buf = read_unbuffered_with_feedback(&mut source, &mut sink, &st).unwrap();
    assert_eq!(secret_string(&buf), "a");
    assert_eq!(sink, vec![42, 8, 32, 8, 10]);
    assert_eq!(source.remaining(), b"z".to_vec());
}

#[test]
fn feedback_too_long_erases_and_fails() {
    let st = test_settings();
    let mut input = "x".repeat(512).into_bytes();
    input.push(b'\n');
    let mut source = ByteCursor::new(input);
    let mut sink = Vec::new();
    let err = match read_unbuffered_with_feedback(&mut source, &mut sink, &st) {
        Ok(_) => panic!("an oversized secret must be refused"),
        Err(e) => e,
    };
    assert_eq!(err, TermError::SecretTooLong);
    // 511 masks were drawn, then all 511 were erased before failing.
    assert_eq!(sink.len(), 511 + 511 * 3);
    assert_eq!(&sink[..511], "*".repeat(511).as_bytes());
    assert_eq!(&sink[511..514], &[8, 32, 8]);
    // The overflowing byte was consumed; the rest of the line was not.
    assert_eq!(source.remaining(), b"\n".to_vec());
}

#[test]
fn feedback_end_of_stream_keeps_typed_bytes() {
    // The input ends with no terminator at all: the read still succeeds
    // with what was typed.
    let st = test_settings();
    let mut source = ByteCursor::new(vec![b'h', b'i']);
    let mut sink = Vec::new();
    let buf = read_unbuffered_with_feedback(&mut source, &mut sink, &st).unwrap();
    assert_eq!(secret_string(&buf), "hi");
    assert_eq!(sink, vec![42, 42]);
}

#[test]
fn fallback_without_guard_is_silent() {
    assert_eq!(select_read_strategy(false), ReadStrategy::Silent);
    assert_eq!(select_read_strategy(true), ReadStrategy::Feedback);
}

#[test]
fn erase_feedback_emits_exact_sequences() {
    let mut sink = Vec::new();
    erase_feedback(&mut sink, 2);
    assert_eq!(sink, vec![8, 32, 8, 8, 32, 8]);
    erase_feedback(&mut sink, 0);
    assert_eq!(sink, vec![8, 32, 8, 8, 32, 8]);
}

#[test]
fn buffer_write_and_capacity() {
    let mut buf = SecureBuffer::create();
    assert_eq!(buf.capacity(), 512);
    assert_eq!(buf.write_at(0, b'q'), Ok(()));
    assert_eq!(buf.write_at(510, b'r'), Ok(()));
    // The last slot is reserved for the implicit terminator.
    assert_eq!(buf.write_at(511, b's'), Err(BufferError::CapacityExceeded));
    assert_eq!(buf.get(0), Some(b'q'));
    assert_eq!(buf.get(510), Some(b'r'));
    assert_eq!(buf.get(511), Some(0));
    assert_eq!(buf.get(512), None);
}

#[test]
fn buffer_clear_from_and_wipe() {
    let mut buf = SecureBuffer::create();
    for i in 0..4usize {
        buf.write_at(i, b'a' + i as u8).unwrap();
    }
    buf.clear_from(2);
    assert_eq!(buf.get(0), Some(b'a'));
    assert_eq!(buf.get(1), Some(b'b'));
    assert_eq!(buf.get(2), Some(0));
    assert_eq!(buf.get(3), Some(0));
    buf.wipe();
    for i in 0..512usize {
        assert_eq!(buf.get(i), Some(0));
    }
}

#[test]
fn error_messages() {
    assert_eq!(TermError::SecretTooLong.message(), "incorrect password attempt");
    assert_eq!(TermError::DeviceUnavailable.message(), "no terminal device available");
    assert_eq!(TermError::IoError.message(), "input/output error");
}
