use bt_core::at::framing::{LineEvent, LineReader};

fn feed_all(reader: &mut LineReader, bytes: &[u8]) -> Vec<(Vec<u8>, bool)> {
    let mut lines = Vec::new();
    for byte in bytes {
        match reader.push_byte(*byte) {
            LineEvent::Line { line, bare_lf } => lines.push((line.to_vec(), bare_lf)),
            LineEvent::More => {}
            LineEvent::Dropped => panic!("a line was dropped"),
            LineEvent::Overflow => panic!("a byte did not fit"),
        }
    }
    lines
}

#[test]
fn lines_end_with_cr_lf() {
    let mut reader = LineReader::new();
    let lines = feed_all(&mut reader, b"AT+CREG?\r\n+CREG: 0,1\r\nOK\r\n");
    assert_eq!(
        lines,
        vec![
            (b"AT+CREG?".to_vec(), false),
            (b"+CREG: 0,1".to_vec(), false),
            (b"OK".to_vec(), false)
        ]
    );
}

#[test]
fn a_line_is_complete_only_at_its_line_feed() {
    let mut reader = LineReader::new();
    for byte in b"OK\r" {
        assert!(matches!(reader.push_byte(*byte), LineEvent::More));
    }
    match reader.push_byte(b'\n') {
        LineEvent::Line { line, bare_lf } => {
            assert_eq!(line.bytes(), b"OK");
            assert!(!bare_lf);
        }
        _ => panic!("expected a line"),
    }
}

#[test]
fn empty_lines_are_dropped() {
    let mut reader = LineReader::new();
    let lines = feed_all(&mut reader, b"\r\n\r\n\nOK\r\n\r\n");
    assert_eq!(lines, vec![(b"OK".to_vec(), false)]);
}

#[test]
fn a_bare_line_feed_is_accepted_and_noted() {
    let mut reader = LineReader::new();
    let lines = feed_all(&mut reader, b"OK\nERROR\r\n");
    assert_eq!(lines, vec![(b"OK".to_vec(), true), (b"ERROR".to_vec(), false)]);
}

#[test]
fn a_carriage_return_inside_a_line_is_skipped() {
    let mut reader = LineReader::new();
    let lines = feed_all(&mut reader, b"O\rK\n");
    assert_eq!(lines, vec![(b"OK".to_vec(), false)]);
}

#[test]
fn a_line_of_256_bytes_fits_and_the_next_byte_overflows() {
    let mut reader = LineReader::new();
    for _ in 0..256 {
        assert!(matches!(reader.push_byte(b'x'), LineEvent::More));
    }
    assert!(matches!(reader.push_byte(b'y'), LineEvent::Overflow));
    assert!(matches!(reader.push_byte(b'z'), LineEvent::Overflow));
    assert!(matches!(reader.push_byte(b'\r'), LineEvent::More));
    match reader.push_byte(b'\n') {
        LineEvent::Line { line, .. } => assert_eq!(line.to_vec(), vec![b'x'; 256]),
        _ => panic!("expected the first 256 bytes as a line"),
    }
}

#[test]
fn a_line_that_is_not_utf8_is_dropped() {
    let mut reader = LineReader::new();
    assert!(matches!(reader.push_byte(0xff), LineEvent::More));
    assert!(matches!(reader.push_byte(0xfe), LineEvent::More));
    assert!(matches!(reader.push_byte(b'\r'), LineEvent::More));
    assert!(matches!(reader.push_byte(b'\n'), LineEvent::Dropped));
    let lines = feed_all(&mut reader, b"OK\r\n");
    assert_eq!(lines, vec![(b"OK".to_vec(), false)]);
}

#[test]
fn utf8_beyond_ascii_is_kept() {
    let mut reader = LineReader::new();
    let lines = feed_all(&mut reader, "+COPS: \"Zürich\"\r\n".as_bytes());
    assert_eq!(lines, vec![("+COPS: \"Zürich\"".as_bytes().to_vec(), false)]);
}
