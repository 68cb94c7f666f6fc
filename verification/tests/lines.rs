use cmdc::lines::LineBuffer;

#[test]
fn split_across_reads() {
    let mut buffer = LineBuffer::new();
    let first = buffer.feed(b"ab\ncd");
    assert_eq!(first, vec![b"ab\n".to_vec()]);
    assert_eq!(buffer.pending(), &b"cd".to_vec());
    let second = buffer.feed(b"ef\n");
    assert_eq!(second, vec![b"cdef\n".to_vec()]);
    assert_eq!(buffer.pending_len(), 0);
}

#[test]
fn several_lines_in_one_read() {
    let mut buffer = LineBuffer::new();
    let lines = buffer.feed(b"one\ntwo\nthree\nfo");
    assert_eq!(lines, vec![b"one\n".to_vec(), b"two\n".to_vec(), b"three\n".to_vec()]);
    assert_eq!(buffer.pending(), &b"fo".to_vec());
}

#[test]
fn empty_line_is_kept() {
    let mut buffer = LineBuffer::new();
    let lines = buffer.feed(b"\n\nx\n");
    assert_eq!(lines, vec![b"\n".to_vec(), b"\n".to_vec(), b"x\n".to_vec()]);
}

#[test]
fn no_newline_nothing_emitted() {
    let mut buffer = LineBuffer::new();
    assert!(buffer.feed(b"partial").is_empty());
    assert!(buffer.feed(b"").is_empty());
    assert_eq!(buffer.pending(), &b"partial".to_vec());
}

#[test]
fn chunking_does_not_matter() {
    let stream: &[u8] = b"alpha\nbeta\n\ngamma delta\nrest";
    let mut whole = LineBuffer::new();
    let expected = whole.feed(stream);
    assert_eq!(expected.len(), 4);
    for cut in 0..=stream.len() {
        let mut buffer = LineBuffer::new();
        let mut got = buffer.feed(&stream[..cut]);
        got.extend(buffer.feed(&stream[cut..]));
        assert_eq!(got, expected);
        assert_eq!(buffer.pending(), &b"rest".to_vec());
    }
    let mut bytewise = LineBuffer::new();
    let mut got: Vec<Vec<u8>> = Vec::new();
    for b in stream {
        got.extend(bytewise.feed(&[*b]));
    }
    assert_eq!(got, expected);
}

#[test]
fn raw_bytes_are_not_normalised() {
    let mut buffer = LineBuffer::new();
    let lines = buffer.feed(&[0xff, 0x00, b'\r', b'\n', 0xc3]);
    assert_eq!(lines, vec![vec![0xff, 0x00, b'\r', b'\n']]);
    assert_eq!(buffer.pending(), &vec![0xc3u8]);
}
