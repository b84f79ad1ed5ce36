use armventure::code_stream::SourceStream;

#[test]
fn code_stream_scanner_iterator_newline() {
    const SRC: &str = "123\n1234\n12345\r\n123456\r\n";
    const EXP: &[usize; 24] = &[
        1, 1, 1, 1, 2, 2, 2, 2, 2, 3, 3, 3, 3, 3, 3, 3, 4, 4, 4, 4, 4, 4, 4, 4,
    ];
    let mut iter = SourceStream::new(SRC);
    for (i, e) in EXP.iter().enumerate() {
        assert_eq!(
            *e,
            iter.location.line() as usize,
            "char[{}]: {}",
            i,
            iter.peek().unwrap().escape_default()
        );
        iter.next();
    }
}

#[test]
fn code_stream_peek_by() {
    let mut s = SourceStream::new("01234567");
    assert_eq!(s.next(), Some('0'));
    assert_eq!(s.next(), Some('1'));
    assert_eq!(s.peek(), Some('2'));
    assert_eq!(s.peek_by(2), Some('4'));
    assert_eq!(s.next(), Some('2'));
    assert_eq!(s.next(), Some('3'));
    assert_eq!(s.next(), Some('4'));
}
