use armventure::multipeekable::MultiPeekable;

#[test]
fn it_lookahead() {
    let text = "012345678";
    let mut iter = MultiPeekable::new(text.chars());
    assert_eq!(iter.next(), Some('0'));
    assert_eq!(iter.peek(), Some(&'1'));
    assert_eq!(iter.peek_by(1), Some(&'1'));
    assert_eq!(iter.peek_by(5), Some(&'5'));
    assert_eq!(iter.next(), Some('1'));
    assert_eq!(iter.peek(), Some(&'2'));
}
