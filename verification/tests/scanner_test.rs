use armventure::assembler::lex::{IntRadix, Scanner, TokenKind};
use armventure::code::Source;

const SRC_1: &str = "#100_000_000 Hello
SUB r1, r1, #0xF10 // foo
";
const KINDS_1: &[TokenKind] = &[
    TokenKind::Int(IntRadix::Dec),
    TokenKind::Identifier,
    TokenKind::Newline,
    TokenKind::Identifier,
    TokenKind::Identifier,
    TokenKind::Comma,
    TokenKind::Identifier,
    TokenKind::Comma,
    TokenKind::Int(IntRadix::Hex),
    TokenKind::Newline,
];
const STRS_1: &[&str] = &[
    "#100_000_000",
    "Hello",
    "\n",
    "SUB",
    "r1",
    ",",
    "r1",
    ",",
    "#0xF10",
    "\n",
];

fn assert_kinds(src: &str, expected: &[TokenKind]) {
    let source = Source::new(String::new(), src.to_owned());
    let mut scanner = Scanner::new(&source);
    for kind in expected.iter() {
        let t = scanner.next().expect("token");
        assert_eq!(t.kind, *kind, "expected: {:?}", *kind);
    }
    assert!(scanner.next().is_none());
}

fn assert_chars(src: &str, expected: &[&str]) {
    let source = Source::new(String::new(), src.to_owned());
    let mut scanner = Scanner::new(&source);
    for &s in expected.iter() {
        let t = scanner.next().expect("token");
        assert_eq!(source.span(t.span), s.as_bytes(), "expected: \"{s}\"");
    }
    assert!(scanner.next().is_none());
}

#[test]
fn scanner_test() {
    assert_kinds(SRC_1, KINDS_1);
    assert_chars(SRC_1, STRS_1);
}
