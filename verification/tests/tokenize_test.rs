use armventure::assembler_2::{generate_token_kinds, generate_token_kinds_for_line, Token, TokenKind};

#[test]
fn it_generates_tokens_for_lines() {
    let ln = "TEXT1TEXT1Something{}[]";
    let mut result = Vec::<Token<'static>>::new();
    generate_token_kinds_for_line(ln, &mut result, 1);
    println!("{:?}", result);
    let kinds: Vec<TokenKind> = result.iter().map(|t| t.kind).collect();
    assert_eq!(
        kinds,
        vec![
            TokenKind::Alpha,
            TokenKind::Digit,
            TokenKind::Alpha,
            TokenKind::Digit,
            TokenKind::Alpha,
            TokenKind::Punct,
            TokenKind::Punct,
            TokenKind::Punct,
            TokenKind::Punct,
        ]
    );
    assert_eq!(result[0].text, "TEXT");
    assert_eq!(result[4].text, "Something");
}

#[test]
fn it_splits_lines() {
    let tokens = generate_token_kinds("AB 12\nCD\n");
    let texts: Vec<&str> = tokens.iter().map(|t| t.text).collect();
    assert_eq!(texts, vec!["AB", " ", "12", "\n", "CD", "\n"]);
    assert_eq!(tokens[4].location.line, 2);
}
