use flow::lexer::{Lexer, TokenKind};

#[test]
fn test_lexer_bind_parse() {
    let lexer = Lexer::new("bind x y".to_string());
    let mut iter = lexer.iter();

    let bind_token = iter.next().expect("expected left paren token");
    assert_eq!(bind_token.kind(), TokenKind::Bind);
    assert_eq!(bind_token.literal(), "bind");

    assert_eq!(iter.next().expect("expected first char token").kind(), TokenKind::Char);
    assert_eq!(iter.next().expect("expected second char token").kind(), TokenKind::Char);
}

#[test]
fn test_lexer_single_chars_parse() {
    let lexer = Lexer::new("()'".to_string());
    let mut iter = lexer.iter();

    assert_eq!(iter.next().expect("expected left paren token").kind(), TokenKind::LeftParen);
    assert_eq!(iter.next().expect("expected right paren token").kind(), TokenKind::RightParen);
    assert_eq!(iter.next().expect("expected tick token").kind(), TokenKind::Tick);
}

#[test]
fn test_lexer_int_parse() {
    let lexer = Lexer::new("777 text".to_string());
    let token = lexer.iter().next().expect("expected first token");

    assert_eq!(token.kind(), TokenKind::Number);
    assert_eq!(token.literal(), "777")
}

#[test]
fn test_lexer_identifier_parse() {
    let lexer = Lexer::new("identifier".to_string());
    let token = lexer.iter().next().expect("expected first token");
    assert_eq!(token.kind(), TokenKind::Identifier);
    assert_eq!(token.literal(), "identifier");
}

#[test]
fn lexer_tracks_lines_spans_and_operators() {
    let lexer = Lexer::new("a == b\n  != // note\n_x 42".to_string());
    let mut iter = lexer.iter();
    let a = iter.next().unwrap();
    assert_eq!((a.kind(), a.line(), a.span()), (TokenKind::Char, 1, (0, 1)));
    let eq = iter.next().unwrap();
    assert_eq!((eq.kind(), eq.literal()), (TokenKind::EqualEqual, "=="));
    assert_eq!(iter.next().unwrap().kind(), TokenKind::Char);
    let ne = iter.next().unwrap();
    assert_eq!((ne.kind(), ne.line(), ne.span()), (TokenKind::NotEqual, 2, (9, 11)));
    let word = iter.next().unwrap();
    assert_eq!((word.kind(), word.line(), word.literal()), (TokenKind::Identifier, 3, "_x"));
    let number = iter.next().unwrap();
    assert_eq!((number.kind(), number.literal()), (TokenKind::Number, "42"));
    assert!(iter.next().is_none());
}

#[test]
fn lexer_keywords_and_unknown_characters() {
    let lexer = Lexer::new("shift alt / # =!".to_string());
    let kinds: Vec<TokenKind> = {
        let mut iter = lexer.iter();
        let mut kinds = Vec::new();
        while let Some(t) = iter.next() {
            kinds.push(t.kind());
        }
        kinds
    };
    assert_eq!(
        kinds,
        vec![
            TokenKind::Shift,
            TokenKind::Alt,
            TokenKind::Unknown,
            TokenKind::Unknown,
            TokenKind::Equal,
            TokenKind::Bang
        ]
    );
}
