use pedaler_core::{DslError, Lexer, Parser, TokenKind};

#[test]
fn test_lexer_basic() {
    let input = "R1 in out 10k";
    let mut lexer = Lexer::new(input);

    let tok = lexer.next_token().unwrap();
    assert_eq!(tok.kind, TokenKind::Identifier);
    assert_eq!(tok.text, "R1");

    let tok = lexer.next_token().unwrap();
    assert_eq!(tok.kind, TokenKind::Identifier);
    assert_eq!(tok.text, "in");
}

#[test]
fn test_lexer_directive() {
    let input = ".model D1 D (is=1e-14)";
    let mut lexer = Lexer::new(input);

    let tok = lexer.next_token().unwrap();
    assert_eq!(tok.kind, TokenKind::Directive);
    assert_eq!(tok.text, ".model");
}

fn kinds_and_texts(input: &str) -> Vec<(TokenKind, String)> {
    let mut lexer = Lexer::new(input);
    let mut out = Vec::new();
    loop {
        let tok = lexer.next_token().unwrap();
        if tok.kind == TokenKind::Eof {
            break;
        }
        out.push((tok.kind, tok.text));
    }
    out
}

#[test]
fn lexer_full_model_line() {
    let toks = kinds_and_texts(".model D1 D (is=1e-14)");
    let expected = vec![
        (TokenKind::Directive, ".model"),
        (TokenKind::Identifier, "D1"),
        (TokenKind::Identifier, "D"),
        (TokenKind::OpenParen, "("),
        (TokenKind::Identifier, "is"),
        (TokenKind::Equals, "="),
        (TokenKind::Number, "1e-14"),
        (TokenKind::CloseParen, ")"),
    ];
    assert_eq!(toks.len(), expected.len());
    for (got, want) in toks.iter().zip(expected.iter()) {
        assert_eq!(got.0, want.0);
        assert_eq!(got.1, want.1);
    }
}

#[test]
fn lexer_numbers_with_suffix_and_sign() {
    let toks = kinds_and_texts("10k -4.7u +2.2E+3 100n 1M 3µ");
    let texts: Vec<&str> = toks.iter().map(|t| t.1.as_str()).collect();
    assert_eq!(texts, vec!["10k", "-4.7u", "+2.2E+3", "100n", "1M", "3µ"]);
    assert!(toks.iter().all(|t| t.0 == TokenKind::Number));
}

#[test]
fn lexer_number_then_identifier() {
    // The suffix takes one letter; the rest of the word is a new token.
    let toks = kinds_and_texts("10kOhm");
    assert_eq!(toks.len(), 2);
    assert_eq!(toks[0], (TokenKind::Number, "10k".to_string()));
    assert_eq!(toks[1], (TokenKind::Identifier, "Ohm".to_string()));
}

#[test]
fn lexer_comments_and_newlines() {
    let mut lexer = Lexer::new("# header\nR1 a b ; trailing\n");
    let t = lexer.next_token().unwrap();
    assert_eq!(t.kind, TokenKind::Newline);
    assert_eq!((t.line, t.column), (1, 9));
    let t = lexer.next_token().unwrap();
    assert_eq!(t.kind, TokenKind::Identifier);
    assert_eq!(t.text, "R1");
    assert_eq!((t.line, t.column), (2, 1));
    let t = lexer.next_token().unwrap();
    assert_eq!((t.text.as_str(), t.line, t.column), ("a", 2, 4));
    let t = lexer.next_token().unwrap();
    assert_eq!((t.text.as_str(), t.line, t.column), ("b", 2, 6));
    let t = lexer.next_token().unwrap();
    assert_eq!(t.kind, TokenKind::Newline);
    assert_eq!((t.line, t.column), (2, 18));
    let t = lexer.next_token().unwrap();
    assert_eq!(t.kind, TokenKind::Eof);
    assert_eq!(t.text, "");
    assert_eq!((t.line, t.column), (3, 1));
}

#[test]
fn lexer_empty_input_is_eof() {
    let mut lexer = Lexer::new("");
    let t = lexer.next_token().unwrap();
    assert_eq!(t.kind, TokenKind::Eof);
    assert_eq!((t.line, t.column), (1, 1));
    // End of input stays end of input.
    let t = lexer.next_token().unwrap();
    assert_eq!(t.kind, TokenKind::Eof);
}

#[test]
fn lexer_rejects_unexpected_character() {
    let mut lexer = Lexer::new("R1 a\n  @b");
    for _ in 0..3 {
        lexer.next_token().unwrap();
    }
    let err = lexer.next_token().unwrap_err();
    assert_eq!(
        err,
        DslError::UnexpectedCharacter { line: 2, column: 3, found: '@' }
    );
}

#[test]
fn lexer_peek_does_not_consume() {
    let mut lexer = Lexer::new("  R1 a");
    let p = lexer.peek_token().unwrap();
    assert_eq!(p.text, "R1");
    assert_eq!(lexer.current_pos(), 0);
    let t = lexer.next_token().unwrap();
    assert_eq!(t, p);
    assert_eq!(lexer.current_pos(), 4);
}

#[test]
fn lexer_unicode_identifier() {
    let toks = kinds_and_texts("Rü_1 ñode");
    assert_eq!(toks[0], (TokenKind::Identifier, "Rü_1".to_string()));
    assert_eq!(toks[1], (TokenKind::Identifier, "ñode".to_string()));
}

#[test]
fn lexer_looks_like_number() {
    let lexer = Lexer::new("");
    assert!(lexer.looks_like_number("10k"));
    assert!(lexer.looks_like_number("4.7e-3u"));
    assert!(!lexer.looks_like_number("k10"));
    assert!(!lexer.looks_like_number("10kk"));
    assert!(!lexer.looks_like_number(""));
}

#[test]
fn parser_expect_and_advance() {
    let mut parser = Parser::new(Lexer::new("R1 in = 5"));
    assert_eq!(parser.current().text, "R1");
    let t = parser.expect(TokenKind::Identifier).unwrap();
    assert_eq!(t.text, "R1");
    assert_eq!(parser.current().text, "in");
    let err = parser.expect(TokenKind::Number).unwrap_err();
    assert_eq!(
        err,
        DslError::UnexpectedToken {
            line: 1,
            expected: TokenKind::Number,
            found: TokenKind::Identifier
        }
    );
    // A failed expectation moves nothing.
    assert_eq!(parser.current().text, "in");
    parser.advance().unwrap();
    assert_eq!(parser.current().kind, TokenKind::Equals);
    parser.advance().unwrap();
    assert_eq!(parser.current().kind, TokenKind::Number);
    parser.advance().unwrap();
    assert_eq!(parser.current().kind, TokenKind::Eof);
}

#[test]
fn parser_starts_at_eof_on_bad_first_token() {
    let parser = Parser::new(Lexer::new("  $x"));
    assert_eq!(parser.current().kind, TokenKind::Eof);
    assert_eq!((parser.current().line, parser.current().column), (1, 1));
}

#[test]
fn parser_advance_reports_lexing_error() {
    let mut parser = Parser::new(Lexer::new("a !"));
    let err = parser.advance().unwrap_err();
    assert_eq!(
        err,
        DslError::UnexpectedCharacter { line: 1, column: 3, found: '!' }
    );
    assert_eq!(parser.current().text, "a");
}
