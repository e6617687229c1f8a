use fixtures::error::{GrammarError, GrammarErrorKind};
use fixtures::lexer::lex;
use fixtures::location::SourceLocation;
use fixtures::parse::ignore_config::IgnoreConfig;
use fixtures::parse::{parse_str, parse_tokens};
use fixtures::token::{
    after_item, after_last, end_location, ident_at, is_close, is_ident, is_punct, is_str, is_word,
    span_at, str_at, Delimiter, Token, TokenKind,
};

#[test]
fn lexes_every_kind_of_token() {
    let tokens = lex(r#"{ paths = ["a", 12], (x_1) }"#).unwrap();
    let kinds: Vec<String> = tokens.iter().map(|t| format!("{:?}", t.kind)).collect();
    assert_eq!(
        kinds,
        vec![
            "Open(Brace)",
            "Ident(\"paths\")",
            "Punct('=')",
            "Open(Bracket)",
            "Str(\"a\")",
            "Punct(',')",
            "Literal",
            "Close(Bracket)",
            "Punct(',')",
            "Open(Parenthesis)",
            "Ident(\"x_1\")",
            "Close(Parenthesis)",
            "Close(Brace)",
        ]
    );
    assert_eq!(tokens[0].span, SourceLocation::new(0, 1));
    assert_eq!(tokens[1].span, SourceLocation::new(2, 7));
    assert_eq!(tokens[4].span, SourceLocation::new(11, 14));
    assert_eq!(tokens[6].span, SourceLocation::new(16, 18));
    assert_eq!(tokens[12].span, SourceLocation::new(27, 28));
}

#[test]
fn empty_and_blank_texts_have_no_tokens() {
    assert!(lex("").unwrap().is_empty());
    assert!(lex(" \t\r\n").unwrap().is_empty());
}

#[test]
fn string_literals_stand_for_their_value() {
    let tokens = lex(r#""a\"b" "tab\there" "caf\u{e9}" "\\" "é""#).unwrap();
    let values: Vec<&str> = tokens
        .iter()
        .map(|t| match &t.kind {
            TokenKind::Str(value) => value.as_str(),
            other => panic!("not a string: {:?}", other),
        })
        .collect();
    assert_eq!(values, vec!["a\"b", "tab\there", "café", "\\", "é"]);
    assert_eq!(tokens[0].span, SourceLocation::new(0, 6));
    assert_eq!(tokens[4].span, SourceLocation::new(36, 39));
}

#[test]
fn unterminated_string_is_reported_to_the_end() {
    assert_eq!(
        lex(r#"["abc"#).unwrap_err(),
        GrammarError::new(GrammarErrorKind::UnterminatedString, SourceLocation::new(1, 5))
    );
    assert_eq!(
        lex(r#""abc\"#).unwrap_err(),
        GrammarError::new(GrammarErrorKind::UnterminatedString, SourceLocation::new(0, 5))
    );
    assert_eq!(
        lex(r#""abc\""#).unwrap_err(),
        GrammarError::new(GrammarErrorKind::UnterminatedString, SourceLocation::new(0, 6))
    );
}

#[test]
fn invalid_escape_is_reported_at_the_literal() {
    let error = lex(r#"["a\qb"]"#).unwrap_err();
    assert_eq!(
        error,
        GrammarError::new(GrammarErrorKind::InvalidString, SourceLocation::new(1, 7))
    );
    assert_eq!(error.message(), "Invalid string literal.");
    assert_eq!(
        parse_str::<IgnoreConfig>(r#"["a\qb"]"#).unwrap_err(),
        error
    );
}

#[test]
fn tokens_made_by_hand_parse_like_lexed_ones() {
    let tokens = vec![
        Token::open(Delimiter::Brace, SourceLocation::new(0, 0)),
        Token::ident("paths", SourceLocation::new(1, 1)),
        Token::punct('=', SourceLocation::new(2, 2)),
        Token::string("a.txt", SourceLocation::new(3, 3)),
        Token::punct(',', SourceLocation::new(4, 4)),
        Token::ident("reason", SourceLocation::new(5, 5)),
        Token::punct('=', SourceLocation::new(6, 6)),
        Token::string("why", SourceLocation::new(7, 7)),
        Token::close(Delimiter::Brace, SourceLocation::new(8, 8)),
    ];
    let config = parse_tokens::<IgnoreConfig>(&tokens).unwrap();
    assert_eq!(config.paths().paths().len(), 1);
    assert_eq!(config.paths().paths()[0].path().value(), "a.txt");
    assert_eq!(config.reason().as_ref().unwrap().value(), "why");

    let wrong = vec![Token::literal(SourceLocation::new(4, 9))];
    assert_eq!(
        parse_tokens::<IgnoreConfig>(&wrong).unwrap_err(),
        GrammarError::new(
            GrammarErrorKind::ExpectedStringLiteral,
            SourceLocation::new(4, 9)
        )
    );
}

#[test]
fn cursor_helpers_read_tokens() {
    let tokens = lex(r#"name = "v", ]"#).unwrap();
    assert!(is_ident(&tokens, 0));
    assert!(!is_ident(&tokens, 1));
    assert!(!is_ident(&tokens, 9));
    assert!(is_word(&tokens, 0, "name"));
    assert!(!is_word(&tokens, 0, "names"));
    assert!(is_punct(&tokens, 1, '='));
    assert!(!is_punct(&tokens, 1, ','));
    assert!(is_str(&tokens, 2));
    assert!(!is_str(&tokens, 3));
    assert!(is_close(&tokens, 4, Delimiter::Bracket));
    assert!(!is_close(&tokens, 4, Delimiter::Brace));
    assert_eq!(ident_at(&tokens, 0).as_str(), "name");
    assert_eq!(ident_at(&tokens, 0).span(), SourceLocation::new(0, 4));
    assert_eq!(str_at(&tokens, 2).value(), "v");
    assert_eq!(str_at(&tokens, 2).as_str(), "v");
    assert_eq!(span_at(&tokens, 2), SourceLocation::new(7, 10));
    assert_eq!(span_at(&tokens, 5), SourceLocation::new(13, 13));
    assert_eq!(end_location(&tokens), SourceLocation::new(13, 13));
    assert_eq!(end_location(&vec![]), SourceLocation::new(0, 0));
    assert_eq!(after_item(&tokens, 3, Delimiter::Bracket), Ok(4));
    assert_eq!(after_item(&tokens, 4, Delimiter::Bracket), Ok(4));
    assert_eq!(
        after_item(&tokens, 2, Delimiter::Bracket),
        Err(GrammarError::new(
            GrammarErrorKind::ExpectedComma,
            SourceLocation::new(7, 10)
        ))
    );
    assert_eq!(after_last(&tokens, 3), Ok(4));
    assert_eq!(after_last(&tokens, 5), Ok(5));
    assert!(after_last(&tokens, 4).is_err());
}

#[test]
fn locations_join() {
    let a = SourceLocation::new(3, 5);
    let b = SourceLocation::new(8, 9);
    assert_eq!(a.join(b), SourceLocation::new(3, 9));
    assert_eq!(b.join(a), SourceLocation::new(3, 9));
    assert_eq!(a.join(a), a);
}

#[test]
fn raw_string_literals_are_taken_as_written() {
    let tokens = lex(r###"r"a\b" r#"a"b"# r##"x"#y"## reason"###).unwrap();
    let kinds: Vec<String> = tokens.iter().map(|t| format!("{:?}", t.kind)).collect();
    assert_eq!(
        kinds,
        vec![
            "Str(\"a\\\\b\")",
            "Str(\"a\\\"b\")",
            "Str(\"x\\\"#y\")",
            "Ident(\"reason\")",
        ]
    );
    assert_eq!(tokens[0].span, SourceLocation::new(0, 6));
    assert_eq!(tokens[1].span, SourceLocation::new(7, 15));
    assert_eq!(tokens[2].span, SourceLocation::new(16, 27));
    let config = parse_str::<IgnoreConfig>(r##"{ paths = r#"a\*.txt"# }"##).unwrap();
    assert_eq!(config.paths().paths()[0].path().value(), "a\\*.txt");
}

#[test]
fn unterminated_raw_string_is_reported_to_the_end() {
    assert_eq!(
        lex(r###"[r#"abc"]"###).unwrap_err(),
        GrammarError::new(GrammarErrorKind::UnterminatedString, SourceLocation::new(1, 9))
    );
    assert_eq!(
        lex(r###"r##"abc"#"###).unwrap_err(),
        GrammarError::new(GrammarErrorKind::UnterminatedString, SourceLocation::new(0, 9))
    );
}

#[test]
fn an_r_before_anything_else_is_a_name() {
    let tokens = lex("r#paths r").unwrap();
    let kinds: Vec<String> = tokens.iter().map(|t| format!("{:?}", t.kind)).collect();
    assert_eq!(
        kinds,
        vec!["Ident(\"r\")", "Punct('#')", "Ident(\"paths\")", "Ident(\"r\")"]
    );
}
