use obfusku::lexer::{Lexer, LexerError, Token, TokenKind};
use obfusku::symbols::{SymbolMeaning, SymbolTable};

fn lex(source: &str) -> Result<Vec<Token>, LexerError> {
    let table = SymbolTable::new();
    let mut lexer = Lexer::new(source, &table);
    lexer.tokenize()
}

#[test]
fn test_integer_type_declaration() {
    let tokens = lex("⟁x=5").unwrap();
    assert!(matches!(tokens[0].kind, TokenKind::Symbol(SymbolMeaning::TypeInteger)));
    assert!(matches!(tokens[1].kind, TokenKind::Identifier(ref s) if s == "x"));
    assert!(matches!(tokens[2].kind, TokenKind::Equals));
    assert!(matches!(tokens[3].kind, TokenKind::Integer(5)));
}

#[test]
fn test_string_literal() {
    let tokens = lex("\"Hello, World!\"").unwrap();
    assert!(matches!(tokens[0].kind, TokenKind::String(ref s) if s == "Hello, World!"));
}

#[test]
fn test_comment_skip() {
    let tokens = lex("// this is a comment\n⟁x").unwrap();
    assert!(matches!(tokens[0].kind, TokenKind::Symbol(SymbolMeaning::TypeInteger)));
}

#[test]
fn test_float_number() {
    let tokens = lex("3.14159").unwrap();
    let value: f64 = match &tokens[0].kind {
        TokenKind::Float(text) => text.parse().unwrap(),
        other => panic!("not a real literal: {:?}", other),
    };
    assert!((value - 3.14159).abs() < 0.00001);
}

#[test]
fn tokens_end_with_eof_and_carry_locations() {
    let tokens = lex("⟁x=5\n⚡[x]\n❧").unwrap();
    assert!(tokens.last().unwrap().is_eof());
    assert_eq!(tokens.iter().filter(|t| t.is_eof()).count(), 1);
    // ⟁ is three bytes of UTF-8, x one, = one, 5 one, newline one.
    assert_eq!((tokens[0].location.line, tokens[0].location.column, tokens[0].location.offset), (1, 1, 0));
    assert_eq!((tokens[1].location.line, tokens[1].location.column, tokens[1].location.offset), (1, 2, 3));
    assert_eq!((tokens[4].location.line, tokens[4].location.column, tokens[4].location.offset), (2, 1, 7));
    assert_eq!(tokens[4].lexeme, "⚡");
}

#[test]
fn lexing_is_a_function_of_the_source() {
    let source = "⟁i=0 ⊂[i◁3] ⚡[i] ⚙︎[i✚1]→i ⊃ ❧";
    let first = lex(source).unwrap();
    let second = lex(source).unwrap();
    assert_eq!(first.len(), second.len());
    for (a, b) in first.iter().zip(second.iter()) {
        assert_eq!(a.kind, b.kind);
        assert_eq!(a.lexeme, b.lexeme);
        assert_eq!(a.location, b.location);
    }
}

#[test]
fn the_longest_glyph_wins() {
    // ☠︎ is the skull followed by a variation selector: two code points.
    let tokens = lex("1☠︎2").unwrap();
    assert!(matches!(tokens[1].kind, TokenKind::Symbol(SymbolMeaning::Subtract)));
    assert_eq!(tokens[1].lexeme.chars().count(), 2);
    assert!(matches!(tokens[2].kind, TokenKind::Integer(2)));
    // The skull alone is no glyph of the language.
    assert!(matches!(lex("☠"), Err(LexerError::UnknownSymbol { .. })));
}

#[test]
fn string_escapes_are_resolved() {
    let tokens = lex("\"a\\n\\t\\r\\\\\\\"\\0b\"").unwrap();
    assert!(matches!(tokens[0].kind, TokenKind::String(ref s) if s == "a\n\t\r\\\"\0b"));
}

#[test]
fn invalid_escape_is_an_error() {
    assert_eq!(
        lex("\"a\\qb\"").unwrap_err(),
        LexerError::InvalidEscape { char: 'q', line: 1, column: 4 }
    );
}

#[test]
fn unterminated_string_reports_its_start() {
    assert_eq!(lex("  \"abc").unwrap_err(), LexerError::UnterminatedString { line: 1, column: 3 });
}

#[test]
fn unknown_symbol_is_an_error() {
    assert_eq!(
        lex("⟁x\n  #").unwrap_err(),
        LexerError::UnknownSymbol { glyph: "#".to_string(), line: 2, column: 3 }
    );
}

#[test]
fn numbers_bind_a_leading_minus() {
    let tokens = lex("-12 7").unwrap();
    assert!(matches!(tokens[0].kind, TokenKind::Integer(-12)));
    assert!(matches!(tokens[1].kind, TokenKind::Integer(7)));
    let tokens = lex("-9223372036854775808").unwrap();
    assert!(matches!(tokens[0].kind, TokenKind::Integer(i64::MIN)));
}

#[test]
fn numbers_out_of_range_or_malformed_are_errors() {
    assert_eq!(lex("9223372036854775808").unwrap_err(), LexerError::InvalidNumber { line: 1, column: 1 });
    assert_eq!(lex("1e").unwrap_err(), LexerError::InvalidNumber { line: 1, column: 1 });
    assert_eq!(lex("1e+").unwrap_err(), LexerError::InvalidNumber { line: 1, column: 1 });
}

#[test]
fn real_literals_keep_their_text() {
    let tokens = lex("2.5e-3 1e5 7.25").unwrap();
    assert!(matches!(tokens[0].kind, TokenKind::Float(ref s) if s == "2.5e-3"));
    assert!(matches!(tokens[1].kind, TokenKind::Float(ref s) if s == "1e5"));
    assert!(matches!(tokens[2].kind, TokenKind::Float(ref s) if s == "7.25"));
}

#[test]
fn booleans_and_identifiers() {
    let tokens = lex("true false truth _a1").unwrap();
    assert!(matches!(tokens[0].kind, TokenKind::Boolean(true)));
    assert!(matches!(tokens[1].kind, TokenKind::Boolean(false)));
    assert!(matches!(tokens[2].kind, TokenKind::Identifier(ref s) if s == "truth"));
    assert!(matches!(tokens[3].kind, TokenKind::Identifier(ref s) if s == "_a1"));
}

#[test]
fn block_comments_nest() {
    let tokens = lex("⌈ a ⌈ b ⌉ c ⌉ ⟁x").unwrap();
    assert!(matches!(tokens[0].kind, TokenKind::Symbol(SymbolMeaning::TypeInteger)));
    // A block comment that is never closed runs to the end of the source.
    let tokens = lex("⟁x ⌈ open").unwrap();
    assert_eq!(tokens.len(), 3);
}

#[test]
fn a_string_keeps_its_source_text_as_lexeme() {
    let tokens = lex(r#""a\"b""#).unwrap();
    assert_eq!(tokens.len(), 2);
    assert!(matches!(tokens[0].kind, TokenKind::String(ref s) if s == "a\"b"));
    assert_eq!(tokens[0].lexeme, r#""a\"b""#);
    let tokens = lex(r#"✤"tab\there\\" ⟁x"#).unwrap();
    assert!(matches!(tokens[1].kind, TokenKind::String(ref s) if s == "tab\there\\"));
    assert_eq!(tokens[1].lexeme, r#""tab\there\\""#);
    let tokens = lex("\"\"").unwrap();
    assert!(matches!(tokens[0].kind, TokenKind::String(ref s) if s.is_empty()));
    assert_eq!(tokens[0].lexeme, "\"\"");
}

#[test]
fn the_rendered_lexemes_lex_to_the_same_tokens() {
    let sources = [
        r#"✤"say \"hi\" and \\ go\n"   ⟁x=5 // a comment
           ⚡[x✚1]  ⌬a=[1,2 -3] ❧"#,
        r#"λadd[⟁a,⟁b] ⤶[a✚b] Λ ⚡[⤷add[2,3]] ⌘s="a\"b" ⟁ok=true ❧"#,
        "⟁i=0 ⊂[i◁3] ⚡[i] ⚙︎[i✚1]→i ⊃ ❧",
    ];
    for source in sources {
        let first = lex(source).unwrap();
        let rendered: Vec<&str> =
            first.iter().filter(|t| !t.is_eof()).map(|t| t.lexeme.as_str()).collect();
        let second = lex(&rendered.join(" ")).unwrap();
        assert_eq!(first.len(), second.len());
        for (a, b) in first.iter().zip(second.iter()) {
            assert_eq!(a.kind, b.kind);
            assert_eq!(a.lexeme, b.lexeme);
        }
    }
}
