use tuploid_parser::Lexer;
use tuploid_parser::Number;
use tuploid_parser::Token;
use tuploid_parser::TokenKind;

fn kinds(src: &str) -> Vec<TokenKind> {
    let mut lexer = Lexer::new(src);
    let mut out = Vec::new();
    loop {
        let tok = lexer.next();
        let done = *tok.kind() == TokenKind::Eof;
        let Token { kind, .. } = tok;
        out.push(kind);
        if done {
            return out;
        }
    }
}

#[test]
fn basic() {
    let src = "let tuple : (i8, second: i16, i32) = (3, 4, 5);";
    let mut lexer = Lexer::new(src);
    let next = lexer.next();

    assert_eq!(next.kind(), &TokenKind::Let);

    let next = lexer.next();
    assert!(next.is_identifier());
    assert_eq!(next.identifier_name(), Some("tuple"));

    assert_eq!(lexer.next().kind(), &TokenKind::Colon);
    assert_eq!(lexer.next().kind(), &TokenKind::LeftParen);
    let next = lexer.next();
    assert!(next.is_identifier());
    assert_eq!(lexer.next().kind(), &TokenKind::Comma);
    assert!(lexer.next().is_identifier());
    assert_eq!(lexer.next().kind(), &TokenKind::Colon);
    assert!(lexer.next().is_identifier());
    assert_eq!(lexer.next().kind(), &TokenKind::Comma);
    assert!(lexer.next().is_identifier());
    assert_eq!(lexer.next().kind(), &TokenKind::RightParen);
    assert_eq!(lexer.next().kind(), &TokenKind::Equals);
    assert_eq!(lexer.next().kind(), &TokenKind::LeftParen);
    assert!(lexer.next().is_number());
    assert_eq!(lexer.next().kind(), &TokenKind::Comma);
    assert!(lexer.next().is_number());
    assert_eq!(lexer.next().kind(), &TokenKind::Comma);
    assert!(lexer.next().is_number());
    assert_eq!(lexer.next().kind(), &TokenKind::RightParen);
    assert_eq!(lexer.next().kind(), &TokenKind::Semicolon);
}

#[test]
fn whitespace_only_source_scans_to_eof() {
    let mut lexer = Lexer::new("  \t\n \t  \n");
    assert_eq!(lexer.next().kind(), &TokenKind::Eof);
}

#[test]
fn empty_source_scans_to_eof() {
    let mut lexer = Lexer::new("");
    let tok = lexer.next();
    assert_eq!(tok.kind(), &TokenKind::Eof);
    assert_eq!(tok.line, 1);
    assert_eq!(tok.column, 1);
}

#[test]
fn eof_repeats_forever() {
    let mut lexer = Lexer::new("x");
    assert!(lexer.next().is_identifier());
    let first_eof = lexer.next();
    assert_eq!(first_eof.kind(), &TokenKind::Eof);
    for _ in 0..5 {
        let again = lexer.next();
        assert_eq!(again, first_eof);
    }
}

#[test]
fn rescanning_is_deterministic() {
    let src = "let x = 0x1; // c\n  y += 3.25 && !z;";
    let mut first = Lexer::new(src);
    let mut second = Lexer::new(src);
    for _ in 0..30 {
        assert_eq!(first.next(), second.next());
    }
}

#[test]
fn keywords_are_recognized() {
    assert_eq!(kinds("let"), vec![TokenKind::Let, TokenKind::Eof]);
    assert_eq!(kinds("if"), vec![TokenKind::If, TokenKind::Eof]);
    assert_eq!(kinds("in"), vec![TokenKind::In, TokenKind::Eof]);
    assert_eq!(kinds("loop"), vec![TokenKind::Loop, TokenKind::Eof]);
    assert_eq!(kinds("type"), vec![TokenKind::Type, TokenKind::Eof]);
}

#[test]
fn keyword_prefixes_are_identifiers() {
    assert_eq!(
        kinds("lets"),
        vec![TokenKind::Identifier("lets".to_string()), TokenKind::Eof]
    );
    assert_eq!(
        kinds("letter"),
        vec![TokenKind::Identifier("letter".to_string()), TokenKind::Eof]
    );
    assert_eq!(
        kinds("ifx"),
        vec![TokenKind::Identifier("ifx".to_string()), TokenKind::Eof]
    );
    assert_eq!(
        kinds("i"),
        vec![TokenKind::Identifier("i".to_string()), TokenKind::Eof]
    );
    assert_eq!(
        kinds("types"),
        vec![TokenKind::Identifier("types".to_string()), TokenKind::Eof]
    );
}

#[test]
fn unicode_identifiers_are_scanned_whole() {
    let mut lexer = Lexer::new("h\u{e9}llo_1");
    let tok = lexer.next();
    assert!(tok.is_identifier());
    assert_eq!(tok.identifier_name(), Some("héllo_1"));
    assert_eq!(lexer.next().kind(), &TokenKind::Eof);
}

#[test]
fn compound_operators_are_single_tokens() {
    assert_eq!(kinds("+="), vec![TokenKind::PlusEquals, TokenKind::Eof]);
    assert_eq!(
        kinds("&&"),
        vec![TokenKind::AmpersandAmpersand, TokenKind::Eof]
    );
    assert_eq!(kinds("&"), vec![TokenKind::Ampersand, TokenKind::Eof]);
    assert_eq!(
        kinds("&="),
        vec![TokenKind::Ampersand, TokenKind::Equals, TokenKind::Eof]
    );
    assert_eq!(kinds("=="), vec![TokenKind::EqualsEquals, TokenKind::Eof]);
    assert_eq!(
        kinds("~= != -= *= /= ||"),
        vec![
            TokenKind::TildeEquals,
            TokenKind::NotEquals,
            TokenKind::MinusEquals,
            TokenKind::StarEquals,
            TokenKind::SlashEquals,
            TokenKind::PipePipe,
            TokenKind::Eof
        ]
    );
    assert_eq!(
        kinds("+ - * / ! ~ | ="),
        vec![
            TokenKind::Plus,
            TokenKind::Minus,
            TokenKind::Star,
            TokenKind::Slash,
            TokenKind::Not,
            TokenKind::Tilde,
            TokenKind::Pipe,
            TokenKind::Equals,
            TokenKind::Eof
        ]
    );
}

#[test]
fn punctuation_tokens() {
    assert_eq!(
        kinds(": ; ( ) { } ,"),
        vec![
            TokenKind::Colon,
            TokenKind::Semicolon,
            TokenKind::LeftParen,
            TokenKind::RightParen,
            TokenKind::LeftCurly,
            TokenKind::RightCurly,
            TokenKind::Comma,
            TokenKind::Eof
        ]
    );
}

#[test]
fn comment_then_identifier_on_next_line() {
    let mut lexer = Lexer::new("// note\nx");
    let comment = lexer.next();
    assert_eq!(comment.kind(), &TokenKind::Comment);
    assert_eq!(comment.line, 1);
    assert_eq!(comment.column, 1);
    let ident = lexer.next();
    assert!(ident.is_identifier());
    assert_eq!(ident.identifier_name(), Some("x"));
    assert_eq!(ident.line, 2);
    assert_eq!(ident.column, 1);
    assert_eq!(lexer.next().kind(), &TokenKind::Eof);
}

#[test]
fn comment_without_newline_ends_input() {
    let mut lexer = Lexer::new("a // tail");
    assert!(lexer.next().is_identifier());
    assert_eq!(lexer.next().kind(), &TokenKind::Comment);
    assert_eq!(lexer.next().kind(), &TokenKind::Eof);
}

#[test]
fn lines_and_columns_are_tracked() {
    let mut lexer = Lexer::new("a\n  b\tc");
    let a = lexer.next();
    assert_eq!((a.line, a.column), (1, 1));
    let b = lexer.next();
    assert_eq!((b.line, b.column), (2, 3));
    let c = lexer.next();
    assert_eq!((c.line, c.column), (2, 5));
}

#[test]
fn number_tokens_advance_the_column_not_the_line() {
    let mut lexer = Lexer::new("123 +");
    let num = lexer.next();
    assert!(num.is_number());
    assert_eq!((num.line, num.column), (1, 1));
    let plus = lexer.next();
    assert_eq!(plus.kind(), &TokenKind::Plus);
    assert_eq!((plus.line, plus.column), (1, 5));
}

#[test]
fn too_many_dots_is_an_error_token() {
    let mut lexer = Lexer::new("1.2.3");
    let tok = lexer.next();
    assert_eq!(
        tok.kind(),
        &TokenKind::Error("too many dots in floating-point literal".to_string())
    );
    assert_eq!(lexer.next().kind(), &TokenKind::Eof);
}

#[test]
fn repeated_base_marker_is_an_error_token() {
    let mut lexer = Lexer::new("0xx1");
    assert_eq!(
        lexer.next().kind(),
        &TokenKind::Error("Too many 'x' in integer literal".to_string())
    );
    let mut lexer = Lexer::new("0b1b");
    assert_eq!(
        lexer.next().kind(),
        &TokenKind::Error("Too many 'b' in integer literal".to_string())
    );
}

#[test]
fn invalid_base_is_an_error_token() {
    let mut lexer = Lexer::new("0.x");
    assert_eq!(
        lexer.next().kind(),
        &TokenKind::Error("Error when parsing integer literal: InvalidBase".to_string())
    );
}

#[test]
fn invalid_integer_is_an_error_token() {
    let mut lexer = Lexer::new("0x");
    assert_eq!(
        lexer.next().kind(),
        &TokenKind::Error("Error when parsing integer literal: InvalidInteger".to_string())
    );
    let mut lexer = Lexer::new("3x4");
    assert_eq!(
        lexer.next().kind(),
        &TokenKind::Error("Error when parsing integer literal: InvalidInteger".to_string())
    );
}

#[test]
fn unexpected_character_is_an_error_token() {
    let mut lexer = Lexer::new("#?");
    assert_eq!(
        lexer.next().kind(),
        &TokenKind::Error("Unexpected character '#'".to_string())
    );
    assert_eq!(
        lexer.next().kind(),
        &TokenKind::Error("Unexpected character '?'".to_string())
    );
    assert_eq!(lexer.next().kind(), &TokenKind::Eof);
}

#[test]
fn errors_do_not_stop_the_scan() {
    assert_eq!(
        kinds("1.2.3 ok"),
        vec![
            TokenKind::Error("too many dots in floating-point literal".to_string()),
            TokenKind::Identifier("ok".to_string()),
            TokenKind::Eof
        ]
    );
}

#[test]
fn scanned_number_literals() {
    assert_eq!(
        kinds("3 3.14 0xb 0b11"),
        vec![
            TokenKind::Number(Number::Untyped(3)),
            TokenKind::Number(Number::Float("3.14".to_string())),
            TokenKind::Number(Number::Integer(11)),
            TokenKind::Number(Number::Integer(3)),
            TokenKind::Eof
        ]
    );
}

#[test]
fn number_run_stops_before_plain_letters() {
    // `F` is not a digit, a dot or a base marker, so it ends the literal run.
    assert_eq!(
        kinds("0x1F"),
        vec![
            TokenKind::Number(Number::Integer(1)),
            TokenKind::Identifier("F".to_string()),
            TokenKind::Eof
        ]
    );
}

#[test]
fn end_to_end_tuple_declaration() {
    assert_eq!(
        kinds("let tuple : (i8, second: i16, i32) = (3, 4, 5);"),
        vec![
            TokenKind::Let,
            TokenKind::Identifier("tuple".to_string()),
            TokenKind::Colon,
            TokenKind::LeftParen,
            TokenKind::Identifier("i8".to_string()),
            TokenKind::Comma,
            TokenKind::Identifier("second".to_string()),
            TokenKind::Colon,
            TokenKind::Identifier("i16".to_string()),
            TokenKind::Comma,
            TokenKind::Identifier("i32".to_string()),
            TokenKind::RightParen,
            TokenKind::Equals,
            TokenKind::LeftParen,
            TokenKind::Number(Number::Untyped(3)),
            TokenKind::Comma,
            TokenKind::Number(Number::Untyped(4)),
            TokenKind::Comma,
            TokenKind::Number(Number::Untyped(5)),
            TokenKind::RightParen,
            TokenKind::Semicolon,
            TokenKind::Eof
        ]
    );
}

#[test]
fn underscores_start_and_continue_identifiers() {
    assert_eq!(
        kinds("_foo _1 a_b"),
        vec![
            TokenKind::Identifier("_foo".to_string()),
            TokenKind::Identifier("_1".to_string()),
            TokenKind::Identifier("a_b".to_string()),
            TokenKind::Eof
        ]
    );
}

#[test]
fn zero_with_fraction_is_a_float() {
    assert_eq!(
        kinds("0.5"),
        vec![
            TokenKind::Number(Number::Float("0.5".to_string())),
            TokenKind::Eof
        ]
    );
}

#[test]
fn consecutive_comments_each_give_one_token() {
    let mut lexer = Lexer::new("a // one\n// two\nb");
    assert!(lexer.next().is_identifier());
    assert_eq!(lexer.next().kind(), &TokenKind::Comment);
    assert_eq!(lexer.next().kind(), &TokenKind::Comment);
    let b = lexer.next();
    assert_eq!(b.identifier_name(), Some("b"));
    assert_eq!((b.line, b.column), (3, 1));
    assert_eq!(lexer.next().kind(), &TokenKind::Eof);
}
