use lib::diag::Diagnostic;
use lib::lexer::{parse_char_literal, parse_int_literal, Lexer};
use lib::token::Kind;

#[test]
fn lexes_basic_tokens() {
    let mut lexer = Lexer::new("package main\nfn main() i32 { return 42 }\n");
    let tokens = lexer.lex();

    assert_eq!(lexer.diagnostics(), Vec::<Diagnostic>::new());
    assert_eq!(tokens[0].kind, Kind::Package);
    assert_eq!(tokens[1].kind, Kind::Ident);
    assert_eq!(tokens[1].text, "main");
    assert_eq!(tokens[3].kind, Kind::Ident);
    assert_eq!(tokens[9].kind, Kind::Int);
    assert_eq!(tokens.last().map(|token| token.kind), Some(Kind::Eof));
}

#[test]
fn decodes_string_and_char_escapes() {
    let mut lexer = Lexer::new("\"a\\n\\t\\r\\0\\\\\\\"\" '\\n' '\\0'");
    let tokens = lexer.lex();

    assert_eq!(lexer.diagnostics(), Vec::<Diagnostic>::new());
    assert_eq!(tokens[0].kind, Kind::String);
    assert_eq!(tokens[0].text, "a\n\t\r\0\\\"");
    assert_eq!(tokens[1].kind, Kind::Char);
    assert_eq!(parse_char_literal(&tokens[1]), '\n');
    assert_eq!(tokens[2].kind, Kind::Char);
    assert_eq!(parse_char_literal(&tokens[2]), '\0');
}

#[test]
fn tracks_lines_and_columns_across_comments() {
    let mut lexer = Lexer::new_file("// note\n  x := 1 // tail\ny", "f.yar".to_string());
    let tokens = lexer.lex();
    assert!(lexer.diagnostics().is_empty());
    assert_eq!(tokens.len(), 5);
    assert_eq!(tokens[0].kind, Kind::Ident);
    assert_eq!((tokens[0].pos.line, tokens[0].pos.column), (2, 3));
    assert_eq!(tokens[0].pos.file, "f.yar");
    assert_eq!(tokens[1].kind, Kind::ColonAssign);
    assert_eq!((tokens[1].pos.line, tokens[1].pos.column), (2, 5));
    assert_eq!(tokens[2].kind, Kind::Int);
    assert_eq!(tokens[3].text, "y");
    assert_eq!((tokens[3].pos.line, tokens[3].pos.column), (3, 1));
    assert_eq!(tokens[4].kind, Kind::Eof);
    assert_eq!((tokens[4].pos.line, tokens[4].pos.column), (3, 2));
}

#[test]
fn lexes_every_operator_and_keyword() {
    let src = ": := ; = == ! != ? , . & && ( ) { } [ ] | || + += - -= * *= / /= % %= < <= > >= \
               package import fn pub let var struct interface enum or if else for break continue \
               return match case taskgroup spawn true false nil error map chan other";
    let mut lexer = Lexer::new(src);
    let kinds: Vec<Kind> = lexer.lex().iter().map(|t| t.kind).collect();
    assert!(lexer.diagnostics().is_empty());
    assert_eq!(
        kinds,
        vec![
            Kind::Colon, Kind::ColonAssign, Kind::Semicolon, Kind::Assign, Kind::EqualEqual,
            Kind::Bang, Kind::BangEqual, Kind::Question, Kind::Comma, Kind::Dot, Kind::Amp,
            Kind::AmpAmp, Kind::LParen, Kind::RParen, Kind::LBrace, Kind::RBrace, Kind::LBracket,
            Kind::RBracket, Kind::Pipe, Kind::PipePipe, Kind::Plus, Kind::PlusAssign, Kind::Minus,
            Kind::MinusAssign, Kind::Star, Kind::StarAssign, Kind::Slash, Kind::SlashAssign,
            Kind::Percent, Kind::PercentAssign, Kind::Less, Kind::LessEqual, Kind::Greater,
            Kind::GreaterEqual, Kind::Package, Kind::Import, Kind::Fn, Kind::Pub, Kind::Let,
            Kind::Var, Kind::Struct, Kind::Interface, Kind::Enum, Kind::Or, Kind::If, Kind::Else,
            Kind::For, Kind::Break, Kind::Continue, Kind::Return, Kind::Match, Kind::Case,
            Kind::Taskgroup, Kind::Spawn, Kind::True, Kind::False, Kind::Nil, Kind::Error,
            Kind::MapKw, Kind::Chan, Kind::Ident, Kind::Eof,
        ]
    );
}

#[test]
fn reports_unexpected_characters_as_illegal_tokens() {
    let mut lexer = Lexer::new("a @ b");
    let tokens = lexer.lex();
    assert_eq!(tokens[1].kind, Kind::Illegal);
    assert_eq!(tokens[1].text, "@");
    let diagnostics = lexer.diagnostics();
    assert_eq!(diagnostics.len(), 1);
    assert_eq!(diagnostics[0].message, "unexpected character '@'");
    assert_eq!((diagnostics[0].pos.line, diagnostics[0].pos.column), (1, 3));
}

#[test]
fn reports_string_and_char_literal_errors() {
    let mut lexer = Lexer::new("\"abc\n'' '\\q' \"x\\q\"");
    let tokens = lexer.lex();
    let messages: Vec<String> = lexer.diagnostics().into_iter().map(|d| d.message).collect();
    assert_eq!(
        messages,
        vec![
            "unterminated string literal".to_string(),
            "empty character literal".to_string(),
            "unsupported character escape \"\\\\q\"".to_string(),
            "unsupported string escape \"\\\\q\"".to_string(),
        ]
    );
    assert_eq!(tokens[0].text, "abc");
    assert_eq!(tokens[2].text, "q");
    assert_eq!(tokens[3].text, "x");
    assert_eq!(tokens.last().map(|t| t.kind), Some(Kind::Eof));
}

#[test]
fn parses_integer_and_char_literal_tokens() {
    let mut lexer = Lexer::new("42 9223372036854775808 'z'");
    let tokens = lexer.lex();
    assert_eq!(parse_int_literal(&tokens[0]).unwrap(), 42);
    assert!(parse_int_literal(&tokens[1]).is_err());
    assert_eq!(parse_char_literal(&tokens[2]), 'z');
}
