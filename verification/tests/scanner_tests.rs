use skib::scanner::Scanner;
use skib::token::{Token, TokenType};

fn scan(source: &str) -> Vec<Token> {
    let mut scanner = Scanner::new(source);
    scanner.scan_tokens().clone()
}

fn scan_with_errors(source: &str) -> (Vec<Token>, Vec<(usize, String)>) {
    let mut scanner = Scanner::new(source);
    let tokens = scanner.scan_tokens().clone();
    let errors = scanner
        .diagnostics()
        .iter()
        .map(|d| (d.line, d.message.clone()))
        .collect();
    (tokens, errors)
}

#[test]
fn every_scan_ends_with_eof() {
    for source in ["", "foo + bar", "\"open", "@@@", "1 2 3", "// only a comment"] {
        let tokens = scan(source);
        assert!(!tokens.is_empty());
        assert_eq!(tokens.last().unwrap().token_type, TokenType::Eof);
    }
}

#[test]
fn whitespace_only_yields_single_eof() {
    for source in ["", " ", " \t\r ", " \n \t\n"] {
        let tokens = scan(source);
        assert_eq!(tokens.len(), 1);
        assert_eq!(tokens[0].token_type, TokenType::Eof);
    }
}

#[test]
fn single_character_tokens() {
    let cases = [
        ("(", TokenType::LeftParen),
        (")", TokenType::RightParen),
        ("{", TokenType::LeftBrace),
        ("}", TokenType::RightBrace),
        (",", TokenType::Comma),
        (".", TokenType::Dot),
        ("-", TokenType::Minus),
        ("+", TokenType::Plus),
        (";", TokenType::Semicolon),
        ("*", TokenType::Star),
        ("/", TokenType::Slash),
    ];
    for (source, expected) in cases {
        let tokens = scan(source);
        assert_eq!(tokens.len(), 2, "source {:?}", source);
        assert_eq!(tokens[0].token_type, expected, "source {:?}", source);
        assert_eq!(tokens[0].lexeme, source);
        assert_eq!(tokens[0].line, 1);
    }
}

#[test]
fn operator_disambiguation() {
    let cases = [
        ("!", TokenType::Bang),
        ("!=", TokenType::BangEqual),
        ("=", TokenType::Equal),
        ("==", TokenType::EqualEqual),
        ("<", TokenType::Less),
        ("<=", TokenType::LessEqual),
        (">", TokenType::Greater),
        (">=", TokenType::GreaterEqual),
    ];
    for (source, expected) in cases {
        let tokens = scan(source);
        assert_eq!(tokens.len(), 2, "source {:?}", source);
        assert_eq!(tokens[0].token_type, expected, "source {:?}", source);
        assert_eq!(tokens[0].lexeme, source);
    }
}

#[test]
fn number_without_fraction() {
    let tokens = scan("123");
    assert_eq!(tokens.len(), 2);
    assert_eq!(tokens[0].token_type, TokenType::Number("123".to_owned()));
    assert_eq!(tokens[0].lexeme, "123");
}

#[test]
fn number_with_fraction() {
    let tokens = scan("123.45");
    assert_eq!(tokens.len(), 2);
    assert_eq!(tokens[0].token_type, TokenType::Number("123.45".to_owned()));
    assert_eq!(tokens[0].lexeme, "123.45");
}

#[test]
fn trailing_dot_is_not_part_of_the_number() {
    let tokens = scan("123.");
    assert_eq!(tokens.len(), 3);
    assert_eq!(tokens[0].token_type, TokenType::Number("123".to_owned()));
    assert_eq!(tokens[1].token_type, TokenType::Dot);
    assert_eq!(tokens[2].token_type, TokenType::Eof);
}

#[test]
fn string_literal_payload_drops_delimiters() {
    let tokens = scan("\"hi\"");
    assert_eq!(tokens.len(), 2);
    assert_eq!(tokens[0].token_type, TokenType::String("hi".to_owned()));
    assert_eq!(tokens[0].lexeme, "\"hi\"");
}

#[test]
fn unterminated_string_reports_and_emits_nothing() {
    let (tokens, errors) = scan_with_errors("\"unterminated");
    assert_eq!(tokens.len(), 1);
    assert_eq!(tokens[0].token_type, TokenType::Eof);
    assert_eq!(errors.len(), 1);
    assert_eq!(errors[0], (1, "Unterminated string.".to_owned()));
}

#[test]
fn string_may_span_lines() {
    let tokens = scan("\"a\nb\"");
    assert_eq!(tokens.len(), 2);
    assert_eq!(tokens[0].token_type, TokenType::String("a\nb".to_owned()));
    assert_eq!(tokens[0].line, 2);
    assert_eq!(tokens[1].line, 2);
}

#[test]
fn identifiers_and_keywords() {
    let tokens = scan("foo");
    assert_eq!(tokens[0].token_type, TokenType::Identifier("foo".to_owned()));

    let tokens = scan("if");
    assert_eq!(tokens[0].token_type, TokenType::If);

    let tokens = scan("iff");
    assert_eq!(tokens[0].token_type, TokenType::Identifier("iff".to_owned()));
}

#[test]
fn every_reserved_word_is_recognized() {
    let cases = [
        ("and", TokenType::And),
        ("class", TokenType::Class),
        ("else", TokenType::Else),
        ("false", TokenType::False),
        ("fn", TokenType::Fn),
        ("for", TokenType::For),
        ("if", TokenType::If),
        ("nil", TokenType::Nil),
        ("or", TokenType::Or),
        ("print", TokenType::Print),
        ("return", TokenType::Return),
        ("this", TokenType::This),
        ("true", TokenType::True),
        ("var", TokenType::Var),
        ("while", TokenType::While),
    ];
    for (source, expected) in cases {
        let tokens = scan(source);
        assert_eq!(tokens.len(), 2, "source {:?}", source);
        assert_eq!(tokens[0].token_type, expected, "source {:?}", source);
    }
}

#[test]
fn comment_discards_rest_of_line() {
    let tokens = scan("// comment\n+");
    assert_eq!(tokens.len(), 2);
    assert_eq!(tokens[0].token_type, TokenType::Plus);
    assert_eq!(tokens[0].line, 2);
    assert_eq!(tokens[1].token_type, TokenType::Eof);
}

#[test]
fn comment_at_end_of_input() {
    let tokens = scan("// nothing after this");
    assert_eq!(tokens.len(), 1);
    assert_eq!(tokens[0].token_type, TokenType::Eof);
    assert_eq!(tokens[0].line, 1);
}

#[test]
fn eof_line_counts_embedded_newlines() {
    let tokens = scan("a\n\nb");
    assert_eq!(tokens.last().unwrap().line, 3);

    let tokens = scan("(\n)\n");
    assert_eq!(tokens.last().unwrap().line, 3);

    let tokens = scan("no newline at all");
    assert_eq!(tokens.last().unwrap().line, 1);
}

#[test]
fn unexpected_characters_each_report_once() {
    let (tokens, errors) = scan_with_errors("@ #");
    assert_eq!(tokens.len(), 1);
    assert_eq!(errors.len(), 2);
    assert_eq!(errors[0], (1, "Unexpected Character.".to_owned()));
    assert_eq!(errors[1], (1, "Unexpected Character.".to_owned()));
}

#[test]
fn scanning_continues_after_an_error() {
    let (tokens, errors) = scan_with_errors("@+");
    assert_eq!(errors.len(), 1);
    assert_eq!(tokens.len(), 2);
    assert_eq!(tokens[0].token_type, TokenType::Plus);
}

#[test]
fn mixed_statement_scans_in_order() {
    let tokens = scan("var answer = 42;");
    let types: Vec<TokenType> = tokens.into_iter().map(|t| t.token_type).collect();
    assert_eq!(
        types,
        vec![
            TokenType::Var,
            TokenType::Identifier("answer".to_owned()),
            TokenType::Equal,
            TokenType::Number("42".to_owned()),
            TokenType::Semicolon,
            TokenType::Eof,
        ]
    );
}

#[test]
fn token_text_renders_categories() {
    assert_eq!(TokenType::BangEqual.text(), "!=");
    assert_eq!(TokenType::Identifier("foo".to_owned()).text(), "Identifier(foo)");
    assert_eq!(TokenType::String("hi".to_owned()).text(), "String(hi)");
    assert_eq!(TokenType::Number("123".to_owned()).text(), "Number(123)");
    assert_eq!(TokenType::While.text(), "while");
    assert_eq!(TokenType::Eof.text(), "Eof");
}

#[test]
fn slash_between_numbers_is_division() {
    let tokens = scan("8/2");
    let types: Vec<TokenType> = tokens.into_iter().map(|t| t.token_type).collect();
    assert_eq!(
        types,
        vec![
            TokenType::Number("8".to_owned()),
            TokenType::Slash,
            TokenType::Number("2".to_owned()),
            TokenType::Eof,
        ]
    );
}

#[test]
fn multi_line_program_keeps_line_numbers() {
    let source = "var x = 1;\n// half\nprint x <= 2; \"done\"\n";
    let tokens = scan(source);
    let summary: Vec<(TokenType, usize)> =
        tokens.into_iter().map(|t| (t.token_type, t.line)).collect();
    assert_eq!(
        summary,
        vec![
            (TokenType::Var, 1),
            (TokenType::Identifier("x".to_owned()), 1),
            (TokenType::Equal, 1),
            (TokenType::Number("1".to_owned()), 1),
            (TokenType::Semicolon, 1),
            (TokenType::Print, 3),
            (TokenType::Identifier("x".to_owned()), 3),
            (TokenType::LessEqual, 3),
            (TokenType::Number("2".to_owned()), 3),
            (TokenType::Semicolon, 3),
            (TokenType::String("done".to_owned()), 3),
            (TokenType::Eof, 4),
        ]
    );
}
