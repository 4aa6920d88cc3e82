use lox_lexer::parser::{carries_value, value_pieces, Parser};
use lox_lexer::piece::{plain_text, with_decimal_point, Piece};
use lox_lexer::printer::{can_print, print_tokens, Line, Profile};
use lox_lexer::scanner::interpret_tokens;
use lox_lexer::text::{has_decimal_point, push_decimal, push_upper_case, same_text};
use lox_lexer::token::Token;
use lox_lexer::tokenizer::Tokenizer;

/// Writes pieces out as a program would, a number by way of a 64-bit float.
fn written(pieces: &[Piece]) -> String {
    let mut out = String::new();
    for piece in pieces {
        match piece {
            Piece::Text(text) => out.push_str(text),
            Piece::Number(raw) => {
                let value: f64 = raw.parse().unwrap();
                out.push_str(&with_decimal_point(value.to_string()));
            }
        }
    }
    out
}

fn text_piece(text: &str) -> Piece {
    Piece::Text(text.to_string())
}

fn output(text: &str) -> Line {
    Line::Output(vec![text_piece(text)])
}

#[test]
fn fixed_tokens_are_described_by_kind_and_character() {
    let cases = vec![
        (Token::Bang, "BANG ! null"),
        (Token::Comma, "COMMA , null"),
        (Token::Dot, "DOT . null"),
        (Token::Minus, "MINUS - null"),
        (Token::Plus, "PLUS + null"),
        (Token::Semicolon, "SEMICOLON ; null"),
        (Token::Slash, "SLASH / null"),
        (Token::Star, "STAR * null"),
        (Token::Equal, "EQUAL = null"),
        (Token::Less, "LESS < null"),
        (Token::LessEqual, "LESS_EQUAL <= null"),
        (Token::Greater, "GREATER > null"),
        (Token::GreaterEqual, "GREATER_EQUAL >= null"),
        (Token::LeftParen, "LEFT_PAREN ( null"),
        (Token::RightParen, "RIGHT_PAREN ) null"),
        (Token::LeftBrace, "LEFT_BRACE { null"),
        (Token::RightBrace, "RIGHT_BRACE } null"),
        (Token::EqualEqual, "EQUAL_EQUAL == null"),
        (Token::BangEqual, "BANG_EQUAL != null"),
    ];
    for (token, text) in cases {
        assert_eq!(token.pieces(), vec![text_piece(text)]);
    }
}

#[test]
fn silent_tokens_have_no_description() {
    let tokens = vec![
        Token::Space,
        Token::Tab,
        Token::Newline,
        Token::Comment,
        Token::UnexpectedToken(1, '@'),
        Token::UnterminatedString(1),
    ];
    for token in tokens {
        assert_eq!(token.pieces(), vec![]);
    }
}

#[test]
fn reserved_word_is_described_in_upper_case() {
    assert_eq!(
        Token::ReservedWord("while".to_string()).pieces(),
        vec![text_piece("WHILE while null")]
    );
    assert_eq!(
        Token::ReservedWord("nil".to_string()).pieces(),
        vec![text_piece("NIL nil null")]
    );
}

#[test]
fn string_is_described_with_and_without_quotes() {
    assert_eq!(
        Token::StringLiterals("hi".to_string()).pieces(),
        vec![text_piece("STRING \"hi\" hi")]
    );
    assert_eq!(
        Token::StringLiterals(String::new()).pieces(),
        vec![text_piece("STRING \"\" ")]
    );
}

#[test]
fn identifier_has_no_value() {
    assert_eq!(
        Token::Identifier("foo".to_string()).pieces(),
        vec![text_piece("IDENTIFIER foo null")]
    );
}

#[test]
fn number_is_described_by_its_text_and_its_value() {
    assert_eq!(
        Token::NumberLiterals("123.45".to_string()).pieces(),
        vec![text_piece("NUMBER 123.45 "), Piece::Number("123.45".to_string())]
    );
}

#[test]
fn number_value_has_a_decimal_place() {
    assert_eq!(written(&Token::NumberLiterals("123".to_string()).pieces()), "NUMBER 123 123.0");
    assert_eq!(
        written(&Token::NumberLiterals("123.450".to_string()).pieces()),
        "NUMBER 123.450 123.45"
    );
    assert_eq!(
        written(&Token::NumberLiterals("123.45".to_string()).pieces()),
        "NUMBER 123.45 123.45"
    );
    assert_eq!(written(&Token::NumberLiterals("42.".to_string()).pieces()), "NUMBER 42. 42.0");
    assert_eq!(
        written(&Token::NumberLiterals("123.000".to_string()).pieces()),
        "NUMBER 123.000 123.0"
    );
}

#[test]
fn decimal_point_is_added_where_there_is_none() {
    assert_eq!(with_decimal_point("123".to_string()), "123.0");
    assert_eq!(with_decimal_point("123.45".to_string()), "123.45");
    assert_eq!(with_decimal_point("0.5".to_string()), "0.5");
    assert_eq!(with_decimal_point("inf".to_string()), "inf.0");
    assert_eq!(with_decimal_point(String::new()), ".0");
}

#[test]
fn decimal_point_is_found_anywhere() {
    assert!(has_decimal_point("1.5"));
    assert!(has_decimal_point("."));
    assert!(has_decimal_point("15."));
    assert!(!has_decimal_point("15"));
    assert!(!has_decimal_point(""));
}

#[test]
fn tokenizer_renders_the_description() {
    assert_eq!(
        Tokenizer::from(Token::LeftBrace).pieces(),
        vec![text_piece("LEFT_BRACE { null")]
    );
    assert_eq!(
        written(&Tokenizer::from(Token::NumberLiterals("42".to_string())).pieces()),
        "NUMBER 42 42.0"
    );
    assert_eq!(
        Tokenizer::from(Token::ReservedWord("and".to_string())).pieces(),
        Token::ReservedWord("and".to_string()).pieces()
    );
}

#[test]
fn parser_renders_the_value() {
    assert_eq!(
        Parser::from(Token::ReservedWord("true".to_string())).pieces(),
        vec![text_piece("true")]
    );
    assert_eq!(
        Parser::from(Token::StringLiterals("hello world".to_string())).pieces(),
        vec![text_piece("hello world")]
    );
    assert_eq!(
        Parser::from(Token::NumberLiterals("10.40".to_string())).pieces(),
        vec![Piece::Number("10.40".to_string())]
    );
    assert_eq!(
        written(&Parser::from(Token::NumberLiterals("10.40".to_string())).pieces()),
        "10.4"
    );
    assert_eq!(
        written(&Parser::from(Token::NumberLiterals("7".to_string())).pieces()),
        "7.0"
    );
}

#[test]
fn parser_supports_tokens_with_a_value_only() {
    assert!(Parser::from(Token::ReservedWord("nil".to_string())).supported());
    assert!(Parser::from(Token::StringLiterals("s".to_string())).supported());
    assert!(Parser::from(Token::NumberLiterals("1".to_string())).supported());
    assert!(!Parser::from(Token::Identifier("x".to_string())).supported());
    assert!(!Parser::from(Token::Plus).supported());
    assert!(!Parser::from(Token::Space).supported());
    assert!(carries_value(&Token::NumberLiterals("1".to_string())));
    assert!(!carries_value(&Token::LeftParen));
    assert_eq!(
        value_pieces(&Token::StringLiterals("s".to_string())),
        vec![text_piece("s")]
    );
}

#[test]
fn plain_text_is_one_piece() {
    assert_eq!(plain_text("abc".to_string()), vec![text_piece("abc")]);
}

#[test]
fn unexpected_character_is_reported() {
    assert_eq!(
        print_tokens(&[Token::UnexpectedToken(4, '@')], Profile::Tokenizer),
        vec![Line::Diagnostic("[line 4] Error: Unexpected character: @".to_string())]
    );
    assert_eq!(
        print_tokens(&[Token::UnexpectedToken(1234567890, 'é')], Profile::Parser),
        vec![Line::Diagnostic(
            "[line 1234567890] Error: Unexpected character: é".to_string()
        )]
    );
}

#[test]
fn unterminated_string_is_reported() {
    assert_eq!(
        print_tokens(&[Token::UnterminatedString(12)], Profile::Tokenizer),
        vec![Line::Diagnostic("[line 12] Error: Unterminated string.".to_string())]
    );
    assert_eq!(
        print_tokens(&[Token::UnterminatedString(0)], Profile::Tokenizer),
        vec![Line::Diagnostic("[line 0] Error: Unterminated string.".to_string())]
    );
}

#[test]
fn whitespace_is_not_printed() {
    assert_eq!(
        print_tokens(
            &[Token::Space, Token::Plus, Token::Tab, Token::Newline, Token::Minus],
            Profile::Tokenizer
        ),
        vec![output("PLUS + null"), output("MINUS - null")]
    );
}

#[test]
fn nothing_is_printed_from_a_comment_on() {
    assert_eq!(
        print_tokens(
            &[Token::Star, Token::Comment, Token::Plus, Token::UnexpectedToken(1, '@')],
            Profile::Tokenizer
        ),
        vec![output("STAR * null")]
    );
    assert_eq!(print_tokens(&[Token::Comment], Profile::Tokenizer), vec![]);
    assert_eq!(print_tokens(&[], Profile::Tokenizer), vec![]);
}

#[test]
fn errors_and_output_keep_the_order_of_the_tokens() {
    let (tokens, ok) = interpret_tokens(3, "a @ 1 # \"x".to_string());
    assert!(!ok);
    assert_eq!(
        print_tokens(&tokens, Profile::Tokenizer),
        vec![
            output("IDENTIFIER a null"),
            Line::Diagnostic("[line 3] Error: Unexpected character: @".to_string()),
            Line::Output(vec![text_piece("NUMBER 1 "), Piece::Number("1".to_string())]),
            Line::Diagnostic("[line 3] Error: Unexpected character: #".to_string()),
            Line::Diagnostic("[line 3] Error: Unterminated string.".to_string()),
        ]
    );
}

#[test]
fn parser_profile_prints_values() {
    let (tokens, ok) = interpret_tokens(1, "true \"a b\" 1.50 // nil".to_string());
    assert!(ok);
    assert!(can_print(&tokens, Profile::Parser));
    assert_eq!(
        print_tokens(&tokens, Profile::Parser),
        vec![
            output("true"),
            output("a b"),
            Line::Output(vec![Piece::Number("1.50".to_string())]),
        ]
    );
}

#[test]
fn parser_profile_refuses_tokens_without_a_value() {
    assert!(!can_print(&[Token::Plus], Profile::Parser));
    assert!(!can_print(
        &[Token::ReservedWord("nil".to_string()), Token::Identifier("x".to_string())],
        Profile::Parser
    ));
    assert!(can_print(
        &[Token::ReservedWord("nil".to_string()), Token::Comment, Token::Plus],
        Profile::Parser
    ));
    assert!(can_print(
        &[Token::Space, Token::UnexpectedToken(1, '@'), Token::UnterminatedString(1)],
        Profile::Parser
    ));
    assert!(can_print(&[Token::Plus, Token::Identifier("x".to_string())], Profile::Tokenizer));
}

#[test]
fn line_numbers_are_written_in_base_ten() {
    let cases: Vec<(usize, &str)> = vec![
        (0, "0"),
        (7, "7"),
        (10, "10"),
        (65, "65"),
        (109, "109"),
        (1000, "1000"),
        (9876543210, "9876543210"),
    ];
    for (n, text) in cases {
        let mut out = String::from("line ");
        push_decimal(&mut out, n);
        assert_eq!(out, format!("line {}", text));
    }
    let mut out = String::new();
    push_decimal(&mut out, usize::MAX);
    assert_eq!(out, format!("{}", usize::MAX));
}

#[test]
fn upper_case_changes_small_letters_only() {
    let mut out = String::from(">");
    push_upper_case(&mut out, "azAZ_09 {`é");
    assert_eq!(out, ">AZAZ_09 {`é");
}

#[test]
fn same_text_compares_every_character() {
    assert!(same_text("", ""));
    assert!(same_text("nil", "nil"));
    assert!(!same_text("nil", "nii"));
    assert!(!same_text("nil", "ni"));
    assert!(!same_text("ni", "nil"));
    assert!(same_text("é", "é"));
    assert!(!same_text("é", "e"));
}
