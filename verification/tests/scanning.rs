use lox_lexer::scanner::interpret_tokens;
use lox_lexer::token::Token;

fn scan_line(line_number: usize, line: &str) -> (Vec<Token>, bool) {
    interpret_tokens(line_number, line.to_string())
}

fn name(text: &str) -> Token {
    Token::Identifier(text.to_string())
}

fn word(text: &str) -> Token {
    Token::ReservedWord(text.to_string())
}

fn number(text: &str) -> Token {
    Token::NumberLiterals(text.to_string())
}

fn string(text: &str) -> Token {
    Token::StringLiterals(text.to_string())
}

#[test]
fn empty_line_has_no_tokens() {
    assert_eq!(scan_line(1, ""), (vec![], true));
}

#[test]
fn each_punctuation_character_is_one_token() {
    let cases = vec![
        ("!", Token::Bang),
        (",", Token::Comma),
        (".", Token::Dot),
        ("-", Token::Minus),
        ("+", Token::Plus),
        (";", Token::Semicolon),
        ("/", Token::Slash),
        ("*", Token::Star),
        ("=", Token::Equal),
        ("<", Token::Less),
        (">", Token::Greater),
        ("(", Token::LeftParen),
        (")", Token::RightParen),
        ("{", Token::LeftBrace),
        ("}", Token::RightBrace),
    ];
    for (text, token) in cases {
        assert_eq!(scan_line(1, text), (vec![token], true), "for {:?}", text);
    }
}

#[test]
fn whitespace_characters_are_tokens_too() {
    assert_eq!(
        scan_line(1, " \t\n"),
        (vec![Token::Space, Token::Tab, Token::Newline], true)
    );
}

#[test]
fn brackets_are_four_tokens() {
    assert_eq!(
        scan_line(1, "(){}"),
        (
            vec![Token::LeftParen, Token::RightParen, Token::LeftBrace, Token::RightBrace],
            true
        )
    );
}

#[test]
fn equal_joins_the_operator_before_it() {
    assert_eq!(scan_line(1, "=="), (vec![Token::EqualEqual], true));
    assert_eq!(scan_line(1, "!="), (vec![Token::BangEqual], true));
    assert_eq!(scan_line(1, "<="), (vec![Token::LessEqual], true));
    assert_eq!(scan_line(1, ">="), (vec![Token::GreaterEqual], true));
}

#[test]
fn equal_joins_only_once() {
    assert_eq!(scan_line(1, "==="), (vec![Token::EqualEqual, Token::Equal], true));
    assert_eq!(
        scan_line(1, "===="),
        (vec![Token::EqualEqual, Token::EqualEqual], true)
    );
    assert_eq!(scan_line(1, "!=="), (vec![Token::BangEqual, Token::Equal], true));
    assert_eq!(scan_line(1, "<=="), (vec![Token::LessEqual, Token::Equal], true));
}

#[test]
fn whitespace_keeps_operators_apart() {
    assert_eq!(
        scan_line(1, "= ="),
        (vec![Token::Equal, Token::Space, Token::Equal], true)
    );
    assert_eq!(
        scan_line(1, "/ /"),
        (vec![Token::Slash, Token::Space, Token::Slash], true)
    );
}

#[test]
fn equal_does_not_join_other_tokens() {
    assert_eq!(scan_line(1, "+="), (vec![Token::Plus, Token::Equal], true));
    assert_eq!(scan_line(1, "=<"), (vec![Token::Equal, Token::Less], true));
}

#[test]
fn comment_drops_the_rest_of_the_line() {
    assert_eq!(scan_line(1, "// comment"), (vec![Token::Comment], true));
    assert_eq!(scan_line(1, "//"), (vec![Token::Comment], true));
    assert_eq!(
        scan_line(1, "() // @ \"open"),
        (
            vec![Token::LeftParen, Token::RightParen, Token::Space, Token::Comment],
            true
        )
    );
}

#[test]
fn text_before_a_comment_is_scanned_as_without_it() {
    let (alone, alone_ok) = scan_line(3, "var x = 1;");
    let (with_comment, ok) = scan_line(3, "var x = 1;// the rest == @");
    let mut expected = alone.clone();
    expected.push(Token::Comment);
    assert_eq!(with_comment, expected);
    assert_eq!(ok, alone_ok);
}

#[test]
fn third_slash_belongs_to_the_comment() {
    assert_eq!(scan_line(1, "///"), (vec![Token::Comment], true));
    assert_eq!(scan_line(1, "a/b"), (vec![name("a"), Token::Slash, name("b")], true));
}

#[test]
fn slashes_inside_a_string_are_its_text() {
    assert_eq!(scan_line(1, "\"a//b\""), (vec![string("a//b")], true));
}

#[test]
fn closed_string_is_one_token() {
    assert_eq!(scan_line(1, "\"abc\""), (vec![string("abc")], true));
    assert_eq!(scan_line(1, "\"\""), (vec![string("")], true));
}

#[test]
fn open_string_is_one_error() {
    assert_eq!(
        scan_line(7, "\"abc"),
        (vec![Token::UnterminatedString(7)], false)
    );
    assert_eq!(scan_line(7, "\""), (vec![Token::UnterminatedString(7)], false));
}

#[test]
fn open_string_hides_what_would_be_errors() {
    assert_eq!(
        scan_line(2, "x \"a @ # b"),
        (vec![name("x"), Token::Space, Token::UnterminatedString(2)], false)
    );
}

#[test]
fn string_keeps_every_character() {
    assert_eq!(
        scan_line(1, "\"a 1.5 == // @ \t é\""),
        (vec![string("a 1.5 == // @ \t é")], true)
    );
}

#[test]
fn two_strings_on_a_line() {
    assert_eq!(
        scan_line(1, "\"a\"\"b\""),
        (vec![string("a"), string("b")], true)
    );
    assert_eq!(
        scan_line(1, "\"a\" \"b"),
        (vec![string("a"), Token::Space, Token::UnterminatedString(1)], false)
    );
}

#[test]
fn numbers_keep_their_source_text() {
    assert_eq!(scan_line(1, "123"), (vec![number("123")], true));
    assert_eq!(scan_line(1, "123.45"), (vec![number("123.45")], true));
    assert_eq!(scan_line(1, "123.450"), (vec![number("123.450")], true));
    assert_eq!(scan_line(1, "0"), (vec![number("0")], true));
}

#[test]
fn trailing_dot_stays_with_the_number() {
    assert_eq!(scan_line(1, "12."), (vec![number("12.")], true));
    assert_eq!(
        scan_line(1, "12. 3"),
        (vec![number("12."), Token::Space, number("3")], true)
    );
}

#[test]
fn number_takes_one_dot_only() {
    assert_eq!(
        scan_line(1, "1.2.3"),
        (vec![number("1.2"), Token::Dot, number("3")], true)
    );
    assert_eq!(
        scan_line(1, "1.."),
        (vec![number("1."), Token::Dot], true)
    );
}

#[test]
fn dot_without_a_number_is_a_dot() {
    assert_eq!(scan_line(1, "."), (vec![Token::Dot], true));
    assert_eq!(scan_line(1, ".5"), (vec![Token::Dot, number("5")], true));
    assert_eq!(
        scan_line(1, "a.b"),
        (vec![name("a"), Token::Dot, name("b")], true)
    );
}

#[test]
fn names_hold_letters_digits_and_underscores() {
    assert_eq!(scan_line(1, "foo"), (vec![name("foo")], true));
    assert_eq!(scan_line(1, "_a1_B2"), (vec![name("_a1_B2")], true));
    assert_eq!(scan_line(1, "x"), (vec![name("x")], true));
}

#[test]
fn digit_first_starts_a_number() {
    assert_eq!(scan_line(1, "1abc"), (vec![number("1"), name("abc")], true));
    assert_eq!(scan_line(1, "1.a"), (vec![number("1."), name("a")], true));
}

#[test]
fn every_keyword_is_a_reserved_word() {
    let keywords = vec![
        "and", "class", "else", "false", "for", "fun", "if", "nil", "or", "print", "return",
        "super", "this", "true", "var", "while",
    ];
    for keyword in keywords {
        assert_eq!(scan_line(1, keyword), (vec![word(keyword)], true));
    }
}

#[test]
fn keywords_are_lower_case_only() {
    assert_eq!(scan_line(1, "For"), (vec![name("For")], true));
    assert_eq!(scan_line(1, "TRUE"), (vec![name("TRUE")], true));
}

#[test]
fn keyword_inside_a_longer_name_is_an_identifier() {
    assert_eq!(
        scan_line(1, "fore for1 for _or orchid"),
        (
            vec![
                name("fore"),
                Token::Space,
                name("for1"),
                Token::Space,
                word("for"),
                Token::Space,
                name("_or"),
                Token::Space,
                name("orchid"),
            ],
            true
        )
    );
}

#[test]
fn keyword_ends_where_the_name_ends() {
    assert_eq!(
        scan_line(1, "if(true)"),
        (
            vec![word("if"), Token::LeftParen, word("true"), Token::RightParen],
            true
        )
    );
    assert_eq!(scan_line(1, "1or"), (vec![number("1"), word("or")], true));
}

#[test]
fn unexpected_characters_are_recorded_and_the_scan_goes_on() {
    assert_eq!(
        scan_line(4, "@"),
        (vec![Token::UnexpectedToken(4, '@')], false)
    );
    assert_eq!(
        scan_line(9, ",.$(#"),
        (
            vec![
                Token::Comma,
                Token::Dot,
                Token::UnexpectedToken(9, '$'),
                Token::LeftParen,
                Token::UnexpectedToken(9, '#'),
            ],
            false
        )
    );
}

#[test]
fn characters_outside_ascii_are_unexpected() {
    assert_eq!(
        scan_line(1, "é"),
        (vec![Token::UnexpectedToken(1, 'é')], false)
    );
    assert_eq!(
        scan_line(1, "a\r"),
        (vec![name("a"), Token::UnexpectedToken(1, '\r')], false)
    );
}

#[test]
fn error_tokens_carry_the_line_number() {
    assert_eq!(
        scan_line(0, "@"),
        (vec![Token::UnexpectedToken(0, '@')], false)
    );
    assert_eq!(
        scan_line(usize::MAX, "\"x"),
        (vec![Token::UnterminatedString(usize::MAX)], false)
    );
}

#[test]
fn statement_with_all_kinds_of_tokens() {
    assert_eq!(
        scan_line(1, "var n = 3.14 * (a1 >= \"s\");"),
        (
            vec![
                word("var"),
                Token::Space,
                name("n"),
                Token::Space,
                Token::Equal,
                Token::Space,
                number("3.14"),
                Token::Space,
                Token::Star,
                Token::Space,
                Token::LeftParen,
                name("a1"),
                Token::Space,
                Token::GreaterEqual,
                Token::Space,
                string("s"),
                Token::RightParen,
                Token::Semicolon,
            ],
            true
        )
    );
}

#[test]
fn scanning_twice_gives_the_same_tokens() {
    let lines = vec![
        "(){}",
        "// comment",
        "\"hi\" 42 foo",
        "@",
        "\"open",
        "var x = 1.5 >= y; // z",
        "",
    ];
    for line in lines {
        let first = scan_line(5, line);
        let second = scan_line(5, line);
        assert_eq!(first, second);
        assert_eq!(format!("{:?}", first), format!("{:?}", second));
    }
}

#[test]
fn lines_are_scanned_apart() {
    assert_eq!(scan_line(1, "\"a"), (vec![Token::UnterminatedString(1)], false));
    assert_eq!(scan_line(2, "b\""), (vec![name("b"), Token::UnterminatedString(2)], false));
    assert_eq!(scan_line(3, "c"), (vec![name("c")], true));
}

fn source_of(token: &Token) -> String {
    match token {
        Token::Bang => "!".to_string(),
        Token::Comma => ",".to_string(),
        Token::Dot => ".".to_string(),
        Token::Minus => "-".to_string(),
        Token::Plus => "+".to_string(),
        Token::Semicolon => ";".to_string(),
        Token::Slash => "/".to_string(),
        Token::Star => "*".to_string(),
        Token::Equal => "=".to_string(),
        Token::Less => "<".to_string(),
        Token::LessEqual => "<=".to_string(),
        Token::Greater => ">".to_string(),
        Token::GreaterEqual => ">=".to_string(),
        Token::LeftParen => "(".to_string(),
        Token::RightParen => ")".to_string(),
        Token::LeftBrace => "{".to_string(),
        Token::RightBrace => "}".to_string(),
        Token::EqualEqual => "==".to_string(),
        Token::BangEqual => "!=".to_string(),
        Token::Space => " ".to_string(),
        Token::Tab => "\t".to_string(),
        Token::Newline => "\n".to_string(),
        Token::Comment => "//".to_string(),
        Token::ReservedWord(word) => word.clone(),
        Token::StringLiterals(content) => format!("\"{}\"", content),
        Token::NumberLiterals(raw) => raw.clone(),
        Token::Identifier(name) => name.clone(),
        Token::UnexpectedToken(_, c) => c.to_string(),
        Token::UnterminatedString(_) => "\"".to_string(),
    }
}

#[test]
fn tokens_spell_the_line() {
    let lines = vec![
        "",
        "(){};,.-+*/",
        "var x1 = 12.5 >= y_2 != !z;\t\n",
        "\"a b\" \"\" 1..2 for fore @ # é",
        "= == === < <= <==",
    ];
    for line in lines {
        let (tokens, _) = scan_line(1, line);
        let spelled: String = tokens.iter().map(source_of).collect();
        assert_eq!(spelled, line);
    }
    let (tokens, _) = scan_line(1, "a = 1 // b = 2");
    let spelled: String = tokens.iter().map(source_of).collect();
    assert_eq!(spelled, "a = 1 //");
    let (tokens, _) = scan_line(1, "a = \"open to the end");
    let spelled: String = tokens.iter().map(source_of).collect();
    assert_eq!(spelled, "a = \"");
}
