use crate::piece::{plain, plain_text, Piece, SpecPiece};
use crate::text::{push_upper_case, upper_case};
use vstd::prelude::*;

verus! {

/// One lexical unit of a source line.
#[derive(Debug, PartialEq, Clone)]
pub enum Token {
    Bang,
    Comma,
    Dot,
    Minus,
    Plus,
    Semicolon,
    Slash,
    Star,
    Equal,
    Less,
    LessEqual,
    Greater,
    GreaterEqual,
    LeftParen,
    RightParen,
    LeftBrace,
    RightBrace,
    EqualEqual,
    BangEqual,
    Space,
    Tab,
    Newline,
    /// Two slashes: the rest of the line is not scanned.
    Comment,
    /// An identifier whose text is a keyword of the language.
    ReservedWord(String),
    /// The text between two double quotes, without the quotes.
    StringLiterals(String),
    /// A number as it stands in the source.
    NumberLiterals(String),
    Identifier(String),
    /// A character that starts no token, with the line it stands on.
    UnexpectedToken(usize, char),
    /// A string literal that is still open, with the line it was opened on.
    UnterminatedString(usize),
}

/// The mathematical value of a [`Token`]: text is a sequence of characters
/// and line numbers are natural numbers.
pub enum SpecToken {
    Bang,
    Comma,
    Dot,
    Minus,
    Plus,
    Semicolon,
    Slash,
    Star,
    Equal,
    Less,
    LessEqual,
    Greater,
    GreaterEqual,
    LeftParen,
    RightParen,
    LeftBrace,
    RightBrace,
    EqualEqual,
    BangEqual,
    Space,
    Tab,
    Newline,
    Comment,
    ReservedWord(Seq<char>),
    StringLiterals(Seq<char>),
    NumberLiterals(Seq<char>),
    Identifier(Seq<char>),
    UnexpectedToken(nat, char),
    UnterminatedString(nat),
}

impl View for Token {
    type V = SpecToken;

    open spec fn view(&self) -> SpecToken {
        match self {
            Token::Bang => SpecToken::Bang,
            Token::Comma => SpecToken::Comma,
            Token::Dot => SpecToken::Dot,
            Token::Minus => SpecToken::Minus,
            Token::Plus => SpecToken::Plus,
            Token::Semicolon => SpecToken::Semicolon,
            Token::Slash => SpecToken::Slash,
            Token::Star => SpecToken::Star,
            Token::Equal => SpecToken::Equal,
            Token::Less => SpecToken::Less,
            Token::LessEqual => SpecToken::LessEqual,
            Token::Greater => SpecToken::Greater,
            Token::GreaterEqual => SpecToken::GreaterEqual,
            Token::LeftParen => SpecToken::LeftParen,
            Token::RightParen => SpecToken::RightParen,
            Token::LeftBrace => SpecToken::LeftBrace,
            Token::RightBrace => SpecToken::RightBrace,
            Token::EqualEqual => SpecToken::EqualEqual,
            Token::BangEqual => SpecToken::BangEqual,
            Token::Space => SpecToken::Space,
            Token::Tab => SpecToken::Tab,
            Token::Newline => SpecToken::Newline,
            Token::Comment => SpecToken::Comment,
            Token::ReservedWord(word) => SpecToken::ReservedWord(word@),
            Token::StringLiterals(content) => SpecToken::StringLiterals(content@),
            Token::NumberLiterals(raw) => SpecToken::NumberLiterals(raw@),
            Token::Identifier(name) => SpecToken::Identifier(name@),
            Token::UnexpectedToken(line, ch) => SpecToken::UnexpectedToken(*line as nat, *ch),
            Token::UnterminatedString(line) => SpecToken::UnterminatedString(*line as nat),
        }
    }
}

impl DeepView for Token {
    type V = SpecToken;

    open spec fn deep_view(&self) -> SpecToken {
        self@
    }
}

/// The source text that `token` was made from. Of a string literal that is
/// still open, it is the opening quote alone.
pub open spec fn lexeme(token: SpecToken) -> Seq<char> {
    match token {
        SpecToken::Bang => seq!['!'],
        SpecToken::Comma => seq![','],
        SpecToken::Dot => seq!['.'],
        SpecToken::Minus => seq!['-'],
        SpecToken::Plus => seq!['+'],
        SpecToken::Semicolon => seq![';'],
        SpecToken::Slash => seq!['/'],
        SpecToken::Star => seq!['*'],
        SpecToken::Equal => seq!['='],
        SpecToken::Less => seq!['<'],
        SpecToken::LessEqual => seq!['<', '='],
        SpecToken::Greater => seq!['>'],
        SpecToken::GreaterEqual => seq!['>', '='],
        SpecToken::LeftParen => seq!['('],
        SpecToken::RightParen => seq![')'],
        SpecToken::LeftBrace => seq!['{'],
        SpecToken::RightBrace => seq!['}'],
        SpecToken::EqualEqual => seq!['=', '='],
        SpecToken::BangEqual => seq!['!', '='],
        SpecToken::Space => seq![' '],
        SpecToken::Tab => seq!['\t'],
        SpecToken::Newline => seq!['\n'],
        SpecToken::Comment => seq!['/', '/'],
        SpecToken::ReservedWord(word) => word,
        SpecToken::StringLiterals(content) => seq!['"'] + content + seq!['"'],
        SpecToken::NumberLiterals(raw) => raw,
        SpecToken::Identifier(name) => name,
        SpecToken::UnexpectedToken(_, c) => seq![c],
        SpecToken::UnterminatedString(_) => seq!['"'],
    }
}

/// The line that describes `token`: the name of its kind, its source text and
/// its value, with one space between them. A token without a value has
/// `null` in its place. Whitespace, comments and errors have no description.
pub open spec fn description(token: SpecToken) -> Seq<SpecPiece> {
    match token {
        SpecToken::Bang => plain("BANG ! null"@),
        SpecToken::Comma => plain("COMMA , null"@),
        SpecToken::Dot => plain("DOT . null"@),
        SpecToken::Minus => plain("MINUS - null"@),
        SpecToken::Plus => plain("PLUS + null"@),
        SpecToken::Semicolon => plain("SEMICOLON ; null"@),
        SpecToken::Slash => plain("SLASH / null"@),
        SpecToken::Star => plain("STAR * null"@),
        SpecToken::Equal => plain("EQUAL = null"@),
        SpecToken::Less => plain("LESS < null"@),
        SpecToken::LessEqual => plain("LESS_EQUAL <= null"@),
        SpecToken::Greater => plain("GREATER > null"@),
        SpecToken::GreaterEqual => plain("GREATER_EQUAL >= null"@),
        SpecToken::LeftParen => plain("LEFT_PAREN ( null"@),
        SpecToken::RightParen => plain("RIGHT_PAREN ) null"@),
        SpecToken::LeftBrace => plain("LEFT_BRACE { null"@),
        SpecToken::RightBrace => plain("RIGHT_BRACE } null"@),
        SpecToken::EqualEqual => plain("EQUAL_EQUAL == null"@),
        SpecToken::BangEqual => plain("BANG_EQUAL != null"@),
        SpecToken::ReservedWord(word) => plain(upper_case(word) + " "@ + word + " null"@),
        SpecToken::StringLiterals(content) => plain("STRING \""@ + content + "\" "@ + content),
        SpecToken::NumberLiterals(raw) => seq![
            SpecPiece::Text("NUMBER "@ + raw + " "@),
            SpecPiece::Number(raw),
        ],
        SpecToken::Identifier(name) => plain("IDENTIFIER "@ + name + " null"@),
        _ => Seq::empty(),
    }
}

impl Token {
    /// Describes the token: the name of its kind, its source text and its
    /// value.
    pub fn pieces(&self) -> (pieces: Vec<Piece>)
        ensures
            pieces.deep_view() == description(self@),
    {
        match self {
            Token::Bang => plain_text(String::from_str("BANG ! null")),
            Token::Comma => plain_text(String::from_str("COMMA , null")),
            Token::Dot => plain_text(String::from_str("DOT . null")),
            Token::Minus => plain_text(String::from_str("MINUS - null")),
            Token::Plus => plain_text(String::from_str("PLUS + null")),
            Token::Semicolon => plain_text(String::from_str("SEMICOLON ; null")),
            Token::Slash => plain_text(String::from_str("SLASH / null")),
            Token::Star => plain_text(String::from_str("STAR * null")),
            Token::Equal => plain_text(String::from_str("EQUAL = null")),
            Token::Less => plain_text(String::from_str("LESS < null")),
            Token::LessEqual => plain_text(String::from_str("LESS_EQUAL <= null")),
            Token::Greater => plain_text(String::from_str("GREATER > null")),
            Token::GreaterEqual => plain_text(String::from_str("GREATER_EQUAL >= null")),
            Token::LeftParen => plain_text(String::from_str("LEFT_PAREN ( null")),
            Token::RightParen => plain_text(String::from_str("RIGHT_PAREN ) null")),
            Token::LeftBrace => plain_text(String::from_str("LEFT_BRACE { null")),
            Token::RightBrace => plain_text(String::from_str("RIGHT_BRACE } null")),
            Token::EqualEqual => plain_text(String::from_str("EQUAL_EQUAL == null")),
            Token::BangEqual => plain_text(String::from_str("BANG_EQUAL != null")),
            Token::ReservedWord(word) => {
                let mut text = String::new();
                push_upper_case(&mut text, word.as_str());
                text.append(" ");
                text.append(word.as_str());
                text.append(" null");
                assert(text@ == upper_case(word@) + " "@ + word@ + " null"@);
                plain_text(text)
            },
            Token::StringLiterals(content) => {
                let mut text = String::from_str("STRING \"");
                text.append(content.as_str());
                text.append("\" ");
                text.append(content.as_str());
                plain_text(text)
            },
            Token::NumberLiterals(raw) => {
                let mut text = String::from_str("NUMBER ");
                text.append(raw.as_str());
                text.append(" ");
                let mut pieces = Vec::new();
                pieces.push(Piece::Text(text));
                pieces.push(Piece::Number(raw.clone()));
                assert(pieces.deep_view() == description(self@));
                pieces
            },
            Token::Identifier(name) => {
                let mut text = String::from_str("IDENTIFIER ");
                text.append(name.as_str());
                text.append(" null");
                plain_text(text)
            },
            _ => {
                let pieces: Vec<Piece> = Vec::new();
                assert(pieces.deep_view() == Seq::<SpecPiece>::empty());
                pieces
            },
        }
    }
}

} // verus!
