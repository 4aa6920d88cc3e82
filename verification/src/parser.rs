use crate::piece::{plain, plain_text, Piece, SpecPiece};
use crate::token::{SpecToken, Token};
use vstd::prelude::*;
use vstd::std_specs::convert::FromSpecImpl;

verus! {

/// The tokens that carry a value: reserved words, strings and numbers.
pub open spec fn has_value(token: SpecToken) -> bool {
    token is ReservedWord || token is StringLiterals || token is NumberLiterals
}

/// The value of a token that carries one: the word itself, the text of the
/// string without its quotes, or the number.
pub open spec fn value(token: SpecToken) -> Seq<SpecPiece> {
    match token {
        SpecToken::ReservedWord(word) => plain(word),
        SpecToken::StringLiterals(content) => plain(content),
        SpecToken::NumberLiterals(raw) => seq![SpecPiece::Number(raw)],
        _ => Seq::empty(),
    }
}

/// Whether `token` carries a value.
pub fn carries_value(token: &Token) -> (carries: bool)
    ensures
        carries == has_value(token@),
{
    match token {
        Token::ReservedWord(_) => true,
        Token::StringLiterals(_) => true,
        Token::NumberLiterals(_) => true,
        _ => false,
    }
}

/// Renders the value of `token`.
pub fn value_pieces(token: &Token) -> (pieces: Vec<Piece>)
    requires
        has_value(token@),
    ensures
        pieces.deep_view() == value(token@),
{
    match token {
        Token::ReservedWord(word) => plain_text(word.clone()),
        Token::StringLiterals(content) => plain_text(content.clone()),
        Token::NumberLiterals(raw) => {
            let mut pieces = Vec::new();
            pieces.push(Piece::Number(raw.clone()));
            assert(pieces.deep_view() == value(token@));
            pieces
        },
        _ => Vec::new(),
    }
}

/// A token to be rendered as its value alone.
pub struct Parser {
    token: Token,
}

impl View for Parser {
    type V = SpecToken;

    closed spec fn view(&self) -> SpecToken {
        self.token@
    }
}

impl From<Token> for Parser {
    fn from(token: Token) -> (wrapped: Parser)
        ensures
            wrapped@ == token@,
    {
        Parser { token }
    }
}

impl FromSpecImpl<Token> for Parser {
    open spec fn obeys_from_spec() -> bool {
        true
    }

    closed spec fn from_spec(token: Token) -> Parser {
        Parser { token }
    }
}

impl Parser {
    /// Whether the token carries a value, so that it can be rendered.
    pub fn supported(&self) -> (supported: bool)
        ensures
            supported == has_value(self@),
    {
        carries_value(&self.token)
    }

    /// Renders the value of the token.
    pub fn pieces(&self) -> (pieces: Vec<Piece>)
        requires
            has_value(self@),
        ensures
            pieces.deep_view() == value(self@),
    {
        value_pieces(&self.token)
    }
}

} // verus!
