use crate::piece::Piece;
use crate::token::{description, SpecToken, Token};
use vstd::prelude::*;
use vstd::std_specs::convert::FromSpecImpl;

verus! {

/// A token to be rendered in full: kind, source text and value.
pub struct Tokenizer {
    token: Token,
}

impl View for Tokenizer {
    type V = SpecToken;

    closed spec fn view(&self) -> SpecToken {
        self.token@
    }
}

impl From<Token> for Tokenizer {
    fn from(token: Token) -> (wrapped: Tokenizer)
        ensures
            wrapped@ == token@,
    {
        Tokenizer { token }
    }
}

impl FromSpecImpl<Token> for Tokenizer {
    open spec fn obeys_from_spec() -> bool {
        true
    }

    closed spec fn from_spec(token: Token) -> Tokenizer {
        Tokenizer { token }
    }
}

impl Tokenizer {
    /// Renders the token as the line that describes it.
    pub fn pieces(&self) -> (pieces: Vec<Piece>)
        ensures
            pieces.deep_view() == description(self@),
    {
        self.token.pieces()
    }
}

} // verus!
