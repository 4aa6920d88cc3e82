use crate::text::has_decimal_point;
use vstd::prelude::*;

verus! {

/// A part of a rendered line.
///
/// A line is rendered as a sequence of pieces, to be written one after the
/// other without anything between them.
#[derive(Debug, PartialEq, Clone)]
pub enum Piece {
    /// Text to be written as it stands.
    Text(String),
    /// The value of a number literal, given by the literal's source text. It
    /// is written as [`with_decimal_point`] gives it, from the shortest
    /// decimal text that reads back as the same 64-bit binary number.
    Number(String),
}

/// The mathematical value of a [`Piece`].
pub enum SpecPiece {
    Text(Seq<char>),
    Number(Seq<char>),
}

impl View for Piece {
    type V = SpecPiece;

    open spec fn view(&self) -> SpecPiece {
        match self {
            Piece::Text(text) => SpecPiece::Text(text@),
            Piece::Number(raw) => SpecPiece::Number(raw@),
        }
    }
}

impl DeepView for Piece {
    type V = SpecPiece;

    open spec fn deep_view(&self) -> SpecPiece {
        self@
    }
}

/// The one piece of text `text`.
pub open spec fn plain(text: Seq<char>) -> Seq<SpecPiece> {
    seq![SpecPiece::Text(text)]
}

/// Makes the one piece of text `text`.
pub fn plain_text(text: String) -> (pieces: Vec<Piece>)
    ensures
        pieces.deep_view() == plain(text@),
{
    let mut pieces = Vec::new();
    pieces.push(Piece::Text(text));
    assert(pieces.deep_view() == plain(text@));
    pieces
}

/// How the value of a number is written, given its decimal text: as it
/// stands where it holds a decimal point, with `.0` after it where it holds
/// none.
pub open spec fn decimal_form(rendering: Seq<char>) -> Seq<char> {
    if rendering.contains('.') {
        rendering
    } else {
        rendering + ".0"@
    }
}

/// Gives the decimal text of a number at least one decimal place.
pub fn with_decimal_point(rendering: String) -> (text: String)
    ensures
        text@ == decimal_form(rendering@),
{
    if has_decimal_point(rendering.as_str()) {
        rendering
    } else {
        let mut text = rendering;
        text.append(".0");
        text
    }
}

} // verus!
