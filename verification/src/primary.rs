use crate::piece::{plain, plain_text, Piece, SpecPiece};
use crate::text::same_text;
use crate::token::{SpecToken, Token};
use vstd::prelude::*;

verus! {

/// A primary expression: a literal, or a literal in parentheses.
#[derive(Debug, PartialEq)]
pub enum Primary {
    True,
    False,
    Nil,
    StringLiterals(String),
    NumberLiterals(String),
    /// A primary expression in parentheses.
    Expression(Box<Primary>),
}

/// The mathematical value of a [`Primary`].
pub enum SpecPrimary {
    True,
    False,
    Nil,
    StringLiterals(Seq<char>),
    NumberLiterals(Seq<char>),
    Expression(Box<SpecPrimary>),
}

/// The value of `primary`.
pub open spec fn value_of(primary: Primary) -> SpecPrimary
    decreases primary,
{
    match primary {
        Primary::True => SpecPrimary::True,
        Primary::False => SpecPrimary::False,
        Primary::Nil => SpecPrimary::Nil,
        Primary::StringLiterals(content) => SpecPrimary::StringLiterals(content@),
        Primary::NumberLiterals(raw) => SpecPrimary::NumberLiterals(raw@),
        Primary::Expression(inner) => SpecPrimary::Expression(Box::new(value_of(*inner))),
    }
}

impl View for Primary {
    type V = SpecPrimary;

    open spec fn view(&self) -> SpecPrimary {
        value_of(*self)
    }
}

impl Clone for Primary {
    fn clone(&self) -> (copy: Primary)
        ensures
            copy == *self,
        decreases self,
    {
        match self {
            Primary::True => Primary::True,
            Primary::False => Primary::False,
            Primary::Nil => Primary::Nil,
            Primary::StringLiterals(content) => Primary::StringLiterals(content.clone()),
            Primary::NumberLiterals(raw) => Primary::NumberLiterals(raw.clone()),
            Primary::Expression(inner) => Primary::Expression(Box::new((&**inner).clone())),
        }
    }
}

/// Whether `tokens` is what a primary expression is built from.
///
/// The first token is one of the words `true`, `false` and `nil`, a string
/// or a number; or it is a left parenthesis, the last token is a right
/// parenthesis, and the tokens between the two are in turn what a primary
/// expression is built from.
pub open spec fn is_primary(tokens: Seq<SpecToken>) -> bool
    decreases tokens.len(),
{
    tokens.len() > 0 && match tokens[0] {
        SpecToken::ReservedWord(word) => word == "true"@ || word == "false"@ || word == "nil"@,
        SpecToken::StringLiterals(_) => true,
        SpecToken::NumberLiterals(_) => true,
        SpecToken::LeftParen => tokens.len() >= 3 && tokens[tokens.len() - 1]
            == SpecToken::RightParen && is_primary(tokens.subrange(1, tokens.len() - 1)),
        _ => false,
    }
}

/// The primary expression that `tokens` stands for, where [`is_primary`]
/// holds of them.
pub open spec fn primary_of(tokens: Seq<SpecToken>) -> SpecPrimary
    decreases tokens.len(),
{
    if tokens.len() == 0 {
        SpecPrimary::Nil
    } else {
        match tokens[0] {
            SpecToken::ReservedWord(word) => if word == "true"@ {
                SpecPrimary::True
            } else if word == "false"@ {
                SpecPrimary::False
            } else {
                SpecPrimary::Nil
            },
            SpecToken::StringLiterals(content) => SpecPrimary::StringLiterals(content),
            SpecToken::NumberLiterals(raw) => SpecPrimary::NumberLiterals(raw),
            _ => if tokens.len() >= 3 {
                SpecPrimary::Expression(
                    Box::new(primary_of(tokens.subrange(1, tokens.len() - 1))),
                )
            } else {
                SpecPrimary::Nil
            },
        }
    }
}

/// Parentheses around what a primary expression is built from are what a
/// group is built from: the group of that expression.
pub proof fn lemma_parentheses_make_a_group(inner: Seq<SpecToken>)
    requires
        is_primary(inner),
    ensures
        is_primary(seq![SpecToken::LeftParen] + inner + seq![SpecToken::RightParen]),
        primary_of(seq![SpecToken::LeftParen] + inner + seq![SpecToken::RightParen])
            == SpecPrimary::Expression(Box::new(primary_of(inner))),
{
    let tokens = seq![SpecToken::LeftParen] + inner + seq![SpecToken::RightParen];
    assert(tokens[0] == SpecToken::LeftParen);
    assert(tokens[tokens.len() - 1] == SpecToken::RightParen);
    assert(tokens.subrange(1, tokens.len() - 1) == inner);
}

/// What is built is a group exactly where the first token is a left
/// parenthesis.
pub proof fn lemma_group_begins_with_parenthesis(tokens: Seq<SpecToken>)
    requires
        is_primary(tokens),
    ensures
        primary_of(tokens) is Expression <==> tokens[0] == SpecToken::LeftParen,
{
}

/// How a primary expression is written: a literal by its value, a group as
/// `(group ` and `)` around what it holds.
pub open spec fn written(primary: SpecPrimary) -> Seq<SpecPiece>
    decreases primary,
{
    match primary {
        SpecPrimary::True => plain("true"@),
        SpecPrimary::False => plain("false"@),
        SpecPrimary::Nil => plain("nil"@),
        SpecPrimary::StringLiterals(content) => plain(content),
        SpecPrimary::NumberLiterals(raw) => seq![SpecPiece::Number(raw)],
        SpecPrimary::Expression(inner) => plain("(group "@) + written(*inner) + plain(")"@),
    }
}

/// Builds the primary expression of the tokens from `from` up to `to`.
fn build(tokens: &Vec<Token>, from: usize, to: usize) -> (primary: Primary)
    requires
        from <= to <= tokens.len(),
        is_primary(tokens.deep_view().subrange(from as int, to as int)),
    ensures
        primary@ == primary_of(tokens.deep_view().subrange(from as int, to as int)),
    decreases to - from,
{
    let ghost part = tokens.deep_view().subrange(from as int, to as int);
    assert(part[0] == tokens@[from as int]@);
    match &tokens[from] {
        Token::ReservedWord(word) => {
            if same_text(word.as_str(), "true") {
                Primary::True
            } else if same_text(word.as_str(), "false") {
                Primary::False
            } else {
                Primary::Nil
            }
        },
        Token::StringLiterals(content) => Primary::StringLiterals(content.clone()),
        Token::NumberLiterals(raw) => Primary::NumberLiterals(raw.clone()),
        _ => {
            assert(part.subrange(1, part.len() - 1) == tokens.deep_view().subrange(
                from + 1,
                to - 1,
            ));
            Primary::Expression(Box::new(build(tokens, from + 1, to - 1)))
        },
    }
}

impl Primary {
    /// Builds the primary expression that `tokens` stands for.
    pub fn new(tokens: Vec<Token>) -> (primary: Primary)
        requires
            is_primary(tokens.deep_view()),
        ensures
            primary@ == primary_of(tokens.deep_view()),
    {
        assert(tokens.deep_view().subrange(0, tokens.len() as int) == tokens.deep_view());
        build(&tokens, 0, tokens.len())
    }

    /// Whether `tokens` is what a primary expression is built from.
    pub fn accepts(tokens: &Vec<Token>) -> (accepted: bool)
        ensures
            accepted == is_primary(tokens.deep_view()),
    {
        assert(tokens.deep_view().subrange(0, tokens.len() as int) == tokens.deep_view());
        accepts_part(tokens, 0, tokens.len())
    }

    /// Writes the expression.
    pub fn pieces(&self) -> (pieces: Vec<Piece>)
        ensures
            pieces.deep_view() == written(self@),
        decreases self,
    {
        match self {
            Primary::True => plain_text(String::from_str("true")),
            Primary::False => plain_text(String::from_str("false")),
            Primary::Nil => plain_text(String::from_str("nil")),
            Primary::StringLiterals(content) => plain_text(content.clone()),
            Primary::NumberLiterals(raw) => {
                let mut pieces = Vec::new();
                pieces.push(Piece::Number(raw.clone()));
                assert(pieces.deep_view() == written(self@));
                pieces
            },
            Primary::Expression(inner) => {
                let mut pieces = plain_text(String::from_str("(group "));
                let mut held = inner.pieces();
                pieces.append(&mut held);
                pieces.push(Piece::Text(String::from_str(")")));
                assert(pieces.deep_view() == written(self@));
                pieces
            },
        }
    }
}

/// Whether the tokens from `from` up to `to` are what a primary expression is
/// built from.
fn accepts_part(tokens: &Vec<Token>, from: usize, to: usize) -> (accepted: bool)
    requires
        from <= to <= tokens.len(),
    ensures
        accepted == is_primary(tokens.deep_view().subrange(from as int, to as int)),
    decreases to - from,
{
    let ghost part = tokens.deep_view().subrange(from as int, to as int);
    if from == to {
        return false;
    }
    assert(part[0] == tokens@[from as int]@);
    match &tokens[from] {
        Token::ReservedWord(word) => same_text(word.as_str(), "true") || same_text(
            word.as_str(),
            "false",
        ) || same_text(word.as_str(), "nil"),
        Token::StringLiterals(_) => true,
        Token::NumberLiterals(_) => true,
        Token::LeftParen => {
            if to - from < 3 {
                false
            } else {
                assert(part[part.len() - 1] == tokens@[to - 1]@);
                assert(part.subrange(1, part.len() - 1) == tokens.deep_view().subrange(
                    from + 1,
                    to - 1,
                ));
                let closed = match &tokens[to - 1] {
                    Token::RightParen => true,
                    _ => false,
                };
                closed && accepts_part(tokens, from + 1, to - 1)
            }
        },
        _ => false,
    }
}

} // verus!
