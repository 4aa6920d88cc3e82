use crate::piece::{plain, plain_text, Piece, SpecPiece};
use crate::text::same_text;
use crate::token::{SpecToken, Token};
use vstd::prelude::*;

verus! {

/// A literal expression, or a literal in parentheses.
#[derive(Debug, PartialEq)]
pub enum Expression {
    True,
    False,
    Nil,
    StringLiterals(String),
    NumberLiterals(String),
    /// What stands between a pair of parentheses.
    Group(Box<Expression>),
}

/// The mathematical value of an [`Expression`].
pub enum SpecExpression {
    True,
    False,
    Nil,
    StringLiterals(Seq<char>),
    NumberLiterals(Seq<char>),
    Group(Box<SpecExpression>),
}

/// The value of `expression`.
pub open spec fn value_of(expression: Expression) -> SpecExpression
    decreases expression,
{
    match expression {
        Expression::True => SpecExpression::True,
        Expression::False => SpecExpression::False,
        Expression::Nil => SpecExpression::Nil,
        Expression::StringLiterals(content) => SpecExpression::StringLiterals(content@),
        Expression::NumberLiterals(raw) => SpecExpression::NumberLiterals(raw@),
        Expression::Group(inner) => SpecExpression::Group(Box::new(value_of(*inner))),
    }
}

impl View for Expression {
    type V = SpecExpression;

    open spec fn view(&self) -> SpecExpression {
        value_of(*self)
    }
}

impl Clone for Expression {
    fn clone(&self) -> (copy: Expression)
        ensures
            copy == *self,
        decreases self,
    {
        match self {
            Expression::True => Expression::True,
            Expression::False => Expression::False,
            Expression::Nil => Expression::Nil,
            Expression::StringLiterals(content) => Expression::StringLiterals(content.clone()),
            Expression::NumberLiterals(raw) => Expression::NumberLiterals(raw.clone()),
            Expression::Group(inner) => Expression::Group(Box::new((&**inner).clone())),
        }
    }
}

/// The tokens that are a literal: the words `true`, `false` and `nil`, a
/// string and a number.
pub open spec fn is_literal(token: SpecToken) -> bool {
    match token {
        SpecToken::ReservedWord(word) => word == "true"@ || word == "false"@ || word == "nil"@,
        SpecToken::StringLiterals(_) => true,
        SpecToken::NumberLiterals(_) => true,
        _ => false,
    }
}

/// The expression that the literal `token` stands for.
pub open spec fn literal_of(token: SpecToken) -> SpecExpression {
    match token {
        SpecToken::ReservedWord(word) => if word == "true"@ {
            SpecExpression::True
        } else if word == "false"@ {
            SpecExpression::False
        } else {
            SpecExpression::Nil
        },
        SpecToken::StringLiterals(content) => SpecExpression::StringLiterals(content),
        SpecToken::NumberLiterals(raw) => SpecExpression::NumberLiterals(raw),
        _ => SpecExpression::Nil,
    }
}

/// Whether `tokens` begins with what an expression is built from: a literal,
/// or a left parenthesis, a literal and a right parenthesis. What follows is
/// not looked at.
pub open spec fn is_expression(tokens: Seq<SpecToken>) -> bool {
    tokens.len() > 0 && match tokens[0] {
        SpecToken::LeftParen => tokens.len() >= 3 && is_literal(tokens[1]) && tokens[2]
            == SpecToken::RightParen,
        first => is_literal(first),
    }
}

/// The expression that `tokens` begins with, where [`is_expression`] holds of
/// them: the literal, or the group of the literal between the parentheses.
pub open spec fn expression_of(tokens: Seq<SpecToken>) -> SpecExpression {
    match tokens[0] {
        SpecToken::LeftParen => SpecExpression::Group(Box::new(literal_of(tokens[1]))),
        first => literal_of(first),
    }
}

/// How an expression is written: a literal by its value, a group as
/// `(group ` and `)` around what it holds.
pub open spec fn written(expression: SpecExpression) -> Seq<SpecPiece>
    decreases expression,
{
    match expression {
        SpecExpression::True => plain("true"@),
        SpecExpression::False => plain("false"@),
        SpecExpression::Nil => plain("nil"@),
        SpecExpression::StringLiterals(content) => plain(content),
        SpecExpression::NumberLiterals(raw) => seq![SpecPiece::Number(raw)],
        SpecExpression::Group(inner) => plain("(group "@) + written(*inner) + plain(")"@),
    }
}

/// A literal between parentheses builds the group of that literal, whichever
/// of the literals it is.
pub proof fn lemma_parentheses_make_a_group(literal: SpecToken)
    requires
        is_literal(literal),
    ensures
        is_expression(seq![SpecToken::LeftParen, literal, SpecToken::RightParen]),
        expression_of(seq![SpecToken::LeftParen, literal, SpecToken::RightParen])
            == SpecExpression::Group(Box::new(expression_of(seq![literal]))),
        written(expression_of(seq![SpecToken::LeftParen, literal, SpecToken::RightParen]))
            == plain("(group "@) + written(expression_of(seq![literal])) + plain(")"@),
{
}

/// What is built is a group exactly where the first token is a left
/// parenthesis.
pub proof fn lemma_group_begins_with_parenthesis(tokens: Seq<SpecToken>)
    requires
        is_expression(tokens),
    ensures
        expression_of(tokens) is Group <==> tokens[0] == SpecToken::LeftParen,
{
}

/// Makes the expression of a literal; gives `None` for any other token.
fn literal(token: &Token) -> (expression: Option<Expression>)
    ensures
        expression is Some <==> is_literal(token@),
        expression is Some ==> expression->0@ == literal_of(token@),
{
    match token {
        Token::ReservedWord(word) => {
            if same_text(word.as_str(), "true") {
                Some(Expression::True)
            } else if same_text(word.as_str(), "false") {
                Some(Expression::False)
            } else if same_text(word.as_str(), "nil") {
                Some(Expression::Nil)
            } else {
                None
            }
        },
        Token::StringLiterals(content) => Some(Expression::StringLiterals(content.clone())),
        Token::NumberLiterals(raw) => Some(Expression::NumberLiterals(raw.clone())),
        _ => None,
    }
}

/// Whether the first three of `tokens` are a left parenthesis, a literal and
/// a right parenthesis.
fn begins_with_group(tokens: &Vec<Token>) -> (found: bool)
    requires
        tokens.len() > 0,
        tokens[0]@ == SpecToken::LeftParen,
    ensures
        found == is_expression(tokens.deep_view()),
{
    assert(tokens.deep_view()[0] == tokens@[0]@);
    if tokens.len() < 3 {
        return false;
    }
    assert(tokens.deep_view()[1] == tokens@[1]@);
    assert(tokens.deep_view()[2] == tokens@[2]@);
    let closed = match &tokens[2] {
        Token::RightParen => true,
        _ => false,
    };
    closed && literal(&tokens[1]).is_some()
}

impl Expression {
    /// Whether `tokens` begins with what an expression is built from.
    pub fn accepts(tokens: &Vec<Token>) -> (accepted: bool)
        ensures
            accepted == is_expression(tokens.deep_view()),
    {
        if tokens.len() == 0 {
            return false;
        }
        assert(tokens.deep_view()[0] == tokens@[0]@);
        match &tokens[0] {
            Token::LeftParen => begins_with_group(tokens),
            first => literal(first).is_some(),
        }
    }

    /// Builds the expression that `tokens` begins with.
    pub fn from(tokens: Vec<Token>) -> (expression: Expression)
        requires
            is_expression(tokens.deep_view()),
        ensures
            expression@ == expression_of(tokens.deep_view()),
    {
        assert(tokens.deep_view()[0] == tokens@[0]@);
        match &tokens[0] {
            Token::LeftParen => {
                assert(tokens.deep_view()[1] == tokens@[1]@);
                match literal(&tokens[1]) {
                    Some(inner) => Expression::Group(Box::new(inner)),
                    None => Expression::Nil,
                }
            },
            first => match literal(first) {
                Some(expression) => expression,
                None => Expression::Nil,
            },
        }
    }

    /// Writes the expression.
    pub fn pieces(&self) -> (pieces: Vec<Piece>)
        ensures
            pieces.deep_view() == written(self@),
        decreases self,
    {
        match self {
            Expression::True => plain_text(String::from_str("true")),
            Expression::False => plain_text(String::from_str("false")),
            Expression::Nil => plain_text(String::from_str("nil")),
            Expression::StringLiterals(content) => plain_text(content.clone()),
            Expression::NumberLiterals(raw) => {
                let mut pieces = Vec::new();
                pieces.push(Piece::Number(raw.clone()));
                assert(pieces.deep_view() == written(self@));
                pieces
            },
            Expression::Group(inner) => {
                let mut pieces = plain_text(String::from_str("(group "));
                let mut held = inner.pieces();
                pieces.append(&mut held);
                pieces.push(Piece::Text(String::from_str(")")));
                assert(pieces.deep_view() == written(self@));
                pieces
            },
        }
    }
}

} // verus!
