use crate::parser::{carries_value, has_value, value, value_pieces};
use crate::piece::{Piece, SpecPiece};
use crate::text::{decimal, push_decimal};
use crate::token::{description, SpecToken, Token};
use vstd::prelude::*;

verus! {

/// How much of a token is rendered.
#[derive(Debug, PartialEq, Eq, Clone, Copy)]
pub enum Profile {
    /// Kind, source text and value of every token.
    Tokenizer,
    /// The value alone, of tokens that carry one.
    Parser,
}

/// A line to be written, and the stream it goes to.
#[derive(Debug, PartialEq, Clone)]
pub enum Line {
    /// A line for the standard output.
    Output(Vec<Piece>),
    /// A line for the diagnostic stream.
    Diagnostic(String),
}

/// The mathematical value of a [`Line`].
pub enum SpecLine {
    Output(Seq<SpecPiece>),
    Diagnostic(Seq<char>),
}

impl View for Line {
    type V = SpecLine;

    open spec fn view(&self) -> SpecLine {
        match self {
            Line::Output(pieces) => SpecLine::Output(pieces.deep_view()),
            Line::Diagnostic(message) => SpecLine::Diagnostic(message@),
        }
    }
}

impl DeepView for Line {
    type V = SpecLine;

    open spec fn deep_view(&self) -> SpecLine {
        self@
    }
}

/// The report of a character that starts no token.
pub open spec fn unexpected_character(line: nat, c: char) -> Seq<char> {
    "[line "@ + decimal(line) + "] Error: Unexpected character: "@ + seq![c]
}

/// The report of a string literal that its line leaves open.
pub open spec fn unterminated_string(line: nat) -> Seq<char> {
    "[line "@ + decimal(line) + "] Error: Unterminated string."@
}

/// The tokens that give no line of output: whitespace and comments.
pub open spec fn is_skipped(token: SpecToken) -> bool {
    token is Space || token is Tab || token is Newline || token is Comment
}

/// What one token gives to write under `profile`: a report for an error,
/// nothing for a token that is skipped, and else one line of output.
pub open spec fn rendered(token: SpecToken, profile: Profile) -> Seq<SpecLine> {
    match token {
        SpecToken::UnexpectedToken(line, c) => seq![
            SpecLine::Diagnostic(unexpected_character(line, c)),
        ],
        SpecToken::UnterminatedString(line) => seq![
            SpecLine::Diagnostic(unterminated_string(line)),
        ],
        _ => if is_skipped(token) {
            Seq::empty()
        } else {
            match profile {
                Profile::Tokenizer => seq![SpecLine::Output(description(token))],
                Profile::Parser => seq![SpecLine::Output(value(token))],
            }
        },
    }
}

/// Whether `token` can be rendered under `profile`: under
/// [`Profile::Parser`] a token that gives a line of output must carry a
/// value.
pub open spec fn renders(token: SpecToken, profile: Profile) -> bool {
    profile == Profile::Tokenizer || is_skipped(token) || token is UnexpectedToken
        || token is UnterminatedString || has_value(token)
}

/// What the tokens of a line give to write under `profile`, in the order of
/// the tokens and up to the first comment.
pub open spec fn printed(tokens: Seq<SpecToken>, profile: Profile) -> Seq<SpecLine>
    decreases tokens.len(),
{
    if tokens.len() == 0 || tokens[0] == SpecToken::Comment {
        Seq::empty()
    } else {
        rendered(tokens[0], profile) + printed(tokens.drop_first(), profile)
    }
}

/// Whether every token up to the first comment can be rendered under
/// `profile`.
pub open spec fn printable(tokens: Seq<SpecToken>, profile: Profile) -> bool
    decreases tokens.len(),
{
    tokens.len() == 0 || tokens[0] == SpecToken::Comment || (renders(tokens[0], profile)
        && printable(tokens.drop_first(), profile))
}

/// Every token can be rendered under [`Profile::Tokenizer`].
pub proof fn lemma_tokenizer_prints_all(tokens: Seq<SpecToken>)
    ensures
        printable(tokens, Profile::Tokenizer),
    decreases tokens.len(),
{
    if tokens.len() > 0 {
        lemma_tokenizer_prints_all(tokens.drop_first());
    }
}

/// Whether `print_tokens` accepts `tokens` under `profile`.
pub fn can_print(tokens: &[Token], profile: Profile) -> (accepted: bool)
    ensures
        accepted == printable(tokens.deep_view(), profile),
{
    let ghost all = tokens.deep_view();
    let mut i: usize = 0;
    assert(all.skip(0) == all);
    while i < tokens.len()
        invariant
            i <= tokens.len(),
            all == tokens.deep_view(),
            printable(all, profile) == printable(all.skip(i as int), profile),
        decreases tokens.len() - i,
    {
        proof {
            assert(all.skip(i as int)[0] == tokens@[i as int]@);
            assert(all.skip(i as int).drop_first() == all.skip(i + 1));
        }
        let accepted = match &tokens[i] {
            Token::Comment => {
                return true;
            },
            Token::UnexpectedToken(_, _) => true,
            Token::UnterminatedString(_) => true,
            Token::Space => true,
            Token::Tab => true,
            Token::Newline => true,
            token => match profile {
                Profile::Tokenizer => true,
                Profile::Parser => carries_value(token),
            },
        };
        if !accepted {
            return false;
        }
        i = i + 1;
    }
    true
}

/// Renders the tokens of one line under `profile`.
///
/// Gives the lines to write, each with its stream, in the order of the
/// tokens. Nothing is rendered of a comment and of what follows it.
pub fn print_tokens(tokens: &[Token], profile: Profile) -> (lines: Vec<Line>)
    requires
        printable(tokens.deep_view(), profile),
    ensures
        lines.deep_view() == printed(tokens.deep_view(), profile),
{
    let ghost all = tokens.deep_view();
    let mut lines: Vec<Line> = Vec::new();
    let mut i: usize = 0;
    assert(all.skip(0) == all);
    assert(lines.deep_view() + printed(all, profile) == printed(all, profile));
    while i < tokens.len()
        invariant
            i <= tokens.len(),
            all == tokens.deep_view(),
            printable(all.skip(i as int), profile),
            printed(all, profile) == lines.deep_view() + printed(all.skip(i as int), profile),
        decreases tokens.len() - i,
    {
        let ghost before = lines.deep_view();
        proof {
            assert(all.skip(i as int)[0] == tokens@[i as int]@);
            assert(all.skip(i as int).drop_first() == all.skip(i + 1));
        }
        match &tokens[i] {
            Token::Comment => {
                assert(lines.deep_view() + Seq::<SpecLine>::empty() == lines.deep_view());
                return lines;
            },
            Token::UnexpectedToken(line, c) => {
                let mut message = String::from_str("[line ");
                push_decimal(&mut message, *line);
                message.append("] Error: Unexpected character: ");
                message.push(*c);
                assert(message@ == unexpected_character(*line as nat, *c));
                lines.push(Line::Diagnostic(message));
            },
            Token::UnterminatedString(line) => {
                let mut message = String::from_str("[line ");
                push_decimal(&mut message, *line);
                message.append("] Error: Unterminated string.");
                lines.push(Line::Diagnostic(message));
            },
            Token::Space => {},
            Token::Tab => {},
            Token::Newline => {},
            token => {
                let pieces = match profile {
                    Profile::Tokenizer => token.pieces(),
                    Profile::Parser => value_pieces(token),
                };
                lines.push(Line::Output(pieces));
            },
        }
        assert(lines.deep_view() == before + rendered(all[i as int], profile));
        i = i + 1;
    }
    assert(lines.deep_view() + Seq::<SpecLine>::empty() == lines.deep_view());
    lines
}

} // verus!
