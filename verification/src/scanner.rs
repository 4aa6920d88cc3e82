use crate::reserved_words::{is_reserved, is_reserved_word};
use crate::scan_lemmas::{
    lemma_buffer_is_empty_outside_strings, lemma_comment_ends_scan, lemma_scan_is_well_formed,
};
use crate::text::has_decimal_point;
use crate::token::{SpecToken, Token};
use vstd::prelude::*;

verus! {

/// The digits `0` to `9`.
pub open spec fn is_digit(c: char) -> bool {
    '0' <= c && c <= '9'
}

/// Letters and the underscore: the characters a name may begin with.
pub open spec fn is_name_start(c: char) -> bool {
    ('a' <= c && c <= 'z') || ('A' <= c && c <= 'Z') || c == '_'
}

/// The token for a name: a reserved word if the table holds the text, an
/// identifier otherwise.
pub open spec fn name_token(text: Seq<char>) -> SpecToken {
    if is_reserved_word(text) {
        SpecToken::ReservedWord(text)
    } else {
        SpecToken::Identifier(text)
    }
}

/// What `last` becomes when `c` follows it directly, if `c` belongs to the
/// same token: the second character of an operator, of a comment marker, or
/// one more character of a number or a name.
///
/// A number takes digits, and one decimal point. A name takes letters,
/// digits and underscores; it is a reserved word whenever its text is one,
/// and goes on growing all the same, so that what it is in the end is decided
/// by its whole text.
pub open spec fn continued(last: SpecToken, c: char) -> Option<SpecToken> {
    match last {
        SpecToken::Equal => if c == '=' {
            Some(SpecToken::EqualEqual)
        } else {
            None
        },
        SpecToken::Bang => if c == '=' {
            Some(SpecToken::BangEqual)
        } else {
            None
        },
        SpecToken::Less => if c == '=' {
            Some(SpecToken::LessEqual)
        } else {
            None
        },
        SpecToken::Greater => if c == '=' {
            Some(SpecToken::GreaterEqual)
        } else {
            None
        },
        SpecToken::Slash => if c == '/' {
            Some(SpecToken::Comment)
        } else {
            None
        },
        SpecToken::NumberLiterals(raw) => if is_digit(c) || (c == '.' && !raw.contains('.')) {
            Some(SpecToken::NumberLiterals(raw.push(c)))
        } else {
            None
        },
        SpecToken::Identifier(name) => if is_digit(c) || is_name_start(c) {
            Some(name_token(name.push(c)))
        } else {
            None
        },
        SpecToken::ReservedWord(name) => if is_digit(c) || is_name_start(c) {
            Some(name_token(name.push(c)))
        } else {
            None
        },
        _ => None,
    }
}

/// The token of a punctuation character, `None` for every other character.
pub open spec fn punctuation(c: char) -> Option<SpecToken> {
    if c == '!' {
        Some(SpecToken::Bang)
    } else if c == ',' {
        Some(SpecToken::Comma)
    } else if c == '.' {
        Some(SpecToken::Dot)
    } else if c == '-' {
        Some(SpecToken::Minus)
    } else if c == '+' {
        Some(SpecToken::Plus)
    } else if c == ';' {
        Some(SpecToken::Semicolon)
    } else if c == '/' {
        Some(SpecToken::Slash)
    } else if c == '*' {
        Some(SpecToken::Star)
    } else if c == '=' {
        Some(SpecToken::Equal)
    } else if c == '<' {
        Some(SpecToken::Less)
    } else if c == '>' {
        Some(SpecToken::Greater)
    } else if c == '(' {
        Some(SpecToken::LeftParen)
    } else if c == ')' {
        Some(SpecToken::RightParen)
    } else if c == '{' {
        Some(SpecToken::LeftBrace)
    } else if c == '}' {
        Some(SpecToken::RightBrace)
    } else {
        None
    }
}

/// The token of a whitespace character, `None` for every other character.
pub open spec fn whitespace(c: char) -> Option<SpecToken> {
    if c == ' ' {
        Some(SpecToken::Space)
    } else if c == '\t' {
        Some(SpecToken::Tab)
    } else if c == '\n' {
        Some(SpecToken::Newline)
    } else {
        None
    }
}

/// The token that `c` begins on line `line` when it continues nothing.
pub open spec fn started(line: nat, c: char) -> SpecToken {
    if punctuation(c) is Some {
        punctuation(c)->0
    } else if whitespace(c) is Some {
        whitespace(c)->0
    } else if c == '"' {
        SpecToken::UnterminatedString(line)
    } else if is_digit(c) {
        SpecToken::NumberLiterals(seq![c])
    } else if is_name_start(c) {
        name_token(seq![c])
    } else {
        SpecToken::UnexpectedToken(line, c)
    }
}

/// What a scan has made of the characters read so far.
pub struct ScanState {
    /// The tokens, the last of which the next character may still change.
    pub tokens: Seq<SpecToken>,
    /// The text of the string literal that is open, empty when none is.
    pub buffer: Seq<char>,
}

/// A comment has been found: nothing more of the line is read.
pub open spec fn in_comment(tokens: Seq<SpecToken>) -> bool {
    tokens.len() > 0 && tokens.last() == SpecToken::Comment
}

/// A string literal opened on line `line` has not been closed yet.
pub open spec fn in_string(line: nat, tokens: Seq<SpecToken>) -> bool {
    tokens.len() > 0 && tokens.last() == SpecToken::UnterminatedString(line)
}

/// The state after one more character `c` of line `line`.
pub open spec fn step(line: nat, state: ScanState, c: char) -> ScanState {
    if in_comment(state.tokens) {
        state
    } else if in_string(line, state.tokens) {
        if c == '"' {
            ScanState {
                tokens: state.tokens.drop_last().push(SpecToken::StringLiterals(state.buffer)),
                buffer: Seq::empty(),
            }
        } else {
            ScanState { tokens: state.tokens, buffer: state.buffer.push(c) }
        }
    } else if state.tokens.len() > 0 && continued(state.tokens.last(), c) is Some {
        ScanState {
            tokens: state.tokens.drop_last().push(continued(state.tokens.last(), c)->0),
            buffer: Seq::empty(),
        }
    } else {
        ScanState { tokens: state.tokens.push(started(line, c)), buffer: Seq::empty() }
    }
}

/// The state after all of `text`, read from the left as line `line`.
pub open spec fn scan_state(line: nat, text: Seq<char>) -> ScanState
    decreases text.len(),
{
    if text.len() == 0 {
        ScanState { tokens: Seq::empty(), buffer: Seq::empty() }
    } else {
        step(line, scan_state(line, text.drop_last()), text.last())
    }
}

/// The tokens of line number `line` with text `text`.
pub open spec fn scan(line: nat, text: Seq<char>) -> Seq<SpecToken> {
    scan_state(line, text).tokens
}

/// The two kinds of token that record a lexical error.
pub open spec fn is_error(token: SpecToken) -> bool {
    token is UnexpectedToken || token is UnterminatedString
}

/// Whether one of `tokens` records a lexical error.
pub open spec fn has_error(tokens: Seq<SpecToken>) -> bool {
    exists|i: int| 0 <= i < tokens.len() && is_error(#[trigger] tokens[i])
}

/// The text of a number: digits, with at most one decimal point among them
/// and none before the first digit.
pub open spec fn is_number_text(raw: Seq<char>) -> bool {
    &&& raw.len() > 0
    &&& is_digit(raw[0])
    &&& forall|i: int| 0 <= i < raw.len() ==> is_digit(#[trigger] raw[i]) || raw[i] == '.'
    &&& forall|i: int, j: int|
        0 <= i < raw.len() && 0 <= j < raw.len() && #[trigger] raw[i] == '.' && #[trigger] raw[j]
            == '.' ==> i == j
}

/// The text of a name: letters, digits and underscores, the first of them no
/// digit.
pub open spec fn is_name_text(name: Seq<char>) -> bool {
    &&& name.len() > 0
    &&& is_name_start(name[0])
    &&& forall|i: int|
        0 <= i < name.len() ==> is_name_start(#[trigger] name[i]) || is_digit(name[i])
}

/// What holds of each token that a scan of line `line` gives.
pub open spec fn is_well_formed_token(line: nat, token: SpecToken) -> bool {
    match token {
        SpecToken::NumberLiterals(raw) => is_number_text(raw),
        SpecToken::Identifier(name) => is_name_text(name) && !is_reserved_word(name),
        SpecToken::ReservedWord(word) => is_name_text(word) && is_reserved_word(word),
        SpecToken::StringLiterals(content) => !content.contains('"'),
        SpecToken::UnexpectedToken(on, c) => on == line && started(line, c) == token,
        SpecToken::UnterminatedString(on) => on == line,
        _ => true,
    }
}

/// What holds of the tokens that a scan of line `line` gives: each of them is
/// well formed, and only the last of them can be a comment or a string
/// literal that is still open.
pub open spec fn is_well_formed(line: nat, tokens: Seq<SpecToken>) -> bool {
    &&& forall|i: int|
        0 <= i < tokens.len() ==> is_well_formed_token(line, #[trigger] tokens[i])
    &&& forall|i: int|
        0 <= i < tokens.len() - 1 ==> (#[trigger] tokens[i]) != SpecToken::Comment && !(tokens[i]
            is UnterminatedString)
}

/// What a scan of line `line` with text `text` hands back: the tokens, and
/// whether none of them records an error.
pub open spec fn is_scan_of(line: nat, text: Seq<char>, tokens: Seq<SpecToken>, ok: bool) -> bool {
    tokens == scan(line, text) && ok == !has_error(scan(line, text))
}

/// Makes the token for a name out of its text.
fn make_name(text: String) -> (token: Token)
    ensures
        token@ == name_token(text@),
{
    if is_reserved(text.as_str()) {
        Token::ReservedWord(text)
    } else {
        Token::Identifier(text)
    }
}

fn digit(c: char) -> (b: bool)
    ensures
        b == is_digit(c),
{
    '0' <= c && c <= '9'
}

fn name_start(c: char) -> (b: bool)
    ensures
        b == is_name_start(c),
{
    ('a' <= c && c <= 'z') || ('A' <= c && c <= 'Z') || c == '_'
}

/// Lets `c` continue `last`, or hands `last` back where it does not.
fn continue_token(last: Token, c: char) -> (result: Result<Token, Token>)
    ensures
        match continued(last@, c) {
            Some(token) => result is Ok && result->Ok_0@ == token,
            None => result == Err::<Token, Token>(last),
        },
{
    match last {
        Token::Equal => if c == '=' {
            Ok(Token::EqualEqual)
        } else {
            Err(Token::Equal)
        },
        Token::Bang => if c == '=' {
            Ok(Token::BangEqual)
        } else {
            Err(Token::Bang)
        },
        Token::Less => if c == '=' {
            Ok(Token::LessEqual)
        } else {
            Err(Token::Less)
        },
        Token::Greater => if c == '=' {
            Ok(Token::GreaterEqual)
        } else {
            Err(Token::Greater)
        },
        Token::Slash => if c == '/' {
            Ok(Token::Comment)
        } else {
            Err(Token::Slash)
        },
        Token::NumberLiterals(raw) => {
            if digit(c) || (c == '.' && !has_decimal_point(raw.as_str())) {
                let mut raw = raw;
                raw.push(c);
                Ok(Token::NumberLiterals(raw))
            } else {
                Err(Token::NumberLiterals(raw))
            }
        },
        Token::Identifier(name) => {
            if digit(c) || name_start(c) {
                let mut name = name;
                name.push(c);
                Ok(make_name(name))
            } else {
                Err(Token::Identifier(name))
            }
        },
        Token::ReservedWord(name) => {
            if digit(c) || name_start(c) {
                let mut name = name;
                name.push(c);
                Ok(make_name(name))
            } else {
                Err(Token::ReservedWord(name))
            }
        },
        other => Err(other),
    }
}

/// The token that `c` begins on line `line`.
fn start_token(line: usize, c: char) -> (token: Token)
    ensures
        token@ == started(line as nat, c),
{
    if c == '!' {
        Token::Bang
    } else if c == ',' {
        Token::Comma
    } else if c == '.' {
        Token::Dot
    } else if c == '-' {
        Token::Minus
    } else if c == '+' {
        Token::Plus
    } else if c == ';' {
        Token::Semicolon
    } else if c == '/' {
        Token::Slash
    } else if c == '*' {
        Token::Star
    } else if c == '=' {
        Token::Equal
    } else if c == '<' {
        Token::Less
    } else if c == '>' {
        Token::Greater
    } else if c == '(' {
        Token::LeftParen
    } else if c == ')' {
        Token::RightParen
    } else if c == '{' {
        Token::LeftBrace
    } else if c == '}' {
        Token::RightBrace
    } else if c == ' ' {
        Token::Space
    } else if c == '\t' {
        Token::Tab
    } else if c == '\n' {
        Token::Newline
    } else if c == '"' {
        Token::UnterminatedString(line)
    } else if digit(c) {
        let mut raw = String::new();
        raw.push(c);
        assert(raw@ == seq![c]);
        Token::NumberLiterals(raw)
    } else if name_start(c) {
        let mut name = String::new();
        name.push(c);
        assert(name@ == seq![c]);
        make_name(name)
    } else {
        Token::UnexpectedToken(line, c)
    }
}

/// Whether the last of `tokens` is a string literal opened on `line` and
/// still open.
fn string_is_open(tokens: &Vec<Token>, line: usize) -> (open: bool)
    ensures
        open == in_string(line as nat, tokens.deep_view()),
{
    let n = tokens.len();
    if n == 0 {
        false
    } else {
        match &tokens[n - 1] {
            Token::UnterminatedString(opened) => *opened == line,
            _ => false,
        }
    }
}

/// Whether `tokens` holds a token that records a lexical error.
fn any_error(tokens: &Vec<Token>) -> (found: bool)
    ensures
        found == has_error(tokens.deep_view()),
{
    let mut found = false;
    let mut i: usize = 0;
    while i < tokens.len()
        invariant
            i <= tokens.len(),
            found == exists|j: int| 0 <= j < i && is_error(#[trigger] tokens.deep_view()[j]),
        decreases tokens.len() - i,
    {
        match &tokens[i] {
            Token::UnexpectedToken(_, _) => {
                found = true;
            },
            Token::UnterminatedString(_) => {
                found = true;
            },
            _ => {},
        }
        assert(is_error(tokens.deep_view()[i as int]) == is_error(tokens@[i as int]@));
        i = i + 1;
    }
    found
}

/// Scans one line of source text.
///
/// Returns the tokens of the line, whitespace and errors among them, and
/// whether the line is free of lexical errors. `line_number` is recorded in
/// the tokens that report an error.
pub fn interpret_tokens(line_number: usize, line: String) -> (result: (Vec<Token>, bool))
    ensures
        is_scan_of(line_number as nat, line@, result.0.deep_view(), result.1),
        is_well_formed(line_number as nat, result.0.deep_view()),
{
    let ghost n = line_number as nat;
    proof {
        lemma_scan_is_well_formed(n, line@);
    }
    let mut tokens: Vec<Token> = Vec::new();
    let mut buffer = String::new();
    for c in it: line.as_str().chars()
        invariant_except_break
            !in_comment(tokens.deep_view()),
            tokens.deep_view() == scan_state(n, line@.take(it.index())).tokens,
            buffer@ == scan_state(n, line@.take(it.index())).buffer,
        invariant
            it.seq() == line@,
            n == line_number as nat,
            line@.take(line@.len() as int) == line@,
        ensures
            tokens.deep_view() == scan(n, line@),
    {
        let ghost before = scan_state(n, line@.take(it.index()));
        let ghost seen = line@.take(it.index() + 1);
        proof {
            assert(seen.drop_last() == line@.take(it.index()));
            assert(seen.last() == c);
            assert(scan_state(n, seen) == step(n, before, c));
        }
        if string_is_open(&tokens, line_number) {
            if c == '"' {
                tokens.pop();
                tokens.push(Token::StringLiterals(buffer));
                buffer = String::new();
            } else {
                buffer.push(c);
            }
            assert(tokens.deep_view() == scan_state(n, seen).tokens);
        } else {
            proof {
                lemma_buffer_is_empty_outside_strings(n, line@.take(it.index()));
            }
            match tokens.pop() {
                Some(last) => {
                    assert(last@ == before.tokens.last());
                    assert(tokens.deep_view() == before.tokens.drop_last());
                    match continue_token(last, c) {
                        Ok(token) => {
                            let done = match &token {
                                Token::Comment => true,
                                _ => false,
                            };
                            tokens.push(token);
                            assert(tokens.deep_view() == scan_state(n, seen).tokens);
                            if done {
                                proof {
                                    lemma_comment_ends_scan(n, line@, it.index() + 1);
                                }
                                break ;
                            }
                        },
                        Err(last) => {
                            tokens.push(last);
                            tokens.push(start_token(line_number, c));
                            assert(tokens.deep_view() == scan_state(n, seen).tokens);
                        },
                    }
                },
                None => {
                    tokens.push(start_token(line_number, c));
                    assert(tokens.deep_view() == scan_state(n, seen).tokens);
                },
            }
        }
    }
    let ok = !any_error(&tokens);
    (tokens, ok)
}

} // verus!
