use crate::scanner::{
    continued, has_error, in_comment, in_string, is_digit, is_error, is_name_start, is_name_text,
    is_number_text, is_scan_of, is_well_formed, is_well_formed_token, name_token, punctuation,
    scan, scan_state, started, step, ScanState,
};
use crate::token::{lexeme, SpecToken};
use vstd::prelude::*;

verus! {

/// The state after `text`, read from the left as line `line`, when the scan
/// was in `state` before it.
pub open spec fn resume(line: nat, state: ScanState, text: Seq<char>) -> ScanState
    decreases text.len(),
{
    if text.len() == 0 {
        state
    } else {
        step(line, resume(line, state, text.drop_last()), text.last())
    }
}

/// A scan reads one character after the other: what it makes of a text and
/// one more character is a step from what it makes of the text.
pub proof fn lemma_scan_one_more(line: nat, text: Seq<char>, c: char)
    ensures
        scan_state(line, text.push(c)) == step(line, scan_state(line, text), c),
{
    assert(text.push(c).drop_last() == text);
}

/// Scanning a line is scanning its first part and going on from there with
/// the rest.
pub proof fn lemma_scan_in_two_parts(line: nat, first: Seq<char>, rest: Seq<char>)
    ensures
        scan_state(line, first + rest) == resume(line, scan_state(line, first), rest),
    decreases rest.len(),
{
    if rest.len() == 0 {
        assert(first + rest == first);
    } else {
        assert((first + rest).drop_last() == first + rest.drop_last());
        assert((first + rest).last() == rest.last());
        lemma_scan_in_two_parts(line, first, rest.drop_last());
    }
}

/// A scan that has found a comment stays as it is, whatever follows.
pub proof fn lemma_resume_in_comment(line: nat, state: ScanState, text: Seq<char>)
    requires
        in_comment(state.tokens),
    ensures
        resume(line, state, text) == state,
    decreases text.len(),
{
    if text.len() > 0 {
        lemma_resume_in_comment(line, state, text.drop_last());
    }
}

/// Once a comment has been found, the rest of the line changes nothing.
pub proof fn lemma_comment_ends_scan(line: nat, text: Seq<char>, k: int)
    requires
        0 <= k <= text.len(),
        in_comment(scan(line, text.take(k))),
    ensures
        scan_state(line, text) == scan_state(line, text.take(k)),
    decreases text.len() - k,
{
    if k == text.len() {
        assert(text.take(k) == text);
    } else {
        assert(text.drop_last().take(k) == text.take(k));
        lemma_comment_ends_scan(line, text.drop_last(), k);
    }
}

/// One more token that records no error leaves it as it is whether the
/// tokens hold an error.
proof fn lemma_push_keeps_errors(tokens: Seq<SpecToken>, token: SpecToken)
    requires
        !is_error(token),
    ensures
        has_error(tokens.push(token)) == has_error(tokens),
{
    let all = tokens.push(token);
    if has_error(tokens) {
        let i = choose|i: int| 0 <= i < tokens.len() && is_error(#[trigger] tokens[i]);
        assert(is_error(all[i]));
    }
    if has_error(all) {
        let i = choose|i: int| 0 <= i < all.len() && is_error(#[trigger] all[i]);
        assert(is_error(tokens[i]));
    }
}

/// A line that is one punctuation character gives one token, that of the
/// character, and no error.
pub proof fn lemma_single_punctuation(line: nat, c: char)
    requires
        punctuation(c) is Some,
    ensures
        scan(line, seq![c]) == seq![punctuation(c)->0],
        !has_error(scan(line, seq![c])),
{
    let text = seq![c];
    assert(text.drop_last() == Seq::<char>::empty());
    assert(scan_state(line, text.drop_last()).tokens == Seq::<SpecToken>::empty());
    assert(scan(line, text) == seq![punctuation(c)->0]);
}

/// The operator that `=` makes of the character before it, for the four
/// characters that it joins with.
pub open spec fn joined_with_equal(c: char) -> Option<SpecToken> {
    if c == '=' {
        Some(SpecToken::EqualEqual)
    } else if c == '!' {
        Some(SpecToken::BangEqual)
    } else if c == '<' {
        Some(SpecToken::LessEqual)
    } else if c == '>' {
        Some(SpecToken::GreaterEqual)
    } else {
        None
    }
}

/// One of `=`, `!`, `<`, `>` with `=` directly after it gives one token, the
/// two-character operator, and never two tokens.
pub proof fn lemma_operator_with_equal(line: nat, c: char)
    requires
        c == '=' || c == '!' || c == '<' || c == '>',
    ensures
        scan(line, seq![c, '=']) == seq![joined_with_equal(c)->0],
        !has_error(scan(line, seq![c, '='])),
{
    let text = seq![c, '='];
    lemma_single_punctuation(line, c);
    assert(text.drop_last() == seq![c]);
    assert(text.last() == '=');
    let first = scan_state(line, seq![c]);
    assert(first.tokens.last() == punctuation(c)->0);
    assert(continued(first.tokens.last(), '=') == joined_with_equal(c));
    assert(scan(line, text) == seq![joined_with_equal(c)->0]);
}

/// Two slashes end the scan of a line: what stands before them is scanned as
/// if the line ended there, one comment marker takes the place of the two
/// slashes, and what follows them is dropped.
///
/// This holds wherever the slashes are read as the start of a token: not
/// inside a string literal that is open, not after an earlier comment, and
/// not directly after a slash that would pair with the first of them.
pub proof fn lemma_comment_drops_rest(line: nat, before: Seq<char>, after: Seq<char>)
    requires
        !in_string(line, scan(line, before)),
        !in_comment(scan(line, before)),
        scan(line, before).len() > 0 ==> scan(line, before).last() != SpecToken::Slash,
    ensures
        scan(line, before + seq!['/', '/'] + after) == scan(line, before).push(SpecToken::Comment),
        has_error(scan(line, before + seq!['/', '/'] + after)) == has_error(scan(line, before)),
{
    let start = scan_state(line, before);
    let one = before + seq!['/'];
    let two = before + seq!['/', '/'];
    assert(one.drop_last() == before);
    assert(one.last() == '/');
    assert(scan(line, one) == start.tokens.push(SpecToken::Slash));
    assert(two.drop_last() == one);
    assert(two.last() == '/');
    assert(scan(line, one).drop_last() == start.tokens);
    assert(scan(line, two) == start.tokens.push(SpecToken::Comment));
    lemma_scan_in_two_parts(line, two, after);
    lemma_resume_in_comment(line, scan_state(line, two), after);
    lemma_push_keeps_errors(start.tokens, SpecToken::Comment);
}

/// A scan inside a string literal takes every character but the double quote
/// into the text of the literal, and leaves the tokens as they are.
pub proof fn lemma_resume_in_string(line: nat, state: ScanState, content: Seq<char>)
    requires
        in_string(line, state.tokens),
        !content.contains('"'),
    ensures
        resume(line, state, content) == (ScanState {
            tokens: state.tokens,
            buffer: state.buffer + content,
        }),
    decreases content.len(),
{
    if content.len() == 0 {
        assert(state.buffer + content == state.buffer);
    } else {
        let shorter = content.drop_last();
        assert(content.last() == content[content.len() - 1]);
        assert forall|i: int| 0 <= i < shorter.len() implies shorter[i] != '"' by {
            assert(shorter[i] == content[i]);
        }
        lemma_resume_in_string(line, state, shorter);
        assert((state.buffer + shorter).push(content.last()) == state.buffer + content);
    }
}

/// A scan that is not inside a string literal holds no text of one.
pub proof fn lemma_buffer_is_empty_outside_strings(line: nat, text: Seq<char>)
    requires
        !in_string(line, scan(line, text)),
    ensures
        scan_state(line, text).buffer == Seq::<char>::empty(),
    decreases text.len(),
{
    if text.len() > 0 {
        let before = scan_state(line, text.drop_last());
        if in_comment(before.tokens) {
            lemma_buffer_is_empty_outside_strings(line, text.drop_last());
        }
    }
}

/// A double quote opens a string literal, and the next double quote closes
/// it: the characters between the two are the text of one string token,
/// whatever they are. Where the line ends before the second quote, the
/// literal is one error token, and nothing is made of its characters.
///
/// This holds wherever the first quote is read as the start of a token: not
/// inside a string literal that is open, and not after a comment.
pub proof fn lemma_string_literal(line: nat, before: Seq<char>, content: Seq<char>)
    requires
        !in_string(line, scan(line, before)),
        !in_comment(scan(line, before)),
        !content.contains('"'),
    ensures
        scan(line, before + seq!['"'] + content) == scan(line, before).push(
            SpecToken::UnterminatedString(line),
        ),
        has_error(scan(line, before + seq!['"'] + content)),
        scan(line, before + seq!['"'] + content + seq!['"']) == scan(line, before).push(
            SpecToken::StringLiterals(content),
        ),
        has_error(scan(line, before + seq!['"'] + content + seq!['"'])) == has_error(
            scan(line, before),
        ),
{
    let start = scan_state(line, before);
    let opened = before + seq!['"'];
    assert(opened.drop_last() == before);
    assert(opened.last() == '"');
    lemma_buffer_is_empty_outside_strings(line, before);
    let inside = ScanState {
        tokens: start.tokens.push(SpecToken::UnterminatedString(line)),
        buffer: Seq::empty(),
    };
    assert(scan_state(line, opened) == inside);
    lemma_scan_in_two_parts(line, opened, content);
    lemma_resume_in_string(line, inside, content);
    assert(inside.buffer + content == content);
    let open_tokens = scan(line, opened + content);
    assert(is_error(open_tokens[open_tokens.len() - 1]));
    let closed = opened + content + seq!['"'];
    assert(closed.drop_last() == opened + content);
    assert(closed.last() == '"');
    assert(inside.tokens.drop_last() == start.tokens);
    assert(scan(line, closed) == start.tokens.push(SpecToken::StringLiterals(content)));
    lemma_push_keeps_errors(start.tokens, SpecToken::StringLiterals(content));
}

proof fn lemma_name_token_is_well_formed(line: nat, name: Seq<char>)
    requires
        is_name_text(name),
    ensures
        is_well_formed_token(line, name_token(name)),
{
}

/// A name with one more letter, digit or underscore is a name, and its token
/// is well formed.
proof fn lemma_longer_name_is_well_formed(line: nat, name: Seq<char>, c: char)
    requires
        is_name_text(name),
        is_digit(c) || is_name_start(c),
    ensures
        is_name_text(name.push(c)),
        is_well_formed_token(line, name_token(name.push(c))),
{
    let longer = name.push(c);
    assert(longer[0] == name[0]);
    assert forall|i: int| 0 <= i < longer.len() implies is_name_start(#[trigger] longer[i])
        || is_digit(longer[i]) by {
        if i < name.len() {
            assert(longer[i] == name[i]);
        }
    }
    lemma_name_token_is_well_formed(line, longer);
}

proof fn lemma_continued_is_well_formed(line: nat, last: SpecToken, c: char)
    requires
        is_well_formed_token(line, last),
        continued(last, c) is Some,
    ensures
        is_well_formed_token(line, continued(last, c)->0),
{
    match last {
        SpecToken::NumberLiterals(raw) => {
            let longer = raw.push(c);
            assert forall|i: int| 0 <= i < longer.len() implies is_digit(#[trigger] longer[i])
                || longer[i] == '.' by {
                if i < raw.len() {
                    assert(longer[i] == raw[i]);
                }
            }
            assert forall|i: int, j: int|
                0 <= i < longer.len() && 0 <= j < longer.len() && #[trigger] longer[i] == '.'
                    && #[trigger] longer[j] == '.' implies i == j by {
                if i < raw.len() {
                    assert(longer[i] == raw[i]);
                    assert(raw.contains('.'));
                }
                if j < raw.len() {
                    assert(longer[j] == raw[j]);
                    assert(raw.contains('.'));
                }
            }
            assert(longer[0] == raw[0]);
        },
        SpecToken::Identifier(name) => {
            lemma_longer_name_is_well_formed(line, name, c);
        },
        SpecToken::ReservedWord(name) => {
            lemma_longer_name_is_well_formed(line, name, c);
        },
        _ => {},
    }
}

proof fn lemma_started_is_well_formed(line: nat, c: char)
    ensures
        is_well_formed_token(line, started(line, c)),
{
    if punctuation(c) is None && !is_digit(c) && is_name_start(c) && c != '"' {
        lemma_name_token_is_well_formed(line, seq![c]);
    }
}

proof fn lemma_well_formed_with_last_replaced(line: nat, tokens: Seq<SpecToken>, token: SpecToken)
    requires
        is_well_formed(line, tokens),
        tokens.len() > 0,
        is_well_formed_token(line, token),
    ensures
        is_well_formed(line, tokens.drop_last().push(token)),
{
    let replaced = tokens.drop_last().push(token);
    assert forall|i: int| 0 <= i < replaced.len() - 1 implies replaced[i] == tokens[i] by {}
}

proof fn lemma_well_formed_with_one_more(line: nat, tokens: Seq<SpecToken>, token: SpecToken)
    requires
        is_well_formed(line, tokens),
        !in_comment(tokens),
        !in_string(line, tokens),
        is_well_formed_token(line, token),
    ensures
        is_well_formed(line, tokens.push(token)),
{
    let longer = tokens.push(token);
    assert forall|i: int| 0 <= i < longer.len() - 1 implies longer[i] == tokens[i] by {}
    if tokens.len() > 0 {
        assert(is_well_formed_token(line, tokens[tokens.len() - 1]));
    }
}

/// The tokens of a line are well formed: see [`is_well_formed`]. The text
/// that a scan holds of an open string literal has no double quote in it.
pub proof fn lemma_scan_is_well_formed(line: nat, text: Seq<char>)
    ensures
        is_well_formed(line, scan(line, text)),
        !scan_state(line, text).buffer.contains('"'),
    decreases text.len(),
{
    if text.len() > 0 {
        let before = scan_state(line, text.drop_last());
        let c = text.last();
        lemma_scan_is_well_formed(line, text.drop_last());
        if in_comment(before.tokens) {
        } else if in_string(line, before.tokens) {
            if c == '"' {
                lemma_well_formed_with_last_replaced(
                    line,
                    before.tokens,
                    SpecToken::StringLiterals(before.buffer),
                );
            } else {
                let longer = before.buffer.push(c);
                assert forall|i: int| 0 <= i < longer.len() implies longer[i] != '"' by {
                    if i < before.buffer.len() {
                        assert(longer[i] == before.buffer[i]);
                    }
                }
            }
        } else if before.tokens.len() > 0 && continued(before.tokens.last(), c) is Some {
            let last = before.tokens.last();
            lemma_continued_is_well_formed(line, last, c);
            lemma_well_formed_with_last_replaced(line, before.tokens, continued(last, c)->0);
        } else {
            lemma_started_is_well_formed(line, c);
            lemma_well_formed_with_one_more(line, before.tokens, started(line, c));
        }
    }
}

/// The source text of `tokens`, one after the other.
pub open spec fn source(tokens: Seq<SpecToken>) -> Seq<char>
    decreases tokens.len(),
{
    if tokens.len() == 0 {
        Seq::empty()
    } else {
        source(tokens.drop_last()) + lexeme(tokens.last())
    }
}

proof fn lemma_continued_takes_the_character(last: SpecToken, c: char)
    requires
        continued(last, c) is Some,
    ensures
        lexeme(continued(last, c)->0) == lexeme(last).push(c),
{
}

proof fn lemma_started_is_the_character(line: nat, c: char)
    ensures
        lexeme(started(line, c)) == seq![c],
{
}

/// A scan loses no character and invents none: up to a comment, the source
/// text of the tokens, and after it the text of the string literal that is
/// open, is the text that was read; after a comment, it is the text up to and
/// with the two slashes.
pub proof fn lemma_scan_state_spells_the_text(line: nat, text: Seq<char>)
    ensures
        !in_comment(scan(line, text)) ==> source(scan(line, text)) + scan_state(line, text).buffer
            == text,
        in_comment(scan(line, text)) ==> source(scan(line, text)).is_prefix_of(text),
    decreases text.len(),
{
    if text.len() > 0 {
        let shorter = text.drop_last();
        let before = scan_state(line, shorter);
        let c = text.last();
        let after = scan_state(line, text);
        lemma_scan_state_spells_the_text(line, shorter);
        assert(shorter.push(c) == text);
        if in_comment(before.tokens) {
        } else if in_string(line, before.tokens) {
            assert(source(before.tokens) == source(before.tokens.drop_last()) + seq!['"']);
            if c == '"' {
                assert(after.tokens.drop_last() == before.tokens.drop_last());
                assert(source(after.tokens) + after.buffer == text);
            } else {
                assert(source(after.tokens) + after.buffer == text);
            }
        } else if before.tokens.len() > 0 && continued(before.tokens.last(), c) is Some {
            lemma_buffer_is_empty_outside_strings(line, shorter);
            lemma_continued_takes_the_character(before.tokens.last(), c);
            assert(after.tokens.drop_last() == before.tokens.drop_last());
            assert(source(after.tokens) == source(before.tokens).push(c));
            assert(source(after.tokens) + after.buffer == text);
            assert(source(after.tokens) == text.subrange(0, text.len() as int));
        } else {
            lemma_buffer_is_empty_outside_strings(line, shorter);
            lemma_started_is_the_character(line, c);
            assert(after.tokens.drop_last() == before.tokens);
            assert(source(after.tokens) == source(before.tokens).push(c));
            assert(source(after.tokens) + after.buffer == text);
        }
    }
}

/// The tokens of a line spell the line: their source text, one after the
/// other, is the text of the line, where no comment ends it and no string
/// literal is left open. Otherwise it is the beginning of the line, up to and
/// with the two slashes or the opening quote.
pub proof fn lemma_tokens_spell_the_line(line: nat, text: Seq<char>)
    ensures
        source(scan(line, text)).is_prefix_of(text),
        !in_comment(scan(line, text)) && !in_string(line, scan(line, text)) ==> source(
            scan(line, text),
        ) == text,
{
    lemma_scan_state_spells_the_text(line, text);
    let state = scan_state(line, text);
    if !in_comment(state.tokens) {
        if in_string(line, state.tokens) {
            assert(source(state.tokens) == text.subrange(0, source(state.tokens).len() as int));
        } else {
            lemma_buffer_is_empty_outside_strings(line, text);
            assert(source(state.tokens) + state.buffer == source(state.tokens));
            assert(text == text.subrange(0, text.len() as int));
        }
    }
}

/// Whether no token of `tokens` could have taken the first character of the
/// token after it.
pub open spec fn is_greedy(tokens: Seq<SpecToken>) -> bool {
    forall|i: int|
        0 <= i < tokens.len() - 1 ==> continued(#[trigger] tokens[i], lexeme(tokens[i + 1])[0])
            is None
}

proof fn lemma_greedy_with_last_replaced(tokens: Seq<SpecToken>, token: SpecToken)
    requires
        is_greedy(tokens),
        tokens.len() > 0,
        lexeme(token)[0] == lexeme(tokens.last())[0],
    ensures
        is_greedy(tokens.drop_last().push(token)),
{
    let replaced = tokens.drop_last().push(token);
    assert forall|i: int| 0 <= i < replaced.len() - 1 implies continued(
        #[trigger] replaced[i],
        lexeme(replaced[i + 1])[0],
    ) is None by {
        assert(replaced[i] == tokens[i]);
        if i + 1 < replaced.len() - 1 {
            assert(replaced[i + 1] == tokens[i + 1]);
        }
    }
}

proof fn lemma_greedy_with_one_more(tokens: Seq<SpecToken>, token: SpecToken)
    requires
        is_greedy(tokens),
        tokens.len() > 0 ==> continued(tokens.last(), lexeme(token)[0]) is None,
    ensures
        is_greedy(tokens.push(token)),
{
    let longer = tokens.push(token);
    assert forall|i: int| 0 <= i < longer.len() - 1 implies continued(
        #[trigger] longer[i],
        lexeme(longer[i + 1])[0],
    ) is None by {
        assert(longer[i] == tokens[i]);
        if i + 1 < longer.len() - 1 {
            assert(longer[i + 1] == tokens[i + 1]);
        }
    }
}

/// Every token of a line is as long as it can be: a character that could go
/// on with the token before it never starts a token of its own.
pub proof fn lemma_scan_is_greedy(line: nat, text: Seq<char>)
    ensures
        is_greedy(scan(line, text)),
    decreases text.len(),
{
    if text.len() > 0 {
        let before = scan_state(line, text.drop_last());
        let c = text.last();
        lemma_scan_is_greedy(line, text.drop_last());
        if in_comment(before.tokens) {
        } else if in_string(line, before.tokens) {
            if c == '"' {
                lemma_greedy_with_last_replaced(
                    before.tokens,
                    SpecToken::StringLiterals(before.buffer),
                );
            }
        } else if before.tokens.len() > 0 && continued(before.tokens.last(), c) is Some {
            let last = before.tokens.last();
            lemma_scan_is_well_formed(line, text.drop_last());
            lemma_continued_takes_the_character(last, c);
            assert(is_well_formed_token(line, last));
            assert(lexeme(last).len() > 0);
            lemma_greedy_with_last_replaced(before.tokens, continued(last, c)->0);
        } else {
            lemma_started_is_the_character(line, c);
            lemma_greedy_with_one_more(before.tokens, started(line, c));
        }
    }
}

/// One more character changes the last token at most: the tokens before it
/// stay as they are, and no token is taken away.
pub proof fn lemma_step_keeps_earlier_tokens(line: nat, state: ScanState, c: char)
    ensures
        state.tokens.len() <= step(line, state, c).tokens.len() <= state.tokens.len() + 1,
        forall|i: int|
            0 <= i < state.tokens.len() - 1 ==> step(line, state, c).tokens[i]
                == #[trigger] state.tokens[i],
{
}

/// A scan looks back one token and no further: whatever follows on the line,
/// all tokens but the last that a beginning of the line has given stay as
/// they are.
pub proof fn lemma_earlier_tokens_stay(line: nat, text: Seq<char>, more: Seq<char>)
    ensures
        scan(line, text).len() <= scan(line, text + more).len(),
        forall|i: int|
            0 <= i < scan(line, text).len() - 1 ==> scan(line, text + more)[i] == #[trigger] scan(
                line,
                text,
            )[i],
    decreases more.len(),
{
    if more.len() == 0 {
        assert(text + more == text);
    } else {
        let shorter = text + more.drop_last();
        assert((text + more).drop_last() == shorter);
        assert((text + more).last() == more.last());
        lemma_earlier_tokens_stay(line, text, more.drop_last());
        lemma_step_keeps_earlier_tokens(line, scan_state(line, shorter), more.last());
        assert forall|i: int| 0 <= i < scan(line, text).len() - 1 implies scan(line, text + more)[i]
            == #[trigger] scan(line, text)[i] by {
            assert(scan(line, shorter)[i] == scan(line, text)[i]);
            assert(scan(line, text + more)[i] == scan(line, shorter)[i]);
        }
    }
}

/// A character that starts no token is recorded as an error with the number
/// of the line, and the scan goes on after it: what stands before it is
/// scanned as if the line ended there.
///
/// This holds wherever the character is read as the start of a token: not
/// inside a string literal that is open, and not after a comment.
pub proof fn lemma_unexpected_character_is_recorded(line: nat, before: Seq<char>, c: char)
    requires
        !in_string(line, scan(line, before)),
        !in_comment(scan(line, before)),
        started(line, c) is UnexpectedToken,
    ensures
        scan(line, before + seq![c]) == scan(line, before).push(
            SpecToken::UnexpectedToken(line, c),
        ),
        has_error(scan(line, before + seq![c])),
{
    let text = before + seq![c];
    assert(text.drop_last() == before);
    assert(text.last() == c);
    let tokens = scan(line, text);
    assert(is_error(tokens[tokens.len() - 1]));
}

/// A line has a lexical error exactly where one of its tokens is an
/// unexpected character, or its last token is a string literal left open.
pub proof fn lemma_error_is_unexpected_or_open(line: nat, text: Seq<char>)
    ensures
        has_error(scan(line, text)) <==> ((exists|i: int|
            0 <= i < scan(line, text).len() && (#[trigger] scan(line, text)[i])
                is UnexpectedToken) || in_string(line, scan(line, text))),
{
    let tokens = scan(line, text);
    lemma_scan_is_well_formed(line, text);
    if has_error(tokens) {
        let i = choose|i: int| 0 <= i < tokens.len() && is_error(#[trigger] tokens[i]);
        if tokens[i] is UnterminatedString {
            assert(is_well_formed_token(line, tokens[i]));
            assert(i == tokens.len() - 1);
        }
    }
    if in_string(line, tokens) {
        assert(is_error(tokens[tokens.len() - 1]));
    }
    if exists|i: int| 0 <= i < tokens.len() && (#[trigger] tokens[i]) is UnexpectedToken {
        let i = choose|i: int| 0 <= i < tokens.len() && (#[trigger] tokens[i]) is UnexpectedToken;
        assert(is_error(tokens[i]));
    }
}

/// Whether a name that begins after `tokens` is a token of its own: no
/// string literal is open, no comment has been found, and the last token is
/// not a name that would go on.
pub open spec fn begins_name(line: nat, tokens: Seq<SpecToken>) -> bool {
    &&& !in_string(line, tokens)
    &&& !in_comment(tokens)
    &&& tokens.len() > 0 ==> !(tokens.last() is Identifier) && !(tokens.last() is ReservedWord)
}

/// A name is one token, however long it is, and what kind of token is
/// decided by the whole of its text: a reserved word if the text is one, an
/// identifier otherwise.
pub proof fn lemma_name_is_one_token(line: nat, before: Seq<char>, name: Seq<char>)
    requires
        begins_name(line, scan(line, before)),
        is_name_text(name),
    ensures
        scan(line, before + name) == scan(line, before).push(name_token(name)),
    decreases name.len(),
{
    let start = scan(line, before);
    let c = name.last();
    let shorter = name.drop_last();
    assert((before + name).drop_last() == before + shorter);
    assert((before + name).last() == c);
    assert(is_name_start(name[name.len() - 1]) || is_digit(name[name.len() - 1]));
    if shorter.len() == 0 {
        assert(before + shorter == before);
        assert(name == seq![c]);
    } else {
        assert(shorter[0] == name[0]);
        assert forall|i: int| 0 <= i < shorter.len() implies is_name_start(#[trigger] shorter[i])
            || is_digit(shorter[i]) by {
            assert(shorter[i] == name[i]);
        }
        lemma_name_is_one_token(line, before, shorter);
        assert(shorter.push(c) == name);
        assert(start.push(name_token(shorter)).drop_last() == start);
    }
}

/// Whether a number that begins after `tokens` is a token of its own: no
/// string literal is open, no comment has been found, and the last token is
/// neither a number nor a name, which would take the digits.
pub open spec fn begins_number(line: nat, tokens: Seq<SpecToken>) -> bool {
    &&& begins_name(line, tokens)
    &&& tokens.len() > 0 ==> !(tokens.last() is NumberLiterals)
}

/// A number is one token that holds its text as it stands: digits, a decimal
/// point at most once, and the digits after it.
pub proof fn lemma_number_is_one_token(line: nat, before: Seq<char>, raw: Seq<char>)
    requires
        begins_number(line, scan(line, before)),
        is_number_text(raw),
    ensures
        scan(line, before + raw) == scan(line, before).push(SpecToken::NumberLiterals(raw)),
    decreases raw.len(),
{
    let start = scan(line, before);
    let c = raw.last();
    let shorter = raw.drop_last();
    assert((before + raw).drop_last() == before + shorter);
    assert((before + raw).last() == c);
    assert(is_digit(raw[raw.len() - 1]) || raw[raw.len() - 1] == '.');
    if shorter.len() == 0 {
        assert(before + shorter == before);
        assert(raw == seq![c]);
    } else {
        assert(shorter[0] == raw[0]);
        assert forall|i: int| 0 <= i < shorter.len() implies is_digit(#[trigger] shorter[i])
            || shorter[i] == '.' by {
            assert(shorter[i] == raw[i]);
        }
        assert forall|i: int, j: int|
            0 <= i < shorter.len() && 0 <= j < shorter.len() && #[trigger] shorter[i] == '.'
                && #[trigger] shorter[j] == '.' implies i == j by {
            assert(shorter[i] == raw[i]);
            assert(shorter[j] == raw[j]);
        }
        lemma_number_is_one_token(line, before, shorter);
        assert(shorter.push(c) == raw);
        assert(start.push(SpecToken::NumberLiterals(shorter)).drop_last() == start);
        if c == '.' && shorter.contains('.') {
            let i = choose|i: int| 0 <= i < shorter.len() && shorter[i] == '.';
            assert(raw[i] == '.');
            assert(raw[raw.len() - 1] == '.');
        }
    }
}

/// Scanning is a function of the line number and the text: two scans of the
/// same line under the same number give the same tokens and the same verdict.
pub proof fn lemma_scan_is_deterministic(
    line: nat,
    text: Seq<char>,
    first: Seq<SpecToken>,
    first_ok: bool,
    second: Seq<SpecToken>,
    second_ok: bool,
)
    requires
        is_scan_of(line, text, first, first_ok),
        is_scan_of(line, text, second, second_ok),
    ensures
        first == second,
        first_ok == second_ok,
{
}

} // verus!
