use crate::text::same_text;
use vstd::prelude::*;

verus! {

/// Whether `text` is one of the keywords of the language.
pub open spec fn is_reserved_word(text: Seq<char>) -> bool {
    ||| text == "and"@
    ||| text == "class"@
    ||| text == "else"@
    ||| text == "false"@
    ||| text == "for"@
    ||| text == "fun"@
    ||| text == "if"@
    ||| text == "nil"@
    ||| text == "or"@
    ||| text == "print"@
    ||| text == "return"@
    ||| text == "super"@
    ||| text == "this"@
    ||| text == "true"@
    ||| text == "var"@
    ||| text == "while"@
}

/// Looks `word` up in the table of keywords.
pub fn is_reserved(word: &str) -> (found: bool)
    ensures
        found == is_reserved_word(word@),
{
    same_text(word, "and") || same_text(word, "class") || same_text(word, "else") || same_text(
        word,
        "false",
    ) || same_text(word, "for") || same_text(word, "fun") || same_text(word, "if") || same_text(
        word,
        "nil",
    ) || same_text(word, "or") || same_text(word, "print") || same_text(word, "return")
        || same_text(word, "super") || same_text(word, "this") || same_text(word, "true")
        || same_text(word, "var") || same_text(word, "while")
}

/// The keywords, letter by letter.
pub proof fn lemma_reserved_words_spelled_out()
    ensures
        "and"@ == seq!['a', 'n', 'd'],
        "class"@ == seq!['c', 'l', 'a', 's', 's'],
        "else"@ == seq!['e', 'l', 's', 'e'],
        "false"@ == seq!['f', 'a', 'l', 's', 'e'],
        "for"@ == seq!['f', 'o', 'r'],
        "fun"@ == seq!['f', 'u', 'n'],
        "if"@ == seq!['i', 'f'],
        "nil"@ == seq!['n', 'i', 'l'],
        "or"@ == seq!['o', 'r'],
        "print"@ == seq!['p', 'r', 'i', 'n', 't'],
        "return"@ == seq!['r', 'e', 't', 'u', 'r', 'n'],
        "super"@ == seq!['s', 'u', 'p', 'e', 'r'],
        "this"@ == seq!['t', 'h', 'i', 's'],
        "true"@ == seq!['t', 'r', 'u', 'e'],
        "var"@ == seq!['v', 'a', 'r'],
        "while"@ == seq!['w', 'h', 'i', 'l', 'e'],
{
    reveal_strlit("and");
    reveal_strlit("class");
    reveal_strlit("else");
    reveal_strlit("false");
    reveal_strlit("for");
    reveal_strlit("fun");
    reveal_strlit("if");
    reveal_strlit("nil");
    reveal_strlit("or");
    reveal_strlit("print");
    reveal_strlit("return");
    reveal_strlit("super");
    reveal_strlit("this");
    reveal_strlit("true");
    reveal_strlit("var");
    reveal_strlit("while");
}

/// Every keyword is made of two or more letters `a` to `z`, and of nothing
/// else.
pub proof fn lemma_reserved_words_are_lower_case(text: Seq<char>)
    requires
        is_reserved_word(text),
    ensures
        text.len() >= 2,
        forall|i: int| 0 <= i < text.len() ==> 'a' <= #[trigger] text[i] <= 'z',
{
    lemma_reserved_words_spelled_out();
}

} // verus!
