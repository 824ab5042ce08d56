//! The word list: its lines, the choice of one of them, and the spelling of
//! the umlauts with two letters.

use vstd::prelude::*;
use vstd::string::StringExecFns;

use crate::random::random_index;
use crate::text::push_char;

verus! {

/// The lines of a text: what stands between its line feeds. A text without a
/// line feed is one line, and a line feed at the end leaves an empty last
/// line.
pub open spec fn lines_of(text: Seq<char>) -> Seq<Seq<char>>
    decreases text.len(),
{
    if text.len() == 0 {
        seq![Seq::empty()]
    } else {
        let before = lines_of(text.drop_last());
        if text.last() == '\n' {
            before.push(Seq::empty())
        } else {
            before.drop_last().push(before.last().push(text.last()))
        }
    }
}

/// A text has at least one line.
pub proof fn lemma_lines_nonempty(text: Seq<char>)
    ensures
        lines_of(text).len() >= 1,
    decreases text.len(),
{
    if text.len() > 0 {
        lemma_lines_nonempty(text.drop_last());
    }
}

/// The texts that the strings hold, in order.
pub open spec fn texts(strings: Seq<String>) -> Seq<Seq<char>> {
    strings.map_values(|s: String| s@)
}

/// The lines of `text`.
pub fn split_lines(text: &str) -> (r: Vec<String>)
    ensures
        texts(r@) == lines_of(text@),
        r@.len() >= 1,
{
    let mut lines: Vec<String> = Vec::new();
    let mut current = String::new();
    for c in it: text.chars()
        invariant
            it.seq() == text@,
            texts(lines@).push(current@) =~= lines_of(text@.take(it.index() as int)),
    {
        proof {
            let seen = text@.take(it.index() as int);
            assert(text@.take(it.index() + 1).drop_last() =~= seen);
            lemma_lines_nonempty(seen);
        }
        if c == '\n' {
            lines.push(current);
            current = String::new();
        } else {
            push_char(&mut current, c);
        }
    }
    assert(text@.take(text@.len() as int) == text@);
    lines.push(current);
    assert(texts(lines@) =~= lines_of(text@));
    lines
}

/// The word with each umlaut spelled with two letters: `AE`, `OE` and `UE` for
/// the upper-case A, O and U with diaeresis.
pub open spec fn transliterated(word: Seq<char>) -> Seq<char>
    decreases word.len(),
{
    if word.len() == 0 {
        Seq::empty()
    } else {
        let before = transliterated(word.drop_last());
        let c = word.last();
        if c == '\u{c4}' {
            before.push('A').push('E')
        } else if c == '\u{d6}' {
            before.push('O').push('E')
        } else if c == '\u{dc}' {
            before.push('U').push('E')
        } else {
            before.push(c)
        }
    }
}

/// Spells the umlauts of `word` with two letters.
pub fn transliterate(word: &str) -> (r: String)
    ensures
        r@ == transliterated(word@),
{
    let mut transformed_word = String::new();
    for c in it: word.chars()
        invariant
            it.seq() == word@,
            transformed_word@ == transliterated(word@.take(it.index() as int)),
    {
        proof {
            assert(word@.take(it.index() + 1).drop_last() =~= word@.take(it.index() as int));
        }
        if c == '\u{c4}' {
            transformed_word.append("AE");
            proof {
                reveal_strlit("AE");
                assert("AE"@ =~= seq!['A', 'E']);
            }
        } else if c == '\u{d6}' {
            transformed_word.append("OE");
            proof {
                reveal_strlit("OE");
                assert("OE"@ =~= seq!['O', 'E']);
            }
        } else if c == '\u{dc}' {
            transformed_word.append("UE");
            proof {
                reveal_strlit("UE");
                assert("UE"@ =~= seq!['U', 'E']);
            }
        } else {
            push_char(&mut transformed_word, c);
        }
        assert(transformed_word@ =~= transliterated(word@.take(it.index() + 1)));
    }
    assert(word@.take(word@.len() as int) == word@);
    transformed_word
}

/// One line of `text`, chosen at random.
pub fn random_word(text: &str) -> (r: String)
    ensures
        exists|i: int| 0 <= i < lines_of(text@).len() && r@ == #[trigger] lines_of(text@)[i],
{
    let words = split_lines(text);
    let number = random_index(words.len());
    let word = words[number].clone();
    assert(texts(words@)[number as int] == word@);
    word
}

} // verus!
