//! Character and string helpers shared by the game modules: the few calls into
//! the standard library that carry no specification of their own, and the
//! joining of pieces into one line of text.

use vstd::prelude::*;

verus! {

/// The uppercase mapping of a character as Unicode defines it: one character
/// or more (the sharp s maps to two).
pub uninterp spec fn uppercase_mapping(c: char) -> Seq<char>;

/// The uppercase equivalent of a whole text as Unicode defines it.
pub uninterp spec fn uppercase_text(s: Seq<char>) -> Seq<char>;

/// The character a guess is taken as: the first character of its uppercase
/// mapping.
pub open spec fn normalized(c: char) -> char {
    uppercase_mapping(c)[0]
}

/// Appends one character to a string.
///
/// Trusted: calls `String::push`, which puts `c` behind what `s` held.
#[verifier::external_body]
pub(crate) fn push_char(s: &mut String, c: char)
    ensures
        final(s)@ == old(s)@.push(c),
{
    s.push(c)
}

/// The uppercase mapping of one character.
///
/// Trusted: calls `char::to_uppercase` and collects what its iterator yields.
/// The standard library documents that the iterator yields one or more
/// characters; which ones is left to the name `uppercase_mapping`.
#[verifier::external_body]
pub(crate) fn char_uppercase(c: char) -> (r: Vec<char>)
    ensures
        r@ == uppercase_mapping(c),
        r@.len() >= 1,
{
    c.to_uppercase().collect()
}

/// The uppercase equivalent of a text.
///
/// Trusted: calls `str::to_uppercase`; the result is only named.
#[verifier::external_body]
pub(crate) fn text_uppercase(s: &str) -> (r: String)
    ensures
        r@ == uppercase_text(s@),
{
    s.to_uppercase()
}

/// The first character of the uppercase mapping of `c`.
pub fn normalize(c: char) -> (r: char)
    ensures
        r == normalized(c),
{
    let mapping = char_uppercase(c);
    mapping[0]
}

/// The characters of a text, one by one.
pub fn characters_of(text: &str) -> (r: Vec<char>)
    ensures
        r@ == text@,
{
    let mut chars: Vec<char> = Vec::new();
    for c in it: text.chars()
        invariant
            it.seq() == text@,
            chars@ == text@.take(it.index() as int),
    {
        chars.push(c);
        assert(chars@ =~= text@.take(it.index() + 1));
    }
    assert(text@.take(text@.len() as int) == text@);
    chars
}

/// The characters of `s` with a single space between neighbours.
pub open spec fn spaced(s: Seq<char>) -> Seq<char>
    decreases s.len(),
{
    if s.len() == 0 {
        Seq::empty()
    } else if s.len() == 1 {
        seq![s[0]]
    } else {
        spaced(s.drop_last()).push(' ').push(s.last())
    }
}

/// The pieces in order, with `sep` between neighbours.
pub open spec fn joined(pieces: Seq<Seq<char>>, sep: Seq<char>) -> Seq<char>
    decreases pieces.len(),
{
    if pieces.len() == 0 {
        Seq::empty()
    } else if pieces.len() == 1 {
        pieces[0]
    } else {
        joined(pieces.drop_last(), sep) + sep + pieces.last()
    }
}

/// A text of `n` characters joined by single spaces has `2n - 1` characters,
/// the given ones at the even places and spaces at the odd ones.
pub proof fn lemma_spaced_shape(s: Seq<char>)
    ensures
        spaced(s).len() == if s.len() == 0 { 0 } else { 2 * s.len() - 1 },
        forall|i: int| 0 <= i < s.len() ==> #[trigger] spaced(s)[2 * i] == s[i],
        forall|i: int| 0 <= i < s.len() - 1 ==> #[trigger] spaced(s)[2 * i + 1] == ' ',
    decreases s.len(),
{
    if s.len() >= 2 {
        let init = s.drop_last();
        lemma_spaced_shape(init);
        assert forall|i: int| 0 <= i < s.len() implies #[trigger] spaced(s)[2 * i] == s[i] by {
            if i < init.len() {
                assert(spaced(init)[2 * i] == init[i]);
            }
        }
        assert forall|i: int| 0 <= i < s.len() - 1 implies #[trigger] spaced(s)[2 * i + 1]
            == ' ' by {
            if i < init.len() - 1 {
                assert(spaced(init)[2 * i + 1] == ' ');
            }
        }
    }
}

} // verus!
