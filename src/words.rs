//! Counting the words of a text: maximal runs of characters that are not
//! white space.
use vstd::prelude::*;

verus! {

/// Whether `c` has the Unicode `White_Space` property.
pub uninterp spec fn white_space(c: char) -> bool;

/// Relies on `char::is_whitespace`: whether `c` has the Unicode
/// `White_Space` property, which depends on `c` alone.
#[verifier::external_body]
fn is_white(c: char) -> (r: bool)
    ensures
        r == white_space(c),
{
    c.is_whitespace()
}

/// For each character of `s`, whether it is white space.
pub open spec fn blank_mask(s: Seq<char>) -> Seq<bool> {
    Seq::new(s.len(), |i: int| white_space(s[i]))
}

/// Position `i` of `blank` starts a word: it is not blank, and it is the
/// first position or follows a blank one.
pub open spec fn starts_word(blank: Seq<bool>, i: int) -> bool {
    &&& !blank[i]
    &&& (i == 0 || blank[i - 1])
}

/// The number of positions of `blank` that start a word.
pub open spec fn word_starts(blank: Seq<bool>) -> nat
    decreases blank.len(),
{
    if blank.len() == 0 {
        0
    } else {
        word_starts(blank.drop_last()) + if starts_word(blank, blank.len() - 1) {
            1nat
        } else {
            0nat
        }
    }
}

/// There are no more word starts than positions.
proof fn lemma_word_starts_bounded(blank: Seq<bool>)
    ensures
        word_starts(blank) <= blank.len(),
    decreases blank.len(),
{
    if blank.len() > 0 {
        lemma_word_starts_bounded(blank.drop_last());
    }
}

/// Counts the words of a text given as its blank mask: `blank[i]` tells
/// whether character `i` is white space.
pub fn count_word_starts(blank: &[bool]) -> (r: usize)
    ensures
        r == word_starts(blank@),
{
    let mut count: usize = 0;
    let mut i: usize = 0;
    while i < blank.len()
        invariant
            i <= blank@.len(),
            count == word_starts(blank@.subrange(0, i as int)),
        decreases blank@.len() - i,
    {
        let ghost prefix = blank@.subrange(0, i + 1);
        assert(prefix.drop_last() =~= blank@.subrange(0, i as int));
        proof {
            lemma_word_starts_bounded(blank@.subrange(0, i as int));
        }
        if !blank[i] && (i == 0 || blank[i - 1]) {
            count = count + 1;
        }
        i = i + 1;
    }
    assert(blank@.subrange(0, blank@.len() as int) =~= blank@);
    count
}

/// Counts the words of `text`, the maximal runs of characters that are not
/// white space.
pub fn count_words(text: &String) -> (r: usize)
    ensures
        r == word_starts(blank_mask(text@)),
{
    let mut blank: Vec<bool> = Vec::new();
    for c in it: text.as_str().chars()
        invariant
            it.seq() == text@,
            blank@ =~= blank_mask(text@).subrange(0, it.index()),
    {
        let w = is_white(c);
        blank.push(w);
    }
    assert(blank@ =~= blank_mask(text@));
    count_word_starts(blank.as_slice())
}

} // verus!
