//! Character classes that the scanner dispatches on.
use vstd::prelude::*;

verus! {

/// Whether `c` has the Unicode `White_Space` property.
pub uninterp spec fn whitespace_char(c: char) -> bool;

/// Whether `c` has the Unicode `Alphabetic` property.
pub uninterp spec fn alphabetic_char(c: char) -> bool;

/// Whether `c` is in one of the Unicode numeric general categories.
pub uninterp spec fn numeric_char(c: char) -> bool;

/// Relies on `char::is_whitespace`: the answer depends on the character alone.
#[verifier::external_body]
pub(crate) fn char_is_whitespace(c: char) -> (r: bool)
    ensures
        r == whitespace_char(c),
{
    c.is_whitespace()
}

/// Relies on `char::is_alphabetic`: the answer depends on the character alone.
#[verifier::external_body]
pub(crate) fn char_is_alphabetic(c: char) -> (r: bool)
    ensures
        r == alphabetic_char(c),
{
    c.is_alphabetic()
}

/// Relies on `char::is_numeric`: the answer depends on the character alone.
#[verifier::external_body]
pub(crate) fn char_is_numeric(c: char) -> (r: bool)
    ensures
        r == numeric_char(c),
{
    c.is_numeric()
}

/// Relies on `String::push`: appends one character at the end.
#[verifier::external_body]
pub(crate) fn push_char(s: &mut String, c: char)
    ensures
        final(s)@ == old(s)@.push(c),
{
    s.push(c)
}

/// Whether every character of `s` is whitespace (so an empty text is blank).
pub open spec fn blank(s: Seq<char>) -> bool {
    forall|i: int| 0 <= i < s.len() ==> whitespace_char(#[trigger] s[i])
}

/// Whether the text `s` consists of whitespace only.
pub fn is_whitespace(s: &str) -> (r: bool)
    ensures
        r == blank(s@),
{
    let mut all = true;
    for c in it: s.chars()
        invariant
            it.seq() == s@,
            all == blank(s@.take(it.index() as int)),
    {
        let here = char_is_whitespace(c);
        let ghost done = s@.take(it.index() as int);
        proof {
            assert(s@.take(it.index() + 1) =~= done.push(c));
            if here && all {
                assert forall|i: int| 0 <= i < done.len() + 1 implies whitespace_char(
                    #[trigger] done.push(c)[i],
                ) by {
                    if i < done.len() {
                        assert(done.push(c)[i] == done[i]);
                    }
                }
            } else if !here {
                assert(done.push(c)[done.len() as int] == c);
            } else {
                let j = choose|j: int| 0 <= j < done.len() && !whitespace_char(#[trigger] done[j]);
                assert(done.push(c)[j] == done[j]);
            }
        }
        all = all && here;
    }
    assert(s@.take(s@.len() as int) =~= s@);
    all
}

} // verus!
