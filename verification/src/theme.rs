//! How the console's legends are set.

use vstd::prelude::*;

use crate::text::{chars_of, string_of};

verus! {

/// A text with a thin space between its letters.
pub open spec fn spaced(s: Seq<char>) -> Seq<char>
    decreases s.len(),
{
    if s.len() <= 1 {
        s
    } else {
        spaced(s.drop_last()).push('\u{2009}').push(s.last())
    }
}

/// A text with a thin space between its letters.
pub fn letter_spaced(s: &str) -> (r: String)
    ensures
        r@ == spaced(s@),
{
    let v: Vec<char> = chars_of(s);
    let mut out: Vec<char> = Vec::new();
    let mut i: usize = 0;
    while i < v.len()
        invariant
            i <= v@.len(),
            out@ == spaced(v@.take(i as int)),
        decreases v@.len() - i,
    {
        assert(v@.take(i + 1).drop_last() == v@.take(i as int));
        if i > 0 {
            out.push('\u{2009}');
        }
        out.push(v[i]);
        assert(out@ == spaced(v@.take(i + 1)));
        i = i + 1;
    }
    assert(v@.take(v@.len() as int) == v@);
    string_of(&out)
}

/// Letters stand at the even places of a spaced text, in their order, and thin spaces at
/// the odd ones.
pub proof fn law_letters_are_kept(s: Seq<char>)
    ensures
        s.len() > 0 ==> spaced(s).len() == 2 * s.len() - 1,
        s.len() == 0 ==> spaced(s).len() == 0,
        forall|i: int| 0 <= i < s.len() ==> spaced(s)[2 * i] == #[trigger] s[i],
        forall|i: int|
            0 <= i < spaced(s).len() && i % 2 == 1 ==> #[trigger] spaced(s)[i] == '\u{2009}',
    decreases s.len(),
{
    if s.len() > 1 {
        law_letters_are_kept(s.drop_last());
        assert forall|i: int| 0 <= i < s.len() implies spaced(s)[2 * i] == #[trigger] s[i] by {
            if i < s.len() - 1 {
                assert(s.drop_last()[i] == s[i]);
            }
        }
    }
}

/// Which of the two palettes is used.
#[derive(Clone, Copy, Debug, PartialEq, Eq, Structural)]
pub enum PaletteName {
    Graphite,
    Silver,
}

/// The palette for the dark or the light face.
pub fn palette(dark: bool) -> (r: PaletteName)
    ensures
        r == (if dark {
            PaletteName::Graphite
        } else {
            PaletteName::Silver
        }),
{
    if dark {
        PaletteName::Graphite
    } else {
        PaletteName::Silver
    }
}

/// Which cells of a switch a click turns on: a click anywhere on it turns on the cells
/// that are off.
pub fn switch_clicks(clicked: bool, on: &Vec<bool>) -> (r: Vec<bool>)
    ensures
        r@.len() == on@.len(),
        forall|i: int| 0 <= i < on@.len() ==> #[trigger] r@[i] == (clicked && !on@[i]),
{
    let mut r: Vec<bool> = Vec::new();
    let mut i: usize = 0;
    while i < on.len()
        invariant
            i <= on@.len(),
            r@.len() == i,
            forall|j: int| 0 <= j < i ==> #[trigger] r@[j] == (clicked && !on@[j]),
        decreases on@.len() - i,
    {
        r.push(clicked && !on[i]);
        i = i + 1;
    }
    r
}

} // verus!
