//! Text as sequences of characters: the trimming, cutting, splitting and number
//! spelling that the rest of the library is stated in.
//!
//! The models are functions on `Seq<char>`; the executable functions work on slices
//! of `char`, with conversions from `&str` and to `String` at the edges.

use vstd::prelude::*;
use vstd::slice::slice_subrange;

verus! {

/// Appends `c` to the end of `s`: `String::push`, whose documentation says just that.
pub assume_specification[ String::push ](s: &mut String, c: char)
    ensures
        final(s)@ == old(s)@.push(c),
;

/// The characters of `s`, in order.
pub fn chars_of(s: &str) -> (v: Vec<char>)
    ensures
        v@ == s@,
{
    broadcast use vstd::string::axiom_spec_iter;

    let mut v: Vec<char> = Vec::new();
    for c in it: s.chars()
        invariant
            v@ == it.seq().take(it.index() as int),
            it.seq() == s@,
    {
        v.push(c);
    }
    v
}

/// The text made of the characters of `v`.
pub fn string_of(v: &[char]) -> (s: String)
    ensures
        s@ == v@,
{
    let mut s: String = String::new();
    let mut i: usize = 0;
    while i < v.len()
        invariant
            i <= v.len(),
            s@ == v@.take(i as int),
        decreases v.len() - i,
    {
        s.push(v[i]);
        i = i + 1;
    }
    s
}

/// The number of a character.
pub fn code_point(c: char) -> (n: u32)
    ensures
        n as int == c as int,
{
    c as u32
}

/// Whether two texts hold the same characters.
pub fn same(a: &[char], b: &[char]) -> (r: bool)
    ensures
        r == (a@ == b@),
{
    if a.len() != b.len() {
        return false;
    }
    let mut i: usize = 0;
    while i < a.len()
        invariant
            i <= a.len() == b.len(),
            a@.take(i as int) == b@.take(i as int),
        decreases a.len() - i,
    {
        if a[i] != b[i] {
            assert(a@[i as int] != b@[i as int]);
            return false;
        }
        assert(a@.take(i + 1) == a@.take(i as int).push(a@[i as int]));
        assert(b@.take(i + 1) == b@.take(i as int).push(b@[i as int]));
        i = i + 1;
    }
    assert(a@.take(a@.len() as int) == a@);
    assert(b@.take(b@.len() as int) == b@);
    true
}

/// A copy of a text.
pub fn copied(v: &[char]) -> (r: Vec<char>)
    ensures
        r@ == v@,
{
    let mut r: Vec<char> = Vec::new();
    append(&mut r, v);
    r
}

/// Adds the characters of `tail` at the end of `v`.
pub fn append(v: &mut Vec<char>, tail: &[char])
    ensures
        final(v)@ == old(v)@ + tail@,
{
    let ghost head = v@;
    let mut i: usize = 0;
    while i < tail.len()
        invariant
            i <= tail.len(),
            v@ == head + tail@.take(i as int),
        decreases tail.len() - i,
    {
        v.push(tail[i]);
        i = i + 1;
    }
    assert(tail@.take(tail@.len() as int) == tail@);
}

/// Adds the characters of the literal `tail` at the end of `v`.
pub fn append_str(v: &mut Vec<char>, tail: &str)
    ensures
        final(v)@ == old(v)@ + tail@,
{
    let t: Vec<char> = chars_of(tail);
    append(v, &t);
}

/// The characters with the Unicode property White_Space.
pub open spec fn white(c: char) -> bool {
    let n = c as int;
    ||| 0x09 <= n <= 0x0D
    ||| n == 0x20
    ||| n == 0x85
    ||| n == 0xA0
    ||| n == 0x1680
    ||| 0x2000 <= n <= 0x200A
    ||| n == 0x2028
    ||| n == 0x2029
    ||| n == 0x202F
    ||| n == 0x205F
    ||| n == 0x3000
}

/// Whether `c` is whitespace.
pub fn is_white(c: char) -> (r: bool)
    ensures
        r == white(c),
{
    let n: u32 = c as u32;
    (0x09 <= n && n <= 0x0D) || n == 0x20 || n == 0x85 || n == 0xA0 || n == 0x1680 || (0x2000 <= n
        && n <= 0x200A) || n == 0x2028 || n == 0x2029 || n == 0x202F || n == 0x205F || n == 0x3000
}

/// What a trim takes off the ends of a text.
#[derive(Clone, Copy, PartialEq, Eq, Structural)]
pub enum Fringe {
    /// Whitespace.
    White,
    /// One given character.
    Is(char),
    /// Either of two given characters.
    Either(char, char),
}

impl Fringe {
    /// Whether the fringe takes `c` off.
    pub open spec fn has(self, c: char) -> bool {
        match self {
            Fringe::White => white(c),
            Fringe::Is(x) => c == x,
            Fringe::Either(x, y) => c == x || c == y,
        }
    }

    /// Whether the fringe takes `c` off.
    pub fn takes(&self, c: char) -> (r: bool)
        ensures
            r == self.has(c),
    {
        match *self {
            Fringe::White => is_white(c),
            Fringe::Is(x) => c == x,
            Fringe::Either(x, y) => c == x || c == y,
        }
    }
}

/// `s` without the longest run of fringe characters at its start.
pub open spec fn trim_front(s: Seq<char>, f: Fringe) -> Seq<char>
    decreases s.len(),
{
    if s.len() > 0 && f.has(s[0]) {
        trim_front(s.skip(1), f)
    } else {
        s
    }
}

/// `s` without the longest run of fringe characters at its end.
pub open spec fn trim_back(s: Seq<char>, f: Fringe) -> Seq<char>
    decreases s.len(),
{
    if s.len() > 0 && f.has(s.last()) {
        trim_back(s.drop_last(), f)
    } else {
        s
    }
}

/// `s` without fringe characters at either end.
pub open spec fn trim_both(s: Seq<char>, f: Fringe) -> Seq<char> {
    trim_back(trim_front(s, f), f)
}

/// `s` without whitespace at either end.
pub open spec fn trim(s: Seq<char>) -> Seq<char> {
    trim_both(s, Fringe::White)
}

/// Takes the fringe off the start.
pub fn trimmed_front<'a>(s: &'a [char], f: Fringe) -> (r: &'a [char])
    ensures
        r@ == trim_front(s@, f),
{
    let mut i: usize = 0;
    assert(s@.skip(0) == s@);
    while i < s.len() && f.takes(s[i])
        invariant
            i <= s.len(),
            trim_front(s@.skip(i as int), f) == trim_front(s@, f),
        decreases s.len() - i,
    {
        assert(s@.skip(i as int).skip(1) == s@.skip(i + 1));
        i = i + 1;
    }
    assert(s@.subrange(i as int, s@.len() as int) == s@.skip(i as int));
    slice_subrange(s, i, s.len())
}

/// Takes the fringe off the end.
pub fn trimmed_back<'a>(s: &'a [char], f: Fringe) -> (r: &'a [char])
    ensures
        r@ == trim_back(s@, f),
{
    let mut n: usize = s.len();
    assert(s@.take(n as int) == s@);
    while n > 0 && f.takes(s[n - 1])
        invariant
            n <= s.len(),
            trim_back(s@.take(n as int), f) == trim_back(s@, f),
        decreases n,
    {
        assert(s@.take(n as int).drop_last() == s@.take(n - 1));
        n = n - 1;
    }
    assert(s@.subrange(0, n as int) == s@.take(n as int));
    slice_subrange(s, 0, n)
}

/// Takes the fringe off both ends.
pub fn trimmed_both<'a>(s: &'a [char], f: Fringe) -> (r: &'a [char])
    ensures
        r@ == trim_both(s@, f),
{
    trimmed_back(trimmed_front(s, f), f)
}

/// Takes the whitespace off both ends.
pub fn trimmed<'a>(s: &'a [char]) -> (r: &'a [char])
    ensures
        r@ == trim(s@),
{
    trimmed_both(s, Fringe::White)
}

/// The position of the first `c` in `s`, or the length of `s` when there is none.
pub open spec fn find(s: Seq<char>, c: char) -> int
    decreases s.len(),
{
    if s.len() == 0 || s[0] == c {
        0
    } else {
        1 + find(s.skip(1), c)
    }
}

/// A position with no `c` before it, which holds `c` or is the end, is the first one.
pub proof fn lemma_find(s: Seq<char>, c: char, n: int)
    requires
        0 <= n <= s.len(),
        forall|i: int| 0 <= i < n ==> s[i] != c,
        n < s.len() ==> s[n] == c,
    ensures
        find(s, c) == n,
    decreases s.len(),
{
    if n > 0 {
        let t = s.skip(1);
        assert forall|i: int| 0 <= i < n - 1 implies t[i] != c by {
            assert(t[i] == s[i + 1]);
        }
        lemma_find(t, c, n - 1);
    }
}

/// The first position is in range, no `c` stands before it, and one stands there unless
/// it is the end.
pub proof fn lemma_find_first(s: Seq<char>, c: char)
    ensures
        0 <= find(s, c) <= s.len(),
        forall|i: int| 0 <= i < find(s, c) ==> s[i] != c,
        find(s, c) < s.len() ==> s[find(s, c)] == c,
    decreases s.len(),
{
    if s.len() > 0 && s[0] != c {
        let t = s.skip(1);
        lemma_find_first(t, c);
        assert forall|i: int| 0 <= i < find(s, c) implies s[i] != c by {
            if i > 0 {
                assert(t[i - 1] == s[i]);
            }
        }
        if find(t, c) < t.len() {
            assert(t[find(t, c)] == s[find(t, c) + 1]);
        }
    }
}

/// The position of the first `c`, or the length.
pub fn position(s: &[char], c: char) -> (n: usize)
    ensures
        n == find(s@, c),
        n <= s@.len(),
{
    let mut i: usize = 0;
    while i < s.len() && s[i] != c
        invariant
            i <= s.len(),
            forall|j: int| 0 <= j < i ==> s@[j] != c,
        decreases s.len() - i,
    {
        i = i + 1;
    }
    proof {
        lemma_find(s@, c, i as int);
    }
    i
}

/// The part of `s` before the first `c`: all of it when there is none.
pub open spec fn before(s: Seq<char>, c: char) -> Seq<char> {
    s.take(find(s, c))
}

/// The part of `s` after the first `c`.
pub open spec fn after(s: Seq<char>, c: char) -> Seq<char> {
    s.skip(find(s, c) + 1)
}

/// The part before the first `c`.
pub fn part_before<'a>(s: &'a [char], c: char) -> (r: &'a [char])
    ensures
        r@ == before(s@, c),
{
    let n: usize = position(s, c);
    assert(s@.subrange(0, n as int) == s@.take(n as int));
    slice_subrange(s, 0, n)
}

/// The views of a list of texts.
pub open spec fn views(v: Seq<Vec<char>>) -> Seq<Seq<char>> {
    v.map_values(|x: Vec<char>| x@)
}

/// `s` without one carriage return at its end.
pub open spec fn without_cr(s: Seq<char>) -> Seq<char> {
    if s.len() > 0 && s.last() == '\r' {
        s.drop_last()
    } else {
        s
    }
}

/// The lines of a text. A line ends at a line feed, and a carriage return just before
/// that line feed belongs to the line end; the last line end may be missing.
pub open spec fn lines(s: Seq<char>) -> Seq<Seq<char>>
    decreases s.len(),
{
    let n = find(s, '\n');
    proof {
        lemma_find_first(s, '\n');
    }
    if s.len() == 0 {
        Seq::empty()
    } else if n < s.len() {
        seq![without_cr(s.take(n))] + lines(s.skip(n + 1))
    } else {
        seq![s]
    }
}

/// Every line followed by a line feed.
pub open spec fn unlines(ls: Seq<Seq<char>>) -> Seq<char>
    decreases ls.len(),
{
    if ls.len() == 0 {
        Seq::empty()
    } else {
        ls[0].push('\n') + unlines(ls.skip(1))
    }
}

/// Splits a text into its lines.
pub fn split_lines(s: &[char]) -> (r: Vec<Vec<char>>)
    ensures
        views(r@) == lines(s@),
{
    let mut r: Vec<Vec<char>> = Vec::new();
    let mut i: usize = 0;
    assert(s@.skip(0) == s@);
    assert(views(r@) + lines(s@) == lines(s@));
    while i < s.len()
        invariant
            i <= s.len(),
            views(r@) + lines(s@.skip(i as int)) == lines(s@),
        decreases s.len() - i,
    {
        let rest: &[char] = slice_subrange(s, i, s.len());
        assert(rest@ == s@.skip(i as int));
        let n: usize = position(rest, '\n');
        let line: &[char] = slice_subrange(rest, 0, n);
        assert(line@ == rest@.take(n as int));
        let ghost done = r@;
        if n < rest.len() {
            let kept: &[char] = if n > 0 && line[n - 1] == '\r' {
                slice_subrange(line, 0, n - 1)
            } else {
                line
            };
            assert(kept@ == without_cr(rest@.take(n as int)));
            r.push(copied(kept));
            assert(rest@.skip(n + 1) == s@.skip(i + n + 1));
            assert(views(r@) == views(done).push(kept@));
            i = i + n + 1;
        } else {
            assert(line@ == rest@);
            r.push(copied(line));
            assert(views(r@) == views(done).push(line@));
            i = s.len();
        }
        assert(views(r@) + lines(s@.skip(i as int)) == views(done) + lines(rest@));
    }
    assert(views(r@) + lines(s@.skip(i as int)) == views(r@));
    r
}

/// Puts every line on a line of its own.
pub fn join_lines(ls: &Vec<Vec<char>>) -> (r: Vec<char>)
    ensures
        r@ == unlines(views(ls@)),
{
    let mut r: Vec<char> = Vec::new();
    let mut i: usize = 0;
    let ghost all = views(ls@);
    assert(all.skip(0) == all);
    assert(r@ + unlines(all) == unlines(all));
    while i < ls.len()
        invariant
            i <= ls.len(),
            all == views(ls@),
            r@ + unlines(all.skip(i as int)) == unlines(all),
        decreases ls.len() - i,
    {
        let ghost done = r@;
        append(&mut r, &ls[i]);
        r.push('\n');
        assert(all.skip(i as int)[0] == ls@[i as int]@);
        assert(all.skip(i as int).skip(1) == all.skip(i + 1));
        assert(r@ + unlines(all.skip(i + 1)) == done + unlines(all.skip(i as int)));
        i = i + 1;
    }
    assert(r@ + unlines(all.skip(i as int)) == r@);
    r
}

/// Lines that were put one under another come back when the text is split, each without
/// a carriage return at its end.
pub proof fn lemma_lines_of_unlines(ls: Seq<Seq<char>>)
    requires
        forall|i: int| 0 <= i < ls.len() ==> !(#[trigger] ls[i]).contains('\n'),
    ensures
        lines(unlines(ls)) == ls.map_values(|l: Seq<char>| without_cr(l)),
    decreases ls.len(),
{
    if ls.len() > 0 {
        let rest = ls.skip(1);
        assert forall|i: int| 0 <= i < rest.len() implies !(#[trigger] rest[i]).contains('\n') by {
            assert(rest[i] == ls[i + 1]);
        }
        lemma_lines_of_unlines(rest);
        let s = unlines(ls);
        let n = ls[0].len() as int;
        assert forall|i: int| 0 <= i < n implies s[i] != '\n' by {
            assert(s[i] == ls[0][i]);
        }
        assert(s[n] == '\n');
        lemma_find(s, '\n', n);
        assert(s.take(n) == ls[0]);
        assert(s.skip(n + 1) == unlines(rest));
        assert(ls.map_values(|l: Seq<char>| without_cr(l)) == seq![without_cr(ls[0])]
            + rest.map_values(|l: Seq<char>| without_cr(l)));
    } else {
        assert(lines(unlines(ls)) == ls.map_values(|l: Seq<char>| without_cr(l)));
    }
}

/// Whether `s` has fringe characters exactly outside `a..b` at its ends.
pub open spec fn core_at(s: Seq<char>, f: Fringe, a: int, b: int) -> bool {
    &&& 0 <= a < b <= s.len()
    &&& forall|i: int| 0 <= i < a ==> f.has(#[trigger] s[i])
    &&& forall|i: int| b <= i < s.len() ==> f.has(#[trigger] s[i])
    &&& !f.has(s[a])
    &&& !f.has(s[b - 1])
}

/// Whether `s` is made of fringe characters alone.
pub open spec fn all_fringe(s: Seq<char>, f: Fringe) -> bool {
    forall|i: int| 0 <= i < s.len() ==> f.has(#[trigger] s[i])
}

/// Trimming keeps what stands between the fringes.
pub proof fn lemma_trim_core(s: Seq<char>, f: Fringe, a: int, b: int)
    requires
        core_at(s, f, a, b),
    ensures
        trim_front(s, f) == s.skip(a),
        trim_back(s, f) == s.take(b),
        trim_both(s, f) == s.subrange(a, b),
{
    lemma_trim_front_at(s, f, a);
    lemma_trim_back_at(s, f, b);
    lemma_trim_back_at(s.skip(a), f, b - a);
    assert(s.skip(a).take(b - a) == s.subrange(a, b));
}

/// The start of a text is trimmed up to the first character that is no fringe.
proof fn lemma_trim_front_at(s: Seq<char>, f: Fringe, a: int)
    requires
        0 <= a < s.len(),
        forall|i: int| 0 <= i < a ==> f.has(#[trigger] s[i]),
        !f.has(s[a]),
    ensures
        trim_front(s, f) == s.skip(a),
    decreases s.len(),
{
    if a > 0 {
        let t = s.skip(1);
        assert forall|i: int| 0 <= i < a - 1 implies f.has(#[trigger] t[i]) by {
            assert(t[i] == s[i + 1]);
        }
        lemma_trim_front_at(t, f, a - 1);
        assert(t.skip(a - 1) == s.skip(a));
    } else {
        assert(s.skip(0) == s);
    }
}

/// The end of a text is trimmed down to the last character that is no fringe.
proof fn lemma_trim_back_at(s: Seq<char>, f: Fringe, b: int)
    requires
        0 < b <= s.len(),
        forall|i: int| b <= i < s.len() ==> f.has(#[trigger] s[i]),
        !f.has(s[b - 1]),
    ensures
        trim_back(s, f) == s.take(b),
    decreases s.len(),
{
    if b < s.len() {
        lemma_trim_back_at(s.drop_last(), f, b);
        assert(s.drop_last().take(b) == s.take(b));
    } else {
        assert(s.take(b) == s);
    }
}

/// Of fringe characters alone nothing is left.
pub proof fn lemma_trim_all(s: Seq<char>, f: Fringe)
    requires
        all_fringe(s, f),
    ensures
        trim_front(s, f).len() == 0,
        trim_back(s, f).len() == 0,
        trim_both(s, f).len() == 0,
    decreases s.len(),
{
    if s.len() > 0 {
        assert(f.has(s[0]));
        assert(f.has(s[s.len() - 1]));
        let t = s.skip(1);
        assert forall|i: int| 0 <= i < t.len() implies f.has(#[trigger] t[i]) by {
            assert(t[i] == s[i + 1]);
        }
        lemma_trim_all(t, f);
        lemma_trim_all(s.drop_last(), f);
    }
}

/// A text is fringe alone, or has a core between its fringes.
pub proof fn lemma_core(s: Seq<char>, f: Fringe) -> (r: (int, int))
    ensures
        all_fringe(s, f) || core_at(s, f, r.0, r.1),
    decreases s.len(),
{
    if s.len() == 0 {
        (0, 0)
    } else {
        let t = s.drop_last();
        let (a, b) = lemma_core(t, f);
        if f.has(s.last()) {
            if all_fringe(t, f) {
                assert forall|i: int| 0 <= i < s.len() implies f.has(#[trigger] s[i]) by {
                    if i < t.len() {
                        assert(t[i] == s[i]);
                    }
                }
                (0, 0)
            } else {
                assert forall|i: int| 0 <= i < a implies f.has(#[trigger] s[i]) by {
                    assert(t[i] == s[i]);
                }
                assert forall|i: int| b <= i < s.len() implies f.has(#[trigger] s[i]) by {
                    if i < t.len() {
                        assert(t[i] == s[i]);
                    }
                }
                (a, b)
            }
        } else if all_fringe(t, f) {
            assert forall|i: int| 0 <= i < t.len() implies f.has(#[trigger] s[i]) by {
                assert(t[i] == s[i]);
            }
            (t.len() as int, s.len() as int)
        } else {
            assert forall|i: int| 0 <= i < a implies f.has(#[trigger] s[i]) by {
                assert(t[i] == s[i]);
            }
            (a, s.len() as int)
        }
    }
}

/// A fringe character put at the end changes nothing that a trim leaves.
pub proof fn lemma_trim_push(s: Seq<char>, c: char, f: Fringe)
    requires
        f.has(c),
    ensures
        trim_both(s.push(c), f) == trim_both(s, f),
{
    let (a, b) = lemma_core(s, f);
    let t = s.push(c);
    if all_fringe(s, f) {
        assert forall|i: int| 0 <= i < t.len() implies f.has(#[trigger] t[i]) by {
            if i < s.len() {
                assert(t[i] == s[i]);
            }
        }
        lemma_trim_all(s, f);
        lemma_trim_all(t, f);
        assert(trim_both(t, f) == trim_both(s, f));
    } else {
        assert forall|i: int| 0 <= i < a implies f.has(#[trigger] t[i]) by {
            assert(t[i] == s[i]);
        }
        assert forall|i: int| b <= i < t.len() implies f.has(#[trigger] t[i]) by {
            if i < s.len() {
                assert(t[i] == s[i]);
            }
        }
        lemma_trim_core(s, f, a, b);
        lemma_trim_core(t, f, a, b);
        assert(t.subrange(a, b) == s.subrange(a, b));
    }
}

/// A fringe character put at the start changes nothing that a trim leaves.
pub proof fn lemma_trim_prepend(s: Seq<char>, c: char, f: Fringe)
    requires
        f.has(c),
    ensures
        trim_both(seq![c] + s, f) == trim_both(s, f),
{
    let t = seq![c] + s;
    assert(t[0] == c);
    assert(t.skip(1) == s);
}

/// Law: what a trim leaves has no fringe at its ends, and a second trim changes nothing.
pub proof fn law_trim_leaves_no_fringe(s: Seq<char>, f: Fringe)
    ensures
        trim_both(s, f).len() > 0 ==> !f.has(trim_both(s, f)[0]) && !f.has(trim_both(s, f).last()),
        trim_both(trim_both(s, f), f) == trim_both(s, f),
{
    let (a, b) = lemma_core(s, f);
    if all_fringe(s, f) {
        lemma_trim_all(s, f);
        assert(trim_both(trim_both(s, f), f) == trim_both(s, f));
    } else {
        lemma_trim_core(s, f, a, b);
        let t = s.subrange(a, b);
        lemma_trim_core(t, f, 0, b - a);
        assert(t.subrange(0, b - a) == t);
    }
}

/// A text without fringe at its ends is left as it is.
pub proof fn lemma_trim_none(s: Seq<char>, f: Fringe)
    requires
        s.len() > 0 ==> !f.has(s[0]) && !f.has(s.last()),
    ensures
        trim_both(s, f) == s,
        trim_back(s, f) == s,
        trim_front(s, f) == s,
{
}

/// No line of a text holds a line feed.
pub proof fn lemma_lines_plain(s: Seq<char>)
    ensures
        forall|i: int| 0 <= i < lines(s).len() ==> !(#[trigger] lines(s)[i]).contains('\n'),
    decreases s.len(),
{
    lemma_find_first(s, '\n');
    let n = find(s, '\n');
    if s.len() == 0 {
    } else if n < s.len() {
        lemma_lines_plain(s.skip(n + 1));
        assert forall|i: int| 0 <= i < lines(s).len() implies !(#[trigger] lines(s)[i]).contains(
            '\n',
        ) by {
            if i > 0 {
                assert(lines(s)[i] == lines(s.skip(n + 1))[i - 1]);
            } else {
                let l = lines(s)[0];
                assert(l == without_cr(s.take(n)));
                assert forall|j: int| 0 <= j < l.len() implies l[j] != '\n' by {
                    assert(l[j] == s[j]);
                }
            }
        }
    } else {
        assert(lines(s) == seq![s]);
        assert forall|j: int| 0 <= j < s.len() implies s[j] != '\n' by {}
        assert(lines(s)[0] == s);
    }
}

/// Whether a text is ASCII.
pub open spec fn ascii(s: Seq<char>) -> bool {
    forall|i: int| 0 <= i < s.len() ==> (#[trigger] s[i]) as int <= 0x7F
}

/// A character with an ASCII letter in upper case.
pub open spec fn upper_char(c: char) -> char {
    if 'a' as int <= c as int <= 'z' as int {
        (c as int - 32) as char
    } else {
        c
    }
}

/// A character with an ASCII letter in lower case.
pub open spec fn lower_char(c: char) -> char {
    if 'A' as int <= c as int <= 'Z' as int {
        (c as int + 32) as char
    } else {
        c
    }
}

/// A text with its ASCII letters in upper case.
pub open spec fn ascii_upper(s: Seq<char>) -> Seq<char> {
    s.map_values(|c: char| upper_char(c))
}

/// A text with its ASCII letters in lower case.
pub open spec fn ascii_lower(s: Seq<char>) -> Seq<char> {
    s.map_values(|c: char| lower_char(c))
}

/// Whether two texts differ in the case of ASCII letters alone.
pub open spec fn same_letters(a: Seq<char>, b: Seq<char>) -> bool {
    ascii_upper(a) == ascii_upper(b)
}

/// To trim a text and to put its letters in upper case can be done in either order.
pub proof fn lemma_trim_upper(s: Seq<char>)
    ensures
        trim(ascii_upper(s)) == ascii_upper(trim(s)),
{
    let w = Fringe::White;
    let up = ascii_upper(s);
    assert forall|i: int| 0 <= i < s.len() implies w.has(#[trigger] up[i]) == w.has(s[i]) by {}
    if all_fringe(s, w) {
        lemma_trim_all(s, w);
        assert(all_fringe(up, w)) by {
            assert forall|i: int| 0 <= i < up.len() implies w.has(#[trigger] up[i]) by {
                assert(w.has(s[i]));
            }
        }
        lemma_trim_all(up, w);
        assert(trim(up) == ascii_upper(trim(s)));
    } else {
        let (a, b) = lemma_core(s, w);
        lemma_trim_core(s, w, a, b);
        assert forall|i: int| 0 <= i < a || b <= i < up.len() implies w.has(#[trigger] up[i]) by {
            assert(w.has(s[i]));
        }
        lemma_trim_core(up, w, a, b);
        assert(up.subrange(a, b) == ascii_upper(s.subrange(a, b)));
    }
}

/// A character with an ASCII letter in upper case.
pub fn upper_of(c: char) -> (r: char)
    ensures
        r == upper_char(c),
{
    let n: u32 = c as u32;
    if 0x61 <= n && n <= 0x7A {
        ((n - 32) as u8) as char
    } else {
        c
    }
}

/// A character with an ASCII letter in lower case.
pub fn lower_of(c: char) -> (r: char)
    ensures
        r == lower_char(c),
{
    let n: u32 = c as u32;
    if 0x41 <= n && n <= 0x5A {
        ((n + 32) as u8) as char
    } else {
        c
    }
}

/// Puts ASCII letters in upper case.
pub fn upper_text(s: &[char]) -> (r: Vec<char>)
    ensures
        r@ == ascii_upper(s@),
{
    let mut r: Vec<char> = Vec::new();
    let mut i: usize = 0;
    while i < s.len()
        invariant
            i <= s.len(),
            r@ == ascii_upper(s@).take(i as int),
        decreases s.len() - i,
    {
        r.push(upper_of(s[i]));
        assert(ascii_upper(s@).take(i + 1) == ascii_upper(s@).take(i as int).push(
            ascii_upper(s@)[i as int],
        ));
        i = i + 1;
    }
    r
}

/// Puts ASCII letters in lower case.
pub fn lower_text(s: &[char]) -> (r: Vec<char>)
    ensures
        r@ == ascii_lower(s@),
{
    let mut r: Vec<char> = Vec::new();
    let mut i: usize = 0;
    while i < s.len()
        invariant
            i <= s.len(),
            r@ == ascii_lower(s@).take(i as int),
        decreases s.len() - i,
    {
        r.push(lower_of(s[i]));
        assert(ascii_lower(s@).take(i + 1) == ascii_lower(s@).take(i as int).push(
            ascii_lower(s@)[i as int],
        ));
        i = i + 1;
    }
    r
}

/// Whether two texts differ in the case of ASCII letters alone.
pub fn same_ignoring_case(a: &str, b: &str) -> (r: bool)
    ensures
        r == same_letters(a@, b@),
{
    same(&upper_text(&chars_of(a)), &upper_text(&chars_of(b)))
}

/// A text with its ASCII letters in upper case.
pub fn upper_string(s: &str) -> (r: String)
    ensures
        r@ == ascii_upper(s@),
{
    string_of(&upper_text(&chars_of(s)))
}

/// The length of the run without whitespace at the start of `s`.
pub open spec fn word_len(s: Seq<char>) -> int
    decreases s.len(),
{
    if s.len() == 0 || white(s[0]) {
        0
    } else {
        1 + word_len(s.skip(1))
    }
}

/// The run is in range, and not empty where the text does not start with whitespace.
pub proof fn lemma_word_len(s: Seq<char>)
    ensures
        0 <= word_len(s) <= s.len(),
        s.len() > 0 && !white(s[0]) ==> word_len(s) > 0,
        forall|i: int| 0 <= i < word_len(s) ==> !white(#[trigger] s[i]),
        word_len(s) < s.len() ==> white(s[word_len(s)]),
    decreases s.len(),
{
    if s.len() > 0 && !white(s[0]) {
        let t = s.skip(1);
        lemma_word_len(t);
        assert forall|i: int| 0 <= i < word_len(s) implies !white(#[trigger] s[i]) by {
            if i > 0 {
                assert(t[i - 1] == s[i]);
            }
        }
        if word_len(t) < t.len() {
            assert(t[word_len(t)] == s[word_len(t) + 1]);
        }
    }
}

/// Trimming leaves a text that is no longer and starts with no fringe.
pub proof fn lemma_trim_front(s: Seq<char>, f: Fringe)
    ensures
        trim_front(s, f).len() <= s.len(),
        trim_front(s, f).len() > 0 ==> !f.has(trim_front(s, f)[0]),
        trim_front(s, f) == s.skip(s.len() - trim_front(s, f).len()),
    decreases s.len(),
{
    if s.len() > 0 && f.has(s[0]) {
        let t = s.skip(1);
        lemma_trim_front(t, f);
        let k = t.len() - trim_front(t, f).len();
        assert(t.skip(k) == s.skip(k + 1));
    } else {
        assert(s.skip(0) == s);
    }
}

/// The words of a text: its longest runs without whitespace.
pub open spec fn words(s: Seq<char>) -> Seq<Seq<char>>
    decreases s.len(),
{
    let t = trim_front(s, Fringe::White);
    let n = word_len(t);
    proof {
        lemma_trim_front(s, Fringe::White);
        lemma_word_len(t);
    }
    if t.len() == 0 {
        Seq::empty()
    } else {
        seq![t.take(n)] + words(t.skip(n))
    }
}

/// Splits a text into its words.
pub fn split_words(s: &[char]) -> (r: Vec<Vec<char>>)
    ensures
        views(r@) == words(s@),
{
    let mut r: Vec<Vec<char>> = Vec::new();
    let mut rest: &[char] = s;
    assert(views(r@) + words(s@) == words(s@));
    loop
        invariant
            views(r@) + words(rest@) == words(s@),
        ensures
            views(r@) == words(s@),
        decreases rest@.len(),
    {
        let t: &[char] = trimmed_front(rest, Fringe::White);
        proof {
            lemma_trim_front(rest@, Fringe::White);
            lemma_word_len(t@);
        }
        if t.len() == 0 {
            assert(views(r@) + words(rest@) == views(r@));
            break;
        }
        let mut n: usize = 0;
        assert(t@.skip(0) == t@);
        while n < t.len() && !is_white(t[n])
            invariant
                n <= t@.len(),
                n + word_len(t@.skip(n as int)) == word_len(t@),
            decreases t@.len() - n,
        {
            assert(t@.skip(n as int).skip(1) == t@.skip(n + 1));
            n = n + 1;
        }
        assert(word_len(t@.skip(n as int)) == 0);
        let ghost done = r@;
        let word: &[char] = slice_subrange(t, 0, n);
        assert(word@ == t@.take(n as int));
        r.push(copied(word));
        assert(views(r@) == views(done).push(word@));
        let next: &[char] = slice_subrange(t, n, t.len());
        assert(next@ == t@.skip(n as int));
        assert(views(r@) + words(next@) == views(done) + words(rest@));
        rest = next;
    }
    r
}

/// Whether `part` stands in `s` from position `i`.
pub open spec fn part_at(s: Seq<char>, part: Seq<char>, i: int) -> bool {
    0 <= i && i + part.len() <= s.len() && s.subrange(i, i + part.len()) == part
}

/// Whether `part` stands somewhere in `s`.
pub open spec fn has_part(s: Seq<char>, part: Seq<char>) -> bool {
    exists|i: int| part_at(s, part, i)
}

/// Whether `part` stands somewhere in `s`.
pub fn contains_part(s: &[char], part: &[char]) -> (r: bool)
    ensures
        r == has_part(s@, part@),
{
    if part.len() > s.len() {
        return false;
    }
    let last: usize = s.len() - part.len();
    let mut i: usize = 0;
    while i < last && !same(slice_subrange(s, i, i + part.len()), part)
        invariant
            last == s.len() - part.len(),
            i <= last,
            forall|j: int| 0 <= j < i ==> !part_at(s@, part@, j),
        decreases last - i,
    {
        i = i + 1;
    }
    let found: bool = same(slice_subrange(s, i, i + part.len()), part);
    assert(found == part_at(s@, part@, i as int));
    found
}

/// Whether two texts are the same.
pub fn same_str(a: &str, b: &str) -> (r: bool)
    ensures
        r == (a@ == b@),
{
    same(&chars_of(a), &chars_of(b))
}

/// A text of its own with the characters of `s`.
pub fn owned(s: &str) -> (r: String)
    ensures
        r@ == s@,
{
    string_of(&chars_of(s))
}

/// `s` in upper case, as Unicode has it: what `str::to_uppercase` makes of it.
pub uninterp spec fn uppercase(s: Seq<char>) -> Seq<char>;

/// `s` in lower case, as Unicode has it: what `str::to_lowercase` makes of it.
pub uninterp spec fn lowercase(s: Seq<char>) -> Seq<char>;

/// Calls `str::to_uppercase`, whose result is named by `uppercase`. Of ASCII text it is
/// stated that letters from `a` to `z` become `A` to `Z` and the rest stays.
#[verifier::external_body]
pub(crate) fn to_uppercase(s: &str) -> (r: String)
    ensures
        r@ == uppercase(s@),
        ascii(s@) ==> r@ == ascii_upper(s@),
{
    s.to_uppercase()
}

/// Calls `str::to_lowercase`, whose result is named by `lowercase`. Of ASCII text it is
/// stated that letters from `A` to `Z` become `a` to `z` and the rest stays.
#[verifier::external_body]
pub(crate) fn to_lowercase(s: &str) -> (r: String)
    ensures
        r@ == lowercase(s@),
        ascii(s@) ==> r@ == ascii_lower(s@),
{
    s.to_lowercase()
}

} // verus!
