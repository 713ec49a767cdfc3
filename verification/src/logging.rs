//! Which events are logged: the filter that the log is opened with.
//!
//! `RUST_LOG` wins where it is a filter. Otherwise the station's own crates log at the
//! level that the configuration file asks for, and all others from warnings on.

use vstd::prelude::*;
use vstd::slice::slice_subrange;

use crate::text::{
    append_str, chars_of, code_point, lower_text, position, same, string_of, trimmed,
    trimmed_front, Fringe,
};

verus! {

/// The level that a word stands for, `info` for a word that stands for none.
pub open spec fn level_word(s: Seq<char>) -> Seq<char> {
    let w = crate::text::ascii_lower(crate::text::trim(s));
    if w == "trace"@ {
        "trace"@
    } else if w == "debug"@ {
        "debug"@
    } else if w == "warn"@ || w == "warning"@ {
        "warn"@
    } else if w == "error"@ {
        "error"@
    } else {
        "info"@
    }
}

/// The level that a word stands for, in any case and with space around it; `info` for a
/// word that stands for none.
pub fn normalize_level(level: &str) -> (s: &'static str)
    ensures
        s@ == level_word(level@),
{
    let v: Vec<char> = chars_of(level);
    let w: Vec<char> = lower_text(trimmed(&v));
    if same(&w, &chars_of("trace")) {
        "trace"
    } else if same(&w, &chars_of("debug")) {
        "debug"
    } else if same(&w, &chars_of("warn")) || same(&w, &chars_of("warning")) {
        "warn"
    } else if same(&w, &chars_of("error")) {
        "error"
    } else {
        "info"
    }
}

/// The station's own crates.
pub open spec fn own_crates() -> Seq<Seq<char>> {
    seq![
        "dm420"@,
        "gui"@,
        "core"@,
        "rig"@,
        "audio"@,
        "dsp"@,
        "modes"@,
        "qso"@,
        "bus"@,
        "mocks"@,
        "types"@,
    ]
}

/// A crate raised to a level.
pub open spec fn raised(name: Seq<char>, level: Seq<char>) -> Seq<char> {
    seq![','] + name + seq!['='] + level
}

/// Crates raised to a level, one behind another.
pub open spec fn all_raised(names: Seq<Seq<char>>, level: Seq<char>) -> Seq<char>
    decreases names.len(),
{
    if names.len() == 0 {
        Seq::empty()
    } else {
        all_raised(names.drop_last(), level) + raised(names.last(), level)
    }
}

/// The filter when `RUST_LOG` does not give one: all from warnings on, the station's own
/// crates at the level.
pub open spec fn scoped(level: Seq<char>) -> Seq<char> {
    "warn"@ + all_raised(own_crates(), level_word(level))
}

/// Whether `RUST_LOG` is worth asking about: it is set and not blank.
pub open spec fn asked(rust_log: Option<Seq<char>>) -> bool {
    rust_log is Some && crate::text::trim(rust_log->Some_0).len() > 0
}

/// The filter, where `accepted` says whether `RUST_LOG` is one.
pub open spec fn directive(level: Seq<char>, rust_log: Option<Seq<char>>, accepted: bool) -> Seq<
    char,
> {
    if asked(rust_log) && accepted {
        crate::text::trim(rust_log->Some_0)
    } else {
        scoped(level)
    }
}

/// The names of the station's own crates.
fn own_names() -> (r: Vec<&'static str>)
    ensures
        r@.map_values(|s: &'static str| s@) == own_crates(),
{
    let mut r: Vec<&'static str> = Vec::new();
    r.push("dm420");
    r.push("gui");
    r.push("core");
    r.push("rig");
    r.push("audio");
    r.push("dsp");
    r.push("modes");
    r.push("qso");
    r.push("bus");
    r.push("mocks");
    r.push("types");
    assert(r@.map_values(|s: &'static str| s@) == own_crates());
    r
}

/// The filter, where `accepted` says whether `RUST_LOG` is one.
pub fn directive_for(level: &str, rust_log: Option<&str>, accepted: bool) -> (r: String)
    ensures
        r@ == directive(level@, crate::settings::view_of(rust_log), accepted),
{
    if let Some(s) = rust_log {
        let v: Vec<char> = chars_of(s);
        let t: &[char] = trimmed(&v);
        if t.len() > 0 && accepted {
            return string_of(t);
        }
    }
    let word: &'static str = normalize_level(level);
    let names: Vec<&'static str> = own_names();
    let ghost all = own_crates();
    let mut v: Vec<char> = chars_of("warn");
    let mut i: usize = 0;
    while i < names.len()
        invariant
            i <= names.len(),
            word@ == level_word(level@),
            names@.map_values(|s: &'static str| s@) == all,
            v@ == "warn"@ + all_raised(all.take(i as int), word@),
        decreases names.len() - i,
    {
        let ghost done = v@;
        v.push(',');
        append_str(&mut v, names[i]);
        v.push('=');
        append_str(&mut v, word);
        assert(all[i as int] == names@[i as int]@);
        assert(all.take(i + 1).drop_last() == all.take(i as int));
        assert(v@ == done + raised(all[i as int], word@));
        assert(v@ == "warn"@ + all_raised(all.take(i + 1), word@));
        i = i + 1;
    }
    assert(all.take(all.len() as int) == all);
    string_of(&v)
}

/// Whether a text is a filter: what `EnvFilter::try_new` says of it.
pub uninterp spec fn is_filter(s: Seq<char>) -> bool;

/// How many bytes a character takes.
pub open spec fn width(c: char) -> int {
    let n = c as int;
    if n < 0x80 {
        1
    } else if n < 0x800 {
        2
    } else if n < 0x1_0000 {
        3
    } else {
        4
    }
}

/// How many bytes a text takes.
pub open spec fn size(s: Seq<char>) -> int
    decreases s.len(),
{
    if s.len() == 0 {
        0
    } else {
        size(s.drop_last()) + width(s.last())
    }
}

/// Whether `n` bytes of a text end between two characters, or at an end of it.
pub open spec fn between_chars(s: Seq<char>, n: int) -> bool {
    exists|c: int| 0 <= c <= s.len() && #[trigger] size(s.take(c)) == n
}

/// The position of the first of two characters, or the length of the text.
pub open spec fn find_either(s: Seq<char>, a: char, b: char) -> int {
    let (i, j) = (crate::text::find(s, a), crate::text::find(s, b));
    if i < j {
        i
    } else {
        j
    }
}

/// The start of a level behind an equals sign at `k`, if there is one.
pub open spec fn level_start(t: Seq<char>, k: int) -> Seq<int> {
    if k < t.len() && t[k] == '=' {
        seq![k + 1]
    } else {
        Seq::empty()
    }
}

/// Where a part between commas is cut, counted in characters from the first that is no
/// space: a target ends at an equals sign or a bracket; a bracket holds a span, and braces
/// within it hold a field; a level follows an equals sign.
pub open spec fn cuts(t: Seq<char>) -> Seq<int> {
    let i = find_either(t, '=', '[');
    if i == t.len() {
        Seq::empty()
    } else if t[i] == '=' {
        seq![i, i + 1]
    } else {
        let j = i + 1 + find_either(t.skip(i + 1), ']', '{');
        if j == t.len() {
            seq![i, i + 1]
        } else if t[j] == ']' {
            seq![i, i + 1, j] + level_start(t, j + 1)
        } else {
            let m = j + 1 + crate::text::find(t.skip(j + 1), '}');
            seq![i, i + 1, j, j + 1, m] + (if m + 1 < t.len() && t[m + 1] == ']' {
                level_start(t, m + 2)
            } else {
                Seq::empty()
            })
        }
    }
}

/// Whether a part between commas can be cut: each cut, taken as so many bytes from the start
/// of the part with its space, falls between two characters.
pub open spec fn part_steady(p: Seq<char>) -> bool {
    let t = crate::text::trim_front(p, crate::text::Fringe::White);
    forall|x: int|
        0 <= x < cuts(t).len() ==> between_chars(p, size(t.take(#[trigger] cuts(t)[x])))
}

/// Whether every part between commas can be cut. Only a part that starts with space and has
/// a character beyond ASCII in it can fail to be.
pub open spec fn steady(s: Seq<char>) -> bool
    decreases s.len(),
{
    let n = crate::text::find(s, ',');
    proof {
        crate::text::lemma_find_first(s, ',');
    }
    part_steady(s.take(n)) && (n < s.len() ==> steady(s.skip(n + 1)))
}

/// Calls `tracing_subscriber::EnvFilter::try_new` and says whether it gave a filter. The
/// answer depends on the text alone and is named by `is_filter`. The call finds the cuts of
/// each part between commas without the space at its start, and then cuts the part with that
/// space, which can end it in the middle of a character: such texts are left out. None of
/// them is a filter.
#[verifier::external_body]
fn accepts(s: &str) -> (r: bool)
    requires
        steady(s@),
    ensures
        r == is_filter(s@),
{
    tracing_subscriber::EnvFilter::try_new(s).is_ok()
}

/// The filter that the log is opened with: `RUST_LOG` as it stands where it is a filter,
/// else the station's own crates at `level` and all others from warnings on.
pub fn build_directive(level: &str, rust_log: Option<&str>) -> (r: String)
    requires
        asked(crate::settings::view_of(rust_log)) ==> steady(
            crate::text::trim(rust_log->Some_0@),
        ),
    ensures
        r@ == directive(
            level@,
            crate::settings::view_of(rust_log),
            asked(crate::settings::view_of(rust_log)) && is_filter(
                crate::text::trim(rust_log->Some_0@),
            ),
        ),
{
    let accepted: bool = match rust_log {
        Some(s) => {
            let v: Vec<char> = chars_of(s);
            let t: String = string_of(trimmed(&v));
            let u: Vec<char> = chars_of(t.as_str());
            u.len() > 0 && accepts(t.as_str())
        },
        None => false,
    };
    directive_for(level, rust_log, accepted)
}

fn width_of(c: char) -> (r: u128)
    ensures
        r == width(c),
        1 <= r <= 4,
{
    let n: u32 = code_point(c);
    if n < 0x80 {
        1
    } else if n < 0x800 {
        2
    } else if n < 0x1_0000 {
        3
    } else {
        4
    }
}

/// How many bytes the first `n` characters take.
fn size_of(s: &[char], n: usize) -> (r: u128)
    requires
        n <= s@.len(),
    ensures
        r == size(s@.take(n as int)),
{
    let mut r: u128 = 0;
    let mut i: usize = 0;
    while i < n
        invariant
            i <= n <= s@.len(),
            r == size(s@.take(i as int)),
            r <= 4 * i,
        decreases n - i,
    {
        assert(s@.take(i + 1).drop_last() == s@.take(i as int));
        r = r + width_of(s[i]);
        i = i + 1;
    }
    r
}

/// Whether `n` bytes of a text end between two characters.
fn is_between(s: &[char], n: u128) -> (r: bool)
    ensures
        r == between_chars(s@, n as int),
{
    let mut at: u128 = 0;
    let mut i: usize = 0;
    while i < s.len()
        invariant
            i <= s@.len(),
            at == size(s@.take(i as int)),
            at <= 4 * i,
            forall|c: int| 0 <= c < i ==> #[trigger] size(s@.take(c)) != n,
        decreases s@.len() - i,
    {
        if at == n {
            return true;
        }
        assert(s@.take(i + 1).drop_last() == s@.take(i as int));
        at = at + width_of(s[i]);
        i = i + 1;
    }
    at == n
}

fn position_either(s: &[char], a: char, b: char) -> (n: usize)
    ensures
        n == find_either(s@, a, b),
        n <= s@.len(),
{
    let i: usize = position(s, a);
    let j: usize = position(s, b);
    proof {
        crate::text::lemma_find_first(s@, a);
        crate::text::lemma_find_first(s@, b);
    }
    if i < j {
        i
    } else {
        j
    }
}

/// Places as numbers.
spec fn places(v: Seq<usize>) -> Seq<int> {
    v.map_values(|k: usize| k as int)
}

/// Where a part between commas is cut.
fn cut_places(t: &[char]) -> (r: Vec<usize>)
    ensures
        places(r@) == cuts(t@),
        forall|x: int| 0 <= x < r@.len() ==> (#[trigger] r@[x]) <= t@.len(),
{
    let mut r: Vec<usize> = Vec::new();
    let i: usize = position_either(t, '=', '[');
    if i == t.len() {
        assert(places(r@) == cuts(t@));
        return r;
    }
    r.push(i);
    r.push(i + 1);
    if t[i] == '=' {
        assert(places(r@) == cuts(t@));
        return r;
    }
    let inner: &[char] = slice_subrange(t, i + 1, t.len());
    assert(inner@ == t@.skip(i + 1));
    let j: usize = i + 1 + position_either(inner, ']', '{');
    if j == t.len() {
        assert(places(r@) == cuts(t@));
        return r;
    }
    r.push(j);
    let behind: usize = if t[j] == ']' {
        j + 1
    } else {
        let field: &[char] = slice_subrange(t, j + 1, t.len());
        assert(field@ == t@.skip(j + 1));
        proof {
            crate::text::lemma_find_first(field@, '}');
        }
        let m: usize = j + 1 + position(field, '}');
        r.push(j + 1);
        r.push(m);
        if m == t.len() || m + 1 == t.len() || t[m + 1] != ']' {
            assert(places(r@) == cuts(t@));
            return r;
        }
        m + 2
    };
    if behind < t.len() && t[behind] == '=' {
        r.push(behind + 1);
    }
    assert(places(r@) == cuts(t@));
    r
}

/// Whether a part between commas can be cut.
fn is_part_steady(p: &[char]) -> (r: bool)
    ensures
        r == part_steady(p@),
{
    let t: &[char] = trimmed_front(p, Fringe::White);
    let v: Vec<usize> = cut_places(t);
    let mut x: usize = 0;
    while x < v.len()
        invariant
            x <= v@.len(),
            t@ == crate::text::trim_front(p@, crate::text::Fringe::White),
            places(v@) == cuts(t@),
            forall|y: int| 0 <= y < v@.len() ==> (#[trigger] v@[y]) <= t@.len(),
            forall|y: int|
                0 <= y < x ==> between_chars(p@, size(t@.take(#[trigger] cuts(t@)[y]))),
        decreases v@.len() - x,
    {
        assert(cuts(t@)[x as int] == v@[x as int]);
        if !is_between(p, size_of(t, v[x])) {
            return false;
        }
        x = x + 1;
    }
    true
}

/// Whether every part between commas can be cut.
pub fn is_steady(s: &str) -> (r: bool)
    ensures
        r == steady(s@),
{
    let v: Vec<char> = chars_of(s);
    let mut at: usize = 0;
    assert(v@.skip(0) == v@);
    loop
        invariant
            v@ == s@,
            at <= v@.len(),
            steady(s@) == steady(v@.skip(at as int)),
        decreases v@.len() - at,
    {
        let rest: &[char] = slice_subrange(v.as_slice(), at, v.len());
        assert(rest@ == v@.skip(at as int));
        proof {
            crate::text::lemma_find_first(rest@, ',');
        }
        let n: usize = position(rest, ',');
        let part: &[char] = slice_subrange(rest, 0, n);
        assert(part@ == rest@.take(n as int));
        if !is_part_steady(part) {
            return false;
        }
        if n == rest.len() {
            return true;
        }
        at = at + n + 1;
        assert(rest@.skip(n + 1) == v@.skip(at as int));
    }
}

/// A text without space, and one of ASCII characters alone, can be cut.
pub proof fn law_plain_text_is_steady(s: Seq<char>)
    requires
        crate::text::ascii(s) || forall|i: int|
            0 <= i < s.len() ==> !crate::text::white(#[trigger] s[i]),
    ensures
        steady(s),
    decreases s.len(),
{
    let n = crate::text::find(s, ',');
    crate::text::lemma_find_first(s, ',');
    let p = s.take(n);
    let t = crate::text::trim_front(p, crate::text::Fringe::White);
    crate::text::lemma_trim_front(p, crate::text::Fringe::White);
    lemma_cuts(t);
    assert forall|x: int| 0 <= x < cuts(t).len() implies between_chars(
        p,
        size(t.take(#[trigger] cuts(t)[x])),
    ) by {
        let k = cuts(t)[x];
        if crate::text::ascii(s) {
            assert(crate::text::ascii(p)) by {
                assert forall|i: int| 0 <= i < p.len() implies (#[trigger] p[i]) as int
                    <= 0x7F by {
                    assert(p[i] == s[i]);
                }
            }
            let d = p.len() - t.len();
            assert(t == p.skip(d));
            assert(crate::text::ascii(t.take(k))) by {
                assert forall|i: int| 0 <= i < k implies (#[trigger] t.take(k)[i]) as int
                    <= 0x7F by {
                    assert(t.take(k)[i] == p[i + d]);
                }
            }
            assert(crate::text::ascii(p.take(k))) by {
                assert forall|i: int| 0 <= i < k implies (#[trigger] p.take(k)[i]) as int
                    <= 0x7F by {
                    assert(p.take(k)[i] == p[i]);
                }
            }
            lemma_ascii_size(t.take(k));
            lemma_ascii_size(p.take(k));
            assert(size(p.take(k)) == size(t.take(k)));
        } else {
            if p.len() > 0 {
                assert(p[0] == s[0]);
            }
            assert(t == p);
        }
    }
    if n < s.len() {
        let rest = s.skip(n + 1);
        assert forall|i: int| 0 <= i < rest.len() implies rest[i] == s[i + n + 1] by {}
        law_plain_text_is_steady(rest);
    }
}

/// Cuts lie within the text.
proof fn lemma_cuts(t: Seq<char>)
    ensures
        forall|x: int| 0 <= x < cuts(t).len() ==> 0 <= #[trigger] cuts(t)[x] <= t.len(),
{
    crate::text::lemma_find_first(t, '=');
    crate::text::lemma_find_first(t, '[');
    let i = find_either(t, '=', '[');
    if i < t.len() {
        let inner = t.skip(i + 1);
        crate::text::lemma_find_first(inner, ']');
        crate::text::lemma_find_first(inner, '{');
        let j = i + 1 + find_either(inner, ']', '{');
        if j < t.len() {
            crate::text::lemma_find_first(t.skip(j + 1), '}');
        }
    }
}

/// A text of ASCII characters takes a byte for each.
proof fn lemma_ascii_size(s: Seq<char>)
    requires
        crate::text::ascii(s),
    ensures
        size(s) == s.len(),
    decreases s.len(),
{
    if s.len() > 0 {
        let t = s.drop_last();
        assert forall|i: int| 0 <= i < t.len() implies (#[trigger] t[i]) as int <= 0x7F by {
            assert(t[i] == s[i]);
        }
        lemma_ascii_size(t);
        assert(s[s.len() - 1] as int <= 0x7F);
    }
}

/// The filter that the log is opened with, whatever `RUST_LOG` holds: a text that cannot be
/// cut is no filter.
pub fn start_directive(level: &str, rust_log: Option<&str>) -> (r: String)
    ensures
        r@ == directive(
            level@,
            crate::settings::view_of(rust_log),
            asked(crate::settings::view_of(rust_log)) && steady(
                crate::text::trim(rust_log->Some_0@),
            ) && is_filter(crate::text::trim(rust_log->Some_0@)),
        ),
{
    let sure: bool = match rust_log {
        Some(s) => is_steady(string_of(trimmed(&chars_of(s))).as_str()),
        None => true,
    };
    if sure {
        build_directive(level, rust_log)
    } else {
        directive_for(level, rust_log, false)
    }
}

/// A level that was made plain stays as it is.
pub proof fn law_level_is_plain(s: Seq<char>)
    ensures
        level_word(level_word(s)) == level_word(s),
{
    lemma_level_words();
    lemma_plain_word("trace"@);
    lemma_plain_word("debug"@);
    lemma_plain_word("warn"@);
    lemma_plain_word("error"@);
    lemma_plain_word("info"@);
}

/// Whether a text is small letters.
spec fn small(s: Seq<char>) -> bool {
    s.len() > 0 && forall|i: int|
        0 <= i < s.len() ==> 'a' as int <= (#[trigger] s[i]) as int <= 'z' as int
}

proof fn lemma_level_words()
    ensures
        small("trace"@),
        small("debug"@),
        small("warn"@),
        small("error"@),
        small("info"@),
        "trace"@.len() == 5,
        "debug"@.len() == 5,
        "warning"@.len() == 7,
        "warn"@.len() == 4,
        "error"@.len() == 5,
        "info"@.len() == 4,
        "warn"@ != "info"@,
{
    reveal_strlit("trace");
    reveal_strlit("debug");
    reveal_strlit("warn");
    reveal_strlit("warning");
    reveal_strlit("error");
    reveal_strlit("info");
    assert("trace"@ == seq!['t', 'r', 'a', 'c', 'e']);
    assert("debug"@ == seq!['d', 'e', 'b', 'u', 'g']);
    assert("warn"@ == seq!['w', 'a', 'r', 'n']);
    assert("error"@ == seq!['e', 'r', 'r', 'o', 'r']);
    assert("info"@ == seq!['i', 'n', 'f', 'o']);
    assert("warn"@[0] != "info"@[0]);
}

proof fn lemma_plain_word(s: Seq<char>)
    requires
        small(s),
    ensures
        crate::text::ascii_lower(crate::text::trim(s)) == s,
{
    assert(!crate::text::white(s[0]) && !crate::text::white(s[s.len() - 1]));
    crate::text::lemma_trim_none(s, crate::text::Fringe::White);
    assert(crate::text::ascii_lower(s) == s);
}

/// Without `RUST_LOG` every crate of the station's own is raised to the level, and the
/// filter starts with warnings for all.
pub proof fn law_own_crates_raised(level: Seq<char>, k: int)
    requires
        0 <= k < own_crates().len(),
    ensures
        crate::text::part_at(scoped(level), "warn"@, 0),
        crate::text::has_part(scoped(level), raised(own_crates()[k], level_word(level))),
{
    let word = level_word(level);
    let names = own_crates();
    let s = scoped(level);
    assert(s.subrange(0, "warn"@.len() as int) == "warn"@);
    let at = lemma_raised_at(names, word, k);
    let part = raised(names[k], word);
    assert(crate::text::part_at(all_raised(names, word), part, at));
    let start = "warn"@.len() + at;
    assert(s.subrange(start, start + part.len()) == all_raised(names, word).subrange(
        at,
        at + part.len(),
    ));
    assert(crate::text::part_at(s, part, start));
}

/// Where crate `k` stands among those that are raised.
proof fn lemma_raised_at(names: Seq<Seq<char>>, level: Seq<char>, k: int) -> (at: int)
    requires
        0 <= k < names.len(),
    ensures
        crate::text::part_at(all_raised(names, level), raised(names[k], level), at),
    decreases names.len(),
{
    let front = all_raised(names.drop_last(), level);
    let all = all_raised(names, level);
    let part = raised(names[k], level);
    if k == names.len() - 1 {
        let at = front.len() as int;
        assert(all.subrange(at, at + part.len()) == part);
        at
    } else {
        let at = lemma_raised_at(names.drop_last(), level, k);
        assert(all.subrange(at, at + part.len()) == front.subrange(at, at + part.len()));
        at
    }
}

} // verus!
