//! What holds of texts and numbers: letters and their case, space and words, and how numbers
//! are spelled.

use vstd::prelude::*;

use crate::text::Fringe;

verus! {

/// The capital letters stand 32 places before the small ones. A letter of either case is
/// changed into its own other case, and nothing else is changed.
pub proof fn law_case_of_letters(c: char)
    ensures
        'a' as int <= c as int <= 'z' as int ==> crate::text::upper_char(c) as int == c as int - 32
            && crate::text::lower_char(crate::text::upper_char(c)) == c,
        'A' as int <= c as int <= 'Z' as int ==> crate::text::lower_char(c) as int == c as int + 32
            && crate::text::upper_char(crate::text::lower_char(c)) == c,
        !('a' as int <= c as int <= 'z' as int) ==> crate::text::upper_char(c) == c,
        !('A' as int <= c as int <= 'Z' as int) ==> crate::text::lower_char(c) == c,
{
}

/// To change the case of a text leaves its length, changes each character by itself, and
/// doing it twice does no more than once.
pub proof fn law_case_of_text(s: Seq<char>, i: int)
    requires
        0 <= i < s.len(),
    ensures
        crate::text::ascii_upper(s).len() == s.len(),
        crate::text::ascii_lower(s).len() == s.len(),
        crate::text::ascii_upper(s)[i] == crate::text::upper_char(s[i]),
        crate::text::ascii_lower(s)[i] == crate::text::lower_char(s[i]),
        crate::text::ascii_upper(crate::text::ascii_upper(s)) == crate::text::ascii_upper(s),
        crate::text::ascii_upper(crate::text::ascii_lower(s)) == crate::text::ascii_upper(s),
        crate::text::same_letters(s, crate::text::ascii_lower(s)),
        crate::text::same_letters(s, crate::text::ascii_upper(s)),
{
    assert(crate::text::ascii_upper(crate::text::ascii_upper(s)) == crate::text::ascii_upper(s));
    assert(crate::text::ascii_upper(crate::text::ascii_lower(s)) == crate::text::ascii_upper(s));
}

/// Two texts are the same but for the case of their letters only where they have the same
/// length, and the same letter or other character at every place.
pub proof fn law_same_letters(a: Seq<char>, b: Seq<char>, i: int)
    requires
        crate::text::same_letters(a, b),
        0 <= i < a.len(),
    ensures
        a.len() == b.len(),
        a[i] == b[i] || a[i] as int - b[i] as int == 32 || b[i] as int - a[i] as int == 32,
{
    assert(crate::text::ascii_upper(a).len() == a.len());
    assert(crate::text::ascii_upper(b).len() == b.len());
    assert(crate::text::ascii_upper(a)[i] == crate::text::ascii_upper(b)[i]);
}

/// Of the ASCII characters the space, the tab, the line feed, the carriage return and the two
/// feeds between them are space; nothing that is printed is.
pub proof fn law_space(c: char)
    ensures
        c as int <= 0x7F ==> (crate::text::white(c) <==> c == ' ' || c == '\t' || c == '\n' || c
            == '\r' || c as int == 0x0B || c as int == 0x0C),
        crate::text::white('\u{00A0}') && crate::text::white('\u{2003}') && crate::text::white(
            '\u{3000}',
        ),
{
}

/// A trim takes fringe off the two ends and nothing else: the text is what is left, between
/// fringe alone.
pub proof fn law_trim_takes_fringe_alone(s: Seq<char>, f: Fringe)
    ensures
        exists|a: int, b: int|
            0 <= a <= b <= s.len() && crate::text::trim_both(s, f) == #[trigger] s.subrange(a, b)
                && (forall|i: int| 0 <= i < a || b <= i < s.len() ==> f.has(#[trigger] s[i])),
{
    let (a, b) = crate::text::lemma_core(s, f);
    if crate::text::all_fringe(s, f) {
        crate::text::lemma_trim_all(s, f);
        assert(crate::text::trim_both(s, f) == s.subrange(0, 0));
    } else {
        crate::text::lemma_trim_core(s, f, a, b);
        assert(crate::text::trim_both(s, f) == s.subrange(a, b));
    }
}

/// Whether a text is one word: not empty, and without space.
pub open spec fn is_word(w: Seq<char>) -> bool {
    w.len() > 0 && forall|i: int| 0 <= i < w.len() ==> !crate::text::white(#[trigger] w[i])
}

/// A word at the start of a text is its first word, and the rest of the words are those of
/// what follows. Space at the start counts for nothing.
pub proof fn law_first_word(w: Seq<char>, rest: Seq<char>, c: char)
    ensures
        is_word(w) && (rest.len() == 0 || crate::text::white(rest[0])) ==> crate::text::words(
            w + rest,
        ) == seq![w] + crate::text::words(rest),
        crate::text::white(c) ==> crate::text::words(seq![c] + rest) == crate::text::words(rest),
        crate::text::words(Seq::empty()).len() == 0,
{
    if is_word(w) && (rest.len() == 0 || crate::text::white(rest[0])) {
        let t = w + rest;
        assert(t[0] == w[0]);
        assert(crate::text::trim_front(t, Fringe::White) == t);
        crate::text::lemma_word_len(t);
        let n = crate::text::word_len(t);
        if n < w.len() {
            assert(t[n] == w[n]);
        }
        if n > w.len() {
            assert(t[w.len() as int] == rest[0]);
        }
        assert(t.take(n) == w);
        assert(t.skip(n) == rest);
    }
    if crate::text::white(c) {
        let t = seq![c] + rest;
        assert(t[0] == c);
        assert(t.skip(1) == rest);
        assert(crate::text::trim_front(t, Fringe::White) == crate::text::trim_front(
            rest,
            Fringe::White,
        ));
    }
    assert(crate::text::trim_front(Seq::<char>::empty(), Fringe::White).len() == 0);
}

/// Texts with one space between them.
pub open spec fn spaced(ws: Seq<Seq<char>>) -> Seq<char>
    decreases ws.len(),
{
    if ws.len() == 0 {
        Seq::empty()
    } else if ws.len() == 1 {
        ws[0]
    } else {
        ws[0] + (seq![' '] + spaced(ws.skip(1)))
    }
}

/// Words with a space between them are read back as those words.
pub proof fn law_words_read_back(ws: Seq<Seq<char>>)
    requires
        forall|i: int| 0 <= i < ws.len() ==> is_word(#[trigger] ws[i]),
    ensures
        crate::text::words(spaced(ws)) == ws,
    decreases ws.len(),
{
    if ws.len() == 0 {
        law_first_word(Seq::empty(), Seq::empty(), ' ');
        assert(crate::text::words(spaced(ws)) == ws);
    } else if ws.len() == 1 {
        law_first_word(ws[0], Seq::empty(), ' ');
        assert(ws[0] + Seq::<char>::empty() == ws[0]);
        assert(crate::text::words(spaced(ws)) == ws);
    } else {
        let rest = ws.skip(1);
        assert forall|i: int| 0 <= i < rest.len() implies is_word(#[trigger] rest[i]) by {
            assert(rest[i] == ws[i + 1]);
        }
        law_words_read_back(rest);
        law_first_word(ws[0], seq![' '] + spaced(rest), ' ');
        law_first_word(ws[0], spaced(rest), ' ');
        assert(seq![ws[0]] + rest == ws);
    }
}

/// Every word of a text is one: not empty and without space.
pub proof fn law_words_are_words(s: Seq<char>, i: int)
    requires
        0 <= i < crate::text::words(s).len(),
    ensures
        is_word(crate::text::words(s)[i]),
    decreases s.len(),
{
    let t = crate::text::trim_front(s, Fringe::White);
    let n = crate::text::word_len(t);
    crate::text::lemma_trim_front(s, Fringe::White);
    crate::text::lemma_word_len(t);
    if t.len() > 0 {
        if i == 0 {
            let w = t.take(n);
            assert(crate::text::words(s)[0] == w);
            assert forall|k: int| 0 <= k < w.len() implies !crate::text::white(#[trigger] w[k]) by {
                assert(w[k] == t[k]);
            }
        } else {
            law_words_are_words(t.skip(n), i - 1);
            assert(crate::text::words(s)[i] == crate::text::words(t.skip(n))[i - 1]);
        }
    }
}

/// The digits stand in order: each of the ten is one place behind the one before it, and
/// then come the capital letters from A on.
pub proof fn law_digits_in_order(d: int)
    requires
        0 <= d < 16,
    ensures
        d < 10 ==> crate::numbers::digit(d) as int == '0' as int + d,
        d >= 10 ==> crate::numbers::digit(d) as int == 'A' as int + d - 10,
        crate::numbers::value_of(crate::numbers::digit(d)) == d,
{
}

/// A number is spelled digit by digit: ten times a number and a digit more is spelled as the
/// number with the digit behind it.
pub proof fn law_digit_by_digit(n: nat, d: nat)
    requires
        d < 10,
    ensures
        n > 0 ==> crate::numbers::dec(10 * n + d) == crate::numbers::dec(n).push(
            (('0' as int + d) as char),
        ),
        crate::numbers::dec(d) == seq![(('0' as int + d) as char)],
{
    law_digits_in_order(d as int);
    assert((10 * n + d) / 10 == n);
    assert((10 * n + d) % 10 == d);
}

/// A padded number has at least the width asked for, is no longer than it must be, and is
/// padded with zeros in front of its shortest spelling.
pub proof fn law_padded(n: nat, w: int, i: int)
    ensures
        crate::numbers::padded(n, w).len() == (if w > crate::numbers::dec(n).len() {
            w
        } else {
            crate::numbers::dec(n).len() as int
        }),
        crate::numbers::padded(n, w).skip(
            crate::numbers::padded(n, w).len() - crate::numbers::dec(n).len(),
        ) == crate::numbers::dec(n),
        0 <= i < crate::numbers::padded(n, w).len() - crate::numbers::dec(n).len()
            ==> crate::numbers::padded(n, w)[i] == '0',
{
    let p = crate::numbers::padded(n, w);
    assert(p.skip(p.len() - crate::numbers::dec(n).len()) == crate::numbers::dec(n));
}

/// A report starts with its sign, a plus for nothing and above, and goes on with its size in
/// two digits or more; so reports of opposite sign differ in the sign alone.
pub proof fn law_signed(n: nat, minus: char)
    ensures
        crate::numbers::signed(n as int, minus) == seq!['+'] + crate::numbers::padded(n, 2),
        n > 0 ==> crate::numbers::signed(-(n as int), minus) == seq![minus] + crate::numbers::padded(
            n,
            2,
        ),
        n > 0 ==> crate::numbers::signed(-(n as int), minus).skip(1) == crate::numbers::signed(
            n as int,
            minus,
        ).skip(1),
{
    if n > 0 {
        assert(crate::numbers::signed(-(n as int), minus).skip(1) == crate::numbers::padded(n, 2));
        assert(crate::numbers::signed(n as int, minus).skip(1) == crate::numbers::padded(n, 2));
    }
}

/// A number is read from digits alone: one plus sign in front is passed over, and a text that
/// is empty, or holds any other character, is no number. What is read is never too large.
pub proof fn law_reading_numbers(s: Seq<char>, radix: int, max: int, i: int)
    requires
        2 <= radix <= 16,
    ensures
        crate::numbers::read_number(s, radix, max) matches Some(n) ==> n <= max && s.len() > 0,
        s.len() == 0 || s == seq!['+'] ==> crate::numbers::read_number(s, radix, max) is None,
        0 <= i < s.len() && crate::numbers::value_of(s[i]) >= radix && (i > 0 || s[0] != '+')
            ==> crate::numbers::read_number(s, radix, max) is None,
        s.len() > 0 && s[0] != '+' ==> crate::numbers::read_number(seq!['+'] + s, radix, max)
            == crate::numbers::read_number(s, radix, max),
{
    let t = crate::numbers::unsigned_part(s);
    if 0 <= i < s.len() && crate::numbers::value_of(s[i]) >= radix && (i > 0 || s[0] != '+') {
        if s[0] == '+' {
            assert(t[i - 1] == s[i]);
        } else {
            assert(t[i] == s[i]);
        }
    }
    if s.len() > 0 && s[0] != '+' {
        let u = seq!['+'] + s;
        assert(u[0] == '+');
        assert(u.skip(1) == s);
    }
}

} // verus!
