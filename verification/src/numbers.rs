//! Whole numbers as text: spelling them and reading them back.

use vstd::prelude::*;

verus! {

/// The digit for a value below sixteen, letters in upper case.
pub open spec fn digit(d: int) -> char {
    if d <= 0 {
        '0'
    } else if d == 1 {
        '1'
    } else if d == 2 {
        '2'
    } else if d == 3 {
        '3'
    } else if d == 4 {
        '4'
    } else if d == 5 {
        '5'
    } else if d == 6 {
        '6'
    } else if d == 7 {
        '7'
    } else if d == 8 {
        '8'
    } else if d == 9 {
        '9'
    } else if d == 10 {
        'A'
    } else if d == 11 {
        'B'
    } else if d == 12 {
        'C'
    } else if d == 13 {
        'D'
    } else if d == 14 {
        'E'
    } else {
        'F'
    }
}

/// The digit for a value below sixteen.
pub fn digit_char(d: u8) -> (c: char)
    requires
        d < 16,
    ensures
        c == digit(d as int),
{
    match d {
        0 => '0',
        1 => '1',
        2 => '2',
        3 => '3',
        4 => '4',
        5 => '5',
        6 => '6',
        7 => '7',
        8 => '8',
        9 => '9',
        10 => 'A',
        11 => 'B',
        12 => 'C',
        13 => 'D',
        14 => 'E',
        _ => 'F',
    }
}

/// The value of a digit, in either case; 16 for a character that is no digit.
pub open spec fn value_of(c: char) -> int {
    let n = c as int;
    if 0x30 <= n <= 0x39 {
        n - 0x30
    } else if 0x41 <= n <= 0x46 {
        n - 0x37
    } else if 0x61 <= n <= 0x66 {
        n - 0x57
    } else {
        16
    }
}

/// The value of a digit.
pub fn digit_value(c: char) -> (d: u32)
    ensures
        d == value_of(c),
        d <= 16,
{
    let n: u32 = c as u32;
    if 0x30 <= n && n <= 0x39 {
        n - 0x30
    } else if 0x41 <= n && n <= 0x46 {
        n - 0x37
    } else if 0x61 <= n && n <= 0x66 {
        n - 0x57
    } else {
        16
    }
}

/// The shortest decimal spelling of `n`.
pub open spec fn dec(n: nat) -> Seq<char>
    decreases n,
{
    if n < 10 {
        seq![digit(n as int)]
    } else {
        dec(n / 10).push(digit((n % 10) as int))
    }
}

/// `w` zeros.
pub open spec fn zeros(w: int) -> Seq<char> {
    Seq::new(
        if w > 0 {
            w as nat
        } else {
            0
        },
        |i: int| '0',
    )
}

/// The decimal spelling of `n`, with zeros in front up to `w` characters.
pub open spec fn padded(n: nat, w: int) -> Seq<char> {
    zeros(w - dec(n).len()) + dec(n)
}

/// Spells `n` in decimal.
pub fn spell(n: u64) -> (r: Vec<char>)
    ensures
        r@ == dec(n as nat),
    decreases n,
{
    if n < 10 {
        let mut r: Vec<char> = Vec::new();
        r.push(digit_char(n as u8));
        assert(r@ == dec(n as nat));
        r
    } else {
        let mut r: Vec<char> = spell(n / 10);
        r.push(digit_char((n % 10) as u8));
        r
    }
}

/// Spells `n` in decimal with zeros in front up to `w` characters.
pub fn spell_padded(n: u64, w: usize) -> (r: Vec<char>)
    ensures
        r@ == padded(n as nat, w as int),
{
    let digits: Vec<char> = spell(n);
    let mut r: Vec<char> = Vec::new();
    let mut i: usize = digits.len();
    while i < w
        invariant
            digits@.len() <= i,
            i <= w || i == digits@.len(),
            r@ == zeros(i - digits@.len()),
        decreases w - i,
    {
        r.push('0');
        assert(r@ == zeros(i + 1 - digits@.len()));
        i = i + 1;
    }
    crate::text::append(&mut r, &digits);
    assert(zeros(w - digits@.len()) == zeros(i - digits@.len()));
    r
}

/// `n` with its sign, Unicode or ASCII, and at least two digits.
pub open spec fn signed(n: int, minus: char) -> Seq<char> {
    if n < 0 {
        seq![minus] + padded((-n) as nat, 2)
    } else {
        seq!['+'] + padded(n as nat, 2)
    }
}

/// Spells a report with its sign and at least two digits.
pub fn spell_signed(n: i8, minus: char) -> (r: Vec<char>)
    ensures
        r@ == signed(n as int, minus),
{
    let mut r: Vec<char> = Vec::new();
    if n < 0 {
        r.push(minus);
        let m: i16 = -(n as i16);
        crate::text::append(&mut r, &spell_padded(m as u64, 2));
    } else {
        r.push('+');
        crate::text::append(&mut r, &spell_padded(n as u64, 2));
    }
    assert(r@ == signed(n as int, minus));
    r
}

/// The four hexadecimal digits of a 16-bit number.
pub open spec fn hex4(n: int) -> Seq<char> {
    seq![digit(n / 4096), digit(n / 256 % 16), digit(n / 16 % 16), digit(n % 16)]
}

/// Spells a 16-bit number as four hexadecimal digits.
pub fn spell_hex4(n: u16) -> (r: Vec<char>)
    ensures
        r@ == hex4(n as int),
{
    let mut r: Vec<char> = Vec::new();
    r.push(digit_char((n / 4096) as u8));
    r.push(digit_char((n / 256 % 16) as u8));
    r.push(digit_char((n / 16 % 16) as u8));
    r.push(digit_char((n % 16) as u8));
    assert(r@ == hex4(n as int));
    r
}

/// Whether `s` is made of digits of the radix, one or more.
pub open spec fn all_digits(s: Seq<char>, radix: int) -> bool {
    s.len() > 0 && forall|i: int| 0 <= i < s.len() ==> value_of(#[trigger] s[i]) < radix
}

/// The number that digits spell.
pub open spec fn number(s: Seq<char>, radix: int) -> int
    decreases s.len(),
{
    if s.len() == 0 {
        0
    } else {
        number(s.drop_last(), radix) * radix + value_of(s.last())
    }
}

/// `s` without one plus sign in front.
pub open spec fn unsigned_part(s: Seq<char>) -> Seq<char> {
    if s.len() > 0 && s[0] == '+' {
        s.skip(1)
    } else {
        s
    }
}

/// The number that `s` spells, where it is made of digits, with one plus sign allowed in
/// front, and is at most `max`.
pub open spec fn read_number(s: Seq<char>, radix: int, max: int) -> Option<int> {
    let t = unsigned_part(s);
    if all_digits(t, radix) && number(t, radix) <= max {
        Some(number(t, radix))
    } else {
        None
    }
}

/// The number that an optional result stands for.
pub open spec fn int_of(o: Option<u64>) -> Option<int> {
    match o {
        Some(n) => Some(n as int),
        None => None,
    }
}

/// More digits never make a smaller number.
proof fn lemma_number_grows(s: Seq<char>, n: int, radix: int)
    requires
        0 <= n <= s.len(),
        radix >= 2,
        forall|i: int| 0 <= i < s.len() ==> value_of(#[trigger] s[i]) < radix,
    ensures
        0 <= number(s.take(n), radix) <= number(s, radix),
    decreases s.len(),
{
    if s.len() == 0 {
        assert(s.take(n) == s);
    } else {
        let t = s.drop_last();
        assert forall|i: int| 0 <= i < t.len() implies value_of(#[trigger] t[i]) < radix by {
            assert(t[i] == s[i]);
        }
        lemma_number_grows(t, t.len() as int, radix);
        assert(t.take(t.len() as int) == t);
        assert(value_of(s.last()) >= 0);
        let a = number(t, radix);
        assert(a * radix >= a) by (nonlinear_arith)
            requires
                a >= 0,
                radix >= 2,
        ;
        if n == s.len() {
            assert(s.take(n) == s);
        } else {
            lemma_number_grows(t, n, radix);
            assert(t.take(n) == s.take(n));
        }
    }
}

/// Reads a number of at most `max`.
pub fn parse_number(s: &[char], radix: u32, max: u64) -> (r: Option<u64>)
    requires
        2 <= radix <= 16,
        max <= 0xFFFF_FFFF,
    ensures
        int_of(r) == read_number(s@, radix as int, max as int),
{
    let t: &[char] = if s.len() > 0 && s[0] == '+' {
        vstd::slice::slice_subrange(s, 1, s.len())
    } else {
        s
    };
    assert(t@ == unsigned_part(s@));
    if t.len() == 0 {
        return None;
    }
    let mut n: u64 = 0;
    let mut i: usize = 0;
    while i < t.len()
        invariant
            i <= t.len(),
            2 <= radix <= 16,
            max <= 0xFFFF_FFFF,
            t@ == unsigned_part(s@),
            t@.len() > 0,
            n == number(t@.take(i as int), radix as int),
            n <= max,
            forall|j: int| 0 <= j < i ==> value_of(#[trigger] t@[j]) < radix,
        decreases t.len() - i,
    {
        let d: u32 = digit_value(t[i]);
        if d >= radix {
            assert(value_of(t@[i as int]) >= radix);
            return None;
        }
        assert(t@.take(i + 1).drop_last() == t@.take(i as int));
        assert(n * radix <= 0xFFFF_FFFF * 16) by (nonlinear_arith)
            requires
                0 <= n <= 0xFFFF_FFFF,
                2 <= radix <= 16,
        ;
        n = n * (radix as u64) + d as u64;
        i = i + 1;
        if n > max {
            proof {
                if all_digits(t@, radix as int) {
                    lemma_number_grows(t@, i as int, radix as int);
                }
            }
            return None;
        }
    }
    assert(t@.take(t@.len() as int) == t@);
    Some(n)
}

/// A decimal spelling is read as the number it was made from.
pub proof fn law_dec_read_back(n: nat, max: int)
    requires
        n <= max,
    ensures
        read_number(dec(n), 10, max) == Some(n as int),
        all_digits(dec(n), 10),
{
    lemma_dec(n);
    assert(value_of('+') == 16);
}

/// A decimal spelling is made of digits and stands for its number.
proof fn lemma_dec(n: nat)
    ensures
        all_digits(dec(n), 10),
        number(dec(n), 10) == n,
        value_of(dec(n)[0]) < 10,
    decreases n,
{
    if n < 10 {
        assert(dec(n).drop_last() == Seq::<char>::empty());
        assert(number(dec(n).drop_last(), 10) == 0);
    } else {
        lemma_dec(n / 10);
        assert(dec(n).drop_last() == dec(n / 10));
        let s = dec(n);
        assert forall|i: int| 0 <= i < s.len() implies value_of(#[trigger] s[i]) < 10 by {
            if i < s.len() - 1 {
                assert(s[i] == dec(n / 10)[i]);
            }
        }
    }
}

/// A digit stands for the value that it was made from.
proof fn lemma_digit(d: int)
    requires
        0 <= d < 16,
    ensures
        value_of(digit(d)) == d,
        digit(d) != '+',
{
}

/// Four digits stand for a number in the base sixteen.
proof fn lemma_four(s: Seq<char>, a: int, b: int, c: int, d: int)
    requires
        s.len() == 4,
        value_of(s[0]) == a,
        value_of(s[1]) == b,
        value_of(s[2]) == c,
        value_of(s[3]) == d,
    ensures
        number(s, 16) == ((a * 16 + b) * 16 + c) * 16 + d,
{
    let s3 = s.drop_last();
    let s2 = s3.drop_last();
    let s1 = s2.drop_last();
    assert(s1.drop_last() == Seq::<char>::empty());
    assert(number(s1.drop_last(), 16) == 0);
    assert(number(s1, 16) == a);
    assert(number(s2, 16) == a * 16 + b);
    assert(number(s3, 16) == (a * 16 + b) * 16 + c);
}

/// Four hexadecimal digits are read as the number they were made from.
pub proof fn law_hex4_read_back(n: int)
    requires
        0 <= n <= 0xFFFF,
    ensures
        read_number(hex4(n), 16, 0xFFFF) == Some(n),
        all_digits(hex4(n), 16),
{
    let s = hex4(n);
    let (a, b, c, d) = (n / 4096, n / 256 % 16, n / 16 % 16, n % 16);
    lemma_digit(a);
    lemma_digit(b);
    lemma_digit(c);
    lemma_digit(d);
    assert(s == seq![digit(a), digit(b), digit(c), digit(d)]);
    lemma_four(s, a, b, c, d);
    assert(((a * 16 + b) * 16 + c) * 16 + d == n);
    assert(unsigned_part(s) == s);
    assert(all_digits(s, 16));
}

/// A decimal spelling of a number that is too large is read as none.
pub proof fn law_dec_too_large(n: nat, max: int)
    requires
        n > max,
    ensures
        read_number(dec(n), 10, max) is None,
{
    lemma_dec(n);
    assert(value_of('+') == 16);
}

/// The shortest hexadecimal spelling of `n`, letters in lower case.
pub open spec fn hex(n: nat) -> Seq<char>
    decreases n,
{
    if n < 16 {
        seq![crate::text::lower_char(digit(n as int))]
    } else {
        hex(n / 16).push(crate::text::lower_char(digit((n % 16) as int)))
    }
}

/// A digit stands for the same value in either case.
proof fn lemma_low_digit(d: int)
    requires
        0 <= d < 16,
    ensures
        value_of(crate::text::lower_char(digit(d))) == d,
        crate::text::lower_char(digit(d)) != '+',
{
}

/// A hexadecimal spelling is made of digits and stands for its number.
proof fn lemma_hex(n: nat)
    ensures
        all_digits(hex(n), 16),
        number(hex(n), 16) == n,
        hex(n)[0] != '+',
    decreases n,
{
    let s = hex(n);
    if n < 16 {
        lemma_low_digit(n as int);
        assert(s.drop_last() == Seq::<char>::empty());
        assert(number(s.drop_last(), 16) == 0);
    } else {
        lemma_hex(n / 16);
        lemma_low_digit((n % 16) as int);
        assert(s.drop_last() == hex(n / 16));
        assert(s[0] == hex(n / 16)[0]);
        assert forall|i: int| 0 <= i < s.len() implies value_of(#[trigger] s[i]) < 16 by {
            if i < s.len() - 1 {
                assert(s[i] == hex(n / 16)[i]);
            }
        }
    }
}

/// A hexadecimal spelling is read as the number it was made from.
pub proof fn law_hex_read_back(n: nat, max: int)
    requires
        n <= max,
    ensures
        read_number(hex(n), 16, max) == Some(n as int),
        all_digits(hex(n), 16),
{
    lemma_hex(n);
}

} // verus!
