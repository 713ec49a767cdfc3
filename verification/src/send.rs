//! The send row: the box with the next message, and the slash commands that can be typed
//! into it.
//!
//! A dial frequency is a number with decimals. It stands as the bit pattern of a 64-bit
//! float, read by the caller from the word that `frequency_arg` finds.

use vstd::prelude::*;
use vstd::slice::slice_subrange;

use crate::numbers::parse_number;
use crate::text::{
    append_str, chars_of, lower_text, same, split_words, string_of, trimmed, trimmed_back, Fringe,
};
use crate::types::{Band, ContestProfile, OverAirMode, StationConfig};
use crate::waterslide_panel::Target;

verus! {

/// A dial frequency in megahertz, as the bit pattern of a 64-bit float.
#[derive(Clone, Copy, Debug, PartialEq, Eq, Structural)]
pub struct Mhz(pub u64);

/// Whether a frequency is finite and above zero.
pub open spec fn tunable(bits: u64) -> bool {
    0 < bits < 0x7FF0_0000_0000_0000
}

/// A slash command.
#[derive(Clone, Copy, Debug, PartialEq, Eq, Structural)]
pub enum Command {
    /// Tune the dial.
    SetFrequency(Mhz),
    /// Change the band: the dial goes to its calling frequency in the current mode.
    SetBand(Band),
    /// Move to the clearest lane.
    ClearQsy,
    /// Start the band scanner, or stop it.
    Scan,
}

/// What Enter or the button means.
#[derive(Clone, Copy, Debug, PartialEq, Eq, Structural)]
pub enum Activation {
    /// A command was typed.
    Command(Command),
    /// No command is being typed: start or stop the contact engine.
    Toggle,
    /// A command was typed that means nothing.
    Nothing,
}

/// The text behind the slash or colon that starts a command.
pub open spec fn command_text(input: Seq<char>) -> Option<Seq<char>> {
    let s = crate::text::trim(input);
    if s.len() > 0 && (s[0] == '/' || s[0] == ':') {
        Some(s.skip(1))
    } else {
        None
    }
}

/// The words of a command, the first in lower case.
pub open spec fn command_words(input: Seq<char>) -> Seq<Seq<char>> {
    match command_text(input) {
        Some(t) => {
            let w = crate::text::words(t);
            if w.len() == 0 {
                w
            } else {
                w.update(0, crate::text::ascii_lower(w[0]))
            }
        },
        None => Seq::empty(),
    }
}

/// Whether a word tunes the dial.
pub open spec fn is_frequency_verb(w: Seq<char>) -> bool {
    w == "f"@ || w == "freq"@ || w == "frequency"@
}

/// Whether a word changes the band.
pub open spec fn is_band_verb(w: Seq<char>) -> bool {
    w == "b"@ || w == "band"@
}

/// The word that a frequency is to be read from.
pub open spec fn frequency_word(input: Seq<char>) -> Option<Seq<char>> {
    let w = command_words(input);
    if w.len() >= 2 && is_frequency_verb(w[0]) {
        Some(w[1])
    } else {
        None
    }
}

/// The band with that many metres.
pub open spec fn band_of_metres(n: int) -> Option<Band> {
    if n == 160 {
        Some(Band::B160m)
    } else if n == 80 {
        Some(Band::B80m)
    } else if n == 40 {
        Some(Band::B40m)
    } else if n == 30 {
        Some(Band::B30m)
    } else if n == 20 {
        Some(Band::B20m)
    } else if n == 17 {
        Some(Band::B17m)
    } else if n == 15 {
        Some(Band::B15m)
    } else if n == 12 {
        Some(Band::B12m)
    } else if n == 10 {
        Some(Band::B10m)
    } else if n == 6 {
        Some(Band::B6m)
    } else {
        None
    }
}

/// The band that a word names: `20`, `20m` or `20M`.
pub open spec fn band_word(arg: Seq<char>) -> Option<Band> {
    match crate::numbers::read_number(
        crate::text::trim_back(arg, Fringe::Either('m', 'M')),
        10,
        0xFFFF,
    ) {
        Some(n) => band_of_metres(n),
        None => None,
    }
}

/// The command that `input` spells, where `mhz` is the number that its frequency word
/// stands for, if it stands for one.
pub open spec fn command_of(input: Seq<char>, mhz: Option<u64>) -> Option<Command> {
    let w = command_words(input);
    if w.len() == 0 {
        None
    } else if is_frequency_verb(w[0]) {
        match mhz {
            Some(bits) => if w.len() >= 2 && tunable(bits) {
                Some(Command::SetFrequency(Mhz(bits)))
            } else {
                None
            },
            None => None,
        }
    } else if is_band_verb(w[0]) {
        if w.len() >= 2 {
            match band_word(w[1]) {
                Some(b) => Some(Command::SetBand(b)),
                None => None,
            }
        } else {
            None
        }
    } else if w[0] == "clear"@ {
        Some(Command::ClearQsy)
    } else if w[0] == "scan"@ {
        Some(Command::Scan)
    } else {
        None
    }
}

/// The words of a command, the first in lower case.
fn words_of(input: &str) -> (r: Vec<Vec<char>>)
    ensures
        crate::text::views(r@) == command_words(input@),
{
    let v: Vec<char> = chars_of(input);
    let s: &[char] = trimmed(&v);
    if s.len() == 0 || !(s[0] == '/' || s[0] == ':') {
        let r: Vec<Vec<char>> = Vec::new();
        assert(crate::text::views(r@) == command_words(input@));
        return r;
    }
    let rest: &[char] = slice_subrange(s, 1, s.len());
    assert(rest@ == s@.skip(1));
    let mut r: Vec<Vec<char>> = split_words(rest);
    if r.len() > 0 {
        let ghost before = crate::text::views(r@);
        let verb: Vec<char> = lower_text(&r[0]);
        r.set(0, verb);
        assert(crate::text::views(r@) == before.update(0, crate::text::ascii_lower(before[0])));
    }
    r
}

/// Whether a word is the given one.
fn is_word(w: &Vec<char>, s: &str) -> (r: bool)
    ensures
        r == (w@ == s@),
{
    same(w, &chars_of(s))
}

/// The word that a frequency is to be read from, if the input tunes the dial.
pub fn frequency_arg(input: &str) -> (r: Option<String>)
    ensures
        crate::config_toml::text_of(r) == frequency_word(input@),
{
    let w: Vec<Vec<char>> = words_of(input);
    let ghost ws = crate::text::views(w@);
    if w.len() >= 2 {
        assert(ws[0] == w@[0]@ && ws[1] == w@[1]@);
        if is_word(&w[0], "f") || is_word(&w[0], "freq") || is_word(&w[0], "frequency") {
            return Some(string_of(&w[1]));
        }
    }
    None
}

/// The band that a word names: `20`, `20m` or `20M`.
pub fn parse_band(arg: &str) -> (r: Option<Band>)
    ensures
        r == band_word(arg@),
{
    let v: Vec<char> = chars_of(arg);
    match parse_number(trimmed_back(&v, Fringe::Either('m', 'M')), 10, 0xFFFF) {
        Some(n) => match n {
            160 => Some(Band::B160m),
            80 => Some(Band::B80m),
            40 => Some(Band::B40m),
            30 => Some(Band::B30m),
            20 => Some(Band::B20m),
            17 => Some(Band::B17m),
            15 => Some(Band::B15m),
            12 => Some(Band::B12m),
            10 => Some(Band::B10m),
            6 => Some(Band::B6m),
            _ => None,
        },
        None => None,
    }
}

/// The command that `input` spells; `None` where it spells none. The number `mhz` is what
/// the word of `frequency_arg` stands for, if it stands for one.
pub fn parse_command(input: &str, mhz: Option<u64>) -> (r: Option<Command>)
    ensures
        r == command_of(input@, mhz),
{
    let w: Vec<Vec<char>> = words_of(input);
    let ghost ws = crate::text::views(w@);
    if w.len() == 0 {
        return None;
    }
    assert(ws[0] == w@[0]@);
    if is_word(&w[0], "f") || is_word(&w[0], "freq") || is_word(&w[0], "frequency") {
        match mhz {
            Some(bits) => if w.len() >= 2 && 0 < bits && bits < 0x7FF0_0000_0000_0000 {
                Some(Command::SetFrequency(Mhz(bits)))
            } else {
                None
            },
            None => None,
        }
    } else if is_word(&w[0], "b") || is_word(&w[0], "band") {
        if w.len() >= 2 {
            assert(ws[1] == w@[1]@);
            match parse_band(string_of(&w[1]).as_str()) {
                Some(b) => Some(Command::SetBand(b)),
                None => None,
            }
        } else {
            None
        }
    } else if is_word(&w[0], "clear") {
        Some(Command::ClearQsy)
    } else if is_word(&w[0], "scan") {
        Some(Command::Scan)
    } else {
        None
    }
}

/// How many metres a band has.
pub open spec fn metres_of(b: Band) -> nat {
    match b {
        Band::B160m => 160,
        Band::B80m => 80,
        Band::B40m => 40,
        Band::B30m => 30,
        Band::B20m => 20,
        Band::B17m => 17,
        Band::B15m => 15,
        Band::B12m => 12,
        Band::B10m => 10,
        Band::B6m => 6,
    }
}

/// The short name of a band is its count of metres.
proof fn lemma_name_is_count(b: Band)
    ensures
        crate::format::band_name(b) == crate::numbers::dec(metres_of(b)),
{
    reveal_strlit("160");
    reveal_strlit("80");
    reveal_strlit("40");
    reveal_strlit("30");
    reveal_strlit("20");
    reveal_strlit("17");
    reveal_strlit("15");
    reveal_strlit("12");
    reveal_strlit("10");
    reveal_strlit("6");
    reveal_with_fuel(crate::numbers::dec, 3);
    assert(crate::format::band_name(b) == crate::numbers::dec(metres_of(b)));
}

/// How a count of metres is read, with the unit and without.
proof fn lemma_count_read(n: nat)
    ensures
        band_word(crate::numbers::dec(n)) == band_of_metres(n as int),
        band_word(crate::numbers::dec(n).push('m')) == band_of_metres(n as int),
        band_word(crate::numbers::dec(n).push('M')) == band_of_metres(n as int),
        crate::text::ascii_upper(crate::numbers::dec(n)) == crate::numbers::dec(n),
{
    let s = crate::numbers::dec(n);
    let f = Fringe::Either('m', 'M');
    crate::numbers::law_dec_read_back(n, n as int);
    if n > 0xFFFF {
        crate::numbers::law_dec_too_large(n, 0xFFFF);
    } else {
        crate::numbers::law_dec_read_back(n, 0xFFFF);
    }
    assert(crate::numbers::value_of(s[s.len() - 1]) < 10);
    assert(crate::text::trim_back(s, f) == s);
    assert(s.push('m').drop_last() == s);
    assert(s.push('M').drop_last() == s);
    assert(crate::text::trim_back(s.push('m'), f) == s);
    assert(crate::text::trim_back(s.push('M'), f) == s);
    assert forall|i: int| 0 <= i < s.len() implies crate::text::upper_char(#[trigger] s[i])
        == s[i] by {
        assert(crate::numbers::value_of(s[i]) < 10);
    }
    assert(crate::text::ascii_upper(s) == s);
}

/// Every band is read from its names: the short one, the full one, and the full one in
/// upper case.
pub proof fn law_band_names_read_back(b: Band)
    ensures
        band_word(crate::format::band_name(b)) == Some(b),
        band_word(crate::format::band_full(b)) == Some(b),
        band_word(crate::text::ascii_upper(crate::format::band_full(b))) == Some(b),
{
    let n = metres_of(b);
    let s = crate::numbers::dec(n);
    lemma_name_is_count(b);
    crate::format::law_band_names(b);
    lemma_count_read(n);
    assert(crate::text::ascii_upper(s.push('m')) == crate::text::ascii_upper(s).push('M'));
}

/// A plain count of metres names a band exactly where there is one with that many: every
/// other count is refused.
pub proof fn law_only_band_counts(n: nat)
    ensures
        band_word(crate::numbers::dec(n)) == band_of_metres(n as int),
        band_word(crate::numbers::dec(n)) is Some <==> exists|b: Band| #[trigger] metres_of(b)
            == n,
{
    lemma_count_read(n);
    match band_of_metres(n as int) {
        Some(b) => {
            assert(metres_of(b) == n);
        },
        None => {
            assert forall|b: Band| #[trigger] metres_of(b) != n by {}
        },
    }
}

/// The calling frequency of a band in a mode, in hertz.
pub open spec fn calling_freq(band: Band, mode: OverAirMode) -> Option<u64> {
    match mode {
        OverAirMode::Ft8 => Some(
            match band {
                Band::B160m => 1_840_000,
                Band::B80m => 3_573_000,
                Band::B40m => 7_074_000,
                Band::B30m => 10_136_000,
                Band::B20m => 14_074_000,
                Band::B17m => 18_100_000,
                Band::B15m => 21_074_000,
                Band::B12m => 24_915_000,
                Band::B10m => 28_074_000,
                Band::B6m => 50_313_000,
            },
        ),
        OverAirMode::Ft4 => match band {
            Band::B160m => None,
            Band::B80m => Some(3_575_000),
            Band::B40m => Some(7_047_500),
            Band::B30m => Some(10_140_000),
            Band::B20m => Some(14_080_000),
            Band::B17m => Some(18_104_000),
            Band::B15m => Some(21_140_000),
            Band::B12m => Some(24_919_000),
            Band::B10m => Some(28_180_000),
            Band::B6m => Some(50_318_000),
        },
        _ => None,
    }
}

/// The calling frequency of a band in a mode, in hertz; `None` where there is none.
pub fn calling_freq_hz(band: Band, mode: OverAirMode) -> (r: Option<u64>)
    ensures
        r == calling_freq(band, mode),
{
    match mode {
        OverAirMode::Ft8 => {
            let hz: u64 = match band {
                Band::B160m => 1_840_000,
                Band::B80m => 3_573_000,
                Band::B40m => 7_074_000,
                Band::B30m => 10_136_000,
                Band::B20m => 14_074_000,
                Band::B17m => 18_100_000,
                Band::B15m => 21_074_000,
                Band::B12m => 24_915_000,
                Band::B10m => 28_074_000,
                Band::B6m => 50_313_000,
            };
            Some(hz)
        },
        OverAirMode::Ft4 => match band {
            Band::B160m => None,
            Band::B80m => Some(3_575_000),
            Band::B40m => Some(7_047_500),
            Band::B30m => Some(10_140_000),
            Band::B20m => Some(14_080_000),
            Band::B17m => Some(18_104_000),
            Band::B15m => Some(21_140_000),
            Band::B12m => Some(24_919_000),
            Band::B10m => Some(28_180_000),
            Band::B6m => Some(50_318_000),
        },
        _ => None,
    }
}

/// A calling frequency lies in its band.
pub proof fn law_calling_freq_in_band(band: Band, mode: OverAirMode)
    requires
        calling_freq(band, mode) is Some,
    ensures
        crate::types::in_band(calling_freq(band, mode)->Some_0 as int, band),
        crate::types::band_at(calling_freq(band, mode)->Some_0 as int) == Some(band),
{
}

/// The next message: a CQ into bare spectrum, or the answer to the station that was
/// picked. In Field Day the CQ says so, and the answer carries class and section in place
/// of the locator.
pub open spec fn message_for(call: Option<Seq<char>>, me: StationConfig) -> Seq<char> {
    let fd = me.contest == ContestProfile::ArrlFieldDay;
    match call {
        Some(his) => if fd {
            his + seq![' '] + me.call.0@ + seq![' '] + me.fd_class@ + seq![' '] + me.fd_section.0@
        } else {
            his + seq![' '] + me.call.0@ + seq![' '] + me.grid.0@
        },
        None => (if fd {
            "CQ FD "@
        } else {
            "CQ "@
        }) + me.call.0@ + seq![' '] + me.grid.0@,
    }
}

/// The next message for what is picked.
pub fn next_message(target: &Target, me: &StationConfig) -> (r: String)
    ensures
        r@ == message_for(target.call(), *me),
{
    let fd: bool = match me.contest {
        ContestProfile::ArrlFieldDay => true,
        ContestProfile::Standard => false,
    };
    let mut v: Vec<char> = Vec::new();
    match target.station() {
        Some(his) => {
            append_str(&mut v, his);
            v.push(' ');
            append_str(&mut v, me.call.0.as_str());
            v.push(' ');
            if fd {
                append_str(&mut v, me.fd_class.as_str());
                v.push(' ');
                append_str(&mut v, me.fd_section.0.as_str());
            } else {
                append_str(&mut v, me.grid.0.as_str());
            }
        },
        None => {
            if fd {
                append_str(&mut v, "CQ FD ");
            } else {
                append_str(&mut v, "CQ ");
            }
            append_str(&mut v, me.call.0.as_str());
            v.push(' ');
            append_str(&mut v, me.grid.0.as_str());
        },
    }
    assert(v@ == message_for(target.call(), *me));
    string_of(&v)
}

/// The send box: what it shows, and whether a command is being typed into it.
///
/// It is no free text field. It shows the next message, until a slash or a colon starts a
/// command.
pub struct SendState {
    pub buf: String,
    pub entering: bool,
}

/// Whether a character starts a command.
pub open spec fn starts_command(c: char) -> bool {
    c == '/' || c == ':'
}

/// The box after some text was typed.
pub open spec fn typed(entering: bool, buf: Seq<char>, text: Seq<char>) -> (bool, Seq<char>)
    decreases text.len(),
{
    if text.len() == 0 {
        (entering, buf)
    } else {
        let (e, b) = typed(entering, buf, text.drop_last());
        let c = text.last();
        if e {
            (true, b.push(c))
        } else if starts_command(c) {
            (true, seq![c])
        } else {
            (false, b)
        }
    }
}

impl Default for SendState {
    /// An empty box.
    fn default() -> (r: Self)
        ensures
            r.buf@ == Seq::<char>::empty(),
            !r.entering,
            r.wf(),
    {
        SendState { buf: String::new(), entering: false }
    }
}

impl SendState {
    /// Whether what is being typed is a command: it starts as one.
    pub open spec fn wf(self) -> bool {
        self.entering ==> self.buf@.len() > 0 && starts_command(self.buf@[0])
    }

    /// Shows the next message, unless a command is being typed.
    pub fn refresh_auto(&mut self, target: &Target, me: &StationConfig)
        ensures
            final(self).entering == old(self).entering,
            final(self).buf@ == (if old(self).entering {
                old(self).buf@
            } else {
                message_for(target.call(), *me)
            }),
            old(self).wf() ==> final(self).wf(),
    {
        if !self.entering {
            self.buf = next_message(target, me);
        }
    }

    /// Takes typed text. Outside a command only a slash or a colon counts: it starts one
    /// and clears the box.
    pub fn type_text(&mut self, text: &str)
        ensures
            (final(self).entering, final(self).buf@) == typed(
                old(self).entering,
                old(self).buf@,
                text@,
            ),
            old(self).wf() ==> final(self).wf(),
    {
        let v: Vec<char> = chars_of(text);
        let mut i: usize = 0;
        let ghost start = *self;
        while i < v.len()
            invariant
                i <= v.len(),
                v@ == text@,
                (self.entering, self.buf@) == typed(start.entering, start.buf@, v@.take(i as int)),
                start.wf() ==> self.wf(),
            decreases v.len() - i,
        {
            let ch: char = v[i];
            assert(v@.take(i + 1).drop_last() == v@.take(i as int));
            if self.entering {
                self.buf.push(ch);
            } else if ch == '/' || ch == ':' {
                self.entering = true;
                let mut fresh: String = String::new();
                fresh.push(ch);
                assert(fresh@ == seq![ch]);
                self.buf = fresh;
            }
            i = i + 1;
        }
        assert(v@.take(v@.len() as int) == v@);
    }

    /// Takes the last character of a command back; the command ends with its first.
    pub fn backspace(&mut self)
        ensures
            !old(self).entering ==> final(self).entering == old(self).entering && final(self).buf@
                == old(self).buf@,
            old(self).entering ==> final(self).buf@ == (if old(self).buf@.len() == 0 {
                old(self).buf@
            } else {
                old(self).buf@.drop_last()
            }) && final(self).entering == (final(self).buf@.len() > 0),
            old(self).wf() ==> final(self).wf(),
    {
        if self.entering {
            let v: Vec<char> = chars_of(self.buf.as_str());
            let n: usize = v.len();
            if n > 0 {
                let kept: &[char] = slice_subrange(v.as_slice(), 0, n - 1);
                assert(kept@ == v@.drop_last());
                self.buf = string_of(kept);
            }
            if n <= 1 {
                self.entering = false;
            }
        }
    }

    /// Gives a command up.
    pub fn escape(&mut self)
        ensures
            !final(self).entering,
            final(self).buf@ == (if old(self).entering {
                Seq::<char>::empty()
            } else {
                old(self).buf@
            }),
            final(self).wf(),
    {
        if self.entering {
            self.entering = false;
            self.buf = String::new();
        }
    }

    /// Enter or the button: ends the command and returns it, or toggles the engine where
    /// no command is being typed. The number `mhz` is what the word of `frequency_arg`
    /// stands for.
    pub fn activate(&mut self, mhz: Option<u64>) -> (r: Activation)
        ensures
            r == (if !old(self).entering {
                Activation::Toggle
            } else {
                match command_of(old(self).buf@, mhz) {
                    Some(c) => Activation::Command(c),
                    None => Activation::Nothing,
                }
            }),
            !final(self).entering,
            final(self).buf@ == (if old(self).entering {
                Seq::<char>::empty()
            } else {
                old(self).buf@
            }),
            final(self).wf(),
    {
        if self.entering {
            let cmd: Option<Command> = parse_command(self.buf.as_str(), mhz);
            self.entering = false;
            self.buf = String::new();
            return match cmd {
                Some(c) => Activation::Command(c),
                None => Activation::Nothing,
            };
        }
        Activation::Toggle
    }
}

/// Outside a command, text without a slash or a colon leaves the box as it is: it cannot
/// hold free text.
pub proof fn law_no_free_text(buf: Seq<char>, text: Seq<char>)
    requires
        forall|i: int| 0 <= i < text.len() ==> !starts_command(#[trigger] text[i]),
    ensures
        typed(false, buf, text) == (false, buf),
    decreases text.len(),
{
    if text.len() > 0 {
        let t = text.drop_last();
        assert forall|i: int| 0 <= i < t.len() implies !starts_command(#[trigger] t[i]) by {
            assert(t[i] == text[i]);
        }
        law_no_free_text(buf, t);
        assert(!starts_command(text[text.len() - 1]));
    }
}

/// A command is typed as it stands: the box holds exactly the text from its slash on.
pub proof fn law_command_is_typed(buf: Seq<char>, command: Seq<char>)
    requires
        command.len() > 0,
        starts_command(command[0]),
    ensures
        typed(false, buf, command) == (true, command),
    decreases command.len(),
{
    let t = command.drop_last();
    if t.len() > 0 {
        assert(t[0] == command[0]);
        law_command_is_typed(buf, t);
        assert(t.push(command.last()) == command);
    } else {
        assert(typed(false, buf, t) == (false, buf));
        assert(command == seq![command[0]]);
    }
}

/// Text in two parts is typed as text in one.
pub proof fn law_typed_in_parts(entering: bool, buf: Seq<char>, a: Seq<char>, b: Seq<char>)
    ensures
        typed(entering, buf, a + b) == typed(
            typed(entering, buf, a).0,
            typed(entering, buf, a).1,
            b,
        ),
    decreases b.len(),
{
    if b.len() > 0 {
        assert((a + b).drop_last() == a + b.drop_last());
        law_typed_in_parts(entering, buf, a, b.drop_last());
    } else {
        assert(a + b == a);
    }
}

} // verus!
