//! The Call Sign panel: what is known of the selected station.

use vstd::prelude::*;

use crate::bus_view::MapSpot;
use crate::numbers::spell;
use crate::panel_data::Locator;
use crate::panels::contacts::find_spot;
use crate::text::{
    append, append_str, chars_of, owned, same_ignoring_case, string_of, to_uppercase, trimmed,
};
use crate::types::LogEntry;

verus! {

/// A number with a comma between thousands.
pub open spec fn grouped(s: Seq<char>) -> Seq<char>
    decreases s.len(),
{
    if s.len() <= 3 {
        s
    } else {
        grouped(s.take(s.len() - 3)) + seq![','] + s.skip(s.len() - 3)
    }
}

/// A whole number with a comma between thousands, and its sign where it is negative.
pub open spec fn group_text(n: int) -> Seq<char> {
    if n < 0 {
        seq!['-'] + grouped(crate::numbers::dec((-n) as nat))
    } else {
        grouped(crate::numbers::dec(n as nat))
    }
}

/// The first `i` characters of a number of `s.len()` digits, with a comma before each
/// group of three but the first.
pub open spec fn grouped_to(s: Seq<char>, i: int) -> Seq<char>
    decreases i,
{
    if i <= 0 {
        Seq::empty()
    } else {
        let r = grouped_to(s, i - 1);
        if i - 1 > 0 && (s.len() - (i - 1)) % 3 == 0 {
            r.push(',').push(s[i - 1])
        } else {
            r.push(s[i - 1])
        }
    }
}

proof fn lemma_grouped_prefix(s: Seq<char>, t: Seq<char>, i: int)
    requires
        0 <= i <= t.len(),
        t.len() <= s.len(),
        s.take(t.len() as int) == t,
        (s.len() - t.len()) % 3 == 0,
    ensures
        grouped_to(s, i) == grouped_to(t, i),
    decreases i,
{
    if i > 0 {
        lemma_grouped_prefix(s, t, i - 1);
        assert(s.take(t.len() as int)[i - 1] == s[i - 1]);
        assert((s.len() - (i - 1)) % 3 == 0 <==> (t.len() - (i - 1)) % 3 == 0);
    }
}

proof fn lemma_grouped(s: Seq<char>)
    ensures
        grouped_to(s, s.len() as int) == grouped(s),
    decreases s.len(),
{
    let n = s.len() as int;
    if n <= 3 {
        reveal_with_fuel(grouped_to, 4);
        assert(grouped_to(s, n) == s);
    } else {
        let t = s.take(n - 3);
        lemma_grouped(t);
        lemma_grouped_prefix(s, t, n - 3);
        reveal_with_fuel(grouped_to, 4);
        assert(grouped_to(s, n) == grouped_to(s, n - 3).push(',').push(s[n - 3]).push(
            s[n - 2],
        ).push(s[n - 1]));
        assert(grouped_to(s, n) == grouped(t) + seq![','] + s.skip(n - 3));
    }
}

/// A whole number with a comma between thousands.
pub fn group(n: i64) -> (r: String)
    requires
        n > i64::MIN,
    ensures
        r@ == group_text(n as int),
{
    let abs: u64 = if n < 0 {
        (-n) as u64
    } else {
        n as u64
    };
    let s: Vec<char> = spell(abs);
    let mut out: Vec<char> = Vec::new();
    if n < 0 {
        out.push('-');
    }
    let ghost sign = out@;
    let mut i: usize = 0;
    assert(out@ == sign + grouped_to(s@, 0));
    while i < s.len()
        invariant
            i <= s@.len(),
            out@ == sign + grouped_to(s@, i as int),
        decreases s@.len() - i,
    {
        if i > 0 && (s.len() - i) % 3 == 0 {
            out.push(',');
        }
        out.push(s[i]);
        assert(out@ == sign + grouped_to(s@, i + 1));
        i = i + 1;
    }
    proof {
        lemma_grouped(s@);
    }
    string_of(&out)
}

/// A text without its commas.
pub open spec fn ungrouped(s: Seq<char>) -> Seq<char>
    decreases s.len(),
{
    if s.len() == 0 {
        s
    } else if s.last() == ',' {
        ungrouped(s.drop_last())
    } else {
        ungrouped(s.drop_last()).push(s.last())
    }
}

proof fn lemma_ungrouped_to(s: Seq<char>, i: int)
    requires
        0 <= i <= s.len(),
        forall|k: int| 0 <= k < s.len() ==> s[k] != ',',
    ensures
        ungrouped(grouped_to(s, i)) == s.take(i),
    decreases i,
{
    if i > 0 {
        reveal_with_fuel(ungrouped, 3);
        lemma_ungrouped_to(s, i - 1);
        let r = grouped_to(s, i - 1);
        assert(r.push(',').drop_last() == r);
        assert(r.push(',').push(s[i - 1]).drop_last() == r.push(','));
        assert(r.push(s[i - 1]).drop_last() == r);
        assert(s.take(i) == s.take(i - 1).push(s[i - 1]));
    }
}

/// The commas are all that grouping adds: without them the digits are those of the number.
pub proof fn law_group_keeps_digits(n: nat)
    ensures
        ungrouped(group_text(n as int)) == crate::numbers::dec(n),
{
    let s = crate::numbers::dec(n);
    lemma_dec_has_no_comma(n);
    lemma_grouped(s);
    lemma_ungrouped_to(s, s.len() as int);
    assert(s.take(s.len() as int) == s);
}

proof fn lemma_dec_has_no_comma(n: nat)
    ensures
        forall|k: int| 0 <= k < crate::numbers::dec(n).len() ==> crate::numbers::dec(n)[k] != ',',
    decreases n,
{
    let last = crate::numbers::digit((n % 10) as int);
    assert(last != ',');
    if n >= 10 {
        lemma_dec_has_no_comma(n / 10);
        assert(crate::numbers::dec(n) == crate::numbers::dec(n / 10).push(last));
    }
}

/// The distance of a station in miles and kilometres, in words.
pub fn distance_text(mi: i64, km: i64) -> (r: String)
    requires
        mi > i64::MIN,
        km > i64::MIN,
    ensures
        r@ == group_text(mi as int) + " mi / "@ + group_text(km as int) + " km"@,
{
    let mut v: Vec<char> = chars_of(group(mi).as_str());
    append_str(&mut v, " mi / ");
    append_str(&mut v, group(km).as_str());
    append_str(&mut v, " km");
    string_of(&v)
}

/// The selected call without the space around it, where it is not empty.
pub fn selected_call(selected: Option<&str>) -> (r: Option<String>)
    ensures
        crate::config_toml::text_of(r) == match crate::settings::view_of(selected) {
            Some(s) => if crate::text::trim(s).len() > 0 {
                Some(crate::text::trim(s))
            } else {
                None
            },
            None => None,
        },
{
    match selected {
        Some(s) => {
            let v: Vec<char> = chars_of(s);
            let t: &[char] = trimmed(&v);
            if t.len() > 0 {
                Some(string_of(t))
            } else {
                None
            }
        },
        None => None,
    }
}

/// The call as it is shown.
pub fn shown_call(call: &str) -> (r: String)
    ensures
        r@ == crate::text::uppercase(call@),
        crate::text::ascii(call@) ==> r@ == crate::text::ascii_upper(call@),
{
    to_uppercase(call)
}

/// The first entry of a log with a call, in any case; their number where there is none.
pub open spec fn entry_at(logs: Seq<LogEntry>, call: Seq<char>) -> int
    decreases logs.len(),
{
    if logs.len() == 0 {
        0
    } else if crate::text::same_letters(logs[0].call.0@, call) {
        0
    } else {
        1 + entry_at(logs.skip(1), call)
    }
}

/// The first entry of a log with a call, in any case.
pub fn find_entry(logs: &Vec<LogEntry>, call: &str) -> (r: Option<usize>)
    ensures
        match r {
            Some(i) => i < logs@.len() && i == entry_at(logs@, call@),
            None => entry_at(logs@, call@) == logs@.len(),
        },
{
    let mut i: usize = 0;
    assert(logs@.skip(0) == logs@);
    while i < logs.len()
        invariant
            i <= logs@.len(),
            entry_at(logs@, call@) == i + entry_at(logs@.skip(i as int), call@),
        decreases logs@.len() - i,
    {
        assert(logs@.skip(i as int)[0] == logs@[i as int]);
        if same_ignoring_case(logs[i].call.0.as_str(), call) {
            return Some(i);
        }
        assert(logs@.skip(i as int).skip(1) == logs@.skip(i + 1));
        i = i + 1;
    }
    None
}

/// The grid of a spot, where it has one.
pub open spec fn spot_grid(s: MapSpot) -> Option<Seq<char>> {
    match s.loc {
        Locator::Grid(g) => if g@.len() > 0 {
            Some(g@)
        } else {
            None
        },
        Locator::Section(_) => None,
    }
}

/// The grid of a station: from the first spot of it among those heard and then those
/// worked, or else from its log entry.
pub open spec fn grid_known(
    heard: Seq<MapSpot>,
    worked: Seq<MapSpot>,
    logs: Seq<LogEntry>,
    call: Seq<char>,
) -> Option<Seq<char>> {
    let h = crate::panels::contacts::spot_at(heard, call);
    let w = crate::panels::contacts::spot_at(worked, call);
    let on_map = if h < heard.len() {
        spot_grid(heard[h])
    } else if w < worked.len() {
        spot_grid(worked[w])
    } else {
        None
    };
    let e = entry_at(logs, call);
    match on_map {
        Some(g) => Some(g),
        None => if e < logs.len() {
            match logs[e].grid {
                Some(g) => if g.0@.len() > 0 {
                    Some(g.0@)
                } else {
                    None
                },
                None => None,
            }
        } else {
            None
        },
    }
}

fn grid_of_spot(s: &MapSpot) -> (r: Option<String>)
    ensures
        crate::config_toml::text_of(r) == spot_grid(*s),
{
    match &s.loc {
        Locator::Grid(g) => {
            if chars_of(g.as_str()).len() > 0 {
                Some(g.clone())
            } else {
                None
            }
        },
        Locator::Section(_) => None,
    }
}

/// The grid of a station, where it is known.
pub fn known_grid(
    heard: &Vec<MapSpot>,
    worked: &Vec<MapSpot>,
    logs: &Vec<LogEntry>,
    call: &str,
) -> (r: Option<String>)
    ensures
        crate::config_toml::text_of(r) == grid_known(heard@, worked@, logs@, call@),
{
    let on_map: Option<String> = match find_spot(heard, call) {
        Some(i) => grid_of_spot(&heard[i]),
        None => match find_spot(worked, call) {
            Some(i) => grid_of_spot(&worked[i]),
            None => None,
        },
    };
    match on_map {
        Some(g) => Some(g),
        None => match find_entry(logs, call) {
            Some(i) => match &logs[i].grid {
                Some(g) => {
                    if chars_of(g.0.as_str()).len() > 0 {
                        Some(g.0.clone())
                    } else {
                        None
                    }
                },
                None => None,
            },
            None => None,
        },
    }
}

/// The first line: country, grid and distance, as far as they are known.
pub open spec fn facts(
    country: Option<Seq<char>>,
    grid: Option<Seq<char>>,
    distance: Option<Seq<char>>,
) -> Seq<char> {
    let name = match country {
        Some(c) => c,
        None => "Unknown prefix"@,
    };
    let with_grid = match grid {
        Some(g) => name + "  \u{b7}  "@ + g,
        None => name,
    };
    match distance {
        Some(d) => with_grid + "  \u{b7}  "@ + d,
        None => with_grid,
    }
}

/// The first line: country, grid and distance, as far as they are known.
pub fn facts_line(country: Option<&str>, grid: Option<&str>, distance: Option<&str>) -> (r: String)
    ensures
        r@ == facts(
            crate::settings::view_of(country),
            crate::settings::view_of(grid),
            crate::settings::view_of(distance),
        ),
{
    let mut v: Vec<char> = match country {
        Some(c) => chars_of(c),
        None => chars_of("Unknown prefix"),
    };
    match grid {
        Some(g) => {
            append_str(&mut v, "  \u{b7}  ");
            append_str(&mut v, g);
        },
        None => {},
    }
    match distance {
        Some(d) => {
            append_str(&mut v, "  \u{b7}  ");
            append_str(&mut v, d);
        },
        None => {},
    }
    string_of(&v)
}

/// A part of an exchange, a dash where it is empty.
pub open spec fn part_or_dash(s: Seq<char>) -> Seq<char> {
    if s.len() == 0 {
        "\u{2014}"@
    } else {
        s
    }
}

/// The second line: what was exchanged with the station.
pub open spec fn exchanged(e: Option<LogEntry>) -> Seq<char> {
    match e {
        Some(e) => if e.exchange_sent@.len() > 0 || e.exchange_rcvd@.len() > 0 {
            "TX "@ + part_or_dash(e.exchange_sent@) + "  \u{b7}  RX "@ + part_or_dash(
                e.exchange_rcvd@,
            )
        } else {
            "not worked"@
        },
        None => "not worked"@,
    }
}

fn append_part(v: &mut Vec<char>, s: &str)
    ensures
        final(v)@ == old(v)@ + part_or_dash(s@),
{
    let c: Vec<char> = chars_of(s);
    if c.len() == 0 {
        append_str(v, "\u{2014}");
    } else {
        append(v, &c);
    }
}

/// The second line: what was exchanged with the station, `None` where it is not in the
/// log.
pub fn exchange_line(worked: Option<&LogEntry>) -> (r: String)
    ensures
        r@ == exchanged(
            match worked {
                Some(e) => Some(*e),
                None => None,
            },
        ),
{
    match worked {
        Some(e) => {
            if chars_of(e.exchange_sent.as_str()).len() > 0 || chars_of(
                e.exchange_rcvd.as_str(),
            ).len() > 0 {
                let mut v: Vec<char> = chars_of("TX ");
                append_part(&mut v, e.exchange_sent.as_str());
                append_str(&mut v, "  \u{b7}  RX ");
                append_part(&mut v, e.exchange_rcvd.as_str());
                string_of(&v)
            } else {
                owned("not worked")
            }
        },
        None => owned("not worked"),
    }
}

/// What the panel shows of a station.
#[derive(Debug)]
pub struct CallSign {
    /// The call, in upper case.
    pub call: String,
    /// The grid, where it is known.
    pub grid: Option<String>,
    /// The place of its newest contact in the log that was given.
    pub worked: Option<usize>,
}

impl CallSign {
    /// No station.
    pub fn new() -> (r: Self)
        ensures
            r.call@.len() == 0,
            r.grid is None,
            r.worked is None,
    {
        let r: CallSign = CallSign { call: owned(""), grid: None, worked: None };
        proof {
            reveal_strlit("");
        }
        r
    }

    /// Shows a station. `logs` are the newest contacts, newest first.
    pub fn show(
        &mut self,
        call: &str,
        heard: &Vec<MapSpot>,
        worked: &Vec<MapSpot>,
        logs: &Vec<LogEntry>,
    )
        ensures
            final(self).call@ == crate::text::uppercase(call@),
            crate::text::ascii(call@) ==> final(self).call@ == crate::text::ascii_upper(call@),
            crate::config_toml::text_of(final(self).grid) == grid_known(
                heard@,
                worked@,
                logs@,
                call@,
            ),
            match final(self).worked {
                Some(i) => i < logs@.len() && i == entry_at(logs@, call@),
                None => entry_at(logs@, call@) == logs@.len(),
            },
    {
        self.call = shown_call(call);
        self.grid = known_grid(heard, worked, logs, call);
        self.worked = find_entry(logs, call);
    }
}

} // verus!
