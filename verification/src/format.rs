//! What the console shows for decodes, reports, bands and modes. These strings are for
//! the screen; what goes on the air is made elsewhere.

use vstd::prelude::*;

use crate::numbers::spell_signed;
use crate::text::{append, append_str, chars_of, contains_part, string_of};
use crate::types::{
    Band, Callsign, ContestTag, Decode, DecodeContent, ExchangePayload, OverAirMode, ParsedMessage,
    Signoff,
};

verus! {

/// A signal report with a Unicode minus and two digits or more.
pub fn fmt_snr(snr: i8) -> (r: String)
    ensures
        r@ == crate::numbers::signed(snr as int, '−'),
{
    string_of(&spell_signed(snr, '−'))
}

/// The call in the angle brackets of a hashed call.
pub open spec fn bracketed(call: Seq<char>) -> Seq<char> {
    seq!['<'] + call + seq!['>']
}

/// A call as it is shown: in angle brackets where the received line has it so.
pub open spec fn shown_call(call: Seq<char>, raw: Seq<char>) -> Seq<char> {
    if crate::text::has_part(raw, bracketed(call)) {
        bracketed(call)
    } else {
        call
    }
}

/// The call as it is shown. The brackets in the received line mark a call that came as a
/// hash and was looked up: they are shown, since such a call could be wrong.
pub fn display_call(call: &Callsign, raw: &str) -> (r: String)
    ensures
        r@ == shown_call(call.0@, raw@),
{
    let mut b: Vec<char> = Vec::new();
    b.push('<');
    append(&mut b, &chars_of(call.0.as_str()));
    b.push('>');
    assert(b@ == bracketed(call.0@));
    if contains_part(&chars_of(raw), &b) {
        string_of(&b)
    } else {
        call.0.clone()
    }
}

/// The body of an exchange.
pub open spec fn payload_text(p: ExchangePayload) -> Seq<char> {
    match p {
        ExchangePayload::Grid(g) => g.0@,
        ExchangePayload::Report(n) => crate::numbers::signed(n as int, '-'),
        ExchangePayload::RogerReport(n) => seq!['R'] + crate::numbers::signed(n as int, '-'),
        ExchangePayload::FieldDay { class, section, rogered } => (if rogered {
            "R "@
        } else {
            Seq::empty()
        }) + class@ + seq![' '] + section.0@,
    }
}

/// The body of an exchange: a locator as it is, a report with its sign and two digits, `R`
/// before a rogered one, class and section for Field Day.
pub fn fmt_payload(p: &ExchangePayload) -> (r: String)
    ensures
        r@ == payload_text(*p),
{
    match p {
        ExchangePayload::Grid(g) => g.0.clone(),
        ExchangePayload::Report(n) => string_of(&spell_signed(*n, '-')),
        ExchangePayload::RogerReport(n) => {
            let mut v: Vec<char> = Vec::new();
            v.push('R');
            append(&mut v, &spell_signed(*n, '-'));
            assert(v@ == payload_text(*p));
            string_of(&v)
        },
        ExchangePayload::FieldDay { class, section, rogered } => {
            let mut v: Vec<char> = Vec::new();
            if *rogered {
                append_str(&mut v, "R ");
            }
            append_str(&mut v, class.as_str());
            v.push(' ');
            append_str(&mut v, section.0.as_str());
            assert(v@ == payload_text(*p));
            string_of(&v)
        },
    }
}

/// The word of a sign-off.
pub open spec fn signoff_word(kind: Signoff) -> Seq<char> {
    match kind {
        Signoff::Rrr => "RRR"@,
        Signoff::Rr73 => "RR73"@,
        Signoff::Seven3 => "73"@,
    }
}

/// The word of a sign-off.
pub fn fmt_signoff(kind: Signoff) -> (s: &'static str)
    ensures
        s@ == signoff_word(kind),
{
    match kind {
        Signoff::Rrr => "RRR",
        Signoff::Rr73 => "RR73",
        Signoff::Seven3 => "73",
    }
}

/// The word that a contest puts behind CQ, with the space that follows it.
pub open spec fn tag_text(contest: Option<ContestTag>) -> Seq<char> {
    match contest {
        Some(ContestTag::FieldDay) => "FD "@,
        Some(ContestTag::Test) => "TEST "@,
        Some(ContestTag::Other(s)) => s@ + seq![' '],
        None => Seq::empty(),
    }
}

/// Two calls and what follows them.
pub open spec fn directed_text(
    to: Seq<char>,
    from: Seq<char>,
    raw: Seq<char>,
    body: Seq<char>,
) -> Seq<char> {
    shown_call(to, raw) + seq![' '] + shown_call(from, raw) + seq![' '] + body
}

/// The body of a decode.
pub open spec fn shown_text(c: DecodeContent) -> Seq<char> {
    match c {
        DecodeContent::Slotted { message, raw, .. } => match message {
            ParsedMessage::Cq { caller, contest, grid } => "CQ "@ + tag_text(contest) + shown_call(
                caller.0@,
                raw@,
            ) + (match grid {
                Some(g) => seq![' '] + g.0@,
                None => Seq::empty(),
            }),
            ParsedMessage::Exchange { to, from, payload } => directed_text(
                to.0@,
                from.0@,
                raw@,
                payload_text(payload),
            ),
            ParsedMessage::Signoff { to, from, kind } => directed_text(
                to.0@,
                from.0@,
                raw@,
                signoff_word(kind),
            ),
            ParsedMessage::Free(s) => s@,
            ParsedMessage::Raw(s) => s@,
        },
        DecodeContent::Streaming { text } => text@,
    }
}

/// Two calls and what follows them.
fn directed(to: &Callsign, from: &Callsign, raw: &str, body: &str) -> (r: String)
    ensures
        r@ == directed_text(to.0@, from.0@, raw@, body@),
{
    let mut v: Vec<char> = Vec::new();
    append_str(&mut v, display_call(to, raw).as_str());
    v.push(' ');
    append_str(&mut v, display_call(from, raw).as_str());
    v.push(' ');
    append_str(&mut v, body);
    assert(v@ == directed_text(to.0@, from.0@, raw@, body@));
    string_of(&v)
}

/// The body of a decode: `CQ EA7KW IM67`, an exchange, a sign-off, or the text itself.
pub fn decode_text(d: &Decode) -> (r: String)
    ensures
        r@ == shown_text(d.content),
{
    match &d.content {
        DecodeContent::Slotted { message, raw, .. } => match message {
            ParsedMessage::Cq { caller, contest, grid } => {
                let mut v: Vec<char> = Vec::new();
                append_str(&mut v, "CQ ");
                match contest {
                    Some(ContestTag::FieldDay) => append_str(&mut v, "FD "),
                    Some(ContestTag::Test) => append_str(&mut v, "TEST "),
                    Some(ContestTag::Other(s)) => {
                        append_str(&mut v, s.as_str());
                        v.push(' ');
                    },
                    None => {},
                }
                assert(v@ == "CQ "@ + tag_text(*contest));
                append_str(&mut v, display_call(caller, raw.as_str()).as_str());
                match grid {
                    Some(g) => {
                        v.push(' ');
                        append_str(&mut v, g.0.as_str());
                    },
                    None => {},
                }
                assert(v@ == shown_text(d.content));
                string_of(&v)
            },
            ParsedMessage::Exchange { to, from, payload } => directed(
                to,
                from,
                raw.as_str(),
                fmt_payload(payload).as_str(),
            ),
            ParsedMessage::Signoff { to, from, kind } => directed(
                to,
                from,
                raw.as_str(),
                fmt_signoff(*kind),
            ),
            ParsedMessage::Free(s) => s.clone(),
            ParsedMessage::Raw(s) => s.clone(),
        },
        DecodeContent::Streaming { text } => text.clone(),
    }
}

/// The name of a band without its unit.
pub open spec fn band_name(b: Band) -> Seq<char> {
    match b {
        Band::B160m => "160"@,
        Band::B80m => "80"@,
        Band::B40m => "40"@,
        Band::B30m => "30"@,
        Band::B20m => "20"@,
        Band::B17m => "17"@,
        Band::B15m => "15"@,
        Band::B12m => "12"@,
        Band::B10m => "10"@,
        Band::B6m => "6"@,
    }
}

/// The name of a band in metres.
pub open spec fn band_full(b: Band) -> Seq<char> {
    match b {
        Band::B160m => "160m"@,
        Band::B80m => "80m"@,
        Band::B40m => "40m"@,
        Band::B30m => "30m"@,
        Band::B20m => "20m"@,
        Band::B17m => "17m"@,
        Band::B15m => "15m"@,
        Band::B12m => "12m"@,
        Band::B10m => "10m"@,
        Band::B6m => "6m"@,
    }
}

/// The name of a band in metres: `40m`.
pub fn band_label(b: Band) -> (s: &'static str)
    ensures
        s@ == band_full(b),
{
    match b {
        Band::B160m => "160m",
        Band::B80m => "80m",
        Band::B40m => "40m",
        Band::B30m => "30m",
        Band::B20m => "20m",
        Band::B17m => "17m",
        Band::B15m => "15m",
        Band::B12m => "12m",
        Band::B10m => "10m",
        Band::B6m => "6m",
    }
}

/// The short name of a band is its name without the unit.
pub proof fn law_band_names(b: Band)
    ensures
        band_full(b) == band_name(b).push('m'),
{
    reveal_strlit("160");
    reveal_strlit("160m");
    reveal_strlit("80");
    reveal_strlit("80m");
    reveal_strlit("40");
    reveal_strlit("40m");
    reveal_strlit("30");
    reveal_strlit("30m");
    reveal_strlit("20");
    reveal_strlit("20m");
    reveal_strlit("17");
    reveal_strlit("17m");
    reveal_strlit("15");
    reveal_strlit("15m");
    reveal_strlit("12");
    reveal_strlit("12m");
    reveal_strlit("10");
    reveal_strlit("10m");
    reveal_strlit("6");
    reveal_strlit("6m");
}

/// The name of a band without its unit: `40`.
pub fn band_short(b: Band) -> (s: &'static str)
    ensures
        s@ == band_name(b),
{
    match b {
        Band::B160m => "160",
        Band::B80m => "80",
        Band::B40m => "40",
        Band::B30m => "30",
        Band::B20m => "20",
        Band::B17m => "17",
        Band::B15m => "15",
        Band::B12m => "12",
        Band::B10m => "10",
        Band::B6m => "6",
    }
}

/// The name of a mode.
pub open spec fn mode_name(m: OverAirMode) -> Seq<char> {
    match m {
        OverAirMode::Ft8 => "FT8"@,
        OverAirMode::Ft4 => "FT4"@,
        OverAirMode::Psk31 => "PSK"@,
        OverAirMode::Rtty => "RTTY"@,
    }
}

/// The name of a mode.
pub fn mode_label(m: OverAirMode) -> (s: &'static str)
    ensures
        s@ == mode_name(m),
{
    match m {
        OverAirMode::Ft8 => "FT8",
        OverAirMode::Ft4 => "FT4",
        OverAirMode::Psk31 => "PSK",
        OverAirMode::Rtty => "RTTY",
    }
}

} // verus!
