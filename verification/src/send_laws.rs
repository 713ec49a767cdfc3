//! What holds of the messages and the commands of the send row.

use vstd::prelude::*;

use crate::send::{Command, Mhz};
use crate::types::{
    Band, Callsign, ContestProfile, ContestTag, DecodeContent, ExchangePayload, GridSquare,
    OverAirMode, ParsedMessage, Protocol, Section, Signoff, SlotId, StationConfig,
};

verus! {

/// Whether a received line has no call in angle brackets.
pub open spec fn unhashed(raw: Seq<char>) -> bool {
    forall|call: Seq<char>|
        !#[trigger] crate::text::has_part(raw, crate::format::bracketed(call))
}

/// What the send box shows is what the other end reads: an answer is the line of an exchange
/// from us to the station with our locator, or in Field Day with our class and section; and a
/// CQ is the line of a CQ of ours with our locator, which in Field Day says so.
pub proof fn law_message_reads_as_sent(
    his: Callsign,
    me: StationConfig,
    slot: SlotId,
    raw: String,
)
    requires
        unhashed(raw@),
    ensures
        me.contest == ContestProfile::Standard ==> crate::send::message_for(Some(his.0@), me)
            == crate::format::shown_text(
            DecodeContent::Slotted {
                slot,
                message: ParsedMessage::Exchange {
                    to: his,
                    from: me.call,
                    payload: ExchangePayload::Grid(me.grid),
                },
                raw,
            },
        ),
        me.contest == ContestProfile::ArrlFieldDay ==> crate::send::message_for(Some(his.0@), me)
            == crate::format::shown_text(
            DecodeContent::Slotted {
                slot,
                message: ParsedMessage::Exchange {
                    to: his,
                    from: me.call,
                    payload: ExchangePayload::FieldDay {
                        class: me.fd_class,
                        section: me.fd_section,
                        rogered: false,
                    },
                },
                raw,
            },
        ),
        crate::send::message_for(None, me) == crate::format::shown_text(
            DecodeContent::Slotted {
                slot,
                message: ParsedMessage::Cq {
                    caller: me.call,
                    contest: if me.contest == ContestProfile::ArrlFieldDay {
                        Some(ContestTag::FieldDay)
                    } else {
                        None
                    },
                    grid: Some(me.grid),
                },
                raw,
            },
        ),
{
    reveal_strlit("CQ FD ");
    reveal_strlit("CQ ");
    reveal_strlit("FD ");
    assert(!crate::text::has_part(raw@, crate::format::bracketed(his.0@)));
    assert(!crate::text::has_part(raw@, crate::format::bracketed(me.call.0@)));
    let empty = Seq::<char>::empty();
    assert(crate::send::message_for(Some(his.0@), me) == his.0@ + seq![' '] + me.call.0@ + seq![' ']
        + (if me.contest == ContestProfile::ArrlFieldDay {
        empty + me.fd_class@ + seq![' '] + me.fd_section.0@
    } else {
        me.grid.0@
    }));
    let fd = me.contest == ContestProfile::ArrlFieldDay;
    assert("CQ FD "@ == "CQ "@ + "FD "@);
    assert(crate::send::message_for(None, me) == "CQ "@ + (if fd {
        "FD "@
    } else {
        empty
    }) + me.call.0@ + (seq![' '] + me.grid.0@));
}

/// An answer has the words of its parts in the order of the air: whom it is for, who sends
/// it, and what is exchanged; a CQ starts with the word and ends with caller and locator.
pub proof fn law_words_of_messages(his: Seq<char>, me: StationConfig)
    requires
        crate::text_laws::is_word(his),
        crate::text_laws::is_word(me.call.0@),
        crate::text_laws::is_word(me.grid.0@),
        crate::text_laws::is_word(me.fd_class@),
        crate::text_laws::is_word(me.fd_section.0@),
    ensures
        me.contest == ContestProfile::Standard ==> crate::text::words(
            crate::send::message_for(Some(his), me),
        ) == seq![his, me.call.0@, me.grid.0@],
        me.contest == ContestProfile::ArrlFieldDay ==> crate::text::words(
            crate::send::message_for(Some(his), me),
        ) == seq![his, me.call.0@, me.fd_class@, me.fd_section.0@],
        me.contest == ContestProfile::Standard ==> crate::text::words(
            crate::send::message_for(None, me),
        ) == seq![seq!['C', 'Q'], me.call.0@, me.grid.0@],
        me.contest == ContestProfile::ArrlFieldDay ==> crate::text::words(
            crate::send::message_for(None, me),
        ) == seq![seq!['C', 'Q'], seq!['F', 'D'], me.call.0@, me.grid.0@],
{
    reveal_strlit("CQ FD ");
    reveal_strlit("CQ ");
    let cq = seq!['C', 'Q'];
    let fd = seq!['F', 'D'];
    let (mine, grid) = (me.call.0@, me.grid.0@);
    let (class, section) = (me.fd_class@, me.fd_section.0@);
    if me.contest == ContestProfile::Standard {
        lemma_three(his, mine, grid);
        lemma_three(cq, mine, grid);
        assert(crate::send::message_for(Some(his), me) == crate::text_laws::spaced(
            seq![his, mine, grid],
        ));
        assert(crate::send::message_for(None, me) == crate::text_laws::spaced(
            seq![cq, mine, grid],
        ));
    } else {
        lemma_four(his, mine, class, section);
        lemma_four(cq, fd, mine, grid);
        assert(crate::send::message_for(Some(his), me) == crate::text_laws::spaced(
            seq![his, mine, class, section],
        ));
        assert(crate::send::message_for(None, me) == crate::text_laws::spaced(
            seq![cq, fd, mine, grid],
        ));
    }
}

proof fn lemma_three(a: Seq<char>, b: Seq<char>, c: Seq<char>)
    requires
        crate::text_laws::is_word(a),
        crate::text_laws::is_word(b),
        crate::text_laws::is_word(c),
    ensures
        crate::text_laws::spaced(seq![a, b, c]) == a + seq![' '] + b + seq![' '] + c,
        crate::text::words(crate::text_laws::spaced(seq![a, b, c])) == seq![a, b, c],
{
    let ws = seq![a, b, c];
    reveal_with_fuel(crate::text_laws::spaced, 4);
    assert(ws.skip(1) == seq![b, c]);
    assert(seq![b, c].skip(1) == seq![c]);
    assert(crate::text_laws::spaced(ws) == a + seq![' '] + b + seq![' '] + c);
    crate::text_laws::law_words_read_back(ws);
}

proof fn lemma_four(a: Seq<char>, b: Seq<char>, c: Seq<char>, d: Seq<char>)
    requires
        crate::text_laws::is_word(a),
        crate::text_laws::is_word(b),
        crate::text_laws::is_word(c),
        crate::text_laws::is_word(d),
    ensures
        crate::text_laws::spaced(seq![a, b, c, d]) == a + seq![' '] + b + seq![' '] + c + seq![' ']
            + d,
        crate::text::words(crate::text_laws::spaced(seq![a, b, c, d])) == seq![a, b, c, d],
{
    let ws = seq![a, b, c, d];
    lemma_three(b, c, d);
    assert(ws.skip(1) == seq![b, c, d]);
    assert(crate::text_laws::spaced(ws) == a + (seq![' '] + crate::text_laws::spaced(ws.skip(1))));
    assert(crate::text_laws::spaced(ws) == a + seq![' '] + b + seq![' '] + c + seq![' '] + d);
    crate::text_laws::law_words_read_back(ws);
}

/// A call that came as a hash is shown in its brackets, and any other as it is.
pub proof fn law_hashed_call(before: Seq<char>, call: Seq<char>, after: Seq<char>, raw: Seq<char>)
    ensures
        crate::format::shown_call(call, before + (seq!['<'] + call + seq!['>']) + after) == seq!['<']
            + call + seq!['>'],
        crate::format::shown_call(call, raw) == call || crate::format::shown_call(call, raw)
            == seq!['<'] + call + seq!['>'],
        unhashed(raw) ==> crate::format::shown_call(call, raw) == call,
{
    let b = crate::format::bracketed(call);
    let line = before + (seq!['<'] + call + seq!['>']) + after;
    assert(line.subrange(before.len() as int, before.len() as int + b.len()) == b);
    assert(crate::text::part_at(line, b, before.len() as int));
    if unhashed(raw) {
        assert(!crate::text::has_part(raw, crate::format::bracketed(call)));
    }
}

/// What an exchange says: a locator is shown as it is; a rogered report as the plain one
/// behind an R; a Field Day exchange as class and section, behind an R and a space where it is
/// rogered. The three ways to sign off differ.
pub proof fn law_payloads(
    g: GridSquare,
    n: i8,
    class: String,
    section: Section,
    a: Signoff,
    b: Signoff,
)
    ensures
        crate::format::payload_text(ExchangePayload::Grid(g)) == g.0@,
        crate::format::payload_text(ExchangePayload::Report(n)) == crate::numbers::signed(
            n as int,
            '-',
        ),
        crate::format::payload_text(ExchangePayload::RogerReport(n)) == seq!['R']
            + crate::format::payload_text(ExchangePayload::Report(n)),
        crate::format::payload_text(ExchangePayload::FieldDay { class, section, rogered: true })
            == seq!['R', ' '] + crate::format::payload_text(
            ExchangePayload::FieldDay { class, section, rogered: false },
        ),
        crate::format::payload_text(ExchangePayload::FieldDay { class, section, rogered: false })
            == class@ + seq![' '] + section.0@,
        crate::format::signoff_word(a) == crate::format::signoff_word(b) ==> a == b,
        crate::format::signoff_word(Signoff::Rr73) == seq!['R', 'R']
            + crate::format::signoff_word(Signoff::Seven3),
        crate::format::signoff_word(Signoff::Rrr) == seq!['R', 'R', 'R'],
        crate::format::signoff_word(Signoff::Seven3) == seq!['7', '3'],
{
    reveal_strlit("R ");
    reveal_strlit("RRR");
    reveal_strlit("RR73");
    reveal_strlit("73");
    let plain = crate::format::payload_text(
        ExchangePayload::FieldDay { class, section, rogered: false },
    );
    assert(plain == class@ + seq![' '] + section.0@);
    assert("R "@ == seq!['R', ' ']);
    assert(crate::format::payload_text(ExchangePayload::FieldDay { class, section, rogered: true })
        == seq!['R', ' '] + plain);
    assert(crate::format::signoff_word(Signoff::Rr73) == seq!['R', 'R']
        + crate::format::signoff_word(Signoff::Seven3));
    assert(crate::format::signoff_word(Signoff::Rrr) == seq!['R', 'R', 'R']);
    assert(crate::format::signoff_word(Signoff::Seven3) == seq!['7', '3']);
    assert(crate::format::signoff_word(a).len() == crate::format::signoff_word(b).len() ==> a == b);
}

/// A line to a station names first whom it is for and then who sends it: where the two change
/// places, so do the calls.
pub proof fn law_addressee_comes_first(
    to: Callsign,
    from: Callsign,
    payload: ExchangePayload,
    kind: Signoff,
    slot: SlotId,
    raw: String,
)
    requires
        unhashed(raw@),
    ensures
        crate::format::shown_text(
            DecodeContent::Slotted {
                slot,
                message: ParsedMessage::Exchange { to, from, payload },
                raw,
            },
        ) == to.0@ + seq![' '] + from.0@ + seq![' '] + crate::format::payload_text(payload),
        crate::format::shown_text(
            DecodeContent::Slotted {
                slot,
                message: ParsedMessage::Signoff { to, from, kind },
                raw,
            },
        ) == to.0@ + seq![' '] + from.0@ + seq![' '] + crate::format::signoff_word(kind),
{
    assert(!crate::text::has_part(raw@, crate::format::bracketed(to.0@)));
    assert(!crate::text::has_part(raw@, crate::format::bracketed(from.0@)));
}

/// What is understood of a CQ is shown: the word, the contest where it names one, the caller,
/// and the locator where it gives one. Free text is shown as it came.
pub proof fn law_cq_line(
    caller: Callsign,
    grid: GridSquare,
    word: String,
    slot: SlotId,
    raw: String,
)
    requires
        unhashed(raw@),
    ensures
        ({
            let line = |contest: Option<ContestTag>, g: Option<GridSquare>|
                crate::format::shown_text(
                    DecodeContent::Slotted {
                        slot,
                        message: ParsedMessage::Cq { caller, contest, grid: g },
                        raw,
                    },
                );
            &&& line(None, None) == seq!['C', 'Q', ' '] + caller.0@
            &&& line(None, Some(grid)) == seq!['C', 'Q', ' '] + caller.0@ + seq![' '] + grid.0@
            &&& line(Some(ContestTag::FieldDay), None) == seq!['C', 'Q', ' ', 'F', 'D', ' ']
                + caller.0@
            &&& line(Some(ContestTag::Test), None) == seq!['C', 'Q', ' ', 'T', 'E', 'S', 'T', ' ']
                + caller.0@
            &&& line(Some(ContestTag::Other(word)), None) == seq!['C', 'Q', ' '] + word@ + seq![' ']
                + caller.0@
        }),
        crate::format::shown_text(
            DecodeContent::Slotted { slot, message: ParsedMessage::Free(word), raw },
        ) == word@,
        crate::format::shown_text(
            DecodeContent::Slotted { slot, message: ParsedMessage::Raw(word), raw },
        ) == word@,
        crate::format::shown_text(DecodeContent::Streaming { text: word }) == word@,
{
    reveal_strlit("CQ ");
    reveal_strlit("FD ");
    reveal_strlit("TEST ");
    let call = caller.0@;
    let none = Seq::<char>::empty();
    assert(!crate::text::has_part(raw@, crate::format::bracketed(call)));
    assert("CQ "@ + none + call + none == seq!['C', 'Q', ' '] + call);
    assert("CQ "@ + none + call + (seq![' '] + grid.0@) == seq!['C', 'Q', ' '] + call + seq![' ']
        + grid.0@);
    assert("CQ "@ + "FD "@ + call + none == seq!['C', 'Q', ' ', 'F', 'D', ' '] + call);
    assert("CQ "@ + "TEST "@ + call + none == seq!['C', 'Q', ' ', 'T', 'E', 'S', 'T', ' '] + call);
    assert("CQ "@ + (word@ + seq![' ']) + call + none == seq!['C', 'Q', ' '] + word@ + seq![' ']
        + call);
}

/// The command of a mark, a verb and an argument: the verb counts in either case and under
/// each of its names, and stands for one thing. Whatever else is typed spells no command.
pub proof fn law_commands(mark: char, w: Seq<Seq<char>>, mhz: Option<u64>, rest: Seq<char>)
    requires
        mark == '/' || mark == ':',
        crate::text::words(rest) == w,
        w.len() > 0,
        rest.len() > 0 && !crate::text::white(rest.last()),
    ensures
        ({
            let verb = crate::text::ascii_lower(w[0]);
            let cmd = crate::send::command_of(seq![mark] + rest, mhz);
            let tunes = verb == "f"@ || verb == "freq"@ || verb == "frequency"@;
            let moves = verb == "b"@ || verb == "band"@;
            &&& tunes ==> (match mhz {
                Some(bits) => if w.len() >= 2 && 0 < bits < 0x7FF0_0000_0000_0000 {
                    cmd == Some(Command::SetFrequency(Mhz(bits)))
                } else {
                    cmd is None
                },
                None => cmd is None,
            })
            &&& moves && w.len() >= 2 ==> (match crate::send::band_word(w[1]) {
                Some(b) => cmd == Some(Command::SetBand(b)),
                None => cmd is None,
            })
            &&& moves && w.len() < 2 ==> cmd is None
            &&& verb == "clear"@ ==> cmd == Some(Command::ClearQsy)
            &&& verb == "scan"@ ==> cmd == Some(Command::Scan)
            &&& !tunes && !moves && verb != "clear"@ && verb != "scan"@ ==> cmd is None
        }),
{
    reveal_strlit("f");
    reveal_strlit("freq");
    reveal_strlit("frequency");
    reveal_strlit("b");
    reveal_strlit("band");
    reveal_strlit("clear");
    reveal_strlit("scan");
    let s = seq![mark] + rest;
    assert(s[0] == mark);
    assert(s.last() == rest.last());
    crate::text::lemma_trim_none(s, crate::text::Fringe::White);
    assert(s.skip(1) == rest);
    let verb = crate::text::ascii_lower(w[0]);
    assert("f"@.len() == 1 && "freq"@.len() == 4 && "frequency"@.len() == 9 && "b"@.len() == 1
        && "band"@.len() == 4 && "clear"@.len() == 5 && "scan"@.len() == 4);
    assert("f"@[0] == 'f' && "freq"@[0] == 'f' && "b"@[0] == 'b' && "band"@[0] == 'b' && "scan"@[0]
        == 's');
    assert(crate::send::command_words(s)[0] == verb);
}

/// Text without a mark in front spells no command, and space around a command counts for
/// nothing.
pub proof fn law_command_mark(input: Seq<char>, mhz: Option<u64>, c: char)
    ensures
        input.len() > 0 && !crate::text::white(input[0]) && input[0] != '/' && input[0] != ':'
            ==> crate::send::command_of(input, mhz) is None,
        crate::text::white(c) ==> crate::send::command_of(seq![c] + input, mhz)
            == crate::send::command_of(input, mhz),
        crate::text::white(c) ==> crate::send::command_of(input.push(c), mhz)
            == crate::send::command_of(input, mhz),
{
    let f = crate::text::Fringe::White;
    if crate::text::white(c) {
        crate::text::lemma_trim_prepend(input, c, f);
        crate::text::lemma_trim_push(input, c, f);
    }
    if input.len() > 0 && !crate::text::white(input[0]) {
        assert(crate::text::trim_front(input, f) == input);
        let t = crate::text::trim(input);
        lemma_back_keeps_start(input, f);
        assert(t.len() > 0 ==> t[0] == input[0]);
    }
}

proof fn lemma_back_keeps_start(s: Seq<char>, f: crate::text::Fringe)
    ensures
        crate::text::trim_back(s, f).len() > 0 ==> s.len() > 0 && crate::text::trim_back(s, f)[0]
            == s[0],
    decreases s.len(),
{
    if s.len() > 0 && f.has(s.last()) {
        lemma_back_keeps_start(s.drop_last(), f);
    }
}

/// Every band is reached by its name: the command that names it changes to it.
pub proof fn law_band_command(b: Band, mark: char, mhz: Option<u64>)
    requires
        mark == '/' || mark == ':',
    ensures
        crate::send::command_of(
            seq![mark] + ("band"@ + seq![' '] + crate::format::band_full(b)),
            mhz,
        ) == Some(Command::SetBand(b)),
{
    reveal_strlit("band");
    let name = crate::format::band_full(b);
    lemma_band_name_is_a_word(b);
    let ws = seq!["band"@, name];
    let rest = "band"@ + seq![' '] + name;
    reveal_with_fuel(crate::text_laws::spaced, 3);
    assert(ws.skip(1) == seq![name]);
    assert(crate::text_laws::spaced(ws) == rest);
    crate::text_laws::law_words_read_back(ws);
    assert(rest.last() == name.last());
    law_commands(mark, ws, mhz, rest);
    assert(crate::text::ascii_lower("band"@) == "band"@);
    crate::send::law_band_names_read_back(b);
}

proof fn lemma_band_name_is_a_word(b: Band)
    ensures
        crate::text_laws::is_word(crate::format::band_full(b)),
{
    reveal_strlit("160m");
    reveal_strlit("80m");
    reveal_strlit("40m");
    reveal_strlit("30m");
    reveal_strlit("20m");
    reveal_strlit("17m");
    reveal_strlit("15m");
    reveal_strlit("12m");
    reveal_strlit("10m");
    reveal_strlit("6m");
}

/// The bands are named by their wavelength: the frequency in the middle of a band, times the
/// number in its name, comes to the speed of light within a fifth.
pub proof fn law_bands_are_named_by_wavelength(b: Band)
    ensures
        ({
            let (lo, hi) = crate::types::band_edges(b);
            let n = crate::send::metres_of(b) as int;
            &&& lo < hi
            &&& 5 * (n * (lo + hi)) > 4 * (2 * 299_792_458)
            &&& 5 * (n * (lo + hi)) < 6 * (2 * 299_792_458)
        }),
{
}

/// The calling frequencies: FT8 has one on every band; FT4 has one on every band but the
/// longest, a different one; and the other modes have none.
pub proof fn law_calling_frequencies(b: Band, c: Band)
    ensures
        crate::send::calling_freq(b, OverAirMode::Ft8) is Some,
        crate::send::calling_freq(b, OverAirMode::Ft4) is None <==> b == Band::B160m,
        crate::send::calling_freq(b, OverAirMode::Psk31) is None,
        crate::send::calling_freq(b, OverAirMode::Rtty) is None,
        crate::send::calling_freq(b, OverAirMode::Ft8) != crate::send::calling_freq(
            c,
            OverAirMode::Ft4,
        ),
        b != c ==> crate::send::calling_freq(b, OverAirMode::Ft8) != crate::send::calling_freq(
            c,
            OverAirMode::Ft8,
        ),
        crate::send::calling_freq(b, OverAirMode::Ft8)->Some_0 % 1_000 == 0,
{
}

/// The word that a frequency is read from: the one behind the verb, where the verb tunes the
/// dial, under any of its names and in either case, and none for any other command.
pub proof fn law_frequency_word(mark: char, w: Seq<Seq<char>>, rest: Seq<char>)
    requires
        mark == '/' || mark == ':',
        crate::text::words(rest) == w,
        w.len() > 0,
        rest.len() > 0 && !crate::text::white(rest.last()),
    ensures
        ({
            let verb = crate::text::ascii_lower(w[0]);
            let tunes = verb == "f"@ || verb == "freq"@ || verb == "frequency"@;
            &&& tunes && w.len() >= 2 ==> crate::send::frequency_word(seq![mark] + rest) == Some(
                w[1],
            )
            &&& !tunes || w.len() < 2 ==> crate::send::frequency_word(seq![mark] + rest) is None
        }),
{
    let s = seq![mark] + rest;
    assert(s[0] == mark);
    assert(s.last() == rest.last());
    crate::text::lemma_trim_none(s, crate::text::Fringe::White);
    assert(s.skip(1) == rest);
    let verb = crate::text::ascii_lower(w[0]);
    assert(crate::send::command_words(s)[0] == verb);
    if w.len() >= 2 {
        assert(crate::send::command_words(s)[1] == w[1]);
    }
}

/// A slot is a whole part of a minute: four of FT8 make one, and eight of FT4.
pub proof fn law_slots_make_a_minute()
    ensures
        4 * crate::types::slot_len(Protocol::Ft8) == 60_000,
        8 * crate::types::slot_len(Protocol::Ft4) == 60_000,
{
}

/// The passband of 3 kHz above a calling frequency lies in the band.
pub proof fn law_passband_in_band(b: Band, mode: OverAirMode)
    ensures
        crate::send::calling_freq(b, mode) matches Some(f) ==> crate::types::in_band(
            f + 3_000,
            b,
        ),
{
}

/// Every mode has a name of its own.
pub proof fn law_mode_names(a: OverAirMode, b: OverAirMode)
    ensures
        crate::format::mode_name(a) == crate::format::mode_name(b) ==> a == b,
        crate::format::mode_name(OverAirMode::Ft8) == seq!['F', 'T', '8'],
        crate::format::mode_name(OverAirMode::Ft4) == seq!['F', 'T', '4'],
{
    reveal_strlit("FT8");
    reveal_strlit("FT4");
    reveal_strlit("PSK");
    reveal_strlit("RTTY");
    assert("FT8"@ == seq!['F', 'T', '8']);
    assert("FT4"@ == seq!['F', 'T', '4']);
    assert("FT8"@[2] == '8' && "FT4"@[2] == '4' && "PSK"@[0] == 'P' && "RTTY"@.len() == 4);
    assert("FT8"@[0] == 'F' && "FT4"@[0] == 'F');
}

/// The old amateur bands are harmonics: 40, 20 and 10 m start at twice, four times and eight
/// times the frequency of 80 m, and 15 m at three times that of 40 m.
pub proof fn law_harmonic_bands()
    ensures
        ({
            let start = |b: Band| crate::types::band_edges(b).0;
            &&& start(Band::B40m) == 2 * start(Band::B80m)
            &&& start(Band::B20m) == 2 * start(Band::B40m)
            &&& start(Band::B10m) == 2 * start(Band::B20m)
            &&& start(Band::B15m) == 3 * start(Band::B40m)
        }),
{
}

/// On the four bands that the scanner knows, FT8 is called 74 kHz above the start of the band;
/// on the three bands of 1979, FT4 is called 4 kHz above FT8. A rig that has not reported is
/// shown where FT8 is called on 20 m.
pub proof fn law_where_to_call(b: Band)
    ensures
        b == Band::B40m || b == Band::B20m || b == Band::B15m || b == Band::B10m
            ==> crate::send::calling_freq(b, OverAirMode::Ft8)->Some_0
            - crate::types::band_edges(b).0 == 74_000,
        b == Band::B30m || b == Band::B17m || b == Band::B12m ==> crate::send::calling_freq(
            b,
            OverAirMode::Ft4,
        )->Some_0 - crate::send::calling_freq(b, OverAirMode::Ft8)->Some_0 == 4_000,
        crate::panels::waterfall::dial_text(false, None) == crate::panels::waterfall::dial_text(
            false,
            crate::send::calling_freq(Band::B20m, OverAirMode::Ft8),
        ),
{
}

} // verus!
