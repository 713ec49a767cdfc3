//! What holds of the stations that were heard and worked, and of the map that shows them.

use vstd::prelude::*;

use crate::bus_view::{BusView, Control, HeardEntry, MapSpot, Outgoing};
use crate::panel_data::Locator;
use crate::settings::HardwareConfig;
use crate::types::{
    Band, BandActivity, Decode, DecodeContent, ExchangePayload, LogEntry, ParsedMessage,
    Protocol, WorkedEntry,
};

verus! {

/// The call that a decode puts on the map is that of the station that sent it, and never
/// that of the station it was sent to: the caller of a CQ, the sender of an exchange. So it
/// is the station that the waterslide names, too.
pub proof fn law_map_names_the_sender(d: Decode)
    requires
        crate::bus_view::located(d) is Some,
    ensures
        ({
            let (call, loc, cq) = crate::bus_view::located(d)->Some_0;
            &&& crate::panels::waterfall::render::station_call(d) == Some(call@)
            &&& d.content is Slotted
            &&& match d.content->Slotted_message {
                ParsedMessage::Cq { caller, .. } => call == caller.0,
                ParsedMessage::Exchange { from, .. } => call == from.0,
                _ => false,
            }
            &&& cq <==> d.content->Slotted_message is Cq
        }),
{
}

/// A decode has a place on the map exactly where its message gives one: a CQ or an exchange
/// with a locator, at that locator, and a Field Day exchange in its section.
pub proof fn law_map_goes_by_the_message(d: Decode)
    ensures
        match d.content {
            DecodeContent::Slotted { slot, message, raw } => match message {
                ParsedMessage::Cq { caller, contest, grid } => match grid {
                    Some(g) => crate::bus_view::located(d) matches Some(x) && x.1 == Locator::Grid(
                        g.0,
                    ),
                    None => crate::bus_view::located(d) is None,
                },
                ParsedMessage::Exchange { to, from, payload } => match payload {
                    ExchangePayload::Grid(g) => crate::bus_view::located(d) matches Some(x) && x.1
                        == Locator::Grid(g.0),
                    ExchangePayload::FieldDay {
                        class,
                        section,
                        rogered,
                    } => crate::bus_view::located(d) matches Some(x) && x.1 == Locator::Section(
                        section.0,
                    ),
                    _ => crate::bus_view::located(d) is None,
                },
                _ => crate::bus_view::located(d) is None,
            },
            DecodeContent::Streaming { .. } => crate::bus_view::located(d) is None,
        },
{
}

/// A sighting keeps who was heard and where the station is, when, and in which slot. With
/// the dial known it also keeps the band that the dial is on, and the frequency on the air:
/// the audio offset above the dial.
pub proof fn law_sighting(d: Decode, vfo: Option<u64>)
    ensures
        crate::bus_view::sighting(d, vfo) is Some <==> crate::bus_view::located(d) is Some,
        crate::bus_view::sighting(d, vfo) matches Some(e) ==> {
            &&& crate::bus_view::located(d) == Some((e.call, e.loc, e.cq))
            &&& e.last_ms == d.t_ms
            &&& d.content->Slotted_slot == e.slot
            &&& vfo is None ==> e.band is None && e.abs is None
            &&& vfo matches Some(v) ==> {
                &&& e.band matches Some(b) ==> crate::types::in_band(v as int, b)
                &&& e.band is None ==> forall|b: Band| !#[trigger] crate::types::in_band(v as int, b)
                &&& v + d.audio_hz <= u64::MAX ==> (e.abs matches Some(f) && f.0 - v
                    == d.audio_hz)
            }
        },
{
    if let Some(v) = vfo {
        assert forall|b: Band|
            crate::types::band_at(v as int) is None implies !#[trigger] crate::types::in_band(
            v as int,
            b,
        ) by {
            crate::types::law_one_band(v as int, b);
        }
        if let Some(b) = crate::types::band_at(v as int) {
            crate::types::law_one_band(v as int, b);
        }
    }
}

/// One more decode changes the entry of its own sender and no other. Of two sightings of a
/// station the newer is kept, and the later one where both are of the same moment; a station
/// that was not heard before comes last.
pub proof fn law_heard_with(h: Seq<HeardEntry>, d: Decode, vfo: Option<u64>, e: HeardEntry, i: int)
    requires
        crate::bus_view::one_each(h),
        crate::bus_view::sighting(d, vfo) == Some(e),
        0 <= i < h.len(),
    ensures
        ({
            let g = crate::bus_view::heard_with(h, d, vfo);
            &&& h[i].call@ != e.call@ ==> g[i] == h[i]
            &&& h[i].call@ == e.call@ ==> g.len() == h.len() && g[i] == (if h[i].last_ms
                <= e.last_ms {
                e
            } else {
                h[i]
            })
            &&& (forall|k: int| 0 <= k < h.len() ==> (#[trigger] h[k]).call@ != e.call@) ==> g
                == h.push(e)
        }),
{
    crate::bus_view::lemma_heard_at(h, e.call@);
}

/// The first station that is heard is the only one; and a decode without a place changes
/// nothing.
pub proof fn law_first_heard(h: Seq<HeardEntry>, d: Decode, vfo: Option<u64>)
    ensures
        crate::bus_view::sighting(d, vfo) matches Some(e) ==> crate::bus_view::heard_with(
            Seq::empty(),
            d,
            vfo,
        ) == seq![e],
        crate::bus_view::sighting(d, vfo) is None ==> crate::bus_view::heard_with(h, d, vfo) == h,
{
    if let Some(e) = crate::bus_view::sighting(d, vfo) {
        let none = Seq::<HeardEntry>::empty();
        assert(crate::bus_view::heard_at(none, e.call@) == 0);
        assert(none.push(e) == seq![e]);
    }
}

/// The map shows all stations that were heard in the last hour and no others, in the order
/// in which they were first heard.
pub proof fn law_map_shows_the_last_hour(h: Seq<HeardEntry>, n: int, now: int)
    requires
        0 <= n <= h.len(),
    ensures
        crate::bus_view::fresh_spots(h, n, now) == h.take(n).filter(
            |e: HeardEntry| e.last_ms >= now - 60 * 60 * 1_000,
        ).map_values(|e: HeardEntry| crate::bus_view::heard_spot(e)),
    decreases n,
{
    reveal(Seq::filter);
    let test = |e: HeardEntry| e.last_ms >= now - 60 * 60 * 1_000;
    let show = |e: HeardEntry| crate::bus_view::heard_spot(e);
    if n > 0 {
        law_map_shows_the_last_hour(h, n - 1, now);
        let t = h.take(n);
        assert(t.drop_last() == h.take(n - 1));
        assert(t.last() == h[n - 1]);
        let f = h.take(n - 1).filter(test);
        assert(f.push(h[n - 1]).map_values(show) == f.map_values(show).push(show(h[n - 1])));
    } else {
        assert(h.take(0).len() == 0);
    }
}

/// A station that was heard is shown as it was last heard: its call, its place, its band, its
/// frequency and its slot, and whether it called CQ. It is not shown as worked.
pub proof fn law_heard_spot(e: HeardEntry)
    ensures
        ({
            let s = crate::bus_view::heard_spot(e);
            &&& s.call == e.call && s.loc == e.loc && s.last_ms == e.last_ms
            &&& s.band == e.band && s.abs == e.abs && s.slot == Some(e.slot)
            &&& s.cq == e.cq && !s.worked
        }),
{
}

/// From a decode to the map: an exchange with a locator shows its sender there, not calling
/// CQ; a CQ with a locator shows its caller there, calling.
pub proof fn law_decode_to_map(d: Decode, vfo: Option<u64>, now: int)
    requires
        d.t_ms >= now - 3_600_000,
        crate::bus_view::located(d) is Some,
    ensures
        ({
            let h = crate::bus_view::heard_with(Seq::empty(), d, vfo);
            let spots = crate::bus_view::fresh_spots(h, h.len() as int, now);
            &&& spots.len() == 1
            &&& match d.content->Slotted_message {
                ParsedMessage::Cq { caller, contest, grid } => spots[0].call == caller.0
                    && spots[0].cq && spots[0].loc == Locator::Grid(grid->Some_0.0),
                ParsedMessage::Exchange { to, from, payload } => spots[0].call == from.0
                    && !spots[0].cq,
                _ => false,
            }
        }),
{
    law_first_heard(Seq::empty(), d, vfo);
    let e = crate::bus_view::sighting(d, vfo)->Some_0;
    let h = seq![e];
    assert(h.len() == 1 && h[0] == e);
    reveal_with_fuel(crate::bus_view::fresh_spots, 2);
    let spots = crate::bus_view::fresh_spots(h, 1, now);
    assert(spots == Seq::<MapSpot>::empty().push(crate::bus_view::heard_spot(e)));
}

/// A log entry places its station by its locator, else by its section, else not at all.
pub proof fn law_logged_place(e: LogEntry)
    ensures
        e.grid is Some ==> crate::bus_view::entry_locator(e) == Some(
            Locator::Grid(e.grid->Some_0.0),
        ),
        e.grid is None && e.section is Some ==> crate::bus_view::entry_locator(e) == Some(
            Locator::Section(e.section->Some_0.0),
        ),
        e.grid is None && e.section is None ==> crate::bus_view::entry_locator(e) is None,
{
}

/// Whether a log entry places a worked station: it is of the same call, in whatever case, on
/// the same band, and has a locator or a section.
pub open spec fn places(e: LogEntry, w: WorkedEntry) -> bool {
    &&& e.band == w.band
    &&& crate::text::ascii_upper(e.call.0@) == crate::text::ascii_upper(w.call.0@)
    &&& e.grid is Some || e.section is Some
}

/// A worked station is shown by the last log entry that places it: as worked, on the band of
/// the contact, at its time and place. It is not shown only where no entry places it.
pub proof fn law_worked_spot(logs: Seq<LogEntry>, n: int, w: WorkedEntry)
    requires
        0 <= n <= logs.len(),
    ensures
        crate::bus_view::worked_spot(logs, n, w) is None <==> (forall|i: int|
            0 <= i < n ==> !places(#[trigger] logs[i], w)),
        crate::bus_view::worked_spot(logs, n, w) matches Some(s) ==> exists|i: int|
            0 <= i < n && places(#[trigger] logs[i], w) && s.call == logs[i].call.0 && s.last_ms
                == logs[i].time_ms && s.band == Some(w.band) && s.worked && !s.cq && Some(s.loc)
                == crate::bus_view::entry_locator(logs[i]) && (forall|j: int|
                i < j < n ==> !places(#[trigger] logs[j], w)),
    decreases n,
{
    if n > 0 {
        law_worked_spot(logs, n - 1, w);
        let e = logs[n - 1];
        if places(e, w) {
            assert(places(logs[n - 1], w));
        } else if let Some(s) = crate::bus_view::worked_spot(logs, n - 1, w) {
            let i = choose|i: int|
                0 <= i < n - 1 && places(#[trigger] logs[i], w) && s.call == logs[i].call.0
                    && s.last_ms == logs[i].time_ms && s.band == Some(w.band) && s.worked && !s.cq
                    && Some(s.loc) == crate::bus_view::entry_locator(logs[i]) && (forall|j: int|
                    i < j < n - 1 ==> !places(#[trigger] logs[j], w));
            assert(places(logs[i], w));
        }
    }
}

/// Every worked station that a log entry places is on the map, and nothing else is there as
/// worked.
pub proof fn law_worked_stations_are_shown(ws: Seq<WorkedEntry>, n: int, logs: Seq<LogEntry>)
    requires
        0 <= n <= ws.len(),
    ensures
        forall|i: int|
            0 <= i < n ==> (crate::bus_view::worked_spot(
                logs,
                logs.len() as int,
                #[trigger] ws[i],
            ) matches Some(s) ==> crate::bus_view::spots_of(ws, n, logs).contains(s)),
        forall|k: int|
            0 <= k < crate::bus_view::spots_of(ws, n, logs).len() ==> exists|i: int|
                0 <= i < n && crate::bus_view::worked_spot(
                    logs,
                    logs.len() as int,
                    #[trigger] ws[i],
                ) == Some(#[trigger] crate::bus_view::spots_of(ws, n, logs)[k]),
    decreases n,
{
    if n > 0 {
        law_worked_stations_are_shown(ws, n - 1, logs);
        let f = crate::bus_view::spots_of(ws, n - 1, logs);
        let g = crate::bus_view::spots_of(ws, n, logs);
        let last = crate::bus_view::worked_spot(logs, logs.len() as int, ws[n - 1]);
        assert forall|i: int| 0 <= i < n implies (crate::bus_view::worked_spot(
            logs,
            logs.len() as int,
            #[trigger] ws[i],
        ) matches Some(s) ==> g.contains(s)) by {
            if let Some(s) = crate::bus_view::worked_spot(logs, logs.len() as int, ws[i]) {
                if i < n - 1 {
                    assert(f.contains(s));
                    let x = choose|x: int| 0 <= x < f.len() && f[x] == s;
                    assert(g[x] == s);
                } else {
                    assert(g[g.len() - 1] == s);
                }
            }
        }
        assert forall|k: int| 0 <= k < g.len() implies exists|i: int|
            0 <= i < n && crate::bus_view::worked_spot(logs, logs.len() as int, #[trigger] ws[i])
                == Some(#[trigger] g[k]) by {
            if k < f.len() {
                assert(f[k] == g[k]);
                let i = choose|i: int|
                    0 <= i < n - 1 && crate::bus_view::worked_spot(
                        logs,
                        logs.len() as int,
                        #[trigger] ws[i],
                    ) == Some(f[k]);
                assert(crate::bus_view::worked_spot(logs, logs.len() as int, ws[i]) == Some(g[k]));
            } else {
                assert(last == Some(g[k]));
            }
        }
    }
}

/// The calls that were worked on a band: those of the entries of that band and no others, in
/// upper case, each once.
pub proof fn law_calls_on_band(ws: Seq<WorkedEntry>, n: int, band: Band, call: Seq<char>)
    requires
        0 <= n <= ws.len(),
    ensures
        crate::bus_view::calls_on(ws, n, band).contains(call) <==> (exists|i: int|
            0 <= i < n && (#[trigger] ws[i]).band == band && crate::text::ascii_upper(ws[i].call.0@)
                == call),
        forall|i: int, j: int|
            0 <= i < j < crate::bus_view::calls_on(ws, n, band).len()
                ==> #[trigger] crate::bus_view::calls_on(ws, n, band)[i]
                != #[trigger] crate::bus_view::calls_on(ws, n, band)[j],
    decreases n,
{
    if n > 0 {
        law_calls_on_band(ws, n - 1, band, call);
        let f = crate::bus_view::calls_on(ws, n - 1, band);
        let g = crate::bus_view::calls_on(ws, n, band);
        let c = crate::text::ascii_upper(ws[n - 1].call.0@);
        if f.contains(call) {
            let x = choose|x: int| 0 <= x < f.len() && f[x] == call;
            assert(g[x] == call);
        }
        if ws[n - 1].band == band {
            if f.contains(c) {
                let x = choose|x: int| 0 <= x < f.len() && f[x] == c;
                assert(g[x] == c);
            } else {
                assert(g[g.len() - 1] == c);
            }
        }
        if g.contains(call) && !f.contains(call) {
            let x = choose|x: int| 0 <= x < g.len() && g[x] == call;
            if x < f.len() {
                assert(f[x] == call);
            }
            assert(ws[n - 1].band == band && c == call);
        }
        assert forall|i: int, j: int| 0 <= i < j < g.len() implies #[trigger] g[i]
            != #[trigger] g[j] by {
            assert(g[i] == f[i]);
            if j < f.len() {
                assert(g[j] == f[j]);
            } else {
                assert(f.contains(f[i]));
            }
        }
    }
}

/// New hardware settings reach each part of the station that can be set up anew, and only
/// those: the rig gets its line, the capture its input and protocol, the transmitter its
/// output.
pub proof fn law_settings_reach_what_runs(cfg: HardwareConfig, c: Control, o: Outgoing)
    requires
        crate::bus_view::applied_changes(cfg, c).contains(o),
    ensures
        match o {
            Outgoing::Rig(line) => c.rig && line == cfg.serial,
            Outgoing::Capture { input, protocol } => c.audio && input == cfg.audio_input && protocol
                == cfg.protocol,
            Outgoing::TxOutput(output) => c.tx && output == cfg.audio_output,
            _ => false,
        },
{
}

/// Every part of the station that can be set up anew is set up once.
pub proof fn law_everything_that_runs_is_set_up(cfg: HardwareConfig, c: Control)
    ensures
        crate::bus_view::applied_changes(cfg, c).len() == (if c.rig {
            1int
        } else {
            0
        }) + (if c.audio {
            1int
        } else {
            0
        }) + (if c.tx {
            1int
        } else {
            0
        }),
        c.rig ==> crate::bus_view::applied_changes(cfg, c)[0] == Outgoing::Rig(cfg.serial),
        c.tx ==> crate::bus_view::applied_changes(cfg, c).last() == Outgoing::TxOutput(
            cfg.audio_output,
        ),
{
}

/// A change of the protocol is kept with all other settings as they were, and captured from
/// the same input where the audio is live. To change to the protocol in force does nothing.
pub proof fn law_protocol_is_kept(cfg: HardwareConfig, p: Protocol, c: Control)
    ensures
        ({
            let out = crate::bus_view::protocol_changes(cfg, p, c);
            &&& cfg.protocol == p <==> out.len() == 0
            &&& cfg.protocol != p ==> {
                &&& out.last() is SaveHardware
                &&& out.last()->SaveHardware_0.protocol == p
                &&& out.last()->SaveHardware_0 == (HardwareConfig { protocol: p, ..cfg })
                &&& out.len() == (if c.audio {
                    2int
                } else {
                    1
                })
                &&& c.audio ==> out[0] == (Outgoing::Capture { input: cfg.audio_input, protocol: p })
            }
        }),
{
}

proof fn lemma_rows_count(v: Seq<BandActivity>, n: int, k: int, x: BandActivity)
    requires
        0 <= n <= v.len(),
    ensures
        crate::bus_view::rows_of(v, n, k).to_multiset().count(x) == (if crate::bus_view::order_of(
            x.band,
        ) == k {
            v.take(n).to_multiset().count(x)
        } else {
            0
        }),
    decreases n,
{
    broadcast use vstd::seq_lib::group_to_multiset_ensures;

    if n > 0 {
        lemma_rows_count(v, n - 1, k, x);
        assert(v.take(n) == v.take(n - 1).push(v[n - 1]));
    } else {
        assert(v.take(0).len() == 0);
        assert(v.take(0) == Seq::<BandActivity>::empty());
    }
}

proof fn lemma_by_band_count(v: Seq<BandActivity>, k: int, x: BandActivity)
    requires
        0 <= k,
    ensures
        crate::bus_view::by_band(v, k).to_multiset().count(x) == (if crate::bus_view::order_of(
            x.band,
        ) < k {
            v.to_multiset().count(x)
        } else {
            0
        }),
    decreases k,
{
    broadcast use vstd::seq_lib::group_to_multiset_ensures;

    if k > 0 {
        lemma_by_band_count(v, k - 1, x);
        lemma_rows_count(v, v.len() as int, k - 1, x);
        assert(v.take(v.len() as int) == v);
        let a = crate::bus_view::by_band(v, k - 1);
        let b = crate::bus_view::rows_of(v, v.len() as int, k - 1);
        vstd::seq_lib::lemma_multiset_commutative(a, b);
    }
}

/// The activity of the ten bands is put in order, and nothing is added to it or lost.
pub proof fn law_every_band_row_is_kept(v: Seq<BandActivity>)
    ensures
        crate::bus_view::by_band(v, 10).to_multiset() == v.to_multiset(),
{
    assert forall|x: BandActivity| #[trigger]
        crate::bus_view::by_band(v, 10).to_multiset().count(x) == v.to_multiset().count(x) by {
        lemma_by_band_count(v, 10, x);
    }
    assert(crate::bus_view::by_band(v, 10).to_multiset() =~= v.to_multiset());
}

/// The windows on the streams are bounded: 8192 decodes, 512 log entries and 512 rows of the
/// spectrum at most.
pub proof fn law_windows_are_bounded(b: BusView)
    requires
        b.wf(),
    ensures
        b.decodes@.len() <= 8_192 && b.decodes.capacity() == 8_192,
        b.logs@.len() <= 512 && b.logs.capacity() == 512,
        b.spectrum_hist@.len() <= 512 && b.spectrum_hist.capacity() == 512,
{
}

} // verus!
