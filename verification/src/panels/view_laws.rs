//! What holds of the panels beside the waterslide: the map of contacts, the log book, the
//! facts of a station, the band status and the band scan.

use vstd::prelude::*;

use crate::bus_view::{MapSpot, ScannerState};
use crate::panel_data::Locator;
use crate::panels::band_scan::STOPS;
use crate::panels::log_book::LogRow;
use crate::types::{Band, BandActivity, LogEntry, OverAirMode, ScanStatus, SlotId};

verus! {

proof fn lemma_on_band(v: Seq<MapSpot>, n: int, band: Band, since: Option<int>)
    requires
        0 <= n <= v.len(),
    ensures
        crate::panels::contacts::on_band(v, n, band, since) == v.take(n).filter(
            |s: MapSpot| s.band == Some(band) && (since matches Some(t) ==> s.last_ms >= t),
        ),
    decreases n,
{
    reveal(Seq::filter);
    if n > 0 {
        lemma_on_band(v, n - 1, band, since);
        assert(v.take(n).drop_last() == v.take(n - 1));
        assert(v.take(n).last() == v[n - 1]);
    } else {
        assert(v.take(0).len() == 0);
    }
}

/// The contacts that the map shows are all those of its band; of the last 24 hours where only
/// recent ones are shown.
pub proof fn law_contacts_on_the_map(worked: Seq<MapSpot>, band: Band, recent: bool, now: int)
    ensures
        !recent ==> crate::panels::contacts::worked_shown(worked, band, recent, now)
            == worked.filter(|s: MapSpot| s.band == Some(band)),
        recent ==> crate::panels::contacts::worked_shown(worked, band, recent, now) == worked.filter(
            |s: MapSpot| s.band == Some(band) && s.last_ms >= now - 24 * 60 * 60 * 1_000,
        ),
{
    let n = worked.len() as int;
    assert(worked.take(n) == worked);
    if recent {
        let since = Some(now - 86_400_000);
        lemma_on_band(worked, n, band, since);
        lemma_same_filter(
            worked,
            |s: MapSpot| s.band == Some(band) && (since matches Some(t) ==> s.last_ms >= t),
            |s: MapSpot| s.band == Some(band) && s.last_ms >= now - 24 * 60 * 60 * 1_000,
        );
    } else {
        let since: Option<int> = None;
        lemma_on_band(worked, n, band, since);
        lemma_same_filter(
            worked,
            |s: MapSpot| s.band == Some(band) && (since matches Some(t) ==> s.last_ms >= t),
            |s: MapSpot| s.band == Some(band),
        );
    }
}

proof fn lemma_same_filter(
    v: Seq<MapSpot>,
    p: spec_fn(MapSpot) -> bool,
    q: spec_fn(MapSpot) -> bool,
)
    requires
        forall|s: MapSpot| #[trigger] p(s) == q(s),
    ensures
        v.filter(p) == v.filter(q),
    decreases v.len(),
{
    reveal(Seq::filter);
    if v.len() > 0 {
        lemma_same_filter(v.drop_last(), p, q);
        assert(p(v.last()) == q(v.last()));
    }
}

/// The stations on the map that were only heard: all those of the band whose call is not
/// shown as worked, behind the worked ones, where unworked stations are shown, and none where
/// they are not.
pub proof fn law_heard_on_the_map(
    worked: Seq<MapSpot>,
    heard: Seq<MapSpot>,
    band: Band,
    recent: bool,
    now: int,
)
    ensures
        ({
            let w = crate::panels::contacts::worked_shown(worked, band, recent, now);
            &&& crate::panels::contacts::shown(worked, heard, band, recent, false, now) == w
            &&& crate::panels::contacts::shown(worked, heard, band, recent, true, now) == w
                + heard.filter(
                |s: MapSpot|
                    s.band == Some(band) && !(exists|i: int|
                        0 <= i < w.len() && (#[trigger] w[i]).call@ == s.call@),
            )
        }),
{
    let w = crate::panels::contacts::worked_shown(worked, band, recent, now);
    lemma_not_worked(heard, heard.len() as int, band, w);
    assert(heard.take(heard.len() as int) == heard);
}

proof fn lemma_not_worked(v: Seq<MapSpot>, n: int, band: Band, w: Seq<MapSpot>)
    requires
        0 <= n <= v.len(),
    ensures
        crate::panels::contacts::not_worked(v, n, band, w) == v.take(n).filter(
            |s: MapSpot|
                s.band == Some(band) && !(exists|i: int|
                    0 <= i < w.len() && (#[trigger] w[i]).call@ == s.call@),
        ),
    decreases n,
{
    reveal(Seq::filter);
    if n > 0 {
        lemma_not_worked(v, n - 1, band, w);
        assert(v.take(n).drop_last() == v.take(n - 1));
        assert(v.take(n).last() == v[n - 1]);
    } else {
        assert(v.take(0).len() == 0);
    }
}

/// A heard station fades evenly over an hour: not at all when it was just heard, by as much
/// as time passes, and no further after the hour.
pub proof fn law_fading(now: int, last: int, more: int)
    ensures
        last >= now ==> crate::panels::contacts::faded(now, last) == 0,
        now - last >= 3_600_000 ==> crate::panels::contacts::faded(now, last) == 3_600_000,
        last <= now && more >= 0 && now + more - last <= 3_600_000
            ==> crate::panels::contacts::faded(now + more, last)
            - crate::panels::contacts::faded(now, last) == more,
{
}

/// A click hits a marker within 10 pixels, which is the bit pattern 0x41200000, and of
/// markers that are equally near the first.
pub proof fn law_first_of_the_nearest_is_hit(d: Seq<Option<u32>>, n: int)
    requires
        0 <= n <= d.len(),
    ensures
        crate::panels::contacts::nearest(d, n) matches Some(i) ==> 0 <= i < n && d[i] is Some
            && d[i]->Some_0 <= 0x4120_0000 && forall|k: int|
            0 <= k < i && (#[trigger] d[k]) is Some ==> d[k]->Some_0 > d[i]->Some_0,
        crate::panels::contacts::nearest(d, n) is None ==> forall|k: int|
            0 <= k < n && (#[trigger] d[k]) is Some ==> d[k]->Some_0 > 0x4120_0000,
    decreases n,
{
    if n > 0 {
        law_first_of_the_nearest_is_hit(d, n - 1);
        crate::panels::contacts::law_hit_is_nearest(d, n - 1);
    }
}

/// What a click on a station of the map keeps: the slot in which it was heard, and slot 0 of
/// a station that only the log knows.
pub proof fn law_picked_slot(s: MapSpot)
    ensures
        crate::panels::contacts::picked(s).target matches Some(t) && t.slot == (if s.slot is Some {
            s.slot->Some_0
        } else {
            SlotId(0)
        }) && t.call is Some && t.call->Some_0.0 == s.call,
{
}

/// A call is looked up in whatever case it is written, and the first of its spots is found.
pub proof fn law_spot_of_a_call(v: Seq<MapSpot>, call: Seq<char>)
    ensures
        ({
            let k = crate::panels::contacts::spot_at(v, call);
            &&& 0 <= k <= v.len()
            &&& k < v.len() ==> crate::text::ascii_upper(v[k].call@) == crate::text::ascii_upper(
                call,
            )
            &&& forall|i: int|
                0 <= i < k ==> crate::text::ascii_upper((#[trigger] v[i]).call@)
                    != crate::text::ascii_upper(call)
        }),
    decreases v.len(),
{
    if v.len() > 0 {
        let t = v.skip(1);
        law_spot_of_a_call(t, call);
        let k = crate::panels::contacts::spot_at(v, call);
        if k > 0 {
            assert(k < v.len() ==> v[k] == t[k - 1]);
            assert forall|i: int| 0 <= i < k implies crate::text::ascii_upper(
                (#[trigger] v[i]).call@,
            ) != crate::text::ascii_upper(call) by {
                if i > 0 {
                    assert(v[i] == t[i - 1]);
                }
            }
        }
    }
}

/// The spots of one kind, worked or not, are drawn in their order, each once and all of them.
pub proof fn law_drawn_spots(v: Seq<MapSpot>, n: int, worked: bool)
    requires
        0 <= n <= v.len(),
        v.len() <= usize::MAX,
    ensures
        ({
            let p = crate::panels::contacts::places(v, n, worked);
            &&& forall|i: int| 0 <= i < p.len() ==> (#[trigger] p[i]) < n && v[p[i] as int].worked
                == worked
            &&& forall|i: int, j: int|
                0 <= i < j < p.len() ==> (#[trigger] p[i]) < (#[trigger] p[j])
            &&& forall|k: usize|
                k < n && (#[trigger] v[k as int]).worked == worked ==> p.contains(k)
        }),
    decreases n,
{
    if n > 0 {
        law_drawn_spots(v, n - 1, worked);
        let f = crate::panels::contacts::places(v, n - 1, worked);
        let p = crate::panels::contacts::places(v, n, worked);
        assert forall|k: usize| k < n && (#[trigger] v[k as int]).worked == worked implies p.contains(
            k,
        ) by {
            if k < n - 1 {
                assert(f.contains(k));
                let x = choose|x: int| 0 <= x < f.len() && f[x] == k;
                assert(p[x] == k);
            } else {
                assert(p[p.len() - 1] == k);
            }
        }
    }
}

/// The operator stands in the middle of the grid, and at 105.1 degrees west and 40 degrees
/// north where the grid cannot be read.
pub proof fn law_home(grid: Seq<char>)
    ensures
        match crate::panel_data::grid_cell(
            crate::panel_data::bytes_of(crate::text::trim(grid)),
        ) {
            Some(g) => crate::panels::contacts::home_of(grid).0 == g.lon
                && crate::panels::contacts::home_of(grid).1 == g.lat,
            None => 10 * crate::panels::contacts::home_of(grid).0 == -1_051 * 3_600
                && crate::panels::contacts::home_of(grid).1 == 40 * 3_600,
        },
{
}

/// The time of a contact is the hour and the minute of its day in UTC, on any day, before the
/// epoch or after it.
pub proof fn law_time_of_day(day: int, hour: int, minute: int, rest: int)
    requires
        0 <= hour < 24,
        0 <= minute < 60,
        0 <= rest < 60_000,
    ensures
        crate::panels::log_book::clock_text(
            86_400_000 * day + 3_600_000 * hour + 60_000 * minute + rest,
        ) == crate::numbers::padded(hour as nat, 2) + crate::numbers::padded(minute as nat, 2),
{
    let ms = 86_400_000 * day + 3_600_000 * hour + 60_000 * minute + rest;
    assert(ms / 3_600_000 == 24 * day + hour);
    assert(ms / 60_000 == 1_440 * day + 60 * hour + minute);
    assert((24 * day + hour) % 24 == hour);
    assert((1_440 * day + 60 * hour + minute) % 60 == minute);
}

/// A line of the log book shows what the log holds: call and grid, what was sent and what was
/// received, each in its own column; and whose contact it is where it is not the operator's.
pub proof fn law_log_line(r: LogRow, e: LogEntry, me: Seq<char>)
    requires
        crate::panels::log_book::row_is_of(r, e, me),
    ensures
        r.call@ == e.call.0@,
        r.sent@ == e.exchange_sent@,
        r.rcvd@ == e.exchange_rcvd@,
        e.grid is Some ==> r.grid@ == e.grid->Some_0.0@,
        e.grid is None ==> r.grid@ == seq!['-', '-', '-', '-'],
        r.badge is Some <==> e.origin@ != me,
        r.badge is Some ==> r.badge->Some_0@ == seq!['\u{2194}', ' '] + e.origin@,
        0 <= e.time_ms < 86_400_000 ==> r.time@ == crate::numbers::padded(
            (e.time_ms / 3_600_000) as nat,
            2,
        ) + crate::numbers::padded((e.time_ms / 60_000 % 60) as nat, 2),
{
    reveal_strlit("----");
    reveal_strlit("\u{2194} ");
    assert("----"@ == seq!['-', '-', '-', '-']);
    assert("\u{2194} "@ == seq!['\u{2194}', ' ']);
}

/// Numbers are grouped in threes from the end: up to three digits stand as they are, and three
/// digits more stand behind a comma. A number below zero is its size behind a minus.
pub proof fn law_groups_of_three(s: Seq<char>, t: Seq<char>, n: nat)
    ensures
        s.len() <= 3 ==> crate::panels::call_sign::grouped(s) == s,
        s.len() > 0 && t.len() == 3 ==> crate::panels::call_sign::grouped(s + t)
            == crate::panels::call_sign::grouped(s) + seq![','] + t,
        n > 0 ==> crate::panels::call_sign::group_text(-(n as int)) == seq!['-']
            + crate::panels::call_sign::group_text(n as int),
{
    if s.len() > 0 && t.len() == 3 {
        let u = s + t;
        assert(u.take(u.len() - 3) == s);
        assert(u.skip(u.len() - 3) == t);
    }
}

/// The log entry of a call is the first one of it, in whatever case it is written.
pub proof fn law_entry_of_a_call(logs: Seq<LogEntry>, call: Seq<char>)
    ensures
        ({
            let k = crate::panels::call_sign::entry_at(logs, call);
            &&& 0 <= k <= logs.len()
            &&& k < logs.len() ==> crate::text::ascii_upper(logs[k].call.0@)
                == crate::text::ascii_upper(call)
            &&& forall|i: int|
                0 <= i < k ==> crate::text::ascii_upper((#[trigger] logs[i]).call.0@)
                    != crate::text::ascii_upper(call)
        }),
    decreases logs.len(),
{
    if logs.len() > 0 {
        let t = logs.skip(1);
        law_entry_of_a_call(t, call);
        let k = crate::panels::call_sign::entry_at(logs, call);
        if k > 0 {
            assert(k < logs.len() ==> logs[k] == t[k - 1]);
            assert forall|i: int| 0 <= i < k implies crate::text::ascii_upper(
                (#[trigger] logs[i]).call.0@,
            ) != crate::text::ascii_upper(call) by {
                if i > 0 {
                    assert(logs[i] == t[i - 1]);
                }
            }
        }
    }
}

/// The grid of a station: what it last sent comes before what the log says, and a section is
/// no grid.
pub proof fn law_known_grid(
    heard: Seq<MapSpot>,
    worked: Seq<MapSpot>,
    logs: Seq<LogEntry>,
    call: Seq<char>,
)
    ensures
        ({
            let h = crate::panels::contacts::spot_at(heard, call);
            let w = crate::panels::contacts::spot_at(worked, call);
            let e = crate::panels::call_sign::entry_at(logs, call);
            let g = crate::panels::call_sign::grid_known(heard, worked, logs, call);
            &&& (h < heard.len() && (heard[h].loc matches Locator::Grid(x) && x@.len() > 0)) ==> g
                == Some(heard[h].loc->Grid_0@)
            &&& (h >= heard.len() && w < worked.len() && (worked[w].loc matches Locator::Grid(x)
                && x@.len() > 0)) ==> g == Some(worked[w].loc->Grid_0@)
            &&& (h >= heard.len() && w >= worked.len() && e < logs.len() && (
            logs[e].grid matches Some(x) && x.0@.len() > 0)) ==> g == Some(logs[e].grid->Some_0.0@)
            &&& (h < heard.len() && heard[h].loc is Section && e < logs.len() && (
            logs[e].grid matches Some(x) && x.0@.len() > 0)) ==> g == Some(logs[e].grid->Some_0.0@)
            &&& h >= heard.len() && w >= worked.len() && e >= logs.len() ==> g is None
            &&& g matches Some(x) ==> x.len() > 0
        }),
{
}

/// The line of facts starts with the country, and goes on with grid and distance in this
/// order where they are known; what is not known leaves no gap.
pub proof fn law_facts(country: Seq<char>, grid: Seq<char>, distance: Seq<char>)
    ensures
        crate::panels::call_sign::facts(Some(country), None, None) == country,
        ({
            let dot = seq![' ', ' ', '\u{b7}', ' ', ' '];
            &&& crate::panels::call_sign::facts(Some(country), Some(grid), None) == country + dot
                + grid
            &&& crate::panels::call_sign::facts(Some(country), None, Some(distance)) == country
                + dot + distance
            &&& crate::panels::call_sign::facts(Some(country), Some(grid), Some(distance))
                == country + dot + grid + dot + distance
        }),
{
    reveal_strlit("  \u{b7}  ");
    assert("  \u{b7}  "@ == seq![' ', ' ', '\u{b7}', ' ', ' ']);
}

/// What was exchanged is shown as sent and received, in this order, a dash for a part that is
/// missing; without either the station counts as not worked, as one does that is not in the
/// log.
pub proof fn law_exchange_line(e: LogEntry)
    ensures
        ({
            let line = crate::panels::call_sign::exchanged(Some(e));
            let (s, r) = (e.exchange_sent@, e.exchange_rcvd@);
            let tx = seq!['T', 'X', ' '];
            let rx = seq![' ', ' ', '\u{b7}', ' ', ' ', 'R', 'X', ' '];
            let dash = seq!['\u{2014}'];
            &&& s.len() > 0 && r.len() > 0 ==> line == tx + s + rx + r
            &&& s.len() > 0 && r.len() == 0 ==> line == tx + s + rx + dash
            &&& s.len() == 0 && r.len() > 0 ==> line == tx + dash + rx + r
            &&& s.len() == 0 && r.len() == 0 ==> line == crate::panels::call_sign::exchanged(None)
        }),
{
    reveal_strlit("TX ");
    reveal_strlit("  \u{b7}  RX ");
    reveal_strlit("\u{2014}");
    assert("TX "@ == seq!['T', 'X', ' ']);
    assert("  \u{b7}  RX "@ == seq![' ', ' ', '\u{b7}', ' ', ' ', 'R', 'X', ' ']);
    assert("\u{2014}"@ == seq!['\u{2014}']);
}

/// Up to three bands stand in one column and more in two, in no more rows than it takes.
pub proof fn law_band_layout(n: int)
    requires
        n >= 1,
    ensures
        n <= 3 ==> crate::panels::band_status::shape(n) == (1int, n),
        n > 3 ==> crate::panels::band_status::shape(n).0 == 2 && n <= 2
            * crate::panels::band_status::shape(n).1 <= n + 1,
{
}

/// The rows of the bands in use, and no others, in their order.
pub proof fn law_rows_in_use(v: Seq<BandActivity>, n: int, active: Seq<Band>)
    requires
        0 <= n <= v.len(),
    ensures
        crate::panels::band_status::active_rows(v, n, active) == v.take(n).filter(
            |r: BandActivity| active.contains(r.band),
        ),
    decreases n,
{
    reveal(Seq::filter);
    if n > 0 {
        law_rows_in_use(v, n - 1, active);
        assert(v.take(n).drop_last() == v.take(n - 1));
        assert(v.take(n).last() == v[n - 1]);
    } else {
        assert(v.take(0).len() == 0);
    }
}

/// Every band with a row is shown, up to six; the number that is hidden is what is more than
/// six.
pub proof fn law_bands_with_rows(v: Seq<BandActivity>, i: int, n: int)
    requires
        0 <= i < v.len(),
    ensures
        crate::panels::band_status::bands_in(v, 10).contains(v[i].band),
        0 <= n <= 6 ==> crate::panels::band_status::surplus(n) == 0,
        n > 6 ==> n - crate::panels::band_status::surplus(n) == 6,
{
    let k = crate::bus_view::order_of(v[i].band);
    assert(crate::panels::band_status::band_of_order(k) == v[i].band);
    lemma_bands_in(v, 10, k);
}

proof fn lemma_bands_in(v: Seq<BandActivity>, n: int, k: int)
    requires
        0 <= k < n <= 10,
        crate::panels::band_status::has_row(v, crate::panels::band_status::band_of_order(k)),
    ensures
        crate::panels::band_status::bands_in(v, n).contains(
            crate::panels::band_status::band_of_order(k),
        ),
    decreases n,
{
    let b = crate::panels::band_status::band_of_order(k);
    let g = crate::panels::band_status::bands_in(v, n);
    if k < n - 1 {
        lemma_bands_in(v, n - 1, k);
        let f = crate::panels::band_status::bands_in(v, n - 1);
        let x = choose|x: int| 0 <= x < f.len() && f[x] == b;
        assert(g[x] == b);
    } else {
        assert(g[g.len() - 1] == b);
    }
}

/// The counts of a stop are those of the first row of its band and mode, and nothing where
/// there is none: rows of another band or mode do not count.
pub proof fn law_counts_of_a_stop(
    v: Seq<BandActivity>,
    r: BandActivity,
    band: Band,
    mode: OverAirMode,
)
    ensures
        r.band == band && r.mode == mode ==> crate::panels::band_scan::counts_at(
            seq![r] + v,
            band,
            mode,
        ) == (r.heard, r.cq, r.unworked),
        r.band != band || r.mode != mode ==> crate::panels::band_scan::counts_at(
            seq![r] + v,
            band,
            mode,
        ) == crate::panels::band_scan::counts_at(v, band, mode),
        crate::panels::band_scan::counts_at(Seq::empty(), band, mode) == (0u32, 0u32, 0u32),
{
    let s = seq![r] + v;
    assert(s[0] == r);
    assert(s.skip(1) == v);
}

/// A line of the band status gives the three counts of its row in the order heard, calling,
/// unworked; a band without a row in a mode gets a dash.
pub proof fn law_mode_line(v: Seq<BandActivity>, r: BandActivity, band: Band, mode: OverAirMode)
    ensures
        ({
            let dot = seq![' ', '\u{b7}', ' '];
            crate::panels::band_status::line_text(seq![r] + v, r.band, r.mode)
                == crate::numbers::dec(r.heard as nat) + dot + crate::numbers::dec(r.cq as nat) + dot
                + crate::numbers::dec(r.unworked as nat)
        }),
        (forall|j: int|
            0 <= j < v.len() ==> (#[trigger] v[j]).band != band || v[j].mode != mode)
            ==> crate::panels::band_status::line_text(v, band, mode) == seq!['\u{2014}'],
{
    reveal_strlit(" \u{b7} ");
    reveal_strlit("\u{2014}");
    assert(" \u{b7} "@ == seq![' ', '\u{b7}', ' ']);
    assert("\u{2014}"@ == seq!['\u{2014}']);
    law_counts_of_a_stop(v, r, r.band, r.mode);
    let s = seq![r] + v;
    assert(s[0] == r);
    assert(s[0].band == r.band && s[0].mode == r.mode);
}

/// A list of bands is their names with a comma and a space between them.
pub proof fn law_band_names_in_a_row(bands: Seq<Band>, b: Band)
    ensures
        crate::panels::band_status::names(seq![b]) == crate::format::band_full(b),
        bands.len() > 0 ==> crate::panels::band_status::names(bands.push(b))
            == crate::panels::band_status::names(bands) + seq![',', ' ']
            + crate::format::band_full(b),
{
    reveal_strlit(", ");
    assert(", "@ == seq![',', ' ']);
    assert(bands.push(b).drop_last() == bands);
}

/// The stops of a scan are the four bands 40, 20, 15 and 10 m, each in FT8 and then in FT4:
/// the two stops of a band follow each other, and no stop is there twice.
pub proof fn law_scan_stops(j: int, k: int)
    requires
        0 <= j < 8,
        0 <= k < 8,
    ensures
        STOPS == 8,
        crate::panels::band_scan::stop_band(0) == Band::B40m,
        crate::panels::band_scan::stop_band(2) == Band::B20m,
        crate::panels::band_scan::stop_band(4) == Band::B15m,
        crate::panels::band_scan::stop_band(6) == Band::B10m,
        k % 2 == 0 ==> crate::panels::band_scan::stop_band(k) == crate::panels::band_scan::stop_band(
            k + 1,
        ) && crate::panels::band_scan::stop_mode(k) == OverAirMode::Ft8
            && crate::panels::band_scan::stop_mode(k + 1) == OverAirMode::Ft4,
        j != k ==> crate::panels::band_scan::stop_band(j) != crate::panels::band_scan::stop_band(k)
            || crate::panels::band_scan::stop_mode(j) != crate::panels::band_scan::stop_mode(k),
        j < k ==> crate::types::band_edges(crate::panels::band_scan::stop_band(j)).0
            <= crate::types::band_edges(crate::panels::band_scan::stop_band(k)).0,
{
}

/// The stops of a survey come in their order, once each.
pub proof fn law_survey_goes_in_order(on: Seq<bool>, n: int)
    requires
        0 <= n <= 8,
        n < on.len(),
    ensures
        crate::panels::band_scan::stops_on(on, n + 1) == (if on[n] {
            crate::panels::band_scan::stops_on(on, n).push(
                (crate::panels::band_scan::stop_band(n), crate::panels::band_scan::stop_mode(n)),
            )
        } else {
            crate::panels::band_scan::stops_on(on, n)
        }),
        crate::panels::band_scan::stops_on(on, 0).len() == 0,
{
}

/// The stops on the bands in use come band by band, FT8 before FT4.
pub proof fn law_stops_go_band_by_band(bands: Seq<Band>, i: int)
    requires
        0 <= i < bands.len(),
    ensures
        crate::panels::band_scan::stops_of(bands).len() == 2 * bands.len(),
        crate::panels::band_scan::stops_of(bands)[2 * i] == (bands[i], OverAirMode::Ft8),
        crate::panels::band_scan::stops_of(bands)[2 * i + 1] == (bands[i], OverAirMode::Ft4),
{
}

/// A survey ended just now for the first minute, and then so many whole minutes ago.
pub proof fn law_minutes_ago(then: int, minutes: nat, rest: int)
    requires
        0 <= rest < 60_000,
    ensures
        minutes > 0 ==> crate::panels::band_scan::ago_text(then, then + 60_000 * minutes + rest)
            == crate::numbers::dec(minutes) + seq![' ', 'm', 'i', 'n', ' ', 'a', 'g', 'o'],
        crate::panels::band_scan::ago_text(then, then + rest) == crate::panels::band_scan::ago_text(
            then,
            then,
        ),
        crate::panels::band_scan::ago_text(then, then - rest) == crate::panels::band_scan::ago_text(
            then,
            then,
        ),
{
    reveal_strlit(" min ago");
    assert(" min ago"@ == seq![' ', 'm', 'i', 'n', ' ', 'a', 'g', 'o']);
    assert((60_000 * minutes + rest) / 60_000 == minutes as int);
    assert(rest / 60_000 == 0);
}

/// Elapsed time is shown in minutes and seconds, two digits each or more.
pub proof fn law_elapsed(minutes: nat, seconds: nat)
    requires
        seconds < 60,
    ensures
        crate::panels::band_scan::elapsed_text((60 * minutes + seconds) as int)
            == crate::numbers::padded(minutes, 2) + seq![':'] + crate::numbers::padded(seconds, 2),
{
    assert((60 * minutes + seconds) / 60 == minutes);
    assert((60 * minutes + seconds) % 60 == seconds);
}

/// A stop that is on is shown with its three counts in the order heard, calling, unworked; one
/// that is off without any, whatever was counted.
pub proof fn law_stop_line(a: (u32, u32, u32), b: (u32, u32, u32))
    ensures
        crate::panels::band_scan::stop_text(false, a) == crate::panels::band_scan::stop_text(
            false,
            b,
        ),
        ({
            let text = crate::panels::band_scan::stop_text(true, a);
            let first = crate::numbers::dec(a.0 as nat) + seq![
                ' ', 'h', 'e', 'a', 'r', 'd', ' ', '\u{b7}', ' ',
            ];
            let second = crate::numbers::dec(a.1 as nat) + seq![' ', 'c', 'q', ' ', '\u{b7}', ' '];
            let third = crate::numbers::dec(a.2 as nat) + seq![' ', 'u', 'n', 'w', 'k', 'd'];
            text == first + second + third
        }),
{
    reveal_strlit(" heard \u{b7} ");
    reveal_strlit(" cq \u{b7} ");
    reveal_strlit(" unwkd");
    let text = crate::panels::band_scan::stop_text(true, a);
    let first = crate::numbers::dec(a.0 as nat) + seq![
        ' ', 'h', 'e', 'a', 'r', 'd', ' ', '\u{b7}', ' ',
    ];
    let second = crate::numbers::dec(a.1 as nat) + seq![' ', 'c', 'q', ' ', '\u{b7}', ' '];
    let third = crate::numbers::dec(a.2 as nat) + seq![' ', 'u', 'n', 'w', 'k', 'd'];
    assert(text == first + second + third);
}

/// The header names the band while a survey runs, and how long it has run; when none runs it
/// says when the last one ended, and that the scanner is idle before the first.
pub proof fn law_scan_header(s: ScannerState, band: Band, start: u64, now: int, wall: int)
    ensures
        s.status == ScanStatus::Scanning && s.current == Some(band) && now >= start ==> ({
            let text = crate::panels::band_scan::status_text(Some(s), Some(start), now, wall);
            let end = crate::format::band_full(band) + seq![' ', '\u{2026}', ' ']
                + crate::panels::band_scan::elapsed_text((now - start) / 1_000);
            text.len() >= end.len() && text.skip(text.len() - end.len()) == end
        }),
        s.status == ScanStatus::Idle && s.last_scan is Some ==> ({
            let text = crate::panels::band_scan::status_text(Some(s), Some(start), now, wall);
            let end = crate::panels::band_scan::ago_text(s.last_scan->Some_0 as int, wall);
            text.len() >= end.len() && text.skip(text.len() - end.len()) == end
        }),
        s.status == ScanStatus::Idle && s.last_scan is None ==> crate::panels::band_scan::status_text(
            Some(s),
            Some(start),
            now,
            wall,
        ) == crate::panels::band_scan::status_text(None, None, now, wall),
{
    reveal_strlit("Scanning ");
    reveal_strlit(" \u{2026} ");
    reveal_strlit("Last scan: ");
    let text = crate::panels::band_scan::status_text(Some(s), Some(start), now, wall);
    if s.status == ScanStatus::Scanning && s.current == Some(band) && now >= start {
        let end = crate::format::band_full(band) + seq![' ', '\u{2026}', ' ']
            + crate::panels::band_scan::elapsed_text((now - start) / 1_000);
        if now == start {
            assert((now - start) / 1_000 == 0);
        }
        assert(text.skip(text.len() - end.len()) == end);
    }
    if s.status == ScanStatus::Idle && s.last_scan is Some {
        let end = crate::panels::band_scan::ago_text(s.last_scan->Some_0 as int, wall);
        assert(text.skip(text.len() - end.len()) == end);
    }
}

} // verus!
