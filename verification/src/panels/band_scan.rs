//! The Band Scan panel: which bands and modes are surveyed, and what was heard there.

use vstd::prelude::*;

use crate::bus_view::{ScannerCommand, ScannerState};
use crate::format::band_label;
use crate::numbers::{spell, spell_padded};
use crate::text::{append, append_str, chars_of, owned, string_of};
use crate::types::{Band, BandActivity, OverAirMode, ScanStatus};

verus! {

/// How many slots are spent on each stop.
pub const DWELL_SLOTS: u8 = 2;

/// How many stops there are: four bands with two modes each.
pub const STOPS: usize = 8;

/// The band of stop `k`.
pub open spec fn stop_band(k: int) -> Band {
    if k / 2 == 0 {
        Band::B40m
    } else if k / 2 == 1 {
        Band::B20m
    } else if k / 2 == 2 {
        Band::B15m
    } else {
        Band::B10m
    }
}

/// The mode of stop `k`.
pub open spec fn stop_mode(k: int) -> OverAirMode {
    if k % 2 == 0 {
        OverAirMode::Ft8
    } else {
        OverAirMode::Ft4
    }
}

/// Stop `k`: its band and its mode.
pub fn stop_at(k: usize) -> (r: (Band, OverAirMode))
    requires
        k < STOPS,
    ensures
        r == (stop_band(k as int), stop_mode(k as int)),
{
    let band: Band = if k / 2 == 0 {
        Band::B40m
    } else if k / 2 == 1 {
        Band::B20m
    } else if k / 2 == 2 {
        Band::B15m
    } else {
        Band::B10m
    };
    let mode: OverAirMode = if k % 2 == 0 {
        OverAirMode::Ft8
    } else {
        OverAirMode::Ft4
    };
    (band, mode)
}

/// The stops among the first `n` that are on, in their order.
pub open spec fn stops_on(on: Seq<bool>, n: int) -> Seq<(Band, OverAirMode)>
    decreases n,
{
    if n <= 0 {
        Seq::empty()
    } else if on[n - 1] {
        stops_on(on, n - 1).push((stop_band(n - 1), stop_mode(n - 1)))
    } else {
        stops_on(on, n - 1)
    }
}

/// A stop is surveyed exactly where it is on.
pub proof fn law_stop_is_surveyed(on: Seq<bool>, n: int, k: int)
    requires
        0 <= n <= STOPS,
        0 <= k < STOPS,
    ensures
        stops_on(on, n).contains((stop_band(k), stop_mode(k))) <==> k < n && on[k],
    decreases n,
{
    if n > 0 {
        law_stop_is_surveyed(on, n - 1, k);
        let s = stops_on(on, n - 1);
        let last = (stop_band(n - 1), stop_mode(n - 1));
        let it = (stop_band(k), stop_mode(k));
        assert(it == last ==> k == n - 1);
        if on[n - 1] {
            assert(s.push(last)[s.len() as int] == last);
            if s.contains(it) {
                let j = choose|j: int| 0 <= j < s.len() && s[j] == it;
                assert(s.push(last)[j] == it);
            }
            if s.push(last).contains(it) && it != last {
                let j = choose|j: int| 0 <= j < s.push(last).len() && s.push(last)[j] == it;
                assert(s[j] == it);
            }
        }
    }
}

/// The stops on the bands in use: each band in both modes, in the order of the bands.
pub open spec fn stops_of(bands: Seq<Band>) -> Seq<(Band, OverAirMode)> {
    Seq::new(2 * bands.len(), |k: int| (bands[k / 2], stop_mode(k)))
}

/// The stops on the bands in use.
pub fn scan_stops(bands: &Vec<Band>) -> (r: Vec<(Band, OverAirMode)>)
    ensures
        r@ == stops_of(bands@),
{
    let mut r: Vec<(Band, OverAirMode)> = Vec::new();
    let mut i: usize = 0;
    while i < bands.len()
        invariant
            i <= bands@.len(),
            r@ == stops_of(bands@.take(i as int)),
        decreases bands@.len() - i,
    {
        r.push((bands[i], OverAirMode::Ft8));
        r.push((bands[i], OverAirMode::Ft4));
        assert(r@ == stops_of(bands@.take(i + 1)));
        i = i + 1;
    }
    assert(bands@.take(bands@.len() as int) == bands@);
    r
}

/// A band is surveyed, in each of the two modes, exactly where it is in use.
pub proof fn law_only_bands_in_use(bands: Seq<Band>, band: Band, mode: OverAirMode)
    ensures
        stops_of(bands).contains((band, mode)) <==> bands.contains(band) && (mode
            == OverAirMode::Ft8 || mode == OverAirMode::Ft4),
{
    let s = stops_of(bands);
    if s.contains((band, mode)) {
        let k = choose|k: int| 0 <= k < s.len() && s[k] == (band, mode);
        assert(bands[k / 2] == band);
    }
    if bands.contains(band) {
        let i = choose|i: int| 0 <= i < bands.len() && bands[i] == band;
        assert(s[2 * i] == (band, OverAirMode::Ft8));
        assert(s[2 * i + 1] == (band, OverAirMode::Ft4));
    }
}

/// How long ago a survey ended, in words.
pub open spec fn ago_text(then: int, now: int) -> Seq<char> {
    let mins = if now - then > 0 {
        (now - then) / 60_000
    } else {
        0
    };
    if mins == 0 {
        "just now"@
    } else {
        crate::numbers::dec(mins as nat) + " min ago"@
    }
}

/// How long ago a survey ended, in words, at a time in milliseconds since the epoch.
pub fn ago(then_ms: i64, now_ms: i64) -> (r: String)
    requires
        i64::MIN <= now_ms - then_ms <= i64::MAX,
    ensures
        r@ == ago_text(then_ms as int, now_ms as int),
{
    let d: i64 = now_ms - then_ms;
    let mins: i64 = if d > 0 {
        d / 60_000
    } else {
        0
    };
    if mins == 0 {
        owned("just now")
    } else {
        let mut v: Vec<char> = spell(mins as u64);
        append_str(&mut v, " min ago");
        string_of(&v)
    }
}

/// Minutes and seconds, two digits each at least.
pub open spec fn elapsed_text(s: int) -> Seq<char> {
    crate::numbers::padded((s / 60) as nat, 2) + seq![':'] + crate::numbers::padded(
        (s % 60) as nat,
        2,
    )
}

/// Elapsed seconds as minutes and seconds.
pub fn fmt_elapsed(s: u64) -> (r: String)
    ensures
        r@ == elapsed_text(s as int),
{
    let mut v: Vec<char> = spell_padded(s / 60, 2);
    v.push(':');
    append(&mut v, &spell_padded(s % 60, 2));
    string_of(&v)
}

/// How many stations were heard at a stop, how many call CQ, how many are not worked.
pub open spec fn counts_at(v: Seq<BandActivity>, band: Band, mode: OverAirMode) -> (u32, u32, u32)
    decreases v.len(),
{
    if v.len() == 0 {
        (0, 0, 0)
    } else if v[0].band == band && v[0].mode == mode {
        (v[0].heard, v[0].cq, v[0].unworked)
    } else {
        counts_at(v.skip(1), band, mode)
    }
}

/// The place of the first row of a band in a mode.
pub fn find_row(v: &Vec<BandActivity>, band: Band, mode: OverAirMode) -> (r: Option<usize>)
    ensures
        match r {
            Some(i) => i < v@.len() && v@[i as int].band == band && v@[i as int].mode == mode
                && counts_at(v@, band, mode) == (
                v@[i as int].heard,
                v@[i as int].cq,
                v@[i as int].unworked,
            ) && forall|j: int|
                0 <= j < i ==> !((#[trigger] v@[j]).band == band && v@[j].mode == mode),
            None => counts_at(v@, band, mode) == (0u32, 0u32, 0u32) && forall|j: int|
                0 <= j < v@.len() ==> !((#[trigger] v@[j]).band == band && v@[j].mode == mode),
        },
{
    let mut i: usize = 0;
    assert(v@.skip(0) == v@);
    while i < v.len()
        invariant
            i <= v@.len(),
            counts_at(v@, band, mode) == counts_at(v@.skip(i as int), band, mode),
            forall|j: int| 0 <= j < i ==> !((#[trigger] v@[j]).band == band && v@[j].mode == mode),
        decreases v@.len() - i,
    {
        assert(v@.skip(i as int)[0] == v@[i as int]);
        if v[i].band == band && v[i].mode == mode {
            return Some(i);
        }
        assert(v@.skip(i as int).skip(1) == v@.skip(i + 1));
        i = i + 1;
    }
    None
}

/// What stands beside a stop: its counts, or that it is off.
pub open spec fn stop_text(on: bool, counts: (u32, u32, u32)) -> Seq<char> {
    if on {
        crate::numbers::dec(counts.0 as nat) + " heard \u{b7} "@ + crate::numbers::dec(
            counts.1 as nat,
        ) + " cq \u{b7} "@ + crate::numbers::dec(counts.2 as nat) + " unwkd"@
    } else {
        "\u{2014} off"@
    }
}

/// How a stop's line is coloured.
#[derive(Clone, Copy, Debug, PartialEq, Eq, Structural)]
pub enum StopTint {
    /// It is being surveyed.
    Bright,
    /// It is off, or the other mode of its band is being surveyed.
    Dim,
    /// Another band is being surveyed, or none.
    Plain,
}

/// The Band Scan panel.
pub struct BandScan {
    /// Which stops are on.
    pub enabled: Vec<bool>,
    /// When the survey in progress was first seen, in milliseconds of a clock that never
    /// goes back.
    pub scan_start: Option<u64>,
}

impl BandScan {
    /// There is a switch for each stop.
    pub open spec fn wf(&self) -> bool {
        self.enabled@.len() == STOPS
    }

    /// Every stop is on, and no survey is in progress.
    pub fn new() -> (r: Self)
        ensures
            r.wf(),
            forall|k: int| 0 <= k < STOPS ==> #[trigger] r.enabled@[k],
            r.scan_start is None,
    {
        let mut enabled: Vec<bool> = Vec::new();
        let mut i: usize = 0;
        while i < STOPS
            invariant
                i <= STOPS,
                enabled@.len() == i,
                forall|k: int| 0 <= k < i ==> #[trigger] enabled@[k],
            decreases STOPS - i,
        {
            enabled.push(true);
            i = i + 1;
        }
        BandScan { enabled, scan_start: None }
    }

    /// Starts the clock when a survey begins, and clears it when it ends.
    pub fn observe(&mut self, scanning: bool, now_ms: u64)
        ensures
            *final(self) == (BandScan {
                scan_start: if scanning {
                    match old(self).scan_start {
                        Some(t) => Some(t),
                        None => Some(now_ms),
                    }
                } else {
                    None
                },
                ..*old(self)
            }),
    {
        if scanning {
            if self.scan_start.is_none() {
                self.scan_start = Some(now_ms);
            }
        } else {
            self.scan_start = None;
        }
    }

    /// The stops that are on, in their order.
    pub fn selected_stops(&self) -> (r: Vec<(Band, OverAirMode)>)
        requires
            self.wf(),
        ensures
            r@ == stops_on(self.enabled@, STOPS as int),
    {
        let mut r: Vec<(Band, OverAirMode)> = Vec::new();
        let mut k: usize = 0;
        while k < STOPS
            invariant
                k <= STOPS,
                self.wf(),
                r@ == stops_on(self.enabled@, k as int),
            decreases STOPS - k,
        {
            if self.enabled[k] {
                r.push(stop_at(k));
            }
            k = k + 1;
        }
        r
    }

    /// What the key does: it cancels a survey, or starts one over the stops that are on.
    /// It does nothing where none is.
    pub fn key_clicked(&self, scanning: bool) -> (r: Option<ScannerCommand>)
        requires
            self.wf(),
        ensures
            scanning ==> r matches Some(ScannerCommand::Cancel),
            !scanning && stops_on(self.enabled@, STOPS as int).len() == 0 ==> r is None,
            !scanning && stops_on(self.enabled@, STOPS as int).len() > 0 ==> (r matches Some(
                ScannerCommand::StartSurvey { stops, dwell_slots },
            ) && stops@ == stops_on(self.enabled@, STOPS as int) && dwell_slots == DWELL_SLOTS),
            r matches Some(ScannerCommand::StartSurvey { dwell_slots, .. }) ==> dwell_slots == 2,
    {
        if scanning {
            Some(ScannerCommand::Cancel)
        } else {
            let stops: Vec<(Band, OverAirMode)> = self.selected_stops();
            if stops.len() > 0 {
                Some(ScannerCommand::StartSurvey { stops, dwell_slots: DWELL_SLOTS })
            } else {
                None
            }
        }
    }

    /// Turns a stop over. A survey in progress goes on with the new stops; its counts are
    /// kept.
    pub fn toggle(&mut self, k: usize, scanning: bool) -> (r: Option<ScannerCommand>)
        requires
            old(self).wf(),
            k < STOPS,
        ensures
            final(self).wf(),
            final(self).enabled@ == old(self).enabled@.update(
                k as int,
                !old(self).enabled@[k as int],
            ),
            final(self).scan_start == old(self).scan_start,
            !scanning ==> r is None,
            scanning ==> (r matches Some(ScannerCommand::SetStops { stops }) && stops@ == stops_on(
                final(self).enabled@,
                STOPS as int,
            )),
    {
        let on: bool = self.enabled[k];
        self.enabled.set(k, !on);
        if scanning {
            Some(ScannerCommand::SetStops { stops: self.selected_stops() })
        } else {
            None
        }
    }

    /// The header: what is being surveyed and since when, or when the last survey ended.
    pub fn status(&self, state: Option<ScannerState>, now_ms: u64, wall_ms: i64) -> (r: String)
        requires
            state matches Some(s) ==> (s.last_scan matches Some(t) ==> i64::MIN <= wall_ms - t
                <= i64::MAX),
        ensures
            r@ == status_text(state, self.scan_start, now_ms as int, wall_ms as int),
    {
        match state {
            Some(s) => {
                if s.status == ScanStatus::Scanning {
                    let mut v: Vec<char> = chars_of("Scanning ");
                    match s.current {
                        Some(b) => {
                            append_str(&mut v, band_label(b));
                        },
                        None => {},
                    }
                    append_str(&mut v, " \u{2026} ");
                    match self.scan_start {
                        Some(t) => {
                            let ms: u64 = if now_ms > t {
                                now_ms - t
                            } else {
                                0
                            };
                            append_str(&mut v, fmt_elapsed(ms / 1_000).as_str());
                        },
                        None => {},
                    }
                    assert(v@ == status_text(
                        state,
                        self.scan_start,
                        now_ms as int,
                        wall_ms as int,
                    ));
                    string_of(&v)
                } else {
                    match s.last_scan {
                        Some(t) => {
                            let mut v: Vec<char> = chars_of("Last scan: ");
                            append_str(&mut v, ago(t, wall_ms).as_str());
                            string_of(&v)
                        },
                        None => owned("Idle"),
                    }
                }
            },
            None => owned("Idle"),
        }
    }

    /// What stands beside a stop.
    pub fn stop_line(&self, k: usize, activity: &Vec<BandActivity>) -> (r: String)
        requires
            self.wf(),
            k < STOPS,
        ensures
            r@ == stop_text(
                self.enabled@[k as int],
                counts_at(activity@, stop_band(k as int), stop_mode(k as int)),
            ),
    {
        if !self.enabled[k] {
            return owned("\u{2014} off");
        }
        let (band, mode): (Band, OverAirMode) = stop_at(k);
        let (heard, cq, unworked): (u32, u32, u32) = match find_row(activity, band, mode) {
            Some(i) => (activity[i].heard, activity[i].cq, activity[i].unworked),
            None => (0, 0, 0),
        };
        let mut v: Vec<char> = spell(heard as u64);
        append_str(&mut v, " heard \u{b7} ");
        append(&mut v, &spell(cq as u64));
        append_str(&mut v, " cq \u{b7} ");
        append(&mut v, &spell(unworked as u64));
        append_str(&mut v, " unwkd");
        string_of(&v)
    }

    /// How a stop's line is coloured.
    pub fn stop_tint(
        &self,
        k: usize,
        current: Option<Band>,
        current_mode: Option<OverAirMode>,
    ) -> (r: StopTint)
        requires
            self.wf(),
            k < STOPS,
        ensures
            r == (if !self.enabled@[k as int] {
                StopTint::Dim
            } else if current != Some(stop_band(k as int)) {
                StopTint::Plain
            } else if current_mode == Some(stop_mode(k as int)) {
                StopTint::Bright
            } else {
                StopTint::Dim
            }),
    {
        if !self.enabled[k] {
            return StopTint::Dim;
        }
        let (band, mode): (Band, OverAirMode) = stop_at(k);
        let here: bool = match current {
            Some(b) => b == band,
            None => false,
        };
        let now: bool = match current_mode {
            Some(m) => m == mode,
            None => false,
        };
        if here && now {
            StopTint::Bright
        } else if here {
            StopTint::Dim
        } else {
            StopTint::Plain
        }
    }
}

/// The header of the panel.
pub open spec fn status_text(
    state: Option<ScannerState>,
    start: Option<u64>,
    now: int,
    wall: int,
) -> Seq<char> {
    match state {
        Some(s) => if s.status == ScanStatus::Scanning {
            "Scanning "@ + (match s.current {
                Some(b) => crate::format::band_full(b),
                None => Seq::empty(),
            }) + " \u{2026} "@ + (match start {
                Some(t) => elapsed_text(
                    if now > t {
                        (now - t) / 1_000
                    } else {
                        0
                    },
                ),
                None => Seq::empty(),
            })
        } else {
            match s.last_scan {
                Some(t) => "Last scan: "@ + ago_text(t as int, wall),
                None => "Idle"@,
            }
        },
        None => "Idle"@,
    }
}

/// The word on the key.
pub fn key_label(scanning: bool) -> (s: &'static str)
    ensures
        s@ == (if scanning {
            "CANCEL"@
        } else {
            "SCAN"@
        }),
{
    if scanning {
        "CANCEL"
    } else {
        "SCAN"
    }
}

/// Turning a stop over twice leaves the survey as it was.
pub proof fn law_toggle_twice(on: Seq<bool>, k: int)
    requires
        0 <= k < on.len(),
    ensures
        on.update(k, !on[k]).update(k, !on.update(k, !on[k])[k]) == on,
{
}

} // verus!
