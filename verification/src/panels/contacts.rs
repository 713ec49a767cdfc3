//! The Contacts panel: a map of the stations that were worked or heard on one band.

use vstd::prelude::*;

use crate::bus_view::MapSpot;
use crate::numbers::spell;
use crate::panel_data::grid_to_lonlat;
use crate::panels::waterfall::config_form::has_band;
use crate::text::{append_str, same_ignoring_case, same_str, string_of};
use crate::types::{Band, Callsign, DecodeRef, Selection, SelectionContext, SlotId, clone_text};

verus! {

/// How long a contact counts as recent, in milliseconds.
pub const RECENT_MS: i64 = 86_400_000;

/// Over what time a heard station fades, in milliseconds.
pub const FADE_MS: i64 = 3_600_000;

/// How near to a marker a click must be, in pixels: 10, as the bit pattern of a 32-bit
/// float.
pub const HIT_RADIUS: u32 = 0x4120_0000;

/// Where the operator is taken to be when the grid cannot be read, in seconds of arc.
pub const HOME_LON: i32 = -378_360;

/// See [`HOME_LON`].
pub const HOME_LAT: i32 = 144_000;

/// The shape of a marker.
#[derive(Clone, Copy, Debug, PartialEq, Eq, Structural)]
pub enum Marker {
    /// Heard.
    Circle,
    /// Worked.
    Plus,
    /// Heard, and calling CQ.
    Disc,
}

/// The Contacts panel.
pub struct Contacts {
    /// Whether only recent contacts are shown.
    pub recent: bool,
    /// Whether stations that were heard but not worked are shown.
    pub unworked: bool,
    /// The band that is shown.
    pub band: Band,
    /// The station that was selected when the map was last drawn.
    pub last_selected: Option<String>,
}

/// The spots of a list on a band, from a time on.
pub open spec fn on_band(v: Seq<MapSpot>, n: int, band: Band, since: Option<int>) -> Seq<MapSpot>
    decreases n,
{
    if n <= 0 {
        Seq::empty()
    } else {
        let s = v[n - 1];
        if s.band == Some(band) && (since matches Some(t) ==> s.last_ms >= t) {
            on_band(v, n - 1, band, since).push(s)
        } else {
            on_band(v, n - 1, band, since)
        }
    }
}

/// Whether a spot of a list has a call.
pub open spec fn has_spot(v: Seq<MapSpot>, call: Seq<char>) -> bool {
    exists|i: int| 0 <= i < v.len() && (#[trigger] v[i]).call@ == call
}

/// The heard spots of a list on a band whose calls are not among the worked ones.
pub open spec fn not_worked(v: Seq<MapSpot>, n: int, band: Band, worked: Seq<MapSpot>) -> Seq<
    MapSpot,
>
    decreases n,
{
    if n <= 0 {
        Seq::empty()
    } else {
        let s = v[n - 1];
        if s.band == Some(band) && !has_spot(worked, s.call@) {
            not_worked(v, n - 1, band, worked).push(s)
        } else {
            not_worked(v, n - 1, band, worked)
        }
    }
}

/// The worked spots that a panel shows.
pub open spec fn worked_shown(
    worked: Seq<MapSpot>,
    band: Band,
    recent: bool,
    now: int,
) -> Seq<MapSpot> {
    let since = if recent {
        Some(now - RECENT_MS)
    } else {
        None
    };
    on_band(worked, worked.len() as int, band, since)
}

/// The spots that a panel shows: the worked ones of the band, then the heard ones that
/// are not among them.
pub open spec fn shown(
    worked: Seq<MapSpot>,
    heard: Seq<MapSpot>,
    band: Band,
    recent: bool,
    unworked: bool,
    now: int,
) -> Seq<MapSpot> {
    let w = worked_shown(worked, band, recent, now);
    if unworked {
        w + not_worked(heard, heard.len() as int, band, w)
    } else {
        w
    }
}

fn holds_spot(v: &Vec<MapSpot>, call: &str) -> (r: bool)
    ensures
        r == has_spot(v@, call@),
{
    let mut i: usize = 0;
    while i < v.len()
        invariant
            i <= v@.len(),
            forall|j: int| 0 <= j < i ==> (#[trigger] v@[j]).call@ != call@,
        decreases v@.len() - i,
    {
        if same_str(v[i].call.as_str(), call) {
            return true;
        }
        i = i + 1;
    }
    false
}

/// What a click on a spot selects: who, and where it was last heard.
pub open spec fn picked(s: MapSpot) -> Selection {
    Selection {
        target: Some(
            DecodeRef {
                slot: match s.slot {
                    Some(n) => n,
                    None => SlotId(0),
                },
                call: Some(Callsign(s.call)),
            },
        ),
        context: match s.abs {
            Some(f) => Some(SelectionContext::AbsFreq(f)),
            None => None,
        },
    }
}

/// What a click on a spot selects. Nothing else happens: who operates decides what to do
/// about it.
pub fn pick_station(spot: &MapSpot) -> (r: Selection)
    ensures
        r == picked(*spot),
{
    Selection {
        target: Some(
            DecodeRef {
                slot: match spot.slot {
                    Some(n) => n,
                    None => SlotId(0),
                },
                call: Some(Callsign(spot.call.clone())),
            },
        ),
        context: match spot.abs {
            Some(f) => Some(SelectionContext::AbsFreq(f)),
            None => None,
        },
    }
}

/// A click on the map selects the station by its call, and its frequency where that is
/// known. A station of which only the log knows gives no place to tune to.
pub proof fn law_pick_is_a_selection(s: MapSpot)
    ensures
        picked(s).target matches Some(t) && t.call == Some(Callsign(s.call)),
        s.abs is None <==> picked(s).context is None,
        s.abs matches Some(f) ==> picked(s).context == Some(SelectionContext::AbsFreq(f)),
{
}

/// The first spot of a list with a call, in any case; their number where there is none.
pub open spec fn spot_at(v: Seq<MapSpot>, call: Seq<char>) -> int
    decreases v.len(),
{
    if v.len() == 0 {
        0
    } else if crate::text::same_letters(v[0].call@, call) {
        0
    } else {
        1 + spot_at(v.skip(1), call)
    }
}

/// The first spot of a list with a call, in any case.
pub fn find_spot(v: &Vec<MapSpot>, call: &str) -> (r: Option<usize>)
    ensures
        match r {
            Some(i) => i < v@.len() && i == spot_at(v@, call@),
            None => spot_at(v@, call@) == v@.len(),
        },
{
    let mut i: usize = 0;
    assert(v@.skip(0) == v@);
    while i < v.len()
        invariant
            i <= v@.len(),
            spot_at(v@, call@) == i + spot_at(v@.skip(i as int), call@),
        decreases v@.len() - i,
    {
        assert(v@.skip(i as int)[0] == v@[i as int]);
        if same_ignoring_case(v[i].call.as_str(), call) {
            return Some(i);
        }
        assert(v@.skip(i as int).skip(1) == v@.skip(i + 1));
        i = i + 1;
    }
    None
}

/// The shape of a spot's marker.
pub fn marker(spot: &MapSpot) -> (r: Marker)
    ensures
        r == (if spot.worked {
            Marker::Plus
        } else if spot.cq {
            Marker::Disc
        } else {
            Marker::Circle
        }),
{
    if spot.worked {
        Marker::Plus
    } else if spot.cq {
        Marker::Disc
    } else {
        Marker::Circle
    }
}

/// The places of the spots of the first `n` that are worked, or of those that are not.
pub open spec fn places(v: Seq<MapSpot>, n: int, worked: bool) -> Seq<usize>
    decreases n,
{
    if n <= 0 {
        Seq::empty()
    } else if v[n - 1].worked == worked {
        places(v, n - 1, worked).push((n - 1) as usize)
    } else {
        places(v, n - 1, worked)
    }
}

/// In which order spots are drawn: the worked ones last, so that they are on top.
pub fn draw_order(v: &Vec<MapSpot>) -> (r: Vec<usize>)
    ensures
        r@ == places(v@, v@.len() as int, false) + places(v@, v@.len() as int, true),
{
    let mut r: Vec<usize> = Vec::new();
    let mut i: usize = 0;
    while i < v.len()
        invariant
            i <= v@.len(),
            r@ == places(v@, i as int, false),
        decreases v@.len() - i,
    {
        if !v[i].worked {
            r.push(i);
        }
        i = i + 1;
    }
    let ghost first = r@;
    let mut k: usize = 0;
    while k < v.len()
        invariant
            k <= v@.len(),
            r@ == first + places(v@, k as int, true),
        decreases v@.len() - k,
    {
        if v[k].worked {
            r.push(k);
        }
        k = k + 1;
    }
    r
}

/// How far a heard station has faded at `now`, from 0 to [`FADE_MS`].
pub open spec fn faded(now: int, last: int) -> int {
    if now - last < 0 {
        0
    } else if now - last > FADE_MS {
        FADE_MS as int
    } else {
        now - last
    }
}

/// How far a heard station has faded, from 0 to [`FADE_MS`].
pub fn fade_ms(now_ms: i64, last_ms: i64) -> (r: i64)
    requires
        i64::MIN <= now_ms - last_ms <= i64::MAX,
    ensures
        r == faded(now_ms as int, last_ms as int),
{
    let age: i64 = now_ms - last_ms;
    if age < 0 {
        0
    } else if age > FADE_MS {
        FADE_MS
    } else {
        age
    }
}

/// The first of the nearest markers among the first `n` that are near enough to a click.
/// The distances are bit patterns of 32-bit floats that are not negative, which order as
/// the numbers do. A station with no place on the map has none.
pub open spec fn nearest(d: Seq<Option<u32>>, n: int) -> Option<int>
    decreases n,
{
    if n <= 0 {
        None
    } else {
        match (d[n - 1], nearest(d, n - 1)) {
            (Some(x), Some(i)) => if x < d[i]->Some_0 {
                Some(n - 1)
            } else {
                Some(i)
            },
            (Some(x), None) => if x <= HIT_RADIUS {
                Some(n - 1)
            } else {
                None
            },
            (None, m) => m,
        }
    }
}

/// Which marker a click hits: the nearest that is near enough.
pub fn hit(distances: &Vec<Option<u32>>) -> (r: Option<usize>)
    ensures
        match r {
            Some(i) => nearest(distances@, distances@.len() as int) == Some(i as int),
            None => nearest(distances@, distances@.len() as int) is None,
        },
{
    let mut best: Option<usize> = None;
    let mut best_d: u32 = 0;
    let mut i: usize = 0;
    while i < distances.len()
        invariant
            i <= distances@.len(),
            match best {
                Some(k) => nearest(distances@, i as int) == Some(k as int)
                    && distances@[k as int] == Some(best_d),
                None => nearest(distances@, i as int) is None,
            },
        decreases distances@.len() - i,
    {
        match distances[i] {
            Some(x) => {
                if match best {
                    Some(_) => x < best_d,
                    None => x <= HIT_RADIUS,
                } {
                    best = Some(i);
                    best_d = x;
                }
            },
            None => {},
        }
        i = i + 1;
    }
    best
}

/// A click hits a marker that is near enough, and none is nearer.
pub proof fn law_hit_is_nearest(d: Seq<Option<u32>>, n: int)
    requires
        0 <= n <= d.len(),
    ensures
        match nearest(d, n) {
            Some(i) => 0 <= i < n && (d[i] matches Some(x) && x <= HIT_RADIUS && forall|k: int|
                0 <= k < n && (#[trigger] d[k]) is Some ==> x <= d[k]->Some_0),
            None => forall|k: int| 0 <= k < n ==> ((#[trigger] d[k]) matches Some(x) ==> x > HIT_RADIUS),
        },
    decreases n,
{
    if n > 0 {
        law_hit_is_nearest(d, n - 1);
    }
}

/// Where the operator is, in seconds of arc.
pub open spec fn home_of(grid: Seq<char>) -> (int, int) {
    match crate::panel_data::grid_cell(
        crate::panel_data::bytes_of(crate::text::trim(grid)),
    ) {
        Some(g) => (g.lon as int, g.lat as int),
        None => (HOME_LON as int, HOME_LAT as int),
    }
}

/// Where the operator is: the centre of the grid, or a fixed place where the grid cannot
/// be read.
pub fn home(grid: &str) -> (r: (i32, i32))
    ensures
        (r.0 as int, r.1 as int) == home_of(grid@),
{
    match grid_to_lonlat(grid) {
        Some(g) => (g.lon, g.lat),
        None => (HOME_LON, HOME_LAT),
    }
}

/// How many spots are shown, in words.
pub fn spot_count_text(n: usize) -> (r: String)
    ensures
        r@ == crate::numbers::dec(n as nat) + " spots"@,
{
    let mut v: Vec<char> = spell(n as u64);
    append_str(&mut v, " spots");
    string_of(&v)
}

impl Contacts {
    /// Recent contacts and unworked stations of 20 m.
    pub fn new() -> (r: Self)
        ensures
            r.recent,
            r.unworked,
            r.band == Band::B20m,
            r.last_selected is None,
    {
        Contacts { recent: true, unworked: true, band: Band::B20m, last_selected: None }
    }

    /// Shows the first of the active bands where its own is no longer among them.
    pub fn keep_band(&mut self, bands: &Vec<Band>)
        requires
            bands@.len() > 0,
        ensures
            *final(self) == (Contacts { band: final(self).band, ..*old(self) }),
            final(self).band == (if bands@.contains(old(self).band) {
                old(self).band
            } else {
                bands@[0]
            }),
            bands@.contains(final(self).band),
    {
        if !has_band(bands, self.band) {
            self.band = bands[0];
        }
    }

    /// Shows the band at a place of the switch.
    pub fn choose_band(&mut self, bands: &Vec<Band>, i: usize)
        requires
            i < bands@.len(),
        ensures
            *final(self) == (Contacts { band: bands@[i as int], ..*old(self) }),
    {
        self.band = bands[i];
    }

    /// Turns one of the two toggles over.
    pub fn toggle(&mut self, i: usize)
        requires
            i < 2,
        ensures
            *final(self) == (if i == 0 {
                Contacts { recent: !old(self).recent, ..*old(self) }
            } else {
                Contacts { unworked: !old(self).unworked, ..*old(self) }
            }),
    {
        if i == 0 {
            self.recent = !self.recent;
        } else {
            self.unworked = !self.unworked;
        }
    }

    /// The spots that the map shows.
    pub fn spots(&self, worked: &Vec<MapSpot>, heard: &Vec<MapSpot>, now_ms: i64) -> (r: Vec<
        MapSpot,
    >)
        requires
            now_ms - RECENT_MS >= i64::MIN,
        ensures
            r@ == shown(
                worked@,
                heard@,
                self.band,
                self.recent,
                self.unworked,
                now_ms as int,
            ),
    {
        let cutoff: i64 = now_ms - RECENT_MS;
        let ghost since = if self.recent {
            Some(now_ms - RECENT_MS)
        } else {
            None
        };
        let mut w: Vec<MapSpot> = Vec::new();
        let mut i: usize = 0;
        while i < worked.len()
            invariant
                i <= worked@.len(),
                cutoff == now_ms - RECENT_MS,
                since == (if self.recent {
                    Some(now_ms - RECENT_MS)
                } else {
                    None::<int>
                }),
                w@ == on_band(worked@, i as int, self.band, since),
            decreases worked@.len() - i,
        {
            let s: &MapSpot = &worked[i];
            let here: bool = match s.band {
                Some(b) => b == self.band,
                None => false,
            };
            if here && (!self.recent || s.last_ms >= cutoff) {
                w.push(s.clone());
            }
            i = i + 1;
        }
        if !self.unworked {
            return w;
        }
        let ghost first = w@;
        let mut r: Vec<MapSpot> = Vec::new();
        let mut k: usize = 0;
        while k < heard.len()
            invariant
                k <= heard@.len(),
                w@ == first,
                r@ == not_worked(heard@, k as int, self.band, first),
            decreases heard@.len() - k,
        {
            let s: &MapSpot = &heard[k];
            let here: bool = match s.band {
                Some(b) => b == self.band,
                None => false,
            };
            if here && !holds_spot(&w, s.call.as_str()) {
                r.push(s.clone());
            }
            k = k + 1;
        }
        w.append(&mut r);
        w
    }

    /// Notes the selected station. True where the view goes back to all stations: when
    /// the selection has changed to a station that the view does not show.
    ///
    /// `on_view` says whether the selected station is in view, where it has a place.
    pub fn observe_selection(&mut self, selected: &Option<String>, on_view: Option<bool>) -> (r:
        bool)
        ensures
            *final(self) == (Contacts { last_selected: *selected, ..*old(self) }),
            r == (on_view == Some(false) && match (old(self).last_selected, *selected) {
                (_, None) => false,
                (None, Some(_)) => true,
                (Some(a), Some(b)) => a@ != b@,
            }),
    {
        let changed: bool = match (&self.last_selected, selected) {
            (_, None) => false,
            (None, Some(_)) => true,
            (Some(a), Some(b)) => !same_str(a.as_str(), b.as_str()),
        };
        self.last_selected = clone_text(selected);
        let hidden: bool = match on_view {
            Some(b) => !b,
            None => false,
        };
        changed && hidden
    }
}

proof fn lemma_on_band(v: Seq<MapSpot>, n: int, band: Band, since: Option<int>)
    requires
        0 <= n <= v.len(),
    ensures
        forall|k: int|
            0 <= k < on_band(v, n, band, since).len() ==> {
                let s = #[trigger] on_band(v, n, band, since)[k];
                s.band == Some(band) && (since matches Some(t) ==> s.last_ms >= t)
            },
    decreases n,
{
    if n > 0 {
        lemma_on_band(v, n - 1, band, since);
    }
}

proof fn lemma_not_worked(v: Seq<MapSpot>, n: int, band: Band, worked: Seq<MapSpot>)
    requires
        0 <= n <= v.len(),
    ensures
        forall|k: int|
            0 <= k < not_worked(v, n, band, worked).len() ==> {
                let s = #[trigger] not_worked(v, n, band, worked)[k];
                s.band == Some(band) && !has_spot(worked, s.call@)
            },
    decreases n,
{
    if n > 0 {
        lemma_not_worked(v, n - 1, band, worked);
    }
}

/// The map shows its own band only. A call that is shown as worked is not shown as heard
/// as well; and nothing that was only heard is shown where unworked stations are off.
pub proof fn law_map_is_of_one_band(
    worked: Seq<MapSpot>,
    heard: Seq<MapSpot>,
    band: Band,
    recent: bool,
    unworked: bool,
    now: int,
)
    ensures
        ({
            let all = shown(worked, heard, band, recent, unworked, now);
            let w = worked_shown(worked, band, recent, now);
            &&& forall|k: int| 0 <= k < all.len() ==> (#[trigger] all[k]).band == Some(band)
            &&& all.take(w.len() as int) == w
            &&& forall|k: int|
                0 <= k < w.len() && recent ==> (#[trigger] w[k]).last_ms >= now - RECENT_MS
            &&& forall|k: int|
                w.len() <= k < all.len() ==> unworked && !has_spot(w, (#[trigger] all[k]).call@)
        }),
{
    let w = worked_shown(worked, band, recent, now);
    let since = if recent {
        Some(now - RECENT_MS)
    } else {
        None
    };
    lemma_on_band(worked, worked.len() as int, band, since);
    lemma_not_worked(heard, heard.len() as int, band, w);
    assert(shown(worked, heard, band, recent, unworked, now).take(w.len() as int) == w);
}

} // verus!
