//! Choices of the operator that the configuration file keeps: the bands that the station
//! can use, and the contest that it takes part in.

use vstd::prelude::*;
use vstd::slice::slice_subrange;

use crate::config_toml::update_toml_table;
use crate::format::band_label;
use crate::panels::waterfall::config_form::has_band;
use crate::settings::{base_of, read_value, Station};
use crate::text::{
    append_str, chars_of, owned, position, same, same_str, string_of, to_uppercase, trimmed,
};
use crate::types::{Band, Callsign, ContestProfile, GridSquare, Section, StationConfig};

verus! {

/// The band that a name stands for.
pub open spec fn band_called(name: Seq<char>) -> Option<Band> {
    if name == crate::format::band_full(Band::B160m) {
        Some(Band::B160m)
    } else if name == crate::format::band_full(Band::B80m) {
        Some(Band::B80m)
    } else if name == crate::format::band_full(Band::B40m) {
        Some(Band::B40m)
    } else if name == crate::format::band_full(Band::B30m) {
        Some(Band::B30m)
    } else if name == crate::format::band_full(Band::B20m) {
        Some(Band::B20m)
    } else if name == crate::format::band_full(Band::B17m) {
        Some(Band::B17m)
    } else if name == crate::format::band_full(Band::B15m) {
        Some(Band::B15m)
    } else if name == crate::format::band_full(Band::B12m) {
        Some(Band::B12m)
    } else if name == crate::format::band_full(Band::B10m) {
        Some(Band::B10m)
    } else if name == crate::format::band_full(Band::B6m) {
        Some(Band::B6m)
    } else {
        None
    }
}

/// Whether a text is the name of a band.
fn is_called(name: &[char], b: Band) -> (r: bool)
    ensures
        r == (name@ == crate::format::band_full(b)),
{
    same(name, &chars_of(band_label(b)))
}

/// The band that a name stands for: `40m`.
fn find_band(name: &[char]) -> (r: Option<Band>)
    ensures
        r == band_called(name@),
{
    if is_called(name, Band::B160m) {
        Some(Band::B160m)
    } else if is_called(name, Band::B80m) {
        Some(Band::B80m)
    } else if is_called(name, Band::B40m) {
        Some(Band::B40m)
    } else if is_called(name, Band::B30m) {
        Some(Band::B30m)
    } else if is_called(name, Band::B20m) {
        Some(Band::B20m)
    } else if is_called(name, Band::B17m) {
        Some(Band::B17m)
    } else if is_called(name, Band::B15m) {
        Some(Band::B15m)
    } else if is_called(name, Band::B12m) {
        Some(Band::B12m)
    } else if is_called(name, Band::B10m) {
        Some(Band::B10m)
    } else if is_called(name, Band::B6m) {
        Some(Band::B6m)
    } else {
        None
    }
}

/// The bands whose names stand between the commas of a text, in their order. What is no
/// name of a band is passed over.
pub open spec fn bands_in(s: Seq<char>) -> Seq<Band>
    decreases s.len(),
{
    let n = crate::text::find(s, ',');
    proof {
        crate::text::lemma_find_first(s, ',');
    }
    let here = match band_called(crate::text::trim(s.take(n))) {
        Some(b) => seq![b],
        None => Seq::empty(),
    };
    if n < s.len() {
        here + bands_in(s.skip(n + 1))
    } else {
        here
    }
}

/// Finds the bands in a text.
fn find_bands(s: &[char]) -> (r: Vec<Band>)
    ensures
        r@ == bands_in(s@),
{
    let mut r: Vec<Band> = Vec::new();
    let mut at: usize = 0;
    assert(s@.skip(0) == s@);
    assert(r@ + bands_in(s@) == bands_in(s@));
    loop
        invariant
            at <= s@.len(),
            r@ + bands_in(s@.skip(at as int)) == bands_in(s@),
        decreases s@.len() - at,
    {
        let rest: &[char] = slice_subrange(s, at, s.len());
        assert(rest@ == s@.skip(at as int));
        proof {
            crate::text::lemma_find_first(rest@, ',');
        }
        let n: usize = position(rest, ',');
        let name: &[char] = trimmed(slice_subrange(rest, 0, n));
        assert(rest@.subrange(0, n as int) == rest@.take(n as int));
        let ghost done = r@;
        let ghost here = match band_called(name@) {
            Some(b) => seq![b],
            None => Seq::<Band>::empty(),
        };
        if let Some(b) = find_band(name) {
            r.push(b);
        }
        assert(r@ == done + here);
        if n == rest.len() {
            return r;
        }
        at = at + n + 1;
        assert(rest@.skip(n + 1) == s@.skip(at as int));
        assert(done + (here + bands_in(s@.skip(at as int))) == done + here + bands_in(
            s@.skip(at as int),
        ));
    }
}

/// Names of bands, each behind a comma.
pub open spec fn further_names(bs: Seq<Band>) -> Seq<char>
    decreases bs.len(),
{
    if bs.len() == 0 {
        Seq::empty()
    } else {
        seq![',', ' '] + crate::format::band_full(bs[0]) + further_names(bs.skip(1))
    }
}

/// The text that bands are kept as: their names with commas between them, or `none`.
pub open spec fn names_of(bs: Seq<Band>) -> Seq<char> {
    if bs.len() == 0 {
        "none"@
    } else {
        crate::format::band_full(bs[0]) + further_names(bs.skip(1))
    }
}

/// Spells the text that bands are kept as.
fn spell_names(bs: &Vec<Band>) -> (r: String)
    ensures
        r@ == names_of(bs@),
{
    if bs.len() == 0 {
        return owned("none");
    }
    let mut v: Vec<char> = chars_of(band_label(bs[0]));
    let mut i: usize = 1;
    while i < bs.len()
        invariant
            0 < i <= bs@.len(),
            v@ + further_names(bs@.skip(i as int)) == names_of(bs@),
        decreases bs@.len() - i,
    {
        let ghost done = v@;
        let ghost name = crate::format::band_full(bs@[i as int]);
        v.push(',');
        v.push(' ');
        append_str(&mut v, band_label(bs[i]));
        assert(bs@.skip(i as int)[0] == bs@[i as int]);
        assert(bs@.skip(i as int).skip(1) == bs@.skip(i + 1));
        assert(v@ == done + (seq![',', ' '] + name));
        assert(v@ + further_names(bs@.skip(i + 1)) == done + (seq![',', ' '] + name
            + further_names(bs@.skip(i + 1))));
        i = i + 1;
    }
    assert(further_names(bs@.skip(bs@.len() as int)) == Seq::<char>::empty());
    assert(v@ == v@ + further_names(bs@.skip(bs@.len() as int)));
    string_of(&v)
}

/// The file with the bands that the station can use.
pub open spec fn bands_text(existing: Option<Seq<char>>, bs: Seq<Band>) -> Seq<char> {
    crate::config_toml::updated(
        crate::settings::base_text(existing),
        "bands"@,
        seq![("list"@, names_of(bs))],
    )
}

/// The file with the bands that the station can use, in `[bands] list`.
pub fn save_active_bands(existing: Option<&str>, bands: &Vec<Band>) -> (r: String)
    ensures
        r@ == bands_text(crate::settings::view_of(existing), bands@),
{
    let names: String = spell_names(bands);
    let mut kvs: Vec<(&str, &str)> = Vec::new();
    kvs.push(("list", names.as_str()));
    assert(crate::config_toml::pairs(kvs@) == seq![("list"@, names_of(bands@))]);
    update_toml_table(base_of(existing), "bands", kvs.as_slice())
}

/// The bands that a kept value stands for. A value that names no band and does not say
/// `none` counts as unset.
pub open spec fn kept_bands(v: Option<Seq<char>>) -> Option<Seq<Band>> {
    match v {
        Some(s) => if s == "none"@ {
            Some(Seq::empty())
        } else if bands_in(s).len() > 0 {
            Some(bands_in(s))
        } else {
            None
        },
        None => None,
    }
}

/// The bands of an optional list.
pub open spec fn opt_bands(o: Option<Vec<Band>>) -> Option<Seq<Band>> {
    match o {
        Some(v) => Some(v@),
        None => None,
    }
}

/// The bands that are kept in `[bands] list`; `None` when it is unset.
pub fn read_active_bands(config: Option<&str>) -> (r: Option<Vec<Band>>)
    ensures
        opt_bands(r) == kept_bands(
            crate::settings::file_value(crate::settings::view_of(config), "bands"@, "list"@),
        ),
{
    match read_value(config, "bands", "list") {
        Some(s) => {
            if same_str(s.as_str(), "none") {
                return Some(Vec::new());
            }
            let bands: Vec<Band> = find_bands(&chars_of(s.as_str()));
            if bands.len() > 0 {
                Some(bands)
            } else {
                None
            }
        },
        None => None,
    }
}

/// The bands in use at the start: those of `universe` that are kept, in the order of
/// `universe`; all of them where none were ever chosen.
pub open spec fn bands_at_start(universe: Seq<Band>, kept: Option<Seq<Band>>) -> Seq<Band> {
    match kept {
        Some(chosen) => crate::panels::waterfall::config_form::in_order(universe, chosen),
        None => universe,
    }
}

/// The bands in use at the start.
pub fn starting_bands(config: Option<&str>, universe: &Vec<Band>) -> (r: Vec<Band>)
    ensures
        r@ == bands_at_start(
            universe@,
            kept_bands(
                crate::settings::file_value(crate::settings::view_of(config), "bands"@, "list"@),
            ),
        ),
{
    let kept: Option<Vec<Band>> = read_active_bands(config);
    let mut r: Vec<Band> = Vec::new();
    let mut i: usize = 0;
    assert(universe@.take(0) == Seq::<Band>::empty());
    while i < universe.len()
        invariant
            i <= universe.len(),
            r@ == bands_at_start(universe@.take(i as int), opt_bands(kept)),
        decreases universe.len() - i,
    {
        assert(universe@.take(i + 1).drop_last() == universe@.take(i as int));
        let on: bool = match &kept {
            Some(k) => has_band(k, universe[i]),
            None => true,
        };
        if on {
            r.push(universe[i]);
        }
        i = i + 1;
    }
    assert(universe@.take(universe@.len() as int) == universe@);
    r
}

/// The contest that the station takes part in, and what it sends there in place of the
/// grid: its class and its section.
pub struct Contest {
    pub profile: ContestProfile,
    pub class: String,
    pub section: String,
}

/// The word that a contest is kept under.
pub open spec fn contest_kept(c: ContestProfile) -> Seq<char> {
    match c {
        ContestProfile::Standard => "none"@,
        ContestProfile::ArrlFieldDay => "field-day"@,
    }
}

/// The contest that a kept value stands for; none for any other value.
pub open spec fn contest_in(v: Option<Seq<char>>) -> ContestProfile {
    if v == Some("field-day"@) {
        ContestProfile::ArrlFieldDay
    } else {
        ContestProfile::Standard
    }
}

/// What a field of the exchange is taken from: the file, else what stands for it there.
pub open spec fn exchange_word(v: Option<Seq<char>>, default: Seq<char>) -> Seq<char> {
    match v {
        Some(s) => s,
        None => default,
    }
}

/// The entries of `[station]` for a contest.
pub open spec fn contest_pairs(c: Contest) -> Seq<(Seq<char>, Seq<char>)> {
    seq![
        ("contest"@, contest_kept(c.profile)),
        ("fd_class"@, c.class@),
        ("fd_section"@, c.section@),
    ]
}

/// The text of the file that keeps an identity and a contest.
pub open spec fn operator_text(
    existing: Option<Seq<char>>,
    call: Seq<char>,
    grid: Seq<char>,
    c: Contest,
) -> Seq<char> {
    crate::config_toml::updated(
        crate::settings::station_text(existing, call, grid),
        "station"@,
        contest_pairs(c),
    )
}

/// The file with the operator's identity and contest.
pub fn save_operator(existing: Option<&str>, station: &Station, c: &Contest) -> (r: String)
    ensures
        r@ == operator_text(
            crate::settings::view_of(existing),
            station.call@,
            station.grid@,
            *c,
        ),
{
    let text: String = station.save(existing);
    let word: &'static str = match c.profile {
        ContestProfile::Standard => "none",
        ContestProfile::ArrlFieldDay => "field-day",
    };
    let mut kvs: Vec<(&str, &str)> = Vec::new();
    kvs.push(("contest", word));
    kvs.push(("fd_class", c.class.as_str()));
    kvs.push(("fd_section", c.section.as_str()));
    assert(crate::config_toml::pairs(kvs@) == contest_pairs(*c));
    update_toml_table(text.as_str(), "station", kvs.as_slice())
}

/// A field of the exchange from the file, in upper case.
fn load_field(config: Option<&str>, key: &str, default: &str) -> (r: String)
    ensures
        crate::settings::is_identity_of(
            r@,
            exchange_word(
                crate::settings::file_value(crate::settings::view_of(config), "station"@, key@),
                default@,
            ),
        ),
{
    match read_value(config, "station", key) {
        Some(s) => to_uppercase(s.as_str()),
        None => to_uppercase(default),
    }
}

impl Contest {
    /// The contest in the file, else none. What the exchange lacks is `1B` and `CO`.
    pub fn load(config: Option<&str>) -> (r: Self)
        ensures
            r.profile == contest_in(
                crate::settings::file_value(
                    crate::settings::view_of(config),
                    "station"@,
                    "contest"@,
                ),
            ),
            crate::settings::is_identity_of(
                r.class@,
                exchange_word(
                    crate::settings::file_value(
                        crate::settings::view_of(config),
                        "station"@,
                        "fd_class"@,
                    ),
                    "1B"@,
                ),
            ),
            crate::settings::is_identity_of(
                r.section@,
                exchange_word(
                    crate::settings::file_value(
                        crate::settings::view_of(config),
                        "station"@,
                        "fd_section"@,
                    ),
                    "CO"@,
                ),
            ),
    {
        let profile: ContestProfile = match read_value(config, "station", "contest") {
            Some(s) => if same_str(s.as_str(), "field-day") {
                ContestProfile::ArrlFieldDay
            } else {
                ContestProfile::Standard
            },
            None => ContestProfile::Standard,
        };
        Contest {
            profile,
            class: load_field(config, "fd_class", "1B"),
            section: load_field(config, "fd_section", "CO"),
        }
    }

    /// What outgoing messages are made from: the station's identity, and this contest.
    pub fn station_config(&self, station: &Station) -> (r: StationConfig)
        ensures
            r.call.0@ == station.call@,
            r.grid.0@ == station.grid@,
            r.contest == self.profile,
            r.fd_class@ == self.class@,
            r.fd_section.0@ == self.section@,
    {
        StationConfig {
            call: Callsign(station.call.clone()),
            grid: GridSquare(station.grid.clone()),
            fd_class: self.class.clone(),
            fd_section: Section(self.section.clone()),
            contest: self.profile,
        }
    }
}

} // verus!
