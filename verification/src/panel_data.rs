//! Where stations stand on the map.
//!
//! A station sends a Maidenhead locator, or a section on Field Day. Either gives a region
//! of the earth. The station is shown in it, off the centre by an offset that its call
//! gives, so that the stations of one region do not cover each other; and on land, where
//! the region has any.

use vstd::prelude::*;

use crate::text::{chars_of, same, string_of, trimmed, upper_text};

verus! {

/// Where the place of a station comes from.
#[derive(Debug, PartialEq)]
pub enum Locator {
    Grid(String),
    Section(String),
}

impl Clone for Locator {
    fn clone(&self) -> (r: Self)
        ensures
            r == *self,
    {
        match self {
            Locator::Grid(s) => Locator::Grid(s.clone()),
            Locator::Section(s) => Locator::Section(s.clone()),
        }
    }
}

/// A region of the earth: its centre and its size, in seconds of arc.
#[derive(Clone, Copy, Debug, PartialEq, Eq, Structural)]
pub struct GridLoc {
    pub lon: i32,
    pub lat: i32,
    pub lon_size: i32,
    pub lat_size: i32,
}

/// How many units of a [`Place`] make a second of arc. Both the offset of a station and
/// the lattice on which land is looked for are whole numbers of this unit.
pub const UNIT: i64 = 1_310_700;

/// A point of the earth, in units of which [`UNIT`] make a second of arc.
#[derive(Clone, Copy, Debug, PartialEq, Eq, Structural)]
pub struct Place {
    pub lon: i64,
    pub lat: i64,
}

/// The value of a letter, in either case, among the first `n`.
pub open spec fn letter(b: u8, n: int) -> Option<int> {
    let v = if 97 <= b <= 122 {
        b - 97
    } else {
        b - 65
    };
    if 0 <= v < n {
        Some(v)
    } else {
        None
    }
}

/// The value of a decimal digit.
pub open spec fn figure(b: u8) -> Option<int> {
    if 48 <= b <= 57 {
        Some(b - 48)
    } else {
        None
    }
}

/// The south-west corner of the square that the first four bytes of a locator name.
pub open spec fn square(b: Seq<u8>) -> Option<(int, int)> {
    match (letter(b[0], 18), letter(b[1], 18), figure(b[2]), figure(b[3])) {
        (Some(fx), Some(fy), Some(sx), Some(sy)) => Some(
            (-648_000 + 72_000 * fx + 7_200 * sx, -324_000 + 36_000 * fy + 3_600 * sy),
        ),
        _ => None,
    }
}

/// The cell that a locator names: a square of two degrees by one, or a subsquare, of
/// which 24 by 24 make a square. What follows a subsquare counts for nothing.
pub open spec fn grid_cell(b: Seq<u8>) -> Option<GridLoc> {
    if b.len() == 4 {
        match square(b) {
            Some((x, y)) => Some(
                GridLoc {
                    lon: (x + 3_600) as i32,
                    lat: (y + 1_800) as i32,
                    lon_size: 7_200,
                    lat_size: 3_600,
                },
            ),
            None => None,
        }
    } else if b.len() == 6 || b.len() == 8 {
        match (square(b), letter(b[4], 24), letter(b[5], 24)) {
            (Some((x, y)), Some(ux), Some(uy)) => Some(
                GridLoc {
                    lon: (x + 300 * ux + 150) as i32,
                    lat: (y + 150 * uy + 75) as i32,
                    lon_size: 300,
                    lat_size: 150,
                },
            ),
            _ => None,
        }
    } else {
        None
    }
}

/// The bytes of a text.
pub open spec fn bytes_of(s: Seq<char>) -> Seq<u8> {
    vstd::utf8::encode_utf8(s)
}

fn read_letter(b: u8, n: i32) -> (r: Option<i32>)
    requires
        0 <= n <= 26,
    ensures
        match r {
            Some(v) => letter(b, n as int) == Some(v as int),
            None => letter(b, n as int) is None,
        },
{
    let v: i32 = if 97 <= b && b <= 122 {
        b as i32 - 97
    } else {
        b as i32 - 65
    };
    if 0 <= v && v < n {
        Some(v)
    } else {
        None
    }
}

fn read_figure(b: u8) -> (r: Option<i32>)
    ensures
        match r {
            Some(v) => figure(b) == Some(v as int),
            None => figure(b) is None,
        },
{
    if 48 <= b && b <= 57 {
        Some(b as i32 - 48)
    } else {
        None
    }
}

fn read_square(b: &[u8]) -> (r: Option<(i32, i32)>)
    requires
        b@.len() >= 4,
    ensures
        match r {
            Some(c) => square(b@) == Some((c.0 as int, c.1 as int)) && -648_000 <= c.0 <= 640_800
                && -324_000 <= c.1 <= 320_400,
            None => square(b@) is None,
        },
{
    match (read_letter(b[0], 18), read_letter(b[1], 18), read_figure(b[2]), read_figure(b[3])) {
        (Some(fx), Some(fy), Some(sx), Some(sy)) => Some(
            (-648_000 + 72_000 * fx + 7_200 * sx, -324_000 + 36_000 * fy + 3_600 * sy),
        ),
        _ => None,
    }
}

/// The region of a Maidenhead locator with 4, 6 or 8 places, in either case and with
/// space around it. None where it is no locator.
pub fn grid_to_lonlat(grid: &str) -> (r: Option<GridLoc>)
    ensures
        r == grid_cell(bytes_of(crate::text::trim(grid@))),
{
    let v: Vec<char> = chars_of(grid);
    let s: String = string_of(trimmed(&v));
    let b: &[u8] = s.as_str().as_bytes();
    if b.len() == 4 {
        match read_square(b) {
            Some((x, y)) => Some(
                GridLoc { lon: x + 3_600, lat: y + 1_800, lon_size: 7_200, lat_size: 3_600 },
            ),
            None => None,
        }
    } else if b.len() == 6 || b.len() == 8 {
        match (read_square(b), read_letter(b[4], 24), read_letter(b[5], 24)) {
            (Some((x, y)), Some(ux), Some(uy)) => Some(
                GridLoc {
                    lon: x + 300 * ux + 150,
                    lat: y + 150 * uy + 75,
                    lon_size: 300,
                    lat_size: 150,
                },
            ),
            _ => None,
        }
    } else {
        None
    }
}

/// A byte, a small letter made a capital one.
pub open spec fn upper_byte(b: u8) -> u8 {
    if 97 <= b <= 122 {
        (b - 32) as u8
    } else {
        b
    }
}

/// The letters of a locator stand for the same cell in either case.
pub proof fn law_grid_in_either_case(b: Seq<u8>)
    ensures
        grid_cell(b.map_values(|x: u8| upper_byte(x))) == grid_cell(b),
{
    let c = b.map_values(|x: u8| upper_byte(x));
    assert(forall|x: u8, n: int| 0 <= n <= 26 ==> #[trigger] letter(upper_byte(x), n) == letter(x, n));
    assert(forall|x: u8| #[trigger] figure(upper_byte(x)) == figure(x)) by {
        assert forall|x: u8| #[trigger] figure(upper_byte(x)) == figure(x) by {}
    }
    if b.len() >= 4 {
        assert(square(c) == square(b));
    }
}

/// A locator's cell lies on the earth.
pub proof fn law_cell_on_earth(b: Seq<u8>)
    ensures
        grid_cell(b) matches Some(g) ==> -648_000 <= g.lon - g.lon_size / 2 && g.lon + g.lon_size
            / 2 <= 648_000 && -324_000 <= g.lat - g.lat_size / 2 && g.lat + g.lat_size / 2
            <= 324_000,
{
}

/// A section that is a whole state, in tenths of a degree.
pub open spec fn state_section(s: Seq<char>) -> Option<(int, int, int, int)> {
    if s == "AL"@ {
        Some((-868, 328, 30, 30))
    } else if s == "AK"@ {
        Some((-1500, 630, 160, 60))
    } else if s == "AZ"@ {
        Some((-1117, 343, 40, 40))
    } else if s == "AR"@ {
        Some((-924, 348, 30, 25))
    } else if s == "CO"@ {
        Some((-1055, 390, 50, 30))
    } else if s == "CT"@ {
        Some((-727, 416, 15, 10))
    } else if s == "DE"@ {
        Some((-755, 390, 6, 12))
    } else if s == "GA"@ {
        Some((-835, 327, 30, 30))
    } else if s == "ID"@ {
        Some((-1145, 444, 50, 60))
    } else if s == "IL"@ {
        Some((-892, 400, 30, 50))
    } else if s == "IN"@ {
        Some((-863, 399, 25, 40))
    } else if s == "IA"@ {
        Some((-935, 420, 50, 25))
    } else if s == "KS"@ {
        Some((-983, 385, 60, 25))
    } else if s == "KY"@ {
        Some((-853, 375, 50, 20))
    } else if s == "LA"@ {
        Some((-920, 310, 35, 30))
    } else if s == "ME"@ {
        Some((-692, 454, 30, 35))
    } else if s == "MI"@ {
        Some((-850, 443, 50, 50))
    } else if s == "MN"@ {
        Some((-943, 463, 60, 50))
    } else if s == "MS"@ {
        Some((-897, 327, 25, 40))
    } else if s == "MO"@ {
        Some((-925, 384, 50, 35))
    } else if s == "MT"@ {
        Some((-1095, 470, 110, 40))
    } else if s == "NE"@ {
        Some((-998, 415, 80, 25))
    } else if s == "NV"@ {
        Some((-1169, 395, 40, 70))
    } else if s == "NH"@ {
        Some((-716, 437, 15, 30))
    } else if s == "NM"@ {
        Some((-1061, 345, 60, 50))
    } else if s == "NC"@ {
        Some((-794, 355, 80, 25))
    } else if s == "ND"@ {
        Some((-1005, 475, 70, 25))
    } else if s == "OH"@ {
        Some((-828, 403, 40, 35))
    } else if s == "OK"@ {
        Some((-975, 355, 70, 25))
    } else if s == "OR"@ {
        Some((-1206, 440, 70, 40))
    } else if s == "RI"@ {
        Some((-715, 417, 7, 8))
    } else if s == "SC"@ {
        Some((-809, 339, 40, 25))
    } else if s == "SD"@ {
        Some((-1003, 444, 70, 25))
    } else if s == "TN"@ {
        Some((-863, 358, 90, 18))
    } else if s == "UT"@ {
        Some((-1117, 393, 35, 50))
    } else if s == "VT"@ {
        Some((-727, 441, 10, 30))
    } else if s == "VA"@ {
        Some((-787, 375, 70, 25))
    } else if s == "WV"@ {
        Some((-806, 386, 40, 30))
    } else if s == "WI"@ {
        Some((-898, 446, 40, 45))
    } else if s == "WY"@ {
        Some((-1075, 430, 70, 35))
    } else {
        None
    }
}

/// A section of a state that has several, in tenths of a degree.
pub open spec fn part_section(s: Seq<char>) -> Option<(int, int, int, int)> {
    if s == "EPA"@ {
        Some((-760, 409, 30, 15))
    } else if s == "WPA"@ {
        Some((-797, 410, 25, 18))
    } else if s == "MDC"@ {
        Some((-768, 390, 30, 10))
    } else if s == "NNJ"@ {
        Some((-744, 408, 8, 10))
    } else if s == "SNJ"@ {
        Some((-747, 395, 9, 10))
    } else if s == "ENY"@ {
        Some((-739, 426, 12, 20))
    } else if s == "NNY"@ {
        Some((-750, 442, 20, 12))
    } else if s == "NLI"@ {
        Some((-733, 408, 12, 5))
    } else if s == "EMA"@ {
        Some((-710, 424, 12, 8))
    } else if s == "WMA"@ {
        Some((-726, 424, 12, 8))
    } else if s == "EWA"@ {
        Some((-1185, 473, 30, 20))
    } else if s == "WWA"@ {
        Some((-1223, 475, 15, 25))
    } else if s == "SF"@ {
        Some((-1226, 383, 8, 10))
    } else if s == "EB"@ {
        Some((-1220, 378, 8, 8))
    } else if s == "SCV"@ {
        Some((-1218, 372, 8, 8))
    } else if s == "SJV"@ {
        Some((-1198, 365, 20, 30))
    } else if s == "SV"@ {
        Some((-1215, 393, 15, 25))
    } else if s == "LAX"@ {
        Some((-1183, 341, 10, 8))
    } else if s == "ORG"@ {
        Some((-1178, 337, 6, 6))
    } else if s == "SB"@ {
        Some((-1198, 347, 20, 12))
    } else if s == "SDG"@ {
        Some((-1169, 330, 15, 12))
    } else if s == "NTX"@ {
        Some((-970, 330, 40, 20))
    } else if s == "STX"@ {
        Some((-985, 290, 40, 30))
    } else if s == "WTX"@ {
        Some((-1020, 315, 40, 30))
    } else if s == "NFL"@ {
        Some((-825, 300, 40, 15))
    } else if s == "SFL"@ {
        Some((-805, 263, 15, 15))
    } else if s == "WCF"@ {
        Some((-822, 280, 10, 15))
    } else if s == "PR"@ {
        Some((-665, 182, 12, 4))
    } else if s == "VI"@ {
        Some((-648, 180, 4, 3))
    } else if s == "PAC"@ {
        Some((-1579, 213, 30, 20))
    } else {
        None
    }
}

/// A Canadian section, in tenths of a degree.
pub open spec fn rac_section(s: Seq<char>) -> Option<(int, int, int, int)> {
    if s == "MAR"@ {
        Some((-640, 455, 40, 20))
    } else if s == "NL"@ {
        Some((-570, 490, 60, 40))
    } else if s == "QC"@ {
        Some((-720, 470, 100, 50))
    } else if s == "ONE"@ {
        Some((-765, 452, 20, 15))
    } else if s == "ONN"@ {
        Some((-850, 490, 100, 40))
    } else if s == "ONS"@ {
        Some((-810, 432, 25, 15))
    } else if s == "GTA"@ {
        Some((-794, 437, 10, 6))
    } else if s == "MB"@ {
        Some((-980, 530, 60, 60))
    } else if s == "SK"@ {
        Some((-1060, 530, 70, 60))
    } else if s == "AB"@ {
        Some((-1140, 535, 60, 60))
    } else if s == "BC"@ {
        Some((-1230, 520, 80, 70))
    } else if s == "NT"@ {
        Some((-1200, 640, 300, 80))
    } else {
        None
    }
}

/// A region given in tenths of a degree.
pub open spec fn in_arc_seconds(t: Option<(int, int, int, int)>) -> Option<GridLoc> {
    match t {
        Some((lon, lat, lon_size, lat_size)) => Some(
            GridLoc {
                lon: (360 * lon) as i32,
                lat: (360 * lat) as i32,
                lon_size: (360 * lon_size) as i32,
                lat_size: (360 * lat_size) as i32,
            },
        ),
        None => None,
    }
}

/// The region of a section: a centre and an extent that are good enough for a marker in
/// the right state.
pub open spec fn section_region(s: Seq<char>) -> Option<GridLoc> {
    match in_arc_seconds(state_section(s)) {
        Some(g) => Some(g),
        None => match in_arc_seconds(part_section(s)) {
            Some(g) => Some(g),
            None => in_arc_seconds(rac_section(s)),
        },
    }
}

fn is_text(s: &[char], word: &str) -> (r: bool)
    ensures
        r == (s@ == word@),
{
    same(s, &chars_of(word))
}

fn tenths(lon: i32, lat: i32, lon_size: i32, lat_size: i32) -> (r: GridLoc)
    requires
        -1_800 <= lon <= 1_800,
        -900 <= lat <= 900,
        0 <= lon_size <= 3_600,
        0 <= lat_size <= 1_800,
    ensures
        Some(r) == in_arc_seconds(
            Some((lon as int, lat as int, lon_size as int, lat_size as int)),
        ),
{
    GridLoc { lon: 360 * lon, lat: 360 * lat, lon_size: 360 * lon_size, lat_size: 360 * lat_size }
}

/// A section that is a whole state.
fn read_state_section(s: &[char]) -> (r: Option<GridLoc>)
    ensures
        r == in_arc_seconds(state_section(s@)),
{
    if is_text(s, "AL") {
        Some(tenths(-868, 328, 30, 30))
    } else if is_text(s, "AK") {
        Some(tenths(-1500, 630, 160, 60))
    } else if is_text(s, "AZ") {
        Some(tenths(-1117, 343, 40, 40))
    } else if is_text(s, "AR") {
        Some(tenths(-924, 348, 30, 25))
    } else if is_text(s, "CO") {
        Some(tenths(-1055, 390, 50, 30))
    } else if is_text(s, "CT") {
        Some(tenths(-727, 416, 15, 10))
    } else if is_text(s, "DE") {
        Some(tenths(-755, 390, 6, 12))
    } else if is_text(s, "GA") {
        Some(tenths(-835, 327, 30, 30))
    } else if is_text(s, "ID") {
        Some(tenths(-1145, 444, 50, 60))
    } else if is_text(s, "IL") {
        Some(tenths(-892, 400, 30, 50))
    } else if is_text(s, "IN") {
        Some(tenths(-863, 399, 25, 40))
    } else if is_text(s, "IA") {
        Some(tenths(-935, 420, 50, 25))
    } else if is_text(s, "KS") {
        Some(tenths(-983, 385, 60, 25))
    } else if is_text(s, "KY") {
        Some(tenths(-853, 375, 50, 20))
    } else if is_text(s, "LA") {
        Some(tenths(-920, 310, 35, 30))
    } else if is_text(s, "ME") {
        Some(tenths(-692, 454, 30, 35))
    } else if is_text(s, "MI") {
        Some(tenths(-850, 443, 50, 50))
    } else if is_text(s, "MN") {
        Some(tenths(-943, 463, 60, 50))
    } else if is_text(s, "MS") {
        Some(tenths(-897, 327, 25, 40))
    } else if is_text(s, "MO") {
        Some(tenths(-925, 384, 50, 35))
    } else if is_text(s, "MT") {
        Some(tenths(-1095, 470, 110, 40))
    } else if is_text(s, "NE") {
        Some(tenths(-998, 415, 80, 25))
    } else if is_text(s, "NV") {
        Some(tenths(-1169, 395, 40, 70))
    } else if is_text(s, "NH") {
        Some(tenths(-716, 437, 15, 30))
    } else if is_text(s, "NM") {
        Some(tenths(-1061, 345, 60, 50))
    } else if is_text(s, "NC") {
        Some(tenths(-794, 355, 80, 25))
    } else if is_text(s, "ND") {
        Some(tenths(-1005, 475, 70, 25))
    } else if is_text(s, "OH") {
        Some(tenths(-828, 403, 40, 35))
    } else if is_text(s, "OK") {
        Some(tenths(-975, 355, 70, 25))
    } else if is_text(s, "OR") {
        Some(tenths(-1206, 440, 70, 40))
    } else if is_text(s, "RI") {
        Some(tenths(-715, 417, 7, 8))
    } else if is_text(s, "SC") {
        Some(tenths(-809, 339, 40, 25))
    } else if is_text(s, "SD") {
        Some(tenths(-1003, 444, 70, 25))
    } else if is_text(s, "TN") {
        Some(tenths(-863, 358, 90, 18))
    } else if is_text(s, "UT") {
        Some(tenths(-1117, 393, 35, 50))
    } else if is_text(s, "VT") {
        Some(tenths(-727, 441, 10, 30))
    } else if is_text(s, "VA") {
        Some(tenths(-787, 375, 70, 25))
    } else if is_text(s, "WV") {
        Some(tenths(-806, 386, 40, 30))
    } else if is_text(s, "WI") {
        Some(tenths(-898, 446, 40, 45))
    } else if is_text(s, "WY") {
        Some(tenths(-1075, 430, 70, 35))
    } else {
        None
    }
}

/// A section of a state that has several.
fn read_part_section(s: &[char]) -> (r: Option<GridLoc>)
    ensures
        r == in_arc_seconds(part_section(s@)),
{
    if is_text(s, "EPA") {
        Some(tenths(-760, 409, 30, 15))
    } else if is_text(s, "WPA") {
        Some(tenths(-797, 410, 25, 18))
    } else if is_text(s, "MDC") {
        Some(tenths(-768, 390, 30, 10))
    } else if is_text(s, "NNJ") {
        Some(tenths(-744, 408, 8, 10))
    } else if is_text(s, "SNJ") {
        Some(tenths(-747, 395, 9, 10))
    } else if is_text(s, "ENY") {
        Some(tenths(-739, 426, 12, 20))
    } else if is_text(s, "NNY") {
        Some(tenths(-750, 442, 20, 12))
    } else if is_text(s, "NLI") {
        Some(tenths(-733, 408, 12, 5))
    } else if is_text(s, "EMA") {
        Some(tenths(-710, 424, 12, 8))
    } else if is_text(s, "WMA") {
        Some(tenths(-726, 424, 12, 8))
    } else if is_text(s, "EWA") {
        Some(tenths(-1185, 473, 30, 20))
    } else if is_text(s, "WWA") {
        Some(tenths(-1223, 475, 15, 25))
    } else if is_text(s, "SF") {
        Some(tenths(-1226, 383, 8, 10))
    } else if is_text(s, "EB") {
        Some(tenths(-1220, 378, 8, 8))
    } else if is_text(s, "SCV") {
        Some(tenths(-1218, 372, 8, 8))
    } else if is_text(s, "SJV") {
        Some(tenths(-1198, 365, 20, 30))
    } else if is_text(s, "SV") {
        Some(tenths(-1215, 393, 15, 25))
    } else if is_text(s, "LAX") {
        Some(tenths(-1183, 341, 10, 8))
    } else if is_text(s, "ORG") {
        Some(tenths(-1178, 337, 6, 6))
    } else if is_text(s, "SB") {
        Some(tenths(-1198, 347, 20, 12))
    } else if is_text(s, "SDG") {
        Some(tenths(-1169, 330, 15, 12))
    } else if is_text(s, "NTX") {
        Some(tenths(-970, 330, 40, 20))
    } else if is_text(s, "STX") {
        Some(tenths(-985, 290, 40, 30))
    } else if is_text(s, "WTX") {
        Some(tenths(-1020, 315, 40, 30))
    } else if is_text(s, "NFL") {
        Some(tenths(-825, 300, 40, 15))
    } else if is_text(s, "SFL") {
        Some(tenths(-805, 263, 15, 15))
    } else if is_text(s, "WCF") {
        Some(tenths(-822, 280, 10, 15))
    } else if is_text(s, "PR") {
        Some(tenths(-665, 182, 12, 4))
    } else if is_text(s, "VI") {
        Some(tenths(-648, 180, 4, 3))
    } else if is_text(s, "PAC") {
        Some(tenths(-1579, 213, 30, 20))
    } else {
        None
    }
}

/// A Canadian section.
fn read_rac_section(s: &[char]) -> (r: Option<GridLoc>)
    ensures
        r == in_arc_seconds(rac_section(s@)),
{
    if is_text(s, "MAR") {
        Some(tenths(-640, 455, 40, 20))
    } else if is_text(s, "NL") {
        Some(tenths(-570, 490, 60, 40))
    } else if is_text(s, "QC") {
        Some(tenths(-720, 470, 100, 50))
    } else if is_text(s, "ONE") {
        Some(tenths(-765, 452, 20, 15))
    } else if is_text(s, "ONN") {
        Some(tenths(-850, 490, 100, 40))
    } else if is_text(s, "ONS") {
        Some(tenths(-810, 432, 25, 15))
    } else if is_text(s, "GTA") {
        Some(tenths(-794, 437, 10, 6))
    } else if is_text(s, "MB") {
        Some(tenths(-980, 530, 60, 60))
    } else if is_text(s, "SK") {
        Some(tenths(-1060, 530, 70, 60))
    } else if is_text(s, "AB") {
        Some(tenths(-1140, 535, 60, 60))
    } else if is_text(s, "BC") {
        Some(tenths(-1230, 520, 80, 70))
    } else if is_text(s, "NT") {
        Some(tenths(-1200, 640, 300, 80))
    } else {
        None
    }
}

/// The region of an ARRL or RAC section, in either case and with space around it. None
/// where there is no such section.
pub fn section_to_lonlat(section: &str) -> (r: Option<GridLoc>)
    ensures
        r == section_region(crate::text::ascii_upper(crate::text::trim(section@))),
{
    let v: Vec<char> = chars_of(section);
    let s: Vec<char> = upper_text(trimmed(&v));
    match read_state_section(&s) {
        Some(g) => Some(g),
        None => match read_part_section(&s) {
            Some(g) => Some(g),
            None => read_rac_section(&s),
        },
    }
}

/// The region of a locator.
pub open spec fn region_of(loc: Locator) -> Option<GridLoc> {
    match loc {
        Locator::Grid(g) => grid_cell(bytes_of(crate::text::trim(g@))),
        Locator::Section(s) => section_region(
            crate::text::ascii_upper(crate::text::trim(s@)),
        ),
    }
}

/// The FNV-1a hash of bytes, from a seed.
pub open spec fn fnv(b: Seq<u8>, seed: u32) -> u32
    decreases b.len(),
{
    if b.len() == 0 {
        seed
    } else {
        (fnv(b.drop_last(), seed) ^ (b.last() as u32)).wrapping_mul(0x0100_0193)
    }
}

/// The FNV-1a hash of a text, from a seed.
pub fn fnv1a(s: &str, seed: u32) -> (r: u32)
    ensures
        r == fnv(bytes_of(s@), seed),
{
    let b: &[u8] = s.as_bytes();
    let mut h: u32 = seed;
    let mut i: usize = 0;
    while i < b.len()
        invariant
            i <= b@.len(),
            b@ == bytes_of(s@),
            h == fnv(b@.take(i as int), seed),
        decreases b@.len() - i,
    {
        assert(b@.take(i + 1).drop_last() == b@.take(i as int));
        h = (h ^ (b[i] as u32)).wrapping_mul(0x0100_0193);
        i = i + 1;
    }
    assert(b@.take(b@.len() as int) == b@);
    h
}

/// The offset that a hash gives along one side of a region, in parts of which 65535 make
/// four tenths of the side.
pub open spec fn jitter(h: u32) -> int {
    2 * (h as int % 65_536) - 65_535
}

/// The place of a call in a region, off the centre by at most four tenths of the region.
/// The two offsets come from hashes with different seeds.
pub open spec fn spread_place(call: Seq<char>, g: GridLoc) -> (int, int) {
    (
        g.lon * UNIT + jitter(fnv(bytes_of(call), 0x811c_9dc5)) * 8 * g.lon_size,
        g.lat * UNIT + jitter(fnv(bytes_of(call), 0x517c_c1b7)) * 8 * g.lat_size,
    )
}

/// A place as a pair of numbers.
pub open spec fn at(p: Place) -> (int, int) {
    (p.lon as int, p.lat as int)
}

/// One side of [`spread_place`].
fn offset_by(center: i32, size: i32, h: u32) -> (r: i64)
    ensures
        r == center * UNIT + jitter(h) * 8 * size,
        -0x1000_0000_0000_0000 < r < 0x1000_0000_0000_0000,
{
    let j: i64 = 2 * ((h % 65_536) as i64) - 65_535;
    assert(j == jitter(h));
    assert(-1_125_904_201_809_920 <= j * 8 * size <= 1_125_904_201_809_920) by (nonlinear_arith)
        requires
            -65_535 <= j <= 65_535,
            -0x8000_0000 <= size <= 0x7FFF_FFFF,
    ;
    assert(-524_280 <= j * 8 <= 524_280);
    (center as i64) * UNIT + j * 8 * (size as i64)
}

/// The place of a call in a region.
fn spread(call: &str, g: GridLoc) -> (r: Place)
    ensures
        at(r) == spread_place(call@, g),
        near_enough(r),
{
    Place {
        lon: offset_by(g.lon, g.lon_size, fnv1a(call, 0x811c_9dc5)),
        lat: offset_by(g.lat, g.lat_size, fnv1a(call, 0x517c_c1b7)),
    }
}

/// A place whose coordinates leave room to reckon with, as all places on the earth do.
pub open spec fn near_enough(p: Place) -> bool {
    &&& -0x1000_0000_0000_0000 < p.lon < 0x1000_0000_0000_0000
    &&& -0x1000_0000_0000_0000 < p.lat < 0x1000_0000_0000_0000
}

/// Triangles over a list of corners, three indices for each. One or two indices at the
/// end that make no triangle count for nothing.
#[derive(Debug)]
pub struct TriMesh {
    pub verts: Vec<Place>,
    pub idx: Vec<u32>,
}

impl TriMesh {
    /// Every index has its corner, and the corners are on the earth.
    pub open spec fn wf(&self) -> bool {
        &&& forall|i: int| 0 <= i < self.idx@.len() ==> (#[trigger] self.idx@[i]) < self.verts@.len()
        &&& forall|i: int| 0 <= i < self.verts@.len() ==> near_enough(#[trigger] self.verts@[i])
    }

    /// Whether the mesh is well formed, for callers that read one from elsewhere.
    pub fn is_wf(&self) -> (r: bool)
        ensures
            r == self.wf(),
    {
        let mut i: usize = 0;
        while i < self.idx.len()
            invariant
                i <= self.idx@.len(),
                forall|j: int| 0 <= j < i ==> (#[trigger] self.idx@[j]) < self.verts@.len(),
            decreases self.idx@.len() - i,
        {
            if self.idx[i] as usize >= self.verts.len() {
                assert(!(self.idx@[i as int] < self.verts@.len()));
                return false;
            }
            i = i + 1;
        }
        let mut k: usize = 0;
        while k < self.verts.len()
            invariant
                k <= self.verts@.len(),
                forall|j: int| 0 <= j < k ==> near_enough(#[trigger] self.verts@[j]),
            decreases self.verts@.len() - k,
        {
            let p: Place = self.verts[k];
            if !(-0x1000_0000_0000_0000 < p.lon && p.lon < 0x1000_0000_0000_0000
                && -0x1000_0000_0000_0000 < p.lat && p.lat < 0x1000_0000_0000_0000) {
                assert(!near_enough(self.verts@[k as int]));
                return false;
            }
            k = k + 1;
        }
        true
    }

    /// The corners of triangle `t`.
    pub open spec fn corner(&self, t: int, k: int) -> (int, int) {
        at(self.verts@[self.idx@[3 * t + k] as int])
    }

    /// Whether triangle `t` holds a point.
    pub open spec fn holds(&self, t: int, p: (int, int)) -> bool {
        in_triangle(p, self.corner(t, 0), self.corner(t, 1), self.corner(t, 2))
    }

    /// Whether some triangle holds a point.
    pub open spec fn covers(&self, p: (int, int)) -> bool {
        exists|t: int| 0 <= t < self.idx@.len() / 3 && #[trigger] self.holds(t, p)
    }
}

/// On which side of the line from `b` to `a` a point is: 0 on the line.
pub open spec fn side(p: (int, int), a: (int, int), b: (int, int)) -> int {
    (p.0 - b.0) * (a.1 - b.1) - (a.0 - b.0) * (p.1 - b.1)
}

/// Whether a number is between the least and the greatest of three.
pub open spec fn among(x: int, a: int, b: int, c: int) -> bool {
    &&& x >= a || x >= b || x >= c
    &&& x <= a || x <= b || x <= c
}

/// Whether a triangle holds a point. Its edge belongs to it.
pub open spec fn in_triangle(
    p: (int, int),
    a: (int, int),
    b: (int, int),
    c: (int, int),
) -> bool {
    &&& among(p.0, a.0, b.0, c.0)
    &&& among(p.1, a.1, b.1, c.1)
    &&& {
        ||| side(p, a, b) >= 0 && side(p, b, c) >= 0 && side(p, c, a) >= 0
        ||| side(p, a, b) <= 0 && side(p, b, c) <= 0 && side(p, c, a) <= 0
    }
}

fn side_of(p: Place, a: Place, b: Place) -> (r: i128)
    requires
        near_enough(p),
        near_enough(a),
        near_enough(b),
    ensures
        r == side(at(p), at(a), at(b)),
{
    let px: i128 = p.lon as i128 - b.lon as i128;
    let py: i128 = p.lat as i128 - b.lat as i128;
    let ax: i128 = a.lon as i128 - b.lon as i128;
    let ay: i128 = a.lat as i128 - b.lat as i128;
    proof {
        lemma_product_bound(px as int, ay as int);
        lemma_product_bound(ax as int, py as int);
    }
    px * ay - ax * py
}

proof fn lemma_product_bound(x: int, y: int)
    by (nonlinear_arith)
    requires
        -0x2000_0000_0000_0000 <= x <= 0x2000_0000_0000_0000,
        -0x2000_0000_0000_0000 <= y <= 0x2000_0000_0000_0000,
    ensures
        -0x400_0000_0000_0000_0000_0000_0000_0000 <= x * y
            <= 0x400_0000_0000_0000_0000_0000_0000_0000,
{
}

fn is_among(x: i64, a: i64, b: i64, c: i64) -> (r: bool)
    ensures
        r == among(x as int, a as int, b as int, c as int),
{
    (x >= a || x >= b || x >= c) && (x <= a || x <= b || x <= c)
}

/// Whether a triangle holds a point. Its edge belongs to it.
fn point_in_tri(p: Place, a: Place, b: Place, c: Place) -> (r: bool)
    requires
        near_enough(p),
        near_enough(a),
        near_enough(b),
        near_enough(c),
    ensures
        r == in_triangle(at(p), at(a), at(b), at(c)),
{
    if !is_among(p.lon, a.lon, b.lon, c.lon) || !is_among(p.lat, a.lat, b.lat, c.lat) {
        return false;
    }
    let d1: i128 = side_of(p, a, b);
    let d2: i128 = side_of(p, b, c);
    let d3: i128 = side_of(p, c, a);
    let neg: bool = d1 < 0 || d2 < 0 || d3 < 0;
    let pos: bool = d1 > 0 || d2 > 0 || d3 > 0;
    !(neg && pos)
}

/// Whether some triangle of a mesh holds a point.
pub fn in_mesh(p: Place, mesh: &TriMesh) -> (r: bool)
    requires
        near_enough(p),
        mesh.wf(),
    ensures
        r == mesh.covers(at(p)),
{
    let len: usize = mesh.idx.len();
    let n: usize = len / 3;
    let mut t: usize = 0;
    while t < n
        invariant
            t <= n,
            len == mesh.idx@.len(),
            n == len / 3,
            near_enough(p),
            mesh.wf(),
            forall|u: int| 0 <= u < t ==> !(#[trigger] mesh.holds(u, at(p))),
        decreases n - t,
    {
        assert(3 * t + 2 < len);
        let a: Place = mesh.verts[mesh.idx[3 * t] as usize];
        let b: Place = mesh.verts[mesh.idx[3 * t + 1] as usize];
        let c: Place = mesh.verts[mesh.idx[3 * t + 2] as usize];
        if point_in_tri(p, a, b, c) {
            assert(mesh.holds(t as int, at(p)));
            return true;
        }
        assert(!mesh.holds(t as int, at(p)));
        t = t + 1;
    }
    false
}

/// The dry land of the earth: the land, without the lakes.
#[derive(Debug)]
pub struct Terrain {
    pub land: TriMesh,
    pub lakes: TriMesh,
}

impl Terrain {
    pub open spec fn wf(&self) -> bool {
        self.land.wf() && self.lakes.wf()
    }

    /// Whether a point is on dry land.
    pub open spec fn dry(&self, p: (int, int)) -> bool {
        self.land.covers(p) && !self.lakes.covers(p)
    }
}

/// Whether a point is on dry land.
pub fn point_on_land(p: Place, terrain: &Terrain) -> (r: bool)
    requires
        near_enough(p),
        terrain.wf(),
    ensures
        r == terrain.dry(at(p)),
{
    in_mesh(p, &terrain.land) && !in_mesh(p, &terrain.lakes)
}

/// How many points of a region are tried for land: 17 rows of 17, over the same four
/// tenths to each side that stations are spread over.
pub const CANDIDATES: i64 = 289;

/// Point `k` of the lattice: row by row from the south, each from the west.
pub open spec fn candidate(g: GridLoc, k: int) -> (int, int) {
    (
        g.lon * UNIT + (k % 17 - 8) * 65_535 * g.lon_size,
        g.lat * UNIT + (k / 17 - 8) * 65_535 * g.lat_size,
    )
}

/// The square of the distance of two points.
pub open spec fn apart(p: (int, int), q: (int, int)) -> int {
    (p.0 - q.0) * (p.0 - q.0) + (p.1 - q.1) * (p.1 - q.1)
}

/// The nearest of the first `n` points of the lattice that are on dry land, the first of
/// them where several are as near.
pub open spec fn nearest(t: Terrain, g: GridLoc, p: (int, int), n: int) -> Option<(int, int)>
    decreases n,
{
    if n <= 0 {
        None
    } else {
        let c = candidate(g, n - 1);
        match nearest(t, g, p, n - 1) {
            Some(q) => if t.dry(c) && apart(c, p) < apart(q, p) {
                Some(c)
            } else {
                Some(q)
            },
            None => if t.dry(c) {
                Some(c)
            } else {
                None
            },
        }
    }
}

/// Where a point of a region is moved so that it is on dry land. It stays where it is on
/// land already, and where the region has no land.
pub open spec fn snapped(t: Terrain, g: GridLoc, p: (int, int)) -> (int, int) {
    if t.dry(p) {
        p
    } else {
        match nearest(t, g, p, CANDIDATES as int) {
            Some(q) => q,
            None => p,
        }
    }
}

/// One side of [`candidate`].
fn lattice_side(center: i32, size: i32, i: i64) -> (r: i64)
    requires
        -8 <= i <= 8,
    ensures
        r == center * UNIT + i * 65_535 * size,
        -0x1000_0000_0000_0000 < r < 0x1000_0000_0000_0000,
{
    assert(-1_125_904_201_809_920 <= i * 65_535 * size <= 1_125_904_201_809_920)
        by (nonlinear_arith)
        requires
            -8 <= i <= 8,
            -0x8000_0000 <= size <= 0x7FFF_FFFF,
    ;
    (center as i64) * UNIT + i * 65_535 * (size as i64)
}

fn apart_from(p: Place, q: Place) -> (r: i128)
    requires
        near_enough(p),
        near_enough(q),
    ensures
        r == apart(at(p), at(q)),
{
    let x: i128 = p.lon as i128 - q.lon as i128;
    let y: i128 = p.lat as i128 - q.lat as i128;
    proof {
        lemma_product_bound(x as int, x as int);
        lemma_product_bound(y as int, y as int);
    }
    x * x + y * y
}

/// Moves a point of a region onto dry land: to the nearest point of the lattice that is
/// on land.
pub fn snap_to_land(point: Place, region: GridLoc, terrain: &Terrain) -> (r: Place)
    requires
        near_enough(point),
        terrain.wf(),
    ensures
        at(r) == snapped(*terrain, region, at(point)),
        near_enough(r),
{
    if point_on_land(point, terrain) {
        return point;
    }
    let mut best: Option<Place> = None;
    let mut best_d: i128 = 0;
    let mut k: i64 = 0;
    while k < CANDIDATES
        invariant
            0 <= k <= CANDIDATES,
            near_enough(point),
            terrain.wf(),
            match best {
                Some(q) => near_enough(q) && nearest(*terrain, region, at(point), k as int) == Some(
                    at(q),
                ) && best_d == apart(at(q), at(point)),
                None => nearest(*terrain, region, at(point), k as int) is None,
            },
        decreases CANDIDATES - k,
    {
        let c: Place = Place {
            lon: lattice_side(region.lon, region.lon_size, k % 17 - 8),
            lat: lattice_side(region.lat, region.lat_size, k / 17 - 8),
        };
        assert(at(c) == candidate(region, k as int));
        if point_on_land(c, terrain) {
            let d: i128 = apart_from(c, point);
            if best.is_none() || d < best_d {
                best_d = d;
                best = Some(c);
            }
        }
        k = k + 1;
    }
    match best {
        Some(q) => q,
        None => point,
    }
}

/// The place of a station.
pub open spec fn placed(call: Seq<char>, loc: Locator, t: Terrain) -> Option<(int, int)> {
    match region_of(loc) {
        Some(g) => Some(snapped(t, g, spread_place(call, g))),
        None => None,
    }
}

/// An optional place as a pair of numbers.
pub open spec fn at_opt(p: Option<Place>) -> Option<(int, int)> {
    match p {
        Some(q) => Some(at(q)),
        None => None,
    }
}

/// The place of a station: the region of its locator, spread by its call, and on land.
/// None where the locator names no region.
pub fn place_station(call: &str, loc: &Locator, terrain: &Terrain) -> (r: Option<Place>)
    requires
        terrain.wf(),
    ensures
        at_opt(r) == placed(call@, *loc, *terrain),
{
    let region: Option<GridLoc> = match loc {
        Locator::Grid(g) => grid_to_lonlat(g.as_str()),
        Locator::Section(s) => section_to_lonlat(s.as_str()),
    };
    match region {
        Some(g) => Some(snap_to_land(spread(call, g), g, terrain)),
        None => None,
    }
}

/// The place of a station in a grid.
pub open spec fn placed_in_grid(call: Seq<char>, grid: Seq<char>, t: Terrain) -> Option<
    (int, int),
> {
    match grid_cell(bytes_of(crate::text::trim(grid))) {
        Some(g) => Some(snapped(t, g, spread_place(call, g))),
        None => None,
    }
}

/// The place of a station in a grid.
pub fn station_lonlat(call: &str, grid: &str, terrain: &Terrain) -> (r: Option<Place>)
    requires
        terrain.wf(),
    ensures
        at_opt(r) == placed_in_grid(call@, grid@, *terrain),
{
    match grid_to_lonlat(grid) {
        Some(g) => Some(snap_to_land(spread(call, g), g, terrain)),
        None => None,
    }
}

/// Whether a point is within four tenths of a region's size from its centre.
pub open spec fn within(g: GridLoc, p: (int, int)) -> bool {
    &&& -4 * g.lon_size * UNIT <= 10 * (p.0 - g.lon * UNIT) <= 4 * g.lon_size * UNIT
    &&& -4 * g.lat_size * UNIT <= 10 * (p.1 - g.lat * UNIT) <= 4 * g.lat_size * UNIT
}

/// A call is spread no further than four tenths of its region, so it never leaves it.
pub proof fn law_spread_stays_in_region(call: Seq<char>, g: GridLoc)
    requires
        g.lon_size >= 0,
        g.lat_size >= 0,
    ensures
        within(g, spread_place(call, g)),
{
    lemma_side_within(jitter(fnv(bytes_of(call), 0x811c_9dc5)), g.lon_size as int);
    lemma_side_within(jitter(fnv(bytes_of(call), 0x517c_c1b7)), g.lat_size as int);
}

proof fn lemma_side_within(j: int, size: int)
    by (nonlinear_arith)
    requires
        -65_535 <= j <= 65_535,
        size >= 0,
    ensures
        -4 * size * 1_310_700 <= 10 * (j * 8 * size) <= 4 * size * 1_310_700,
{
}

proof fn lemma_lattice_within(i: int, size: int)
    by (nonlinear_arith)
    requires
        -8 <= i <= 8,
        size >= 0,
    ensures
        -4 * size * 1_310_700 <= 10 * (i * 65_535 * size) <= 4 * size * 1_310_700,
{
}

proof fn lemma_nearest(t: Terrain, g: GridLoc, p: (int, int), n: int)
    requires
        0 <= n <= CANDIDATES,
        g.lon_size >= 0,
        g.lat_size >= 0,
    ensures
        match nearest(t, g, p, n) {
            Some(q) => {
                &&& t.dry(q)
                &&& within(g, q)
                &&& exists|k: int| 0 <= k < n && q == #[trigger] candidate(g, k)
                &&& forall|k: int|
                    0 <= k < n && t.dry(#[trigger] candidate(g, k)) ==> apart(q, p) <= apart(
                        candidate(g, k),
                        p,
                    )
            },
            None => forall|k: int| 0 <= k < n ==> !t.dry(#[trigger] candidate(g, k)),
        },
    decreases n,
{
    if n > 0 {
        lemma_nearest(t, g, p, n - 1);
        lemma_lattice_within((n - 1) % 17 - 8, g.lon_size as int);
        lemma_lattice_within((n - 1) / 17 - 8, g.lat_size as int);
    }
}

/// A station that is over water goes to the nearest point of its region's lattice that is
/// on land, and never leaves its region. It stays where it is if it is on land, or if no
/// point of the lattice is.
pub proof fn law_snap_goes_to_nearest_land(t: Terrain, g: GridLoc, p: (int, int))
    requires
        g.lon_size >= 0,
        g.lat_size >= 0,
        within(g, p),
    ensures
        within(g, snapped(t, g, p)),
        t.dry(p) ==> snapped(t, g, p) == p,
        (forall|k: int| 0 <= k < CANDIDATES ==> !t.dry(#[trigger] candidate(g, k))) ==> snapped(
            t,
            g,
            p,
        ) == p,
        forall|k: int|
            0 <= k < CANDIDATES && t.dry(#[trigger] candidate(g, k)) ==> t.dry(snapped(t, g, p))
                && apart(snapped(t, g, p), p) <= apart(candidate(g, k), p),
{
    lemma_nearest(t, g, p, CANDIDATES as int);
    if t.dry(p) {
        assert forall|k: int| 0 <= k < CANDIDATES implies apart(p, p) <= apart(
            #[trigger] candidate(g, k),
            p,
        ) by {
            let c = candidate(g, k);
            assert((c.0 - p.0) * (c.0 - p.0) >= 0 && (c.1 - p.1) * (c.1 - p.1) >= 0)
                by (nonlinear_arith);
        }
    }
}

/// A region that a locator names has a size.
pub proof fn lemma_region_has_size(loc: Locator)
    ensures
        region_of(loc) matches Some(g) ==> g.lon_size >= 0 && g.lat_size >= 0,
{
}

/// A station is shown inside the region of its locator.
pub proof fn law_station_stays_in_region(call: Seq<char>, loc: Locator, t: Terrain)
    ensures
        placed(call, loc, t) is Some <==> region_of(loc) is Some,
        placed(call, loc, t) matches Some(p) ==> within(region_of(loc)->Some_0, p),
{
    lemma_region_has_size(loc);
    match region_of(loc) {
        Some(g) => {
            law_spread_stays_in_region(call, g);
            law_snap_goes_to_nearest_land(t, g, spread_place(call, g));
        },
        None => {},
    }
}

/// To hash on from the hash of one part is to hash both parts in one.
proof fn lemma_fnv_add(x: Seq<u8>, y: Seq<u8>, seed: u32)
    ensures
        fnv(x + y, seed) == fnv(y, fnv(x, seed)),
    decreases y.len(),
{
    if y.len() == 0 {
        assert(x + y == x);
    } else {
        assert((x + y).drop_last() == x + y.drop_last());
        assert((x + y).last() == y.last());
        lemma_fnv_add(x, y.drop_last(), seed);
    }
}

/// The bytes of two texts, one behind the other.
proof fn lemma_bytes_add(s: Seq<char>, t: Seq<char>)
    ensures
        bytes_of(s + t) == bytes_of(s) + bytes_of(t),
    decreases s.len(),
{
    if s.len() == 0 {
        assert(s + t == t);
        assert(bytes_of(s) + bytes_of(t) == bytes_of(t));
    } else {
        assert((s + t).drop_first() == s.drop_first() + t);
        assert((s + t)[0] == s[0]);
        lemma_bytes_add(s.drop_first(), t);
        let first = vstd::utf8::encode_scalar(s[0] as u32);
        assert(first + (bytes_of(s.drop_first()) + bytes_of(t)) == first + bytes_of(
            s.drop_first(),
        ) + bytes_of(t));
    }
}

/// The hash of a text goes on from the hash of its beginning; that of no text is the seed,
/// and a single ASCII character is mixed in once.
pub proof fn law_hash_goes_on(s: Seq<char>, t: Seq<char>, seed: u32, c: char)
    requires
        c as int <= 0x7F,
    ensures
        fnv(bytes_of(s + t), seed) == fnv(bytes_of(t), fnv(bytes_of(s), seed)),
        fnv(bytes_of(Seq::<char>::empty()), seed) == seed,
        fnv(bytes_of(seq![c]), seed) == (seed ^ (c as u32)).wrapping_mul(0x0100_0193),
{
    lemma_bytes_add(s, t);
    lemma_fnv_add(bytes_of(s), bytes_of(t), seed);
    let one = seq![c];
    vstd::utf8::is_ascii_chars_encode_utf8(one);
    let b = bytes_of(one);
    assert(one[0] as u8 == b[0]);
    assert(b.drop_last() == Seq::<u8>::empty());
    assert(fnv(b.drop_last(), seed) == seed);
    assert(b.last() as u32 == c as u32);
}

/// What follows a subsquare counts for nothing, and the middle of a subsquare lies inside
/// its square.
pub proof fn law_subsquare_in_square(b: Seq<u8>)
    requires
        b.len() == 6 || b.len() == 8,
    ensures
        grid_cell(b) == grid_cell(b.take(6)),
        grid_cell(b) matches Some(s) ==> {
            &&& grid_cell(b.take(4)) matches Some(q)
            &&& -q.lon_size < 2 * (s.lon - q.lon) < q.lon_size
            &&& -q.lat_size < 2 * (s.lat - q.lat) < q.lat_size
        },
{
    assert(square(b.take(6)) == square(b));
    assert(square(b.take(4)) == square(b));
}

/// A locator of eight ASCII characters without space names what its first six name, in either case, and
/// the middle of that lies inside the square that its first four name.
pub proof fn law_long_locator(g: Seq<char>)
    requires
        g.len() == 8,
        crate::text::ascii(g),
        forall|i: int| 0 <= i < 8 ==> !crate::text::white(#[trigger] g[i]),
    ensures
        ({
            let cell = |s: Seq<char>| grid_cell(bytes_of(crate::text::trim(s)));
            &&& cell(g) == cell(g.take(6))
            &&& cell(g) == cell(crate::text::ascii_lower(g))
            &&& cell(g) == cell(crate::text::ascii_upper(g))
            &&& cell(g) matches Some(s) ==> {
                &&& cell(g.take(4)) matches Some(q)
                &&& -3_600 < s.lon - q.lon < 3_600
                &&& -1_800 < s.lat - q.lat < 1_800
            }
        }),
{
    let b = bytes_of(g);
    lemma_plain_locator(g, 4);
    lemma_plain_locator(g, 6);
    lemma_plain_locator(g, 8);
    assert(g.take(8) == g);
    assert(b.take(8) == b);
    law_subsquare_in_square(b);
    let low = crate::text::ascii_lower(g);
    assert(crate::text::ascii_upper(low) == crate::text::ascii_upper(g)) by {
        assert forall|i: int| 0 <= i < g.len() implies crate::text::upper_char(
            crate::text::lower_char(#[trigger] g[i]),
        ) == crate::text::upper_char(g[i]) by {}
    }
    let up = crate::text::ascii_upper(g);
    assert(crate::text::ascii_upper(up) == up);
    lemma_cell_in_either_case(g, low);
    lemma_cell_in_either_case(g, up);
}

proof fn lemma_ascii_char(c: char)
    requires
        c as int <= 0x7F,
    ensures
        '\0' <= c <= '\u{7f}',
{
}

/// The first characters of a plain locator are its first bytes, and nothing is trimmed off.
proof fn lemma_plain_locator(g: Seq<char>, n: int)
    requires
        0 < n <= g.len(),
        crate::text::ascii(g),
        forall|i: int| 0 <= i < g.len() ==> !crate::text::white(#[trigger] g[i]),
    ensures
        bytes_of(crate::text::trim(g.take(n))) == bytes_of(g).take(n),
        bytes_of(g).len() == g.len(),
{
    let t = g.take(n);
    assert(t[0] == g[0] && t[n - 1] == g[n - 1]);
    crate::text::lemma_trim_none(t, crate::text::Fringe::White);
    assert(vstd::utf8::is_ascii_chars(g)) by {
        assert forall|i: int| 0 <= i < g.len() implies '\0' <= #[trigger] g[i] <= '\u{7f}' by {
            lemma_ascii_char(g[i]);
        }
    }
    assert(vstd::utf8::is_ascii_chars(t)) by {
        assert forall|i: int| 0 <= i < t.len() implies '\0' <= #[trigger] t[i] <= '\u{7f}' by {
            assert(t[i] == g[i]);
        }
    }
    vstd::utf8::is_ascii_chars_encode_utf8(g);
    vstd::utf8::is_ascii_chars_encode_utf8(t);
    let (bt, bg) = (bytes_of(t), bytes_of(g));
    assert forall|i: int| 0 <= i < n implies bt[i] == bg.take(n)[i] by {
        assert(t[i] as u8 == bt[i]);
        assert(g[i] as u8 == bg[i]);
    }
    assert(bt == bg.take(n));
}

/// The bytes of a character with an ASCII letter in upper case.
proof fn lemma_upper_scalar(c: char)
    ensures
        vstd::utf8::encode_scalar(crate::text::upper_char(c) as u32) == vstd::utf8::encode_scalar(
            c as u32,
        ).map_values(|x: u8| upper_byte(x)),
{
    let b = vstd::utf8::encode_scalar(c as u32);
    let up = b.map_values(|x: u8| upper_byte(x));
    if c as int <= 0x7F {
        let d = crate::text::upper_char(c);
        let (m, n) = (c as u32, d as u32);
        assert((m & 0x7F) == m) by (bit_vector)
            requires
                m <= 0x7F,
        ;
        assert((n & 0x7F) == n) by (bit_vector)
            requires
                n <= 0x7F,
        ;
        assert(b == seq![m as u8]);
        assert(vstd::utf8::encode_scalar(n) == seq![n as u8]);
        assert(up == seq![n as u8]);
    } else {
        let one = seq![c];
        vstd::utf8::encode_utf8_first_scalar(one);
        assert(one.drop_first() == Seq::<char>::empty());
        assert(bytes_of(Seq::<char>::empty()) == Seq::<u8>::empty());
        assert(bytes_of(one) == b + Seq::<u8>::empty());
        assert(b + Seq::<u8>::empty() == b);
        assert forall|i: int| 0 <= i < b.len() implies upper_byte(#[trigger] b[i]) == b[i] by {}
        assert(up == b);
    }
}

/// The bytes of a text with its ASCII letters in upper case.
proof fn lemma_upper_bytes(s: Seq<char>)
    ensures
        bytes_of(crate::text::ascii_upper(s)) == bytes_of(s).map_values(|x: u8| upper_byte(x)),
    decreases s.len(),
{
    let up = crate::text::ascii_upper(s);
    let f = |x: u8| upper_byte(x);
    if s.len() == 0 {
        assert(bytes_of(s).map_values(f) == bytes_of(up));
    } else {
        let rest = s.drop_first();
        lemma_upper_bytes(rest);
        lemma_upper_scalar(s[0]);
        assert(up.drop_first() == crate::text::ascii_upper(rest));
        let first = vstd::utf8::encode_scalar(s[0] as u32);
        assert((first + bytes_of(rest)).map_values(f) == first.map_values(f) + bytes_of(
            rest,
        ).map_values(f));
    }
}

/// The cell of a locator does not depend on the case of its letters.
proof fn lemma_cell_in_either_case(a: Seq<char>, b: Seq<char>)
    requires
        crate::text::same_letters(a, b),
    ensures
        grid_cell(bytes_of(crate::text::trim(a))) == grid_cell(bytes_of(crate::text::trim(b))),
{
    let (s, t) = (crate::text::trim(a), crate::text::trim(b));
    crate::text::lemma_trim_upper(a);
    crate::text::lemma_trim_upper(b);
    lemma_upper_bytes(s);
    lemma_upper_bytes(t);
    law_grid_in_either_case(bytes_of(s));
    law_grid_in_either_case(bytes_of(t));
}

/// Whether two locators differ in the case of letters alone.
pub open spec fn same_locator(a: Locator, b: Locator) -> bool {
    match (a, b) {
        (Locator::Grid(g), Locator::Grid(h)) => crate::text::same_letters(g@, h@),
        (Locator::Section(s), Locator::Section(t)) => crate::text::same_letters(s@, t@),
        _ => false,
    }
}

/// The letter case of a locator plays no part in where a station is shown. A station with a
/// grid is shown where the grid alone puts it.
pub proof fn law_place_in_either_case(call: Seq<char>, a: Locator, b: Locator, t: Terrain)
    requires
        same_locator(a, b),
    ensures
        region_of(a) == region_of(b),
        placed(call, a, t) == placed(call, b, t),
        a matches Locator::Grid(g) ==> placed(call, a, t) == placed_in_grid(call, g@, t),
{
    match (a, b) {
        (Locator::Grid(g), Locator::Grid(h)) => {
            lemma_cell_in_either_case(g@, h@);
        },
        (Locator::Section(s), Locator::Section(u)) => {
            crate::text::lemma_trim_upper(s@);
            crate::text::lemma_trim_upper(u@);
        },
        _ => {},
    }
}

} // verus!
