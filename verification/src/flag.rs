//! What the flags of countries look like, at the size of an icon.

use vstd::prelude::*;

use crate::text::{chars_of, same};

verus! {

/// A colour of a flag.
#[derive(Clone, Copy, Debug, PartialEq, Eq, Structural)]
pub enum Paint {
    Red,
    White,
    Black,
    Gold,
    Navy,
    Blue,
    LightBlue,
    Azure,
    Green,
    Orange,
    Saffron,
    Maroon,
}

/// The red, green and blue of a colour.
pub open spec fn shade(p: Paint) -> (u8, u8, u8) {
    match p {
        Paint::Red => (0xC8, 0x10, 0x2E),
        Paint::White => (0xF2, 0xF2, 0xF2),
        Paint::Black => (0x1A, 0x1A, 0x1A),
        Paint::Gold => (0xFF, 0xCC, 0x00),
        Paint::Navy => (0x01, 0x21, 0x69),
        Paint::Blue => (0x00, 0x55, 0xA4),
        Paint::LightBlue => (0x6C, 0xA0, 0xDC),
        Paint::Azure => (0x00, 0x57, 0xB7),
        Paint::Green => (0x00, 0x7A, 0x3D),
        Paint::Orange => (0xFF, 0x79, 0x00),
        Paint::Saffron => (0xFF, 0x99, 0x33),
        Paint::Maroon => (0x8A, 0x1C, 0x3B),
    }
}

/// The red, green and blue of a colour.
pub fn rgb(p: Paint) -> (r: (u8, u8, u8))
    ensures
        r == shade(p),
{
    match p {
        Paint::Red => (0xC8, 0x10, 0x2E),
        Paint::White => (0xF2, 0xF2, 0xF2),
        Paint::Black => (0x1A, 0x1A, 0x1A),
        Paint::Gold => (0xFF, 0xCC, 0x00),
        Paint::Navy => (0x01, 0x21, 0x69),
        Paint::Blue => (0x00, 0x55, 0xA4),
        Paint::LightBlue => (0x6C, 0xA0, 0xDC),
        Paint::Azure => (0x00, 0x57, 0xB7),
        Paint::Green => (0x00, 0x7A, 0x3D),
        Paint::Orange => (0xFF, 0x79, 0x00),
        Paint::Saffron => (0xFF, 0x99, 0x33),
        Paint::Maroon => (0x8A, 0x1C, 0x3B),
    }
}

/// How a flag is laid out.
#[derive(Debug)]
pub enum Design {
    /// Equal bands, the first on top.
    Bands(Vec<Paint>),
    /// Equal stripes, the first on the left.
    Stripes(Vec<Paint>),
    /// A cross off the centre.
    Nordic { field: Paint, cross: Paint },
    /// A disc in the centre.
    Disc { field: Paint, disc: Paint },
    /// A cross in the centre, from edge to edge.
    Cross { field: Paint, cross: Paint },
    /// Two bands, and a triangle on the left.
    TriHoist { top: Paint, bottom: Paint, tri: Paint },
    /// One colour.
    Solid(Paint),
    /// A star in the centre.
    Star { field: Paint, star: Paint },
    /// The Union Flag in the corner, and stars.
    Ensign(Paint),
    Swiss,
    Us,
    Canada,
    Uk,
    Brazil,
    Chile,
    Korea,
    Greece,
    China,
    Taiwan,
    Laos,
    /// No picture: the code of the country on a plain field.
    Chip,
}

/// What a [`Design`] is a picture of.
pub enum Layout {
    /// Equal bands, the first on top.
    Bands(Seq<Paint>),
    /// Equal stripes, the first on the left.
    Stripes(Seq<Paint>),
    /// A cross off the centre.
    Nordic { field: Paint, cross: Paint },
    /// A disc in the centre.
    Disc { field: Paint, disc: Paint },
    /// A cross in the centre, from edge to edge.
    Cross { field: Paint, cross: Paint },
    /// Two bands, and a triangle on the left.
    TriHoist { top: Paint, bottom: Paint, tri: Paint },
    /// One colour.
    Solid(Paint),
    /// A star in the centre.
    Star { field: Paint, star: Paint },
    /// The Union Flag in the corner, and stars.
    Ensign(Paint),
    Swiss,
    Us,
    Canada,
    Uk,
    Brazil,
    Chile,
    Korea,
    Greece,
    China,
    Taiwan,
    Laos,
    /// No picture: the code of the country on a plain field.
    Chip,
}

impl View for Design {
    type V = Layout;

    open spec fn view(&self) -> Layout {
        match self {
            Design::Bands(v) => Layout::Bands(v@),
            Design::Stripes(v) => Layout::Stripes(v@),
            Design::Nordic { field, cross } => Layout::Nordic { field: *field, cross: *cross },
            Design::Disc { field, disc } => Layout::Disc { field: *field, disc: *disc },
            Design::Cross { field, cross } => Layout::Cross { field: *field, cross: *cross },
            Design::TriHoist { top, bottom, tri } => Layout::TriHoist {
                top: *top,
                bottom: *bottom,
                tri: *tri,
            },
            Design::Solid(p) => Layout::Solid(*p),
            Design::Star { field, star } => Layout::Star { field: *field, star: *star },
            Design::Ensign(p) => Layout::Ensign(*p),
            Design::Swiss => Layout::Swiss,
            Design::Us => Layout::Us,
            Design::Canada => Layout::Canada,
            Design::Uk => Layout::Uk,
            Design::Brazil => Layout::Brazil,
            Design::Chile => Layout::Chile,
            Design::Korea => Layout::Korea,
            Design::Greece => Layout::Greece,
            Design::China => Layout::China,
            Design::Taiwan => Layout::Taiwan,
            Design::Laos => Layout::Laos,
            Design::Chip => Layout::Chip,
        }
    }
}

fn is_code(s: &[char], code: &str) -> (r: bool)
    ensures
        r == (s@ == code@),
{
    same(s, &chars_of(code))
}

/// The flags of the Americas.
pub open spec fn flags_of_americas(s: Seq<char>) -> Option<Layout> {
    if s == "US"@ {
        Some(Layout::Us)
    } else if s == "CA"@ {
        Some(Layout::Canada)
    } else if s == "MX"@ {
        Some(Layout::Stripes(seq![Paint::Green, Paint::White, Paint::Red]))
    } else if s == "PR"@ {
        Some(Layout::Bands(seq![Paint::Red, Paint::White, Paint::Red, Paint::White, Paint::Red]))
    } else if s == "CU"@ {
        Some(Layout::Bands(seq![Paint::Azure, Paint::White, Paint::Azure, Paint::White, Paint::Azure]))
    } else if s == "HT"@ {
        Some(Layout::Bands(seq![Paint::Azure, Paint::Red]))
    } else if s == "CR"@ {
        Some(Layout::Bands(seq![Paint::Azure, Paint::White, Paint::Red, Paint::White, Paint::Azure]))
    } else if s == "SV"@ || s == "HN"@ || s == "NI"@ {
        Some(Layout::Bands(seq![Paint::Azure, Paint::White, Paint::Azure]))
    } else if s == "GT"@ {
        Some(Layout::Stripes(seq![Paint::LightBlue, Paint::White, Paint::LightBlue]))
    } else if s == "BB"@ {
        Some(Layout::Stripes(seq![Paint::Azure, Paint::Gold, Paint::Azure]))
    } else if s == "VC"@ {
        Some(Layout::Stripes(seq![Paint::Azure, Paint::Gold, Paint::Green]))
    } else if s == "BR"@ {
        Some(Layout::Brazil)
    } else if s == "AR"@ {
        Some(Layout::Bands(seq![Paint::LightBlue, Paint::White, Paint::LightBlue]))
    } else if s == "CL"@ {
        Some(Layout::Chile)
    } else if s == "CO"@ || s == "EC"@ || s == "VE"@ {
        Some(Layout::Bands(seq![Paint::Gold, Paint::Azure, Paint::Red]))
    } else if s == "PE"@ {
        Some(Layout::Stripes(seq![Paint::Red, Paint::White, Paint::Red]))
    } else if s == "BO"@ {
        Some(Layout::Bands(seq![Paint::Red, Paint::Gold, Paint::Green]))
    } else if s == "PY"@ {
        Some(Layout::Bands(seq![Paint::Red, Paint::White, Paint::Azure]))
    } else if s == "SR"@ {
        Some(Layout::Bands(seq![Paint::Green, Paint::White, Paint::Red, Paint::White, Paint::Green]))
    } else {
        None
    }
}

fn find_americas(s: &[char]) -> (r: Option<Design>)
    ensures
        seen(r) == flags_of_americas(s@),
{
    if is_code(s, "US") {
        Some(Design::Us)
    } else if is_code(s, "CA") {
        Some(Design::Canada)
    } else if is_code(s, "MX") {
        Some(Design::Stripes(vec![Paint::Green, Paint::White, Paint::Red]))
    } else if is_code(s, "PR") {
        Some(Design::Bands(vec![Paint::Red, Paint::White, Paint::Red, Paint::White, Paint::Red]))
    } else if is_code(s, "CU") {
        Some(Design::Bands(vec![Paint::Azure, Paint::White, Paint::Azure, Paint::White, Paint::Azure]))
    } else if is_code(s, "HT") {
        Some(Design::Bands(vec![Paint::Azure, Paint::Red]))
    } else if is_code(s, "CR") {
        Some(Design::Bands(vec![Paint::Azure, Paint::White, Paint::Red, Paint::White, Paint::Azure]))
    } else if is_code(s, "SV") || is_code(s, "HN") || is_code(s, "NI") {
        Some(Design::Bands(vec![Paint::Azure, Paint::White, Paint::Azure]))
    } else if is_code(s, "GT") {
        Some(Design::Stripes(vec![Paint::LightBlue, Paint::White, Paint::LightBlue]))
    } else if is_code(s, "BB") {
        Some(Design::Stripes(vec![Paint::Azure, Paint::Gold, Paint::Azure]))
    } else if is_code(s, "VC") {
        Some(Design::Stripes(vec![Paint::Azure, Paint::Gold, Paint::Green]))
    } else if is_code(s, "BR") {
        Some(Design::Brazil)
    } else if is_code(s, "AR") {
        Some(Design::Bands(vec![Paint::LightBlue, Paint::White, Paint::LightBlue]))
    } else if is_code(s, "CL") {
        Some(Design::Chile)
    } else if is_code(s, "CO") || is_code(s, "EC") || is_code(s, "VE") {
        Some(Design::Bands(vec![Paint::Gold, Paint::Azure, Paint::Red]))
    } else if is_code(s, "PE") {
        Some(Design::Stripes(vec![Paint::Red, Paint::White, Paint::Red]))
    } else if is_code(s, "BO") {
        Some(Design::Bands(vec![Paint::Red, Paint::Gold, Paint::Green]))
    } else if is_code(s, "PY") {
        Some(Design::Bands(vec![Paint::Red, Paint::White, Paint::Azure]))
    } else if is_code(s, "SR") {
        Some(Design::Bands(vec![Paint::Green, Paint::White, Paint::Red, Paint::White, Paint::Green]))
    } else {
        None
    }
}

/// The flags of Europe.
pub open spec fn flags_of_europe(s: Seq<char>) -> Option<Layout> {
    if s == "GB"@ || s == "IM"@ || s == "JE"@ || s == "GG"@ {
        Some(Layout::Uk)
    } else if s == "IE"@ {
        Some(Layout::Stripes(seq![Paint::Green, Paint::White, Paint::Orange]))
    } else if s == "DE"@ {
        Some(Layout::Bands(seq![Paint::Black, Paint::Red, Paint::Gold]))
    } else if s == "FR"@ {
        Some(Layout::Stripes(seq![Paint::Blue, Paint::White, Paint::Red]))
    } else if s == "IT"@ {
        Some(Layout::Stripes(seq![Paint::Green, Paint::White, Paint::Red]))
    } else if s == "ES"@ {
        Some(Layout::Bands(seq![Paint::Red, Paint::Gold, Paint::Red]))
    } else if s == "PT"@ {
        Some(Layout::Stripes(seq![Paint::Green, Paint::Red]))
    } else if s == "NL"@ {
        Some(Layout::Bands(seq![Paint::Red, Paint::White, Paint::Blue]))
    } else if s == "BE"@ {
        Some(Layout::Stripes(seq![Paint::Black, Paint::Gold, Paint::Red]))
    } else if s == "LU"@ {
        Some(Layout::Bands(seq![Paint::Red, Paint::White, Paint::LightBlue]))
    } else if s == "CH"@ {
        Some(Layout::Swiss)
    } else if s == "LI"@ {
        Some(Layout::Bands(seq![Paint::Azure, Paint::Red]))
    } else if s == "AT"@ {
        Some(Layout::Bands(seq![Paint::Red, Paint::White, Paint::Red]))
    } else if s == "SE"@ {
        Some(Layout::Nordic { field: Paint::Azure, cross: Paint::Gold })
    } else if s == "DK"@ || s == "NO"@ {
        Some(Layout::Nordic { field: Paint::Red, cross: Paint::White })
    } else if s == "FI"@ {
        Some(Layout::Nordic { field: Paint::White, cross: Paint::Azure })
    } else if s == "IS"@ {
        Some(Layout::Nordic { field: Paint::Azure, cross: Paint::White })
    } else if s == "PL"@ {
        Some(Layout::Bands(seq![Paint::White, Paint::Red]))
    } else if s == "CZ"@ {
        Some(Layout::TriHoist { top: Paint::White, bottom: Paint::Red, tri: Paint::Azure })
    } else if s == "SK"@ || s == "SI"@ || s == "HR"@ || s == "RS"@ {
        Some(Layout::Bands(seq![Paint::White, Paint::Azure, Paint::Red]))
    } else if s == "HU"@ {
        Some(Layout::Bands(seq![Paint::Red, Paint::White, Paint::Green]))
    } else if s == "RO"@ || s == "MD"@ {
        Some(Layout::Stripes(seq![Paint::Azure, Paint::Gold, Paint::Red]))
    } else if s == "BG"@ {
        Some(Layout::Bands(seq![Paint::White, Paint::Green, Paint::Red]))
    } else if s == "MK"@ {
        Some(Layout::Disc { field: Paint::Red, disc: Paint::Gold })
    } else if s == "AL"@ {
        Some(Layout::Solid(Paint::Red))
    } else if s == "GR"@ {
        Some(Layout::Greece)
    } else if s == "EE"@ {
        Some(Layout::Bands(seq![Paint::Azure, Paint::Black, Paint::White]))
    } else if s == "LV"@ {
        Some(Layout::Bands(seq![Paint::Maroon, Paint::White, Paint::Maroon]))
    } else if s == "LT"@ {
        Some(Layout::Bands(seq![Paint::Gold, Paint::Green, Paint::Red]))
    } else if s == "UA"@ {
        Some(Layout::Bands(seq![Paint::Azure, Paint::Gold]))
    } else if s == "BY"@ {
        Some(Layout::Bands(seq![Paint::Red, Paint::Red, Paint::Green]))
    } else if s == "RU"@ {
        Some(Layout::Bands(seq![Paint::White, Paint::Azure, Paint::Red]))
    } else {
        None
    }
}

fn find_europe(s: &[char]) -> (r: Option<Design>)
    ensures
        seen(r) == flags_of_europe(s@),
{
    if is_code(s, "GB") || is_code(s, "IM") || is_code(s, "JE") || is_code(s, "GG") {
        Some(Design::Uk)
    } else if is_code(s, "IE") {
        Some(Design::Stripes(vec![Paint::Green, Paint::White, Paint::Orange]))
    } else if is_code(s, "DE") {
        Some(Design::Bands(vec![Paint::Black, Paint::Red, Paint::Gold]))
    } else if is_code(s, "FR") {
        Some(Design::Stripes(vec![Paint::Blue, Paint::White, Paint::Red]))
    } else if is_code(s, "IT") {
        Some(Design::Stripes(vec![Paint::Green, Paint::White, Paint::Red]))
    } else if is_code(s, "ES") {
        Some(Design::Bands(vec![Paint::Red, Paint::Gold, Paint::Red]))
    } else if is_code(s, "PT") {
        Some(Design::Stripes(vec![Paint::Green, Paint::Red]))
    } else if is_code(s, "NL") {
        Some(Design::Bands(vec![Paint::Red, Paint::White, Paint::Blue]))
    } else if is_code(s, "BE") {
        Some(Design::Stripes(vec![Paint::Black, Paint::Gold, Paint::Red]))
    } else if is_code(s, "LU") {
        Some(Design::Bands(vec![Paint::Red, Paint::White, Paint::LightBlue]))
    } else if is_code(s, "CH") {
        Some(Design::Swiss)
    } else if is_code(s, "LI") {
        Some(Design::Bands(vec![Paint::Azure, Paint::Red]))
    } else if is_code(s, "AT") {
        Some(Design::Bands(vec![Paint::Red, Paint::White, Paint::Red]))
    } else if is_code(s, "SE") {
        Some(Design::Nordic { field: Paint::Azure, cross: Paint::Gold })
    } else if is_code(s, "DK") || is_code(s, "NO") {
        Some(Design::Nordic { field: Paint::Red, cross: Paint::White })
    } else if is_code(s, "FI") {
        Some(Design::Nordic { field: Paint::White, cross: Paint::Azure })
    } else if is_code(s, "IS") {
        Some(Design::Nordic { field: Paint::Azure, cross: Paint::White })
    } else if is_code(s, "PL") {
        Some(Design::Bands(vec![Paint::White, Paint::Red]))
    } else if is_code(s, "CZ") {
        Some(Design::TriHoist { top: Paint::White, bottom: Paint::Red, tri: Paint::Azure })
    } else if is_code(s, "SK") || is_code(s, "SI") || is_code(s, "HR") || is_code(s, "RS") {
        Some(Design::Bands(vec![Paint::White, Paint::Azure, Paint::Red]))
    } else if is_code(s, "HU") {
        Some(Design::Bands(vec![Paint::Red, Paint::White, Paint::Green]))
    } else if is_code(s, "RO") || is_code(s, "MD") {
        Some(Design::Stripes(vec![Paint::Azure, Paint::Gold, Paint::Red]))
    } else if is_code(s, "BG") {
        Some(Design::Bands(vec![Paint::White, Paint::Green, Paint::Red]))
    } else if is_code(s, "MK") {
        Some(Design::Disc { field: Paint::Red, disc: Paint::Gold })
    } else if is_code(s, "AL") {
        Some(Design::Solid(Paint::Red))
    } else if is_code(s, "GR") {
        Some(Design::Greece)
    } else if is_code(s, "EE") {
        Some(Design::Bands(vec![Paint::Azure, Paint::Black, Paint::White]))
    } else if is_code(s, "LV") {
        Some(Design::Bands(vec![Paint::Maroon, Paint::White, Paint::Maroon]))
    } else if is_code(s, "LT") {
        Some(Design::Bands(vec![Paint::Gold, Paint::Green, Paint::Red]))
    } else if is_code(s, "UA") {
        Some(Design::Bands(vec![Paint::Azure, Paint::Gold]))
    } else if is_code(s, "BY") {
        Some(Design::Bands(vec![Paint::Red, Paint::Red, Paint::Green]))
    } else if is_code(s, "RU") {
        Some(Design::Bands(vec![Paint::White, Paint::Azure, Paint::Red]))
    } else {
        None
    }
}

/// The flags of the Caucasus and Central Asia.
pub open spec fn flags_of_central_asia(s: Seq<char>) -> Option<Layout> {
    if s == "KZ"@ {
        Some(Layout::Disc { field: Paint::Azure, disc: Paint::Gold })
    } else if s == "KG"@ {
        Some(Layout::Disc { field: Paint::Red, disc: Paint::Gold })
    } else if s == "TJ"@ {
        Some(Layout::Bands(seq![Paint::Red, Paint::White, Paint::Green]))
    } else if s == "TM"@ {
        Some(Layout::Solid(Paint::Green))
    } else if s == "UZ"@ {
        Some(Layout::Bands(seq![Paint::Azure, Paint::White, Paint::Green]))
    } else if s == "GE"@ {
        Some(Layout::Cross { field: Paint::White, cross: Paint::Red })
    } else if s == "AM"@ {
        Some(Layout::Bands(seq![Paint::Red, Paint::Azure, Paint::Orange]))
    } else if s == "AZ"@ {
        Some(Layout::Bands(seq![Paint::Azure, Paint::Red, Paint::Green]))
    } else {
        None
    }
}

fn find_central_asia(s: &[char]) -> (r: Option<Design>)
    ensures
        seen(r) == flags_of_central_asia(s@),
{
    if is_code(s, "KZ") {
        Some(Design::Disc { field: Paint::Azure, disc: Paint::Gold })
    } else if is_code(s, "KG") {
        Some(Design::Disc { field: Paint::Red, disc: Paint::Gold })
    } else if is_code(s, "TJ") {
        Some(Design::Bands(vec![Paint::Red, Paint::White, Paint::Green]))
    } else if is_code(s, "TM") {
        Some(Design::Solid(Paint::Green))
    } else if is_code(s, "UZ") {
        Some(Design::Bands(vec![Paint::Azure, Paint::White, Paint::Green]))
    } else if is_code(s, "GE") {
        Some(Design::Cross { field: Paint::White, cross: Paint::Red })
    } else if is_code(s, "AM") {
        Some(Design::Bands(vec![Paint::Red, Paint::Azure, Paint::Orange]))
    } else if is_code(s, "AZ") {
        Some(Design::Bands(vec![Paint::Azure, Paint::Red, Paint::Green]))
    } else {
        None
    }
}

/// The flags of the Mediterranean and the Middle East.
pub open spec fn flags_of_middle_east(s: Seq<char>) -> Option<Layout> {
    if s == "MT"@ {
        Some(Layout::Stripes(seq![Paint::White, Paint::Red]))
    } else if s == "TR"@ {
        Some(Layout::Disc { field: Paint::Red, disc: Paint::White })
    } else if s == "IL"@ {
        Some(Layout::Bands(seq![Paint::Azure, Paint::White, Paint::Azure]))
    } else if s == "JO"@ {
        Some(Layout::Bands(seq![Paint::Black, Paint::White, Paint::Green]))
    } else if s == "LB"@ {
        Some(Layout::Bands(seq![Paint::Red, Paint::White, Paint::Red]))
    } else if s == "SY"@ || s == "IQ"@ || s == "EG"@ {
        Some(Layout::Bands(seq![Paint::Red, Paint::White, Paint::Black]))
    } else if s == "IR"@ {
        Some(Layout::Bands(seq![Paint::Green, Paint::White, Paint::Red]))
    } else if s == "AE"@ {
        Some(Layout::Bands(seq![Paint::Green, Paint::White, Paint::Black]))
    } else if s == "QA"@ {
        Some(Layout::Stripes(seq![Paint::White, Paint::Maroon]))
    } else if s == "BH"@ {
        Some(Layout::Stripes(seq![Paint::White, Paint::Red]))
    } else if s == "KW"@ {
        Some(Layout::Bands(seq![Paint::Green, Paint::White, Paint::Red]))
    } else if s == "SA"@ {
        Some(Layout::Solid(Paint::Green))
    } else if s == "BW"@ {
        Some(Layout::Bands(seq![Paint::LightBlue, Paint::Black, Paint::LightBlue]))
    } else {
        None
    }
}

fn find_middle_east(s: &[char]) -> (r: Option<Design>)
    ensures
        seen(r) == flags_of_middle_east(s@),
{
    if is_code(s, "MT") {
        Some(Design::Stripes(vec![Paint::White, Paint::Red]))
    } else if is_code(s, "TR") {
        Some(Design::Disc { field: Paint::Red, disc: Paint::White })
    } else if is_code(s, "IL") {
        Some(Design::Bands(vec![Paint::Azure, Paint::White, Paint::Azure]))
    } else if is_code(s, "JO") {
        Some(Design::Bands(vec![Paint::Black, Paint::White, Paint::Green]))
    } else if is_code(s, "LB") {
        Some(Design::Bands(vec![Paint::Red, Paint::White, Paint::Red]))
    } else if is_code(s, "SY") || is_code(s, "IQ") || is_code(s, "EG") {
        Some(Design::Bands(vec![Paint::Red, Paint::White, Paint::Black]))
    } else if is_code(s, "IR") {
        Some(Design::Bands(vec![Paint::Green, Paint::White, Paint::Red]))
    } else if is_code(s, "AE") {
        Some(Design::Bands(vec![Paint::Green, Paint::White, Paint::Black]))
    } else if is_code(s, "QA") {
        Some(Design::Stripes(vec![Paint::White, Paint::Maroon]))
    } else if is_code(s, "BH") {
        Some(Design::Stripes(vec![Paint::White, Paint::Red]))
    } else if is_code(s, "KW") {
        Some(Design::Bands(vec![Paint::Green, Paint::White, Paint::Red]))
    } else if is_code(s, "SA") {
        Some(Design::Solid(Paint::Green))
    } else if is_code(s, "BW") {
        Some(Design::Bands(vec![Paint::LightBlue, Paint::Black, Paint::LightBlue]))
    } else {
        None
    }
}

/// The flags of Africa.
pub open spec fn flags_of_africa(s: Seq<char>) -> Option<Layout> {
    if s == "MA"@ {
        Some(Layout::Star { field: Paint::Red, star: Paint::Green })
    } else if s == "DZ"@ {
        Some(Layout::Stripes(seq![Paint::Green, Paint::White]))
    } else if s == "TN"@ {
        Some(Layout::Disc { field: Paint::Red, disc: Paint::White })
    } else if s == "LY"@ {
        Some(Layout::Bands(seq![Paint::Red, Paint::Black, Paint::Green]))
    } else if s == "KE"@ {
        Some(Layout::Bands(seq![Paint::Black, Paint::Red, Paint::Green]))
    } else if s == "NG"@ {
        Some(Layout::Stripes(seq![Paint::Green, Paint::White, Paint::Green]))
    } else if s == "GH"@ {
        Some(Layout::Bands(seq![Paint::Red, Paint::Gold, Paint::Green]))
    } else if s == "AO"@ {
        Some(Layout::Bands(seq![Paint::Red, Paint::Black]))
    } else if s == "MU"@ {
        Some(Layout::Bands(seq![Paint::Red, Paint::Azure, Paint::Gold, Paint::Green]))
    } else {
        None
    }
}

fn find_africa(s: &[char]) -> (r: Option<Design>)
    ensures
        seen(r) == flags_of_africa(s@),
{
    if is_code(s, "MA") {
        Some(Design::Star { field: Paint::Red, star: Paint::Green })
    } else if is_code(s, "DZ") {
        Some(Design::Stripes(vec![Paint::Green, Paint::White]))
    } else if is_code(s, "TN") {
        Some(Design::Disc { field: Paint::Red, disc: Paint::White })
    } else if is_code(s, "LY") {
        Some(Design::Bands(vec![Paint::Red, Paint::Black, Paint::Green]))
    } else if is_code(s, "KE") {
        Some(Design::Bands(vec![Paint::Black, Paint::Red, Paint::Green]))
    } else if is_code(s, "NG") {
        Some(Design::Stripes(vec![Paint::Green, Paint::White, Paint::Green]))
    } else if is_code(s, "GH") {
        Some(Design::Bands(vec![Paint::Red, Paint::Gold, Paint::Green]))
    } else if is_code(s, "AO") {
        Some(Design::Bands(vec![Paint::Red, Paint::Black]))
    } else if is_code(s, "MU") {
        Some(Design::Bands(vec![Paint::Red, Paint::Azure, Paint::Gold, Paint::Green]))
    } else {
        None
    }
}

/// The flags of Asia.
pub open spec fn flags_of_asia(s: Seq<char>) -> Option<Layout> {
    if s == "JP"@ {
        Some(Layout::Disc { field: Paint::White, disc: Paint::Red })
    } else if s == "KR"@ {
        Some(Layout::Korea)
    } else if s == "CN"@ {
        Some(Layout::China)
    } else if s == "TW"@ {
        Some(Layout::Taiwan)
    } else if s == "HK"@ {
        Some(Layout::Disc { field: Paint::Red, disc: Paint::White })
    } else if s == "MO"@ {
        Some(Layout::Disc { field: Paint::Green, disc: Paint::White })
    } else if s == "IN"@ {
        Some(Layout::Bands(seq![Paint::Saffron, Paint::White, Paint::Green]))
    } else if s == "PK"@ {
        Some(Layout::Stripes(seq![Paint::White, Paint::Green, Paint::Green, Paint::Green]))
    } else if s == "BD"@ {
        Some(Layout::Disc { field: Paint::Green, disc: Paint::Red })
    } else if s == "LA"@ {
        Some(Layout::Laos)
    } else if s == "MM"@ {
        Some(Layout::Bands(seq![Paint::Gold, Paint::Green, Paint::Red]))
    } else if s == "TH"@ {
        Some(Layout::Bands(seq![Paint::Red, Paint::White, Paint::Azure, Paint::White, Paint::Red]))
    } else if s == "VN"@ {
        Some(Layout::Star { field: Paint::Red, star: Paint::Gold })
    } else if s == "SG"@ {
        Some(Layout::Bands(seq![Paint::Red, Paint::White]))
    } else if s == "ID"@ {
        Some(Layout::Bands(seq![Paint::Red, Paint::White]))
    } else if s == "PH"@ {
        Some(Layout::TriHoist { top: Paint::Azure, bottom: Paint::Red, tri: Paint::White })
    } else {
        None
    }
}

fn find_asia(s: &[char]) -> (r: Option<Design>)
    ensures
        seen(r) == flags_of_asia(s@),
{
    if is_code(s, "JP") {
        Some(Design::Disc { field: Paint::White, disc: Paint::Red })
    } else if is_code(s, "KR") {
        Some(Design::Korea)
    } else if is_code(s, "CN") {
        Some(Design::China)
    } else if is_code(s, "TW") {
        Some(Design::Taiwan)
    } else if is_code(s, "HK") {
        Some(Design::Disc { field: Paint::Red, disc: Paint::White })
    } else if is_code(s, "MO") {
        Some(Design::Disc { field: Paint::Green, disc: Paint::White })
    } else if is_code(s, "IN") {
        Some(Design::Bands(vec![Paint::Saffron, Paint::White, Paint::Green]))
    } else if is_code(s, "PK") {
        Some(Design::Stripes(vec![Paint::White, Paint::Green, Paint::Green, Paint::Green]))
    } else if is_code(s, "BD") {
        Some(Design::Disc { field: Paint::Green, disc: Paint::Red })
    } else if is_code(s, "LA") {
        Some(Design::Laos)
    } else if is_code(s, "MM") {
        Some(Design::Bands(vec![Paint::Gold, Paint::Green, Paint::Red]))
    } else if is_code(s, "TH") {
        Some(Design::Bands(vec![Paint::Red, Paint::White, Paint::Azure, Paint::White, Paint::Red]))
    } else if is_code(s, "VN") {
        Some(Design::Star { field: Paint::Red, star: Paint::Gold })
    } else if is_code(s, "SG") {
        Some(Design::Bands(vec![Paint::Red, Paint::White]))
    } else if is_code(s, "ID") {
        Some(Design::Bands(vec![Paint::Red, Paint::White]))
    } else if is_code(s, "PH") {
        Some(Design::TriHoist { top: Paint::Azure, bottom: Paint::Red, tri: Paint::White })
    } else {
        None
    }
}

/// The flags of Oceania.
pub open spec fn flags_of_oceania(s: Seq<char>) -> Option<Layout> {
    if s == "AU"@ || s == "NZ"@ || s == "CK"@ {
        Some(Layout::Ensign(Paint::Azure))
    } else if s == "FJ"@ {
        Some(Layout::Ensign(Paint::LightBlue))
    } else {
        None
    }
}

fn find_oceania(s: &[char]) -> (r: Option<Design>)
    ensures
        seen(r) == flags_of_oceania(s@),
{
    if is_code(s, "AU") || is_code(s, "NZ") || is_code(s, "CK") {
        Some(Design::Ensign(Paint::Azure))
    } else if is_code(s, "FJ") {
        Some(Design::Ensign(Paint::LightBlue))
    } else {
        None
    }
}

/// An optional design as a picture.
pub open spec fn seen(d: Option<Design>) -> Option<Layout> {
    match d {
        Some(x) => Some(x@),
        None => None,
    }
}

/// The flag of a country by its ISO 3166 code. A country that is not listed has a chip.
pub open spec fn flag_of(s: Seq<char>) -> Layout {
    match flags_of_americas(s) {
        Some(f) => f,
        None => match flags_of_europe(s) {
            Some(f) => f,
            None => match flags_of_central_asia(s) {
                Some(f) => f,
                None => match flags_of_middle_east(s) {
                    Some(f) => f,
                    None => match flags_of_africa(s) {
                        Some(f) => f,
                        None => match flags_of_asia(s) {
                            Some(f) => f,
                            None => match flags_of_oceania(s) {
                                Some(f) => f,
                                None => Layout::Chip,
                            },
                        },
                    },
                },
            },
        },
    }
}

/// The flag of a country by its ISO 3166 code. A country that is not listed has a chip.
pub fn design(iso: &str) -> (d: Design)
    ensures
        d@ == flag_of(iso@),
{
    let s: Vec<char> = chars_of(iso);
    match find_americas(&s) {
        Some(f) => f,
        None => match find_europe(&s) {
            Some(f) => f,
            None => match find_central_asia(&s) {
                Some(f) => f,
                None => match find_middle_east(&s) {
                    Some(f) => f,
                    None => match find_africa(&s) {
                        Some(f) => f,
                        None => match find_asia(&s) {
                            Some(f) => f,
                            None => match find_oceania(&s) {
                                Some(f) => f,
                                None => Design::Chip,
                            },
                        },
                    },
                },
            },
        },
    }
}

/// Whether a picture can be told from a plain field: the bands and stripes are not all of one
/// colour, and a field is of another than what stands on it.
pub open spec fn readable(f: Layout) -> bool {
    match f {
        Layout::Bands(v) => v.len() >= 2 && (v[0] != v[1] || v[0] != v.last()),
        Layout::Stripes(v) => v.len() >= 2 && (v[0] != v[1] || v[0] != v.last()),
        Layout::Nordic { field, cross } => field != cross,
        Layout::Disc { field, disc } => field != disc,
        Layout::Cross { field, cross } => field != cross,
        Layout::TriHoist { top, bottom, tri } => top != tri && bottom != tri,
        Layout::Star { field, star } => field != star,
        _ => true,
    }
}

proof fn lemma_readable_americas(s: Seq<char>)
    ensures
        flags_of_americas(s) matches Some(f) ==> readable(f),
{
}

proof fn lemma_readable_europe(s: Seq<char>)
    ensures
        flags_of_europe(s) matches Some(f) ==> readable(f),
{
}

proof fn lemma_readable_central_asia(s: Seq<char>)
    ensures
        flags_of_central_asia(s) matches Some(f) ==> readable(f),
{
}

proof fn lemma_readable_middle_east(s: Seq<char>)
    ensures
        flags_of_middle_east(s) matches Some(f) ==> readable(f),
{
}

proof fn lemma_readable_africa(s: Seq<char>)
    ensures
        flags_of_africa(s) matches Some(f) ==> readable(f),
{
}

proof fn lemma_readable_asia(s: Seq<char>)
    ensures
        flags_of_asia(s) matches Some(f) ==> readable(f),
{
}

proof fn lemma_readable_oceania(s: Seq<char>)
    ensures
        flags_of_oceania(s) matches Some(f) ==> readable(f),
{
}

/// Every flag can be told from a plain field.
pub proof fn law_flags_are_readable(s: Seq<char>)
    ensures
        readable(flag_of(s)),
{
    lemma_readable_americas(s);
    lemma_readable_europe(s);
    lemma_readable_central_asia(s);
    lemma_readable_middle_east(s);
    lemma_readable_africa(s);
    lemma_readable_asia(s);
    lemma_readable_oceania(s);
}

/// Every colour looks different from every other.
pub proof fn law_colours_differ(a: Paint, b: Paint)
    ensures
        shade(a) == shade(b) ==> a == b,
{
}

} // verus!
