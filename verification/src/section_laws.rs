//! Where the sections of Field Day lie: each region of the continent holds its own.

use vstd::prelude::*;

use crate::panel_data::GridLoc;

verus! {

/// Whether the middle of a region lies between two meridians and two parallels, in degrees, the
/// edges among them.
pub open spec fn middle_between(g: GridLoc, west: int, east: int, south: int, north: int) -> bool {
    3_600 * west <= g.lon <= 3_600 * east && 3_600 * south <= g.lat <= 3_600 * north
}

/// Whether a section is one of New England.
pub open spec fn in_new_england(s: Seq<char>) -> bool {
    ||| s == "CT"@
    ||| s == "ME"@
    ||| s == "NH"@
    ||| s == "RI"@
    ||| s == "VT"@
    ||| s == "EMA"@
    ||| s == "WMA"@
}

/// The sections of New England lie there, between -73 and -69 degrees of longitude and 41 and 46
/// degrees of latitude, each around a middle of its own.
pub proof fn law_sections_of_new_england(s: Seq<char>, t: Seq<char>)
    requires
        in_new_england(s),
        in_new_england(t),
    ensures
        crate::panel_data::section_region(s) matches Some(g) && middle_between(g, -73, -69, 41, 46),
        s != t ==> crate::panel_data::section_region(s) is Some
            && crate::panel_data::section_region(t) is Some && (
        crate::panel_data::section_region(s)->Some_0.lon
            != crate::panel_data::section_region(t)->Some_0.lon
            || crate::panel_data::section_region(s)->Some_0.lat
            != crate::panel_data::section_region(t)->Some_0.lat),
{
    lemma_new_england(s);
    lemma_new_england(t);
}

proof fn lemma_new_england(s: Seq<char>)
    requires
        in_new_england(s),
    ensures
        s == "CT"@ ==> (crate::panel_data::section_region(s) matches Some(g) && g.lon == -261720 && g.lat
            == 149760),
        s == "ME"@ ==> (crate::panel_data::section_region(s) matches Some(g) && g.lon == -249120 && g.lat
            == 163440),
        s == "NH"@ ==> (crate::panel_data::section_region(s) matches Some(g) && g.lon == -257760 && g.lat
            == 157320),
        s == "RI"@ ==> (crate::panel_data::section_region(s) matches Some(g) && g.lon == -257400 && g.lat
            == 150120),
        s == "VT"@ ==> (crate::panel_data::section_region(s) matches Some(g) && g.lon == -261720 && g.lat
            == 158760),
        s == "EMA"@ ==> (crate::panel_data::section_region(s) matches Some(g) && g.lon == -255600 && g.lat
            == 152640),
        s == "WMA"@ ==> (crate::panel_data::section_region(s) matches Some(g) && g.lon == -261360 && g.lat
            == 152640),
{
    lemma_section_names();
    if s == "CT"@ {
        assert(s.len() == 2 && s[0] == 'C' && s[1] == 'T');
    }
    if s == "ME"@ {
        assert(s.len() == 2 && s[0] == 'M' && s[1] == 'E');
    }
    if s == "NH"@ {
        assert(s.len() == 2 && s[0] == 'N' && s[1] == 'H');
    }
    if s == "RI"@ {
        assert(s.len() == 2 && s[0] == 'R' && s[1] == 'I');
    }
    if s == "VT"@ {
        assert(s.len() == 2 && s[0] == 'V' && s[1] == 'T');
    }
    if s == "EMA"@ {
        assert(s.len() == 3 && s[0] == 'E' && s[1] == 'M' && s[2] == 'A');
    }
    if s == "WMA"@ {
        assert(s.len() == 3 && s[0] == 'W' && s[1] == 'M' && s[2] == 'A');
    }
}

/// Whether a section is one of New York and New Jersey.
pub open spec fn in_new_york_and_new_jersey(s: Seq<char>) -> bool {
    ||| s == "ENY"@
    ||| s == "NNY"@
    ||| s == "NLI"@
    ||| s == "NNJ"@
    ||| s == "SNJ"@
}

/// The sections of New York and New Jersey lie there, between -75 and -73 degrees of longitude and 39 and 45
/// degrees of latitude, each around a middle of its own.
pub proof fn law_sections_of_new_york_and_new_jersey(s: Seq<char>, t: Seq<char>)
    requires
        in_new_york_and_new_jersey(s),
        in_new_york_and_new_jersey(t),
    ensures
        crate::panel_data::section_region(s) matches Some(g) && middle_between(g, -75, -73, 39, 45),
        s != t ==> crate::panel_data::section_region(s) is Some
            && crate::panel_data::section_region(t) is Some && (
        crate::panel_data::section_region(s)->Some_0.lon
            != crate::panel_data::section_region(t)->Some_0.lon
            || crate::panel_data::section_region(s)->Some_0.lat
            != crate::panel_data::section_region(t)->Some_0.lat),
{
    lemma_new_york_and_new_jersey(s);
    lemma_new_york_and_new_jersey(t);
}

proof fn lemma_new_york_and_new_jersey(s: Seq<char>)
    requires
        in_new_york_and_new_jersey(s),
    ensures
        s == "ENY"@ ==> (crate::panel_data::section_region(s) matches Some(g) && g.lon == -266040 && g.lat
            == 153360),
        s == "NNY"@ ==> (crate::panel_data::section_region(s) matches Some(g) && g.lon == -270000 && g.lat
            == 159120),
        s == "NLI"@ ==> (crate::panel_data::section_region(s) matches Some(g) && g.lon == -263880 && g.lat
            == 146880),
        s == "NNJ"@ ==> (crate::panel_data::section_region(s) matches Some(g) && g.lon == -267840 && g.lat
            == 146880),
        s == "SNJ"@ ==> (crate::panel_data::section_region(s) matches Some(g) && g.lon == -268920 && g.lat
            == 142200),
{
    lemma_section_names();
    if s == "ENY"@ {
        assert(s.len() == 3 && s[0] == 'E' && s[1] == 'N' && s[2] == 'Y');
    }
    if s == "NNY"@ {
        assert(s.len() == 3 && s[0] == 'N' && s[1] == 'N' && s[2] == 'Y');
    }
    if s == "NLI"@ {
        assert(s.len() == 3 && s[0] == 'N' && s[1] == 'L' && s[2] == 'I');
    }
    if s == "NNJ"@ {
        assert(s.len() == 3 && s[0] == 'N' && s[1] == 'N' && s[2] == 'J');
    }
    if s == "SNJ"@ {
        assert(s.len() == 3 && s[0] == 'S' && s[1] == 'N' && s[2] == 'J');
    }
}

/// Whether a section is one of the middle of the Atlantic coast.
pub open spec fn in_middle_atlantic(s: Seq<char>) -> bool {
    ||| s == "DE"@
    ||| s == "EPA"@
    ||| s == "WPA"@
    ||| s == "MDC"@
}

/// The sections of the middle of the Atlantic coast lie there, between -80 and -75 degrees of longitude and 39 and 41
/// degrees of latitude, each around a middle of its own.
pub proof fn law_sections_of_middle_atlantic(s: Seq<char>, t: Seq<char>)
    requires
        in_middle_atlantic(s),
        in_middle_atlantic(t),
    ensures
        crate::panel_data::section_region(s) matches Some(g) && middle_between(g, -80, -75, 39, 41),
        s != t ==> crate::panel_data::section_region(s) is Some
            && crate::panel_data::section_region(t) is Some && (
        crate::panel_data::section_region(s)->Some_0.lon
            != crate::panel_data::section_region(t)->Some_0.lon
            || crate::panel_data::section_region(s)->Some_0.lat
            != crate::panel_data::section_region(t)->Some_0.lat),
{
    lemma_middle_atlantic(s);
    lemma_middle_atlantic(t);
}

proof fn lemma_middle_atlantic(s: Seq<char>)
    requires
        in_middle_atlantic(s),
    ensures
        s == "DE"@ ==> (crate::panel_data::section_region(s) matches Some(g) && g.lon == -271800 && g.lat
            == 140400),
        s == "EPA"@ ==> (crate::panel_data::section_region(s) matches Some(g) && g.lon == -273600 && g.lat
            == 147240),
        s == "WPA"@ ==> (crate::panel_data::section_region(s) matches Some(g) && g.lon == -286920 && g.lat
            == 147600),
        s == "MDC"@ ==> (crate::panel_data::section_region(s) matches Some(g) && g.lon == -276480 && g.lat
            == 140400),
{
    lemma_section_names();
    if s == "DE"@ {
        assert(s.len() == 2 && s[0] == 'D' && s[1] == 'E');
    }
    if s == "EPA"@ {
        assert(s.len() == 3 && s[0] == 'E' && s[1] == 'P' && s[2] == 'A');
    }
    if s == "WPA"@ {
        assert(s.len() == 3 && s[0] == 'W' && s[1] == 'P' && s[2] == 'A');
    }
    if s == "MDC"@ {
        assert(s.len() == 3 && s[0] == 'M' && s[1] == 'D' && s[2] == 'C');
    }
}

/// Whether a section is one of the South East.
pub open spec fn in_south_east(s: Seq<char>) -> bool {
    ||| s == "AL"@
    ||| s == "GA"@
    ||| s == "KY"@
    ||| s == "NC"@
    ||| s == "SC"@
    ||| s == "TN"@
    ||| s == "VA"@
    ||| s == "NFL"@
    ||| s == "SFL"@
    ||| s == "WCF"@
}

/// The sections of the South East lie there, between -87 and -78 degrees of longitude and 26 and 38
/// degrees of latitude, each around a middle of its own.
pub proof fn law_sections_of_south_east(s: Seq<char>, t: Seq<char>)
    requires
        in_south_east(s),
        in_south_east(t),
    ensures
        crate::panel_data::section_region(s) matches Some(g) && middle_between(g, -87, -78, 26, 38),
        s != t ==> crate::panel_data::section_region(s) is Some
            && crate::panel_data::section_region(t) is Some && (
        crate::panel_data::section_region(s)->Some_0.lon
            != crate::panel_data::section_region(t)->Some_0.lon
            || crate::panel_data::section_region(s)->Some_0.lat
            != crate::panel_data::section_region(t)->Some_0.lat),
{
    lemma_south_east(s);
    lemma_south_east(t);
}

proof fn lemma_south_east(s: Seq<char>)
    requires
        in_south_east(s),
    ensures
        s == "AL"@ ==> (crate::panel_data::section_region(s) matches Some(g) && g.lon == -312480 && g.lat
            == 118080),
        s == "GA"@ ==> (crate::panel_data::section_region(s) matches Some(g) && g.lon == -300600 && g.lat
            == 117720),
        s == "KY"@ ==> (crate::panel_data::section_region(s) matches Some(g) && g.lon == -307080 && g.lat
            == 135000),
        s == "NC"@ ==> (crate::panel_data::section_region(s) matches Some(g) && g.lon == -285840 && g.lat
            == 127800),
        s == "SC"@ ==> (crate::panel_data::section_region(s) matches Some(g) && g.lon == -291240 && g.lat
            == 122040),
        s == "TN"@ ==> (crate::panel_data::section_region(s) matches Some(g) && g.lon == -310680 && g.lat
            == 128880),
        s == "VA"@ ==> (crate::panel_data::section_region(s) matches Some(g) && g.lon == -283320 && g.lat
            == 135000),
        s == "NFL"@ ==> (crate::panel_data::section_region(s) matches Some(g) && g.lon == -297000 && g.lat
            == 108000),
        s == "SFL"@ ==> (crate::panel_data::section_region(s) matches Some(g) && g.lon == -289800 && g.lat
            == 94680),
        s == "WCF"@ ==> (crate::panel_data::section_region(s) matches Some(g) && g.lon == -295920 && g.lat
            == 100800),
{
    lemma_section_names();
    if s == "AL"@ {
        assert(s.len() == 2 && s[0] == 'A' && s[1] == 'L');
    }
    if s == "GA"@ {
        assert(s.len() == 2 && s[0] == 'G' && s[1] == 'A');
    }
    if s == "KY"@ {
        assert(s.len() == 2 && s[0] == 'K' && s[1] == 'Y');
    }
    if s == "NC"@ {
        assert(s.len() == 2 && s[0] == 'N' && s[1] == 'C');
    }
    if s == "SC"@ {
        assert(s.len() == 2 && s[0] == 'S' && s[1] == 'C');
    }
    if s == "TN"@ {
        assert(s.len() == 2 && s[0] == 'T' && s[1] == 'N');
    }
    if s == "VA"@ {
        assert(s.len() == 2 && s[0] == 'V' && s[1] == 'A');
    }
    if s == "NFL"@ {
        assert(s.len() == 3 && s[0] == 'N' && s[1] == 'F' && s[2] == 'L');
    }
    if s == "SFL"@ {
        assert(s.len() == 3 && s[0] == 'S' && s[1] == 'F' && s[2] == 'L');
    }
    if s == "WCF"@ {
        assert(s.len() == 3 && s[0] == 'W' && s[1] == 'C' && s[2] == 'F');
    }
}

/// Whether a section is one of the South between the Mississippi and New Mexico.
pub open spec fn in_south(s: Seq<char>) -> bool {
    ||| s == "AR"@
    ||| s == "LA"@
    ||| s == "MS"@
    ||| s == "NM"@
    ||| s == "OK"@
    ||| s == "NTX"@
    ||| s == "STX"@
    ||| s == "WTX"@
}

/// The sections of the South between the Mississippi and New Mexico lie there, between -107 and -89 degrees of longitude and 29 and 36
/// degrees of latitude, each around a middle of its own.
pub proof fn law_sections_of_south(s: Seq<char>, t: Seq<char>)
    requires
        in_south(s),
        in_south(t),
    ensures
        crate::panel_data::section_region(s) matches Some(g) && middle_between(g, -107, -89, 29, 36),
        s != t ==> crate::panel_data::section_region(s) is Some
            && crate::panel_data::section_region(t) is Some && (
        crate::panel_data::section_region(s)->Some_0.lon
            != crate::panel_data::section_region(t)->Some_0.lon
            || crate::panel_data::section_region(s)->Some_0.lat
            != crate::panel_data::section_region(t)->Some_0.lat),
{
    lemma_south(s);
    lemma_south(t);
}

proof fn lemma_south(s: Seq<char>)
    requires
        in_south(s),
    ensures
        s == "AR"@ ==> (crate::panel_data::section_region(s) matches Some(g) && g.lon == -332640 && g.lat
            == 125280),
        s == "LA"@ ==> (crate::panel_data::section_region(s) matches Some(g) && g.lon == -331200 && g.lat
            == 111600),
        s == "MS"@ ==> (crate::panel_data::section_region(s) matches Some(g) && g.lon == -322920 && g.lat
            == 117720),
        s == "NM"@ ==> (crate::panel_data::section_region(s) matches Some(g) && g.lon == -381960 && g.lat
            == 124200),
        s == "OK"@ ==> (crate::panel_data::section_region(s) matches Some(g) && g.lon == -351000 && g.lat
            == 127800),
        s == "NTX"@ ==> (crate::panel_data::section_region(s) matches Some(g) && g.lon == -349200 && g.lat
            == 118800),
        s == "STX"@ ==> (crate::panel_data::section_region(s) matches Some(g) && g.lon == -354600 && g.lat
            == 104400),
        s == "WTX"@ ==> (crate::panel_data::section_region(s) matches Some(g) && g.lon == -367200 && g.lat
            == 113400),
{
    lemma_section_names();
    if s == "AR"@ {
        assert(s.len() == 2 && s[0] == 'A' && s[1] == 'R');
    }
    if s == "LA"@ {
        assert(s.len() == 2 && s[0] == 'L' && s[1] == 'A');
    }
    if s == "MS"@ {
        assert(s.len() == 2 && s[0] == 'M' && s[1] == 'S');
    }
    if s == "NM"@ {
        assert(s.len() == 2 && s[0] == 'N' && s[1] == 'M');
    }
    if s == "OK"@ {
        assert(s.len() == 2 && s[0] == 'O' && s[1] == 'K');
    }
    if s == "NTX"@ {
        assert(s.len() == 3 && s[0] == 'N' && s[1] == 'T' && s[2] == 'X');
    }
    if s == "STX"@ {
        assert(s.len() == 3 && s[0] == 'S' && s[1] == 'T' && s[2] == 'X');
    }
    if s == "WTX"@ {
        assert(s.len() == 3 && s[0] == 'W' && s[1] == 'T' && s[2] == 'X');
    }
}

/// Whether a section is one of California.
pub open spec fn in_california(s: Seq<char>) -> bool {
    ||| s == "EB"@
    ||| s == "LAX"@
    ||| s == "ORG"@
    ||| s == "SB"@
    ||| s == "SCV"@
    ||| s == "SDG"@
    ||| s == "SF"@
    ||| s == "SJV"@
    ||| s == "SV"@
}

/// The sections of California lie there, between -123 and -116 degrees of longitude and 33 and 40
/// degrees of latitude, each around a middle of its own.
pub proof fn law_sections_of_california(s: Seq<char>, t: Seq<char>)
    requires
        in_california(s),
        in_california(t),
    ensures
        crate::panel_data::section_region(s) matches Some(g) && middle_between(g, -123, -116, 33, 40),
        s != t ==> crate::panel_data::section_region(s) is Some
            && crate::panel_data::section_region(t) is Some && (
        crate::panel_data::section_region(s)->Some_0.lon
            != crate::panel_data::section_region(t)->Some_0.lon
            || crate::panel_data::section_region(s)->Some_0.lat
            != crate::panel_data::section_region(t)->Some_0.lat),
{
    lemma_california(s);
    lemma_california(t);
}

proof fn lemma_california(s: Seq<char>)
    requires
        in_california(s),
    ensures
        s == "EB"@ ==> (crate::panel_data::section_region(s) matches Some(g) && g.lon == -439200 && g.lat
            == 136080),
        s == "LAX"@ ==> (crate::panel_data::section_region(s) matches Some(g) && g.lon == -425880 && g.lat
            == 122760),
        s == "ORG"@ ==> (crate::panel_data::section_region(s) matches Some(g) && g.lon == -424080 && g.lat
            == 121320),
        s == "SB"@ ==> (crate::panel_data::section_region(s) matches Some(g) && g.lon == -431280 && g.lat
            == 124920),
        s == "SCV"@ ==> (crate::panel_data::section_region(s) matches Some(g) && g.lon == -438480 && g.lat
            == 133920),
        s == "SDG"@ ==> (crate::panel_data::section_region(s) matches Some(g) && g.lon == -420840 && g.lat
            == 118800),
        s == "SF"@ ==> (crate::panel_data::section_region(s) matches Some(g) && g.lon == -441360 && g.lat
            == 137880),
        s == "SJV"@ ==> (crate::panel_data::section_region(s) matches Some(g) && g.lon == -431280 && g.lat
            == 131400),
        s == "SV"@ ==> (crate::panel_data::section_region(s) matches Some(g) && g.lon == -437400 && g.lat
            == 141480),
{
    lemma_section_names();
    if s == "EB"@ {
        assert(s.len() == 2 && s[0] == 'E' && s[1] == 'B');
    }
    if s == "LAX"@ {
        assert(s.len() == 3 && s[0] == 'L' && s[1] == 'A' && s[2] == 'X');
    }
    if s == "ORG"@ {
        assert(s.len() == 3 && s[0] == 'O' && s[1] == 'R' && s[2] == 'G');
    }
    if s == "SB"@ {
        assert(s.len() == 2 && s[0] == 'S' && s[1] == 'B');
    }
    if s == "SCV"@ {
        assert(s.len() == 3 && s[0] == 'S' && s[1] == 'C' && s[2] == 'V');
    }
    if s == "SDG"@ {
        assert(s.len() == 3 && s[0] == 'S' && s[1] == 'D' && s[2] == 'G');
    }
    if s == "SF"@ {
        assert(s.len() == 2 && s[0] == 'S' && s[1] == 'F');
    }
    if s == "SJV"@ {
        assert(s.len() == 3 && s[0] == 'S' && s[1] == 'J' && s[2] == 'V');
    }
    if s == "SV"@ {
        assert(s.len() == 2 && s[0] == 'S' && s[1] == 'V');
    }
}

/// Whether a section is one of the West and the North West.
pub open spec fn in_north_west(s: Seq<char>) -> bool {
    ||| s == "AZ"@
    ||| s == "ID"@
    ||| s == "MT"@
    ||| s == "NV"@
    ||| s == "OR"@
    ||| s == "UT"@
    ||| s == "WY"@
    ||| s == "EWA"@
    ||| s == "WWA"@
}

/// The sections of the West and the North West lie there, between -123 and -107 degrees of longitude and 34 and 48
/// degrees of latitude, each around a middle of its own.
pub proof fn law_sections_of_north_west(s: Seq<char>, t: Seq<char>)
    requires
        in_north_west(s),
        in_north_west(t),
    ensures
        crate::panel_data::section_region(s) matches Some(g) && middle_between(g, -123, -107, 34, 48),
        s != t ==> crate::panel_data::section_region(s) is Some
            && crate::panel_data::section_region(t) is Some && (
        crate::panel_data::section_region(s)->Some_0.lon
            != crate::panel_data::section_region(t)->Some_0.lon
            || crate::panel_data::section_region(s)->Some_0.lat
            != crate::panel_data::section_region(t)->Some_0.lat),
{
    lemma_north_west(s);
    lemma_north_west(t);
}

proof fn lemma_north_west(s: Seq<char>)
    requires
        in_north_west(s),
    ensures
        s == "AZ"@ ==> (crate::panel_data::section_region(s) matches Some(g) && g.lon == -402120 && g.lat
            == 123480),
        s == "ID"@ ==> (crate::panel_data::section_region(s) matches Some(g) && g.lon == -412200 && g.lat
            == 159840),
        s == "MT"@ ==> (crate::panel_data::section_region(s) matches Some(g) && g.lon == -394200 && g.lat
            == 169200),
        s == "NV"@ ==> (crate::panel_data::section_region(s) matches Some(g) && g.lon == -420840 && g.lat
            == 142200),
        s == "OR"@ ==> (crate::panel_data::section_region(s) matches Some(g) && g.lon == -434160 && g.lat
            == 158400),
        s == "UT"@ ==> (crate::panel_data::section_region(s) matches Some(g) && g.lon == -402120 && g.lat
            == 141480),
        s == "WY"@ ==> (crate::panel_data::section_region(s) matches Some(g) && g.lon == -387000 && g.lat
            == 154800),
        s == "EWA"@ ==> (crate::panel_data::section_region(s) matches Some(g) && g.lon == -426600 && g.lat
            == 170280),
        s == "WWA"@ ==> (crate::panel_data::section_region(s) matches Some(g) && g.lon == -440280 && g.lat
            == 171000),
{
    lemma_section_names();
    if s == "AZ"@ {
        assert(s.len() == 2 && s[0] == 'A' && s[1] == 'Z');
    }
    if s == "ID"@ {
        assert(s.len() == 2 && s[0] == 'I' && s[1] == 'D');
    }
    if s == "MT"@ {
        assert(s.len() == 2 && s[0] == 'M' && s[1] == 'T');
    }
    if s == "NV"@ {
        assert(s.len() == 2 && s[0] == 'N' && s[1] == 'V');
    }
    if s == "OR"@ {
        assert(s.len() == 2 && s[0] == 'O' && s[1] == 'R');
    }
    if s == "UT"@ {
        assert(s.len() == 2 && s[0] == 'U' && s[1] == 'T');
    }
    if s == "WY"@ {
        assert(s.len() == 2 && s[0] == 'W' && s[1] == 'Y');
    }
    if s == "EWA"@ {
        assert(s.len() == 3 && s[0] == 'E' && s[1] == 'W' && s[2] == 'A');
    }
    if s == "WWA"@ {
        assert(s.len() == 3 && s[0] == 'W' && s[1] == 'W' && s[2] == 'A');
    }
}

/// Whether a section is one of the Great Lakes.
pub open spec fn in_great_lakes(s: Seq<char>) -> bool {
    ||| s == "MI"@
    ||| s == "OH"@
    ||| s == "WV"@
    ||| s == "IL"@
    ||| s == "IN"@
    ||| s == "WI"@
}

/// The sections of the Great Lakes lie there, between -90 and -80 degrees of longitude and 38 and 45
/// degrees of latitude, each around a middle of its own.
pub proof fn law_sections_of_great_lakes(s: Seq<char>, t: Seq<char>)
    requires
        in_great_lakes(s),
        in_great_lakes(t),
    ensures
        crate::panel_data::section_region(s) matches Some(g) && middle_between(g, -90, -80, 38, 45),
        s != t ==> crate::panel_data::section_region(s) is Some
            && crate::panel_data::section_region(t) is Some && (
        crate::panel_data::section_region(s)->Some_0.lon
            != crate::panel_data::section_region(t)->Some_0.lon
            || crate::panel_data::section_region(s)->Some_0.lat
            != crate::panel_data::section_region(t)->Some_0.lat),
{
    lemma_great_lakes(s);
    lemma_great_lakes(t);
}

proof fn lemma_great_lakes(s: Seq<char>)
    requires
        in_great_lakes(s),
    ensures
        s == "MI"@ ==> (crate::panel_data::section_region(s) matches Some(g) && g.lon == -306000 && g.lat
            == 159480),
        s == "OH"@ ==> (crate::panel_data::section_region(s) matches Some(g) && g.lon == -298080 && g.lat
            == 145080),
        s == "WV"@ ==> (crate::panel_data::section_region(s) matches Some(g) && g.lon == -290160 && g.lat
            == 138960),
        s == "IL"@ ==> (crate::panel_data::section_region(s) matches Some(g) && g.lon == -321120 && g.lat
            == 144000),
        s == "IN"@ ==> (crate::panel_data::section_region(s) matches Some(g) && g.lon == -310680 && g.lat
            == 143640),
        s == "WI"@ ==> (crate::panel_data::section_region(s) matches Some(g) && g.lon == -323280 && g.lat
            == 160560),
{
    lemma_section_names();
    if s == "MI"@ {
        assert(s.len() == 2 && s[0] == 'M' && s[1] == 'I');
    }
    if s == "OH"@ {
        assert(s.len() == 2 && s[0] == 'O' && s[1] == 'H');
    }
    if s == "WV"@ {
        assert(s.len() == 2 && s[0] == 'W' && s[1] == 'V');
    }
    if s == "IL"@ {
        assert(s.len() == 2 && s[0] == 'I' && s[1] == 'L');
    }
    if s == "IN"@ {
        assert(s.len() == 2 && s[0] == 'I' && s[1] == 'N');
    }
    if s == "WI"@ {
        assert(s.len() == 2 && s[0] == 'W' && s[1] == 'I');
    }
}

/// Whether a section is one of the Great Plains.
pub open spec fn in_great_plains(s: Seq<char>) -> bool {
    ||| s == "CO"@
    ||| s == "IA"@
    ||| s == "KS"@
    ||| s == "MN"@
    ||| s == "MO"@
    ||| s == "NE"@
    ||| s == "ND"@
    ||| s == "SD"@
}

/// The sections of the Great Plains lie there, between -106 and -92 degrees of longitude and 38 and 48
/// degrees of latitude, each around a middle of its own.
pub proof fn law_sections_of_great_plains(s: Seq<char>, t: Seq<char>)
    requires
        in_great_plains(s),
        in_great_plains(t),
    ensures
        crate::panel_data::section_region(s) matches Some(g) && middle_between(g, -106, -92, 38, 48),
        s != t ==> crate::panel_data::section_region(s) is Some
            && crate::panel_data::section_region(t) is Some && (
        crate::panel_data::section_region(s)->Some_0.lon
            != crate::panel_data::section_region(t)->Some_0.lon
            || crate::panel_data::section_region(s)->Some_0.lat
            != crate::panel_data::section_region(t)->Some_0.lat),
{
    lemma_great_plains(s);
    lemma_great_plains(t);
}

proof fn lemma_great_plains(s: Seq<char>)
    requires
        in_great_plains(s),
    ensures
        s == "CO"@ ==> (crate::panel_data::section_region(s) matches Some(g) && g.lon == -379800 && g.lat
            == 140400),
        s == "IA"@ ==> (crate::panel_data::section_region(s) matches Some(g) && g.lon == -336600 && g.lat
            == 151200),
        s == "KS"@ ==> (crate::panel_data::section_region(s) matches Some(g) && g.lon == -353880 && g.lat
            == 138600),
        s == "MN"@ ==> (crate::panel_data::section_region(s) matches Some(g) && g.lon == -339480 && g.lat
            == 166680),
        s == "MO"@ ==> (crate::panel_data::section_region(s) matches Some(g) && g.lon == -333000 && g.lat
            == 138240),
        s == "NE"@ ==> (crate::panel_data::section_region(s) matches Some(g) && g.lon == -359280 && g.lat
            == 149400),
        s == "ND"@ ==> (crate::panel_data::section_region(s) matches Some(g) && g.lon == -361800 && g.lat
            == 171000),
        s == "SD"@ ==> (crate::panel_data::section_region(s) matches Some(g) && g.lon == -361080 && g.lat
            == 159840),
{
    lemma_section_names();
    if s == "CO"@ {
        assert(s.len() == 2 && s[0] == 'C' && s[1] == 'O');
    }
    if s == "IA"@ {
        assert(s.len() == 2 && s[0] == 'I' && s[1] == 'A');
    }
    if s == "KS"@ {
        assert(s.len() == 2 && s[0] == 'K' && s[1] == 'S');
    }
    if s == "MN"@ {
        assert(s.len() == 2 && s[0] == 'M' && s[1] == 'N');
    }
    if s == "MO"@ {
        assert(s.len() == 2 && s[0] == 'M' && s[1] == 'O');
    }
    if s == "NE"@ {
        assert(s.len() == 2 && s[0] == 'N' && s[1] == 'E');
    }
    if s == "ND"@ {
        assert(s.len() == 2 && s[0] == 'N' && s[1] == 'D');
    }
    if s == "SD"@ {
        assert(s.len() == 2 && s[0] == 'S' && s[1] == 'D');
    }
}

/// Whether a section is one of the East of Canada.
pub open spec fn in_eastern_canada(s: Seq<char>) -> bool {
    ||| s == "MAR"@
    ||| s == "NL"@
    ||| s == "QC"@
    ||| s == "ONE"@
    ||| s == "ONN"@
    ||| s == "ONS"@
    ||| s == "GTA"@
}

/// The sections of the East of Canada lie there, between -85 and -57 degrees of longitude and 43 and 49
/// degrees of latitude, each around a middle of its own.
pub proof fn law_sections_of_eastern_canada(s: Seq<char>, t: Seq<char>)
    requires
        in_eastern_canada(s),
        in_eastern_canada(t),
    ensures
        crate::panel_data::section_region(s) matches Some(g) && middle_between(g, -85, -57, 43, 49),
        s != t ==> crate::panel_data::section_region(s) is Some
            && crate::panel_data::section_region(t) is Some && (
        crate::panel_data::section_region(s)->Some_0.lon
            != crate::panel_data::section_region(t)->Some_0.lon
            || crate::panel_data::section_region(s)->Some_0.lat
            != crate::panel_data::section_region(t)->Some_0.lat),
{
    lemma_eastern_canada(s);
    lemma_eastern_canada(t);
}

proof fn lemma_eastern_canada(s: Seq<char>)
    requires
        in_eastern_canada(s),
    ensures
        s == "MAR"@ ==> (crate::panel_data::section_region(s) matches Some(g) && g.lon == -230400 && g.lat
            == 163800),
        s == "NL"@ ==> (crate::panel_data::section_region(s) matches Some(g) && g.lon == -205200 && g.lat
            == 176400),
        s == "QC"@ ==> (crate::panel_data::section_region(s) matches Some(g) && g.lon == -259200 && g.lat
            == 169200),
        s == "ONE"@ ==> (crate::panel_data::section_region(s) matches Some(g) && g.lon == -275400 && g.lat
            == 162720),
        s == "ONN"@ ==> (crate::panel_data::section_region(s) matches Some(g) && g.lon == -306000 && g.lat
            == 176400),
        s == "ONS"@ ==> (crate::panel_data::section_region(s) matches Some(g) && g.lon == -291600 && g.lat
            == 155520),
        s == "GTA"@ ==> (crate::panel_data::section_region(s) matches Some(g) && g.lon == -285840 && g.lat
            == 157320),
{
    lemma_section_names();
    if s == "MAR"@ {
        assert(s.len() == 3 && s[0] == 'M' && s[1] == 'A' && s[2] == 'R');
    }
    if s == "NL"@ {
        assert(s.len() == 2 && s[0] == 'N' && s[1] == 'L');
    }
    if s == "QC"@ {
        assert(s.len() == 2 && s[0] == 'Q' && s[1] == 'C');
    }
    if s == "ONE"@ {
        assert(s.len() == 3 && s[0] == 'O' && s[1] == 'N' && s[2] == 'E');
    }
    if s == "ONN"@ {
        assert(s.len() == 3 && s[0] == 'O' && s[1] == 'N' && s[2] == 'N');
    }
    if s == "ONS"@ {
        assert(s.len() == 3 && s[0] == 'O' && s[1] == 'N' && s[2] == 'S');
    }
    if s == "GTA"@ {
        assert(s.len() == 3 && s[0] == 'G' && s[1] == 'T' && s[2] == 'A');
    }
}

/// Whether a section is one of the West of Canada.
pub open spec fn in_western_canada(s: Seq<char>) -> bool {
    ||| s == "MB"@
    ||| s == "SK"@
    ||| s == "AB"@
    ||| s == "BC"@
    ||| s == "NT"@
}

/// The sections of the West of Canada lie there, between -123 and -98 degrees of longitude and 52 and 64
/// degrees of latitude, each around a middle of its own.
pub proof fn law_sections_of_western_canada(s: Seq<char>, t: Seq<char>)
    requires
        in_western_canada(s),
        in_western_canada(t),
    ensures
        crate::panel_data::section_region(s) matches Some(g) && middle_between(g, -123, -98, 52, 64),
        s != t ==> crate::panel_data::section_region(s) is Some
            && crate::panel_data::section_region(t) is Some && (
        crate::panel_data::section_region(s)->Some_0.lon
            != crate::panel_data::section_region(t)->Some_0.lon
            || crate::panel_data::section_region(s)->Some_0.lat
            != crate::panel_data::section_region(t)->Some_0.lat),
{
    lemma_western_canada(s);
    lemma_western_canada(t);
}

proof fn lemma_western_canada(s: Seq<char>)
    requires
        in_western_canada(s),
    ensures
        s == "MB"@ ==> (crate::panel_data::section_region(s) matches Some(g) && g.lon == -352800 && g.lat
            == 190800),
        s == "SK"@ ==> (crate::panel_data::section_region(s) matches Some(g) && g.lon == -381600 && g.lat
            == 190800),
        s == "AB"@ ==> (crate::panel_data::section_region(s) matches Some(g) && g.lon == -410400 && g.lat
            == 192600),
        s == "BC"@ ==> (crate::panel_data::section_region(s) matches Some(g) && g.lon == -442800 && g.lat
            == 187200),
        s == "NT"@ ==> (crate::panel_data::section_region(s) matches Some(g) && g.lon == -432000 && g.lat
            == 230400),
{
    lemma_section_names();
    if s == "MB"@ {
        assert(s.len() == 2 && s[0] == 'M' && s[1] == 'B');
    }
    if s == "SK"@ {
        assert(s.len() == 2 && s[0] == 'S' && s[1] == 'K');
    }
    if s == "AB"@ {
        assert(s.len() == 2 && s[0] == 'A' && s[1] == 'B');
    }
    if s == "BC"@ {
        assert(s.len() == 2 && s[0] == 'B' && s[1] == 'C');
    }
    if s == "NT"@ {
        assert(s.len() == 2 && s[0] == 'N' && s[1] == 'T');
    }
}

/// Whether a section is one of the islands of the Caribbean.
pub open spec fn in_islands(s: Seq<char>) -> bool {
    ||| s == "PR"@
    ||| s == "VI"@
}

/// The sections of the islands of the Caribbean lie there, between -67 and -64 degrees of longitude and 18 and 19
/// degrees of latitude, each around a middle of its own.
pub proof fn law_sections_of_islands(s: Seq<char>, t: Seq<char>)
    requires
        in_islands(s),
        in_islands(t),
    ensures
        crate::panel_data::section_region(s) matches Some(g) && middle_between(g, -67, -64, 18, 19),
        s != t ==> crate::panel_data::section_region(s) is Some
            && crate::panel_data::section_region(t) is Some && (
        crate::panel_data::section_region(s)->Some_0.lon
            != crate::panel_data::section_region(t)->Some_0.lon
            || crate::panel_data::section_region(s)->Some_0.lat
            != crate::panel_data::section_region(t)->Some_0.lat),
{
    lemma_islands(s);
    lemma_islands(t);
}

proof fn lemma_islands(s: Seq<char>)
    requires
        in_islands(s),
    ensures
        s == "PR"@ ==> (crate::panel_data::section_region(s) matches Some(g) && g.lon == -239400 && g.lat
            == 65520),
        s == "VI"@ ==> (crate::panel_data::section_region(s) matches Some(g) && g.lon == -233280 && g.lat
            == 64800),
{
    lemma_section_names();
    if s == "PR"@ {
        assert(s.len() == 2 && s[0] == 'P' && s[1] == 'R');
    }
    if s == "VI"@ {
        assert(s.len() == 2 && s[0] == 'V' && s[1] == 'I');
    }
}

/// Alaska lies north and west of every other section, and the Pacific islands lie west of all
/// but Alaska and in the tropics.
pub proof fn law_far_sections(s: Seq<char>)
    requires
        crate::panel_data::section_region(s) is Some,
        s != "AK"@,
    ensures
        ({
            let g = crate::panel_data::section_region(s)->Some_0;
            let alaska = crate::panel_data::section_region("AK"@)->Some_0;
            let pacific = crate::panel_data::section_region("PAC"@)->Some_0;
            &&& crate::panel_data::section_region("AK"@) is Some
            &&& crate::panel_data::section_region("PAC"@) is Some
            &&& middle_between(alaska, -150, -150, 63, 63)
            &&& middle_between(pacific, -158, -157, 21, 22)
            &&& g.lon > alaska.lon || g == pacific
            &&& s != "PAC"@ ==> g.lon > pacific.lon + 3_600 * 30
        }),
{
    lemma_section_names();
    let a = "AK"@;
    let p = "PAC"@;
    assert(a.len() == 2 && a[0] == 'A' && a[1] == 'K');
    assert(p.len() == 3 && p[0] == 'P' && p[1] == 'A' && p[2] == 'C');
}

proof fn lemma_section_names()
    ensures
        "AB"@ == seq!['A', 'B'],
        "AK"@ == seq!['A', 'K'],
        "AL"@ == seq!['A', 'L'],
        "AR"@ == seq!['A', 'R'],
        "AZ"@ == seq!['A', 'Z'],
        "BC"@ == seq!['B', 'C'],
        "CO"@ == seq!['C', 'O'],
        "CT"@ == seq!['C', 'T'],
        "DE"@ == seq!['D', 'E'],
        "EB"@ == seq!['E', 'B'],
        "EMA"@ == seq!['E', 'M', 'A'],
        "ENY"@ == seq!['E', 'N', 'Y'],
        "EPA"@ == seq!['E', 'P', 'A'],
        "EWA"@ == seq!['E', 'W', 'A'],
        "GA"@ == seq!['G', 'A'],
        "GTA"@ == seq!['G', 'T', 'A'],
        "IA"@ == seq!['I', 'A'],
        "ID"@ == seq!['I', 'D'],
        "IL"@ == seq!['I', 'L'],
        "IN"@ == seq!['I', 'N'],
        "KS"@ == seq!['K', 'S'],
        "KY"@ == seq!['K', 'Y'],
        "LA"@ == seq!['L', 'A'],
        "LAX"@ == seq!['L', 'A', 'X'],
        "MAR"@ == seq!['M', 'A', 'R'],
        "MB"@ == seq!['M', 'B'],
        "MDC"@ == seq!['M', 'D', 'C'],
        "ME"@ == seq!['M', 'E'],
        "MI"@ == seq!['M', 'I'],
        "MN"@ == seq!['M', 'N'],
        "MO"@ == seq!['M', 'O'],
        "MS"@ == seq!['M', 'S'],
        "MT"@ == seq!['M', 'T'],
        "NC"@ == seq!['N', 'C'],
        "ND"@ == seq!['N', 'D'],
        "NE"@ == seq!['N', 'E'],
        "NFL"@ == seq!['N', 'F', 'L'],
        "NH"@ == seq!['N', 'H'],
        "NL"@ == seq!['N', 'L'],
        "NLI"@ == seq!['N', 'L', 'I'],
        "NM"@ == seq!['N', 'M'],
        "NNJ"@ == seq!['N', 'N', 'J'],
        "NNY"@ == seq!['N', 'N', 'Y'],
        "NT"@ == seq!['N', 'T'],
        "NTX"@ == seq!['N', 'T', 'X'],
        "NV"@ == seq!['N', 'V'],
        "OH"@ == seq!['O', 'H'],
        "OK"@ == seq!['O', 'K'],
        "ONE"@ == seq!['O', 'N', 'E'],
        "ONN"@ == seq!['O', 'N', 'N'],
        "ONS"@ == seq!['O', 'N', 'S'],
        "OR"@ == seq!['O', 'R'],
        "ORG"@ == seq!['O', 'R', 'G'],
        "PAC"@ == seq!['P', 'A', 'C'],
        "PR"@ == seq!['P', 'R'],
        "QC"@ == seq!['Q', 'C'],
        "RI"@ == seq!['R', 'I'],
        "SB"@ == seq!['S', 'B'],
        "SC"@ == seq!['S', 'C'],
        "SCV"@ == seq!['S', 'C', 'V'],
        "SD"@ == seq!['S', 'D'],
        "SDG"@ == seq!['S', 'D', 'G'],
        "SF"@ == seq!['S', 'F'],
        "SFL"@ == seq!['S', 'F', 'L'],
        "SJV"@ == seq!['S', 'J', 'V'],
        "SK"@ == seq!['S', 'K'],
        "SNJ"@ == seq!['S', 'N', 'J'],
        "STX"@ == seq!['S', 'T', 'X'],
        "SV"@ == seq!['S', 'V'],
        "TN"@ == seq!['T', 'N'],
        "UT"@ == seq!['U', 'T'],
        "VA"@ == seq!['V', 'A'],
        "VI"@ == seq!['V', 'I'],
        "VT"@ == seq!['V', 'T'],
        "WCF"@ == seq!['W', 'C', 'F'],
        "WI"@ == seq!['W', 'I'],
        "WMA"@ == seq!['W', 'M', 'A'],
        "WPA"@ == seq!['W', 'P', 'A'],
        "WTX"@ == seq!['W', 'T', 'X'],
        "WV"@ == seq!['W', 'V'],
        "WWA"@ == seq!['W', 'W', 'A'],
        "WY"@ == seq!['W', 'Y'],
{
    reveal_strlit("AB");
    reveal_strlit("AK");
    reveal_strlit("AL");
    reveal_strlit("AR");
    reveal_strlit("AZ");
    reveal_strlit("BC");
    reveal_strlit("CO");
    reveal_strlit("CT");
    reveal_strlit("DE");
    reveal_strlit("EB");
    reveal_strlit("EMA");
    reveal_strlit("ENY");
    reveal_strlit("EPA");
    reveal_strlit("EWA");
    reveal_strlit("GA");
    reveal_strlit("GTA");
    reveal_strlit("IA");
    reveal_strlit("ID");
    reveal_strlit("IL");
    reveal_strlit("IN");
    reveal_strlit("KS");
    reveal_strlit("KY");
    reveal_strlit("LA");
    reveal_strlit("LAX");
    reveal_strlit("MAR");
    reveal_strlit("MB");
    reveal_strlit("MDC");
    reveal_strlit("ME");
    reveal_strlit("MI");
    reveal_strlit("MN");
    reveal_strlit("MO");
    reveal_strlit("MS");
    reveal_strlit("MT");
    reveal_strlit("NC");
    reveal_strlit("ND");
    reveal_strlit("NE");
    reveal_strlit("NFL");
    reveal_strlit("NH");
    reveal_strlit("NL");
    reveal_strlit("NLI");
    reveal_strlit("NM");
    reveal_strlit("NNJ");
    reveal_strlit("NNY");
    reveal_strlit("NT");
    reveal_strlit("NTX");
    reveal_strlit("NV");
    reveal_strlit("OH");
    reveal_strlit("OK");
    reveal_strlit("ONE");
    reveal_strlit("ONN");
    reveal_strlit("ONS");
    reveal_strlit("OR");
    reveal_strlit("ORG");
    reveal_strlit("PAC");
    reveal_strlit("PR");
    reveal_strlit("QC");
    reveal_strlit("RI");
    reveal_strlit("SB");
    reveal_strlit("SC");
    reveal_strlit("SCV");
    reveal_strlit("SD");
    reveal_strlit("SDG");
    reveal_strlit("SF");
    reveal_strlit("SFL");
    reveal_strlit("SJV");
    reveal_strlit("SK");
    reveal_strlit("SNJ");
    reveal_strlit("STX");
    reveal_strlit("SV");
    reveal_strlit("TN");
    reveal_strlit("UT");
    reveal_strlit("VA");
    reveal_strlit("VI");
    reveal_strlit("VT");
    reveal_strlit("WCF");
    reveal_strlit("WI");
    reveal_strlit("WMA");
    reveal_strlit("WPA");
    reveal_strlit("WTX");
    reveal_strlit("WV");
    reveal_strlit("WWA");
    reveal_strlit("WY");
    assert("AB"@ == seq!['A', 'B']);
    assert("AK"@ == seq!['A', 'K']);
    assert("AL"@ == seq!['A', 'L']);
    assert("AR"@ == seq!['A', 'R']);
    assert("AZ"@ == seq!['A', 'Z']);
    assert("BC"@ == seq!['B', 'C']);
    assert("CO"@ == seq!['C', 'O']);
    assert("CT"@ == seq!['C', 'T']);
    assert("DE"@ == seq!['D', 'E']);
    assert("EB"@ == seq!['E', 'B']);
    assert("EMA"@ == seq!['E', 'M', 'A']);
    assert("ENY"@ == seq!['E', 'N', 'Y']);
    assert("EPA"@ == seq!['E', 'P', 'A']);
    assert("EWA"@ == seq!['E', 'W', 'A']);
    assert("GA"@ == seq!['G', 'A']);
    assert("GTA"@ == seq!['G', 'T', 'A']);
    assert("IA"@ == seq!['I', 'A']);
    assert("ID"@ == seq!['I', 'D']);
    assert("IL"@ == seq!['I', 'L']);
    assert("IN"@ == seq!['I', 'N']);
    assert("KS"@ == seq!['K', 'S']);
    assert("KY"@ == seq!['K', 'Y']);
    assert("LA"@ == seq!['L', 'A']);
    assert("LAX"@ == seq!['L', 'A', 'X']);
    assert("MAR"@ == seq!['M', 'A', 'R']);
    assert("MB"@ == seq!['M', 'B']);
    assert("MDC"@ == seq!['M', 'D', 'C']);
    assert("ME"@ == seq!['M', 'E']);
    assert("MI"@ == seq!['M', 'I']);
    assert("MN"@ == seq!['M', 'N']);
    assert("MO"@ == seq!['M', 'O']);
    assert("MS"@ == seq!['M', 'S']);
    assert("MT"@ == seq!['M', 'T']);
    assert("NC"@ == seq!['N', 'C']);
    assert("ND"@ == seq!['N', 'D']);
    assert("NE"@ == seq!['N', 'E']);
    assert("NFL"@ == seq!['N', 'F', 'L']);
    assert("NH"@ == seq!['N', 'H']);
    assert("NL"@ == seq!['N', 'L']);
    assert("NLI"@ == seq!['N', 'L', 'I']);
    assert("NM"@ == seq!['N', 'M']);
    assert("NNJ"@ == seq!['N', 'N', 'J']);
    assert("NNY"@ == seq!['N', 'N', 'Y']);
    assert("NT"@ == seq!['N', 'T']);
    assert("NTX"@ == seq!['N', 'T', 'X']);
    assert("NV"@ == seq!['N', 'V']);
    assert("OH"@ == seq!['O', 'H']);
    assert("OK"@ == seq!['O', 'K']);
    assert("ONE"@ == seq!['O', 'N', 'E']);
    assert("ONN"@ == seq!['O', 'N', 'N']);
    assert("ONS"@ == seq!['O', 'N', 'S']);
    assert("OR"@ == seq!['O', 'R']);
    assert("ORG"@ == seq!['O', 'R', 'G']);
    assert("PAC"@ == seq!['P', 'A', 'C']);
    assert("PR"@ == seq!['P', 'R']);
    assert("QC"@ == seq!['Q', 'C']);
    assert("RI"@ == seq!['R', 'I']);
    assert("SB"@ == seq!['S', 'B']);
    assert("SC"@ == seq!['S', 'C']);
    assert("SCV"@ == seq!['S', 'C', 'V']);
    assert("SD"@ == seq!['S', 'D']);
    assert("SDG"@ == seq!['S', 'D', 'G']);
    assert("SF"@ == seq!['S', 'F']);
    assert("SFL"@ == seq!['S', 'F', 'L']);
    assert("SJV"@ == seq!['S', 'J', 'V']);
    assert("SK"@ == seq!['S', 'K']);
    assert("SNJ"@ == seq!['S', 'N', 'J']);
    assert("STX"@ == seq!['S', 'T', 'X']);
    assert("SV"@ == seq!['S', 'V']);
    assert("TN"@ == seq!['T', 'N']);
    assert("UT"@ == seq!['U', 'T']);
    assert("VA"@ == seq!['V', 'A']);
    assert("VI"@ == seq!['V', 'I']);
    assert("VT"@ == seq!['V', 'T']);
    assert("WCF"@ == seq!['W', 'C', 'F']);
    assert("WI"@ == seq!['W', 'I']);
    assert("WMA"@ == seq!['W', 'M', 'A']);
    assert("WPA"@ == seq!['W', 'P', 'A']);
    assert("WTX"@ == seq!['W', 'T', 'X']);
    assert("WV"@ == seq!['W', 'V']);
    assert("WWA"@ == seq!['W', 'W', 'A']);
    assert("WY"@ == seq!['W', 'Y']);
}

} // verus!
