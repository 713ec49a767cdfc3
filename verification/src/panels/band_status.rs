//! The Band Status panel: what is heard on the active bands, each mode on a line.

use vstd::prelude::*;

use crate::format::band_label;
use crate::numbers::spell;
use crate::panels::band_scan::find_row;
use crate::panels::waterfall::config_form::has_band;
use crate::text::{append, append_str, chars_of, owned, string_of};
use crate::types::{Band, BandActivity, OverAirMode};

verus! {

/// How many bands are shown at most.
pub const MAX_BANDS: usize = 6;

/// The columns and the rows that `n` bands are laid out in: one column for three, two for
/// more, and as many rows as that takes.
pub open spec fn shape(n: int) -> (int, int) {
    let cols = if n > 3 {
        2
    } else {
        1int
    };
    let rows = (n + cols - 1) / cols;
    (
        cols,
        if rows > 1 {
            rows
        } else {
            1
        },
    )
}

/// The columns and the rows that `n` bands are laid out in.
pub fn grid_shape(n: usize) -> (r: (usize, usize))
    ensures
        (r.0 as int, r.1 as int) == shape(n as int),
{
    let cols: usize = if n > 3 {
        2
    } else {
        1
    };
    let whole: usize = n / cols;
    let rows: usize = if n % cols > 0 {
        whole + 1
    } else {
        whole
    };
    (
        cols,
        if rows > 1 {
            rows
        } else {
            1
        },
    )
}

/// How many rows a panel is made high for, with `n` active bands.
pub fn pane_rows(n: usize) -> (r: usize)
    ensures
        r == shape(
            if n < 1 {
                1
            } else if n > MAX_BANDS {
                MAX_BANDS as int
            } else {
                n as int
            },
        ).1,
{
    let shown: usize = if n < 1 {
        1
    } else if n > MAX_BANDS {
        MAX_BANDS
    } else {
        n
    };
    grid_shape(shown).1
}

/// The column and the row of band `i` of `n`: down the columns.
pub fn cell_of(i: usize, n: usize) -> (r: (usize, usize))
    requires
        i < n,
    ensures
        r.0 as int == i as int / shape(n as int).1,
        r.1 as int == i as int % shape(n as int).1,
{
    let (_, rows): (usize, usize) = grid_shape(n);
    (i / rows, i % rows)
}

/// Every band has a cell of its own in the layout.
pub proof fn law_cells_are_apart(i: int, j: int, n: int)
    requires
        0 <= i < j < n,
    ensures
        0 <= i / shape(n).1 < shape(n).0,
        0 <= i % shape(n).1 < shape(n).1,
        0 <= j / shape(n).1 < shape(n).0,
        i / shape(n).1 != j / shape(n).1 || i % shape(n).1 != j % shape(n).1,
{
    let rows = shape(n).1;
    let cols = shape(n).0;
    vstd::arithmetic::div_mod::lemma_fundamental_div_mod(i, rows);
    vstd::arithmetic::div_mod::lemma_fundamental_div_mod(j, rows);
    assert(n <= cols * rows) by {
        if n > 3 {
            assert(cols * rows == 2 * rows);
        } else {
            assert(rows == n);
            assert(cols * rows == rows) by (nonlinear_arith)
                requires
                    cols == 1,
            ;
        }
    }
    lemma_quotient(i, rows, cols);
    lemma_quotient(j, rows, cols);
}

proof fn lemma_quotient(i: int, rows: int, cols: int)
    by (nonlinear_arith)
    requires
        0 <= i < cols * rows,
        rows > 0,
    ensures
        0 <= i / rows < cols,
{
}

/// The rows of active bands.
pub open spec fn active_rows(v: Seq<BandActivity>, n: int, active: Seq<Band>) -> Seq<BandActivity>
    decreases n,
{
    if n <= 0 {
        Seq::empty()
    } else if active.contains(v[n - 1].band) {
        active_rows(v, n - 1, active).push(v[n - 1])
    } else {
        active_rows(v, n - 1, active)
    }
}

/// The rows of active bands.
pub fn rows_of_active(v: &Vec<BandActivity>, active: &Vec<Band>) -> (r: Vec<BandActivity>)
    ensures
        r@ == active_rows(v@, v@.len() as int, active@),
{
    let mut r: Vec<BandActivity> = Vec::new();
    let mut i: usize = 0;
    while i < v.len()
        invariant
            i <= v@.len(),
            r@ == active_rows(v@, i as int, active@),
        decreases v@.len() - i,
    {
        if has_band(active, v[i].band) {
            r.push(v[i]);
        }
        i = i + 1;
    }
    r
}

/// The band of order `k`, lowest frequency first.
pub open spec fn band_of_order(k: int) -> Band {
    if k == 0 {
        Band::B160m
    } else if k == 1 {
        Band::B80m
    } else if k == 2 {
        Band::B40m
    } else if k == 3 {
        Band::B30m
    } else if k == 4 {
        Band::B20m
    } else if k == 5 {
        Band::B17m
    } else if k == 6 {
        Band::B15m
    } else if k == 7 {
        Band::B12m
    } else if k == 8 {
        Band::B10m
    } else {
        Band::B6m
    }
}

fn nth_band(k: usize) -> (b: Band)
    requires
        k < 10,
    ensures
        b == band_of_order(k as int),
{
    if k == 0 {
        Band::B160m
    } else if k == 1 {
        Band::B80m
    } else if k == 2 {
        Band::B40m
    } else if k == 3 {
        Band::B30m
    } else if k == 4 {
        Band::B20m
    } else if k == 5 {
        Band::B17m
    } else if k == 6 {
        Band::B15m
    } else if k == 7 {
        Band::B12m
    } else if k == 8 {
        Band::B10m
    } else {
        Band::B6m
    }
}

/// Bands in this order have ascending calling frequencies.
pub proof fn law_order_is_by_calling_frequency(i: int, j: int)
    requires
        0 <= i < j < 10,
    ensures
        crate::bus_view::order_of(band_of_order(i)) == i,
        crate::send::calling_freq(band_of_order(i), OverAirMode::Ft8)->Some_0
            < crate::send::calling_freq(band_of_order(j), OverAirMode::Ft8)->Some_0,
{
}

/// Whether a band has a row.
pub open spec fn has_row(v: Seq<BandActivity>, b: Band) -> bool {
    exists|i: int| 0 <= i < v.len() && (#[trigger] v[i]).band == b
}

/// Those of the lowest `k` bands that have a row, each once, lowest first.
pub open spec fn bands_in(v: Seq<BandActivity>, k: int) -> Seq<Band>
    decreases k,
{
    if k <= 0 {
        Seq::empty()
    } else if has_row(v, band_of_order(k - 1)) {
        bands_in(v, k - 1).push(band_of_order(k - 1))
    } else {
        bands_in(v, k - 1)
    }
}

/// How many bands there is no room for.
pub open spec fn surplus(n: int) -> int {
    if n > MAX_BANDS {
        n - MAX_BANDS
    } else {
        0
    }
}

fn holds_row(v: &Vec<BandActivity>, b: Band) -> (r: bool)
    ensures
        r == has_row(v@, b),
{
    let mut i: usize = 0;
    while i < v.len()
        invariant
            i <= v@.len(),
            forall|j: int| 0 <= j < i ==> (#[trigger] v@[j]).band != b,
        decreases v@.len() - i,
    {
        if v[i].band == b {
            return true;
        }
        i = i + 1;
    }
    false
}

/// What stands on a mode's line: how many were heard, call CQ and are not worked, or a
/// dash where the band has no stop in that mode.
pub open spec fn line_text(v: Seq<BandActivity>, band: Band, mode: OverAirMode) -> Seq<char> {
    if exists|j: int| 0 <= j < v.len() && (#[trigger] v[j]).band == band && v[j].mode == mode {
        let c = crate::panels::band_scan::counts_at(v, band, mode);
        crate::numbers::dec(c.0 as nat) + " \u{b7} "@ + crate::numbers::dec(c.1 as nat)
            + " \u{b7} "@ + crate::numbers::dec(c.2 as nat)
    } else {
        "\u{2014}"@
    }
}

/// What stands on a mode's line.
pub fn mode_line(v: &Vec<BandActivity>, band: Band, mode: OverAirMode) -> (r: String)
    ensures
        r@ == line_text(v@, band, mode),
{
    match find_row(v, band, mode) {
        Some(i) => {
            let mut s: Vec<char> = spell(v[i].heard as u64);
            append_str(&mut s, " \u{b7} ");
            append(&mut s, &spell(v[i].cq as u64));
            append_str(&mut s, " \u{b7} ");
            append(&mut s, &spell(v[i].unworked as u64));
            string_of(&s)
        },
        None => owned("\u{2014}"),
    }
}

/// The names of bands, with commas between them.
pub open spec fn names(bands: Seq<Band>) -> Seq<char>
    decreases bands.len(),
{
    if bands.len() == 0 {
        Seq::empty()
    } else if bands.len() == 1 {
        crate::format::band_full(bands[0])
    } else {
        names(bands.drop_last()) + ", "@ + crate::format::band_full(bands.last())
    }
}

fn join_names(bands: &Vec<Band>, n: usize) -> (r: Vec<char>)
    requires
        n <= bands@.len(),
    ensures
        r@ == names(bands@.take(n as int)),
{
    let mut r: Vec<char> = Vec::new();
    let mut i: usize = 0;
    while i < n
        invariant
            i <= n <= bands@.len(),
            r@ == names(bands@.take(i as int)),
        decreases n - i,
    {
        assert(bands@.take(i + 1).drop_last() == bands@.take(i as int));
        if i > 0 {
            append_str(&mut r, ", ");
        }
        append_str(&mut r, band_label(bands[i]));
        i = i + 1;
    }
    r
}

/// What is logged when there is no room for bands.
pub open spec fn warning_text(hidden: Seq<Band>) -> Seq<char> {
    "Band Status shows at most 6 bands; hiding "@ + names(hidden)
        + " (scanned but not displayed)"@
}

/// The Band Status panel.
pub struct BandStatusPanel {
    /// Whether it was already logged that bands are hidden.
    pub warned: bool,
}

impl BandStatusPanel {
    /// Nothing was logged yet.
    pub fn new() -> (r: Self)
        ensures
            !r.warned,
    {
        BandStatusPanel { warned: false }
    }

    /// The bands that are shown: those with a row, lowest first, without the longest
    /// wavelengths where there are more than fit. The second result is what to log, the
    /// first time that bands are hidden.
    pub fn bands_shown(&mut self, rows: &Vec<BandActivity>) -> (r: (Vec<Band>, Option<String>))
        ensures
            ({
                let all = bands_in(rows@, 10);
                let cut = surplus(all.len() as int);
                &&& r.0@ == all.skip(cut)
                &&& final(self).warned == (old(self).warned || cut > 0)
                &&& r.1 is Some <==> (cut > 0 && !old(self).warned)
                &&& r.1 matches Some(s) ==> s@ == warning_text(all.take(cut))
            }),
    {
        let mut all: Vec<Band> = Vec::new();
        let mut k: usize = 0;
        while k < 10
            invariant
                k <= 10,
                all@ == bands_in(rows@, k as int),
            decreases 10 - k,
        {
            let b: Band = nth_band(k);
            if holds_row(rows, b) {
                all.push(b);
            }
            k = k + 1;
        }
        if all.len() <= MAX_BANDS {
            assert(all@.skip(0) == all@);
            return (all, None);
        }
        let cut: usize = all.len() - MAX_BANDS;
        let warning: Option<String> = if !self.warned {
            self.warned = true;
            let mut v: Vec<char> = chars_of("Band Status shows at most 6 bands; hiding ");
            append(&mut v, &join_names(&all, cut));
            append_str(&mut v, " (scanned but not displayed)");
            Some(string_of(&v))
        } else {
            None
        };
        let mut shown: Vec<Band> = Vec::new();
        let mut i: usize = cut;
        while i < all.len()
            invariant
                cut <= i <= all@.len(),
                shown@ == all@.skip(cut as int).take(i - cut),
            decreases all@.len() - i,
        {
            shown.push(all[i]);
            i = i + 1;
        }
        assert(all@.skip(cut as int).take(all@.len() - cut) == all@.skip(cut as int));
        (shown, warning)
    }
}

/// At most six bands are shown, no band twice, lowest first; and of the bands with a row
/// the hidden ones are the lowest.
pub proof fn law_highest_bands_are_shown(v: Seq<BandActivity>, k: int)
    requires
        0 <= k <= 10,
    ensures
        ({
            let all = bands_in(v, k);
            let cut = surplus(all.len() as int);
            &&& all.skip(cut).len() <= MAX_BANDS
            &&& forall|i: int, j: int| #![trigger all[i], all[j]]
                0 <= i < j < all.len() ==> crate::bus_view::order_of(all[i])
                    < crate::bus_view::order_of(all[j])
            &&& forall|i: int| 0 <= i < all.len() ==> crate::bus_view::order_of(#[trigger] all[i]) < k
                && has_row(v, all[i])
        }),
    decreases k,
{
    if k > 0 {
        law_highest_bands_are_shown(v, k - 1);
        assert(crate::bus_view::order_of(band_of_order(k - 1)) == k - 1);
    }
}

} // verus!
