//! What holds of the search for a clear lane, whatever was received and decoded.
//!
//! As in the search itself, lanes are counted in half hertz, offsets of stations in
//! thousandths of a hertz, and energies in 65536ths of a step of the spectrum.

use vstd::prelude::*;

use crate::bus_view::SpectrumRow;
use crate::lane_finder::{Heard, LaneRow};
use crate::types::SignalSource;

verus! {

/// How far a signal of `bw` hertz wants to stay from a station, in thousandths of a hertz:
/// its own width, and 40 Hz at least.
pub open spec fn berth(bw: int) -> int {
    if bw >= 40 {
        1_000 * bw
    } else {
        40_000
    }
}

/// Whether the lane of a signal of `bw` hertz that begins at `base` overlaps the lane of a
/// station at `off`, or touches it.
pub open spec fn overlaps(base: int, off: int, bw: int) -> bool {
    off <= 500 * base + 1_000 * bw && 500 * base <= off + 1_000 * bw
}

/// Whether a lane keeps its distance from every one of the stations.
pub open spec fn keeps_clear(base: int, ds: Seq<i64>, bw: int) -> bool {
    forall|i: int|
        0 <= i < ds.len() ==> (#[trigger] ds[i]) - (500 * base + 1_000 * bw) >= berth(bw) || 500
            * base - (ds[i] + 1_000 * bw) >= berth(bw)
}

/// Whether a signal of `bw` hertz may begin at `base`: on a step of 5 Hz, with all of it
/// between 250 and 2750 Hz.
pub open spec fn fits(base: int, bw: int) -> bool {
    base % 10 == 0 && 2 * 250 <= base && base + 2 * bw <= 2 * 2_750
}

/// How much all of the stations crowd a lane.
pub open spec fn crowding_of(ds: Seq<i64>, base: int, bw: int) -> int {
    crate::lane_finder::crowding(ds, ds.len() as int, base, bw)
}

proof fn lemma_crowding_prefix(a: Seq<i64>, b: Seq<i64>, n: int, base: int, bw: int)
    requires
        0 <= n <= a.len(),
        n <= b.len(),
        forall|i: int| 0 <= i < n ==> a[i] == b[i],
    ensures
        crate::lane_finder::crowding(a, n, base, bw) == crate::lane_finder::crowding(
            b,
            n,
            base,
            bw,
        ),
    decreases n,
{
    if n > 0 {
        lemma_crowding_prefix(a, b, n - 1, base, bw);
    }
}

/// A station right in the lane counts in full. One beside it counts the less the further
/// away it is, hertz by hertz, on either side, and nothing from where the lane keeps its
/// distance.
pub proof fn law_station_crowds(off: i64, base: int, bw: int, g: int)
    requires
        0 < bw <= 2_500,
        g >= 0,
    ensures
        overlaps(base, off as int, bw) ==> crowding_of(seq![off], base, bw) == berth(bw),
        off == 500 * base + 1_000 * bw + g || off == 500 * base - 1_000 * bw - g
            ==> crowding_of(seq![off], base, bw) == (if g < berth(bw) {
            berth(bw) - g
        } else {
            0
        }),
{
    let ds = seq![off];
    assert(ds.len() == 1 && ds[0] == off);
    reveal_with_fuel(crate::lane_finder::crowding, 2);
}

/// Every station counts, and each by itself: what two lists of stations crowd a lane
/// together is what they crowd it one after the other.
pub proof fn law_crowding_adds_up(a: Seq<i64>, b: Seq<i64>, base: int, bw: int)
    ensures
        crowding_of(a + b, base, bw) == crowding_of(a, base, bw) + crowding_of(b, base, bw),
        crowding_of(Seq::empty(), base, bw) == 0,
    decreases b.len(),
{
    if b.len() == 0 {
        assert(a + b == a);
    } else {
        let c = b.drop_last();
        law_crowding_adds_up(a, c, base, bw);
        lemma_crowding_prefix(a + b, a + c, a.len() + c.len() as int, base, bw);
        lemma_crowding_prefix(b, c, c.len() as int, base, bw);
        assert((a + b)[a.len() + b.len() - 1] == b[b.len() - 1]);
    }
}

/// The order in which the stations were decoded does not matter.
pub proof fn law_crowding_in_any_order(a: Seq<i64>, b: Seq<i64>, base: int, bw: int)
    requires
        a.to_multiset() == b.to_multiset(),
    ensures
        crowding_of(a, base, bw) == crowding_of(b, base, bw),
    decreases a.len(),
{
    broadcast use vstd::seq_lib::group_to_multiset_ensures;

    assert(a.to_multiset().len() == a.len() && b.to_multiset().len() == b.len());
    if a.len() > 0 {
        let x = a.last();
        let front = a.drop_last();
        assert(front.push(x) == a);
        assert(a[a.len() - 1] == x);
        assert(a.to_multiset().count(x) > 0);
        assert(b.contains(x));
        let j = choose|j: int| 0 <= j < b.len() && b[j] == x;
        let l = b.take(j);
        let r = b.skip(j + 1);
        let rest = l + r;
        assert(b == l + seq![x] + r);
        assert(b.remove(j) == rest);
        assert(front.to_multiset().insert(x) == a.to_multiset());
        assert(rest.to_multiset().insert(x) == b.to_multiset()) by {
            assert(b.remove(j).to_multiset() == b.to_multiset().remove(x));
            assert(b.to_multiset().count(x) > 0);
            assert(b.to_multiset().remove(x).insert(x) =~= b.to_multiset());
        }
        assert(front.to_multiset() =~= front.to_multiset().insert(x).remove(x));
        assert(rest.to_multiset() =~= rest.to_multiset().insert(x).remove(x));
        law_crowding_in_any_order(front, rest, base, bw);
        assert(front + seq![x] == a);
        law_crowding_adds_up(front, seq![x], base, bw);
        law_crowding_adds_up(l + seq![x], r, base, bw);
        law_crowding_adds_up(l, seq![x], base, bw);
        law_crowding_adds_up(l, r, base, bw);
    }
}

/// The stations whose lanes overlap a lane.
pub open spec fn in_lane(ds: Seq<i64>, base: int, bw: int) -> Seq<i64> {
    ds.filter(|off: i64| overlaps(base, off as int, bw))
}

/// A lane is crowded by at least one full measure for each station whose lane overlaps
/// it, wherever in the list the station stands; and by nothing at all if, and only if, it
/// keeps its distance from all stations.
pub proof fn law_every_station_counts(ds: Seq<i64>, base: int, bw: int)
    requires
        0 < bw <= 2_500,
    ensures
        crowding_of(ds, base, bw) >= in_lane(ds, base, bw).len() * berth(bw),
        crowding_of(ds, base, bw) == 0 <==> keeps_clear(base, ds, bw),
        forall|i: int|
            0 <= i < ds.len() && overlaps(base, (#[trigger] ds[i]) as int, bw) ==> crowding_of(
                ds,
                base,
                bw,
            ) >= berth(bw),
    decreases ds.len(),
{
    reveal(Seq::filter);
    let test = |off: i64| overlaps(base, off as int, bw);
    if ds.len() > 0 {
        let c = ds.drop_last();
        let x = ds.last();
        law_every_station_counts(c, base, bw);
        lemma_crowding_prefix(ds, c, c.len() as int, base, bw);
        let many = c.filter(test).len() as int;
        let count = in_lane(ds, base, bw).len() as int;
        assert(in_lane(c, base, bw) == c.filter(test));
        assert(in_lane(ds, base, bw) == ds.filter(test));
        assert(count == if test(x) {
            many + 1
        } else {
            many
        });
        assert((many + 1) * berth(bw) == many * berth(bw) + berth(bw)) by (nonlinear_arith);
        assert(many * berth(bw) >= 0) by (nonlinear_arith)
            requires
                many >= 0,
                berth(bw) > 0,
        ;
        assert(count * berth(bw) <= crowding_of(ds, base, bw));
        assert forall|i: int|
            0 <= i < ds.len() && overlaps(base, (#[trigger] ds[i]) as int, bw) implies crowding_of(
            ds,
            base,
            bw,
        ) >= berth(bw) by {
            if i < c.len() {
                assert(c[i] == ds[i]);
            }
        }
        if keeps_clear(base, ds, bw) {
            assert forall|i: int| 0 <= i < c.len() implies (#[trigger] c[i]) - (500 * base + 1_000
                * bw) >= berth(bw) || 500 * base - (c[i] + 1_000 * bw) >= berth(bw) by {
                assert(c[i] == ds[i]);
            }
            assert(ds[ds.len() - 1] == x);
        } else if keeps_clear(base, c, bw) {
            let i = choose|i: int|
                0 <= i < ds.len() && !((#[trigger] ds[i]) - (500 * base + 1_000 * bw) >= berth(bw)
                    || 500 * base - (ds[i] + 1_000 * bw) >= berth(bw));
            if i < c.len() {
                assert(c[i] == ds[i]);
            }
        }
    } else {
        assert(in_lane(ds, base, bw).len() == 0);
        assert(0 * berth(bw) == 0) by (nonlinear_arith);
    }
}

/// The stations that keep their lanes are those that were decoded in the last 45 seconds,
/// each at the offset it was decoded at.
pub proof fn law_recent_stations(v: Seq<Heard>, now: int)
    ensures
        crate::lane_finder::recent(v, v.len() as int, now) == v.filter(
            |h: Heard| now - h.t_ms <= 45_000,
        ).map_values(|h: Heard| h.offset),
{
    lemma_recent(v, v.len() as int, now);
    assert(v.take(v.len() as int) == v);
}

proof fn lemma_recent(v: Seq<Heard>, n: int, now: int)
    requires
        0 <= n <= v.len(),
    ensures
        crate::lane_finder::recent(v, n, now) == v.take(n).filter(
            |h: Heard| now - h.t_ms <= 45_000,
        ).map_values(|h: Heard| h.offset),
    decreases n,
{
    reveal(Seq::filter);
    let test = |h: Heard| now - h.t_ms <= 45_000;
    let pick = |h: Heard| h.offset;
    if n > 0 {
        lemma_recent(v, n - 1, now);
        let t = v.take(n);
        assert(t.drop_last() == v.take(n - 1));
        assert(t.last() == v[n - 1]);
        let f = v.take(n - 1).filter(test);
        assert(f.push(v[n - 1]).map_values(pick) == f.map_values(pick).push(v[n - 1].offset));
    } else {
        assert(v.take(0).len() == 0);
    }
}

/// Every place where the signal fits is looked at, and no other.
pub proof fn law_lanes_are_where_it_fits(base: int, bw: int)
    requires
        0 < bw <= 2_500,
    ensures
        fits(base, bw) <==> (exists|k: int|
            0 <= k < crate::lane_finder::lanes(bw) && #[trigger] crate::lane_finder::base_of(k)
                == base),
{
    if fits(base, bw) {
        let k = (base - 500) / 10;
        assert(0 <= k < crate::lane_finder::lanes(bw));
        assert(crate::lane_finder::base_of(k) == base);
    }
}

/// The lane that is taken, where something was received.
pub open spec fn taken(cells: Seq<u32>, scale: int, ds: Seq<i64>, bw: int) -> int {
    crate::lane_finder::base_of(
        crate::lane_finder::cheapest(cells, scale, ds, bw, crate::lane_finder::lanes(bw)),
    )
}

/// How far the middle of a signal lies from the middle of the passband at 1500 Hz, in half
/// hertz.
pub open spec fn from_middle(base: int, bw: int) -> int {
    if base + bw >= 2 * 1_500 {
        base + bw - 2 * 1_500
    } else {
        2 * 1_500 - (base + bw)
    }
}

/// Whether a cell of 5 Hz lies in a lane or in the guard beside it, which is as wide as the
/// signal and at least 10 Hz. Cells that reach into the guard count.
pub open spec fn judged(c: int, base: int, bw: int) -> bool {
    let guard = if bw >= 20 {
        bw
    } else {
        20
    };
    base - guard - 10 < 10 * c < base + 2 * bw + guard + 10
}

proof fn lemma_even(cells: Seq<u32>, a: int, b: int, x: u32)
    requires
        0 <= a < b <= cells.len(),
        forall|c: int| a <= c < b ==> #[trigger] cells[c] == x,
    ensures
        crate::lane_finder::peak(cells, a, b) == x,
        crate::lane_finder::total(cells, a, b) == (b - a) * x,
    decreases b - a,
{
    reveal_with_fuel(crate::lane_finder::peak, 2);
    reveal_with_fuel(crate::lane_finder::total, 2);
    if a < b - 1 {
        lemma_even(cells, a, b - 1, x);
        assert((b - a) * x == (b - 1 - a) * x + x) by (nonlinear_arith);
    } else {
        assert((b - a) * x == x) by (nonlinear_arith)
            requires
                b - a == 1,
        ;
    }
}

/// The cells that a lane is judged by.
proof fn lemma_judged(base: int, bw: int)
    requires
        0 < bw <= 2_500,
        fits(base, bw),
    ensures
        ({
            let guard = if bw > 20 {
                bw
            } else {
                20
            };
            let (a, b) = crate::lane_finder::cells_of(base - guard, base + 2 * bw + guard);
            &&& 0 <= a < b <= 601
            &&& forall|c: int| 0 <= c < 601 ==> (a <= c < b <==> #[trigger] judged(c, base, bw))
        }),
{
}

/// What makes a lane dear, where all cells that it is judged by are equally busy: a cell as
/// busy as the loudest signals counts as much as a station right in the lane, and four
/// times as much as 1250 Hz from the middle of the passband.
pub proof fn law_cost_of_even_lane(
    cells: Seq<u32>,
    scale: int,
    ds: Seq<i64>,
    bw: int,
    k: int,
    x: u32,
)
    requires
        cells.len() == 601,
        0 < bw <= 2_500,
        0 <= k < crate::lane_finder::lanes(bw),
        forall|c: int|
            0 <= c < 601 && judged(c, 500 + 10 * k, bw) ==> #[trigger] cells[c] == x,
    ensures
        ({
            let base = 500 + 10 * k;
            let (num, n) = crate::lane_finder::cost(cells, scale, ds, bw, k);
            &&& n > 0
            &&& num == n * (100_000 * berth(bw) * x + 100_000 * scale * crowding_of(ds, base, bw)
                + 10 * scale * berth(bw) * from_middle(base, bw))
        }),
{
    let base = 500 + 10 * k;
    let guard = if bw > 20 {
        bw
    } else {
        20
    };
    let (a, b) = crate::lane_finder::cells_of(base - guard, base + 2 * bw + guard);
    lemma_judged(base, bw);
    assert forall|c: int| a <= c < b implies #[trigger] cells[c] == x by {
        assert(judged(c, base, bw));
    }
    lemma_even(cells, a, b, x);
    let n = b - a;
    let m = berth(bw);
    let cr = crowding_of(ds, base, bw);
    let off = from_middle(base, bw);
    let e = x as int;
    assert((7 * e * n + 3 * (n * e)) * (10_000 * m) + n * (cr * (100_000 * scale) + off * (10
        * scale * m)) == n * (100_000 * m * e + 100_000 * scale * cr + 10 * scale * m * off))
        by (nonlinear_arith);
}

/// On a flat spectrum the lane that is taken overlaps no station that was decoded lately,
/// if any place where the signal fits keeps its distance from all of them.
pub proof fn law_flat_spectrum_avoids_stations(
    cells: Seq<u32>,
    scale: int,
    ds: Seq<i64>,
    bw: int,
    clear: int,
    i: int,
)
    requires
        cells.len() == 601,
        forall|c: int| 0 <= c < 601 ==> #[trigger] cells[c] == 0,
        scale > 0,
        0 < bw <= 2_500,
        fits(clear, bw),
        keeps_clear(clear, ds, bw),
        0 <= i < ds.len(),
    ensures
        fits(taken(cells, scale, ds, bw), bw),
        !overlaps(taken(cells, scale, ds, bw), ds[i] as int, bw),
{
    let n = crate::lane_finder::lanes(bw);
    let j = crate::lane_finder::cheapest(cells, scale, ds, bw, n);
    crate::lane_finder::law_no_lane_is_cheaper(cells, scale, ds, bw, n);
    let k = (clear - 500) / 10;
    assert(0 <= k < n && 500 + 10 * k == clear);
    law_lanes_are_where_it_fits(500 + 10 * j, bw);
    assert(crate::lane_finder::base_of(j) == 500 + 10 * j);
    law_every_station_counts(ds, clear, bw);
    law_every_station_counts(ds, 500 + 10 * j, bw);
    law_cost_of_even_lane(cells, scale, ds, bw, k, 0);
    law_cost_of_even_lane(cells, scale, ds, bw, j, 0);
    let free = crate::lane_finder::cost(cells, scale, ds, bw, k);
    let best = crate::lane_finder::cost(cells, scale, ds, bw, j);
    let m = berth(bw);
    let cr = crowding_of(ds, 500 + 10 * j, bw);
    let off = from_middle(clear, bw);
    let away = from_middle(500 + 10 * j, bw);
    if overlaps(500 + 10 * j, ds[i] as int, bw) {
        let p = 100_000 * m * 0 + 100_000 * scale * 0 + 10 * scale * m * off;
        let q = 100_000 * m * 0 + 100_000 * scale * cr + 10 * scale * m * away;
        assert(p < q) by (nonlinear_arith)
            requires
                p == 100_000 * m * 0 + 100_000 * scale * 0 + 10 * scale * m * off,
                q == 100_000 * m * 0 + 100_000 * scale * cr + 10 * scale * m * away,
                cr >= m,
                m > 0,
                scale > 0,
                0 <= off <= 2_500,
                away >= 0,
        ;
        let (nf, nb) = (free.1, best.1);
        assert((nf * p) * nb < (nb * q) * nf) by (nonlinear_arith)
            requires
                p < q,
                nf > 0,
                nb > 0,
        ;
        assert(false);
    }
}

/// With nothing to choose between the lanes but where they lie, the one in the middle is
/// taken: no place where the signal fits is nearer to the middle of the passband.
pub proof fn law_quiet_band_takes_the_middle(cells: Seq<u32>, scale: int, bw: int, other: int)
    requires
        cells.len() == 601,
        forall|c: int| 0 <= c < 601 ==> #[trigger] cells[c] == 0,
        scale > 0,
        0 < bw <= 2_500,
        fits(other, bw),
    ensures
        from_middle(taken(cells, scale, Seq::empty(), bw), bw) <= from_middle(other, bw),
{
    let ds = Seq::<i64>::empty();
    let n = crate::lane_finder::lanes(bw);
    let j = crate::lane_finder::cheapest(cells, scale, ds, bw, n);
    crate::lane_finder::law_no_lane_is_cheaper(cells, scale, ds, bw, n);
    let k = (other - 500) / 10;
    assert(0 <= k < n && 500 + 10 * k == other);
    law_cost_of_even_lane(cells, scale, ds, bw, k, 0);
    law_cost_of_even_lane(cells, scale, ds, bw, j, 0);
    law_crowding_adds_up(ds, ds, other, bw);
    law_crowding_adds_up(ds, ds, 500 + 10 * j, bw);
    let there = crate::lane_finder::cost(cells, scale, ds, bw, k);
    let best = crate::lane_finder::cost(cells, scale, ds, bw, j);
    let m = berth(bw);
    let off = from_middle(other, bw);
    let away = from_middle(500 + 10 * j, bw);
    if away > off {
        let p = 100_000 * m * 0 + 100_000 * scale * 0 + 10 * scale * m * off;
        let q = 100_000 * m * 0 + 100_000 * scale * 0 + 10 * scale * m * away;
        assert(p < q) by (nonlinear_arith)
            requires
                p == 100_000 * m * 0 + 100_000 * scale * 0 + 10 * scale * m * off,
                q == 100_000 * m * 0 + 100_000 * scale * 0 + 10 * scale * m * away,
                m > 0,
                scale > 0,
                off < away,
        ;
        let (nf, nb) = (there.1, best.1);
        assert((nf * p) * nb < (nb * q) * nf) by (nonlinear_arith)
            requires
                p < q,
                nf > 0,
                nb > 0,
        ;
        assert(false);
    }
}

/// The loudest of cells is one of them, and none is louder.
pub proof fn law_loudest_cell(cells: Seq<u32>, a: int, b: int)
    requires
        0 <= a < b <= cells.len(),
    ensures
        exists|c: int| a <= c < b && #[trigger] cells[c] == crate::lane_finder::peak(cells, a, b),
        forall|c: int| a <= c < b ==> (#[trigger] cells[c]) <= crate::lane_finder::peak(cells, a, b),
    decreases b - a,
{
    reveal_with_fuel(crate::lane_finder::peak, 2);
    let p = crate::lane_finder::peak(cells, a, b);
    if a < b - 1 {
        law_loudest_cell(cells, a, b - 1);
        let c = choose|c: int|
            a <= c < b - 1 && #[trigger] cells[c] == crate::lane_finder::peak(cells, a, b - 1);
        if cells[b - 1] == p {
            assert(a <= b - 1 < b);
        } else {
            assert(cells[c] == p);
        }
    } else {
        assert(cells[a] == p);
    }
}

proof fn lemma_louder(cells: Seq<u32>, a: int, b: int, c: int, x: u32)
    requires
        0 <= a <= b <= cells.len(),
        0 <= c < cells.len(),
        x > cells[c],
    ensures
        a <= c < b ==> crate::lane_finder::total(cells.update(c, x), a, b)
            == crate::lane_finder::total(cells, a, b) + (x - cells[c]),
        a <= c < b ==> crate::lane_finder::peak(cells.update(c, x), a, b)
            >= crate::lane_finder::peak(cells, a, b),
        !(a <= c < b) ==> crate::lane_finder::total(cells.update(c, x), a, b)
            == crate::lane_finder::total(cells, a, b),
        !(a <= c < b) ==> crate::lane_finder::peak(cells.update(c, x), a, b)
            == crate::lane_finder::peak(cells, a, b),
    decreases b - a,
{
    if a < b {
        lemma_louder(cells, a, b - 1, c, x);
    }
}

/// Every cell in the lane or in its guard counts, and no other: more energy in one of them
/// makes the lane dearer, and energy elsewhere leaves its cost as it is.
pub proof fn law_every_judged_cell_counts(
    cells: Seq<u32>,
    scale: int,
    ds: Seq<i64>,
    bw: int,
    k: int,
    c: int,
    x: u32,
)
    requires
        cells.len() == 601,
        0 < bw <= 2_500,
        0 <= k < crate::lane_finder::lanes(bw),
        0 <= c < 601,
        x > cells[c],
    ensures
        judged(c, 500 + 10 * k, bw) ==> crate::lane_finder::cheaper(
            crate::lane_finder::cost(cells, scale, ds, bw, k),
            crate::lane_finder::cost(cells.update(c, x), scale, ds, bw, k),
        ),
        !judged(c, 500 + 10 * k, bw) ==> crate::lane_finder::cost(
            cells.update(c, x),
            scale,
            ds,
            bw,
            k,
        ) == crate::lane_finder::cost(cells, scale, ds, bw, k),
{
    let base = 500 + 10 * k;
    let guard = if bw > 20 {
        bw
    } else {
        20
    };
    let (a, b) = crate::lane_finder::cells_of(base - guard, base + 2 * bw + guard);
    lemma_judged(base, bw);
    lemma_louder(cells, a, b, c, x);
    assert(judged(c, base, bw) <==> a <= c < b);
    if a <= c < b {
        let n = b - a;
        let m = berth(bw);
        let p = crate::lane_finder::peak(cells, a, b);
        let q = crate::lane_finder::peak(cells.update(c, x), a, b);
        let t = crate::lane_finder::total(cells, a, b);
        let u = crate::lane_finder::total(cells.update(c, x), a, b);
        let rest = n * (crowding_of(ds, base, bw) * (100_000 * scale) + from_middle(base, bw) * (10
            * scale * m));
        let was = (7 * p * n + 3 * t) * (10_000 * m) + rest;
        let now = (7 * q * n + 3 * u) * (10_000 * m) + rest;
        assert(was < now) by (nonlinear_arith)
            requires
                was == (7 * p * n + 3 * t) * (10_000 * m) + rest,
                now == (7 * q * n + 3 * u) * (10_000 * m) + rest,
                p <= q,
                t < u,
                n > 0,
                m > 0,
        ;
        assert(was * n < now * n) by (nonlinear_arith)
            requires
                was < now,
                n > 0,
        ;
    }
}

proof fn lemma_lone(cells: Seq<u32>, a: int, b: int, c: int)
    requires
        0 <= a <= b <= cells.len(),
        0 <= c < cells.len(),
        forall|i: int| 0 <= i < cells.len() && i != c ==> #[trigger] cells[i] == 0,
    ensures
        crate::lane_finder::peak(cells, a, b) == (if a <= c < b {
            cells[c] as int
        } else {
            0
        }),
        crate::lane_finder::total(cells, a, b) == (if a <= c < b {
            cells[c] as int
        } else {
            0
        }),
    decreases b - a,
{
    if a < b {
        lemma_lone(cells, a, b - 1, c);
    }
}

/// What a lone signal in a lane costs: seven tenths by its loudness, and three tenths by
/// the mean over the cells that the lane is judged by.
pub proof fn law_cost_of_lone_signal(
    cells: Seq<u32>,
    scale: int,
    bw: int,
    k: int,
    c: int,
)
    requires
        cells.len() == 601,
        0 < bw <= 2_500,
        0 <= k < crate::lane_finder::lanes(bw),
        0 <= c < 601,
        judged(c, 500 + 10 * k, bw),
        forall|i: int| 0 <= i < cells.len() && i != c ==> #[trigger] cells[i] == 0,
    ensures
        ({
            let (num, n) = crate::lane_finder::cost(cells, scale, Seq::empty(), bw, k);
            num == 70_000 * berth(bw) * cells[c] * n + 30_000 * berth(bw) * cells[c] + n * (10
                * scale * berth(bw) * from_middle(500 + 10 * k, bw))
        }),
{
    let base = 500 + 10 * k;
    let guard = if bw > 20 {
        bw
    } else {
        20
    };
    let (a, b) = crate::lane_finder::cells_of(base - guard, base + 2 * bw + guard);
    lemma_judged(base, bw);
    lemma_lone(cells, a, b, c);
    law_crowding_adds_up(Seq::empty(), Seq::empty(), base, bw);
    let n = b - a;
    let m = berth(bw);
    let e = cells[c] as int;
    let off = from_middle(base, bw);
    assert((7 * e * n + 3 * e) * (10_000 * m) + n * (0 * (100_000 * scale) + off * (10 * scale * m))
        == 70_000 * m * e * n + 30_000 * m * e + n * (10 * scale * m * off)) by (nonlinear_arith);
}

/// A row of the spectrum says of a cell what its nearest bin holds: no bin is nearer.
/// A cell that lies further than half a bin from the row gets nothing.
pub proof fn law_nearest_bin_is_sampled(r: LaneRow, c: int, b: int)
    requires
        0 <= c < 601,
        r.received,
        r.bin > 0,
        0 <= b < r.mags@.len(),
    ensures
        ({
            let d = 5_000_000 * c - (r.bin0 + b * r.bin);
            &&& -(r.bin as int) <= 2 * d < r.bin ==> {
                ||| crate::lane_finder::sample(r, c) == Some(r.mags@[b])
                ||| 2 * d == -(r.bin as int) && b == 0
            }
            &&& crate::lane_finder::sample(r, c) is Some ==> exists|n: int|
                0 <= n < r.mags@.len() && crate::lane_finder::sample(r, c) == Some(
                    #[trigger] r.mags@[n],
                ) && -(r.bin as int) <= 2 * (5_000_000 * c - (r.bin0 + n * r.bin)) <= r.bin
        }),
{
    let bin = r.bin as int;
    let off = 5_000_000 * c - r.bin0;
    let d = off - b * bin;
    if off >= 0 {
        let q = (2 * off + bin) / (2 * bin);
        assert(2 * bin * q <= 2 * off + bin < 2 * bin * q + 2 * bin && q >= 0) by (nonlinear_arith)
            requires
                q == (2 * off + bin) / (2 * bin),
                off >= 0,
                bin > 0,
        ;
        assert(2 * (q * bin) == 2 * bin * q) by (nonlinear_arith);
        if -bin <= 2 * d < bin {
            assert(q == b) by (nonlinear_arith)
                requires
                    2 * bin * q <= 2 * off + bin < 2 * bin * q + 2 * bin,
                    -bin <= 2 * (off - b * bin) < bin,
                    bin > 0,
            ;
        }
        if q < r.mags@.len() {
            assert(crate::lane_finder::sample(r, c) == Some(r.mags@[q]));
        }
    } else {
        if -bin <= 2 * d < bin {
            assert(b == 0) by (nonlinear_arith)
                requires
                    -bin <= 2 * (off - b * bin),
                    off < 0,
                    bin > 0,
                    b >= 0,
            ;
        }
        if -2 * off < bin {
            assert(crate::lane_finder::sample(r, c) == Some(r.mags@[0]));
            assert(0 * bin == 0);
        }
    }
}

/// What a list of rows says of a cell: how much they weigh together, and their energies by
/// weight.
pub open spec fn weighed_by(rows: Seq<LaneRow>, c: int) -> (int, int) {
    crate::lane_finder::weighed(rows, rows.len() as int, c)
}

proof fn lemma_weighed_prefix(a: Seq<LaneRow>, b: Seq<LaneRow>, n: int, c: int)
    requires
        0 <= n <= a.len(),
        n <= b.len(),
        forall|i: int| 0 <= i < n ==> a[i] == b[i],
    ensures
        crate::lane_finder::weighed(a, n, c) == crate::lane_finder::weighed(b, n, c),
    decreases n,
{
    if n > 0 {
        lemma_weighed_prefix(a, b, n - 1, c);
    }
}

/// Every row counts by its weight, and each by itself.
pub proof fn law_rows_add_up(a: Seq<LaneRow>, b: Seq<LaneRow>, c: int)
    ensures
        weighed_by(a + b, c).0 == weighed_by(a, c).0 + weighed_by(b, c).0,
        weighed_by(a + b, c).1 == weighed_by(a, c).1 + weighed_by(b, c).1,
    decreases b.len(),
{
    if b.len() == 0 {
        assert(a + b == a);
    } else {
        let f = b.drop_last();
        law_rows_add_up(a, f, c);
        lemma_weighed_prefix(a + b, a + f, a.len() + f.len() as int, c);
        lemma_weighed_prefix(b, f, f.len() as int, c);
        assert((a + b)[a.len() + b.len() - 1] == b[b.len() - 1]);
    }
}

/// One received row that reaches a cell gives the cell what it says, in full. A row of the
/// station's own, beside any others, changes nothing.
pub proof fn law_energy_of_rows(rows: Seq<LaneRow>, r: LaneRow, c: int, m: u8)
    ensures
        crate::lane_finder::sample(r, c) == Some(m) && r.weight > 0 ==> crate::lane_finder::energy(
            seq![r],
            c,
        ) == 65_536 * m,
        !r.received ==> crate::lane_finder::energy(rows + seq![r], c)
            == crate::lane_finder::energy(rows, c),
{
    reveal_with_fuel(crate::lane_finder::weighed, 2);
    let one = seq![r];
    assert(one.len() == 1 && one[0] == r);
    law_rows_add_up(rows, one, c);
    if crate::lane_finder::sample(r, c) == Some(m) && r.weight > 0 {
        let w = r.weight as int;
        let e = m as int;
        assert(65_536 * (w * e) / w == 65_536 * e) by (nonlinear_arith)
            requires
                w > 0,
        ;
    }
}

proof fn lemma_mean(rows: Seq<LaneRow>, n: int, c: int, lo: int, hi: int)
    requires
        0 <= n <= rows.len(),
        forall|i: int|
            0 <= i < n ==> (crate::lane_finder::sample(#[trigger] rows[i], c) matches Some(m) ==> lo
                <= m <= hi),
    ensures
        lo * crate::lane_finder::weighed(rows, n, c).0 <= crate::lane_finder::weighed(rows, n, c).1
            <= hi * crate::lane_finder::weighed(rows, n, c).0,
        crate::lane_finder::weighed(rows, n, c).0 >= 0,
    decreases n,
{
    if n > 0 {
        lemma_mean(rows, n - 1, c, lo, hi);
        let r = rows[n - 1];
        match crate::lane_finder::sample(r, c) {
            Some(m) => {
                let (w, e) = crate::lane_finder::weighed(rows, n - 1, c);
                let x = r.weight as int;
                let y = m as int;
                assert(lo * (w + x) <= e + x * y <= hi * (w + x)) by (nonlinear_arith)
                    requires
                        lo * w <= e <= hi * w,
                        lo <= y <= hi,
                        x >= 0,
                ;
            },
            None => {},
        }
    } else {
        assert(lo * 0 == 0 && hi * 0 == 0) by (nonlinear_arith);
    }
}

/// The energy of a cell lies between the least and the most that any row says of it; so
/// where all rows say the same, that is its energy.
pub proof fn law_energy_is_a_mean(rows: Seq<LaneRow>, c: int, lo: int, hi: int)
    requires
        0 <= lo <= hi,
        forall|i: int|
            0 <= i < rows.len() ==> (crate::lane_finder::sample(#[trigger] rows[i], c) matches Some(
                m,
            ) ==> lo <= m <= hi),
        weighed_by(rows, c).0 > 0,
    ensures
        65_536 * lo <= crate::lane_finder::energy(rows, c) <= 65_536 * hi,
{
    lemma_mean(rows, rows.len() as int, c, lo, hi);
    let (w, e) = weighed_by(rows, c);
    assert(65_536 * lo <= 65_536 * e / w <= 65_536 * hi) by (nonlinear_arith)
        requires
            lo * w <= e <= hi * w,
            w > 0,
    ;
}

/// The quiet floor leaves a fifth of the 501 usable cells below it, and the range of the
/// signals is what one cell in twenty lies above, 16 steps of the spectrum at least.
pub proof fn law_floor_and_range(cells: Seq<u32>)
    requires
        cells.len() == 601,
    ensures
        ({
            let order = crate::lane_finder::ascending(cells.subrange(50, 551));
            let floor = crate::lane_finder::floor_of(cells);
            let scale = crate::lane_finder::scale_of(cells);
            &&& order.len() == 501
            &&& forall|i: int| 0 <= i <= 100 ==> (#[trigger] order[i]) <= floor
            &&& forall|i: int| 100 <= i < 501 ==> (#[trigger] order[i]) >= floor
            &&& scale >= 16 * 65_536
            &&& scale > 16 * 65_536 ==> {
                &&& forall|i: int| 0 <= i <= 475 ==> (#[trigger] order[i]) <= floor + scale
                &&& forall|i: int| 475 <= i < 501 ==> (#[trigger] order[i]) >= floor + scale
            }
            &&& order[475] <= floor + scale
        }),
{
    crate::lane_finder::law_ascending(cells.subrange(50, 551));
    let order = crate::lane_finder::ascending(cells.subrange(50, 551));
    assert(order == crate::lane_finder::window(cells));
    assert(order[100] <= order[475]);
}

/// How busy a cell is: what it has above the floor. The floor itself is not busy, and the
/// busier of two cells is the one with more energy.
pub proof fn law_busy_above_floor(rows: Seq<LaneRow>, c: int)
    requires
        0 <= c < 601,
    ensures
        ({
            let e = crate::lane_finder::energies(rows);
            let floor = crate::lane_finder::floor_of(e);
            let busy = crate::lane_finder::occupancy(rows);
            &&& e.len() == 601 && busy.len() == 601
            &&& e[c] == crate::lane_finder::energy(rows, c) as u32
            &&& e[c] <= floor ==> busy[c] == 0
            &&& e[c] >= floor ==> floor + busy[c] == e[c]
        }),
{
}

/// Where every cell got the same energy, no cell is busy.
pub proof fn law_flat_rows_are_quiet(rows: Seq<LaneRow>, x: u32)
    requires
        forall|c: int| 0 <= c < 601 ==> #[trigger] crate::lane_finder::energies(rows)[c] == x,
    ensures
        forall|c: int| 0 <= c < 601 ==> #[trigger] crate::lane_finder::occupancy(rows)[c] == 0,
{
    let e = crate::lane_finder::energies(rows);
    let s = e.subrange(50, 551);
    let order = crate::lane_finder::ascending(s);
    law_floor_and_range(e);
    broadcast use vstd::seq_lib::group_to_multiset_ensures;
    crate::lane_finder::law_ascending(s);
    assert(order.to_multiset().count(order[100]) > 0);
    assert(s.contains(order[100]));
    let i = choose|i: int| 0 <= i < s.len() && s[i] == order[100];
    assert(s[i] == e[50 + i]);
    assert(order[100] == x);
    assert forall|c: int| 0 <= c < 601 implies #[trigger] crate::lane_finder::occupancy(rows)[c]
        == 0 by {
        law_busy_above_floor(rows, c);
        assert(e[c] == x);
    }
}

proof fn lemma_filtered(v: Seq<Heard>, test: spec_fn(Heard) -> bool, j: int)
    requires
        0 <= j < v.filter(test).len(),
    ensures
        v.contains(v.filter(test)[j]),
    decreases v.len(),
{
    reveal(Seq::filter);
    if v.len() > 0 {
        let f = v.drop_last();
        if j < f.filter(test).len() {
            lemma_filtered(f, test, j);
            let y = choose|y: int| 0 <= y < f.len() && f[y] == f.filter(test)[j];
            assert(v[y] == v.filter(test)[j]);
        } else {
            assert(v[v.len() - 1] == v.filter(test)[j]);
        }
    }
}

/// The search from end to end: where every cell got the same energy, the lane that is taken
/// overlaps no station that was decoded in the last 45 seconds, if any place where the
/// signal fits keeps its distance from all of those.
pub proof fn law_next_cq_avoids_stations(
    rows: Seq<LaneRow>,
    x: u32,
    decodes: Seq<Heard>,
    now: int,
    bw: int,
    clear: int,
    i: int,
)
    requires
        forall|c: int| 0 <= c < 601 ==> #[trigger] crate::lane_finder::energies(rows)[c] == x,
        0 < bw <= 2_500,
        fits(clear, bw),
        forall|j: int|
            0 <= j < decodes.len() && now - (#[trigger] decodes[j]).t_ms <= 45_000
                ==> decodes[j].offset - (500 * clear + 1_000 * bw) >= berth(bw) || 500 * clear - (
            decodes[j].offset + 1_000 * bw) >= berth(bw),
        0 <= i < decodes.len(),
        now - decodes[i].t_ms <= 45_000,
    ensures
        ({
            let ds = crate::lane_finder::recent(decodes, decodes.len() as int, now);
            let lane = taken(
                crate::lane_finder::occupancy(rows),
                crate::lane_finder::scale_of(crate::lane_finder::energies(rows)),
                ds,
                bw,
            );
            fits(lane, bw) && !overlaps(lane, decodes[i].offset as int, bw)
        }),
{
    let ds = crate::lane_finder::recent(decodes, decodes.len() as int, now);
    let test = |h: Heard| now - h.t_ms <= 45_000;
    law_recent_stations(decodes, now);
    let f = decodes.filter(test);
    decodes.lemma_filter_contains(test, i);
    let n = choose|n: int| 0 <= n < f.len() && f[n] == decodes[i];
    assert(ds[n] == decodes[i].offset);
    assert forall|j: int| 0 <= j < ds.len() implies (#[trigger] ds[j]) - (500 * clear + 1_000 * bw)
        >= berth(bw) || 500 * clear - (ds[j] + 1_000 * bw) >= berth(bw) by {
        decodes.lemma_filter_pred(test, j);
        lemma_filtered(decodes, test, j);
        let y = choose|y: int| 0 <= y < decodes.len() && decodes[y] == f[j];
        assert(ds[j] == decodes[y].offset);
    }
    law_flat_rows_are_quiet(rows, x);
    law_floor_and_range(crate::lane_finder::energies(rows));
    law_flat_spectrum_avoids_stations(
        crate::lane_finder::occupancy(rows),
        crate::lane_finder::scale_of(crate::lane_finder::energies(rows)),
        ds,
        bw,
        clear,
        n,
    );
}

/// Of lanes that cost the same the lowest is taken: every lane below the one that is taken
/// costs more.
pub proof fn law_lowest_of_equal_lanes(
    cells: Seq<u32>,
    scale: int,
    ds: Seq<i64>,
    bw: int,
    n: int,
    k: int,
)
    requires
        0 < bw <= 2_500,
        1 <= n <= crate::lane_finder::lanes(bw),
        0 <= k < crate::lane_finder::cheapest(cells, scale, ds, bw, n),
    ensures
        crate::lane_finder::cheaper(
            crate::lane_finder::cost(
                cells,
                scale,
                ds,
                bw,
                crate::lane_finder::cheapest(cells, scale, ds, bw, n),
            ),
            crate::lane_finder::cost(cells, scale, ds, bw, k),
        ),
    decreases n,
{
    if n > 1 {
        let before = crate::lane_finder::cheapest(cells, scale, ds, bw, n - 1);
        let now = crate::lane_finder::cheapest(cells, scale, ds, bw, n);
        crate::lane_finder::law_no_lane_is_cheaper(cells, scale, ds, bw, n - 1);
        if now == before {
            law_lowest_of_equal_lanes(cells, scale, ds, bw, n - 1, k);
        } else {
            let was = crate::lane_finder::cost(cells, scale, ds, bw, before);
            let new = crate::lane_finder::cost(cells, scale, ds, bw, n - 1);
            let c = crate::lane_finder::cost(cells, scale, ds, bw, k);
            assert(c.1 > 0 && was.1 > 0 && new.1 > 0);
            assert(new.0 * c.1 < c.0 * new.1) by (nonlinear_arith)
                requires
                    !(c.0 * was.1 < was.0 * c.1),
                    new.0 * was.1 < was.0 * new.1,
                    c.1 > 0,
                    was.1 > 0,
                    new.1 > 0,
            ;
        }
    }
}

/// The newest time is that of a received row, and no received row is newer. There is none
/// only where nothing was received.
pub proof fn law_newest_row(rows: Seq<SpectrumRow>, n: int)
    requires
        0 <= n <= rows.len(),
    ensures
        crate::lane_finder::newest(rows, n) matches Some(t) ==> exists|i: int|
            0 <= i < n && (#[trigger] rows[i]).source == SignalSource::Received && rows[i].t_ms
                == t,
        forall|i: int|
            0 <= i < n && (#[trigger] rows[i]).source == SignalSource::Received ==> (
            crate::lane_finder::newest(rows, n) matches Some(t) && rows[i].t_ms <= t),
    decreases n,
{
    if n > 0 {
        law_newest_row(rows, n - 1);
        if let Some(t) = crate::lane_finder::newest(rows, n - 1) {
            let i = choose|i: int|
                0 <= i < n - 1 && (#[trigger] rows[i]).source == SignalSource::Received
                    && rows[i].t_ms == t;
            assert(rows[i].t_ms == t);
        }
        assert(rows[n - 1] == rows[n - 1]);
    }
}

/// A row counts as much as it weighs: where two rows reach a cell, each pulls its energy by its
/// own weight, and a row without weight not at all.
pub proof fn law_rows_count_by_weight(r: LaneRow, s: LaneRow, c: int, m: u8, k: u8)
    requires
        crate::lane_finder::sample(r, c) == Some(m),
        crate::lane_finder::sample(s, c) == Some(k),
        r.weight + s.weight > 0,
    ensures
        ({
            let e = crate::lane_finder::energy(seq![r, s], c);
            let sum = 65_536 * (r.weight * m + s.weight * k);
            &&& (r.weight + s.weight) * e <= sum
            &&& sum < (r.weight + s.weight) * (e + 1)
        }),
{
    reveal_with_fuel(crate::lane_finder::weighed, 3);
    let rows = seq![r, s];
    assert(rows.len() == 2 && rows[0] == r && rows[1] == s);
    let w = r.weight + s.weight;
    let x = r.weight * m + s.weight * k;
    assert(crate::lane_finder::weighed(rows, 2, c) == (w, x));
    let e = 65_536 * x / w;
    assert(w * e <= 65_536 * x && 65_536 * x < w * (e + 1)) by (nonlinear_arith)
        requires
            e == 65_536 * x / w,
            w > 0,
    ;
}

} // verus!
