//! The search for a clear lane: where in the passband the next CQ is called.
//!
//! A lane is cheap where little energy was received in it and beside it, where no station
//! was decoded near it, and near the middle of the passband. The cheapest one is taken.
//!
//! Frequencies are counted in half hertz, offsets of stations in thousandths of a hertz,
//! and energies in 65536ths of a step of the spectrum.

use vstd::prelude::*;

use crate::bus_view::SpectrumRow;
use crate::types::SignalSource;

verus! {

/// How many cells of 5 Hz the passband has, from 0 to 3000 Hz.
pub const CELLS: usize = 601;

/// The first and the last cell of the usable window, from 250 to 2750 Hz.
pub const FIRST_USABLE: usize = 50;

/// See [`FIRST_USABLE`].
pub const LAST_USABLE: usize = 550;

/// The least distance from the quiet floor to the loudest signals: 16 steps.
pub const MIN_SCALE: u32 = 1_048_576;

/// For how long a station that was decoded has its lane, in milliseconds.
pub const DECODE_RECENCY_MS: i64 = 45_000;

/// The widest signal that fits the usable window, in hertz.
pub const MAX_WIDTH_HZ: u32 = 2_500;

/// A row of the spectrum.
#[derive(Debug)]
pub struct LaneRow {
    /// Whether it was received, and is not the station's own.
    pub received: bool,
    /// The frequency of the first bin, and the width of a bin, in millionths of a hertz.
    pub bin0: i64,
    pub bin: u64,
    /// How much it counts beside the newest row, which counts 2 to the 30th.
    pub weight: u32,
    pub mags: Vec<u8>,
}

/// A station that was decoded: when, and at which offset.
#[derive(Clone, Copy, Debug, PartialEq, Eq, Structural)]
pub struct Heard {
    pub t_ms: i64,
    /// The audio offset, in thousandths of a hertz.
    pub offset: i64,
}

/// The time of the newest of the first `n` rows that were received.
pub open spec fn newest(rows: Seq<SpectrumRow>, n: int) -> Option<int>
    decreases n,
{
    if n <= 0 {
        None
    } else if rows[n - 1].source != SignalSource::Received {
        newest(rows, n - 1)
    } else {
        match newest(rows, n - 1) {
            Some(t) => if rows[n - 1].t_ms > t {
                Some(rows[n - 1].t_ms as int)
            } else {
                Some(t)
            },
            None => Some(rows[n - 1].t_ms as int),
        }
    }
}

/// How much older rows are than the newest that was received, in milliseconds; 0 for
/// rows that are not older.
pub fn row_ages(rows: &Vec<SpectrumRow>) -> (r: Vec<u64>)
    ensures
        newest(rows@, rows@.len() as int) is None ==> r@.len() == 0,
        newest(rows@, rows@.len() as int) matches Some(t) ==> {
            &&& r@.len() == rows@.len()
            &&& forall|i: int|
                0 <= i < rows@.len() ==> #[trigger] r@[i] == (if t > rows@[i].t_ms {
                    t - rows@[i].t_ms
                } else {
                    0
                })
        },
{
    let mut t: Option<i64> = None;
    let mut i: usize = 0;
    while i < rows.len()
        invariant
            i <= rows@.len(),
            match t {
                Some(x) => newest(rows@, i as int) == Some(x as int),
                None => newest(rows@, i as int) is None,
            },
        decreases rows@.len() - i,
    {
        if rows[i].source == SignalSource::Received {
            t = match t {
                Some(x) => Some(
                    if rows[i].t_ms > x {
                        rows[i].t_ms
                    } else {
                        x
                    },
                ),
                None => Some(rows[i].t_ms),
            };
        }
        i = i + 1;
    }
    let mut r: Vec<u64> = Vec::new();
    match t {
        Some(x) => {
            let mut k: usize = 0;
            while k < rows.len()
                invariant
                    k <= rows@.len(),
                    r@.len() == k,
                    forall|j: int|
                        0 <= j < k ==> #[trigger] r@[j] == (if x > rows@[j].t_ms {
                            x - rows@[j].t_ms
                        } else {
                            0
                        }),
                decreases rows@.len() - k,
            {
                let age: i128 = x as i128 - rows[k].t_ms as i128;
                r.push(
                    if age > 0 {
                        age as u64
                    } else {
                        0
                    },
                );
                k = k + 1;
            }
        },
        None => {},
    }
    r
}

/// The bin of a row that is nearest to a cell. None below the first bin.
pub open spec fn bin_for(bin0: int, bin: int, c: int) -> Option<int> {
    let d = 5_000_000 * c - bin0;
    if d >= 0 {
        Some((2 * d + bin) / (2 * bin))
    } else if -2 * d < bin {
        Some(0)
    } else {
        None
    }
}

/// What a row says of a cell, where it says anything.
pub open spec fn sample(r: LaneRow, c: int) -> Option<u8> {
    if !r.received || r.bin == 0 {
        None
    } else {
        match bin_for(r.bin0 as int, r.bin as int, c) {
            Some(b) => if b < r.mags@.len() {
                Some(r.mags@[b])
            } else {
                None
            },
            None => None,
        }
    }
}

/// The weights of the first `n` rows that say something of a cell, and their energies by
/// weight.
pub open spec fn weighed(rows: Seq<LaneRow>, n: int, c: int) -> (int, int)
    decreases n,
{
    if n <= 0 {
        (0, 0)
    } else {
        let (w, e) = weighed(rows, n - 1, c);
        match sample(rows[n - 1], c) {
            Some(m) => (w + rows[n - 1].weight, e + rows[n - 1].weight * m),
            None => (w, e),
        }
    }
}

/// The mean energy of a cell, rounded down; 0 where no row says anything of it.
pub open spec fn energy(rows: Seq<LaneRow>, c: int) -> int {
    let (w, e) = weighed(rows, rows.len() as int, c);
    if w > 0 {
        65_536 * e / w
    } else {
        0
    }
}

/// Where a number goes in an ascending list: behind those that are not greater.
pub open spec fn insert_at(s: Seq<u32>, x: u32) -> int
    decreases s.len(),
{
    if s.len() == 0 {
        0
    } else if s.last() <= x {
        s.len() as int
    } else {
        insert_at(s.drop_last(), x)
    }
}

/// A list in ascending order.
pub open spec fn ascending(s: Seq<u32>) -> Seq<u32>
    decreases s.len(),
{
    if s.len() == 0 {
        s
    } else {
        let r = ascending(s.drop_last());
        r.insert(insert_at(r, s.last()), s.last())
    }
}

proof fn lemma_insert_at(s: Seq<u32>, x: u32)
    ensures
        0 <= insert_at(s, x) <= s.len(),
        forall|i: int| insert_at(s, x) <= i < s.len() ==> x < #[trigger] s[i],
        insert_at(s, x) > 0 ==> s[insert_at(s, x) - 1] <= x,
    decreases s.len(),
{
    if s.len() > 0 && s.last() > x {
        lemma_insert_at(s.drop_last(), x);
        let k = insert_at(s, x);
        assert forall|i: int| k <= i < s.len() implies x < #[trigger] s[i] by {
            if i < s.len() - 1 {
                assert(s.drop_last()[i] == s[i]);
            }
        }
    }
}

/// The order of a list is ascending, and nothing is added to it or lost.
pub proof fn law_ascending(s: Seq<u32>)
    ensures
        ascending(s).len() == s.len(),
        forall|i: int, j: int| #![trigger ascending(s)[i], ascending(s)[j]]
            0 <= i <= j < s.len() ==> ascending(s)[i] <= ascending(s)[j],
        ascending(s).to_multiset() == s.to_multiset(),
    decreases s.len(),
{
    broadcast use vstd::seq_lib::group_to_multiset_ensures;

    if s.len() > 0 {
        law_ascending(s.drop_last());
        let r = ascending(s.drop_last());
        let x = s.last();
        let k = insert_at(r, x);
        lemma_insert_at(r, x);
        let t = r.insert(k, x);
        assert forall|i: int, j: int| #![trigger t[i], t[j]] 0 <= i <= j < t.len() implies t[i]
            <= t[j] by {
            if k > 0 {
                assert(r[k - 1] <= x);
            }
            if i < k && j == k {
                assert(r[i] <= r[k - 1]);
            }
        }
        assert(s.drop_last().push(x) == s);
        vstd::seq_lib::to_multiset_insert(r, k, x);
    }
}

/// The energies of the usable window, in ascending order.
pub open spec fn window(cells: Seq<u32>) -> Seq<u32> {
    ascending(cells.subrange(FIRST_USABLE as int, LAST_USABLE + 1))
}

/// The quiet floor: a fifth of the window is below it.
pub open spec fn floor_of(cells: Seq<u32>) -> u32 {
    window(cells)[100]
}

/// The range of the signals: from the floor to what one cell in twenty is above, and no
/// less than [`MIN_SCALE`].
pub open spec fn scale_of(cells: Seq<u32>) -> int {
    let d = window(cells)[475] - floor_of(cells);
    if d > MIN_SCALE {
        d
    } else {
        MIN_SCALE as int
    }
}

/// What a cell has above the floor.
pub open spec fn excess(x: u32, floor: u32) -> u32 {
    if x > floor {
        (x - floor) as u32
    } else {
        0
    }
}

/// How busy each cell of the passband is, above the quiet floor, and the range of the
/// signals.
#[derive(Debug)]
pub struct Occupancy {
    pub cells: Vec<u32>,
    pub scale: u32,
}

impl Occupancy {
    /// Every cell of the passband is there, and the energies are in range.
    pub open spec fn wf(&self) -> bool {
        &&& self.cells@.len() == CELLS
        &&& MIN_SCALE <= self.scale <= 0x100_0000
        &&& forall|i: int| 0 <= i < CELLS ==> (#[trigger] self.cells@[i]) <= 0x100_0000
    }
}

/// The mean energies of all cells.
pub open spec fn energies(rows: Seq<LaneRow>) -> Seq<u32> {
    Seq::new(CELLS as nat, |c: int| energy(rows, c) as u32)
}

proof fn lemma_weighed(rows: Seq<LaneRow>, n: int, c: int)
    requires
        0 <= n <= rows.len(),
    ensures
        0 <= weighed(rows, n, c).0 <= n * 0xFFFF_FFFF,
        0 <= weighed(rows, n, c).1 <= 255 * weighed(rows, n, c).0,
    decreases n,
{
    if n > 0 {
        lemma_weighed(rows, n - 1, c);
        match sample(rows[n - 1], c) {
            Some(m) => {
                let w = rows[n - 1].weight;
                assert(0 <= w * m <= 255 * w) by (nonlinear_arith)
                    requires
                        0 <= m <= 255,
                        0 <= w,
                ;
            },
            None => {},
        }
    }
}

fn row_sample(r: &LaneRow, c: usize) -> (m: Option<u8>)
    requires
        c < CELLS,
    ensures
        m == sample(*r, c as int),
{
    if !r.received || r.bin == 0 {
        return None;
    }
    let d: i128 = 5_000_000 * (c as i128) - r.bin0 as i128;
    let b: i128 = if d >= 0 {
        (2 * d + r.bin as i128) / (2 * r.bin as i128)
    } else if 2 * (0 - d) < r.bin as i128 {
        0
    } else {
        return None;
    };
    if b < r.mags.len() as i128 {
        assert(b >= 0) by (nonlinear_arith)
            requires
                d >= 0 ==> b == (2 * d + r.bin) / (2 * r.bin as int),
                d < 0 ==> b == 0,
                r.bin > 0,
        ;
        Some(r.mags[b as usize])
    } else {
        None
    }
}

fn cell_energy(rows: &Vec<LaneRow>, c: usize) -> (e: u32)
    requires
        c < CELLS,
    ensures
        e == energy(rows@, c as int),
        e <= 0x100_0000,
{
    let mut w: u128 = 0;
    let mut e: u128 = 0;
    let mut i: usize = 0;
    while i < rows.len()
        invariant
            i <= rows@.len(),
            c < CELLS,
            (w as int, e as int) == weighed(rows@, i as int, c as int),
        decreases rows@.len() - i,
    {
        proof {
            lemma_weighed(rows@, i as int, c as int);
            lemma_weighed(rows@, i + 1, c as int);
            assert(i * 0xFFFF_FFFF <= 0xFFFF_FFFF_FFFF_FFFF * 0xFFFF_FFFF) by (nonlinear_arith)
                requires
                    0 <= i <= 0xFFFF_FFFF_FFFF_FFFF,
            ;
            assert((i + 1) * 0xFFFF_FFFF <= 0x1_0000_0000_0000_0000 * 0xFFFF_FFFF)
                by (nonlinear_arith)
                requires
                    0 <= i <= 0xFFFF_FFFF_FFFF_FFFF,
            ;
        }
        match row_sample(&rows[i], c) {
            Some(m) => {
                let wi: u128 = rows[i].weight as u128;
                assert(0 <= wi * m <= 255 * wi) by (nonlinear_arith)
                    requires
                        0 <= m <= 255,
                        0 <= wi,
                ;
                w = w + wi;
                e = e + wi * (m as u128);
            },
            None => {},
        }
        i = i + 1;
    }
    proof {
        lemma_weighed(rows@, rows@.len() as int, c as int);
        let n = rows@.len() as int;
        assert(n * 0xFFFF_FFFF <= 0xFFFF_FFFF_FFFF_FFFF * 0xFFFF_FFFF) by (nonlinear_arith)
            requires
                0 <= n <= 0xFFFF_FFFF_FFFF_FFFF,
        ;
    }
    if w > 0 {
        let q: u128 = 65_536 * e / w;
        assert(q <= 65_536 * 255) by (nonlinear_arith)
            requires
                q == 65_536 * e / w as int,
                0 <= e <= 255 * w,
                w > 0,
        ;
        q as u32
    } else {
        0
    }
}

fn sorted(s: &[u32]) -> (r: Vec<u32>)
    ensures
        r@ == ascending(s@),
{
    let mut r: Vec<u32> = Vec::new();
    let mut i: usize = 0;
    assert(s@.take(0) == Seq::<u32>::empty());
    while i < s.len()
        invariant
            i <= s@.len(),
            r@ == ascending(s@.take(i as int)),
            r@.len() == i,
        decreases s@.len() - i,
    {
        let x: u32 = s[i];
        let mut k: usize = r.len();
        assert(r@.take(r@.len() as int) == r@);
        while k > 0 && r[k - 1] > x
            invariant
                k <= r@.len(),
                insert_at(r@, x) == insert_at(r@.take(k as int), x),
            decreases k,
        {
            assert(r@.take(k as int).drop_last() == r@.take(k - 1));
            k = k - 1;
        }
        assert(insert_at(r@, x) == k) by {
            if k > 0 {
                assert(r@.take(k as int).last() == r@[k - 1]);
            }
        }
        assert(s@.take(i + 1).drop_last() == s@.take(i as int));
        r.insert(k, x);
        i = i + 1;
    }
    assert(s@.take(s@.len() as int) == s@);
    r
}

impl Occupancy {
    /// How busy the passband is, from rows of the spectrum. Rows of the station's own
    /// count for nothing.
    pub fn build(rows: &Vec<LaneRow>) -> (r: Self)
        ensures
            r.wf(),
            r.scale == scale_of(energies(rows@)),
            r.cells@ == occupancy(rows@),
    {
        let mut cells: Vec<u32> = Vec::new();
        let mut c: usize = 0;
        while c < CELLS
            invariant
                c <= CELLS,
                cells@.len() == c,
                forall|i: int| 0 <= i < c ==> #[trigger] cells@[i] == energy(rows@, i),
                forall|i: int| 0 <= i < c ==> (#[trigger] cells@[i]) <= 0x100_0000,
            decreases CELLS - c,
        {
            cells.push(cell_energy(rows, c));
            c = c + 1;
        }
        let ghost all = cells@;
        assert(all == energies(rows@));
        let mut usable: Vec<u32> = Vec::new();
        let mut u: usize = FIRST_USABLE;
        while u <= LAST_USABLE
            invariant
                FIRST_USABLE <= u <= LAST_USABLE + 1,
                cells@ == all,
                all.len() == CELLS,
                usable@ == all.subrange(FIRST_USABLE as int, u as int),
            decreases LAST_USABLE + 1 - u,
        {
            usable.push(cells[u]);
            u = u + 1;
        }
        let order: Vec<u32> = sorted(&usable);
        proof {
            law_ascending(usable@);
            lemma_bounded(usable@, 0x100_0000);
        }
        let floor: u32 = order[100];
        let high: u32 = order[475];
        assert(floor <= high);
        let range: u32 = high - floor;
        let scale: u32 = if range > MIN_SCALE {
            range
        } else {
            MIN_SCALE
        };
        let mut out: Vec<u32> = Vec::new();
        let mut i: usize = 0;
        while i < CELLS
            invariant
                i <= CELLS,
                cells@ == all,
                all.len() == CELLS,
                forall|k: int| 0 <= k < CELLS ==> (#[trigger] all[k]) <= 0x100_0000,
                out@.len() == i,
                forall|k: int| 0 <= k < i ==> #[trigger] out@[k] == excess(all[k], floor),
            decreases CELLS - i,
        {
            out.push(
                if cells[i] > floor {
                    cells[i] - floor
                } else {
                    0
                },
            );
            i = i + 1;
        }
        assert(out@ == occupancy(rows@));
        Occupancy { cells: out, scale }
    }
}

proof fn lemma_bounded(s: Seq<u32>, b: u32)
    requires
        forall|i: int| 0 <= i < s.len() ==> (#[trigger] s[i]) <= b,
    ensures
        ascending(s).len() == s.len(),
        forall|i: int| 0 <= i < s.len() ==> (#[trigger] ascending(s)[i]) <= b,
    decreases s.len(),
{
    if s.len() > 0 {
        let t = s.drop_last();
        assert forall|i: int| 0 <= i < t.len() implies (#[trigger] t[i]) <= b by {
            assert(t[i] == s[i]);
        }
        lemma_bounded(t, b);
        lemma_insert_at(ascending(t), s.last());
        assert(s[s.len() - 1] == s.last());
    }
}

/// The cells that a lane is judged by: from the first to before the second.
pub open spec fn cells_of(lo: int, hi: int) -> (int, int) {
    let first = if lo > 0 {
        lo / 10
    } else {
        0
    };
    let end = (hi + 9) / 10 + 1;
    (
        first,
        if end < CELLS {
            end
        } else {
            CELLS as int
        },
    )
}

/// The loudest of cells.
pub open spec fn peak(cells: Seq<u32>, a: int, b: int) -> int
    decreases b - a,
{
    if b <= a {
        0
    } else {
        let p = peak(cells, a, b - 1);
        if cells[b - 1] > p {
            cells[b - 1] as int
        } else {
            p
        }
    }
}

/// The sum of cells.
pub open spec fn total(cells: Seq<u32>, a: int, b: int) -> int
    decreases b - a,
{
    if b <= a {
        0
    } else {
        total(cells, a, b - 1) + cells[b - 1]
    }
}

/// Where lane `k` begins, in half hertz.
pub open spec fn base_of(k: int) -> int {
    500 + 10 * k
}

/// How many lanes there are for a signal of `bw` hertz, one every 5 Hz.
pub open spec fn lanes(bw: int) -> int {
    (2_500 - bw) / 5 + 1
}

/// The distance between the lane of a signal that begins at `base` half hertz and that of
/// a station at `off` thousandths of a hertz, in thousandths of a hertz; 0 where they
/// overlap.
pub open spec fn gap(base: int, off: int, bw: int) -> int {
    let above = 500 * base - (off + 1_000 * bw);
    let below = off - (500 * base + 1_000 * bw);
    if above > 0 {
        above
    } else if below > 0 {
        below
    } else {
        0
    }
}

/// Within what distance a station counts, in thousandths of a hertz.
pub open spec fn margin(bw: int) -> int {
    1_000 * (if bw > 40 {
        bw
    } else {
        40
    })
}

/// What the first `n` stations add to the cost of a lane, in parts of which [`margin`]
/// make the cost of a station right in the lane. It falls evenly to nothing at the margin.
pub open spec fn crowding(ds: Seq<i64>, n: int, base: int, bw: int) -> int
    decreases n,
{
    if n <= 0 {
        0
    } else {
        let g = gap(base, ds[n - 1] as int, bw);
        crowding(ds, n - 1, base, bw) + (if g < margin(bw) {
            margin(bw) - g
        } else {
            0
        })
    }
}

/// The cost of a lane as a fraction: the numerator, and the number of cells it is over.
/// Seven tenths of the loudest cell and three tenths of the mean count, by the range of
/// the signals; a station in the lane counts as much as the loudest signal; and the
/// distance of the signal's middle from 1500 Hz counts a quarter at 1250 Hz.
///
/// All lanes of one search have the rest of the denominator in common, which is
/// `100_000 * scale * margin`.
pub open spec fn cost(cells: Seq<u32>, scale: int, ds: Seq<i64>, bw: int, k: int) -> (int, int) {
    let base = base_of(k);
    let guard = if bw > 20 {
        bw
    } else {
        20
    };
    let (a, b) = cells_of(base - guard, base + 2 * bw + guard);
    let n = b - a;
    let off_middle = if base + bw >= 3_000 {
        base + bw - 3_000
    } else {
        3_000 - base - bw
    };
    (
        (7 * peak(cells, a, b) * n + 3 * total(cells, a, b)) * (10_000 * margin(bw))
            + n * (crowding(ds, ds.len() as int, base, bw) * (100_000 * scale) + off_middle * (
        10 * scale * margin(bw))),
        n,
    )
}

/// Whether one cost is below another.
pub open spec fn cheaper(x: (int, int), y: (int, int)) -> bool {
    x.0 * y.1 < y.0 * x.1
}

/// The cheapest of the first `n` lanes, the first where several cost the same.
pub open spec fn cheapest(cells: Seq<u32>, scale: int, ds: Seq<i64>, bw: int, n: int) -> int
    decreases n,
{
    if n <= 1 {
        0
    } else {
        let k = cheapest(cells, scale, ds, bw, n - 1);
        if cheaper(cost(cells, scale, ds, bw, n - 1), cost(cells, scale, ds, bw, k)) {
            n - 1
        } else {
            k
        }
    }
}

proof fn lemma_product(x: int, xb: int, y: int, yb: int)
    by (nonlinear_arith)
    requires
        0 <= x <= xb,
        0 <= y <= yb,
    ensures
        0 <= x * y <= xb * yb,
{
}

proof fn lemma_peak_total(cells: Seq<u32>, a: int, b: int)
    requires
        0 <= a <= b <= cells.len(),
        forall|i: int| 0 <= i < cells.len() ==> (#[trigger] cells[i]) <= 0x100_0000,
    ensures
        0 <= peak(cells, a, b) <= 0x100_0000,
        0 <= total(cells, a, b) <= (b - a) * 0x100_0000,
    decreases b - a,
{
    if a < b {
        lemma_peak_total(cells, a, b - 1);
    }
}

proof fn lemma_crowding(ds: Seq<i64>, n: int, base: int, bw: int)
    requires
        0 <= n <= ds.len(),
        0 < bw <= MAX_WIDTH_HZ,
    ensures
        0 <= crowding(ds, n, base, bw) <= n * margin(bw),
    decreases n,
{
    if n > 0 {
        lemma_crowding(ds, n - 1, base, bw);
        assert(n * margin(bw) == (n - 1) * margin(bw) + margin(bw)) by (nonlinear_arith);
    }
}

fn crowd(ds: &Vec<i64>, base: u32, bw: u32) -> (r: u128)
    requires
        0 < bw <= MAX_WIDTH_HZ,
        base <= 5_500,
        ds@.len() <= u32::MAX,
    ensures
        r == crowding(ds@, ds@.len() as int, base as int, bw as int),
        r <= 0xFFFF_FFFF * 2_500_000,
{
    let wide: u32 = if bw > 40 {
        bw
    } else {
        40
    };
    let m: i128 = 1_000 * wide as i128;
    let lo: i128 = 500 * base as i128;
    let width: i128 = 1_000 * bw as i128;
    let mut r: u128 = 0;
    let mut i: usize = 0;
    while i < ds.len()
        invariant
            i <= ds@.len() <= u32::MAX,
            0 < bw <= MAX_WIDTH_HZ,
            base <= 5_500,
            m == margin(bw as int),
            lo == 500 * base,
            width == 1_000 * bw,
            r == crowding(ds@, i as int, base as int, bw as int),
        decreases ds@.len() - i,
    {
        proof {
            lemma_crowding(ds@, i as int, base as int, bw as int);
            lemma_product(i as int, 0xFFFF_FFFF, margin(bw as int), 2_500_000);
        }
        let off: i128 = ds[i] as i128;
        let above: i128 = lo - (off + width);
        let below: i128 = off - (lo + width);
        let g: i128 = if above > 0 {
            above
        } else if below > 0 {
            below
        } else {
            0
        };
        assert(g == gap(base as int, ds@[i as int] as int, bw as int));
        if g < m {
            r = r + (m - g) as u128;
        }
        i = i + 1;
    }
    proof {
        lemma_crowding(ds@, ds@.len() as int, base as int, bw as int);
        lemma_product(ds@.len() as int, 0xFFFF_FFFF, margin(bw as int), 2_500_000);
    }
    r
}

impl Occupancy {
    /// The loudest of the cells from `lo` to `hi` half hertz, their sum and their number.
    pub fn region(&self, lo: u32, hi: u32) -> (r: (u32, u64, u32))
        requires
            self.wf(),
            hi <= 1_000_000,
        ensures
            ({
                let (a, b) = cells_of(lo as int, hi as int);
                &&& r.0 == peak(self.cells@, a, b)
                &&& r.1 == total(self.cells@, a, b)
                &&& r.2 == (if b > a {
                    b - a
                } else {
                    0
                })
            }),
    {
        let a: u32 = lo / 10;
        let end: u32 = (hi + 9) / 10 + 1;
        let b: u32 = if end < 601 {
            end
        } else {
            601
        };
        if b <= a {
            return (0, 0, 0);
        }
        let mut loudest: u32 = 0;
        let mut sum: u64 = 0;
        let mut i: u32 = a;
        while i < b
            invariant
                self.wf(),
                a <= i <= b <= CELLS,
                loudest == peak(self.cells@, a as int, i as int),
                sum == total(self.cells@, a as int, i as int),
            decreases b - i,
        {
            proof {
                lemma_peak_total(self.cells@, a as int, i as int);
            }
            let v: u32 = self.cells[i as usize];
            if v > loudest {
                loudest = v;
            }
            sum = sum + v as u64;
            i = i + 1;
        }
        (loudest, sum, b - a)
    }
}

fn lane_cost(occ: &Occupancy, ds: &Vec<i64>, bw: u32, k: u32) -> (r: (u128, u128))
    requires
        occ.wf(),
        0 < bw <= MAX_WIDTH_HZ,
        k < lanes(bw as int),
        ds@.len() <= u32::MAX,
    ensures
        (r.0 as int, r.1 as int) == cost(occ.cells@, occ.scale as int, ds@, bw as int, k as int),
        0 < r.1 <= CELLS,
        r.0 <= 0x1_0000_0000_0000_0000_0000_0000_0000,
{
    let base: u32 = 500 + 10 * k;
    let guard: u32 = if bw > 20 {
        bw
    } else {
        20
    };
    let lo: u32 = if base > guard {
        base - guard
    } else {
        0
    };
    let ghost (a, b) = cells_of(base - guard, base + 2 * bw + guard);
    assert((a, b) == cells_of(lo as int, base + 2 * bw + guard));
    let (loudest, sum, count): (u32, u64, u32) = occ.region(lo, base + 2 * bw + guard);
    let n: u128 = count as u128;
    let wide: u32 = if bw > 40 {
        bw
    } else {
        40
    };
    let m: u128 = 1_000 * wide as u128;
    let scale: u128 = occ.scale as u128;
    let off_middle: u128 = if base + bw >= 3_000 {
        (base + bw - 3_000) as u128
    } else {
        (3_000 - base - bw) as u128
    };
    let crowded: u128 = crowd(ds, base, bw);
    let p: u128 = loudest as u128;
    let t: u128 = sum as u128;
    proof {
        lemma_peak_total(occ.cells@, a, b);
        lemma_product(7 * p as int, 7 * 0x100_0000int, n as int, 601);
        lemma_product(n as int, 601, 0x100_0000, 0x100_0000);
        lemma_product(7 * p * n + 3 * t, 10 * 601 * 0x100_0000int, 10_000 * m, 25_000_000_000);
        lemma_product(crowded as int, 0xFFFF_FFFF * 2_500_000int, 100_000 * scale, 100_000 * 0x100_0000int);
        lemma_product(10 * scale, 10 * 0x100_0000int, m as int, 2_500_000);
        lemma_product(off_middle as int, 5_500, 10 * scale * m, 10 * 0x100_0000int * 2_500_000);
        lemma_product(
            n as int,
            601,
            crowded * (100_000 * scale) + off_middle * (10 * scale * m),
            0xFFFF_FFFF * 2_500_000int * (100_000 * 0x100_0000int) + 5_500 * (10 * 0x100_0000int * 2_500_000),
        );
    }
    let part: u128 = (7 * p * n + 3 * t) * (10_000 * m);
    let rest: u128 = crowded * (100_000 * scale) + off_middle * (10 * scale * m);
    (part + n * rest, n)
}

/// The cheapest lane for a signal of `bw` hertz: where it begins, in half hertz.
pub fn pick(occ: &Occupancy, ds: &Vec<i64>, bw: u32) -> (r: u32)
    requires
        occ.wf(),
        0 < bw <= MAX_WIDTH_HZ,
        ds@.len() <= u32::MAX,
    ensures
        r == base_of(cheapest(occ.cells@, occ.scale as int, ds@, bw as int, lanes(bw as int))),
        500 <= r,
        r + 2 * bw <= 5_500,
{
    let n: u32 = (2_500 - bw) / 5 + 1;
    let mut best: u32 = 0;
    let mut best_cost: (u128, u128) = lane_cost(occ, ds, bw, 0);
    let mut k: u32 = 1;
    while k < n
        invariant
            occ.wf(),
            0 < bw <= MAX_WIDTH_HZ,
            ds@.len() <= u32::MAX,
            n == lanes(bw as int),
            1 <= k <= n,
            best < k,
            best == cheapest(occ.cells@, occ.scale as int, ds@, bw as int, k as int),
            (best_cost.0 as int, best_cost.1 as int) == cost(
                occ.cells@,
                occ.scale as int,
                ds@,
                bw as int,
                best as int,
            ),
            0 < best_cost.1 <= CELLS,
            best_cost.0 <= 0x1_0000_0000_0000_0000_0000_0000_0000,
        decreases n - k,
    {
        let c: (u128, u128) = lane_cost(occ, ds, bw, k);
        proof {
            lemma_product(
                c.0 as int,
                0x1_0000_0000_0000_0000_0000_0000_0000,
                best_cost.1 as int,
                601,
            );
            lemma_product(
                best_cost.0 as int,
                0x1_0000_0000_0000_0000_0000_0000_0000,
                c.1 as int,
                601,
            );
        }
        if c.0 * best_cost.1 < best_cost.0 * c.1 {
            best = k;
            best_cost = c;
        }
        k = k + 1;
    }
    500 + 10 * best
}

/// The offsets of the stations among the first `n` that were decoded lately.
pub open spec fn recent(v: Seq<Heard>, n: int, now: int) -> Seq<i64>
    decreases n,
{
    if n <= 0 {
        Seq::empty()
    } else if now - v[n - 1].t_ms <= DECODE_RECENCY_MS {
        recent(v, n - 1, now).push(v[n - 1].offset)
    } else {
        recent(v, n - 1, now)
    }
}

fn recent_offsets(v: &Vec<Heard>, now_ms: i64) -> (r: Vec<i64>)
    ensures
        r@ == recent(v@, v@.len() as int, now_ms as int),
        r@.len() <= v@.len(),
{
    let mut r: Vec<i64> = Vec::new();
    let mut i: usize = 0;
    while i < v.len()
        invariant
            i <= v@.len(),
            r@ == recent(v@, i as int, now_ms as int),
            r@.len() <= i,
        decreases v@.len() - i,
    {
        if now_ms as i128 - v[i].t_ms as i128 <= DECODE_RECENCY_MS as i128 {
            r.push(v[i].offset);
        }
        i = i + 1;
    }
    r
}

/// Whether a row was received.
pub open spec fn any_received(rows: Seq<LaneRow>) -> bool {
    exists|i: int| 0 <= i < rows.len() && (#[trigger] rows[i]).received
}

fn has_received(rows: &Vec<LaneRow>) -> (r: bool)
    ensures
        r == any_received(rows@),
{
    let mut i: usize = 0;
    while i < rows.len()
        invariant
            i <= rows@.len(),
            forall|j: int| 0 <= j < i ==> !(#[trigger] rows@[j]).received,
        decreases rows@.len() - i,
    {
        if rows[i].received {
            return true;
        }
        i = i + 1;
    }
    false
}

/// How busy the cells are above the quiet floor, from rows of the spectrum.
pub open spec fn occupancy(rows: Seq<LaneRow>) -> Seq<u32> {
    energies(rows).map_values(|x: u32| excess(x, floor_of(energies(rows))))
}

/// Where the next CQ is called, in half hertz. None where the signal does not fit the
/// usable window. The middle of the passband where nothing was received yet.
pub fn pick_cq_offset(rows: &Vec<LaneRow>, decodes: &Vec<Heard>, bw: u32, now_ms: i64) -> (r:
    Option<u32>)
    requires
        decodes@.len() <= u32::MAX,
    ensures
        r is None <==> (bw == 0 || bw > MAX_WIDTH_HZ),
        r matches Some(base) ==> base == (if any_received(rows@) {
            base_of(
                cheapest(
                    occupancy(rows@),
                    scale_of(energies(rows@)),
                    recent(decodes@, decodes@.len() as int, now_ms as int),
                    bw as int,
                    lanes(bw as int),
                ),
            )
        } else {
            3_000 - bw
        }),
        r matches Some(base) ==> 500 <= base && base + 2 * bw <= 5_500,
{
    if bw == 0 || bw > MAX_WIDTH_HZ {
        return None;
    }
    if !has_received(rows) {
        return Some(3_000 - bw);
    }
    let occ: Occupancy = Occupancy::build(rows);
    let ds: Vec<i64> = recent_offsets(decodes, now_ms);
    Some(pick(&occ, &ds, bw))
}

/// The lane that is taken costs no more than any other.
pub proof fn law_no_lane_is_cheaper(cells: Seq<u32>, scale: int, ds: Seq<i64>, bw: int, n: int)
    requires
        0 < bw <= MAX_WIDTH_HZ,
        1 <= n <= lanes(bw),
    ensures
        0 <= cheapest(cells, scale, ds, bw, n) < n,
        forall|k: int|
            0 <= k < n ==> !cheaper(
                #[trigger] cost(cells, scale, ds, bw, k),
                cost(cells, scale, ds, bw, cheapest(cells, scale, ds, bw, n)),
            ),
    decreases n,
{
    if n > 1 {
        law_no_lane_is_cheaper(cells, scale, ds, bw, n - 1);
        let was = cost(cells, scale, ds, bw, cheapest(cells, scale, ds, bw, n - 1));
        let new = cost(cells, scale, ds, bw, n - 1);
        let now = cost(cells, scale, ds, bw, cheapest(cells, scale, ds, bw, n));
        assert forall|k: int| 0 <= k < n implies !cheaper(
            #[trigger] cost(cells, scale, ds, bw, k),
            now,
        ) by {
            let c = cost(cells, scale, ds, bw, k);
            if k < n - 1 && cheaper(new, was) {
                assert(c.1 > 0 && was.1 > 0 && new.1 > 0);
                assert(!(c.0 * new.1 < new.0 * c.1)) by (nonlinear_arith)
                    requires
                        !(c.0 * was.1 < was.0 * c.1),
                        new.0 * was.1 < was.0 * new.1,
                        c.1 > 0,
                        was.1 > 0,
                        new.1 > 0,
                ;
            }
        }
    }
}

/// The whole signal stays inside the usable window, whichever lane is taken.
pub proof fn law_lane_is_usable(k: int, bw: int)
    requires
        0 < bw <= MAX_WIDTH_HZ,
        0 <= k < lanes(bw),
    ensures
        2 * 250 <= base_of(k),
        base_of(k) + 2 * bw <= 2 * 2_750,
{
}

} // verus!
