//! Where the lines of the waterslide stand: which decodes are on the screen, in which order
//! they are drawn, and how the lines of one slot are moved apart so that each can be read.
//!
//! Screen places are whole numbers of a fixed fraction of a point, and grow to the right and
//! downward.

use vstd::prelude::*;

verus! {

/// A decode before it is placed: its time, the place where its text ends on the right, and
/// the height of its signal.
#[derive(Clone, Copy)]
pub struct LineBox {
    pub t_ms: i64,
    pub right: i32,
    pub y: i32,
}

/// The part of the screen that the lines stand on, the time at its NOW line, and half the
/// height of a line.
#[derive(Clone, Copy)]
pub struct Pane {
    pub now_ms: i64,
    pub left: i32,
    pub top: i32,
    pub bottom: i32,
    pub half_line: u32,
}

/// A line that is drawn: the decode it is of, and its height on the screen.
#[derive(Clone, Copy)]
pub struct Placed {
    pub idx: usize,
    pub y: i64,
}

impl Pane {
    /// The height below which the middle of a line may not stand.
    pub open spec fn floor(self) -> int {
        self.bottom - self.half_line
    }

    /// The height that a column that was moved up may not pass.
    pub open spec fn ceiling(self) -> int {
        self.top + self.half_line
    }

    /// Whether a line is on the screen: not of the future, not wholly past the left edge, and
    /// with its signal between top and bottom.
    pub open spec fn shows(self, b: LineBox) -> bool {
        b.t_ms <= self.now_ms && b.right >= self.left && self.top <= b.y <= self.bottom
    }
}

/// Whether line `i` comes before line `j`: by time, then from the top down, then as heard.
pub open spec fn before(lines: Seq<LineBox>, i: int, j: int) -> bool {
    ||| lines[i].t_ms < lines[j].t_ms
    ||| lines[i].t_ms == lines[j].t_ms && lines[i].y < lines[j].y
    ||| lines[i].t_ms == lines[j].t_ms && lines[i].y == lines[j].y && i < j
}

/// Whether `ord` holds exactly the lines among the first `n` that the pane shows, in order.
pub open spec fn is_order(lines: Seq<LineBox>, pane: Pane, ord: Seq<usize>, n: int) -> bool {
    &&& forall|p: int| 0 <= p < ord.len() ==> #[trigger] ord[p] < n && pane.shows(lines[ord[p] as int])
    &&& forall|p: int, q: int|
        0 <= p < q < ord.len() ==> before(lines, #[trigger] ord[p] as int, #[trigger] ord[q] as int)
    &&& forall|i: usize| i < n && pane.shows(#[trigger] lines[i as int]) ==> ord.contains(i)
}

/// The place in the order at which the column of place `p` starts. A column is the run of
/// lines of one time.
pub open spec fn column_start(lines: Seq<LineBox>, ord: Seq<usize>, p: int) -> int
    decreases p,
{
    if p <= 0 {
        0
    } else if lines[ord[p - 1] as int].t_ms == lines[ord[p] as int].t_ms {
        column_start(lines, ord, p - 1)
    } else {
        p
    }
}

/// The place in the order just past the column of place `p`.
pub open spec fn column_end(lines: Seq<LineBox>, ord: Seq<usize>, p: int) -> int
    decreases ord.len() - p,
{
    if p + 1 >= ord.len() {
        ord.len() as int
    } else if lines[ord[p + 1] as int].t_ms == lines[ord[p] as int].t_ms {
        column_end(lines, ord, p + 1)
    } else {
        p + 1
    }
}

/// The signal heights of the lines at the places `from..to`.
pub open spec fn heights(lines: Seq<LineBox>, ord: Seq<usize>, from: int, to: int) -> Seq<int> {
    Seq::new((to - from) as nat, |k: int| lines[ord[from + k] as int].y as int)
}

/// The height of line `k` of a column once each line is pushed down clear of the one above.
pub open spec fn pushed(ys: Seq<int>, line: int, k: int) -> int
    decreases k,
{
    if k <= 0 {
        ys[0]
    } else if ys[k] < pushed(ys, line, k - 1) + line {
        pushed(ys, line, k - 1) + line
    } else {
        ys[k]
    }
}

/// The height of line `k` of a column at rest: the whole column moves up by as much as it
/// hangs over the bottom, and no line passes the top.
pub open spec fn at_rest(ys: Seq<int>, pane: Pane, k: int) -> int {
    let line = 2 * pane.half_line as int;
    let over = pushed(ys, line, ys.len() - 1) - pane.floor();
    if over <= 0 {
        pushed(ys, line, k)
    } else if pushed(ys, line, k) - over < pane.ceiling() {
        pane.ceiling()
    } else {
        pushed(ys, line, k) - over
    }
}

/// The decodes of placed lines.
pub open spec fn decodes_of(placed: Seq<Placed>) -> Seq<usize> {
    placed.map_values(|l: Placed| l.idx)
}

/// The height at rest of the line at place `p` of the order.
pub open spec fn rest_of(lines: Seq<LineBox>, pane: Pane, ord: Seq<usize>, p: int) -> int {
    let from = column_start(lines, ord, p);
    at_rest(heights(lines, ord, from, column_end(lines, ord, p)), pane, p - from)
}

fn is_before(lines: &Vec<LineBox>, i: usize, j: usize) -> (r: bool)
    requires
        i < lines@.len(),
        j < lines@.len(),
    ensures
        r == before(lines@, i as int, j as int),
{
    let a: LineBox = lines[i];
    let b: LineBox = lines[j];
    if a.t_ms != b.t_ms {
        a.t_ms < b.t_ms
    } else if a.y != b.y {
        a.y < b.y
    } else {
        i < j
    }
}

/// The lines that the pane shows, in the order in which they are drawn.
fn order(lines: &Vec<LineBox>, pane: Pane) -> (r: Vec<usize>)
    ensures
        is_order(lines@, pane, r@, lines@.len() as int),
{
    let mut ord: Vec<usize> = Vec::new();
    let mut i: usize = 0;
    while i < lines.len()
        invariant
            i <= lines@.len(),
            is_order(lines@, pane, ord@, i as int),
        decreases lines@.len() - i,
    {
        let b: LineBox = lines[i];
        if b.t_ms <= pane.now_ms && b.right >= pane.left && pane.top <= b.y && b.y <= pane.bottom {
            let mut at: usize = ord.len();
            while at > 0 && is_before(lines, i, ord[at - 1])
                invariant
                    at <= ord@.len(),
                    i < lines@.len(),
                    is_order(lines@, pane, ord@, i as int),
                    forall|q: int| at <= q < ord@.len() ==> before(lines@, i as int, #[trigger] ord@[q] as int),
                decreases at,
            {
                at = at - 1;
            }
            let ghost was = ord@;
            ord.insert(at, i);
            proof {
                assert(ord@ == was.insert(at as int, i));
                assert forall|q: int| 0 <= q < at implies before(lines@, #[trigger] was[q] as int, i as int) by {
                    if q < at - 1 {
                        assert(before(lines@, was[q] as int, was[at - 1] as int));
                    }
                }
                assert forall|p: int, q: int| 0 <= p < q < ord@.len() implies before(
                    lines@,
                    #[trigger] ord@[p] as int,
                    #[trigger] ord@[q] as int,
                ) by {
                    let pp = if p < at { p } else { p - 1 };
                    let qq = if q < at { q } else { q - 1 };
                    if p != at && q != at {
                        assert(ord@[p] == was[pp] && ord@[q] == was[qq]);
                    } else if p == at {
                        assert(ord@[q] == was[qq]);
                    } else {
                        assert(ord@[p] == was[pp]);
                    }
                }
                assert forall|k: usize| k < i + 1 && pane.shows(#[trigger] lines@[k as int]) implies ord@.contains(k) by {
                    if k == i {
                        assert(ord@[at as int] == k);
                    } else {
                        let p = choose|p: int| 0 <= p < was.len() && was[p] == k;
                        if p < at {
                            assert(ord@[p] == k);
                        } else {
                            assert(ord@[p + 1] == k);
                        }
                    }
                }
            }
        }
        i = i + 1;
    }
    ord
}

proof fn lemma_column(lines: Seq<LineBox>, ord: Seq<usize>, from: int, to: int, p: int)
    requires
        0 <= from <= p < to <= ord.len(),
        forall|q: int| from <= q < to ==> lines[#[trigger] ord[q] as int].t_ms == lines[ord[from] as int].t_ms,
        from > 0 ==> lines[ord[from - 1] as int].t_ms != lines[ord[from] as int].t_ms,
        to < ord.len() ==> lines[ord[to] as int].t_ms != lines[ord[from] as int].t_ms,
    ensures
        column_start(lines, ord, p) == from,
        column_end(lines, ord, p) == to,
{
    lemma_column_start(lines, ord, from, to, p);
    lemma_column_end(lines, ord, from, to, p);
}

proof fn lemma_column_start(lines: Seq<LineBox>, ord: Seq<usize>, from: int, to: int, p: int)
    requires
        0 <= from <= p < to <= ord.len(),
        forall|q: int| from <= q < to ==> lines[#[trigger] ord[q] as int].t_ms == lines[ord[from] as int].t_ms,
        from > 0 ==> lines[ord[from - 1] as int].t_ms != lines[ord[from] as int].t_ms,
    ensures
        column_start(lines, ord, p) == from,
    decreases p,
{
    if p > from {
        lemma_column_start(lines, ord, from, to, p - 1);
        assert(lines[ord[p - 1] as int].t_ms == lines[ord[p] as int].t_ms);
    }
}

proof fn lemma_column_end(lines: Seq<LineBox>, ord: Seq<usize>, from: int, to: int, p: int)
    requires
        0 <= from <= p < to <= ord.len(),
        forall|q: int| from <= q < to ==> lines[#[trigger] ord[q] as int].t_ms == lines[ord[from] as int].t_ms,
        to < ord.len() ==> lines[ord[to] as int].t_ms != lines[ord[from] as int].t_ms,
    ensures
        column_end(lines, ord, p) == to,
    decreases to - p,
{
    if p + 1 < to {
        lemma_column_end(lines, ord, from, to, p + 1);
        assert(lines[ord[p + 1] as int].t_ms == lines[ord[p] as int].t_ms);
    } else {
        assert(lines[ord[p] as int].t_ms == lines[ord[from] as int].t_ms);
    }
}

/// The heights of one column, each line pushed down clear of the one above.
fn push_down(lines: &Vec<LineBox>, ord: &Vec<usize>, from: usize, to: usize, line: i128) -> (r: Vec<
    i128,
>)
    requires
        from < to <= ord@.len(),
        0 <= line <= 0x2_0000_0000,
        forall|p: int| 0 <= p < ord@.len() ==> #[trigger] ord@[p] < lines@.len(),
    ensures
        r@.len() == to - from,
        forall|k: int|
            0 <= k < r@.len() ==> #[trigger] r@[k] == pushed(
                heights(lines@, ord@, from as int, to as int),
                line as int,
                k,
            ) && i32::MIN <= r@[k] <= i32::MAX + 0x2_0000_0000 * k,
{
    let ghost ys = heights(lines@, ord@, from as int, to as int);
    let mut r: Vec<i128> = Vec::new();
    let mut k: usize = 0;
    while k < to - from
        invariant
            k <= to - from,
            from < to <= ord@.len(),
            0 <= line <= 0x2_0000_0000,
            forall|p: int| 0 <= p < ord@.len() ==> #[trigger] ord@[p] < lines@.len(),
            ys == heights(lines@, ord@, from as int, to as int),
            r@.len() == k,
            forall|m: int|
                0 <= m < k ==> #[trigger] r@[m] == pushed(ys, line as int, m) && i32::MIN <= r@[m]
                    <= i32::MAX + 0x2_0000_0000 * m,
        decreases to - from - k,
    {
        let y: i128 = lines[ord[from + k]].y as i128;
        assert(ys[k as int] == y);
        if k == 0 {
            r.push(y);
        } else {
            let clear: i128 = r[k - 1] + line;
            if y < clear {
                r.push(clear);
            } else {
                r.push(y);
            }
        }
        k = k + 1;
    }
    r
}

/// The lines that the pane shows, in the order in which they are drawn, with the lines of one
/// slot moved apart. A line moves within its own column only.
pub fn place(lines: &Vec<LineBox>, pane: Pane) -> (r: Vec<Placed>)
    ensures
        is_order(lines@, pane, decodes_of(r@), lines@.len() as int),
        forall|p: int|
            0 <= p < r@.len() ==> (#[trigger] r@[p]).y == rest_of(lines@, pane, decodes_of(r@), p),
{
    let ord: Vec<usize> = order(lines, pane);
    let line: i128 = 2 * (pane.half_line as i128);
    let floor: i128 = pane.bottom as i128 - pane.half_line as i128;
    let ceiling: i128 = pane.top as i128 + pane.half_line as i128;
    let mut r: Vec<Placed> = Vec::new();
    let mut from: usize = 0;
    while from < ord.len()
        invariant
            from <= ord@.len(),
            line == 2 * pane.half_line,
            floor == pane.floor(),
            ceiling == pane.ceiling(),
            is_order(lines@, pane, ord@, lines@.len() as int),
            0 < from < ord@.len() ==> lines@[ord@[from - 1] as int].t_ms != lines@[ord@[from as int] as int].t_ms,
            r@.len() == from,
            forall|p: int|
                0 <= p < from ==> (#[trigger] r@[p]).idx == ord@[p] && r@[p].y == rest_of(lines@, pane, ord@, p),
        decreases ord@.len() - from,
    {
        let t: i64 = lines[ord[from]].t_ms;
        let mut to: usize = from + 1;
        while to < ord.len() && lines[ord[to]].t_ms == t
            invariant
                from < to <= ord@.len(),
                is_order(lines@, pane, ord@, lines@.len() as int),
                forall|q: int| from <= q < to ==> lines@[#[trigger] ord@[q] as int].t_ms == t,
            decreases ord@.len() - to,
        {
            to = to + 1;
        }
        let down: Vec<i128> = push_down(lines, &ord, from, to, line);
        let ghost ys = heights(lines@, ord@, from as int, to as int);
        let over: i128 = down[to - from - 1] - floor;
        let mut k: usize = 0;
        while k < to - from
            invariant
                k <= to - from,
                from < to <= ord@.len(),
                line == 2 * pane.half_line,
                floor == pane.floor(),
                ceiling == pane.ceiling(),
                is_order(lines@, pane, ord@, lines@.len() as int),
                0 < from ==> lines@[ord@[from - 1] as int].t_ms != lines@[ord@[from as int] as int].t_ms,
                forall|q: int| from <= q < to ==> lines@[#[trigger] ord@[q] as int].t_ms == t,
                to < ord@.len() ==> lines@[ord@[to as int] as int].t_ms != t,
                ys == heights(lines@, ord@, from as int, to as int),
                down@.len() == to - from,
                forall|m: int|
                    0 <= m < down@.len() ==> #[trigger] down@[m] == pushed(ys, line as int, m)
                        && i32::MIN <= down@[m] <= i32::MAX + 0x2_0000_0000 * m,
                over == down@[to - from - 1] - floor,
                r@.len() == from + k,
                forall|p: int|
                    0 <= p < from + k ==> (#[trigger] r@[p]).idx == ord@[p] && r@[p].y == rest_of(
                        lines@,
                        pane,
                        ord@,
                        p,
                    ),
            decreases to - from - k,
        {
            let y: i128 = if over <= 0 {
                down[k]
            } else if down[k] - over < ceiling {
                ceiling
            } else {
                down[k] - over
            };
            proof {
                lemma_column(lines@, ord@, from as int, to as int, from + k);
                lemma_pushed_grows(ys, line as int, k as int, to - from - 1);
                assert(y == at_rest(ys, pane, k as int));
            }
            r.push(Placed { idx: ord[from + k], y: y as i64 });
            k = k + 1;
        }
        from = to;
    }
    proof {
        assert(decodes_of(r@) =~= ord@);
    }
    r
}

proof fn lemma_pushed_grows(ys: Seq<int>, line: int, j: int, k: int)
    requires
        0 <= j <= k < ys.len(),
        line >= 0,
    ensures
        pushed(ys, line, j) <= pushed(ys, line, k),
    decreases k,
{
    if j < k {
        lemma_pushed_grows(ys, line, j, k - 1);
    }
}

/// Law: in a column, a line stands no higher than the one before it, and a whole line lower
/// unless the one before it was stopped at the top.
pub proof fn law_lines_stand_apart(ys: Seq<int>, pane: Pane, k: int)
    requires
        0 <= k,
        k + 1 < ys.len(),
    ensures
        at_rest(ys, pane, k) <= at_rest(ys, pane, k + 1),
        at_rest(ys, pane, k) + 2 * pane.half_line <= at_rest(ys, pane, k + 1) || at_rest(ys, pane, k)
            == pane.ceiling(),
{
}

/// Law: a column of lines that the pane shows rests on the screen: nothing stands above the
/// top, and where the pane has room for a line, nothing hangs over the bottom.
pub proof fn law_column_rests_on_screen(ys: Seq<int>, pane: Pane, k: int)
    requires
        0 <= k < ys.len(),
        forall|m: int| 0 <= m < ys.len() ==> pane.top <= #[trigger] ys[m],
    ensures
        pane.top <= at_rest(ys, pane, k),
        pane.ceiling() <= pane.floor() ==> at_rest(ys, pane, k) <= pane.floor(),
{
    lemma_pushed_grows(ys, 2 * pane.half_line as int, k, ys.len() - 1);
    assert(pane.top <= ys[k]);
}

/// Law: a column whose lines are clear of each other and of the bottom stays where it is, so
/// that each line stands at the height of its signal.
pub proof fn law_clear_column_stays(ys: Seq<int>, pane: Pane, k: int)
    requires
        0 <= k < ys.len(),
        forall|m: int| 0 < m < ys.len() ==> ys[m - 1] + 2 * pane.half_line <= #[trigger] ys[m],
        ys.last() <= pane.floor(),
    ensures
        at_rest(ys, pane, k) == ys[k],
{
    lemma_clear_is_not_pushed(ys, 2 * pane.half_line as int, k);
    lemma_clear_is_not_pushed(ys, 2 * pane.half_line as int, ys.len() - 1);
}

proof fn lemma_clear_is_not_pushed(ys: Seq<int>, line: int, k: int)
    requires
        0 <= k < ys.len(),
        forall|m: int| 0 < m < ys.len() ==> ys[m - 1] + line <= #[trigger] ys[m],
    ensures
        pushed(ys, line, k) == ys[k],
    decreases k,
{
    if k > 0 {
        lemma_clear_is_not_pushed(ys, line, k - 1);
    }
}

} // verus!
