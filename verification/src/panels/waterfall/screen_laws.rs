//! What holds of the waterslide on the screen: its columns, its lines and their marks.

use vstd::prelude::*;

use super::placing::{LineBox, Pane};
use super::render::LineSign;
use crate::bus_view::SpectrumRow;
use crate::types::Decode;

verus! {

/// The column of a row is the nearest to its age, where the 512 columns span the history: no
/// other is nearer. The present is the first column, and what is as old as the whole history
/// lies just past the last. Rows from the future have no column.
pub proof fn law_column_of_a_row(t: int, now: int, history: int)
    requires
        history > 0,
    ensures
        t > now <==> super::render::column_of(t, now, history) is None,
        t <= now ==> {
            let k = super::render::column_of(t, now, history)->Some_0;
            &&& k >= 0
            &&& -history <= 2 * (512 * (now - t) - k * history) < history
        },
        super::render::column_of(now, now, history) == Some(0int),
        super::render::column_of(now - history, now, history) == Some(512int),
{
    if t <= now {
        lemma_nearest(512 * (now - t), history);
    }
    lemma_nearest(0, history);
    lemma_nearest(512 * history, history);
    let k = super::render::column_of(now - history, now, history)->Some_0;
    assert(k == 512) by (nonlinear_arith)
        requires
            -history <= 2 * (512 * history - k * history) < history,
            history > 0,
    ;
    let z = super::render::column_of(now, now, history)->Some_0;
    assert(z == 0) by (nonlinear_arith)
        requires
            -history <= 2 * (0 - z * history) < history,
            history > 0,
    ;
}

proof fn lemma_nearest(x: int, h: int)
    requires
        x >= 0,
        h > 0,
    ensures
        (2 * x + h) / (2 * h) >= 0,
        -h <= 2 * (x - (2 * x + h) / (2 * h) * h) < h,
{
    let k = (2 * x + h) / (2 * h);
    assert(2 * h * k <= 2 * x + h < 2 * h * k + 2 * h && k >= 0) by (nonlinear_arith)
        requires
            k == (2 * x + h) / (2 * h),
            x >= 0,
            h > 0,
    ;
    assert(2 * h * k == 2 * (k * h)) by (nonlinear_arith);
}

/// A row is never older in a later column: of two rows the newer one stands at least as near
/// to the front.
pub proof fn law_newer_rows_stand_in_front(t: int, u: int, now: int, history: int)
    requires
        history > 0,
        t <= u <= now,
    ensures
        super::render::column_of(u, now, history)->Some_0 <= super::render::column_of(
            t,
            now,
            history,
        )->Some_0,
{
    let a = 2 * (now - u) * 512 + history;
    let b = 2 * (now - t) * 512 + history;
    assert(a / (2 * history) <= b / (2 * history)) by (nonlinear_arith)
        requires
            a <= b,
            history > 0,
    ;
}

proof fn lemma_fill_is_for_the_newest(cols: Seq<Option<int>>, n: int, newer: int, c: int)
    requires
        0 <= n <= cols.len(),
    ensures
        super::render::owner(cols, n, Some(newer), true, c) == super::render::owner(
            cols,
            n,
            Some(newer),
            false,
            c,
        ),
    decreases n,
{
    if n > 0 {
        match cols[n - 1] {
            None => {
                lemma_fill_is_for_the_newest(cols, n - 1, newer, c);
            },
            Some(k) => {
                lemma_fill_is_for_the_newest(cols, n - 1, newer, c);
                lemma_fill_is_for_the_newest(cols, n - 1, k, c);
            },
        }
    }
}

/// The newest row, where it is not from the future and not too old, has its own column. What
/// was received reaches from there to the front; a transmission of ours leaves the columns
/// after it open, and covers the same columns as any other row before it.
pub proof fn law_newest_row_shows(cols: Seq<Option<int>>, k: int, c: int)
    requires
        cols.len() > 0,
        cols.last() == Some(k),
        0 <= k < 512,
        0 <= c < 512,
    ensures
        ({
            let n = cols.len() as int;
            let received = super::render::owner(cols, n, None, true, c);
            let own = super::render::owner(cols, n, None, false, c);
            &&& c <= k ==> received == Some(n - 1)
            &&& c == k ==> own == Some(n - 1)
            &&& c < k ==> own is None
            &&& c >= k ==> own == received
        }),
{
    let n = cols.len() as int;
    assert(cols[n - 1] == Some(k));
    if c < k {
        super::render::lemma_owner_behind(cols, n - 1, k, false, c);
    } else if c > k {
        lemma_fill_is_for_the_newest(cols, n - 1, k, c);
    }
}

/// A row from the future is as if it were not there.
pub proof fn law_future_rows_are_not_shown(cols: Seq<Option<int>>, fill: bool, c: int)
    ensures
        super::render::owner(cols.push(None), cols.len() + 1int, None, fill, c)
            == super::render::owner(cols, cols.len() as int, None, fill, c),
{
    lemma_owner_prefix(cols.push(None), cols, cols.len() as int, None, fill, c);
}

proof fn lemma_owner_prefix(
    a: Seq<Option<int>>,
    b: Seq<Option<int>>,
    n: int,
    newer: Option<int>,
    fill: bool,
    c: int,
)
    requires
        0 <= n <= a.len(),
        n <= b.len(),
        forall|i: int| 0 <= i < n ==> a[i] == b[i],
    ensures
        super::render::owner(a, n, newer, fill, c) == super::render::owner(b, n, newer, fill, c),
    decreases n,
{
    if n > 0 {
        lemma_owner_prefix(a, b, n - 1, newer, fill, c);
        if let Some(k) = a[n - 1] {
            lemma_owner_prefix(a, b, n - 1, Some(k), fill, c);
        }
    }
}

/// A column shows the bins of the row that it shows, and what was there where it shows none:
/// with one row alone, that row up to its age.
pub proof fn law_painted_by_one_row(
    row: SpectrumRow,
    now: int,
    history: int,
    c: int,
    bin: int,
    under: u8,
)
    requires
        history > 0,
        0 <= c < 512,
        0 <= bin < row.mags@.len(),
        super::render::column_of(row.t_ms as int, now, history) matches Some(k) && k < 512,
    ensures
        ({
            let k = super::render::column_of(row.t_ms as int, now, history)->Some_0;
            &&& c <= k ==> super::render::painted(seq![row], now, history, true, c, bin, under)
                == row.mags@[bin]
            &&& c == k ==> super::render::painted(seq![row], now, history, false, c, bin, under)
                == row.mags@[bin]
            &&& c > k ==> super::render::painted(seq![row], now, history, true, c, bin, under)
                == under
            &&& c != k ==> super::render::painted(seq![row], now, history, false, c, bin, under)
                == under
            &&& super::render::painted(Seq::empty(), now, history, true, c, bin, under) == under
        }),
{
    let rows = seq![row];
    let cols = super::render::columns_of(rows, now, history);
    let k = super::render::column_of(row.t_ms as int, now, history)->Some_0;
    law_column_of_a_row(row.t_ms as int, now, history);
    assert(cols.len() == 1 && cols[0] == Some(k) && rows[0] == row);
    assert(cols.last() == Some(k));
    law_newest_row_shows(cols, k, c);
    if c > k {
        assert(super::render::owner(cols, 0, Some(k), true, c) is None);
        assert(super::render::owner(cols, 1, None, true, c) is None);
    }
    let none = Seq::<SpectrumRow>::empty();
    assert(super::render::columns_of(none, now, history).len() == 0);
}

/// The rows of the picture follow the bins of the newest received column, or of our own where
/// nothing was received: one row for each bin, at least 1 and at most 512. A bin that a column
/// does not have is dark.
pub proof fn law_height_of_the_picture(
    rx: Seq<SpectrumRow>,
    tx: Seq<SpectrumRow>,
    was: int,
    m: Vec<u8>,
    bin: int,
)
    ensures
        rx.len() > 0 && 1 <= rx.last().mags@.len() <= 512 ==> super::render::height_for(rx, tx, was)
            == rx.last().mags@.len(),
        rx.len() == 0 && tx.len() > 0 && 1 <= tx.last().mags@.len() <= 512
            ==> super::render::height_for(rx, tx, was) == tx.last().mags@.len(),
        rx.len() == 0 && tx.len() == 0 ==> super::render::height_for(rx, tx, was) == was,
        rx.len() > 0 ==> 1 <= super::render::height_for(rx, tx, was) <= 512,
        rx.len() > 0 && rx.last().mags@.len() > 512 ==> super::render::height_for(rx, tx, was) == 512,
        0 <= bin < m@.len() ==> super::render::bin_at(Some(&m), bin) == m@[bin],
        bin >= m@.len() ==> super::render::bin_at(Some(&m), bin) == 0,
        super::render::bin_at(None, bin) == 0,
{
}

/// The sign before a line: the selected station is always shown as such; a station that was
/// worked never as one to answer; a caller under a digit by its digit, while the digits can be
/// used; and whoever does not call has no sign.
pub proof fn law_line_signs(
    d: Decode,
    sel: Option<Seq<char>>,
    worked: Seq<Seq<char>>,
    a: Seq<(Seq<char>, int, int)>,
    busy: bool,
    sign: LineSign,
    call: Seq<char>,
)
    requires
        super::render::station_call(d) == Some(call),
        super::render::sign_of(d, sel, worked, a, busy, sign),
    ensures
        sel == Some(call) <==> sign == LineSign::Selected,
        worked.contains(crate::text::ascii_upper(call)) && sel != Some(call) ==> sign
            == LineSign::Worked,
        sign matches LineSign::Digit(c) ==> {
            &&& !busy
            &&& super::render::calls_cq(d)
            &&& !worked.contains(crate::text::ascii_upper(call))
            &&& super::send_row::digit_of(a, crate::text::ascii_upper(call))
                == super::send_row::key_index(c)
            &&& super::send_row::key_index(c) is Some
        },
        sign == LineSign::Caller ==> super::render::calls_cq(d) && !worked.contains(
            crate::text::ascii_upper(call),
        ),
        sign == LineSign::Blank ==> !super::render::calls_cq(d),
        super::render::calls_cq(d) ==> sign != LineSign::Blank,
{
}

/// Whether a line is of the selected station is decided letter for letter, and whether it is
/// ours in whatever case the call is written.
pub proof fn law_whose_line(d: Decode, call: Seq<char>, me: Seq<char>)
    requires
        super::render::station_call(d) == Some(call),
    ensures
        super::render::is_of(d, Some(call)),
        super::render::is_of(d, Some(me)) <==> me == call,
        !super::render::is_of(d, None),
        super::render::is_own(d, Some(me)) <==> crate::text::ascii_upper(me)
            == crate::text::ascii_upper(call),
        !super::render::is_own(d, None),
{
}

/// A whole number below zero is its size behind a minus; any other is spelled as it is.
pub proof fn law_whole_numbers(n: nat)
    ensures
        super::render::whole(n as int) == crate::numbers::dec(n),
        n > 0 ==> super::render::whole(-(n as int)) == seq!['-'] + super::render::whole(n as int),
{
}

/// The label of the transmit lane gives the offset in hertz behind the tag of the selected
/// station, or behind a plain one.
pub proof fn law_lane_label(tag: Seq<char>, off: int)
    ensures
        super::render::lane_label(Some(tag), off) == tag + seq![' ', ' ']
            + super::render::whole(off) + seq![' ', 'H', 'z'],
        ({
            let plain = super::render::lane_label(None, off);
            let end = super::render::whole(off) + seq![' ', 'H', 'z'];
            plain.len() > end.len() && plain.skip(plain.len() - end.len()) == end
        }),
{
    reveal_strlit(" Hz");
    reveal_strlit("\u{25B6} TX ");
    assert(" Hz"@ == seq![' ', 'H', 'z']);
    let plain = super::render::lane_label(None, off);
    let end = super::render::whole(off) + seq![' ', 'H', 'z'];
    assert(plain.skip(plain.len() - end.len()) == end);
}

/// Which lines are on the screen: those of the past, whose text reaches the left edge, and
/// whose signal lies between top and bottom, the edges among them.
pub proof fn law_lines_on_the_screen(pane: Pane, b: LineBox)
    ensures
        b.t_ms > pane.now_ms ==> !pane.shows(b),
        b.right < pane.left ==> !pane.shows(b),
        b.y < pane.top || b.y > pane.bottom ==> !pane.shows(b),
        b.t_ms == pane.now_ms && b.right == pane.left && pane.top <= b.y && b.y <= pane.bottom
            ==> pane.shows(b),
        pane.shows(b) ==> pane.shows(LineBox { t_ms: (b.t_ms - 1) as i64, ..b }) || b.t_ms
            == i64::MIN,
        pane.floor() + pane.half_line == pane.bottom,
        pane.ceiling() - pane.half_line == pane.top,
{
}

/// Lines are drawn oldest first, and those of one time from the top down: of any two lines
/// one comes before the other, and never both.
pub proof fn law_drawing_order(lines: Seq<LineBox>, i: int, j: int)
    requires
        0 <= i < lines.len(),
        0 <= j < lines.len(),
        i != j,
    ensures
        super::placing::before(lines, i, j) != super::placing::before(lines, j, i),
        lines[i].t_ms < lines[j].t_ms ==> super::placing::before(lines, i, j),
        lines[i].t_ms == lines[j].t_ms && lines[i].y < lines[j].y ==> super::placing::before(
            lines,
            i,
            j,
        ),
{
}

/// A line is pushed down no further than it must be: it stands at the height of its signal,
/// or a line below the one above it; and a column that hangs over the bottom comes to rest
/// with its last line on the bottom, where there is room for one.
pub proof fn law_lines_move_no_more_than_they_must(ys: Seq<int>, pane: Pane, line: int, k: int)
    requires
        0 <= k < ys.len(),
    ensures
        super::placing::pushed(ys, line, k) >= ys[k],
        super::placing::pushed(ys, line, k) == ys[k] || k > 0 && super::placing::pushed(ys, line, k)
            == super::placing::pushed(ys, line, k - 1) + line,
        ({
            let last = ys.len() - 1;
            let down = super::placing::pushed(ys, 2 * pane.half_line as int, last);
            let rest = super::placing::at_rest(ys, pane, last);
            &&& down <= pane.bottom - pane.half_line ==> rest == down
            &&& down > pane.bottom - pane.half_line && pane.top + pane.half_line <= pane.bottom
                - pane.half_line ==> rest == pane.bottom - pane.half_line
        }),
{
}

/// A column of lines is a run of lines of one time, and the whole of it: the line before it
/// and the line behind it are of other times.
pub proof fn law_columns_are_runs(lines: Seq<LineBox>, ord: Seq<usize>, p: int)
    requires
        0 <= p < ord.len(),
    ensures
        ({
            let from = super::placing::column_start(lines, ord, p);
            let to = super::placing::column_end(lines, ord, p);
            &&& 0 <= from <= p < to <= ord.len()
            &&& forall|q: int|
                from <= q < to ==> lines[#[trigger] ord[q] as int].t_ms
                    == lines[ord[p] as int].t_ms
            &&& from > 0 ==> lines[ord[from - 1] as int].t_ms != lines[ord[p] as int].t_ms
            &&& to < ord.len() ==> lines[ord[to] as int].t_ms != lines[ord[p] as int].t_ms
        }),
{
    lemma_run_before(lines, ord, p);
    lemma_run_behind(lines, ord, p);
}

proof fn lemma_run_before(lines: Seq<LineBox>, ord: Seq<usize>, p: int)
    requires
        0 <= p < ord.len(),
    ensures
        ({
            let from = super::placing::column_start(lines, ord, p);
            &&& 0 <= from <= p
            &&& forall|q: int|
                from <= q <= p ==> lines[#[trigger] ord[q] as int].t_ms == lines[ord[p] as int].t_ms
            &&& from > 0 ==> lines[ord[from - 1] as int].t_ms != lines[ord[p] as int].t_ms
        }),
    decreases p,
{
    if p > 0 && lines[ord[p - 1] as int].t_ms == lines[ord[p] as int].t_ms {
        lemma_run_before(lines, ord, p - 1);
    }
}

proof fn lemma_run_behind(lines: Seq<LineBox>, ord: Seq<usize>, p: int)
    requires
        0 <= p < ord.len(),
    ensures
        ({
            let to = super::placing::column_end(lines, ord, p);
            &&& p < to <= ord.len()
            &&& forall|q: int|
                p <= q < to ==> lines[#[trigger] ord[q] as int].t_ms == lines[ord[p] as int].t_ms
            &&& to < ord.len() ==> lines[ord[to] as int].t_ms != lines[ord[p] as int].t_ms
        }),
    decreases ord.len() - p,
{
    if p + 1 < ord.len() && lines[ord[p + 1] as int].t_ms == lines[ord[p] as int].t_ms {
        lemma_run_behind(lines, ord, p + 1);
    }
}

/// The heights of a column are those of the signals of its lines, in their order.
pub proof fn law_heights_of_a_column(lines: Seq<LineBox>, pane: Pane, ord: Seq<usize>, p: int)
    requires
        0 <= p < ord.len(),
    ensures
        ({
            let from = super::placing::column_start(lines, ord, p);
            let to = super::placing::column_end(lines, ord, p);
            let ys = super::placing::heights(lines, ord, from, to);
            &&& ys.len() == to - from
            &&& ys[p - from] == lines[ord[p] as int].y
            &&& to - from == 1 && lines[ord[p] as int].y <= pane.bottom - pane.half_line
                ==> super::placing::rest_of(lines, pane, ord, p) == lines[ord[p] as int].y
        }),
{
    law_columns_are_runs(lines, ord, p);
}

} // verus!
