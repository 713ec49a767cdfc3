//! What the waterslide makes of a decode: who sent it, whether it is for us, and how its
//! line is marked.

use vstd::prelude::*;

use super::send_row::{digit_badge, has_text, CqAssignments};
use crate::bus_view::SpectrumRow;
use crate::format::fmt_snr;
use crate::numbers::spell;
use crate::text::{
    append, append_str, chars_of, owned, same_ignoring_case, same_str, string_of, upper_text,
};
use crate::types::{Decode, DecodeContent, ParsedMessage, Protocol, SlotId};

verus! {

/// The call of the station that sent a message, where it gives one.
pub open spec fn sender(m: ParsedMessage) -> Option<String> {
    match m {
        ParsedMessage::Cq { caller, .. } => Some(caller.0),
        ParsedMessage::Exchange { from, .. } => Some(from.0),
        ParsedMessage::Signoff { from, .. } => Some(from.0),
        ParsedMessage::Free(_) => None,
        ParsedMessage::Raw(_) => None,
    }
}

/// The call that a message is for.
pub open spec fn addressee(m: ParsedMessage) -> Option<String> {
    match m {
        ParsedMessage::Exchange { to, .. } => Some(to.0),
        ParsedMessage::Signoff { to, .. } => Some(to.0),
        _ => None,
    }
}

/// The station that sent a decode, and the slot of it.
pub open spec fn station(d: Decode) -> Option<(String, SlotId)> {
    match d.content {
        DecodeContent::Slotted { slot, message, .. } => match sender(message) {
            Some(c) => Some((c, slot)),
            None => None,
        },
        DecodeContent::Streaming { .. } => None,
    }
}

/// The call of the station that sent a decode.
pub open spec fn station_call(d: Decode) -> Option<Seq<char>> {
    match station(d) {
        Some((c, _)) => Some(c@),
        None => None,
    }
}

/// The station that sent a decode, and the slot of it; `None` for text that no station
/// signs, which cannot be worked.
pub fn decode_station(d: &Decode) -> (r: Option<(String, SlotId)>)
    ensures
        r == station(*d),
{
    match &d.content {
        DecodeContent::Slotted { slot, message, .. } => match message {
            ParsedMessage::Cq { caller, .. } => Some((caller.0.clone(), *slot)),
            ParsedMessage::Exchange { from, .. } => Some((from.0.clone(), *slot)),
            ParsedMessage::Signoff { from, .. } => Some((from.0.clone(), *slot)),
            ParsedMessage::Free(_) => None,
            ParsedMessage::Raw(_) => None,
        },
        DecodeContent::Streaming { .. } => None,
    }
}

/// Whether a decode is a CQ.
pub open spec fn calls_cq(d: Decode) -> bool {
    match d.content {
        DecodeContent::Slotted { message, .. } => message is Cq,
        DecodeContent::Streaming { .. } => false,
    }
}

/// Whether a decode is a CQ.
pub fn is_cq(d: &Decode) -> (r: bool)
    ensures
        r == calls_cq(*d),
{
    match &d.content {
        DecodeContent::Slotted { message, .. } => match message {
            ParsedMessage::Cq { .. } => true,
            _ => false,
        },
        DecodeContent::Streaming { .. } => false,
    }
}

/// Whether a decode is for the station `me`.
pub open spec fn is_for(d: Decode, me: Seq<char>) -> bool {
    match d.content {
        DecodeContent::Slotted { message, .. } => match addressee(message) {
            Some(to) => crate::text::same_letters(to@, me),
            None => false,
        },
        DecodeContent::Streaming { .. } => false,
    }
}

/// The message of a decode.
pub open spec fn message_of(d: Decode) -> ParsedMessage {
    d.content->Slotted_message
}

/// Whether a decode is for us.
pub fn is_addressed_to(d: &Decode, my_call: Option<&str>) -> (r: bool)
    ensures
        r == match my_call {
            Some(me) => is_for(*d, me@),
            None => false,
        },
{
    match my_call {
        Some(me) => match &d.content {
            DecodeContent::Slotted { message, .. } => match message {
                ParsedMessage::Exchange { to, .. } => same_ignoring_case(to.0.as_str(), me),
                ParsedMessage::Signoff { to, .. } => same_ignoring_case(to.0.as_str(), me),
                _ => false,
            },
            DecodeContent::Streaming { .. } => false,
        },
        None => false,
    }
}

/// The message and the report to take a contact up from, when a decode is for us: `None`
/// for a CQ, for running text and for a line to someone else.
pub fn resume_intent(d: &Decode, my_call: Option<&str>) -> (r: Option<(ParsedMessage, i8)>)
    ensures
        r == match my_call {
            Some(me) => if is_for(*d, me@) {
                Some(
                    (
                        message_of(*d),
                        match d.snr_db {
                            Some(n) => n,
                            None => 0,
                        },
                    ),
                )
            } else {
                None
            },
            None => None,
        },
{
    if !is_addressed_to(d, my_call) {
        return None;
    }
    match &d.content {
        DecodeContent::Slotted { message, .. } => {
            let snr: i8 = match d.snr_db {
                Some(n) => n,
                None => 0,
            };
            Some((message.clone(), snr))
        },
        DecodeContent::Streaming { .. } => None,
    }
}

/// The width of a signal in hertz.
pub fn signal_bandwidth_hz(p: Protocol) -> (r: u32)
    ensures
        r == match p {
            Protocol::Ft8 => 50u32,
            Protocol::Ft4 => 83u32,
        },
{
    match p {
        Protocol::Ft8 => 50,
        Protocol::Ft4 => 83,
    }
}

/// What a line is coloured by.
#[derive(Clone, Copy, Debug, PartialEq, Eq, Structural)]
pub enum LineTint {
    /// What we sent, or what is for us.
    Ours,
    /// The station that is selected.
    Selected,
    Plain,
}

/// The sign before a line.
#[derive(Clone, Copy, Debug, PartialEq, Eq, Structural)]
pub enum LineSign {
    /// The station that is selected.
    Selected,
    /// A station that was worked on this band.
    Worked,
    /// A caller under a digit.
    Digit(char),
    /// A caller.
    Caller,
    Blank,
}

/// How a line is marked.
#[derive(Clone, Copy, Debug, PartialEq, Eq, Structural)]
pub struct LineMark {
    pub tint: LineTint,
    /// Whether the line is of the station that is selected.
    pub selected: bool,
    pub sign: LineSign,
}

/// Whether a decode is of the station `call`, letter for letter.
pub open spec fn is_of(d: Decode, call: Option<Seq<char>>) -> bool {
    call is Some && station_call(d) == call
}

/// Whether a decode was sent by us.
pub open spec fn is_own(d: Decode, me: Option<Seq<char>>) -> bool {
    match (station_call(d), me) {
        (Some(c), Some(m)) => crate::text::same_letters(c, m),
        _ => false,
    }
}

/// The sign before a line. A station that was worked is never shown as one to answer, and
/// the digits are shown only while they can be used.
pub open spec fn sign_of(
    d: Decode,
    sel: Option<Seq<char>>,
    worked: Seq<Seq<char>>,
    a: Seq<(Seq<char>, int, int)>,
    busy: bool,
    sign: LineSign,
) -> bool {
    if is_of(d, sel) {
        sign == LineSign::Selected
    } else if station_call(d) is Some && worked.contains(super::send_row::upper_call(d)) {
        sign == LineSign::Worked
    } else if calls_cq(d) {
        match super::send_row::digit_of(a, super::send_row::upper_call(d)) {
            Some(k) => if busy {
                sign == LineSign::Caller
            } else {
                sign matches LineSign::Digit(c) && super::send_row::key_index(c) == Some(k)
            },
            None => sign == LineSign::Caller,
        }
    } else {
        sign == LineSign::Blank
    }
}

/// How the line of a decode is marked: by what it is to us, to the selected station, to
/// the stations that were worked and to the digits. `busy` says whether the contact engine
/// is armed or on the air.
pub fn line_mark(
    d: &Decode,
    sel_call: Option<&str>,
    my_call: Option<&str>,
    worked: &Vec<String>,
    cq: &CqAssignments,
    busy: bool,
) -> (r: LineMark)
    requires
        cq.wf(),
    ensures
        r.selected == is_of(*d, crate::settings::view_of(sel_call)),
        r.tint == (if is_own(*d, crate::settings::view_of(my_call)) || (my_call is Some && is_for(
            *d,
            my_call->Some_0@,
        )) {
            LineTint::Ours
        } else if r.selected {
            LineTint::Selected
        } else {
            LineTint::Plain
        }),
        sign_of(
            *d,
            crate::settings::view_of(sel_call),
            super::send_row::texts(worked@),
            cq@,
            busy,
            r.sign,
        ),
{
    let mut selected: bool = false;
    let mut own: bool = false;
    let mut worked_here: bool = false;
    let mut digit: Option<usize> = None;
    if let Some((call, _)) = decode_station(d) {
        if let Some(s) = sel_call {
            selected = same_str(call.as_str(), s);
        }
        if let Some(me) = my_call {
            own = same_ignoring_case(call.as_str(), me);
        }
        worked_here = has_text(worked, &upper_text(&chars_of(call.as_str())));
        digit = cq.digit(call.as_str());
    }
    let tint: LineTint = if own || is_addressed_to(d, my_call) {
        LineTint::Ours
    } else if selected {
        LineTint::Selected
    } else {
        LineTint::Plain
    };
    let sign: LineSign = if selected {
        LineSign::Selected
    } else if worked_here {
        LineSign::Worked
    } else if is_cq(d) {
        match digit {
            Some(k) => if busy {
                LineSign::Caller
            } else {
                LineSign::Digit(digit_badge(k))
            },
            None => LineSign::Caller,
        }
    } else {
        LineSign::Blank
    };
    LineMark { tint, selected, sign }
}

/// The report before a line; three spaces where there is none.
pub fn report_text(snr: Option<i8>) -> (r: String)
    ensures
        r@ == (match snr {
            Some(n) => crate::numbers::signed(n as int, '−'),
            None => "   "@,
        }),
{
    match snr {
        Some(n) => fmt_snr(n),
        None => owned("   "),
    }
}

/// A whole number with a minus where it is negative.
pub open spec fn whole(n: int) -> Seq<char> {
    if n < 0 {
        seq!['-'] + crate::numbers::dec((-n) as nat)
    } else {
        crate::numbers::dec(n as nat)
    }
}

/// Spells a whole number.
pub fn spell_whole(n: i32) -> (r: Vec<char>)
    ensures
        r@ == whole(n as int),
{
    if n < 0 {
        let mut v: Vec<char> = Vec::new();
        v.push('-');
        let m: i64 = -(n as i64);
        append(&mut v, &spell(m as u64));
        assert(v@ == whole(n as int));
        v
    } else {
        spell(n as u64)
    }
}

/// The label of the transmit lane: the tag of the selected station or a plain one, and the
/// offset.
pub open spec fn lane_label(tag: Option<Seq<char>>, off: int) -> Seq<char> {
    (match tag {
        Some(t) => t + seq![' ', ' '],
        None => "\u{25B6} TX "@,
    }) + whole(off) + " Hz"@
}

/// The label of the transmit lane.
pub fn tx_label(tag: Option<&str>, off: i32) -> (r: String)
    ensures
        r@ == lane_label(crate::settings::view_of(tag), off as int),
{
    let mut v: Vec<char> = match tag {
        Some(t) => {
            let mut v: Vec<char> = chars_of(t);
            v.push(' ');
            v.push(' ');
            assert(v@ == t@ + seq![' ', ' ']);
            v
        },
        None => chars_of("\u{25B6} TX "),
    };
    append(&mut v, &spell_whole(off));
    append_str(&mut v, " Hz");
    string_of(&v)
}

/// How well a piece of hardware is.
#[derive(Clone, Copy, Debug, PartialEq, Eq, Structural)]
pub enum HealthState {
    Healthy,
    Degraded,
    Down,
}

/// Whether a piece of hardware is at fault.
pub fn is_faulted(h: HealthState) -> (r: bool)
    ensures
        r == (h != HealthState::Healthy),
{
    h != HealthState::Healthy
}

/// What is shown in place of the waterslide when the audio device is at fault.
pub fn fault_title(h: HealthState) -> (r: Option<&'static str>)
    ensures
        match h {
            HealthState::Down => r is Some && r->Some_0@ == "AUDIO OFFLINE"@,
            HealthState::Degraded => r is Some && r->Some_0@ == "AUDIO DEGRADED"@,
            HealthState::Healthy => r is None,
        },
{
    match h {
        HealthState::Down => Some("AUDIO OFFLINE"),
        HealthState::Degraded => Some("AUDIO DEGRADED"),
        HealthState::Healthy => None,
    }
}

/// How many columns of history the spectrogram has.
pub const SPECTRO_COLS: usize = 512;

/// How many frequency bins it has at most.
pub const SPECTRO_MAX_H: usize = 512;

/// The scrolling spectrogram: intensities row by row, the top row for the highest
/// frequency, the first column for the newest time.
pub struct Spectrogram {
    w: usize,
    h: usize,
    intensity: Vec<u8>,
}

impl Spectrogram {
    /// Whether the buffer has its size: none yet, or the columns for every row.
    pub closed spec fn wf(&self) -> bool {
        ||| self.w == 0 && self.h == 0 && self.intensity@.len() == 0
        ||| self.w == SPECTRO_COLS && 1 <= self.h <= SPECTRO_MAX_H && self.intensity@.len()
            == SPECTRO_COLS * self.h
    }

    /// The number of rows; 0 before the first column.
    pub closed spec fn rows(&self) -> int {
        self.h as int
    }

    /// The intensity in a row and a column.
    pub closed spec fn at(&self, r: int, c: int) -> u8 {
        self.intensity@[r * SPECTRO_COLS + c]
    }

    /// No buffer yet.
    pub fn new() -> (r: Self)
        ensures
            r.wf(),
            r.rows() == 0,
    {
        Spectrogram { w: 0, h: 0, intensity: Vec::new() }
    }

    /// The intensities, row by row.
    pub fn pixels(&self) -> (r: &Vec<u8>)
        requires
            self.wf(),
        ensures
            r@.len() == SPECTRO_COLS * self.rows(),
            forall|i: int, c: int|
                0 <= i < self.rows() && 0 <= c < SPECTRO_COLS ==> r@[i * SPECTRO_COLS + c]
                    == #[trigger] self.at(i, c),
    {
        &self.intensity
    }

    /// The number of rows.
    pub fn height(&self) -> (r: usize)
        ensures
            r == self.rows(),
    {
        self.h
    }

    /// Makes a dark buffer for `h` rows, unless it has that size.
    pub fn ensure_size(&mut self, h: usize)
        requires
            old(self).wf(),
            1 <= h <= SPECTRO_MAX_H,
        ensures
            final(self).wf(),
            final(self).rows() == h,
            old(self).rows() == h ==> *final(self) == *old(self),
            old(self).rows() != h ==> forall|r: int, c: int|
                0 <= r < h && 0 <= c < SPECTRO_COLS ==> #[trigger] final(self).at(r, c) == 0,
    {
        if self.w == SPECTRO_COLS && self.h == h {
            return;
        }
        let n: usize = SPECTRO_COLS * h;
        let mut v: Vec<u8> = Vec::new();
        let mut i: usize = 0;
        while i < n
            invariant
                i <= n,
                v@.len() == i,
                forall|j: int| 0 <= j < i ==> v@[j] == 0,
            decreases n - i,
        {
            v.push(0);
            i = i + 1;
        }
        self.w = SPECTRO_COLS;
        self.h = h;
        self.intensity = v;
    }

    /// Moves every column `dx` to the right and fills what is left open: with the newest
    /// column, whose first bin is the lowest frequency, or with dark where there is none.
    /// What is moved beyond the last column is gone.
    pub fn advance(&mut self, dx: usize, latest: Option<&Vec<u8>>)
        requires
            old(self).wf(),
            dx <= SPECTRO_COLS,
        ensures
            final(self).wf(),
            final(self).rows() == old(self).rows(),
            forall|r: int, c: int|
                0 <= r < old(self).rows() && 0 <= c < SPECTRO_COLS ==> #[trigger] final(self).at(
                    r,
                    c,
                ) == (if c >= dx {
                    old(self).at(r, c - dx)
                } else {
                    bin_at(latest, old(self).rows() - 1 - r)
                }),
    {
        let ghost before = *self;
        let mut v: Vec<u8> = Vec::new();
        let mut r: usize = 0;
        while r < self.h
            invariant
                self.wf(),
                *self == before,
                dx <= SPECTRO_COLS,
                r <= self.h,
                v@.len() == r * SPECTRO_COLS,
                forall|i: int, c: int|
                    0 <= i < r && 0 <= c < SPECTRO_COLS ==> #[trigger] v@[i * SPECTRO_COLS + c]
                        == (if c >= dx {
                        before.at(i, c - dx)
                    } else {
                        bin_at(latest, before.rows() - 1 - i)
                    }),
            decreases self.h - r,
        {
            let bin: usize = self.h - 1 - r;
            let fresh: u8 = match latest {
                Some(m) => if bin < m.len() {
                    m[bin]
                } else {
                    0
                },
                None => 0,
            };
            let base: usize = r * SPECTRO_COLS;
            let mut c: usize = 0;
            while c < SPECTRO_COLS
                invariant
                    self.wf(),
                    *self == before,
                    dx <= SPECTRO_COLS,
                    r < self.h,
                    base == r * SPECTRO_COLS,
                    c <= SPECTRO_COLS,
                    fresh == bin_at(latest, before.rows() - 1 - r),
                    v@.len() == r * SPECTRO_COLS + c,
                    forall|i: int, x: int|
                        0 <= i < r && 0 <= x < SPECTRO_COLS ==> #[trigger] v@[i * SPECTRO_COLS + x]
                            == (if x >= dx {
                            before.at(i, x - dx)
                        } else {
                            bin_at(latest, before.rows() - 1 - i)
                        }),
                    forall|x: int|
                        0 <= x < c ==> #[trigger] v@[r * SPECTRO_COLS + x] == (if x >= dx {
                            before.at(r as int, x - dx)
                        } else {
                            fresh
                        }),
                decreases SPECTRO_COLS - c,
            {
                if c >= dx {
                    v.push(self.intensity[base + (c - dx)]);
                } else {
                    v.push(fresh);
                }
                c = c + 1;
            }
            r = r + 1;
        }
        self.intensity = v;
        assert forall|i: int, c: int|
            0 <= i < before.rows() && 0 <= c < SPECTRO_COLS implies #[trigger] self.at(i, c) == (
        if c >= dx {
            before.at(i, c - dx)
        } else {
            bin_at(latest, before.rows() - 1 - i)
        }) by {
            assert(self.at(i, c) == v@[i * SPECTRO_COLS + c]);
        }
    }
}

/// The column of a row: its age, in columns of which [`SPECTRO_COLS`] span `history`
/// milliseconds, rounded. None for a row from the future.
pub open spec fn column_of(t: int, now: int, history: int) -> Option<int> {
    if now - t < 0 {
        None
    } else {
        Some((2 * (now - t) * SPECTRO_COLS + history) / (2 * history))
    }
}

/// The columns of rows.
pub open spec fn columns_of(rows: Seq<SpectrumRow>, now: int, history: int) -> Seq<Option<int>> {
    rows.map_values(|r: SpectrumRow| column_of(r.t_ms as int, now, history))
}

/// Which of the first `n` rows, oldest first, column `c` shows. A row has the columns
/// from its own back to that of the next newer one, whose column is `newer`. The newest
/// row reaches to the first column if `fill`, and only its own otherwise. Rows from the
/// future count for nothing, and no row beyond the last column does.
pub open spec fn owner(
    cols: Seq<Option<int>>,
    n: int,
    newer: Option<int>,
    fill: bool,
    c: int,
) -> Option<int>
    decreases n,
{
    if n <= 0 {
        None
    } else {
        match cols[n - 1] {
            None => owner(cols, n - 1, newer, fill, c),
            Some(k) => {
                let lo = match newer {
                    Some(p) => p + 1,
                    None => if fill {
                        0
                    } else {
                        k
                    },
                };
                if k >= SPECTRO_COLS {
                    None
                } else if lo > k {
                    owner(cols, n - 1, newer, fill, c)
                } else if lo <= c <= k {
                    Some(n - 1)
                } else {
                    owner(cols, n - 1, Some(k), fill, c)
                }
            },
        }
    }
}

/// What column `c` shows in the row for `bin`, over what was there.
pub open spec fn painted(
    rows: Seq<SpectrumRow>,
    now: int,
    history: int,
    fill: bool,
    c: int,
    bin: int,
    under: u8,
) -> u8 {
    shown(rows, columns_of(rows, now, history), rows.len() as int, None, fill, c, bin, under)
}

/// What column `c` shows in the row for `bin`, over what was there, when its owner is
/// among the first `n` rows.
pub open spec fn shown(
    rows: Seq<SpectrumRow>,
    cols: Seq<Option<int>>,
    n: int,
    newer: Option<int>,
    fill: bool,
    c: int,
    bin: int,
    under: u8,
) -> u8 {
    match owner(cols, n, newer, fill, c) {
        Some(i) => bin_at(Some(&rows[i].mags), bin),
        None => under,
    }
}

proof fn lemma_owner(cols: Seq<Option<int>>, n: int, newer: Option<int>, fill: bool, c: int)
    requires
        0 <= n <= cols.len(),
        0 <= c,
        newer matches Some(p) ==> c > p,
    ensures
        owner(cols, n, newer, fill, c) matches Some(i) ==> 0 <= i < n && cols[i] is Some && c
            <= cols[i]->Some_0 < SPECTRO_COLS && forall|j: int|
            i < j < n && (#[trigger] cols[j]) is Some ==> cols[j]->Some_0 < c,
    decreases n,
{
    if n > 0 {
        match cols[n - 1] {
            None => {
                lemma_owner(cols, n - 1, newer, fill, c);
            },
            Some(k) => {
                let lo = match newer {
                    Some(p) => p + 1,
                    None => if fill {
                        0
                    } else {
                        k
                    },
                };
                if k < SPECTRO_COLS {
                    if lo > k {
                        lemma_owner(cols, n - 1, newer, fill, c);
                    } else if !(lo <= c <= k) {
                        if c > k {
                            lemma_owner(cols, n - 1, Some(k), fill, c);
                        } else {
                            lemma_owner_behind(cols, n - 1, k, fill, c);
                        }
                    }
                }
            },
        }
    }
}

pub(super) proof fn lemma_owner_behind(cols: Seq<Option<int>>, n: int, newer: int, fill: bool, c: int)
    requires
        0 <= n <= cols.len(),
        c <= newer,
    ensures
        owner(cols, n, Some(newer), fill, c) is None,
    decreases n,
{
    if n > 0 {
        match cols[n - 1] {
            None => {
                lemma_owner_behind(cols, n - 1, newer, fill, c);
            },
            Some(k) => {
                if k < SPECTRO_COLS {
                    if newer + 1 > k {
                        lemma_owner_behind(cols, n - 1, newer, fill, c);
                    } else {
                        lemma_owner_behind(cols, n - 1, k, fill, c);
                    }
                }
            },
        }
    }
}

proof fn lemma_no_gap(
    cols: Seq<Option<int>>,
    n: int,
    newer: Option<int>,
    fill: bool,
    c: int,
    i: int,
)
    requires
        0 <= i < n <= cols.len(),
        cols[i] matches Some(k) && c <= k < SPECTRO_COLS,
        forall|a: int, b: int| #![trigger cols[a], cols[b]]
            0 <= a <= b < cols.len() && cols[b] is Some ==> cols[a] is Some && cols[b]->Some_0
                <= cols[a]->Some_0,
        newer matches Some(p) ==> c > p,
        newer is None ==> fill && 0 <= c,
    ensures
        owner(cols, n, newer, fill, c) is Some,
    decreases n,
{
    match cols[n - 1] {
        None => {
            assert(i < n - 1);
            lemma_no_gap(cols, n - 1, newer, fill, c, i);
        },
        Some(k) => {
            assert(cols[i]->Some_0 >= k);
            if c > k {
                assert(i < n - 1);
                let lo = match newer {
                    Some(p) => p + 1,
                    None => 0,
                };
                if lo > k {
                    lemma_no_gap(cols, n - 1, newer, fill, c, i);
                } else {
                    lemma_no_gap(cols, n - 1, Some(k), fill, c, i);
                }
            }
        },
    }
}

/// A column shows the newest of the rows that are at least as old as it, and no row that
/// a newer one has covered. Received rows in the order of their times leave no gap
/// between the first column and the oldest row that fits.
pub proof fn law_columns_are_held(cols: Seq<Option<int>>, fill: bool, c: int)
    requires
        0 <= c < SPECTRO_COLS,
    ensures
        owner(cols, cols.len() as int, None, fill, c) matches Some(i) ==> 0 <= i < cols.len()
            && cols[i] is Some && c <= cols[i]->Some_0 && forall|j: int|
            i < j < cols.len() && (#[trigger] cols[j]) is Some ==> cols[j]->Some_0 < c,
        fill && (forall|a: int, b: int| #![trigger cols[a], cols[b]]
            0 <= a <= b < cols.len() && cols[b] is Some ==> cols[a] is Some && cols[b]->Some_0
                <= cols[a]->Some_0) ==> forall|i: int|
            0 <= i < cols.len() && ((#[trigger] cols[i]) matches Some(k) && c <= k < SPECTRO_COLS)
                ==> owner(cols, cols.len() as int, None, fill, c) is Some,
{
    lemma_owner(cols, cols.len() as int, None, fill, c);
    if fill && (forall|a: int, b: int| #![trigger cols[a], cols[b]]
        0 <= a <= b < cols.len() && cols[b] is Some ==> cols[a] is Some && cols[b]->Some_0
            <= cols[a]->Some_0) {
        assert forall|i: int|
            0 <= i < cols.len() && ((#[trigger] cols[i]) matches Some(k) && c <= k
                < SPECTRO_COLS) implies owner(cols, cols.len() as int, None, fill, c) is Some by {
            lemma_no_gap(cols, cols.len() as int, None, fill, c, i);
        }
    }
}

impl Spectrogram {
    /// Writes a column: its first bin is the lowest frequency and goes to the bottom row.
    fn write_col(&mut self, col: usize, mags: &Vec<u8>)
        requires
            old(self).wf(),
            col < SPECTRO_COLS,
        ensures
            final(self).wf(),
            final(self).rows() == old(self).rows(),
            forall|r: int, c: int|
                0 <= r < old(self).rows() && 0 <= c < SPECTRO_COLS ==> #[trigger] final(self).at(
                    r,
                    c,
                ) == (if c == col {
                    bin_at(Some(mags), old(self).rows() - 1 - r)
                } else {
                    old(self).at(r, c)
                }),
    {
        let ghost before = *self;
        let mut r: usize = 0;
        while r < self.h
            invariant
                self.wf(),
                before.wf(),
                self.h == before.h,
                self.w == before.w,
                r <= self.h,
                col < SPECTRO_COLS,
                forall|i: int, c: int|
                    0 <= i < before.rows() && 0 <= c < SPECTRO_COLS ==> #[trigger] self.at(i, c) == (
                    if c == col && i < r {
                        bin_at(Some(mags), before.rows() - 1 - i)
                    } else {
                        before.at(i, c)
                    }),
            decreases self.h - r,
        {
            let ghost mid = *self;
            let bin: usize = self.h - 1 - r;
            let v: u8 = if bin < mags.len() {
                mags[bin]
            } else {
                0
            };
            let k: usize = r * SPECTRO_COLS + col;
            self.intensity.set(k, v);
            assert forall|i: int, c: int|
                0 <= i < before.rows() && 0 <= c < SPECTRO_COLS implies #[trigger] self.at(i, c) == (
            if c == col && i < r + 1 {
                bin_at(Some(mags), before.rows() - 1 - i)
            } else {
                before.at(i, c)
            }) by {
                assert(i * SPECTRO_COLS + c == k <==> i == r && c == col);
                assert(mid.at(i, c) == mid.intensity@[i * SPECTRO_COLS + c]);
            }
            r = r + 1;
        }
    }

    /// Writes rows, oldest first, each into the columns that its time gives it.
    pub fn fill_from_rows(
        &mut self,
        rows: &Vec<SpectrumRow>,
        now_ms: i64,
        history_ms: u32,
        fill_to_now: bool,
    )
        requires
            old(self).wf(),
            history_ms > 0,
        ensures
            final(self).wf(),
            final(self).rows() == old(self).rows(),
            forall|r: int, c: int|
                0 <= r < old(self).rows() && 0 <= c < SPECTRO_COLS ==> #[trigger] final(self).at(
                    r,
                    c,
                ) == painted(
                    rows@,
                    now_ms as int,
                    history_ms as int,
                    fill_to_now,
                    c,
                    old(self).rows() - 1 - r,
                    old(self).at(r, c),
                ),
    {
        let ghost before = *self;
        let ghost cols = columns_of(rows@, now_ms as int, history_ms as int);
        let mut newer: Option<usize> = None;
        let ghost mut above: Option<int> = None;
        let mut n: usize = rows.len();
        while n > 0
            invariant_except_break
                n <= rows@.len(),
                above == (match newer {
                    Some(p) => Some(p as int),
                    None => None::<int>,
                }),
                newer matches Some(p) ==> p < SPECTRO_COLS,
                self.to_come(before, rows@, cols, n as int, above, fill_to_now),
            invariant
                self.wf(),
                self.rows() == before.rows(),
                history_ms > 0,
                cols == columns_of(rows@, now_ms as int, history_ms as int),
            ensures
                self.to_come(before, rows@, cols, 0, None, fill_to_now),
            decreases n,
        {
            let ghost mid = *self;
            let ghost was = above;
            let ghost m = n as int;
            let ghost mut span: Option<(int, int)> = None;
            n = n - 1;
            let row: &SpectrumRow = &rows[n];
            assert(cols[n as int] == column_of(row.t_ms as int, now_ms as int, history_ms as int));
            let age: i128 = now_ms as i128 - row.t_ms as i128;
            if age >= 0 {
                let wide: i128 = (2 * age * (SPECTRO_COLS as i128) + history_ms as i128) / (2
                    * history_ms as i128);
                assert(cols[n as int] == Some(wide as int));
                if wide >= SPECTRO_COLS as i128 {
                    assert forall|r: int, c: int|
                        0 <= r < before.rows() && 0 <= c < SPECTRO_COLS implies shown(
                        rows@,
                        cols,
                        0,
                        None,
                        fill_to_now,
                        c,
                        before.rows() - 1 - r,
                        #[trigger] self.at(r, c),
                    ) == shown(
                        rows@,
                        cols,
                        cols.len() as int,
                        None,
                        fill_to_now,
                        c,
                        before.rows() - 1 - r,
                        before.at(r, c),
                    ) by {
                        assert(owner(cols, m, was, fill_to_now, c) is None);
                    }
                    break;
                }
                let col: usize = wide as usize;
                let lo: usize = match newer {
                    Some(p) => p + 1,
                    None => if fill_to_now {
                        0
                    } else {
                        col
                    },
                };
                if lo <= col {
                    let mut c: usize = lo;
                    while c <= col
                        invariant
                            self.wf(),
                            self.rows() == before.rows(),
                            mid.rows() == before.rows(),
                            lo <= c <= col + 1,
                            col < SPECTRO_COLS,
                            forall|r: int, x: int|
                                0 <= r < before.rows() && 0 <= x < SPECTRO_COLS
                                    ==> #[trigger] self.at(r, x) == (if lo <= x < c {
                                    bin_at(Some(&row.mags), before.rows() - 1 - r)
                                } else {
                                    mid.at(r, x)
                                }),
                        decreases col + 1 - c,
                    {
                        self.write_col(c, &row.mags);
                        c = c + 1;
                    }
                    newer = Some(col);
                    proof {
                        above = Some(col as int);
                        span = Some((lo as int, col as int));
                    }
                }
            }
            proof {
                assert forall|r: int, c: int|
                    0 <= r < before.rows() && 0 <= c < SPECTRO_COLS implies shown(
                    rows@,
                    cols,
                    n as int,
                    above,
                    fill_to_now,
                    c,
                    before.rows() - 1 - r,
                    #[trigger] self.at(r, c),
                ) == shown(
                    rows@,
                    cols,
                    cols.len() as int,
                    None,
                    fill_to_now,
                    c,
                    before.rows() - 1 - r,
                    before.at(r, c),
                ) by {
                    let last = mid.at(r, c);
                    assert(shown(
                        rows@,
                        cols,
                        m,
                        was,
                        fill_to_now,
                        c,
                        before.rows() - 1 - r,
                        last,
                    ) == shown(
                        rows@,
                        cols,
                        cols.len() as int,
                        None,
                        fill_to_now,
                        c,
                        before.rows() - 1 - r,
                        before.at(r, c),
                    ));
                    match span {
                        Some((lo, hi)) => if lo <= c <= hi {
                            lemma_owner_behind(cols, n as int, hi, fill_to_now, c);
                        },
                        None => {},
                    }
                }
            }
        }
    }

    /// Whether the first `n` rows have yet to be written for every row to be.
    spec fn to_come(
        &self,
        before: Self,
        rows: Seq<SpectrumRow>,
        cols: Seq<Option<int>>,
        n: int,
        newer: Option<int>,
        fill: bool,
    ) -> bool {
        forall|r: int, c: int|
            0 <= r < before.rows() && 0 <= c < SPECTRO_COLS ==> shown(
                rows,
                cols,
                n,
                newer,
                fill,
                c,
                before.rows() - 1 - r,
                #[trigger] self.at(r, c),
            ) == shown(
                rows,
                cols,
                cols.len() as int,
                None,
                fill,
                c,
                before.rows() - 1 - r,
                before.at(r, c),
            )
    }

    /// Makes every intensity dark.
    fn clear(&mut self)
        requires
            old(self).wf(),
        ensures
            final(self).wf(),
            final(self).rows() == old(self).rows(),
            forall|r: int, c: int|
                0 <= r < old(self).rows() && 0 <= c < SPECTRO_COLS ==> #[trigger] final(self).at(
                    r,
                    c,
                ) == 0,
    {
        let ghost before = *self;
        let n: usize = self.intensity.len();
        let mut i: usize = 0;
        while i < n
            invariant
                i <= n,
                self.wf(),
                self.h == before.h,
                n == self.intensity@.len(),
                forall|j: int| 0 <= j < i ==> self.intensity@[j] == 0,
            decreases n - i,
        {
            self.intensity.set(i, 0);
            i = i + 1;
        }
        assert forall|r: int, c: int|
            0 <= r < before.rows() && 0 <= c < SPECTRO_COLS implies #[trigger] self.at(r, c)
            == 0 by {
            assert(r * SPECTRO_COLS + c < n);
        }
    }

    /// Paints the whole buffer anew from what was received and what was transmitted, each
    /// oldest first. Received rows reach to now; the station's own cover them for the time
    /// that it transmitted, and no longer.
    pub fn repaint(
        &mut self,
        rx: &Vec<SpectrumRow>,
        tx: &Vec<SpectrumRow>,
        now_ms: i64,
        history_ms: u32,
    )
        requires
            old(self).wf(),
            history_ms > 0,
        ensures
            final(self).wf(),
            final(self).rows() == height_for(rx@, tx@, old(self).rows()),
            forall|r: int, c: int|
                0 <= r < final(self).rows() && 0 <= c < SPECTRO_COLS ==> #[trigger] final(self).at(
                    r,
                    c,
                ) == painted(
                    tx@,
                    now_ms as int,
                    history_ms as int,
                    false,
                    c,
                    final(self).rows() - 1 - r,
                    painted(
                        rx@,
                        now_ms as int,
                        history_ms as int,
                        true,
                        c,
                        final(self).rows() - 1 - r,
                        0,
                    ),
                ),
    {
        let bins: Option<usize> = if rx.len() > 0 {
            Some(rx[rx.len() - 1].mags.len())
        } else if tx.len() > 0 {
            Some(tx[tx.len() - 1].mags.len())
        } else {
            None
        };
        match bins {
            Some(b) => {
                let h: usize = if b < 1 {
                    1
                } else if b > SPECTRO_MAX_H {
                    SPECTRO_MAX_H
                } else {
                    b
                };
                self.ensure_size(h);
            },
            None => {},
        }
        self.clear();
        let ghost dark = *self;
        self.fill_from_rows(rx, now_ms, history_ms, true);
        let ghost received = *self;
        self.fill_from_rows(tx, now_ms, history_ms, false);
        assert forall|r: int, c: int|
            0 <= r < self.rows() && 0 <= c < SPECTRO_COLS implies #[trigger] self.at(r, c)
            == painted(
            tx@,
            now_ms as int,
            history_ms as int,
            false,
            c,
            self.rows() - 1 - r,
            painted(rx@, now_ms as int, history_ms as int, true, c, self.rows() - 1 - r, 0),
        ) by {
            assert(dark.at(r, c) == 0);
            assert(received.at(r, c) == painted(
                rx@,
                now_ms as int,
                history_ms as int,
                true,
                c,
                self.rows() - 1 - r,
                0,
            ));
        }
    }
}

/// How many rows the buffer has for the newest column: one for each bin, within limits.
/// It stays as it is where there is no column.
pub open spec fn height_for(rx: Seq<SpectrumRow>, tx: Seq<SpectrumRow>, was: int) -> int {
    let bins = if rx.len() > 0 {
        Some(rx.last().mags@.len())
    } else if tx.len() > 0 {
        Some(tx.last().mags@.len())
    } else {
        None
    };
    match bins {
        Some(b) => if b < 1 {
            1
        } else if b > SPECTRO_MAX_H {
            SPECTRO_MAX_H as int
        } else {
            b as int
        },
        None => was,
    }
}

/// The intensity of a bin of a column; dark where the column has none.
pub open spec fn bin_at(latest: Option<&Vec<u8>>, bin: int) -> u8 {
    match latest {
        Some(m) => if 0 <= bin < m@.len() {
            m@[bin]
        } else {
            0
        },
        None => 0,
    }
}

} // verus!
