//! The Log Book panel: the newest contacts, one to a line.

use vstd::prelude::*;

use crate::numbers::spell;
use crate::text::{append_str, chars_of, owned, same_str, string_of};
use crate::types::LogEntry;

verus! {

/// The first and the last millisecond of the calendar that `chrono` keeps: of the years
/// -262143 to 262142.
pub const CALENDAR_FIRST_MS: i64 = -8_334_601_228_800_000;

/// See [`CALENDAR_FIRST_MS`].
pub const CALENDAR_LAST_MS: i64 = 8_210_266_876_799_999;

/// The hour and the minute of a time in UTC, two digits each.
pub open spec fn clock_text(ms: int) -> Seq<char> {
    crate::numbers::padded((ms / 3_600_000 % 24) as nat, 2) + crate::numbers::padded(
        (ms / 60_000 % 60) as nat,
        2,
    )
}

/// Calls `chrono::DateTime::from_timestamp_millis`, and `format` with `%H%M` on what it
/// gives. Stated is that there is a date for every millisecond of the calendar and for no
/// other, and that the text is the hour of the day from 00 to 23 and the minute of the
/// hour, for times before the epoch too.
#[verifier::external_body]
fn utc_hhmm(ms: i64) -> (r: Option<String>)
    ensures
        r is Some <==> CALENDAR_FIRST_MS <= ms <= CALENDAR_LAST_MS,
        r matches Some(s) ==> s@ == clock_text(ms as int),
{
    match chrono::DateTime::from_timestamp_millis(ms) {
        Some(t) => Some(t.format("%H%M").to_string()),
        None => None,
    }
}

/// The time of a contact as the table shows it: hour and minute in UTC, dashes for a time
/// that no calendar has.
pub fn hhmm(ms: i64) -> (r: String)
    ensures
        r@ == (if CALENDAR_FIRST_MS <= ms <= CALENDAR_LAST_MS {
            clock_text(ms as int)
        } else {
            "----"@
        }),
{
    match utc_hhmm(ms) {
        Some(s) => s,
        None => owned("----"),
    }
}

/// A line of the table.
#[derive(Debug)]
pub struct LogRow {
    pub time: String,
    pub call: String,
    pub grid: String,
    pub sent: String,
    pub rcvd: String,
    /// Who logged it, where that was another operator.
    pub badge: Option<String>,
}

/// The line of a contact, for the operator of station `me`.
pub open spec fn row_is_of(r: LogRow, e: LogEntry, me: Seq<char>) -> bool {
    &&& r.time@ == (if CALENDAR_FIRST_MS <= e.time_ms <= CALENDAR_LAST_MS {
        clock_text(e.time_ms as int)
    } else {
        "----"@
    })
    &&& r.call@ == e.call.0@
    &&& r.grid@ == (match e.grid {
        Some(g) => g.0@,
        None => "----"@,
    })
    &&& r.sent@ == e.exchange_sent@
    &&& r.rcvd@ == e.exchange_rcvd@
    &&& r.badge is None <==> e.origin@ == me
    &&& r.badge matches Some(b) ==> b@ == "\u{2194} "@ + e.origin@
}

/// The line of a contact. A contact of another operator has a badge, and is the same
/// otherwise.
pub fn log_row(e: &LogEntry, my_id: &str) -> (r: LogRow)
    ensures
        row_is_of(r, *e, my_id@),
{
    let badge: Option<String> = if same_str(e.origin.as_str(), my_id) {
        None
    } else {
        let mut v: Vec<char> = chars_of("\u{2194} ");
        append_str(&mut v, e.origin.as_str());
        Some(string_of(&v))
    };
    LogRow {
        time: hhmm(e.time_ms),
        call: e.call.0.clone(),
        grid: match &e.grid {
            Some(g) => g.0.clone(),
            None => owned("----"),
        },
        sent: e.exchange_sent.clone(),
        rcvd: e.exchange_rcvd.clone(),
        badge,
    }
}

/// The Log Book panel.
pub struct LogBook {
    /// The lines that are shown, newest first.
    pub rows: Vec<LogRow>,
    /// How many contacts the log holds.
    pub total: usize,
}

impl LogBook {
    /// An empty table.
    pub fn new() -> (r: Self)
        ensures
            r.rows@.len() == 0,
            r.total == 0,
    {
        LogBook { rows: Vec::new(), total: 0 }
    }

    /// Shows contacts, newest first, out of a log that holds `total`.
    pub fn show(&mut self, logs: &Vec<LogEntry>, total: usize, my_id: &str)
        ensures
            final(self).total == total,
            final(self).rows@.len() == logs@.len(),
            forall|i: int|
                0 <= i < logs@.len() ==> row_is_of(
                    #[trigger] final(self).rows@[i],
                    logs@[i],
                    my_id@,
                ),
    {
        let mut rows: Vec<LogRow> = Vec::new();
        let mut i: usize = 0;
        while i < logs.len()
            invariant
                i <= logs@.len(),
                rows@.len() == i,
                forall|j: int| 0 <= j < i ==> row_is_of(#[trigger] rows@[j], logs@[j], my_id@),
            decreases logs@.len() - i,
        {
            rows.push(log_row(&logs[i], my_id));
            i = i + 1;
        }
        self.rows = rows;
        self.total = total;
    }

    /// The header: how many contacts are shown.
    pub fn status(&self) -> (r: String)
        ensures
            r@ == "last "@ + crate::numbers::dec(self.rows@.len() as nat) + " \u{b7} FT8"@,
    {
        let mut v: Vec<char> = chars_of("last ");
        let mut n: Vec<char> = spell(self.rows.len() as u64);
        v.append(&mut n);
        append_str(&mut v, " \u{b7} FT8");
        string_of(&v)
    }

    /// How many contacts there are, in words.
    pub fn total_text(&self) -> (r: String)
        ensures
            r@ == crate::numbers::dec(self.total as nat) + " QSO"@,
    {
        let mut v: Vec<char> = spell(self.total as u64);
        append_str(&mut v, " QSO");
        string_of(&v)
    }
}

/// How many lines fit into a screen, in thousandths of a pixel: the first is centred 30
/// pixels below its top, each further one 22 below, and 8 pixels stay free at its bottom.
pub open spec fn lines_fitting(height: int) -> int {
    if height < 38_000 {
        0
    } else {
        (height - 38_000) / 22_000 + 1
    }
}

/// How many lines fit into a screen whose height is given in thousandths of a pixel.
pub fn capacity(height: u64) -> (n: u64)
    ensures
        n == lines_fitting(height as int),
{
    if height < 38_000 {
        0
    } else {
        (height - 38_000) / 22_000 + 1
    }
}

/// The lines that fit stay within the screen, and one more would not.
pub proof fn law_lines_fit(height: int)
    ensures
        lines_fitting(height) > 0 ==> 30_000 + (lines_fitting(height) - 1) * 22_000 + 8_000
            <= height,
        height < 30_000 + lines_fitting(height) * 22_000 + 8_000,
{
}

/// Every time of the calendar is shown with four digits.
pub proof fn law_time_has_four_digits(ms: int)
    ensures
        clock_text(ms).len() == 4,
{
    reveal_with_fuel(crate::numbers::dec, 3);
}

} // verus!
