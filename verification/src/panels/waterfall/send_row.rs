//! The digit keys of the digital panel: which of the stations that call CQ stands under
//! which digit.
//!
//! The digits are dealt out at slot boundaries only, so that they do not move while an
//! operator reaches for them.

use vstd::prelude::*;

use super::render::{decode_station, is_cq};
use crate::text::{chars_of, same, upper_text};
use crate::types::Decode;

verus! {

/// How many digits there are.
pub const DIGITS: usize = 10;

/// A digit that was dealt out: the call in upper case, the digit's position, and the slot
/// boundary at which it was dealt, in milliseconds since the epoch.
pub struct CqEntry {
    pub call: String,
    pub digit: usize,
    pub assigned_ms: i64,
}

/// The digits that are dealt out.
pub struct CqAssignments {
    entries: Vec<CqEntry>,
}

/// What a dealt digit says: call, digit, and when it was dealt.
pub open spec fn entry_of(e: CqEntry) -> (Seq<char>, int, int) {
    (e.call@, e.digit as int, e.assigned_ms as int)
}

impl View for CqAssignments {
    type V = Seq<(Seq<char>, int, int)>;

    closed spec fn view(&self) -> Seq<(Seq<char>, int, int)> {
        self.entries@.map_values(|e: CqEntry| entry_of(e))
    }
}

/// Whether every call and every digit is there once, and every digit is one of the ten.
pub open spec fn dealt_ok(a: Seq<(Seq<char>, int, int)>) -> bool {
    &&& forall|i: int, j: int|
        0 <= i < j < a.len() ==> (#[trigger] a[i]).0 != (#[trigger] a[j]).0 && a[i].1 != a[j].1
    &&& forall|i: int| 0 <= i < a.len() ==> 0 <= (#[trigger] a[i]).1 < DIGITS
}

/// Whether a call has a digit.
pub open spec fn has_call(a: Seq<(Seq<char>, int, int)>, call: Seq<char>) -> bool {
    exists|i: int| 0 <= i < a.len() && (#[trigger] a[i]).0 == call
}

/// Whether a digit is free.
pub open spec fn is_free(a: Seq<(Seq<char>, int, int)>, digit: int) -> bool {
    forall|i: int| 0 <= i < a.len() ==> (#[trigger] a[i]).1 != digit
}

/// Those that keep their digit: not worked, and dealt at `limit` or later.
pub open spec fn kept(
    a: Seq<(Seq<char>, int, int)>,
    worked: Seq<Seq<char>>,
    limit: int,
) -> Seq<(Seq<char>, int, int)>
    decreases a.len(),
{
    if a.len() == 0 {
        Seq::empty()
    } else {
        let front = kept(a.drop_last(), worked, limit);
        if !worked.contains(a.last().0) && a.last().2 >= limit {
            front.push(a.last())
        } else {
            front
        }
    }
}

/// The free digits below `n`, from the lowest on.
pub open spec fn free_digits(a: Seq<(Seq<char>, int, int)>, n: int) -> Seq<int>
    decreases n,
{
    if n <= 0 {
        Seq::empty()
    } else if is_free(a, n - 1) {
        free_digits(a, n - 1).push(n - 1)
    } else {
        free_digits(a, n - 1)
    }
}

/// How strong a decode is; one without a report is weaker than any other.
pub open spec fn strength(snr: Option<i8>) -> int {
    match snr {
        Some(n) => n as int,
        None => -129,
    }
}

/// The call of a decode's sender in upper case.
pub open spec fn upper_call(d: Decode) -> Seq<char> {
    crate::text::ascii_upper(super::render::station_call(d)->Some_0)
}

/// Those of the first `n` decodes that call CQ at `cutoff` or later: call and strength.
pub open spec fn callers(ds: Seq<Decode>, cutoff: int, n: int) -> Seq<(Seq<char>, int)>
    decreases n,
{
    if n <= 0 {
        Seq::empty()
    } else {
        let front = callers(ds, cutoff, n - 1);
        let d = ds[n - 1];
        if super::render::calls_cq(d) && d.t_ms >= cutoff {
            front.push((upper_call(d), strength(d.snr_db)))
        } else {
            front
        }
    }
}

/// The place behind all that are as strong as `r` or stronger, in a list that goes from
/// strong to weak.
pub open spec fn place(s: Seq<(Seq<char>, int)>, r: int) -> int
    decreases s.len(),
{
    if s.len() == 0 || s[0].1 < r {
        0
    } else {
        1 + place(s.skip(1), r)
    }
}

/// The first `n` callers from strong to weak; those of one strength in their order.
pub open spec fn ranked(cs: Seq<(Seq<char>, int)>, n: int) -> Seq<(Seq<char>, int)>
    decreases n,
{
    if n <= 0 {
        Seq::empty()
    } else {
        let front = ranked(cs, n - 1);
        front.insert(place(front, cs[n - 1].1), cs[n - 1])
    }
}

/// The calls among the first `n` of a ranking that are to have a digit: not worked,
/// without a digit, each once.
pub open spec fn picks(
    rs: Seq<(Seq<char>, int)>,
    n: int,
    a: Seq<(Seq<char>, int, int)>,
    worked: Seq<Seq<char>>,
) -> Seq<Seq<char>>
    decreases n,
{
    if n <= 0 {
        Seq::empty()
    } else {
        let front = picks(rs, n - 1, a, worked);
        let call = rs[n - 1].0;
        if worked.contains(call) || has_call(a, call) || front.contains(call) {
            front
        } else {
            front.push(call)
        }
    }
}

/// The digits that are newly dealt: the first call gets the first free digit.
pub open spec fn dealt(calls: Seq<Seq<char>>, free: Seq<int>, now: int) -> Seq<
    (Seq<char>, int, int),
> {
    Seq::new(
        if calls.len() < free.len() {
            calls.len()
        } else {
            free.len()
        },
        |k: int| (calls[k], free[k], now),
    )
}

/// The digits after a slot boundary at `now`: worked stations and those dealt more than
/// two slots ago lose theirs, and the strongest callers of the last slot get what is free.
pub open spec fn redealt(
    a: Seq<(Seq<char>, int, int)>,
    ds: Seq<Decode>,
    worked: Seq<Seq<char>>,
    now: int,
    slot: int,
) -> Seq<(Seq<char>, int, int)> {
    let k = kept(a, worked, now - slot * 2);
    let cs = callers(ds, now - slot, ds.len() as int);
    let rs = ranked(cs, cs.len() as int);
    k + dealt(
        picks(rs, rs.len() as int, k, worked),
        free_digits(k, DIGITS as int),
        now,
    )
}

/// The views of a list of texts.
pub open spec fn texts(v: Seq<String>) -> Seq<Seq<char>> {
    v.map_values(|s: String| s@)
}

/// Whether a list holds a text.
pub fn has_text(list: &Vec<String>, s: &[char]) -> (r: bool)
    ensures
        r == texts(list@).contains(s@),
{
    let ghost all = texts(list@);
    let mut i: usize = 0;
    while i < list.len()
        invariant
            i <= list.len(),
            all == texts(list@),
            forall|j: int| 0 <= j < i ==> all[j] != s@,
        decreases list.len() - i,
    {
        if same(&chars_of(list[i].as_str()), s) {
            assert(all[i as int] == s@);
            return true;
        }
        assert(all[i as int] == list@[i as int]@);
        i = i + 1;
    }
    assert(!all.contains(s@)) by {
        if all.contains(s@) {
            let j = choose|j: int| 0 <= j < all.len() && all[j] == s@;
            assert(all[j] != s@);
        }
    }
    false
}

/// Whether a list holds a text.
fn has_chars(list: &Vec<Vec<char>>, s: &[char]) -> (r: bool)
    ensures
        r == crate::text::views(list@).contains(s@),
{
    let ghost all = crate::text::views(list@);
    let mut i: usize = 0;
    while i < list.len()
        invariant
            i <= list.len(),
            all == crate::text::views(list@),
            forall|j: int| 0 <= j < i ==> all[j] != s@,
        decreases list.len() - i,
    {
        if same(&list[i], s) {
            assert(all[i as int] == s@);
            return true;
        }
        assert(all[i as int] == list@[i as int]@);
        i = i + 1;
    }
    assert(!all.contains(s@)) by {
        if all.contains(s@) {
            let j = choose|j: int| 0 <= j < all.len() && all[j] == s@;
            assert(all[j] != s@);
        }
    }
    false
}

/// How strong a decode is.
fn strength_of(snr: Option<i8>) -> (r: i32)
    ensures
        r == strength(snr),
{
    match snr {
        Some(n) => n as i32,
        None => -129,
    }
}

/// The place is in range, what stands before it is as strong or stronger, and what stands
/// at it is weaker.
proof fn lemma_place(s: Seq<(Seq<char>, int)>, r: int)
    ensures
        0 <= place(s, r) <= s.len(),
        forall|i: int| 0 <= i < place(s, r) ==> (#[trigger] s[i]).1 >= r,
        place(s, r) < s.len() ==> s[place(s, r)].1 < r,
    decreases s.len(),
{
    if s.len() > 0 && s[0].1 >= r {
        let t = s.skip(1);
        lemma_place(t, r);
        assert forall|i: int| 0 <= i < place(s, r) implies (#[trigger] s[i]).1 >= r by {
            if i > 0 {
                assert(t[i - 1] == s[i]);
            }
        }
        if place(t, r) < t.len() {
            assert(t[place(t, r)] == s[place(t, r) + 1]);
        }
    }
}

/// A place with this property is the one.
proof fn lemma_is_place(s: Seq<(Seq<char>, int)>, r: int, n: int)
    requires
        0 <= n <= s.len(),
        forall|i: int| 0 <= i < n ==> (#[trigger] s[i]).1 >= r,
        n < s.len() ==> s[n].1 < r,
    ensures
        place(s, r) == n,
    decreases s.len(),
{
    if n > 0 {
        let t = s.skip(1);
        assert forall|i: int| 0 <= i < n - 1 implies (#[trigger] t[i]).1 >= r by {
            assert(t[i] == s[i + 1]);
        }
        lemma_is_place(t, r, n - 1);
    }
}

/// The models of ranked callers.
spec fn rank_views(v: Seq<(Vec<char>, i32)>) -> Seq<(Seq<char>, int)> {
    v.map_values(|p: (Vec<char>, i32)| (p.0@, p.1 as int))
}

/// The callers at `cutoff` or later, from strong to weak.
fn rank_callers(ds: &Vec<Decode>, cutoff: i64) -> (r: Vec<(Vec<char>, i32)>)
    ensures
        ({
            let cs = callers(ds@, cutoff as int, ds@.len() as int);
            rank_views(r@) == ranked(cs, cs.len() as int)
        }),
{
    let mut r: Vec<(Vec<char>, i32)> = Vec::new();
    let mut i: usize = 0;
    let ghost cs = callers(ds@, cutoff as int, 0);
    assert(rank_views(r@) == ranked(cs, 0));
    while i < ds.len()
        invariant
            i <= ds.len(),
            cs == callers(ds@, cutoff as int, i as int),
            rank_views(r@) == ranked(cs, cs.len() as int),
        decreases ds.len() - i,
    {
        let d: &Decode = &ds[i];
        if is_cq(d) && d.t_ms >= cutoff {
            match decode_station(d) {
                Some((call, _)) => {
                    let upper: Vec<char> = upper_text(&chars_of(call.as_str()));
                    let power: i32 = strength_of(d.snr_db);
                    let ghost e = (upper@, power as int);
                    let ghost before = rank_views(r@);
                    let mut n: usize = 0;
                    while n < r.len() && r[n].1 >= power
                        invariant
                            n <= r.len(),
                            before == rank_views(r@),
                            forall|j: int| 0 <= j < n ==> (#[trigger] before[j]).1 >= power,
                        decreases r.len() - n,
                    {
                        assert(before[n as int].1 == r@[n as int].1);
                        n = n + 1;
                    }
                    proof {
                        if n < before.len() {
                            assert(before[n as int].1 == r@[n as int].1);
                        }
                        lemma_is_place(before, power as int, n as int);
                    }
                    r.insert(n, (upper, power));
                    assert(rank_views(r@) == before.insert(n as int, e));
                    proof {
                        let next = cs.push(e);
                        lemma_ranked_prefix(cs, next, cs.len() as int);
                        cs = next;
                    }
                },
                None => {
                    assert(false);
                },
            }
        }
        i = i + 1;
    }
    r
}

/// The ranking of the first `n` does not depend on what follows them.
proof fn lemma_ranked_prefix(a: Seq<(Seq<char>, int)>, b: Seq<(Seq<char>, int)>, n: int)
    requires
        0 <= n <= a.len(),
        n <= b.len(),
        forall|i: int| 0 <= i < n ==> a[i] == b[i],
    ensures
        ranked(a, n) == ranked(b, n),
    decreases n,
{
    if n > 0 {
        lemma_ranked_prefix(a, b, n - 1);
    }
}

impl CqAssignments {
    /// Whether the digits that are dealt out are in order.
    pub open spec fn wf(&self) -> bool {
        dealt_ok(self@)
    }

    /// No digit is dealt out.
    pub fn new() -> (r: Self)
        ensures
            r@.len() == 0,
            r.wf(),
    {
        CqAssignments { entries: Vec::new() }
    }

    /// Whether a call, in upper case, has a digit.
    fn has(&self, call: &[char]) -> (r: bool)
        ensures
            r == has_call(self@, call@),
    {
        let mut i: usize = 0;
        while i < self.entries.len()
            invariant
                i <= self.entries.len(),
                forall|j: int| 0 <= j < i ==> (#[trigger] self@[j]).0 != call@,
            decreases self.entries.len() - i,
        {
            assert(self@[i as int] == entry_of(self.entries@[i as int]));
            if same(&chars_of(self.entries[i].call.as_str()), call) {
                return true;
            }
            i = i + 1;
        }
        false
    }

    /// Whether a digit is free.
    fn unused(&self, digit: usize) -> (r: bool)
        ensures
            r == is_free(self@, digit as int),
    {
        let mut i: usize = 0;
        while i < self.entries.len()
            invariant
                i <= self.entries.len(),
                forall|j: int| 0 <= j < i ==> (#[trigger] self@[j]).1 != digit,
            decreases self.entries.len() - i,
        {
            assert(self@[i as int] == entry_of(self.entries@[i as int]));
            if self.entries[i].digit == digit {
                return false;
            }
            i = i + 1;
        }
        true
    }
}

/// Deals the digits out anew at the slot boundary `current_slot_ms`: worked stations, and
/// those whose digit was dealt more than two slots ago, lose it; the strongest callers of
/// the last slot that are not worked get what is free, the lowest digit first.
pub fn update_cq_assignments(
    assignments: &mut CqAssignments,
    decodes: &Vec<Decode>,
    worked: &Vec<String>,
    current_slot_ms: i64,
    slot_ms: i64,
)
    requires
        old(assignments).wf(),
        i64::MIN <= slot_ms * 2 <= i64::MAX,
        i64::MIN <= current_slot_ms - slot_ms * 2 <= i64::MAX,
        i64::MIN <= current_slot_ms - slot_ms <= i64::MAX,
    ensures
        final(assignments)@ == redealt(
            old(assignments)@,
            decodes@,
            texts(worked@),
            current_slot_ms as int,
            slot_ms as int,
        ),
        final(assignments).wf(),
{
    let limit: i64 = current_slot_ms - slot_ms * 2;
    let ghost before = assignments@;
    let ghost out = texts(worked@);
    let mut left: CqAssignments = CqAssignments::new();
    let mut i: usize = 0;
    assert(left@ == kept(before.take(0), out, limit as int));
    while i < assignments.entries.len()
        invariant
            i <= assignments.entries.len(),
            before == assignments@,
            out == texts(worked@),
            left@ == kept(before.take(i as int), out, limit as int),
        decreases assignments.entries.len() - i,
    {
        let e: &CqEntry = &assignments.entries[i];
        assert(before[i as int] == entry_of(*e));
        assert(before.take(i + 1).drop_last() == before.take(i as int));
        let ghost done = left@;
        if !has_text(worked, &chars_of(e.call.as_str())) && e.assigned_ms >= limit {
            left.entries.push(
                CqEntry { call: e.call.clone(), digit: e.digit, assigned_ms: e.assigned_ms },
            );
            assert(left@ == done.push(before[i as int]));
        }
        i = i + 1;
    }
    assert(before.take(before.len() as int) == before);
    let ghost k = left@;

    let mut free: Vec<usize> = Vec::new();
    let mut d: usize = 0;
    while d < DIGITS
        invariant
            d <= DIGITS,
            k == left@,
            free@.map_values(|x: usize| x as int) == free_digits(k, d as int),
        decreases DIGITS - d,
    {
        let ghost done = free@.map_values(|x: usize| x as int);
        if left.unused(d) {
            free.push(d);
            assert(free@.map_values(|x: usize| x as int) == done.push(d as int));
        }
        d = d + 1;
    }
    let ghost room = free_digits(k, DIGITS as int);

    let rs: Vec<(Vec<char>, i32)> = rank_callers(decodes, current_slot_ms - slot_ms);
    let ghost rv = rank_views(rs@);
    let mut calls: Vec<Vec<char>> = Vec::new();
    let mut n: usize = 0;
    while n < rs.len()
        invariant
            n <= rs.len(),
            rv == rank_views(rs@),
            k == left@,
            out == texts(worked@),
            crate::text::views(calls@) == picks(rv, n as int, k, out),
        decreases rs.len() - n,
    {
        let call: &Vec<char> = &rs[n].0;
        assert(rv[n as int].0 == call@);
        let ghost done = crate::text::views(calls@);
        if !has_text(worked, call) && !left.has(call) && !has_chars(&calls, call) {
            calls.push(crate::text::copied(call));
            assert(crate::text::views(calls@) == done.push(call@));
        }
        n = n + 1;
    }
    let ghost picked = crate::text::views(calls@);
    proof {
        lemma_redealt_ok(before, decodes@, out, current_slot_ms as int, slot_ms as int);
    }

    let mut m: usize = 0;
    let ghost more = dealt(picked, room, current_slot_ms as int);
    assert(k + more.take(0) == k);
    while m < calls.len() && m < free.len()
        invariant
            m <= calls.len(),
            m <= free.len(),
            picked == crate::text::views(calls@),
            free@.map_values(|x: usize| x as int) == room,
            more == dealt(picked, room, current_slot_ms as int),
            left@ == k + more.take(m as int),
        decreases calls.len() - m,
    {
        let ghost done = left@;
        left.entries.push(
            CqEntry {
                call: crate::text::string_of(&calls[m]),
                digit: free[m],
                assigned_ms: current_slot_ms,
            },
        );
        assert(picked[m as int] == calls@[m as int]@);
        assert(room[m as int] == free@[m as int]);
        assert(left@ == done.push(more[m as int]));
        assert(more.take(m + 1) == more.take(m as int).push(more[m as int]));
        m = m + 1;
    }
    assert(more.take(more.len() as int) == more);
    *assignments = left;
}

/// Those that keep their digit are among those that had one, and they are not worked and
/// not too old.
proof fn lemma_kept(a: Seq<(Seq<char>, int, int)>, worked: Seq<Seq<char>>, limit: int)
    requires
        dealt_ok(a),
    ensures
        dealt_ok(kept(a, worked, limit)),
        forall|i: int|
            0 <= i < kept(a, worked, limit).len() ==> a.contains(
                #[trigger] kept(a, worked, limit)[i],
            ) && !worked.contains(kept(a, worked, limit)[i].0) && kept(a, worked, limit)[i].2
                >= limit,
        forall|i: int|
            0 <= i < a.len() && !worked.contains((#[trigger] a[i]).0) && a[i].2 >= limit ==> kept(
                a,
                worked,
                limit,
            ).contains(a[i]),
    decreases a.len(),
{
    if a.len() > 0 {
        let f = a.drop_last();
        assert(dealt_ok(f)) by {
            assert forall|i: int, j: int| 0 <= i < j < f.len() implies (#[trigger] f[i]).0 != (
            #[trigger] f[j]).0 && f[i].1 != f[j].1 by {
                assert(f[i] == a[i] && f[j] == a[j]);
            }
            assert forall|i: int| 0 <= i < f.len() implies 0 <= (#[trigger] f[i]).1 < DIGITS by {
                assert(f[i] == a[i]);
            }
        }
        lemma_kept(f, worked, limit);
        let kf = kept(f, worked, limit);
        let k = kept(a, worked, limit);
        let last = a.len() - 1;
        assert forall|i: int| 0 <= i < k.len() implies a.contains(#[trigger] k[i])
            && !worked.contains(k[i].0) && k[i].2 >= limit by {
            if i < kf.len() {
                assert(k[i] == kf[i]);
                let x = choose|x: int| 0 <= x < f.len() && f[x] == kf[i];
                assert(a[x] == kf[i]);
            } else {
                assert(k[i] == a[last]);
            }
        }
        assert forall|i: int, j: int| 0 <= i < j < k.len() implies (#[trigger] k[i]).0 != (
        #[trigger] k[j]).0 && k[i].1 != k[j].1 by {
            assert(k[i] == kf[i]);
            if j < kf.len() {
                assert(k[j] == kf[j]);
            } else {
                let x = choose|x: int| 0 <= x < f.len() && f[x] == kf[i];
                assert(a[x] == kf[i]);
                assert(k[j] == a[last]);
            }
        }
        assert forall|i: int| 0 <= i < k.len() implies 0 <= (#[trigger] k[i]).1 < DIGITS by {
            let x = choose|x: int| 0 <= x < a.len() && a[x] == k[i];
            assert(a.contains(k[i]));
        }
        assert forall|i: int|
            0 <= i < a.len() && !worked.contains((#[trigger] a[i]).0) && a[i].2
                >= limit implies k.contains(a[i]) by {
            if i < last {
                assert(f[i] == a[i]);
                let x = choose|x: int| 0 <= x < kf.len() && kf[x] == a[i];
                assert(k[x] == a[i]);
            } else {
                assert(k[k.len() - 1] == a[i]);
            }
        }
    }
}

/// The free digits are free, each there once, from the lowest on.
proof fn lemma_free(a: Seq<(Seq<char>, int, int)>, n: int)
    ensures
        forall|i: int|
            0 <= i < free_digits(a, n).len() ==> 0 <= #[trigger] free_digits(a, n)[i] < n
                && is_free(a, free_digits(a, n)[i]),
        forall|i: int, j: int|
            0 <= i < j < free_digits(a, n).len() ==> #[trigger] free_digits(a, n)[i]
                < #[trigger] free_digits(a, n)[j],
        forall|d: int| 0 <= d < n && is_free(a, d) ==> #[trigger] free_digits(a, n).contains(d),
    decreases n,
{
    if n > 0 {
        lemma_free(a, n - 1);
        let f = free_digits(a, n - 1);
        let g = free_digits(a, n);
        assert forall|i: int, j: int| 0 <= i < j < g.len() implies #[trigger] g[i]
            < #[trigger] g[j] by {
            assert(g[i] == f[i]);
            if j < f.len() {
                assert(g[j] == f[j]);
            }
        }
        assert forall|d: int| 0 <= d < n && is_free(a, d) implies #[trigger] g.contains(d) by {
            if d < n - 1 {
                assert(f.contains(d));
                let x = choose|x: int| 0 <= x < f.len() && f[x] == d;
                assert(g[x] == d);
            } else {
                assert(g[g.len() - 1] == d);
            }
        }
    }
}

/// The calls that are to have a digit are not worked, have none yet, and are there once.
proof fn lemma_picks(
    rs: Seq<(Seq<char>, int)>,
    n: int,
    a: Seq<(Seq<char>, int, int)>,
    worked: Seq<Seq<char>>,
)
    ensures
        forall|i: int|
            0 <= i < picks(rs, n, a, worked).len() ==> !worked.contains(
                #[trigger] picks(rs, n, a, worked)[i],
            ) && !has_call(a, picks(rs, n, a, worked)[i]),
        forall|i: int, j: int|
            0 <= i < j < picks(rs, n, a, worked).len() ==> #[trigger] picks(rs, n, a, worked)[i]
                != #[trigger] picks(rs, n, a, worked)[j],
    decreases n,
{
    if n > 0 {
        lemma_picks(rs, n - 1, a, worked);
        let f = picks(rs, n - 1, a, worked);
        let g = picks(rs, n, a, worked);
        assert forall|i: int| 0 <= i < g.len() implies !worked.contains(#[trigger] g[i])
            && !has_call(a, g[i]) by {
            if i < f.len() {
                assert(g[i] == f[i]);
            }
        }
        assert forall|i: int, j: int| 0 <= i < j < g.len() implies #[trigger] g[i]
            != #[trigger] g[j] by {
            assert(g[i] == f[i]);
            if j < f.len() {
                assert(g[j] == f[j]);
            } else {
                assert(f.contains(f[i]));
            }
        }
    }
}

/// After a slot boundary the digits are in order: no call and no digit is there twice.
proof fn lemma_redealt_ok(
    a: Seq<(Seq<char>, int, int)>,
    ds: Seq<Decode>,
    worked: Seq<Seq<char>>,
    now: int,
    slot: int,
)
    requires
        dealt_ok(a),
    ensures
        dealt_ok(redealt(a, ds, worked, now, slot)),
{
    let k = kept(a, worked, now - slot * 2);
    let cs = callers(ds, now - slot, ds.len() as int);
    let rs = ranked(cs, cs.len() as int);
    let p = picks(rs, rs.len() as int, k, worked);
    let f = free_digits(k, DIGITS as int);
    lemma_kept(a, worked, now - slot * 2);
    lemma_free(k, DIGITS as int);
    lemma_picks(rs, rs.len() as int, k, worked);
    let more = dealt(p, f, now);
    let r = k + more;
    assert forall|i: int, j: int| 0 <= i < j < r.len() implies (#[trigger] r[i]).0 != (
    #[trigger] r[j]).0 && r[i].1 != r[j].1 by {
        if j < k.len() {
            assert(r[i] == k[i] && r[j] == k[j]);
        } else {
            let y = j - k.len();
            assert(r[j] == (p[y], f[y], now));
            if i < k.len() {
                assert(r[i] == k[i]);
                assert(!has_call(k, p[y]));
                assert(is_free(k, f[y]));
            } else {
                let x = i - k.len();
                assert(r[i] == (p[x], f[x], now));
                assert(p[x] != p[y]);
                assert(f[x] < f[y]);
            }
        }
    }
    assert forall|i: int| 0 <= i < r.len() implies 0 <= (#[trigger] r[i]).1 < DIGITS by {
        if i < k.len() {
            assert(r[i] == k[i]);
        } else {
            let x = i - k.len();
            assert(r[i] == (p[x], f[x], now));
        }
    }
}

/// No digit stands for a worked station, and none was dealt more than two slots ago.
pub proof fn law_digits_are_live(
    a: Seq<(Seq<char>, int, int)>,
    ds: Seq<Decode>,
    worked: Seq<Seq<char>>,
    now: int,
    slot: int,
    i: int,
)
    requires
        dealt_ok(a),
        slot >= 0,
        0 <= i < redealt(a, ds, worked, now, slot).len(),
    ensures
        !worked.contains(redealt(a, ds, worked, now, slot)[i].0),
        redealt(a, ds, worked, now, slot)[i].2 >= now - slot * 2,
{
    let k = kept(a, worked, now - slot * 2);
    let cs = callers(ds, now - slot, ds.len() as int);
    let rs = ranked(cs, cs.len() as int);
    let p = picks(rs, rs.len() as int, k, worked);
    let f = free_digits(k, DIGITS as int);
    lemma_kept(a, worked, now - slot * 2);
    lemma_picks(rs, rs.len() as int, k, worked);
    let r = redealt(a, ds, worked, now, slot);
    if i < k.len() {
        assert(r[i] == k[i]);
    } else {
        let x = i - k.len();
        assert(r[i] == (p[x], f[x], now));
    }
}

/// A station that is neither worked nor too old keeps its digit at a slot boundary.
pub proof fn law_digits_stay(
    a: Seq<(Seq<char>, int, int)>,
    ds: Seq<Decode>,
    worked: Seq<Seq<char>>,
    now: int,
    slot: int,
    i: int,
)
    requires
        dealt_ok(a),
        0 <= i < a.len(),
        !worked.contains(a[i].0),
        a[i].2 >= now - slot * 2,
    ensures
        redealt(a, ds, worked, now, slot).contains(a[i]),
{
    let k = kept(a, worked, now - slot * 2);
    lemma_kept(a, worked, now - slot * 2);
    let x = choose|x: int| 0 <= x < k.len() && k[x] == a[i];
    assert(redealt(a, ds, worked, now, slot)[x] == a[i]);
}

/// A ranking goes from strong to weak.
pub proof fn law_ranking_is_sorted(cs: Seq<(Seq<char>, int)>, n: int)
    requires
        0 <= n <= cs.len(),
    ensures
        ranked(cs, n).len() == n,
        forall|i: int, j: int|
            0 <= i < j < n ==> (#[trigger] ranked(cs, n)[i]).1 >= (#[trigger] ranked(cs, n)[j]).1,
    decreases n,
{
    if n > 0 {
        law_ranking_is_sorted(cs, n - 1);
        let f = ranked(cs, n - 1);
        let e = cs[n - 1];
        lemma_place(f, e.1);
        let at = place(f, e.1);
        let g = f.insert(at, e);
        assert forall|i: int, j: int| 0 <= i < j < n implies (#[trigger] g[i]).1 >= (
        #[trigger] g[j]).1 by {
            if j < at {
                assert(g[i] == f[i] && g[j] == f[j]);
            } else if j == at {
                assert(g[i] == f[i]);
            } else if i < at {
                assert(g[i] == f[i] && g[j] == f[j - 1]);
            } else if i == at {
                assert(g[j] == f[j - 1]);
                assert(f[at].1 < e.1);
                if j - 1 > at {
                    assert(f[at].1 >= f[j - 1].1);
                }
            } else {
                assert(g[i] == f[i - 1] && g[j] == f[j - 1]);
            }
        }
    }
}

/// Of callers that are equally strong the one that was decoded first ranks first: a caller goes
/// behind all that are as strong, and before the first that is weaker.
pub proof fn law_equals_rank_as_decoded(cs: Seq<(Seq<char>, int)>, n: int)
    requires
        0 <= n < cs.len(),
    ensures
        exists|at: int|
            0 <= at <= n && ranked(cs, n + 1) == #[trigger] ranked(cs, n).insert(at, cs[n]) && (
            forall|i: int| 0 <= i < at ==> (#[trigger] ranked(cs, n)[i]).1 >= cs[n].1) && (
            forall|i: int| at <= i < n ==> (#[trigger] ranked(cs, n)[i]).1 < cs[n].1),
{
    law_ranking_is_sorted(cs, n);
    let f = ranked(cs, n);
    let at = place(f, cs[n].1);
    lemma_place(f, cs[n].1);
    assert forall|i: int| at <= i < n implies (#[trigger] f[i]).1 < cs[n].1 by {
        if i > at {
            assert(f[at].1 >= f[i].1);
        }
    }
    assert(ranked(cs, n + 1) == f.insert(at, cs[n]));
}

/// A ranking holds the callers that were ranked and no others.
pub proof fn law_ranking_keeps_callers(cs: Seq<(Seq<char>, int)>, n: int, c: (Seq<char>, int))
    requires
        0 <= n <= cs.len(),
    ensures
        ranked(cs, n).contains(c) <==> cs.take(n).contains(c),
    decreases n,
{
    if n > 0 {
        law_ranking_keeps_callers(cs, n - 1, c);
        law_ranking_is_sorted(cs, n - 1);
        let f = ranked(cs, n - 1);
        let e = cs[n - 1];
        lemma_place(f, e.1);
        let at = place(f, e.1);
        let g = f.insert(at, e);
        let t = cs.take(n);
        let u = cs.take(n - 1);
        assert(g[at] == e);
        assert(t[n - 1] == e);
        if f.contains(c) {
            let x = choose|x: int| 0 <= x < f.len() && f[x] == c;
            if x < at {
                assert(g[x] == c);
            } else {
                assert(g[x + 1] == c);
            }
        }
        if g.contains(c) {
            let x = choose|x: int| 0 <= x < g.len() && g[x] == c;
            if x < at {
                assert(f[x] == c);
            } else if x > at {
                assert(f[x - 1] == c);
            }
        }
        if u.contains(c) {
            let x = choose|x: int| 0 <= x < u.len() && u[x] == c;
            assert(t[x] == c);
        }
        if t.contains(c) {
            let x = choose|x: int| 0 <= x < t.len() && t[x] == c;
            if x < n - 1 {
                assert(u[x] == c);
            }
        }
    } else {
        assert(cs.take(0).len() == 0);
    }
}

/// The digit that a call has.
pub open spec fn digit_of(a: Seq<(Seq<char>, int, int)>, call: Seq<char>) -> Option<int>
    decreases a.len(),
{
    if a.len() == 0 {
        None
    } else if a.last().0 == call {
        Some(a.last().1)
    } else {
        digit_of(a.drop_last(), call)
    }
}

/// A call without a digit has none, and every digit that is found was dealt to the call.
pub proof fn law_no_digit_from_nowhere(a: Seq<(Seq<char>, int, int)>, call: Seq<char>)
    ensures
        digit_of(a, call) is None <==> !has_call(a, call),
        digit_of(a, call) matches Some(d) ==> exists|i: int|
            0 <= i < a.len() && (#[trigger] a[i]).0 == call && a[i].1 == d,
    decreases a.len(),
{
    if a.len() > 0 {
        let f = a.drop_last();
        law_no_digit_from_nowhere(f, call);
        if a.last().0 == call {
            assert(a[a.len() - 1].0 == call);
        } else if has_call(f, call) {
            let i = choose|i: int|
                0 <= i < f.len() && (#[trigger] f[i]).0 == call && Some(f[i].1) == digit_of(f, call);
            assert(a[i] == f[i]);
        } else if has_call(a, call) {
            let i = choose|i: int| 0 <= i < a.len() && (#[trigger] a[i]).0 == call;
            assert(f[i].0 == call);
        }
    }
}

/// A call has the digit that it was dealt.
pub proof fn law_digit_of(a: Seq<(Seq<char>, int, int)>, i: int)
    requires
        dealt_ok(a),
        0 <= i < a.len(),
    ensures
        digit_of(a, a[i].0) == Some(a[i].1),
    decreases a.len(),
{
    if i < a.len() - 1 {
        let f = a.drop_last();
        assert forall|x: int, y: int| 0 <= x < y < f.len() implies (#[trigger] f[x]).0 != (
        #[trigger] f[y]).0 && f[x].1 != f[y].1 by {
            assert(f[x] == a[x] && f[y] == a[y]);
        }
        assert forall|x: int| 0 <= x < f.len() implies 0 <= (#[trigger] f[x]).1 < DIGITS by {
            assert(f[x] == a[x]);
        }
        law_digit_of(f, i);
        assert(a[i].0 != a[a.len() - 1].0);
    }
}

impl CqAssignments {
    /// The digit that a call has, in whatever case the call is written.
    pub fn digit(&self, call: &str) -> (r: Option<usize>)
        requires
            self.wf(),
        ensures
            match r {
                Some(d) => digit_of(self@, crate::text::ascii_upper(call@)) == Some(d as int)
                    && d < DIGITS,
                None => digit_of(self@, crate::text::ascii_upper(call@)) is None,
            },
    {
        let upper: Vec<char> = upper_text(&chars_of(call));
        let mut n: usize = self.entries.len();
        assert(self@.take(n as int) == self@);
        while n > 0
            invariant
                n <= self.entries.len(),
                self.wf(),
                upper@ == crate::text::ascii_upper(call@),
                digit_of(self@, upper@) == digit_of(self@.take(n as int), upper@),
            decreases n,
        {
            assert(self@[n - 1] == entry_of(self.entries@[n - 1]));
            assert(self@.take(n as int).drop_last() == self@.take(n - 1));
            assert(self@.take(n as int).last() == self@[n - 1]);
            if same(&chars_of(self.entries[n - 1].call.as_str()), &upper) {
                return Some(self.entries[n - 1].digit);
            }
            n = n - 1;
        }
        assert(self@.take(0).len() == 0);
        None
    }
}

/// The strongest of the first `n` decodes that calls CQ under digit `k`; the first of
/// those of one strength.
pub open spec fn best_under(
    a: Seq<(Seq<char>, int, int)>,
    ds: Seq<Decode>,
    n: int,
    k: int,
) -> Option<int>
    decreases n,
{
    if n <= 0 {
        None
    } else {
        let d = ds[n - 1];
        let front = best_under(a, ds, n - 1, k);
        if super::render::calls_cq(d) && digit_of(a, upper_call(d)) == Some(k) {
            match front {
                Some(j) => if strength(d.snr_db) > strength(ds[j].snr_db) {
                    Some(n - 1)
                } else {
                    Some(j)
                },
                None => Some(n - 1),
            }
        } else {
            front
        }
    }
}

/// The decode that a digit stands for.
pub open spec fn under_digit(a: Seq<(Seq<char>, int, int)>, ds: Seq<Decode>, k: int) -> Option<
    Decode,
> {
    match best_under(a, ds, ds.len() as int, k) {
        Some(j) => Some(ds[j]),
        None => None,
    }
}

/// The strongest decode under a digit is one of those that were looked at.
proof fn lemma_best(a: Seq<(Seq<char>, int, int)>, ds: Seq<Decode>, n: int, k: int)
    requires
        n <= ds.len(),
    ensures
        best_under(a, ds, n, k) matches Some(j) ==> 0 <= j < n && super::render::calls_cq(ds[j])
            && digit_of(a, upper_call(ds[j])) == Some(k),
    decreases n,
{
    if n > 0 {
        lemma_best(a, ds, n - 1, k);
    }
}

/// The decodes that the digits stand for, one place for each digit.
pub fn shortcuts(assignments: &CqAssignments, decodes: &Vec<Decode>) -> (r: Vec<Option<Decode>>)
    requires
        assignments.wf(),
    ensures
        r@.len() == DIGITS,
        forall|k: int|
            0 <= k < DIGITS ==> #[trigger] r@[k] == under_digit(assignments@, decodes@, k),
{
    let mut best: Vec<Option<usize>> = Vec::new();
    let mut k: usize = 0;
    while k < DIGITS
        invariant
            k <= DIGITS,
            best@.len() == k,
            forall|x: int| 0 <= x < k ==> (#[trigger] best@[x]) is None,
        decreases DIGITS - k,
    {
        best.push(None);
        k = k + 1;
    }
    let ghost a = assignments@;
    let mut i: usize = 0;
    while i < decodes.len()
        invariant
            i <= decodes.len(),
            a == assignments@,
            assignments.wf(),
            best@.len() == DIGITS,
            forall|x: int|
                0 <= x < DIGITS ==> match #[trigger] best@[x] {
                    Some(j) => best_under(a, decodes@, i as int, x) == Some(j as int) && j < i,
                    None => best_under(a, decodes@, i as int, x) is None,
                },
        decreases decodes.len() - i,
    {
        let d: &Decode = &decodes[i];
        let ghost before = best@;
        let mut place: Option<usize> = None;
        if is_cq(d) {
            match decode_station(d) {
                Some((call, _)) => {
                    place = assignments.digit(call.as_str());
                },
                None => {},
            }
        }
        match place {
            Some(x) => {
                assert(super::render::calls_cq(*d) && digit_of(a, upper_call(*d)) == Some(
                    x as int,
                ));
                let better: bool = match best[x] {
                    Some(j) => strength_of(d.snr_db) > strength_of(decodes[j].snr_db),
                    None => true,
                };
                if better {
                    best.set(x, Some(i));
                }
            },
            None => {
                assert(!(super::render::calls_cq(*d) && digit_of(a, upper_call(*d)) is Some));
            },
        }
        i = i + 1;
    }
    let mut r: Vec<Option<Decode>> = Vec::new();
    let mut m: usize = 0;
    while m < DIGITS
        invariant
            m <= DIGITS,
            a == assignments@,
            best@.len() == DIGITS,
            forall|x: int|
                0 <= x < DIGITS ==> match #[trigger] best@[x] {
                    Some(j) => best_under(a, decodes@, decodes@.len() as int, x) == Some(j as int)
                        && j < decodes@.len(),
                    None => best_under(a, decodes@, decodes@.len() as int, x) is None,
                },
            r@.len() == m,
            forall|x: int| 0 <= x < m ==> #[trigger] r@[x] == under_digit(a, decodes@, x),
        decreases DIGITS - m,
    {
        let one: Option<Decode> = match best[m] {
            Some(j) => Some(decodes[j].clone()),
            None => None,
        };
        assert(one == under_digit(a, decodes@, m as int));
        r.push(one);
        m = m + 1;
    }
    r
}

/// What stands under a digit is a CQ from the station that has the digit.
pub proof fn law_digit_calls_cq(a: Seq<(Seq<char>, int, int)>, ds: Seq<Decode>, k: int)
    requires
        under_digit(a, ds, k) is Some,
    ensures
        super::render::calls_cq(under_digit(a, ds, k)->Some_0),
        digit_of(a, upper_call(under_digit(a, ds, k)->Some_0)) == Some(k),
{
    lemma_best(a, ds, ds.len() as int, k);
}

/// A report beats a weaker one by any number of decibels, above and below zero alike; and
/// any report beats none.
pub proof fn law_stronger_report_ranks_higher(a: i8, b: i8)
    ensures
        a > b ==> strength(Some(a)) > strength(Some(b)),
        strength(Some(a)) > strength(None),
{
}

/// Whether one report is stronger than another.
pub open spec fn stronger(x: Option<i8>, y: Option<i8>) -> bool {
    match (x, y) {
        (Some(a), Some(b)) => a > b,
        (Some(_), None) => true,
        (None, _) => false,
    }
}

/// Whether a decode is a CQ of `caller`, heard at `cutoff` or later.
pub open spec fn called(d: Decode, caller: Seq<char>, cutoff: int) -> bool {
    match d.content {
        crate::types::DecodeContent::Slotted { message, .. } => match message {
            crate::types::ParsedMessage::Cq { caller: c, .. } => d.t_ms >= cutoff
                && crate::text::ascii_upper(c.0@) == caller,
            _ => false,
        },
        crate::types::DecodeContent::Streaming { .. } => false,
    }
}

/// Whether a call keeps the digit that it has at a slot boundary.
pub open spec fn stays(
    a: Seq<(Seq<char>, int, int)>,
    worked: Seq<Seq<char>>,
    now: int,
    slot: int,
    call: Seq<char>,
) -> bool {
    exists|i: int|
        0 <= i < a.len() && (#[trigger] a[i]).0 == call && !worked.contains(call) && a[i].2 >= now
            - 2 * slot
}

proof fn lemma_callers(ds: Seq<Decode>, cutoff: int, n: int)
    requires
        0 <= n <= ds.len(),
    ensures
        forall|i: int|
            0 <= i < n && super::render::calls_cq(#[trigger] ds[i]) && ds[i].t_ms >= cutoff
                ==> callers(ds, cutoff, n).contains((upper_call(ds[i]), strength(ds[i].snr_db))),
        forall|k: int|
            0 <= k < callers(ds, cutoff, n).len() ==> exists|i: int|
                0 <= i < n && super::render::calls_cq(#[trigger] ds[i]) && ds[i].t_ms >= cutoff
                    && #[trigger] callers(ds, cutoff, n)[k] == (
                    upper_call(ds[i]),
                    strength(ds[i].snr_db),
                ),
    decreases n,
{
    if n > 0 {
        lemma_callers(ds, cutoff, n - 1);
        let f = callers(ds, cutoff, n - 1);
        let g = callers(ds, cutoff, n);
        assert forall|i: int|
            0 <= i < n && super::render::calls_cq(#[trigger] ds[i]) && ds[i].t_ms
                >= cutoff implies g.contains((upper_call(ds[i]), strength(ds[i].snr_db))) by {
            let e = (upper_call(ds[i]), strength(ds[i].snr_db));
            if i < n - 1 {
                assert(f.contains(e));
                let x = choose|x: int| 0 <= x < f.len() && f[x] == e;
                assert(g[x] == e);
            } else {
                assert(g[g.len() - 1] == e);
            }
        }
        assert forall|k: int| 0 <= k < g.len() implies exists|i: int|
            0 <= i < n && super::render::calls_cq(#[trigger] ds[i]) && ds[i].t_ms >= cutoff
                && #[trigger] g[k] == (upper_call(ds[i]), strength(ds[i].snr_db)) by {
            if k < f.len() {
                assert(f[k] == g[k]);
                let i = choose|i: int|
                    0 <= i < n - 1 && super::render::calls_cq(#[trigger] ds[i]) && ds[i].t_ms
                        >= cutoff && f[k] == (upper_call(ds[i]), strength(ds[i].snr_db));
                assert(g[k] == (upper_call(ds[i]), strength(ds[i].snr_db)));
            } else {
                assert(g[k] == (upper_call(ds[n - 1]), strength(ds[n - 1].snr_db)));
            }
        }
    }
}

proof fn lemma_picked_from(
    rs: Seq<(Seq<char>, int)>,
    n: int,
    a: Seq<(Seq<char>, int, int)>,
    worked: Seq<Seq<char>>,
    k: int,
)
    requires
        0 <= n <= rs.len(),
        0 <= k < picks(rs, n, a, worked).len(),
    ensures
        exists|i: int| 0 <= i < n && (#[trigger] rs[i]).0 == picks(rs, n, a, worked)[k],
    decreases n,
{
    if n > 0 {
        let f = picks(rs, n - 1, a, worked);
        let g = picks(rs, n, a, worked);
        if k < f.len() {
            lemma_picked_from(rs, n - 1, a, worked, k);
            let i = choose|i: int| 0 <= i < n - 1 && (#[trigger] rs[i]).0 == f[k];
            assert(rs[i].0 == g[k]);
        } else {
            assert(rs[n - 1].0 == g[k]);
        }
    }
}

proof fn lemma_picks_grow(
    rs: Seq<(Seq<char>, int)>,
    n: int,
    m: int,
    a: Seq<(Seq<char>, int, int)>,
    worked: Seq<Seq<char>>,
)
    requires
        0 <= n <= m,
    ensures
        picks(rs, n, a, worked).len() <= picks(rs, m, a, worked).len(),
        forall|k: int|
            0 <= k < picks(rs, n, a, worked).len() ==> #[trigger] picks(rs, m, a, worked)[k]
                == picks(rs, n, a, worked)[k],
    decreases m,
{
    if n < m {
        lemma_picks_grow(rs, n, m - 1, a, worked);
    }
}

proof fn lemma_picked(
    rs: Seq<(Seq<char>, int)>,
    u: int,
    a: Seq<(Seq<char>, int, int)>,
    worked: Seq<Seq<char>>,
)
    requires
        0 <= u < rs.len(),
        !worked.contains(rs[u].0),
        !has_call(a, rs[u].0),
    ensures
        picks(rs, u + 1, a, worked).contains(rs[u].0),
{
    let f = picks(rs, u, a, worked);
    let g = picks(rs, u + 1, a, worked);
    if !f.contains(rs[u].0) {
        assert(g[g.len() - 1] == rs[u].0);
    }
}

proof fn lemma_stays(
    a: Seq<(Seq<char>, int, int)>,
    worked: Seq<Seq<char>>,
    now: int,
    slot: int,
    call: Seq<char>,
)
    requires
        dealt_ok(a),
    ensures
        has_call(kept(a, worked, now - slot * 2), call) <==> stays(a, worked, now, slot, call),
{
    lemma_kept(a, worked, now - slot * 2);
    let k = kept(a, worked, now - slot * 2);
    if has_call(k, call) {
        let x = choose|x: int| 0 <= x < k.len() && (#[trigger] k[x]).0 == call;
        assert(a.contains(k[x]));
        let i = choose|i: int| 0 <= i < a.len() && a[i] == k[x];
        assert(a[i].0 == call);
    }
    if stays(a, worked, now, slot, call) {
        let i = choose|i: int|
            0 <= i < a.len() && (#[trigger] a[i]).0 == call && !worked.contains(call) && a[i].2
                >= now - 2 * slot;
        assert(k.contains(a[i]));
        let x = choose|x: int| 0 <= x < k.len() && k[x] == a[i];
        assert(k[x].0 == call);
    }
}

/// Of two callers that are to be dealt a digit at a slot boundary, the one with the stronger
/// report gets the lower digit: if the weaker one, none of whose CQs in the last slot comes
/// up to the stronger one's, is dealt a digit, so is the stronger one, and a lower one.
pub proof fn law_stronger_caller_gets_lower_digit(
    a: Seq<(Seq<char>, int, int)>,
    ds: Seq<Decode>,
    worked: Seq<Seq<char>>,
    now: int,
    slot: int,
    i: int,
    strong: Seq<char>,
    weak: Seq<char>,
    digit: int,
)
    requires
        dealt_ok(a),
        0 <= i < ds.len(),
        called(ds[i], strong, now - slot),
        !worked.contains(strong),
        !stays(a, worked, now, slot, strong),
        !stays(a, worked, now, slot, weak),
        forall|j: int|
            0 <= j < ds.len() && called(#[trigger] ds[j], weak, now - slot) ==> stronger(
                ds[i].snr_db,
                ds[j].snr_db,
            ),
        redealt(a, ds, worked, now, slot).contains((weak, digit, now)),
    ensures
        exists|d: int|
            0 <= d < digit && #[trigger] redealt(a, ds, worked, now, slot).contains(
                (strong, d, now),
            ),
{
    let cutoff = now - slot;
    let k = kept(a, worked, now - slot * 2);
    let cs = callers(ds, cutoff, ds.len() as int);
    let rs = ranked(cs, cs.len() as int);
    let p = picks(rs, rs.len() as int, k, worked);
    let f = free_digits(k, DIGITS as int);
    let more = dealt(p, f, now);
    let r = redealt(a, ds, worked, now, slot);
    lemma_stays(a, worked, now, slot, strong);
    lemma_stays(a, worked, now, slot, weak);
    lemma_free(k, DIGITS as int);
    lemma_callers(ds, cutoff, ds.len() as int);
    law_ranking_is_sorted(cs, cs.len() as int);
    assert(cs.take(cs.len() as int) == cs);
    let e = (strong, strength(ds[i].snr_db));
    assert(upper_call(ds[i]) == strong);
    assert(cs.contains(e));
    law_ranking_keeps_callers(cs, cs.len() as int, e);
    let u = choose|u: int| 0 <= u < rs.len() && rs[u] == e;
    lemma_picked(rs, u, k, worked);
    let early = picks(rs, u + 1, k, worked);
    lemma_picks_grow(rs, u + 1, rs.len() as int, k, worked);
    let x = choose|x: int| 0 <= x < early.len() && early[x] == strong;
    assert(p[x] == strong);

    let z = choose|z: int| 0 <= z < r.len() && r[z] == (weak, digit, now);
    if z < k.len() {
        assert(r[z] == k[z]);
        assert(has_call(k, weak));
        assert(false);
    }
    let y = z - k.len();
    assert(r[z] == more[y]);
    assert(p[y] == weak && f[y] == digit);
    if y < early.len() {
        assert(early[y] == weak);
        lemma_picked_from(rs, u + 1, k, worked, y);
        let v = choose|v: int| 0 <= v < u + 1 && (#[trigger] rs[v]).0 == early[y];
        assert(rs.contains(rs[v]));
        law_ranking_keeps_callers(cs, cs.len() as int, rs[v]);
        let w = choose|w: int| 0 <= w < cs.len() && cs[w] == rs[v];
        let j = choose|j: int|
            0 <= j < ds.len() && super::render::calls_cq(#[trigger] ds[j]) && ds[j].t_ms >= cutoff
                && cs[w] == (upper_call(ds[j]), strength(ds[j].snr_db));
        assert(called(ds[j], weak, cutoff));
        assert(stronger(ds[i].snr_db, ds[j].snr_db));
        assert(rs[v].1 < rs[u].1);
        if v < u {
            assert(rs[v].1 >= rs[u].1);
        }
        assert(false);
    }
    assert(x < y);
    assert(more[x] == (strong, f[x], now));
    assert(r[k.len() + x] == more[x]);
    assert(f[x] < f[y]);
    assert(r.contains((strong, f[x], now)));
}

/// A digit that is dealt at a slot boundary goes to a caller of the last slot that was not
/// worked and has none.
pub proof fn law_digits_go_to_callers(
    a: Seq<(Seq<char>, int, int)>,
    ds: Seq<Decode>,
    worked: Seq<Seq<char>>,
    now: int,
    slot: int,
    i: int,
)
    requires
        dealt_ok(a),
        0 <= i < redealt(a, ds, worked, now, slot).len(),
    ensures
        ({
            let e = redealt(a, ds, worked, now, slot)[i];
            ||| a.contains(e)
            ||| {
                &&& e.2 == now
                &&& !worked.contains(e.0)
                &&& !stays(a, worked, now, slot, e.0)
                &&& exists|j: int| 0 <= j < ds.len() && called(#[trigger] ds[j], e.0, now - slot)
            }
        }),
{
    let cutoff = now - slot;
    let k = kept(a, worked, now - slot * 2);
    let cs = callers(ds, cutoff, ds.len() as int);
    let rs = ranked(cs, cs.len() as int);
    let p = picks(rs, rs.len() as int, k, worked);
    let r = redealt(a, ds, worked, now, slot);
    let e = r[i];
    lemma_kept(a, worked, now - slot * 2);
    lemma_picks(rs, rs.len() as int, k, worked);
    lemma_callers(ds, cutoff, ds.len() as int);
    law_ranking_is_sorted(cs, cs.len() as int);
    assert(cs.take(cs.len() as int) == cs);
    if i < k.len() {
        assert(e == k[i]);
    } else {
        let x = i - k.len();
        assert(e.0 == p[x] && e.2 == now);
        lemma_stays(a, worked, now, slot, e.0);
        lemma_picked_from(rs, rs.len() as int, k, worked, x);
        let v = choose|v: int| 0 <= v < rs.len() && (#[trigger] rs[v]).0 == p[x];
        assert(rs.contains(rs[v]));
        law_ranking_keeps_callers(cs, cs.len() as int, rs[v]);
        let w = choose|w: int| 0 <= w < cs.len() && cs[w] == rs[v];
        let j = choose|j: int|
            0 <= j < ds.len() && super::render::calls_cq(#[trigger] ds[j]) && ds[j].t_ms >= cutoff
                && cs[w] == (upper_call(ds[j]), strength(ds[j].snr_db));
        assert(called(ds[j], e.0, cutoff));
    }
}

/// A caller of the last slot that was not worked goes without a digit only where all ten
/// are taken.
pub proof fn law_no_digit_is_wasted(
    a: Seq<(Seq<char>, int, int)>,
    ds: Seq<Decode>,
    worked: Seq<Seq<char>>,
    now: int,
    slot: int,
    i: int,
    call: Seq<char>,
    digit: int,
)
    requires
        dealt_ok(a),
        0 <= i < ds.len(),
        called(ds[i], call, now - slot),
        !worked.contains(call),
        !has_call(redealt(a, ds, worked, now, slot), call),
        0 <= digit < 10,
    ensures
        !is_free(redealt(a, ds, worked, now, slot), digit),
{
    let cutoff = now - slot;
    let k = kept(a, worked, now - slot * 2);
    let cs = callers(ds, cutoff, ds.len() as int);
    let rs = ranked(cs, cs.len() as int);
    let p = picks(rs, rs.len() as int, k, worked);
    let f = free_digits(k, DIGITS as int);
    let more = dealt(p, f, now);
    let r = redealt(a, ds, worked, now, slot);
    lemma_free(k, DIGITS as int);
    lemma_callers(ds, cutoff, ds.len() as int);
    law_ranking_is_sorted(cs, cs.len() as int);
    assert(cs.take(cs.len() as int) == cs);
    let e = (call, strength(ds[i].snr_db));
    assert(upper_call(ds[i]) == call);
    assert(cs.contains(e));
    law_ranking_keeps_callers(cs, cs.len() as int, e);
    let u = choose|u: int| 0 <= u < rs.len() && rs[u] == e;
    if has_call(k, call) {
        let x = choose|x: int| 0 <= x < k.len() && (#[trigger] k[x]).0 == call;
        assert(r[x].0 == call);
    }
    lemma_picked(rs, u, k, worked);
    let early = picks(rs, u + 1, k, worked);
    lemma_picks_grow(rs, u + 1, rs.len() as int, k, worked);
    let x = choose|x: int| 0 <= x < early.len() && early[x] == call;
    assert(p[x] == call);
    if x < f.len() {
        assert(more[x].0 == call);
        assert(r[k.len() + x] == more[x]);
        assert(false);
    }
    if is_free(r, digit) {
        assert forall|z: int| 0 <= z < k.len() implies (#[trigger] k[z]).1 != digit by {
            assert(r[z] == k[z]);
        }
        assert(is_free(k, digit));
        assert(f.contains(digit));
        let y = choose|y: int| 0 <= y < f.len() && f[y] == digit;
        assert(more[y].1 == digit);
        assert(r[k.len() + y] == more[y]);
        assert(false);
    }
}

/// The free digits are dealt from the lowest on: none stays free below one that is newly
/// dealt.
pub proof fn law_lowest_digits_go_first(
    a: Seq<(Seq<char>, int, int)>,
    ds: Seq<Decode>,
    worked: Seq<Seq<char>>,
    now: int,
    slot: int,
    i: int,
    lower: int,
)
    requires
        dealt_ok(a),
        0 <= i < redealt(a, ds, worked, now, slot).len(),
        !a.contains(redealt(a, ds, worked, now, slot)[i]),
        0 <= lower < redealt(a, ds, worked, now, slot)[i].1,
    ensures
        !is_free(redealt(a, ds, worked, now, slot), lower),
{
    let cutoff = now - slot;
    let k = kept(a, worked, now - slot * 2);
    let cs = callers(ds, cutoff, ds.len() as int);
    let rs = ranked(cs, cs.len() as int);
    let p = picks(rs, rs.len() as int, k, worked);
    let f = free_digits(k, DIGITS as int);
    let more = dealt(p, f, now);
    let r = redealt(a, ds, worked, now, slot);
    lemma_kept(a, worked, now - slot * 2);
    lemma_free(k, DIGITS as int);
    if i < k.len() {
        assert(r[i] == k[i]);
        assert(false);
    }
    let x = i - k.len();
    assert(r[i] == more[x]);
    assert(f[x] == r[i].1);
    if is_free(r, lower) {
        assert forall|z: int| 0 <= z < k.len() implies (#[trigger] k[z]).1 != lower by {
            assert(r[z] == k[z]);
        }
        assert(is_free(k, lower));
        assert(f.contains(lower));
        let y = choose|y: int| 0 <= y < f.len() && f[y] == lower;
        if y >= x {
            assert(f[y] >= f[x]);
        }
        assert(more[y].1 == lower);
        assert(r[k.len() + y] == more[y]);
        assert(false);
    }
}

/// Under a digit stands the strongest CQ of the station that has it: no other CQ of that
/// station has a stronger report. Nothing stands under it only where the station was not
/// heard to call.
pub proof fn law_strongest_call_under_digit(
    a: Seq<(Seq<char>, int, int)>,
    ds: Seq<Decode>,
    i: int,
    k: int,
    cutoff: int,
)
    requires
        dealt_ok(a),
        0 <= i < ds.len(),
        0 <= k < a.len(),
        called(ds[i], a[k].0, cutoff),
    ensures
        under_digit(a, ds, a[k].1) matches Some(d) && !stronger(ds[i].snr_db, d.snr_db) && exists|
            j: int,
        | 0 <= j < ds.len() && #[trigger] ds[j] == d,
{
    law_digit_of(a, k);
    lemma_best(a, ds, ds.len() as int, a[k].1);
    lemma_best_is_strongest(a, ds, ds.len() as int, a[k].1, i);
}

proof fn lemma_best_is_strongest(
    a: Seq<(Seq<char>, int, int)>,
    ds: Seq<Decode>,
    n: int,
    k: int,
    i: int,
)
    requires
        0 <= i < n <= ds.len(),
        super::render::calls_cq(ds[i]),
        digit_of(a, upper_call(ds[i])) == Some(k),
    ensures
        best_under(a, ds, n, k) matches Some(j) && strength(ds[i].snr_db) <= strength(ds[j].snr_db),
    decreases n,
{
    if i < n - 1 {
        lemma_best_is_strongest(a, ds, n - 1, k, i);
    }
}

/// The position of the digit on a key: 1 to 9, then 0.
pub open spec fn key_index(c: char) -> Option<int> {
    if '1' as int <= c as int <= '9' as int {
        Some(c as int - '1' as int)
    } else if c == '0' {
        Some(9)
    } else {
        None
    }
}

/// The ten digits lie on the keys in the order of a keyboard: each of the keys 1 to 9 is one
/// position before the next, and 0 comes after 9.
pub proof fn law_digit_keys(c: char, d: char)
    ensures
        key_index('1') == Some(0int),
        '1' as int <= c as int <= '8' as int && d as int == c as int + 1 ==> key_index(d) == Some(
            key_index(c)->Some_0 + 1,
        ) && key_index(c) is Some,
        key_index('0') == Some(key_index('9')->Some_0 + 1),
        key_index(c) is Some <==> '0' as int <= c as int <= '9' as int,
{
}

/// The position of the digit on a key: `1` is the first and `0` the last.
pub fn digit_key_index(c: char) -> (r: Option<usize>)
    ensures
        match r {
            Some(i) => key_index(c) == Some(i as int) && i < DIGITS,
            None => key_index(c) is None,
        },
{
    match c {
        '1' => Some(0),
        '2' => Some(1),
        '3' => Some(2),
        '4' => Some(3),
        '5' => Some(4),
        '6' => Some(5),
        '7' => Some(6),
        '8' => Some(7),
        '9' => Some(8),
        '0' => Some(9),
        _ => None,
    }
}

/// The digit that is shown at a position.
pub fn digit_badge(i: usize) -> (c: char)
    requires
        i < DIGITS,
    ensures
        key_index(c) == Some(i as int),
{
    match i {
        0 => '1',
        1 => '2',
        2 => '3',
        3 => '4',
        4 => '5',
        5 => '6',
        6 => '7',
        7 => '8',
        8 => '9',
        _ => '0',
    }
}

} // verus!
