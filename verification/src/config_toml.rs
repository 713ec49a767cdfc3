//! The `config.toml` codec: a reader for single values of a table and a writer that
//! rewrites a table while keeping comments and every other line.
//!
//! This is not a full TOML parser. A line is read up to its first `#`; a table header
//! stands alone in square brackets; every value is one line of quoted text.

use vstd::prelude::*;
use vstd::slice::slice_subrange;

use crate::numbers::parse_number;
use crate::text::{
    append, chars_of, copied, join_lines, part_before, position, same, same_str, split_lines,
    string_of, trimmed, trimmed_back, trimmed_both, Fringe,
};

verus! {

/// What a line of the file is, once its comment is cut off.
pub enum Line {
    /// A blank line, a comment, or text that is neither a header nor an entry.
    Other,
    /// The header of the table of that name.
    Header(Seq<char>),
    /// A key and the text after the equals sign.
    Entry(Seq<char>, Seq<char>),
}

/// A line without its comment and the space around what is left.
pub open spec fn code(line: Seq<char>) -> Seq<char> {
    crate::text::trim(crate::text::before(line, '#'))
}

/// What a line is.
pub open spec fn kind(line: Seq<char>) -> Line {
    let c = code(line);
    if c.len() >= 2 && c[0] == '[' && c.last() == ']' {
        Line::Header(crate::text::trim(c.subrange(1, c.len() - 1)))
    } else if crate::text::find(c, '=') < c.len() {
        Line::Entry(
            crate::text::trim(crate::text::before(c, '=')),
            crate::text::after(c, '='),
        )
    } else {
        Line::Other
    }
}

/// Whether what follows `ls` stands in `table`, when `start` says so of what stands
/// before `ls`.
pub open spec fn inside(start: bool, ls: Seq<Seq<char>>, table: Seq<char>) -> bool
    decreases ls.len(),
{
    if ls.len() == 0 {
        start
    } else {
        match kind(ls.last()) {
            Line::Header(t) => t == table,
            _ => inside(start, ls.drop_last(), table),
        }
    }
}

/// The text after the equals sign in the first entry of `table` for `key`.
pub open spec fn lookup(
    start: bool,
    ls: Seq<Seq<char>>,
    table: Seq<char>,
    key: Seq<char>,
) -> Option<Seq<char>>
    decreases ls.len(),
{
    if ls.len() == 0 {
        None
    } else {
        match lookup(start, ls.drop_last(), table, key) {
            Some(v) => Some(v),
            None => match kind(ls.last()) {
                Line::Entry(k, v) => if inside(start, ls.drop_last(), table) && k == key {
                    Some(v)
                } else {
                    None
                },
                _ => None,
            },
        }
    }
}

/// The value that the text after an equals sign stands for: without the space around it,
/// its quotes, and the space within them. Nothing left counts as unset.
pub open spec fn clean(v: Seq<char>) -> Option<Seq<char>> {
    let w = crate::text::trim(crate::text::trim_both(crate::text::trim(v), Fringe::Is('"')));
    if w.len() == 0 {
        None
    } else {
        Some(w)
    }
}

/// The value of `key` in `table`, or `None` when it is unset.
pub open spec fn table_value(text: Seq<char>, table: Seq<char>, key: Seq<char>) -> Option<
    Seq<char>,
> {
    match lookup(false, crate::text::lines(text), table, key) {
        Some(v) => clean(v),
        None => None,
    }
}

/// The view of an optional text.
pub open spec fn text_of(o: Option<String>) -> Option<Seq<char>> {
    match o {
        Some(s) => Some(s@),
        None => None,
    }
}

/// A line with its comment cut off and its space trimmed.
fn code_of<'a>(line: &'a [char]) -> (r: &'a [char])
    ensures
        r@ == code(line@),
{
    trimmed(part_before(line, '#'))
}

/// The table name that a line without its comment heads, if it is a header.
fn header_of<'a>(code: &'a [char]) -> (r: Option<&'a [char]>)
    ensures
        match r {
            Some(t) => code@.len() >= 2 && code@[0] == '[' && code@.last() == ']' && t@
                == crate::text::trim(code@.subrange(1, code@.len() - 1)),
            None => !(code@.len() >= 2 && code@[0] == '[' && code@.last() == ']'),
        },
{
    let n: usize = code.len();
    if n >= 2 && code[0] == '[' && code[n - 1] == ']' {
        Some(trimmed(slice_subrange(code, 1, n - 1)))
    } else {
        None
    }
}

/// Reads a single value of `table`. An empty value counts as unset.
pub fn parse_table_value(text: &str, table: &str, key: &str) -> (r: Option<String>)
    ensures
        text_of(r) == table_value(text@, table@, key@),
{
    let t: Vec<char> = chars_of(text);
    let ls: Vec<Vec<char>> = split_lines(&t);
    let table_name: Vec<char> = chars_of(table);
    let key_name: Vec<char> = chars_of(key);
    let ghost all = crate::text::views(ls@);
    let mut in_table: bool = false;
    let mut i: usize = 0;
    while i < ls.len()
        invariant
            i <= ls.len(),
            all == crate::text::views(ls@),
            all == crate::text::lines(text@),
            table_name@ == table@,
            key_name@ == key@,
            in_table == inside(false, all.take(i as int), table@),
            lookup(false, all.take(i as int), table@, key@) is None,
        decreases ls.len() - i,
    {
        let code: &[char] = code_of(&ls[i]);
        let ghost upto = all.take(i + 1);
        assert(upto.drop_last() == all.take(i as int));
        assert(upto.last() == ls@[i as int]@);
        match header_of(code) {
            Some(name) => {
                in_table = same(name, &table_name);
            },
            None => {
                if in_table {
                    let eq: usize = position(code, '=');
                    if eq < code.len() {
                        assert(code@.subrange(0, eq as int) == crate::text::before(code@, '='));
                        if same(trimmed(slice_subrange(code, 0, eq)), &key_name) {
                            let val: &[char] = slice_subrange(code, eq + 1, code.len());
                            assert(val@ == crate::text::after(code@, '='));
                            let val: &[char] = trimmed(
                                trimmed_both(trimmed(val), Fringe::Is('"')),
                            );
                            proof {
                                lemma_lookup_kept(all, i + 1, table@, key@);
                            }
                            return if val.len() == 0 {
                                None
                            } else {
                                Some(string_of(val))
                            };
                        }
                    }
                }
            },
        }
        i = i + 1;
    }
    assert(all.take(all.len() as int) == all);
    None
}

/// What the first `n` lines hold for a key, no later line changes.
pub proof fn lemma_lookup_kept(ls: Seq<Seq<char>>, n: int, table: Seq<char>, key: Seq<char>)
    requires
        0 <= n <= ls.len(),
        lookup(false, ls.take(n), table, key) is Some,
    ensures
        lookup(false, ls, table, key) == lookup(false, ls.take(n), table, key),
    decreases ls.len() - n,
{
    if n < ls.len() {
        assert(ls.take(n + 1).drop_last() == ls.take(n));
        lemma_lookup_kept(ls, n + 1, table, key);
    } else {
        assert(ls.take(n) == ls);
    }
}

/// The line `raw` with `val`, in quotes, in place of what stands after its equals sign.
/// The key, its spacing and a comment at the end of the line are kept.
pub open spec fn rewrite(raw: Seq<char>, val: Seq<char>) -> Seq<char> {
    let eq = crate::text::find(raw, '=');
    if eq == raw.len() {
        raw
    } else {
        let post = raw.skip(eq + 1);
        let h = crate::text::find(post, '#');
        let head = raw.take(eq + 1) + seq![' ', '"'] + val;
        if h < post.len() {
            head + seq!['"', ' ', ' '] + crate::text::trim_back(post.skip(h), Fringe::White)
        } else {
            head + seq!['"']
        }
    }
}

/// The keys and values of a list of pairs.
pub open spec fn pairs(kvs: Seq<(&str, &str)>) -> Seq<(Seq<char>, Seq<char>)> {
    kvs.map_values(|p: (&str, &str)| (p.0@, p.1@))
}

/// The position of the first pair for `key`, or the number of pairs when there is none.
pub open spec fn pick(kvs: Seq<(Seq<char>, Seq<char>)>, key: Seq<char>) -> int
    decreases kvs.len(),
{
    if kvs.len() == 0 || kvs[0].0 == key {
        0
    } else {
        1 + pick(kvs.skip(1), key)
    }
}

/// The line that takes the place of `line`, which stands in the table if `within` says so.
pub open spec fn new_line(
    within: bool,
    line: Seq<char>,
    kvs: Seq<(Seq<char>, Seq<char>)>,
) -> Seq<char> {
    match kind(line) {
        Line::Entry(k, _) => if within && pick(kvs, k) < kvs.len() {
            rewrite(line, kvs[pick(kvs, k)].1)
        } else {
            line
        },
        _ => line,
    }
}

/// The lines `ls`, with every entry of `table` that has a pair rewritten in place.
pub open spec fn rewritten(
    start: bool,
    ls: Seq<Seq<char>>,
    table: Seq<char>,
    kvs: Seq<(Seq<char>, Seq<char>)>,
) -> Seq<Seq<char>>
    decreases ls.len(),
{
    if ls.len() == 0 {
        Seq::empty()
    } else {
        rewritten(start, ls.drop_last(), table, kvs).push(
            new_line(inside(start, ls.drop_last(), table), ls.last(), kvs),
        )
    }
}

/// Whether pair `j` is written in place: it is the first for its key, and the table has
/// an entry for that key.
pub open spec fn in_place(
    ls: Seq<Seq<char>>,
    table: Seq<char>,
    kvs: Seq<(Seq<char>, Seq<char>)>,
    j: int,
) -> bool {
    pick(kvs, kvs[j].0) == j && lookup(false, ls, table, kvs[j].0) is Some
}

/// A new entry.
pub open spec fn entry_line(p: (Seq<char>, Seq<char>)) -> Seq<char> {
    p.0 + seq![' ', '=', ' ', '"'] + p.1 + seq!['"']
}

/// The entries for those of the first `n` pairs that are not written in place.
pub open spec fn missing(
    ls: Seq<Seq<char>>,
    table: Seq<char>,
    kvs: Seq<(Seq<char>, Seq<char>)>,
    n: int,
) -> Seq<Seq<char>>
    decreases n,
{
    if n <= 0 {
        Seq::empty()
    } else if in_place(ls, table, kvs, n - 1) {
        missing(ls, table, kvs, n - 1)
    } else {
        missing(ls, table, kvs, n - 1).push(entry_line(kvs[n - 1]))
    }
}

/// The place for new entries: behind the last line of the table that is not blank, the
/// header among them; 0 when there is no such table.
pub open spec fn insert_at(ls: Seq<Seq<char>>, table: Seq<char>) -> int
    decreases ls.len(),
{
    if ls.len() == 0 {
        0
    } else {
        let here = match kind(ls.last()) {
            Line::Header(t) => t == table,
            _ => inside(false, ls.drop_last(), table) && crate::text::trim(ls.last()).len() > 0,
        };
        if here {
            ls.len() as int
        } else {
            insert_at(ls.drop_last(), table)
        }
    }
}

/// The lines of the file once `table` carries `kvs`: entries rewritten in place, missing
/// ones behind the last line of the table, or in a new table at the end.
pub open spec fn updated_lines(
    ls: Seq<Seq<char>>,
    table: Seq<char>,
    kvs: Seq<(Seq<char>, Seq<char>)>,
) -> Seq<Seq<char>> {
    let body = rewritten(false, ls, table, kvs);
    let more = missing(ls, table, kvs, kvs.len() as int);
    let at = insert_at(ls, table);
    if more.len() == 0 {
        body
    } else if at > 0 {
        body.take(at) + more + body.skip(at)
    } else {
        let gap = if body.len() > 0 && crate::text::trim(body.last()).len() > 0 {
            body.push(Seq::empty())
        } else {
            body
        };
        gap.push(seq!['['] + table + seq![']']) + more
    }
}

/// The text of the file once `table` carries `kvs`.
pub open spec fn updated(
    text: Seq<char>,
    table: Seq<char>,
    kvs: Seq<(Seq<char>, Seq<char>)>,
) -> Seq<char> {
    let ls = updated_lines(crate::text::lines(text), table, kvs);
    if ls.len() == 0 {
        seq!['\n']
    } else {
        crate::text::unlines(ls)
    }
}

/// Rewrites a `key = value` line with a new quoted value. The key, its spacing and any
/// comment at the end of the line are kept.
fn rewrite_line(raw: &[char], new_val: &[char]) -> (r: Vec<char>)
    ensures
        r@ == rewrite(raw@, new_val@),
{
    let n: usize = raw.len();
    let eq: usize = position(raw, '=');
    if eq == n {
        return copied(raw);
    }
    let prefix: &[char] = slice_subrange(raw, 0, eq + 1);
    let post: &[char] = slice_subrange(raw, eq + 1, n);
    assert(prefix@ == raw@.take(eq + 1));
    assert(post@ == raw@.skip(eq + 1));
    let mut r: Vec<char> = copied(prefix);
    r.push(' ');
    r.push('"');
    append(&mut r, new_val);
    r.push('"');
    assert(r@ == raw@.take(eq + 1) + seq![' ', '"'] + new_val@ + seq!['"']);
    let h: usize = position(post, '#');
    if h < post.len() {
        r.push(' ');
        r.push(' ');
        let comment: &[char] = slice_subrange(post, h, post.len());
        assert(comment@ == post@.skip(h as int));
        append(&mut r, trimmed_back(comment, Fringe::White));
        assert(r@ == rewrite(raw@, new_val@));
    }
    r
}

/// Rewrites a `key = value` line with a new quoted value. The key, its spacing and any
/// comment at the end of the line are kept; a line without an equals sign stays as it is.
pub fn rewrite_kv(raw: &str, new_val: &str) -> (r: String)
    ensures
        r@ == rewrite(raw@, new_val@),
{
    string_of(&rewrite_line(&chars_of(raw), &chars_of(new_val)))
}

/// A position with no pair for `key` before it, which holds one or is the end, is the
/// first.
pub proof fn lemma_pick(kvs: Seq<(Seq<char>, Seq<char>)>, key: Seq<char>, n: int)
    requires
        0 <= n <= kvs.len(),
        forall|i: int| 0 <= i < n ==> (#[trigger] kvs[i]).0 != key,
        n < kvs.len() ==> kvs[n].0 == key,
    ensures
        pick(kvs, key) == n,
    decreases kvs.len(),
{
    if n > 0 {
        let t = kvs.skip(1);
        assert forall|i: int| 0 <= i < n - 1 implies (#[trigger] t[i]).0 != key by {
            assert(t[i] == kvs[i + 1]);
        }
        lemma_pick(t, key, n - 1);
    }
}

/// The first position is in range, and a pair for `key` stands there unless it is the end.
pub proof fn lemma_pick_first(kvs: Seq<(Seq<char>, Seq<char>)>, key: Seq<char>)
    ensures
        0 <= pick(kvs, key) <= kvs.len(),
        pick(kvs, key) < kvs.len() ==> kvs[pick(kvs, key)].0 == key,
        forall|i: int| 0 <= i < pick(kvs, key) ==> (#[trigger] kvs[i]).0 != key,
    decreases kvs.len(),
{
    if kvs.len() > 0 && kvs[0].0 != key {
        let t = kvs.skip(1);
        lemma_pick_first(t, key);
        assert forall|i: int| 0 <= i < pick(kvs, key) implies (#[trigger] kvs[i]).0 != key by {
            if i > 0 {
                assert(t[i - 1] == kvs[i]);
            }
        }
        if pick(t, key) < t.len() {
            assert(t[pick(t, key)] == kvs[pick(t, key) + 1]);
        }
    }
}

/// The models of pairs that are held as characters.
spec fn pair_views(v: Seq<(Vec<char>, Vec<char>)>) -> Seq<(Seq<char>, Seq<char>)> {
    v.map_values(|p: (Vec<char>, Vec<char>)| (p.0@, p.1@))
}

/// Pairs as characters.
fn pair_chars(kvs: &[(&str, &str)]) -> (r: Vec<(Vec<char>, Vec<char>)>)
    ensures
        pair_views(r@) == pairs(kvs@),
{
    let mut r: Vec<(Vec<char>, Vec<char>)> = Vec::new();
    let mut i: usize = 0;
    while i < kvs.len()
        invariant
            i <= kvs.len(),
            pair_views(r@) == pairs(kvs@).take(i as int),
        decreases kvs.len() - i,
    {
        let ghost done = r@;
        r.push((chars_of(kvs[i].0), chars_of(kvs[i].1)));
        assert(pair_views(r@) == pair_views(done).push((kvs@[i as int].0@, kvs@[i as int].1@)));
        assert(pairs(kvs@).take(i + 1) == pairs(kvs@).take(i as int).push(pairs(kvs@)[i as int]));
        i = i + 1;
    }
    r
}

/// The position of the first pair for `key`, or the number of pairs.
fn pick_pair(kvs: &Vec<(Vec<char>, Vec<char>)>, key: &[char]) -> (n: usize)
    ensures
        n == pick(pair_views(kvs@), key@),
        n <= kvs@.len(),
{
    let ghost all = pair_views(kvs@);
    let mut i: usize = 0;
    while i < kvs.len() && !same(&kvs[i].0, key)
        invariant
            i <= kvs.len(),
            all == pair_views(kvs@),
            forall|j: int| 0 <= j < i ==> (#[trigger] all[j]).0 != key@,
        decreases kvs.len() - i,
    {
        assert(all[i as int].0 == kvs@[i as int].0@);
        i = i + 1;
    }
    proof {
        if i < kvs@.len() {
            assert(all[i as int].0 == kvs@[i as int].0@);
        }
        lemma_pick(all, key@, i as int);
    }
    i
}

/// A new entry for a pair.
pub(crate) fn new_entry(p: &(Vec<char>, Vec<char>)) -> (r: Vec<char>)
    ensures
        r@ == entry_line((p.0@, p.1@)),
{
    let mut r: Vec<char> = copied(&p.0);
    r.push(' ');
    r.push('=');
    r.push(' ');
    r.push('"');
    append(&mut r, &p.1);
    r.push('"');
    assert(r@ == entry_line((p.0@, p.1@)));
    r
}

/// Rewriting keeps the number of lines.
pub proof fn lemma_rewritten_len(
    start: bool,
    ls: Seq<Seq<char>>,
    table: Seq<char>,
    kvs: Seq<(Seq<char>, Seq<char>)>,
)
    ensures
        rewritten(start, ls, table, kvs).len() == ls.len(),
    decreases ls.len(),
{
    if ls.len() > 0 {
        lemma_rewritten_len(start, ls.drop_last(), table, kvs);
    }
}

/// The place for new entries lies within the file.
pub proof fn lemma_insert_at(ls: Seq<Seq<char>>, table: Seq<char>)
    ensures
        0 <= insert_at(ls, table) <= ls.len(),
    decreases ls.len(),
{
    if ls.len() > 0 {
        lemma_insert_at(ls.drop_last(), table);
    }
}

/// Rewrites `text` so that `table` carries `kvs`, keeping comments and every other line:
/// entries that exist are rewritten in place, missing ones are added to the table, and
/// the table is added at the end when there is none.
pub fn update_toml_table(text: &str, table: &str, kvs: &[(&str, &str)]) -> (r: String)
    ensures
        r@ == updated(text@, table@, pairs(kvs@)),
{
    let chars: Vec<char> = chars_of(text);
    let ls: Vec<Vec<char>> = split_lines(&chars);
    let name: Vec<char> = chars_of(table);
    let new: Vec<(Vec<char>, Vec<char>)> = pair_chars(kvs);
    let ghost all = crate::text::views(ls@);
    let ghost prs = pairs(kvs@);

    let mut out: Vec<Vec<char>> = Vec::new();
    let mut in_table: bool = false;
    let mut at: usize = 0;
    let mut written: Vec<bool> = Vec::new();
    let mut j: usize = 0;
    while j < new.len()
        invariant
            j <= new.len(),
            written@.len() == j,
            forall|m: int| 0 <= m < j ==> !#[trigger] written@[m],
        decreases new.len() - j,
    {
        written.push(false);
        j = j + 1;
    }
    assert(prs.len() == new@.len());

    let mut i: usize = 0;
    while i < ls.len()
        invariant
            i <= ls.len(),
            all == crate::text::views(ls@),
            name@ == table@,
            prs == pair_views(new@),
            written@.len() == new@.len() == prs.len(),
            in_table == inside(false, all.take(i as int), table@),
            crate::text::views(out@) == rewritten(false, all.take(i as int), table@, prs),
            out@.len() == i,
            at == insert_at(all.take(i as int), table@),
            forall|m: int|
                0 <= m < prs.len() ==> #[trigger] written@[m] == in_place(
                    all.take(i as int),
                    table@,
                    prs,
                    m,
                ),
        decreases ls.len() - i,
    {
        let raw: &Vec<char> = &ls[i];
        let code: &[char] = code_of(raw);
        let ghost upto = all.take(i + 1);
        let ghost done = out@;
        assert(upto.drop_last() == all.take(i as int));
        assert(upto.last() == raw@);
        match header_of(code) {
            Some(t) => {
                in_table = same(t, &name);
                out.push(copied(raw));
                if in_table {
                    at = i + 1;
                }
                assert(kind(raw@) is Header);
            },
            None => {
                if in_table {
                    let eq: usize = position(code, '=');
                    assert(code@.subrange(0, eq as int) == crate::text::before(code@, '='));
                    let key: &[char] = trimmed(slice_subrange(code, 0, eq));
                    if eq < code.len() {
                        let p: usize = pick_pair(&new, key);
                        if p < new.len() {
                            out.push(rewrite_line(raw, &new[p].1));
                            written.set(p, true);
                            proof {
                                lemma_pick_first(prs, key@);
                                assert(prs[p as int].0 == key@);
                                assert(prs[p as int].1 == new@[p as int].1@);
                                assert forall|m: int| 0 <= m < prs.len() implies
                                    #[trigger] written@[m] == in_place(upto, table@, prs, m) by {
                                    if prs[m].0 == key@ {
                                        assert(pick(prs, prs[m].0) == p);
                                    }
                                }
                            }
                        } else {
                            out.push(copied(raw));
                            proof {
                                assert forall|m: int| 0 <= m < prs.len() implies
                                    #[trigger] written@[m] == in_place(upto, table@, prs, m) by {
                                    if prs[m].0 == key@ {
                                        lemma_pick_first(prs, key@);
                                        assert(prs[m].0 != key@);
                                    }
                                }
                            }
                        }
                    } else {
                        out.push(copied(raw));
                    }
                    if trimmed(raw).len() > 0 {
                        at = i + 1;
                    }
                } else {
                    out.push(copied(raw));
                }
            },
        }
        assert(crate::text::views(out@) == crate::text::views(done).push(out@.last()@));
        i = i + 1;
    }
    assert(all.take(all.len() as int) == all);
    let ghost body = crate::text::views(out@);

    let mut more: Vec<Vec<char>> = Vec::new();
    let mut n: usize = 0;
    while n < new.len()
        invariant
            n <= new.len(),
            prs == pair_views(new@),
            written@.len() == new@.len() == prs.len(),
            forall|m: int|
                0 <= m < prs.len() ==> #[trigger] written@[m] == in_place(all, table@, prs, m),
            crate::text::views(more@) == missing(all, table@, prs, n as int),
        decreases new.len() - n,
    {
        if !written[n] {
            let ghost done = more@;
            more.push(new_entry(&new[n]));
            assert(prs[n as int] == (new@[n as int].0@, new@[n as int].1@));
            assert(crate::text::views(more@) == crate::text::views(done).push(
                entry_line(prs[n as int]),
            ));
        }
        n = n + 1;
    }
    let ghost rest = crate::text::views(more@);
    proof {
        lemma_insert_at(all, table@);
    }

    if more.len() > 0 {
        if at > 0 {
            let mut m: usize = 0;
            assert(body.take(at as int) + rest.take(0) + body.skip(at as int) == body);
            while m < more.len()
                invariant
                    m <= more.len(),
                    at <= body.len(),
                    rest == crate::text::views(more@),
                    out@.len() == body.len() + m,
                    crate::text::views(out@) == body.take(at as int) + rest.take(m as int)
                        + body.skip(at as int),
                decreases more.len() - m,
            {
                let ghost done = crate::text::views(out@);
                let len: usize = out.len();
                assert(at + m <= len);
                out.insert(at + m, copied(&more[m]));
                assert(crate::text::views(out@) == done.insert(at + m, rest[m as int]));
                assert(done.insert(at + m, rest[m as int]) == body.take(at as int) + rest.take(
                    m + 1,
                ) + body.skip(at as int));
                m = m + 1;
            }
            assert(rest.take(rest.len() as int) == rest);
        } else {
            if out.len() > 0 && trimmed(&out[out.len() - 1]).len() > 0 {
                assert(body.last() == out@.last()@);
                let ghost done = out@;
                out.push(Vec::new());
                assert(crate::text::views(out@) == crate::text::views(done).push(Seq::empty()));
            } else {
                assert(body.len() > 0 ==> body.last() == out@.last()@);
            }
            let ghost gap = crate::text::views(out@);
            let mut header: Vec<char> = Vec::new();
            header.push('[');
            append(&mut header, &name);
            header.push(']');
            assert(header@ == seq!['['] + table@ + seq![']']);
            let ghost head = header@;
            let ghost done = out@;
            out.push(header);
            assert(crate::text::views(out@) == gap.push(head));
            let mut m: usize = 0;
            assert(gap.push(head) + rest.take(0) == gap.push(head));
            while m < more.len()
                invariant
                    m <= more.len(),
                    rest == crate::text::views(more@),
                    crate::text::views(out@) == gap.push(head) + rest.take(m as int),
                decreases more.len() - m,
            {
                let ghost done = crate::text::views(out@);
                out.push(copied(&more[m]));
                assert(crate::text::views(out@) == done.push(rest[m as int]));
                assert(rest.take(m + 1) == rest.take(m as int).push(rest[m as int]));
                assert(crate::text::views(out@) == gap.push(head) + rest.take(m + 1));
                m = m + 1;
            }
            assert(rest.take(rest.len() as int) == rest);
        }
    }
    assert(crate::text::views(out@) == updated_lines(all, table@, prs));
    if out.len() == 0 {
        let mut r: String = String::new();
        r.push('\n');
        assert(r@ == seq!['\n']);
        return r;
    }
    string_of(&join_lines(&out))
}

/// The word for a flag.
pub open spec fn flag_word(b: bool) -> Seq<char> {
    if b {
        "true"@
    } else {
        "false"@
    }
}

/// The word for a flag.
pub fn bool_str(b: bool) -> (s: &'static str)
    ensures
        s@ == flag_word(b),
{
    if b {
        "true"
    } else {
        "false"
    }
}

/// The flag that a word stands for.
pub open spec fn flag_of(s: Seq<char>) -> Option<bool> {
    if s == flag_word(true) {
        Some(true)
    } else if s == flag_word(false) {
        Some(false)
    } else {
        None
    }
}

/// Reads a flag.
pub fn parse_bool(s: &str) -> (r: Option<bool>)
    ensures
        r == flag_of(s@),
{
    if same_str(s, "true") {
        Some(true)
    } else if same_str(s, "false") {
        Some(false)
    } else {
        None
    }
}

/// A flag that was written is read back.
pub proof fn law_flag_read_back(b: bool)
    ensures
        flag_of(flag_word(b)) == Some(b),
{
    reveal_strlit("true");
    reveal_strlit("false");
    assert("true"@.len() == 4 && "false"@.len() == 5);
}

/// The 16-bit number that `s` spells: hexadecimal behind `0x` or `0X`, else decimal.
pub open spec fn u16_of(s: Seq<char>) -> Option<int> {
    let t = crate::text::trim(s);
    if t.len() >= 2 && t[0] == '0' && (t[1] == 'x' || t[1] == 'X') {
        crate::numbers::read_number(t.skip(2), 16, 0xFFFF)
    } else {
        crate::numbers::read_number(t, 10, 0xFFFF)
    }
}

/// The number that an optional result stands for.
pub open spec fn int_of_u16(o: Option<u16>) -> Option<int> {
    match o {
        Some(n) => Some(n as int),
        None => None,
    }
}

/// Reads a 16-bit number written as `0x10C4` or in decimal.
pub fn parse_u16(s: &str) -> (r: Option<u16>)
    ensures
        int_of_u16(r) == u16_of(s@),
{
    let v: Vec<char> = chars_of(s);
    let t: &[char] = trimmed(&v);
    let n: Option<u64> = if t.len() >= 2 && t[0] == '0' && (t[1] == 'x' || t[1] == 'X') {
        assert(t@.subrange(2, t@.len() as int) == t@.skip(2));
        parse_number(slice_subrange(t, 2, t.len()), 16, 0xFFFF)
    } else {
        parse_number(t, 10, 0xFFFF)
    };
    match n {
        Some(n) => Some(n as u16),
        None => None,
    }
}

/// Digits have no space at their ends.
proof fn lemma_digits_trimmed(s: Seq<char>)
    requires
        crate::numbers::all_digits(s, 16),
    ensures
        crate::text::trim(s) == s,
{
    assert(crate::numbers::value_of(s[0]) < 16);
    assert(crate::numbers::value_of(s[s.len() - 1]) < 16);
    crate::text::lemma_trim_none(s, Fringe::White);
}

/// Hexadecimal digits behind `0x` or `0X` are read as their number.
proof fn lemma_hex_prefix(x: char, h: Seq<char>, n: int)
    requires
        x == 'x' || x == 'X',
        crate::numbers::all_digits(h, 16),
        crate::numbers::read_number(h, 16, 0xFFFF) == Some(n),
    ensures
        u16_of(seq!['0', x] + h) == Some(n),
{
    let s = seq!['0', x] + h;
    assert(crate::numbers::value_of(h[h.len() - 1]) < 16);
    assert(s[s.len() - 1] == h[h.len() - 1]);
    crate::text::lemma_trim_none(s, Fringe::White);
    assert(s.skip(2) == h);
}

/// A number is read back however it is spelled: in hexadecimal behind `0x` or `0X`, with
/// four digits and capital letters or with no more digits than it takes and small letters,
/// and in decimal.
pub proof fn law_u16_read_back(v: u16, x: char)
    requires
        x == 'x' || x == 'X',
    ensures
        u16_of(seq!['0', x] + crate::numbers::hex4(v as int)) == Some(v as int),
        u16_of(seq!['0', x] + crate::numbers::hex(v as nat)) == Some(v as int),
        u16_of(crate::numbers::dec(v as nat)) == Some(v as int),
{
    let (a, b, d) = (
        crate::numbers::hex4(v as int),
        crate::numbers::hex(v as nat),
        crate::numbers::dec(v as nat),
    );
    crate::numbers::law_hex4_read_back(v as int);
    crate::numbers::law_hex_read_back(v as nat, 0xFFFF);
    crate::numbers::law_dec_read_back(v as nat, 0xFFFF);
    lemma_hex_prefix(x, a, v as int);
    lemma_hex_prefix(x, b, v as int);
    assert(crate::numbers::all_digits(d, 16));
    lemma_digits_trimmed(d);
    if d.len() >= 2 {
        assert(crate::numbers::value_of(d[1]) < 10);
        assert(crate::numbers::value_of('x') == 16 && crate::numbers::value_of('X') == 16);
    }
}

/// A number with decimals as it stands in the file: without zeros at its end, and
/// without a point that nothing follows.
pub open spec fn short_decimal(s: Seq<char>) -> Seq<char> {
    crate::text::trim_back(crate::text::trim_back(s, Fringe::Is('0')), Fringe::Is('.'))
}

/// Takes the zeros and the point off the end of a number with decimals.
pub fn trim_decimal(s: &str) -> (r: String)
    ensures
        r@ == short_decimal(s@),
{
    let v: Vec<char> = chars_of(s);
    string_of(trimmed_back(trimmed_back(&v, Fringe::Is('0')), Fringe::Is('.')))
}

} // verus!
