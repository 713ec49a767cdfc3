//! What holds of the `config.toml` codec as a whole: a value that was written is read
//! back, a write leaves every other value as it was, and the same write done twice changes
//! nothing more.

use vstd::prelude::*;

use crate::text::Fringe;

verus! {

/// A name that can stand in a header: one line, no comment sign, no space at its ends.
pub open spec fn name_ok(t: Seq<char>) -> bool {
    &&& crate::text::trim(t) == t
    &&& !t.contains('#')
    &&& !t.contains('\n')
}

/// A name that can stand before an equals sign.
pub open spec fn key_ok(k: Seq<char>) -> bool {
    &&& name_ok(k)
    &&& !k.contains('=')
}

/// A pair that can be written as one entry. A comment sign in the value cuts it short;
/// it is let pass where the rest of the line cannot be taken for a header.
pub open spec fn pair_ok(p: (Seq<char>, Seq<char>)) -> bool {
    &&& key_ok(p.0)
    &&& !p.1.contains('\n')
    &&& p.1.contains('#') ==> (p.0.len() == 0 || p.0[0] != '[')
}

/// What is read back of a written value: the value without its own quotes and space at
/// the ends, and nothing when nothing is left.
pub open spec fn stored(v: Seq<char>) -> Option<Seq<char>> {
    let w = crate::text::trim(crate::text::trim_both(v, Fringe::Is('"')));
    if w.len() == 0 {
        None
    } else {
        Some(w)
    }
}

/// A value as it stands after the equals sign.
pub open spec fn quoted(v: Seq<char>) -> Seq<char> {
    seq![' ', '"'] + v + seq!['"']
}

/// What stands between the equals sign and the comment, without the space at its end.
spec fn tail(rest: Seq<char>) -> Seq<char> {
    crate::text::trim_back(crate::text::before(rest, '#'), Fringe::White)
}

/// The code of a line with an equals sign.
proof fn lemma_code(x: Seq<char>, rest: Seq<char>)
    requires
        !x.contains('='),
        !x.contains('#'),
    ensures
        ({
            let c = crate::config_toml::code(x.push('=') + rest);
            let f = crate::text::trim_front(x, Fringe::White);
            &&& c == f.push('=') + tail(rest)
            &&& crate::text::find(c, '=') == f.len()
            &&& crate::text::trim(crate::text::before(c, '=')) == crate::text::trim(x)
            &&& crate::text::after(c, '=') == tail(rest)
            &&& f.len() > 0 <==> crate::text::trim(x).len() > 0
            &&& f.len() > 0 ==> f[0] == crate::text::trim(x)[0]
        }),
{
    let w = Fringe::White;
    let line = x.push('=') + rest;
    let b = crate::text::before(rest, '#');
    crate::text::lemma_find_first(rest, '#');
    let h = crate::text::find(rest, '#');
    let n = x.len() + 1 + h;
    assert forall|i: int| 0 <= i < n implies line[i] != '#' by {
        if i < x.len() {
            assert(line[i] == x[i]);
        } else if i > x.len() {
            assert(line[i] == rest[i - x.len() - 1]);
        }
    }
    if n < line.len() {
        assert(line[n] == rest[h]);
    }
    crate::text::lemma_find(line, '#', n);
    let q = x.push('=') + b;
    assert(crate::text::before(line, '#') == q);
    let (xa, xb) = crate::text::lemma_core(x, w);
    let (ba, bb) = crate::text::lemma_core(b, w);
    let xl = x.len() as int;
    let a: int = if crate::text::all_fringe(x, w) {
        xl
    } else {
        xa
    };
    let e: int = if crate::text::all_fringe(b, w) {
        xl + 1
    } else {
        xl + 1 + bb
    };
    assert forall|i: int| 0 <= i < a implies w.has(#[trigger] q[i]) by {
        assert(q[i] == x[i]);
    }
    assert forall|i: int| e <= i < q.len() implies w.has(#[trigger] q[i]) by {
        assert(q[i] == b[i - xl - 1]);
    }
    assert(q[xl] == '=');
    if a < xl {
        assert(q[a] == x[a]);
    }
    if e > xl + 1 {
        assert(q[e - 1] == b[bb - 1]);
    }
    crate::text::lemma_trim_core(q, w, a, e);
    let f = crate::text::trim_front(x, w);
    if crate::text::all_fringe(x, w) {
        crate::text::lemma_trim_all(x, w);
        assert(f == x.skip(a));
    } else {
        crate::text::lemma_trim_core(x, w, xa, xb);
        assert(x.subrange(xa, xb)[0] == x[xa]);
    }
    if crate::text::all_fringe(b, w) {
        crate::text::lemma_trim_all(b, w);
        assert(tail(rest) == b.take(0));
    } else {
        crate::text::lemma_trim_core(b, w, ba, bb);
    }
    let c = q.subrange(a, e);
    assert(c == f.push('=') + tail(rest));
    assert forall|i: int| 0 <= i < f.len() implies c[i] != '=' by {
        assert(c[i] == x[a + i]);
    }
    crate::text::lemma_find(c, '=', f.len() as int);
    assert(c.take(f.len() as int) == f);
    if f.len() > 0 {
        assert(f[0] == x[xa]);
        assert(crate::text::trim_front(f, w) == f);
    } else {
        assert(f == Seq::<char>::empty());
    }
    assert(crate::text::trim(f) == crate::text::trim(x));
    assert(c.skip(f.len() as int + 1) == tail(rest));
}

/// A line with an equals sign that cannot be taken for a header is an entry.
proof fn lemma_kind(x: Seq<char>, rest: Seq<char>)
    requires
        !x.contains('='),
        !x.contains('#'),
        crate::text::trim(x).len() == 0 || crate::text::trim(x)[0] != '[' || tail(rest).len() == 0
            || tail(rest).last() != ']',
    ensures
        crate::config_toml::kind(x.push('=') + rest) == crate::config_toml::Line::Entry(
            crate::text::trim(x),
            tail(rest),
        ),
{
    lemma_code(x, rest);
    let c = crate::config_toml::code(x.push('=') + rest);
    let f = crate::text::trim_front(x, Fringe::White);
    if f.len() == 0 {
        assert(c[0] == '=');
    } else {
        assert(c[0] == f[0]);
    }
    if tail(rest).len() == 0 {
        assert(c.last() == '=');
    } else {
        assert(c.last() == tail(rest).last());
    }
}

/// An entry has its equals sign before any comment, behind its key.
proof fn lemma_entry_shape(raw: Seq<char>)
    requires
        crate::config_toml::kind(raw) is Entry,
    ensures
        crate::text::find(raw, '=') < raw.len(),
        !raw.take(crate::text::find(raw, '=')).contains('#'),
        !raw.take(crate::text::find(raw, '=')).contains('='),
        crate::text::trim(raw.take(crate::text::find(raw, '=')))
            == crate::config_toml::kind(raw)->Entry_0,
{
    let p = crate::text::before(raw, '#');
    crate::text::lemma_find_first(raw, '#');
    crate::text::lemma_find_first(raw, '=');
    let c = crate::config_toml::code(raw);
    crate::text::lemma_find_first(c, '=');
    let (a, b) = crate::text::lemma_core(p, Fringe::White);
    if crate::text::all_fringe(p, Fringe::White) {
        crate::text::lemma_trim_all(p, Fringe::White);
    } else {
        crate::text::lemma_trim_core(p, Fringe::White, a, b);
    }
    let g = crate::text::find(c, '=');
    assert(c[g] == p[a + g]);
    assert(p[a + g] == raw[a + g]);
    let eq = crate::text::find(raw, '=');
    assert(eq <= a + g);
    let x = raw.take(eq);
    assert(!x.contains('#')) by {
        assert forall|i: int| 0 <= i < x.len() implies x[i] != '#' by {
            assert(x[i] == raw[i]);
        }
    }
    assert(!x.contains('=')) by {
        assert forall|i: int| 0 <= i < x.len() implies x[i] != '=' by {
            assert(x[i] == raw[i]);
        }
    }
    let rest = raw.skip(eq + 1);
    assert(raw == x.push('=') + rest);
    lemma_code(x, rest);
}

/// A value between its quotes, with or without space and a comment behind it.
proof fn lemma_tail(v: Seq<char>, more: Seq<char>)
    requires
        !v.contains('#'),
        more.len() == 0 || (more.len() > 2 && more[0] == ' ' && more[1] == ' ' && more[2] == '#'),
    ensures
        tail(quoted(v) + more) == quoted(v),
{
    let q = quoted(v);
    let s = q + more;
    let n: int = if more.len() == 0 {
        q.len() as int
    } else {
        q.len() as int + 2
    };
    assert forall|i: int| 0 <= i < n implies s[i] != '#' by {
        if i < 2 {
        } else if i < 2 + v.len() {
            assert(s[i] == v[i - 2]);
        } else if i < q.len() {
            assert(s[i] == '"');
        } else {
            assert(s[i] == more[i - q.len()]);
        }
    }
    if more.len() > 0 {
        assert(s[n] == more[2]);
    }
    crate::text::lemma_find(s, '#', n);
    let b = s.take(n);
    assert(b[q.len() - 1] == '"');
    assert(b[1] == '"');
    assert(b[0] == ' ');
    assert forall|i: int| q.len() <= i < b.len() implies Fringe::White.has(#[trigger] b[i]) by {
        assert(b[i] == more[i - q.len()]);
    }
    crate::text::lemma_trim_core(b, Fringe::White, 1, q.len() as int);
    assert(b.take(q.len() as int) == q);
}

/// A rewritten entry is an entry for the same key, with the new value.
proof fn lemma_rewrite(raw: Seq<char>, v: Seq<char>)
    requires
        crate::config_toml::kind(raw) is Entry,
        v.contains('#') ==> (crate::config_toml::kind(raw)->Entry_0.len() == 0
            || crate::config_toml::kind(raw)->Entry_0[0] != '['),
    ensures
        crate::config_toml::kind(crate::config_toml::rewrite(raw, v)) is Entry,
        crate::config_toml::kind(crate::config_toml::rewrite(raw, v))->Entry_0
            == crate::config_toml::kind(raw)->Entry_0,
        !v.contains('#') ==> crate::config_toml::kind(
            crate::config_toml::rewrite(raw, v),
        )->Entry_1 == quoted(v),
{
    lemma_entry_shape(raw);
    let eq = crate::text::find(raw, '=');
    let x = raw.take(eq);
    let post = raw.skip(eq + 1);
    crate::text::lemma_find_first(post, '#');
    crate::text::lemma_find_first(raw, '=');
    let h = crate::text::find(post, '#');
    let comment = crate::text::trim_back(post.skip(h), Fringe::White);
    let more = if h < post.len() {
        seq![' ', ' '] + comment
    } else {
        Seq::<char>::empty()
    };
    if h < post.len() {
        let p = post.skip(h);
        assert(p[0] == '#');
        let (a, b) = crate::text::lemma_core(p, Fringe::White);
        assert(!Fringe::White.has(p[0]));
        crate::text::lemma_trim_core(p, Fringe::White, a, b);
        assert(comment[0] == '#');
        assert(more[2] == comment[0]);
    }
    assert(raw.take(eq + 1) == x.push('='));
    assert(crate::config_toml::rewrite(raw, v) == x.push('=') + (quoted(v) + more));
    if !v.contains('#') {
        lemma_tail(v, more);
        assert(quoted(v).last() == '"');
    }
    lemma_kind(x, quoted(v) + more);
}

/// A new entry is an entry for its key, with its value.
pub proof fn lemma_new_entry(p: (Seq<char>, Seq<char>))
    requires
        pair_ok(p),
    ensures
        crate::config_toml::kind(crate::config_toml::entry_line(p)) is Entry,
        crate::config_toml::kind(crate::config_toml::entry_line(p))->Entry_0 == p.0,
        !p.1.contains('#') ==> crate::config_toml::kind(
            crate::config_toml::entry_line(p),
        )->Entry_1 == quoted(p.1),
{
    let x = p.0.push(' ');
    assert(!x.contains('#')) by {
        assert forall|i: int| 0 <= i < x.len() implies x[i] != '#' by {
            if i < p.0.len() {
                assert(x[i] == p.0[i]);
            }
        }
    }
    assert(!x.contains('=')) by {
        assert forall|i: int| 0 <= i < x.len() implies x[i] != '=' by {
            if i < p.0.len() {
                assert(x[i] == p.0[i]);
            }
        }
    }
    crate::text::lemma_trim_push(p.0, ' ', Fringe::White);
    let rest = quoted(p.1);
    assert(crate::config_toml::entry_line(p) == x.push('=') + rest);
    assert(rest + Seq::<char>::empty() == rest);
    if !p.1.contains('#') {
        lemma_tail(p.1, Seq::empty());
        assert(quoted(p.1).last() == '"');
    }
    lemma_kind(x, rest);
}

/// A new header heads its table.
pub proof fn lemma_new_header(t: Seq<char>)
    requires
        name_ok(t),
    ensures
        crate::config_toml::kind(seq!['['] + t + seq![']']) == crate::config_toml::Line::Header(t),
{
    let l = seq!['['] + t + seq![']'];
    assert forall|i: int| 0 <= i < l.len() implies l[i] != '#' by {
        if 0 < i < l.len() - 1 {
            assert(l[i] == t[i - 1]);
        }
    }
    crate::text::lemma_find(l, '#', l.len() as int);
    assert(l.take(l.len() as int) == l);
    crate::text::lemma_trim_none(l, Fringe::White);
    assert(l.subrange(1, l.len() - 1) == t);
}

/// A carriage return at the end of a line does not change what the line is.
pub proof fn lemma_without_cr(l: Seq<char>)
    ensures
        crate::config_toml::kind(crate::text::without_cr(l)) == crate::config_toml::kind(l),
{
    if l.len() > 0 && l.last() == '\r' {
        let s = l.drop_last();
        assert(l == s.push('\r'));
        crate::text::lemma_find_first(s, '#');
        let n = crate::text::find(s, '#');
        if n < s.len() {
            assert forall|i: int| 0 <= i < n implies l[i] != '#' by {
                assert(l[i] == s[i]);
            }
            crate::text::lemma_find(l, '#', n);
            assert(l.take(n) == s.take(n));
        } else {
            assert forall|i: int| 0 <= i < l.len() implies l[i] != '#' by {
                if i < s.len() {
                    assert(l[i] == s[i]);
                }
            }
            crate::text::lemma_find(l, '#', l.len() as int);
            assert(l.take(l.len() as int) == l);
            assert(s.take(s.len() as int) == s);
            crate::text::lemma_trim_push(s, '\r', Fringe::White);
        }
    }
}

/// What is read of a value between quotes.
pub proof fn lemma_clean(v: Seq<char>)
    ensures
        crate::config_toml::clean(quoted(v)) == stored(v),
{
    let q = quoted(v);
    let n = q.len() as int;
    assert(q[1] == '"' && q[n - 1] == '"');
    crate::text::lemma_trim_core(q, Fringe::White, 1, n);
    let s = q.subrange(1, n);
    assert(s == seq!['"'] + v.push('"'));
    crate::text::lemma_trim_prepend(v.push('"'), '"', Fringe::Is('"'));
    crate::text::lemma_trim_push(v, '"', Fringe::Is('"'));
}

/// Where the reader stands after two lists of lines, one behind the other.
proof fn lemma_inside_add(start: bool, a: Seq<Seq<char>>, b: Seq<Seq<char>>, t: Seq<char>)
    ensures
        crate::config_toml::inside(start, a + b, t) == crate::config_toml::inside(
            crate::config_toml::inside(start, a, t),
            b,
            t,
        ),
    decreases b.len(),
{
    if b.len() > 0 {
        assert((a + b).drop_last() == a + b.drop_last());
        lemma_inside_add(start, a, b.drop_last(), t);
    } else {
        assert(a + b == a);
    }
}

/// What the reader finds in two lists of lines, one behind the other.
proof fn lemma_lookup_add(
    start: bool,
    a: Seq<Seq<char>>,
    b: Seq<Seq<char>>,
    t: Seq<char>,
    k: Seq<char>,
)
    ensures
        crate::config_toml::lookup(start, a + b, t, k) == (match crate::config_toml::lookup(
            start,
            a,
            t,
            k,
        ) {
            Some(v) => Some(v),
            None => crate::config_toml::lookup(crate::config_toml::inside(start, a, t), b, t, k),
        }),
    decreases b.len(),
{
    if b.len() > 0 {
        assert((a + b).drop_last() == a + b.drop_last());
        lemma_lookup_add(start, a, b.drop_last(), t, k);
        lemma_inside_add(start, a, b.drop_last(), t);
    } else {
        assert(a + b == a);
    }
}

/// Lines of the same kinds read the same.
pub proof fn lemma_same_kinds(
    start: bool,
    a: Seq<Seq<char>>,
    b: Seq<Seq<char>>,
    t: Seq<char>,
    k: Seq<char>,
)
    requires
        a.len() == b.len(),
        forall|i: int|
            0 <= i < a.len() ==> crate::config_toml::kind(#[trigger] a[i])
                == crate::config_toml::kind(b[i]),
    ensures
        crate::config_toml::inside(start, a, t) == crate::config_toml::inside(start, b, t),
        crate::config_toml::lookup(start, a, t, k) == crate::config_toml::lookup(start, b, t, k),
    decreases a.len(),
{
    if a.len() > 0 {
        let n = a.len() - 1;
        assert(crate::config_toml::kind(a[n]) == crate::config_toml::kind(b[n]));
        assert forall|i: int| 0 <= i < a.drop_last().len() implies crate::config_toml::kind(
            #[trigger] a.drop_last()[i],
        ) == crate::config_toml::kind(b.drop_last()[i]) by {
            assert(crate::config_toml::kind(a[i]) == crate::config_toml::kind(b[i]));
        }
        lemma_same_kinds(start, a.drop_last(), b.drop_last(), t, k);
    }
}

/// A place stands in one table at most.
proof fn lemma_one_table(ls: Seq<Seq<char>>, t: Seq<char>, u: Seq<char>)
    requires
        t != u,
    ensures
        !(crate::config_toml::inside(false, ls, t) && crate::config_toml::inside(false, ls, u)),
    decreases ls.len(),
{
    if ls.len() > 0 {
        lemma_one_table(ls.drop_last(), t, u);
    }
}

/// How the rewritten lines read.
proof fn lemma_rewritten(
    ls: Seq<Seq<char>>,
    table: Seq<char>,
    kvs: Seq<(Seq<char>, Seq<char>)>,
    t: Seq<char>,
    k: Seq<char>,
)
    requires
        forall|i: int| 0 <= i < kvs.len() ==> pair_ok(#[trigger] kvs[i]),
    ensures
        ({
            let body = crate::config_toml::rewritten(false, ls, table, kvs);
            let j = crate::config_toml::pick(kvs, k);
            let was = crate::config_toml::lookup(false, ls, t, k);
            let is = crate::config_toml::lookup(false, body, t, k);
            &&& crate::config_toml::inside(false, body, t) == crate::config_toml::inside(
                false,
                ls,
                t,
            )
            &&& t != table || j == kvs.len() ==> is == was
            &&& t == table && j < kvs.len() ==> (is is Some <==> was is Some)
            &&& t == table && j < kvs.len() && was is Some && !kvs[j].1.contains('#') ==> is
                == Some(quoted(kvs[j].1))
        }),
    decreases ls.len(),
{
    if ls.len() > 0 {
        let front = ls.drop_last();
        lemma_rewritten(front, table, kvs, t, k);
        lemma_rewritten(front, table, kvs, table, k);
        let body = crate::config_toml::rewritten(false, ls, table, kvs);
        let fb = crate::config_toml::rewritten(false, front, table, kvs);
        assert(body.drop_last() == fb);
        let within = crate::config_toml::inside(false, front, table);
        let old_line = ls.last();
        let new_line = crate::config_toml::new_line(within, old_line, kvs);
        assert(body.last() == new_line);
        crate::config_toml::lemma_pick_first(kvs, k);
        if crate::config_toml::kind(old_line) is Entry {
            let key = crate::config_toml::kind(old_line)->Entry_0;
            crate::config_toml::lemma_pick_first(kvs, key);
            let p = crate::config_toml::pick(kvs, key);
            if within && p < kvs.len() {
                assert(pair_ok(kvs[p]));
                lemma_rewrite(old_line, kvs[p].1);
                if t != table {
                    lemma_one_table(front, t, table);
                }
            }
        }
    }
}

/// Behind the place for new entries the table holds nothing more.
proof fn lemma_behind(ls: Seq<Seq<char>>, table: Seq<char>, k: Seq<char>)
    ensures
        ({
            let at = crate::config_toml::insert_at(ls, table);
            &&& 0 <= at <= ls.len()
            &&& at > 0 ==> crate::config_toml::inside(false, ls.take(at), table)
            &&& at == 0 ==> !crate::config_toml::inside(false, ls, table)
            &&& crate::config_toml::lookup(false, ls.take(at), table, k)
                == crate::config_toml::lookup(false, ls, table, k)
        }),
    decreases ls.len(),
{
    let at = crate::config_toml::insert_at(ls, table);
    if ls.len() > 0 {
        let front = ls.drop_last();
        lemma_behind(front, table, k);
        if at == ls.len() {
            assert(ls.take(at) == ls);
        } else {
            assert(ls.take(at) == front.take(at));
            if crate::config_toml::kind(ls.last()) is Entry {
                if crate::config_toml::inside(false, front, table) {
                    lemma_blank(ls.last());
                }
            }
        }
    } else {
        assert(ls.take(at) == ls);
    }
}

/// A blank line is no entry.
proof fn lemma_blank(l: Seq<char>)
    requires
        crate::text::trim(l).len() == 0,
    ensures
        crate::config_toml::kind(l) is Other,
{
    let w = Fringe::White;
    let (a, b) = crate::text::lemma_core(l, w);
    if !crate::text::all_fringe(l, w) {
        crate::text::lemma_trim_core(l, w, a, b);
        assert(false);
    }
    crate::text::lemma_find_first(l, '#');
    let p = crate::text::before(l, '#');
    assert forall|i: int| 0 <= i < p.len() implies w.has(#[trigger] p[i]) by {
        assert(p[i] == l[i]);
    }
    crate::text::lemma_trim_all(p, w);
    crate::text::lemma_find_first(crate::config_toml::code(l), '=');
}

/// How the new entries read.
proof fn lemma_missing(
    ls: Seq<Seq<char>>,
    table: Seq<char>,
    kvs: Seq<(Seq<char>, Seq<char>)>,
    n: int,
    start: bool,
    t: Seq<char>,
    k: Seq<char>,
)
    requires
        0 <= n <= kvs.len(),
        forall|i: int| 0 <= i < kvs.len() ==> pair_ok(#[trigger] kvs[i]),
    ensures
        ({
            let more = crate::config_toml::missing(ls, table, kvs, n);
            let j = crate::config_toml::pick(kvs, k);
            let is = crate::config_toml::lookup(start, more, t, k);
            &&& crate::config_toml::inside(start, more, t) == start
            &&& !start || j >= n ==> is is None
            &&& start && j < n && !crate::config_toml::in_place(ls, table, kvs, j)
                && !kvs[j].1.contains('#') ==> is == Some(quoted(kvs[j].1))
        }),
    decreases n,
{
    crate::config_toml::lemma_pick_first(kvs, k);
    if n > 0 {
        lemma_missing(ls, table, kvs, n - 1, start, t, k);
        let p = kvs[n - 1];
        let before = crate::config_toml::missing(ls, table, kvs, n - 1);
        if !crate::config_toml::in_place(ls, table, kvs, n - 1) {
            lemma_new_entry(p);
            let more = before.push(crate::config_toml::entry_line(p));
            assert(more.drop_last() == before);
            if crate::config_toml::pick(kvs, k) < n - 1 {
            } else if crate::config_toml::pick(kvs, k) == n - 1 {
                assert(p.0 == k);
            } else {
                assert(p.0 != k);
            }
        }
    }
}

/// How the lines of the updated file read.
proof fn lemma_updated_lines(
    ls: Seq<Seq<char>>,
    table: Seq<char>,
    kvs: Seq<(Seq<char>, Seq<char>)>,
    t: Seq<char>,
    k: Seq<char>,
)
    requires
        name_ok(table),
        forall|i: int| 0 <= i < kvs.len() ==> pair_ok(#[trigger] kvs[i]),
    ensures
        ({
            let j = crate::config_toml::pick(kvs, k);
            let is = crate::config_toml::lookup(
                false,
                crate::config_toml::updated_lines(ls, table, kvs),
                t,
                k,
            );
            &&& t != table || j == kvs.len() ==> is == crate::config_toml::lookup(false, ls, t, k)
            &&& t == table && j < kvs.len() && !kvs[j].1.contains('#') ==> is
                == Some(quoted(kvs[j].1))
        }),
{
    let body = crate::config_toml::rewritten(false, ls, table, kvs);
    let n = kvs.len() as int;
    let more = crate::config_toml::missing(ls, table, kvs, n);
    let at = crate::config_toml::insert_at(ls, table);
    let j = crate::config_toml::pick(kvs, k);
    crate::config_toml::lemma_pick_first(kvs, k);
    crate::config_toml::lemma_rewritten_len(false, ls, table, kvs);
    lemma_rewritten(ls, table, kvs, t, k);
    lemma_rewritten(ls, table, kvs, table, k);
    lemma_behind(ls, table, k);
    if j < kvs.len() && !crate::config_toml::in_place(ls, table, kvs, j) {
        assert(crate::config_toml::lookup(false, ls, table, k) is None);
    }
    if more.len() == 0 {
        lemma_missing(ls, table, kvs, n, true, table, k);
    } else if at > 0 {
        let a = body.take(at);
        let b = body.skip(at);
        let before = ls.take(at);
        lemma_rewritten_take(ls, table, kvs, at);
        lemma_rewritten(before, table, kvs, t, k);
        lemma_rewritten(before, table, kvs, table, k);
        assert(body == a + b);
        let s = crate::config_toml::inside(false, a, t);
        lemma_lookup_add(false, a + more, b, t, k);
        lemma_lookup_add(false, a, more, t, k);
        lemma_lookup_add(false, a, b, t, k);
        lemma_inside_add(false, a, more, t);
        lemma_missing(ls, table, kvs, n, s, t, k);
        if t != table {
            lemma_one_table(before, t, table);
        }
    } else {
        let gap = if body.len() > 0 && crate::text::trim(body.last()).len() > 0 {
            body.push(Seq::empty())
        } else {
            body
        };
        let header = seq!['['] + table + seq![']'];
        if gap.len() > body.len() {
            let blank = Seq::<char>::empty();
            assert(crate::text::trim(blank).len() == 0);
            lemma_blank(blank);
            assert(gap.drop_last() == body);
        }
        assert(crate::config_toml::lookup(false, gap, t, k) == crate::config_toml::lookup(
            false,
            body,
            t,
            k,
        ));
        let g = gap.push(header);
        assert(g.drop_last() == gap);
        lemma_new_header(table);
        assert(crate::config_toml::lookup(false, g, t, k) == crate::config_toml::lookup(
            false,
            gap,
            t,
            k,
        ));
        lemma_lookup_add(false, g, more, t, k);
        lemma_missing(ls, table, kvs, n, t == table, t, k);
        assert(ls.take(0) == Seq::<Seq<char>>::empty());
    }
}

/// The first lines are rewritten alone as they are with the rest.
proof fn lemma_rewritten_take(
    ls: Seq<Seq<char>>,
    table: Seq<char>,
    kvs: Seq<(Seq<char>, Seq<char>)>,
    n: int,
)
    requires
        0 <= n <= ls.len(),
    ensures
        crate::config_toml::rewritten(false, ls, table, kvs).take(n)
            == crate::config_toml::rewritten(false, ls.take(n), table, kvs),
    decreases ls.len(),
{
    crate::config_toml::lemma_rewritten_len(false, ls, table, kvs);
    if n == ls.len() {
        assert(ls.take(n) == ls);
        assert(crate::config_toml::rewritten(false, ls, table, kvs).take(n)
            == crate::config_toml::rewritten(false, ls, table, kvs));
    } else {
        let front = ls.drop_last();
        lemma_rewritten_take(front, table, kvs, n);
        crate::config_toml::lemma_rewritten_len(false, front, table, kvs);
        assert(ls.take(n) == front.take(n));
        assert(crate::config_toml::rewritten(false, ls, table, kvs).take(n)
            == crate::config_toml::rewritten(false, front, table, kvs).take(n));
    }
}

/// No line of the updated file holds a line feed.
proof fn lemma_updated_plain(
    ls: Seq<Seq<char>>,
    table: Seq<char>,
    kvs: Seq<(Seq<char>, Seq<char>)>,
)
    requires
        name_ok(table),
        forall|i: int| 0 <= i < kvs.len() ==> pair_ok(#[trigger] kvs[i]),
        forall|i: int| 0 <= i < ls.len() ==> !(#[trigger] ls[i]).contains('\n'),
    ensures
        ({
            let out = crate::config_toml::updated_lines(ls, table, kvs);
            forall|i: int| 0 <= i < out.len() ==> !(#[trigger] out[i]).contains('\n')
        }),
{
    let n = kvs.len() as int;
    let body = crate::config_toml::rewritten(false, ls, table, kvs);
    let more = crate::config_toml::missing(ls, table, kvs, n);
    lemma_rewritten_plain(ls, table, kvs);
    lemma_missing_plain(ls, table, kvs, n);
    crate::config_toml::lemma_insert_at(ls, table);
    crate::config_toml::lemma_rewritten_len(false, ls, table, kvs);
    let at = crate::config_toml::insert_at(ls, table);
    let out = crate::config_toml::updated_lines(ls, table, kvs);
    if more.len() == 0 {
    } else if at > 0 {
        assert forall|i: int| 0 <= i < out.len() implies !(#[trigger] out[i]).contains('\n') by {
            if i < at {
                assert(out[i] == body[i]);
            } else if i < at + more.len() {
                assert(out[i] == more[i - at]);
            } else {
                assert(out[i] == body[i - more.len()]);
            }
        }
    } else {
        let header = seq!['['] + table + seq![']'];
        assert(!header.contains('\n')) by {
            assert forall|i: int| 0 <= i < header.len() implies header[i] != '\n' by {
                if 0 < i < header.len() - 1 {
                    assert(header[i] == table[i - 1]);
                }
            }
        }
        let g = out.len() - more.len() - 1;
        assert forall|i: int| 0 <= i < out.len() implies !(#[trigger] out[i]).contains('\n') by {
            if i > g {
                assert(out[i] == more[i - g - 1]);
            } else if i == g {
                assert(out[i] == header);
            } else if i < body.len() {
                assert(out[i] == body[i]);
            } else {
                assert(out[i] == Seq::<char>::empty());
            }
        }
    }
}

/// No rewritten line holds a line feed.
proof fn lemma_rewritten_plain(
    ls: Seq<Seq<char>>,
    table: Seq<char>,
    kvs: Seq<(Seq<char>, Seq<char>)>,
)
    requires
        forall|i: int| 0 <= i < kvs.len() ==> pair_ok(#[trigger] kvs[i]),
        forall|i: int| 0 <= i < ls.len() ==> !(#[trigger] ls[i]).contains('\n'),
    ensures
        ({
            let out = crate::config_toml::rewritten(false, ls, table, kvs);
            forall|i: int| 0 <= i < out.len() ==> !(#[trigger] out[i]).contains('\n')
        }),
    decreases ls.len(),
{
    if ls.len() > 0 {
        let front = ls.drop_last();
        assert forall|i: int| 0 <= i < front.len() implies !(#[trigger] front[i]).contains(
            '\n',
        ) by {
            assert(front[i] == ls[i]);
        }
        lemma_rewritten_plain(front, table, kvs);
        crate::config_toml::lemma_rewritten_len(false, front, table, kvs);
        let out = crate::config_toml::rewritten(false, ls, table, kvs);
        let fo = crate::config_toml::rewritten(false, front, table, kvs);
        let raw = ls.last();
        assert(raw == ls[ls.len() - 1]);
        if crate::config_toml::kind(raw) is Entry {
            let p = crate::config_toml::pick(kvs, crate::config_toml::kind(raw)->Entry_0);
            crate::config_toml::lemma_pick_first(kvs, crate::config_toml::kind(raw)->Entry_0);
            if p < kvs.len() {
                assert(pair_ok(kvs[p]));
                lemma_rewrite_plain(raw, kvs[p].1);
            }
        }
        assert forall|i: int| 0 <= i < out.len() implies !(#[trigger] out[i]).contains('\n') by {
            if i < fo.len() {
                assert(out[i] == fo[i]);
            }
        }
    }
}

/// Rewriting a line brings no line feed in.
proof fn lemma_rewrite_plain(raw: Seq<char>, v: Seq<char>)
    requires
        !raw.contains('\n'),
        !v.contains('\n'),
    ensures
        !crate::config_toml::rewrite(raw, v).contains('\n'),
{
    crate::text::lemma_find_first(raw, '=');
    let eq = crate::text::find(raw, '=');
    if eq < raw.len() {
        let post = raw.skip(eq + 1);
        crate::text::lemma_find_first(post, '#');
        let h = crate::text::find(post, '#');
        let p = post.skip(h);
        let comment = crate::text::trim_back(p, Fringe::White);
        let (a, b) = crate::text::lemma_core(p, Fringe::White);
        if crate::text::all_fringe(p, Fringe::White) {
            crate::text::lemma_trim_all(p, Fringe::White);
        } else {
            crate::text::lemma_trim_core(p, Fringe::White, a, b);
        }
        let out = crate::config_toml::rewrite(raw, v);
        assert forall|i: int| 0 <= i < out.len() implies out[i] != '\n' by {
            if i <= eq {
                assert(out[i] == raw[i]);
            } else if i < eq + 3 {
            } else if i < eq + 3 + v.len() {
                assert(out[i] == v[i - eq - 3]);
            } else if i < eq + 4 + v.len() {
                assert(out[i] == '"');
            } else if i < eq + 6 + v.len() {
                assert(out[i] == ' ');
            } else {
                assert(out[i] == comment[i - eq - 6 - v.len()]);
                assert(comment[i - eq - 6 - v.len()] == p[i - eq - 6 - v.len()]);
                assert(p[i - eq - 6 - v.len()] == raw[i - 5 - v.len() + h]);
            }
        }
    }
}

/// No new entry holds a line feed.
proof fn lemma_missing_plain(
    ls: Seq<Seq<char>>,
    table: Seq<char>,
    kvs: Seq<(Seq<char>, Seq<char>)>,
    n: int,
)
    requires
        0 <= n <= kvs.len(),
        forall|i: int| 0 <= i < kvs.len() ==> pair_ok(#[trigger] kvs[i]),
    ensures
        ({
            let out = crate::config_toml::missing(ls, table, kvs, n);
            forall|i: int| 0 <= i < out.len() ==> !(#[trigger] out[i]).contains('\n')
        }),
    decreases n,
{
    if n > 0 {
        lemma_missing_plain(ls, table, kvs, n - 1);
        let p = kvs[n - 1];
        let l = crate::config_toml::entry_line(p);
        assert forall|i: int| 0 <= i < l.len() implies l[i] != '\n' by {
            if i < p.0.len() {
                assert(l[i] == p.0[i]);
            } else if i < p.0.len() + 4 {
            } else if i < p.0.len() + 4 + p.1.len() {
                assert(l[i] == p.1[i - 4 - p.0.len()]);
            } else {
                assert(l[i] == '"');
            }
        }
        let fo = crate::config_toml::missing(ls, table, kvs, n - 1);
        let out = crate::config_toml::missing(ls, table, kvs, n);
        assert forall|i: int| 0 <= i < out.len() implies !(#[trigger] out[i]).contains('\n') by {
            if i < fo.len() {
                assert(out[i] == fo[i]);
            }
        }
    }
}

/// How the updated file reads.
proof fn lemma_updated(
    text: Seq<char>,
    table: Seq<char>,
    kvs: Seq<(Seq<char>, Seq<char>)>,
    t: Seq<char>,
    k: Seq<char>,
)
    requires
        name_ok(table),
        forall|i: int| 0 <= i < kvs.len() ==> pair_ok(#[trigger] kvs[i]),
    ensures
        crate::config_toml::lookup(
            false,
            crate::text::lines(crate::config_toml::updated(text, table, kvs)),
            t,
            k,
        ) == crate::config_toml::lookup(
            false,
            crate::config_toml::updated_lines(crate::text::lines(text), table, kvs),
            t,
            k,
        ),
{
    let ls = crate::text::lines(text);
    let out = crate::config_toml::updated_lines(ls, table, kvs);
    let back = crate::text::lines(crate::config_toml::updated(text, table, kvs));
    crate::text::lemma_lines_plain(text);
    lemma_updated_plain(ls, table, kvs);
    if out.len() == 0 {
        let one = seq![Seq::<char>::empty()];
        assert(crate::text::unlines(one) == seq!['\n']) by {
            assert(one.skip(1) == Seq::<Seq<char>>::empty());
            assert(crate::text::unlines(one.skip(1)) == Seq::<char>::empty());
            assert(crate::text::unlines(one) == one[0].push('\n') + Seq::<char>::empty());
        }
        assert forall|i: int| 0 <= i < one.len() implies !(#[trigger] one[i]).contains('\n') by {}
        crate::text::lemma_lines_of_unlines(one);
        assert(back.len() == 1);
        assert(back[0] == Seq::<char>::empty());
        lemma_blank(back[0]);
        assert(back.drop_last() == Seq::<Seq<char>>::empty());
        assert(crate::config_toml::lookup(false, back.drop_last(), t, k) is None);
        assert(crate::config_toml::lookup(false, back, t, k) is None);
    } else {
        crate::text::lemma_lines_of_unlines(out);
        assert forall|i: int| 0 <= i < out.len() implies crate::config_toml::kind(
            #[trigger] out[i],
        ) == crate::config_toml::kind(back[i]) by {
            lemma_without_cr(out[i]);
        }
        lemma_same_kinds(false, out, back, t, k);
    }
}

/// A value that was written is read back: `stored` of it, and the value itself when it is
/// not empty and has no quote and no space at its ends.
pub proof fn law_read_back(
    text: Seq<char>,
    table: Seq<char>,
    kvs: Seq<(Seq<char>, Seq<char>)>,
    j: int,
)
    requires
        name_ok(table),
        forall|i: int| 0 <= i < kvs.len() ==> pair_ok(#[trigger] kvs[i]),
        0 <= j < kvs.len(),
        crate::config_toml::pick(kvs, kvs[j].0) == j,
        !kvs[j].1.contains('#'),
    ensures
        crate::config_toml::table_value(
            crate::config_toml::updated(text, table, kvs),
            table,
            kvs[j].0,
        ) == stored(kvs[j].1),
        kvs[j].1.len() > 0 && crate::text::trim(kvs[j].1) == kvs[j].1 && kvs[j].1[0] != '"'
            && kvs[j].1.last() != '"' ==> stored(kvs[j].1) == Some(kvs[j].1),
{
    let k = kvs[j].0;
    let v = kvs[j].1;
    lemma_updated(text, table, kvs, table, k);
    lemma_updated_lines(crate::text::lines(text), table, kvs, table, k);
    lemma_clean(v);
    if v.len() > 0 && v[0] != '"' && v.last() != '"' {
        crate::text::lemma_trim_none(v, Fringe::Is('"'));
    }
}

/// A write leaves every other value as it was: those of other tables, and those of the
/// table that no pair is for.
pub proof fn law_other_values_kept(
    text: Seq<char>,
    table: Seq<char>,
    kvs: Seq<(Seq<char>, Seq<char>)>,
    t: Seq<char>,
    k: Seq<char>,
)
    requires
        name_ok(table),
        forall|i: int| 0 <= i < kvs.len() ==> pair_ok(#[trigger] kvs[i]),
        t != table || forall|i: int| 0 <= i < kvs.len() ==> (#[trigger] kvs[i]).0 != k,
    ensures
        crate::config_toml::table_value(crate::config_toml::updated(text, table, kvs), t, k)
            == crate::config_toml::table_value(text, t, k),
{
    if forall|i: int| 0 <= i < kvs.len() ==> (#[trigger] kvs[i]).0 != k {
        crate::config_toml::lemma_pick(kvs, k, kvs.len() as int);
    }
    lemma_updated(text, table, kvs, t, k);
    lemma_updated_lines(crate::text::lines(text), table, kvs, t, k);
}

/// A write keeps every line that is no entry of the table, comments among them, and in
/// their order; when the table has every key already, it adds no line.
pub proof fn law_lines_kept(ls: Seq<Seq<char>>, table: Seq<char>, kvs: Seq<(Seq<char>, Seq<char>)>)
    ensures
        crate::config_toml::rewritten(false, ls, table, kvs).len() == ls.len(),
        forall|i: int|
            0 <= i < ls.len() && !(crate::config_toml::kind(ls[i]) is Entry
                && crate::config_toml::inside(false, ls.take(i), table))
                ==> #[trigger] crate::config_toml::rewritten(false, ls, table, kvs)[i] == ls[i],
        (forall|j: int|
            0 <= j < kvs.len() ==> #[trigger] crate::config_toml::in_place(ls, table, kvs, j))
            ==> crate::config_toml::updated_lines(ls, table, kvs) == crate::config_toml::rewritten(
            false,
            ls,
            table,
            kvs,
        ),
        exists|at: int|
            #![trigger crate::config_toml::rewritten(false, ls, table, kvs).take(at)]
            0 <= at <= ls.len() && crate::config_toml::rewritten(false, ls, table, kvs).take(at)
                == crate::config_toml::updated_lines(ls, table, kvs).take(at)
                && crate::config_toml::rewritten(false, ls, table, kvs).skip(at)
                == crate::config_toml::updated_lines(ls, table, kvs).skip(
                crate::config_toml::updated_lines(ls, table, kvs).len() - (ls.len() - at),
            ),
{
    let body = crate::config_toml::rewritten(false, ls, table, kvs);
    crate::config_toml::lemma_rewritten_len(false, ls, table, kvs);
    assert forall|i: int|
        0 <= i < ls.len() && !(crate::config_toml::kind(ls[i]) is Entry
            && crate::config_toml::inside(false, ls.take(i), table)) implies #[trigger] body[i]
        == ls[i] by {
        lemma_rewritten_take(ls, table, kvs, i + 1);
        let upto = ls.take(i + 1);
        assert(body.take(i + 1)[i] == body[i]);
        assert(upto.drop_last() == ls.take(i));
        assert(upto.last() == ls[i]);
        crate::config_toml::lemma_rewritten_len(false, ls.take(i), table, kvs);
    }
    if forall|j: int|
        0 <= j < kvs.len() ==> #[trigger] crate::config_toml::in_place(ls, table, kvs, j) {
        lemma_none_missing(ls, table, kvs, kvs.len() as int);
    }
    let out = crate::config_toml::updated_lines(ls, table, kvs);
    let more = crate::config_toml::missing(ls, table, kvs, kvs.len() as int);
    let at = crate::config_toml::insert_at(ls, table);
    crate::config_toml::lemma_insert_at(ls, table);
    if more.len() == 0 {
        assert(body.take(0) == out.take(0));
    } else if at > 0 {
        assert(body.take(at) == out.take(at));
        assert(body.skip(at) == out.skip(out.len() - (ls.len() - at)));
    } else {
        let n = ls.len() as int;
        assert(body.take(n) == out.take(n));
        assert(body.skip(n) == out.skip(out.len() - (ls.len() - n)));
    }
}

/// Where every pair is written in place, no entry is missing.
proof fn lemma_none_missing(
    ls: Seq<Seq<char>>,
    table: Seq<char>,
    kvs: Seq<(Seq<char>, Seq<char>)>,
    n: int,
)
    requires
        0 <= n <= kvs.len(),
        forall|j: int|
            0 <= j < kvs.len() ==> #[trigger] crate::config_toml::in_place(ls, table, kvs, j),
    ensures
        crate::config_toml::missing(ls, table, kvs, n).len() == 0,
    decreases n,
{
    if n > 0 {
        lemma_none_missing(ls, table, kvs, n - 1);
        assert(crate::config_toml::in_place(ls, table, kvs, n - 1));
    }
}

/// Whether a line does not end in a carriage return.
pub open spec fn ends_clean(l: Seq<char>) -> bool {
    l.len() == 0 || l.last() != '\r'
}

/// A line that was rewritten with a value is as it is when it is rewritten with that value
/// again.
proof fn lemma_rewrite_twice(raw: Seq<char>, v: Seq<char>)
    requires
        crate::config_toml::kind(raw) is Entry,
        !v.contains('#'),
    ensures
        crate::config_toml::rewrite(crate::config_toml::rewrite(raw, v), v)
            == crate::config_toml::rewrite(raw, v),
        ends_clean(crate::config_toml::rewrite(raw, v)),
{
    lemma_entry_shape(raw);
    let eq = crate::text::find(raw, '=');
    let x = raw.take(eq);
    let post = raw.skip(eq + 1);
    crate::text::lemma_find_first(post, '#');
    crate::text::lemma_find_first(raw, '=');
    let h = crate::text::find(post, '#');
    let p = post.skip(h);
    let comment = crate::text::trim_back(p, Fringe::White);
    let more = if h < post.len() {
        seq![' ', ' '] + comment
    } else {
        Seq::<char>::empty()
    };
    let q = quoted(v);
    if h < post.len() {
        assert(p[0] == '#');
        let (a, b) = crate::text::lemma_core(p, Fringe::White);
        assert(!Fringe::White.has(p[0]));
        crate::text::lemma_trim_core(p, Fringe::White, a, b);
        assert(comment == p.take(b));
        assert(comment[0] == '#');
        assert(comment.last() == p[b - 1]);
        assert(!Fringe::White.has(comment.last()));
        assert(crate::text::trim_back(comment, Fringe::White) == comment);
        assert(Fringe::White.has('\r'));
    }
    let once = crate::config_toml::rewrite(raw, v);
    assert(raw.take(eq + 1) == x.push('='));
    assert(once == x.push('=') + (q + more));
    assert forall|i: int| 0 <= i < eq implies once[i] != '=' by {
        assert(once[i] == x[i]);
    }
    assert(once[eq] == '=');
    crate::text::lemma_find(once, '=', eq);
    assert(once.skip(eq + 1) == q + more);
    assert(once.take(eq + 1) == x.push('='));
    let s = q + more;
    let n: int = if h < post.len() {
        q.len() as int + 2
    } else {
        q.len() as int
    };
    assert forall|i: int| 0 <= i < n implies s[i] != '#' by {
        if i < 2 {
        } else if i < 2 + v.len() {
            assert(s[i] == v[i - 2]);
        } else if i < q.len() {
            assert(s[i] == '"');
        } else {
            assert(s[i] == more[i - q.len()]);
        }
    }
    if h < post.len() {
        assert(s[n] == more[2]);
        assert(more[2] == comment[0]);
    }
    crate::text::lemma_find(s, '#', n);
    if h < post.len() {
        assert(s.skip(n) == comment);
        assert(once.last() == comment.last());
    } else {
        assert(once.last() == '"');
    }
    assert(crate::config_toml::rewrite(once, v) == once);
}

/// A new entry is as it is when it is rewritten with its value.
proof fn lemma_entry_rewritten(p: (Seq<char>, Seq<char>))
    requires
        pair_ok(p),
        !p.1.contains('#'),
    ensures
        crate::config_toml::rewrite(crate::config_toml::entry_line(p), p.1)
            == crate::config_toml::entry_line(p),
        ends_clean(crate::config_toml::entry_line(p)),
{
    let l = crate::config_toml::entry_line(p);
    let n = p.0.len() as int + 1;
    let q = quoted(p.1);
    assert(l == p.0.push(' ').push('=') + q);
    assert forall|i: int| 0 <= i < n implies l[i] != '=' by {
        if i < p.0.len() {
            assert(l[i] == p.0[i]);
        }
    }
    assert(l[n] == '=');
    crate::text::lemma_find(l, '=', n);
    assert(l.skip(n + 1) == q);
    assert forall|i: int| 0 <= i < q.len() implies q[i] != '#' by {
        if 2 <= i < 2 + p.1.len() {
            assert(q[i] == p.1[i - 2]);
        }
    }
    crate::text::lemma_find(q, '#', q.len() as int);
    assert(l.last() == '"');
    assert(crate::config_toml::rewrite(l, p.1) == l);
}

/// How two lists of lines are rewritten, one behind the other.
proof fn lemma_rewritten_add(
    start: bool,
    a: Seq<Seq<char>>,
    b: Seq<Seq<char>>,
    table: Seq<char>,
    kvs: Seq<(Seq<char>, Seq<char>)>,
)
    ensures
        crate::config_toml::rewritten(start, a + b, table, kvs) == crate::config_toml::rewritten(
            start,
            a,
            table,
            kvs,
        ) + crate::config_toml::rewritten(
            crate::config_toml::inside(start, a, table),
            b,
            table,
            kvs,
        ),
    decreases b.len(),
{
    if b.len() > 0 {
        assert((a + b).drop_last() == a + b.drop_last());
        lemma_rewritten_add(start, a, b.drop_last(), table, kvs);
        lemma_inside_add(start, a, b.drop_last(), table);
        assert((a + b).last() == b.last());
    } else {
        assert(a + b == a);
    }
}

/// Lines that were rewritten are as they are when they are rewritten again.
proof fn lemma_rewritten_twice(
    ls: Seq<Seq<char>>,
    table: Seq<char>,
    kvs: Seq<(Seq<char>, Seq<char>)>,
)
    requires
        forall|i: int|
            0 <= i < kvs.len() ==> pair_ok(#[trigger] kvs[i]) && !kvs[i].1.contains('#'),
    ensures
        ({
            let body = crate::config_toml::rewritten(false, ls, table, kvs);
            crate::config_toml::rewritten(false, body, table, kvs) == body
        }),
    decreases ls.len(),
{
    if ls.len() > 0 {
        let front = ls.drop_last();
        lemma_rewritten_twice(front, table, kvs);
        lemma_rewritten(front, table, kvs, table, table);
        let body = crate::config_toml::rewritten(false, ls, table, kvs);
        let fb = crate::config_toml::rewritten(false, front, table, kvs);
        assert(body.drop_last() == fb);
        let within = crate::config_toml::inside(false, front, table);
        let line = ls.last();
        if crate::config_toml::kind(line) is Entry {
            let key = crate::config_toml::kind(line)->Entry_0;
            crate::config_toml::lemma_pick_first(kvs, key);
            let p = crate::config_toml::pick(kvs, key);
            if within && p < kvs.len() {
                assert(pair_ok(kvs[p]));
                lemma_rewrite(line, kvs[p].1);
                lemma_rewrite_twice(line, kvs[p].1);
            }
        }
    }
}

/// New entries are as they are when they are rewritten.
proof fn lemma_missing_rewritten(
    ls: Seq<Seq<char>>,
    table: Seq<char>,
    kvs: Seq<(Seq<char>, Seq<char>)>,
    n: int,
    start: bool,
)
    requires
        0 <= n <= kvs.len(),
        forall|i: int|
            0 <= i < kvs.len() ==> pair_ok(#[trigger] kvs[i]) && !kvs[i].1.contains('#'),
        forall|j: int|
            0 <= j < kvs.len() ==> crate::config_toml::pick(kvs, (#[trigger] kvs[j]).0) == j,
    ensures
        ({
            let more = crate::config_toml::missing(ls, table, kvs, n);
            crate::config_toml::rewritten(start, more, table, kvs) == more
        }),
    decreases n,
{
    if n > 0 {
        lemma_missing_rewritten(ls, table, kvs, n - 1, start);
        let before = crate::config_toml::missing(ls, table, kvs, n - 1);
        if !crate::config_toml::in_place(ls, table, kvs, n - 1) {
            let p = kvs[n - 1];
            assert(pair_ok(p));
            lemma_new_entry(p);
            lemma_entry_rewritten(p);
            let more = before.push(crate::config_toml::entry_line(p));
            assert(more.drop_last() == before);
            assert(crate::config_toml::pick(kvs, p.0) == n - 1);
        }
    }
}

/// The lines of the updated file are as they are when the same pairs are written again.
proof fn lemma_updated_twice(
    ls: Seq<Seq<char>>,
    table: Seq<char>,
    kvs: Seq<(Seq<char>, Seq<char>)>,
)
    requires
        name_ok(table),
        forall|i: int|
            0 <= i < kvs.len() ==> pair_ok(#[trigger] kvs[i]) && !kvs[i].1.contains('#'),
        forall|j: int|
            0 <= j < kvs.len() ==> crate::config_toml::pick(kvs, (#[trigger] kvs[j]).0) == j,
    ensures
        ({
            let out = crate::config_toml::updated_lines(ls, table, kvs);
            crate::config_toml::updated_lines(out, table, kvs) == out
        }),
{
    let n = kvs.len() as int;
    let out = crate::config_toml::updated_lines(ls, table, kvs);
    let body = crate::config_toml::rewritten(false, ls, table, kvs);
    let more = crate::config_toml::missing(ls, table, kvs, n);
    let at = crate::config_toml::insert_at(ls, table);
    assert forall|j: int| 0 <= j < kvs.len() implies #[trigger] crate::config_toml::in_place(
        out,
        table,
        kvs,
        j,
    ) by {
        assert(pair_ok(kvs[j]));
        assert(crate::config_toml::pick(kvs, kvs[j].0) == j);
        lemma_updated_lines(ls, table, kvs, table, kvs[j].0);
    }
    lemma_none_missing(out, table, kvs, n);
    lemma_rewritten_twice(ls, table, kvs);
    crate::config_toml::lemma_rewritten_len(false, ls, table, kvs);
    crate::config_toml::lemma_insert_at(ls, table);
    if more.len() == 0 {
    } else if at > 0 {
        let a = body.take(at);
        let b = body.skip(at);
        let s = crate::config_toml::inside(false, a, table);
        assert(a + b == body);
        lemma_rewritten_add(false, a, b, table, kvs);
        lemma_rewritten_take(body, table, kvs, at);
        assert(crate::config_toml::rewritten(false, a, table, kvs) == a);
        assert(crate::config_toml::rewritten(s, b, table, kvs) == b) by {
            let ra = crate::config_toml::rewritten(false, a, table, kvs);
            let rb = crate::config_toml::rewritten(s, b, table, kvs);
            assert((ra + rb).skip(ra.len() as int) == rb);
            assert(body.skip(a.len() as int) == b);
        }
        lemma_rewritten_add(false, a + more, b, table, kvs);
        lemma_rewritten_add(false, a, more, table, kvs);
        lemma_inside_add(false, a, more, table);
        lemma_missing(ls, table, kvs, n, s, table, table);
        lemma_missing_rewritten(ls, table, kvs, n, s);
    } else {
        let gap = if body.len() > 0 && crate::text::trim(body.last()).len() > 0 {
            body.push(Seq::empty())
        } else {
            body
        };
        let header = seq!['['] + table + seq![']'];
        let blank = Seq::<char>::empty();
        assert(crate::text::trim(blank).len() == 0);
        lemma_blank(blank);
        if gap.len() > body.len() {
            assert(gap.drop_last() == body);
            assert(gap.last() == blank);
        }
        assert(crate::config_toml::rewritten(false, gap, table, kvs) == gap);
        let g = gap.push(header);
        lemma_new_header(table);
        assert(g.drop_last() == gap);
        assert(crate::config_toml::rewritten(false, g, table, kvs) == g);
        lemma_rewritten_add(false, g, more, table, kvs);
        lemma_missing_rewritten(
            ls,
            table,
            kvs,
            n,
            crate::config_toml::inside(false, g, table),
        );
    }
}

/// Where no line ends in a carriage return, none does once it is rewritten.
proof fn lemma_rewritten_clean(
    ls: Seq<Seq<char>>,
    table: Seq<char>,
    kvs: Seq<(Seq<char>, Seq<char>)>,
)
    requires
        forall|i: int|
            0 <= i < kvs.len() ==> pair_ok(#[trigger] kvs[i]) && !kvs[i].1.contains('#'),
        forall|i: int| 0 <= i < ls.len() ==> ends_clean(#[trigger] ls[i]),
    ensures
        ({
            let out = crate::config_toml::rewritten(false, ls, table, kvs);
            forall|i: int| 0 <= i < out.len() ==> ends_clean(#[trigger] out[i])
        }),
    decreases ls.len(),
{
    if ls.len() > 0 {
        let front = ls.drop_last();
        assert forall|i: int| 0 <= i < front.len() implies ends_clean(#[trigger] front[i]) by {
            assert(front[i] == ls[i]);
        }
        lemma_rewritten_clean(front, table, kvs);
        let out = crate::config_toml::rewritten(false, ls, table, kvs);
        let fo = crate::config_toml::rewritten(false, front, table, kvs);
        let raw = ls.last();
        assert(raw == ls[ls.len() - 1]);
        if crate::config_toml::kind(raw) is Entry {
            let key = crate::config_toml::kind(raw)->Entry_0;
            let p = crate::config_toml::pick(kvs, key);
            crate::config_toml::lemma_pick_first(kvs, key);
            if p < kvs.len() {
                assert(pair_ok(kvs[p]));
                lemma_rewrite_twice(raw, kvs[p].1);
            }
        }
        assert forall|i: int| 0 <= i < out.len() implies ends_clean(#[trigger] out[i]) by {
            if i < fo.len() {
                assert(out[i] == fo[i]);
            }
        }
    }
}

/// No new entry ends in a carriage return.
proof fn lemma_missing_clean(
    ls: Seq<Seq<char>>,
    table: Seq<char>,
    kvs: Seq<(Seq<char>, Seq<char>)>,
    n: int,
)
    requires
        0 <= n <= kvs.len(),
        forall|i: int|
            0 <= i < kvs.len() ==> pair_ok(#[trigger] kvs[i]) && !kvs[i].1.contains('#'),
    ensures
        ({
            let out = crate::config_toml::missing(ls, table, kvs, n);
            forall|i: int| 0 <= i < out.len() ==> ends_clean(#[trigger] out[i])
        }),
    decreases n,
{
    if n > 0 {
        lemma_missing_clean(ls, table, kvs, n - 1);
        assert(pair_ok(kvs[n - 1]));
        lemma_entry_rewritten(kvs[n - 1]);
        let fo = crate::config_toml::missing(ls, table, kvs, n - 1);
        let out = crate::config_toml::missing(ls, table, kvs, n);
        assert forall|i: int| 0 <= i < out.len() implies ends_clean(#[trigger] out[i]) by {
            if i < fo.len() {
                assert(out[i] == fo[i]);
            }
        }
    }
}

/// Where no line ends in a carriage return, none does in the updated file.
proof fn lemma_updated_clean(
    ls: Seq<Seq<char>>,
    table: Seq<char>,
    kvs: Seq<(Seq<char>, Seq<char>)>,
)
    requires
        forall|i: int|
            0 <= i < kvs.len() ==> pair_ok(#[trigger] kvs[i]) && !kvs[i].1.contains('#'),
        forall|i: int| 0 <= i < ls.len() ==> ends_clean(#[trigger] ls[i]),
    ensures
        ({
            let out = crate::config_toml::updated_lines(ls, table, kvs);
            forall|i: int| 0 <= i < out.len() ==> ends_clean(#[trigger] out[i])
        }),
{
    let n = kvs.len() as int;
    let body = crate::config_toml::rewritten(false, ls, table, kvs);
    let more = crate::config_toml::missing(ls, table, kvs, n);
    lemma_rewritten_clean(ls, table, kvs);
    lemma_missing_clean(ls, table, kvs, n);
    crate::config_toml::lemma_insert_at(ls, table);
    crate::config_toml::lemma_rewritten_len(false, ls, table, kvs);
    let at = crate::config_toml::insert_at(ls, table);
    let out = crate::config_toml::updated_lines(ls, table, kvs);
    if more.len() == 0 {
    } else if at > 0 {
        assert forall|i: int| 0 <= i < out.len() implies ends_clean(#[trigger] out[i]) by {
            if i < at {
                assert(out[i] == body[i]);
            } else if i < at + more.len() {
                assert(out[i] == more[i - at]);
            } else {
                assert(out[i] == body[i - more.len()]);
            }
        }
    } else {
        let header = seq!['['] + table + seq![']'];
        assert(header.last() == ']');
        let g = out.len() - more.len() - 1;
        assert forall|i: int| 0 <= i < out.len() implies ends_clean(#[trigger] out[i]) by {
            if i > g {
                assert(out[i] == more[i - g - 1]);
            } else if i == g {
                assert(out[i] == header);
            } else if i < body.len() {
                assert(out[i] == body[i]);
            } else {
                assert(out[i] == Seq::<char>::empty());
            }
        }
    }
}

/// Writing the same pairs twice changes nothing more: once they are written, to write them
/// again gives the same text. The keys differ from each other. A line that keeps a carriage
/// return at its end, as one does that ended in two of them, loses it at the second time.
pub proof fn law_write_twice(
    text: Seq<char>,
    table: Seq<char>,
    kvs: Seq<(Seq<char>, Seq<char>)>,
)
    requires
        name_ok(table),
        forall|i: int|
            0 <= i < kvs.len() ==> pair_ok(#[trigger] kvs[i]) && !kvs[i].1.contains('#'),
        forall|i: int, j: int|
            0 <= i < j < kvs.len() ==> (#[trigger] kvs[i]).0 != (#[trigger] kvs[j]).0,
        forall|i: int|
            0 <= i < crate::text::lines(text).len() ==> ends_clean(
                #[trigger] crate::text::lines(text)[i],
            ),
    ensures
        ({
            let r = crate::config_toml::updated(text, table, kvs);
            crate::config_toml::updated(r, table, kvs) == r
        }),
{
    let ls = crate::text::lines(text);
    let out = crate::config_toml::updated_lines(ls, table, kvs);
    let r = crate::config_toml::updated(text, table, kvs);
    let back = crate::text::lines(r);
    assert forall|j: int| 0 <= j < kvs.len() implies crate::config_toml::pick(
        kvs,
        (#[trigger] kvs[j]).0,
    ) == j by {
        crate::config_toml::lemma_pick(kvs, kvs[j].0, j);
    }
    lemma_updated_twice(ls, table, kvs);
    lemma_updated_clean(ls, table, kvs);
    crate::text::lemma_lines_plain(text);
    lemma_updated_plain(ls, table, kvs);
    if out.len() == 0 {
        let blank = Seq::<char>::empty();
        let one = seq![blank];
        assert(crate::text::unlines(one) == seq!['\n']) by {
            assert(one.skip(1) == Seq::<Seq<char>>::empty());
            assert(crate::text::unlines(one.skip(1)) == Seq::<char>::empty());
            assert(crate::text::unlines(one) == one[0].push('\n') + Seq::<char>::empty());
        }
        assert forall|i: int| 0 <= i < one.len() implies !(#[trigger] one[i]).contains('\n') by {}
        crate::text::lemma_lines_of_unlines(one);
        assert(back == one);
        assert(crate::text::trim(blank).len() == 0);
        lemma_blank(blank);
        if kvs.len() > 0 {
            assert(crate::config_toml::pick(kvs, kvs[0].0) == 0);
            lemma_updated_lines(ls, table, kvs, table, kvs[0].0);
            assert(pair_ok(kvs[0]));
            assert(false);
        }
        assert(crate::config_toml::missing(one, table, kvs, 0).len() == 0);
        assert(one.drop_last() == Seq::<Seq<char>>::empty());
        assert(crate::config_toml::rewritten(false, one.drop_last(), table, kvs) == Seq::<
            Seq<char>,
        >::empty());
        assert(crate::config_toml::rewritten(false, one, table, kvs) == one);
    } else {
        crate::text::lemma_lines_of_unlines(out);
        assert forall|i: int| 0 <= i < out.len() implies crate::text::without_cr(
            #[trigger] out[i],
        ) == out[i] by {
            assert(ends_clean(out[i]));
        }
        assert(back == out);
    }
}

/// In a file without carriage returns, writing the same pairs twice changes nothing more.
pub proof fn law_write_twice_plain(
    text: Seq<char>,
    table: Seq<char>,
    kvs: Seq<(Seq<char>, Seq<char>)>,
)
    requires
        name_ok(table),
        forall|i: int|
            0 <= i < kvs.len() ==> pair_ok(#[trigger] kvs[i]) && !kvs[i].1.contains('#'),
        forall|i: int, j: int|
            0 <= i < j < kvs.len() ==> (#[trigger] kvs[i]).0 != (#[trigger] kvs[j]).0,
        !text.contains('\r'),
    ensures
        ({
            let r = crate::config_toml::updated(text, table, kvs);
            crate::config_toml::updated(r, table, kvs) == r
        }),
{
    lemma_lines_clean(text);
    law_write_twice(text, table, kvs);
}

/// The lines of a text without carriage returns end in none.
proof fn lemma_lines_clean(s: Seq<char>)
    requires
        !s.contains('\r'),
    ensures
        forall|i: int|
            0 <= i < crate::text::lines(s).len() ==> ends_clean(#[trigger] crate::text::lines(s)[i]),
    decreases s.len(),
{
    crate::text::lemma_find_first(s, '\n');
    let n = crate::text::find(s, '\n');
    if s.len() == 0 {
    } else if n < s.len() {
        let rest = s.skip(n + 1);
        assert forall|i: int| 0 <= i < rest.len() implies rest[i] != '\r' by {
            assert(rest[i] == s[n + 1 + i]);
        }
        lemma_lines_clean(rest);
        assert forall|i: int| 0 <= i < crate::text::lines(s).len() implies ends_clean(
            #[trigger] crate::text::lines(s)[i],
        ) by {
            if i > 0 {
                assert(crate::text::lines(s)[i] == crate::text::lines(rest)[i - 1]);
            } else {
                let l = s.take(n);
                if n > 0 {
                    assert(l.last() == s[n - 1]);
                }
                assert(crate::text::lines(s)[0] == l);
            }
        }
    } else {
        assert(s.last() == s[s.len() - 1]);
        assert(crate::text::lines(s)[0] == s);
    }
}

} // verus!
