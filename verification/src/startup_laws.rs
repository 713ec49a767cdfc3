//! What holds of the configuration file as it is read, and of the settings that the console
//! starts with.

use vstd::prelude::*;

use crate::choices::Contest;
use crate::config_toml::Line;
use crate::panels::waterfall::config_form::{ConfigForm, UsbIdentity};
use crate::settings::{LayoutNumbers, Station, WindowNumbers, WindowSize};
use crate::text::Fringe;
use crate::types::{Band, ContestProfile, LineProfile, Protocol, StationConfig};

verus! {

/// Whether a text has a character nowhere.
pub open spec fn lacks(s: Seq<char>, c: char) -> bool {
    forall|i: int| 0 <= i < s.len() ==> #[trigger] s[i] != c
}

/// What stands behind a number sign is a comment: a line is what it is without it.
pub proof fn law_comments_are_cut(line: Seq<char>, comment: Seq<char>)
    requires
        lacks(line, '#'),
    ensures
        crate::config_toml::code(line + seq!['#'] + comment) == crate::text::trim(line),
        crate::config_toml::kind(line + seq!['#'] + comment) == crate::config_toml::kind(line),
{
    let all = line + seq!['#'] + comment;
    assert(all[line.len() as int] == '#');
    assert forall|i: int| 0 <= i < line.len() implies all[i] != '#' by {
        assert(all[i] == line[i]);
    }
    crate::text::lemma_find(all, '#', line.len() as int);
    assert(all.take(line.len() as int) == line);
    crate::text::lemma_find(line, '#', line.len() as int);
    assert(line.take(line.len() as int) == line);
}

/// A name in square brackets is the header of the table of that name, with or without space
/// around the name.
pub proof fn law_header_line(name: Seq<char>)
    requires
        lacks(name, '#'),
    ensures
        crate::config_toml::kind(seq!['['] + name + seq![']']) == Line::Header(
            crate::text::trim(name),
        ),
{
    let line = seq!['['] + name + seq![']'];
    assert forall|i: int| 0 <= i < line.len() implies line[i] != '#' by {
        if 0 < i < line.len() - 1 {
            assert(line[i] == name[i - 1]);
        }
    }
    crate::text::lemma_find(line, '#', line.len() as int);
    assert(line.take(line.len() as int) == line);
    crate::text::lemma_trim_none(line, Fringe::White);
    assert(line.subrange(1, line.len() - 1) == name);
}

/// A key, an equals sign and a text are an entry: the key is what stands before the first
/// equals sign, without space, and the value what stands behind it.
pub proof fn law_entry_line(key: Seq<char>, gap: Seq<char>, value: Seq<char>)
    requires
        crate::text_laws::is_word(key),
        crate::text::all_fringe(gap, Fringe::White),
        lacks(key, '#') && lacks(key, '=') && key[0] != '[',
        value.len() > 0 && !crate::text::white(value.last()),
        lacks(value, '#'),
    ensures
        crate::config_toml::kind(key + gap + seq!['='] + value) == Line::Entry(key, value),
{
    let line = key + gap + seq!['='] + value;
    let n = (key.len() + gap.len()) as int;
    assert forall|i: int| 0 <= i < line.len() implies line[i] != '#' by {
        if i < key.len() {
            assert(line[i] == key[i]);
        } else if i < n {
            assert(line[i] == gap[i - key.len()]);
            assert(Fringe::White.has(gap[i - key.len()]));
        } else if i > n {
            assert(line[i] == value[i - n - 1]);
        }
    }
    crate::text::lemma_find(line, '#', line.len() as int);
    assert(line.take(line.len() as int) == line);
    assert(line[0] == key[0]);
    assert(line.last() == value.last());
    crate::text::lemma_trim_none(line, Fringe::White);
    assert(line[n] == '=');
    assert forall|i: int| 0 <= i < n implies line[i] != '=' by {
        if i < key.len() {
            assert(line[i] == key[i]);
        } else {
            assert(line[i] == gap[i - key.len()]);
            assert(Fringe::White.has(gap[i - key.len()]));
        }
    }
    crate::text::lemma_find(line, '=', n);
    assert(line.skip(n + 1) == value);
    let head = line.take(n);
    assert(head == key + gap);
    assert forall|i: int| key.len() <= i < head.len() implies Fringe::White.has(
        #[trigger] head[i],
    ) by {
        assert(head[i] == gap[i - key.len()]);
        assert(Fringe::White.has(gap[i - key.len()]));
    }
    assert(head[0] == key[0] && head[key.len() - 1] == key[key.len() - 1]);
    crate::text::lemma_trim_core(head, Fringe::White, 0, key.len() as int);
    assert(head.subrange(0, key.len() as int) == key);
}

/// A value counts without the quotes and the space around it; an empty one counts as unset.
pub proof fn law_quoted_value(v: Seq<char>)
    requires
        v.len() > 0 ==> !crate::text::white(v[0]) && !crate::text::white(v.last()) && v[0] != '"'
            && v.last() != '"',
    ensures
        crate::config_toml::clean(seq![' ', '"'] + v + seq!['"']) == (if v.len() > 0 {
            Some(v)
        } else {
            None
        }),
        v.len() > 0 ==> crate::config_toml::clean(v) == Some(v),
{
    let quoted = seq!['"'] + v + seq!['"'];
    assert(seq![' ', '"'] + v + seq!['"'] == seq![' '] + quoted);
    crate::text::lemma_trim_prepend(quoted, ' ', Fringe::White);
    assert(quoted[0] == '"' && quoted.last() == '"');
    crate::text::lemma_trim_none(quoted, Fringe::White);
    let q = Fringe::Is('"');
    crate::text::lemma_trim_none(v, q);
    crate::text::lemma_trim_prepend(v.push('"'), '"', q);
    crate::text::lemma_trim_push(v, '"', q);
    assert(seq!['"'] + v.push('"') == quoted);
    crate::text::lemma_trim_none(v, Fringe::White);
}

/// A value is looked up in its own table: below the table's header, and below no other. An
/// entry for the key there gives its value, whatever stands before the header.
pub proof fn law_value_of_a_table(
    before: Seq<Seq<char>>,
    header: Seq<char>,
    entry: Seq<char>,
    table: Seq<char>,
    name: Seq<char>,
    key: Seq<char>,
    value: Seq<char>,
)
    requires
        crate::config_toml::kind(header) == Line::Header(name),
        crate::config_toml::kind(entry) == Line::Entry(key, value),
        crate::config_toml::lookup(false, before, table, key) is None,
    ensures
        name == table ==> crate::config_toml::lookup(
            false,
            before.push(header).push(entry),
            table,
            key,
        ) == Some(value),
        name != table ==> crate::config_toml::lookup(
            false,
            before.push(header).push(entry),
            table,
            key,
        ) is None,
{
    let ls = before.push(header);
    assert(ls.drop_last() == before);
    assert(ls.last() == header);
    assert(ls.push(entry).drop_last() == ls);
    assert(ls.push(entry).last() == entry);
    assert(crate::config_toml::lookup(false, ls, table, key) is None);
}

/// The first entry for a key counts: what follows it changes nothing.
pub proof fn law_first_entry_counts(
    a: Seq<Seq<char>>,
    b: Seq<Seq<char>>,
    table: Seq<char>,
    key: Seq<char>,
    value: Seq<char>,
)
    requires
        crate::config_toml::lookup(false, a, table, key) == Some(value),
    ensures
        crate::config_toml::lookup(false, a + b, table, key) == Some(value),
    decreases b.len(),
{
    if b.len() == 0 {
        assert(a + b == a);
    } else {
        law_first_entry_counts(a, b.drop_last(), table, key, value);
        assert((a + b).drop_last() == a + b.drop_last());
    }
}

/// Entries above the first header belong to no table.
pub proof fn law_no_table_above_the_first_header(
    ls: Seq<Seq<char>>,
    table: Seq<char>,
    key: Seq<char>,
)
    requires
        forall|i: int| 0 <= i < ls.len() ==> !(crate::config_toml::kind(#[trigger] ls[i]) is Header),
    ensures
        !crate::config_toml::inside(false, ls, table),
        crate::config_toml::lookup(false, ls, table, key) is None,
    decreases ls.len(),
{
    if ls.len() > 0 {
        let t = ls.drop_last();
        assert forall|i: int| 0 <= i < t.len() implies !(crate::config_toml::kind(
            #[trigger] t[i],
        ) is Header) by {
            assert(t[i] == ls[i]);
        }
        law_no_table_above_the_first_header(t, table, key);
        assert(!(crate::config_toml::kind(ls[ls.len() - 1]) is Header));
    }
}

/// A rewritten line keeps its key and its comment, and holds the new value in quotes.
pub proof fn law_rewritten_line(key: Seq<char>, old_value: Seq<char>, value: Seq<char>, c: Seq<char>)
    requires
        lacks(key, '='),
        lacks(old_value, '#'),
        c.len() > 0 ==> !crate::text::white(c.last()),
    ensures
        crate::config_toml::rewrite(key + seq!['='] + old_value, value) == key + seq![
            '=', ' ', '"',
        ] + value + seq!['"'],
        crate::config_toml::rewrite(key + seq!['='] + old_value + seq!['#'] + c, value) == key
            + seq!['=', ' ', '"'] + value + seq!['"', ' ', ' ', '#'] + c,
        crate::config_toml::rewrite(key, value) == key,
{
    let n = key.len() as int;
    let plain = key + seq!['='] + old_value;
    let tail = seq!['#'] + c;
    let noted = key + seq!['='] + old_value + seq!['#'] + c;
    assert forall|i: int| 0 <= i < n implies plain[i] != '=' && noted[i] != '=' by {
        assert(plain[i] == key[i] && noted[i] == key[i]);
    }
    assert(plain[n] == '=' && noted[n] == '=');
    crate::text::lemma_find(plain, '=', n);
    crate::text::lemma_find(noted, '=', n);
    crate::text::lemma_find(key, '=', n);
    assert(plain.skip(n + 1) == old_value);
    crate::text::lemma_find(old_value, '#', old_value.len() as int);
    let post = noted.skip(n + 1);
    assert(post == old_value + tail);
    assert forall|i: int| 0 <= i < old_value.len() implies post[i] != '#' by {
        assert(post[i] == old_value[i]);
    }
    assert(post[old_value.len() as int] == '#');
    crate::text::lemma_find(post, '#', old_value.len() as int);
    assert(post.skip(old_value.len() as int) == tail);
    assert(tail.last() == (if c.len() > 0 {
        c.last()
    } else {
        '#'
    }));
    assert(crate::text::trim_back(tail, Fringe::White) == tail);
    assert(plain.take(n + 1) == key.push('='));
    assert(noted.take(n + 1) == key.push('='));
    assert(crate::config_toml::rewrite(plain, value) == key + seq!['=', ' ', '"'] + value + seq![
        '"',
    ]);
    assert(crate::config_toml::rewrite(noted, value) == key + seq!['=', ' ', '"'] + value + seq![
        '"', ' ', ' ', '#',
    ] + c);
}

/// Each setting is taken from its variable where that is set and not empty, then from the
/// file, then from a default; the rig's speed is 19200 by default, and a variable that is no
/// number counts as the default too, not as the file.
pub proof fn law_speed_of_the_rig(n: u32, file: u32, word: Seq<char>, from_file: Option<u32>)
    ensures
        crate::settings::baud_from(Some(crate::numbers::dec(n as nat)), from_file) == n,
        crate::settings::baud_from(None, Some(file)) == file,
        crate::settings::baud_from(Some(Seq::empty()), Some(file)) == file,
        crate::settings::baud_from(None, None) == 19_200,
        word.len() > 0 && crate::numbers::read_number(word, 10, 0xFFFF_FFFF) is None
            ==> crate::settings::baud_from(Some(word), from_file) == 19_200,
{
    crate::numbers::law_dec_read_back(n as nat, 0xFFFF_FFFF);
    assert(crate::numbers::dec(n as nat).len() > 0);
}

/// The lines of the rig are set up as the variable says, else as the file says, else plainly;
/// a word for no profile in the variable counts as the plain one.
pub proof fn law_lines_of_the_rig(p: LineProfile, file: Option<LineProfile>, word: Seq<char>)
    ensures
        crate::settings::profile_from(Some(p.word()), file) == p,
        crate::settings::profile_from(None, Some(p)) == p,
        crate::settings::profile_from(Some(Seq::empty()), Some(p)) == p,
        crate::settings::profile_from(None, None) == LineProfile::Default,
        word.len() > 0 && (forall|q: LineProfile| #[trigger] q.word() != word)
            ==> crate::settings::profile_from(Some(word), file) == LineProfile::Default,
        crate::settings::profile_of(p.word()) == Some(p),
{
    reveal_strlit("none");
    reveal_strlit("dtr-rts");
    reveal_strlit("rtscts");
    assert("none"@.len() == 4 && "dtr-rts"@.len() == 7 && "rtscts"@.len() == 6);
    assert(p.word().len() > 0);
    if word.len() > 0 && (forall|q: LineProfile| #[trigger] q.word() != word) {
        assert(LineProfile::Default.word() != word);
        assert(LineProfile::AssertDtrRts.word() != word);
        assert(LineProfile::HardwareFlow.word() != word);
    }
}

/// An identity comes from its variable where that is set and not empty, else from the file,
/// else there is none.
pub proof fn law_identity_word(env: Seq<char>, file: Option<Seq<char>>, f: Seq<char>)
    ensures
        env.len() > 0 ==> crate::settings::identity_word(Some(env), file) == env,
        crate::settings::identity_word(Some(Seq::empty()), Some(f)) == f,
        crate::settings::identity_word(None, Some(f)) == f,
        crate::settings::identity_word(None, None).len() == 0,
{
}

/// The call sign in the file is `callsign`, and `call` only where that is unset.
pub proof fn law_call_in_the_file(text: Seq<char>)
    ensures
        ({
            let a = crate::config_toml::table_value(text, "station"@, "callsign"@);
            let b = crate::config_toml::table_value(text, "station"@, "call"@);
            &&& a is Some ==> crate::settings::station_call(text) == a
            &&& a is None ==> crate::settings::station_call(text) == b
        }),
{
}

/// The protocol at the start: what the variable asks for counts before what was kept; FT8
/// where neither says. A variable that is set names FT4 or means FT8.
pub proof fn law_protocol_at_start(mode: Seq<char>, config: Option<Seq<char>>)
    ensures
        crate::settings::first_protocol(None, None) == Protocol::Ft8,
        crate::settings::first_protocol(Some(Seq::empty()), config)
            == crate::settings::first_protocol(None, config),
        mode.len() > 0 ==> crate::settings::first_protocol(Some(mode), config)
            == crate::settings::first_protocol(Some(mode), None),
        crate::settings::file_value(config, "audio"@, "mode"@) == Some("ft4"@)
            ==> crate::settings::first_protocol(None, config) == Protocol::Ft4,
        crate::settings::file_value(config, "audio"@, "mode"@) == Some("ft8"@)
            ==> crate::settings::first_protocol(None, config) == Protocol::Ft8,
        crate::settings::protocol_word("ft4"@) == Protocol::Ft4,
        crate::settings::protocol_word("ft8"@) == Protocol::Ft8,
        crate::settings::protocol_word(mode) == Protocol::Ft4 ==> mode == "ft4"@,
{
    reveal_strlit("ft4");
    reveal_strlit("ft8");
    assert("ft4"@[2] == '4' && "ft8"@[2] == '8');
}

/// The log level is what the file asks for, and `info` where it says nothing. The words for
/// levels count in either case and with space around them; what is no level means `info`.
pub proof fn law_log_levels(config: Option<Seq<char>>, w: Seq<char>)
    ensures
        crate::settings::file_value(config, "logging"@, "level"@) == Some(w)
            ==> crate::settings::level_of(config) == w,
        crate::settings::file_value(config, "logging"@, "level"@) is None
            ==> crate::settings::level_of(config) == "info"@,
        ({
            let word = crate::text::ascii_lower(crate::text::trim(w));
            let level = crate::logging::level_word(w);
            &&& word == "trace"@ || word == "debug"@ || word == "warn"@ || word == "error"@
                ==> level == word
            &&& word == "warning"@ ==> level == "warn"@
            &&& word != "trace"@ && word != "debug"@ && word != "warn"@ && word != "error"@ && word
                != "warning"@ ==> level == "info"@
        }),
{
    reveal_strlit("warn");
    reveal_strlit("warning");
    reveal_strlit("trace");
    reveal_strlit("debug");
    reveal_strlit("error");
    assert("warn"@.len() == 4 && "warning"@.len() == 7 && "trace"@.len() == 5 && "debug"@.len() == 5
        && "error"@.len() == 5);
}

/// The operator's own filter counts where there is one and it can be read, without the space
/// around it; a blank one is as good as none.
pub proof fn law_own_filter(level: Seq<char>, filter: Seq<char>, accepted: bool)
    ensures
        crate::text::trim(filter).len() > 0 ==> crate::logging::directive(level, Some(filter), true)
            == crate::text::trim(filter),
        crate::logging::directive(level, Some(filter), false) == crate::logging::directive(
            level,
            None,
            accepted,
        ),
        crate::text::trim(filter).len() == 0 ==> crate::logging::directive(
            level,
            Some(filter),
            accepted,
        ) == crate::logging::directive(level, None, accepted),
        crate::logging::directive(level, None, accepted) == crate::logging::scoped(level),
{
}

/// The transmit level is taken as it was read where it lies between 0 and 1; it is 1 where it
/// is greater and 0 where it is less than 0; and the default where none was read, or no
/// finite number.
pub proof fn law_transmit_level(g: u32, default_gain: u32)
    ensures
        crate::settings::gain(None, default_gain) == default_gain,
        g <= 0x3F80_0000 ==> crate::settings::gain(Some(g), default_gain) == g,
        0x3F80_0000 < g < 0x7F80_0000 ==> crate::settings::gain(Some(g), default_gain)
            == 0x3F80_0000,
        0x7F80_0000 <= g < 0x8000_0000 ==> crate::settings::gain(Some(g), default_gain)
            == default_gain,
        0x8000_0000 < g < 0xFF80_0000 ==> crate::settings::gain(Some(g), default_gain) == 0,
        g >= 0xFF80_0000 ==> crate::settings::gain(Some(g), default_gain) == default_gain,
{
}

/// Of the bit patterns of 32-bit floats those with the greatest exponent stand for no finite
/// number; of the rest those without a sign, but for zero, stand for numbers above zero.
pub proof fn law_float_patterns(bits: u32)
    ensures
        crate::settings::finite(bits) <==> bits < 0x7F80_0000 || 0x8000_0000 <= bits && bits
            < 0xFF80_0000,
        crate::settings::positive(bits) <==> bits != 0 && bits < 0x7F80_0000,
        crate::settings::positive(bits) ==> crate::settings::finite(bits),
        crate::settings::finite(bits) <==> crate::console::equal_numbers(bits, bits) && bits
            != 0x7F80_0000 && bits != 0xFF80_0000,
{
}

/// Equal numbers: the same pattern, or the two zeros; what is no number equals nothing, not
/// even itself; and the order does not matter.
pub proof fn law_equal_numbers(a: u32, b: u32)
    ensures
        crate::console::equal_numbers(a, b) == crate::console::equal_numbers(b, a),
        crate::console::equal_numbers(0, 0x8000_0000),
        a <= 0x7F80_0000 ==> crate::console::equal_numbers(a, a),
        0x7F80_0000 < a < 0x8000_0000 ==> !crate::console::equal_numbers(a, b),
        a > 0xFF80_0000 ==> !crate::console::equal_numbers(a, b),
        a != b && a != 0 && a != 0x8000_0000 ==> !crate::console::equal_numbers(a, b),
{
}

/// A window is taken from the file where both of its sizes are finite and above zero; its
/// place only where both of its numbers are finite; and it fills the screen only where the
/// file says so.
pub proof fn law_window_in_the_file(n: WindowNumbers, fullscreen: Option<bool>)
    ensures
        ({
            let w = crate::settings::window_of(n, fullscreen);
            &&& n.width is None || n.height is None ==> w is None
            &&& (n.width matches Some(x) && !crate::settings::positive(x)) ==> w is None
            &&& (n.height matches Some(y) && !crate::settings::positive(y)) ==> w is None
            &&& (n.width matches Some(x) && crate::settings::positive(x)) && (
            n.height matches Some(y) && crate::settings::positive(y)) ==> {
                &&& w is Some
                &&& w->Some_0.width == n.width->Some_0
                &&& w->Some_0.height == n.height->Some_0
                &&& w->Some_0.fullscreen <==> fullscreen == Some(true)
                &&& w->Some_0.pos is Some <==> (n.x matches Some(x) && crate::settings::finite(x))
                    && (n.y matches Some(y) && crate::settings::finite(y))
                &&& w->Some_0.pos matches Some(p) ==> n.x == Some(p.0) && n.y == Some(p.1)
            }
        }),
{
}

/// A layout is taken from the file whole or not at all: every share must be finite and above
/// zero, and each goes to its own tile. The share of the call sign pane alone has a default,
/// where the file says nothing of it.
pub proof fn law_layout_in_the_file(n: LayoutNumbers, config: Option<Seq<char>>, default: u32)
    ensures
        ({
            let l = crate::settings::layout_of(n, config, default);
            let written = crate::settings::file_value(config, "layout"@, "callsign"@) is Some;
            &&& l matches Some(s) ==> {
                &&& n.waterfall == Some(s.waterfall) && n.right == Some(s.right)
                &&& n.log == Some(s.log) && n.band == Some(s.band)
                &&& n.contacts == Some(s.contacts)
                &&& n.callsign is Some ==> n.callsign == Some(s.callsign)
                &&& n.callsign is None ==> !written && s.callsign == default
                &&& crate::settings::positive(s.waterfall) && crate::settings::positive(s.right)
                &&& crate::settings::positive(s.log) && crate::settings::positive(s.band)
                &&& crate::settings::positive(s.contacts)
            }
            &&& n.waterfall is None || n.right is None || n.log is None || n.band is None
                || n.contacts is None ==> l is None
            &&& (n.callsign matches Some(x) && !crate::settings::positive(x)) ==> l is None
            &&& n.callsign is None && written ==> l is None
        }),
        (n.waterfall matches Some(a) && crate::settings::positive(a)) && (n.right matches Some(b)
            && crate::settings::positive(b)) && (n.log matches Some(c) && crate::settings::positive(
            c,
        )) && (n.band matches Some(d) && crate::settings::positive(d)) && (
        n.callsign matches Some(e) && crate::settings::positive(e)) && (n.contacts matches Some(f)
            && crate::settings::positive(f)) ==> crate::settings::layout_of(n, config, default) is Some,
{
}

/// The window that is kept is the one on the screen, while it does not fill the screen; a
/// window that fills it before it ever had another size is kept with the size it has.
pub proof fn law_window_on_the_screen(
    live: WindowSize,
    last: Option<WindowSize>,
    kept: Option<WindowSize>,
)
    ensures
        ({
            let w = crate::console::window_to_keep(live, false, last, kept);
            w.width == live.width && w.height == live.height && w.pos == live.pos && !w.fullscreen
        }),
        ({
            let w = crate::console::window_to_keep(live, true, None, None);
            w.width == live.width && w.height == live.height && w.pos == live.pos && w.fullscreen
        }),
{
}

/// Two windows are equal only where size, place and the flag are.
pub proof fn law_equal_windows(a: WindowSize, b: WindowSize)
    ensures
        a.fullscreen != b.fullscreen ==> !crate::console::equal_windows(a, b),
        !crate::console::equal_numbers(a.width, b.width) ==> !crate::console::equal_windows(a, b),
        !crate::console::equal_numbers(a.height, b.height) ==> !crate::console::equal_windows(a, b),
        a.pos is Some && b.pos is None ==> !crate::console::equal_windows(a, b),
        a.pos is None && b.pos is Some ==> !crate::console::equal_windows(a, b),
        (a.pos matches Some(p) && b.pos matches Some(q) && !crate::console::equal_numbers(p.0, q.0))
            ==> !crate::console::equal_windows(a, b),
        (a.pos matches Some(p) && b.pos matches Some(q) && !crate::console::equal_numbers(p.1, q.1))
            ==> !crate::console::equal_windows(a, b),
        a == b && a.pos is None && a.width < 0x7F80_0000 && a.height < 0x7F80_0000
            ==> crate::console::equal_windows(a, b),
{
}

/// The clock shows the time of the day in UTC, on any day.
pub proof fn law_clock(day: nat, hour: nat, minute: nat, second: nat, rest: nat)
    requires
        hour < 24,
        minute < 60,
        second < 60,
        rest < 1_000,
    ensures
        crate::console::time_of_day(
            86_400_000int * day + 3_600_000 * hour + 60_000 * minute + 1_000 * second + rest,
        ) == crate::numbers::padded(hour, 2) + seq![':'] + crate::numbers::padded(minute, 2) + seq![
            ':',
        ] + crate::numbers::padded(second, 2),
{
    let ms: int = (86_400_000 * day + 3_600_000 * hour + 60_000 * minute + 1_000 * second + rest)
        as int;
    let t: int = (3_600 * hour + 60 * minute + second) as int;
    assert(ms / 1_000 == 86_400 * day + t);
    assert((86_400 * day + t) % 86_400 == t);
    assert(t / 3_600 == hour as int);
    assert(t / 60 == 60 * hour + minute);
    assert((60 * hour + minute) % 60 == minute as int);
    assert(t % 60 == second as int);
}

/// The bands that a text lists: each name between commas stands for its band, space around it
/// does not count, and what names no band is passed over.
pub proof fn law_listed_bands(b: Band, rest: Seq<char>, word: Seq<char>)
    ensures
        crate::choices::bands_in(crate::format::band_full(b) + seq![','] + rest) == seq![b]
            + crate::choices::bands_in(rest),
        crate::choices::bands_in(crate::format::band_full(b)) == seq![b],
        lacks(word, ',') && crate::choices::band_called(crate::text::trim(word)) is None
            ==> crate::choices::bands_in(word + seq![','] + rest) == crate::choices::bands_in(rest),
{
    let name = crate::format::band_full(b);
    lemma_name_alone(b);
    let s = name + seq![','] + rest;
    assert forall|i: int| 0 <= i < name.len() implies s[i] != ',' by {
        assert(s[i] == name[i]);
    }
    assert(s[name.len() as int] == ',');
    crate::text::lemma_find(s, ',', name.len() as int);
    assert(s.take(name.len() as int) == name);
    assert(s.skip(name.len() + 1int) == rest);
    crate::text::lemma_find(name, ',', name.len() as int);
    assert(name.take(name.len() as int) == name);
    if lacks(word, ',') && crate::choices::band_called(crate::text::trim(word)) is None {
        let t = word + seq![','] + rest;
        assert forall|i: int| 0 <= i < word.len() implies t[i] != ',' by {
            assert(t[i] == word[i]);
        }
        assert(t[word.len() as int] == ',');
        crate::text::lemma_find(t, ',', word.len() as int);
        assert(t.take(word.len() as int) == word);
        assert(t.skip(word.len() + 1int) == rest);
        assert(Seq::<Band>::empty() + crate::choices::bands_in(rest) == crate::choices::bands_in(
            rest,
        ));
    }
}

proof fn lemma_name_alone(b: Band)
    ensures
        lacks(crate::format::band_full(b), ','),
        crate::text::trim(crate::format::band_full(b)) == crate::format::band_full(b),
        crate::choices::band_called(crate::format::band_full(b)) == Some(b),
{
    reveal_strlit("160m");
    reveal_strlit("80m");
    reveal_strlit("40m");
    reveal_strlit("30m");
    reveal_strlit("20m");
    reveal_strlit("17m");
    reveal_strlit("15m");
    reveal_strlit("12m");
    reveal_strlit("10m");
    reveal_strlit("6m");
    let s = crate::format::band_full(b);
    crate::text::lemma_trim_none(s, Fringe::White);
    assert("160m"@.len() == 4 && "6m"@.len() == 2);
    assert("80m"@[0] == '8' && "40m"@[0] == '4' && "30m"@[0] == '3' && "20m"@[0] == '2');
    assert("17m"@[1] == '7' && "15m"@[1] == '5' && "12m"@[1] == '2' && "10m"@[1] == '0');
}

/// The bands in use at the start: all that the station has where none were ever chosen; else
/// those that were chosen and that it has, in the order of the station.
pub proof fn law_bands_at_start(universe: Seq<Band>, chosen: Seq<Band>)
    ensures
        crate::choices::bands_at_start(universe, None) == universe,
        crate::choices::bands_at_start(universe, Some(chosen)) == universe.filter(
            |b: Band| chosen.contains(b),
        ),
        crate::choices::kept_bands(None) is None,
        crate::choices::kept_bands(Some("none"@)) == Some(Seq::<Band>::empty()),
    decreases universe.len(),
{
    reveal(Seq::filter);
    if universe.len() > 0 {
        law_bands_at_start(universe.drop_last(), chosen);
    }
}

/// A band that is unchecked leaves the list, once and for all; the others stay in their order.
pub proof fn law_unchecked_band(bands: Seq<Band>, b: Band)
    ensures
        crate::panels::waterfall::config_form::without(bands, b) == bands.filter(
            |x: Band| x != b,
        ),
    decreases bands.len(),
{
    reveal(Seq::filter);
    if bands.len() > 0 {
        law_unchecked_band(bands.drop_last(), b);
    }
}

/// The settings that the form gives out are those that stand in it, each in its own place; the
/// USB identity only where a port is chosen.
pub proof fn law_edited_settings(f: ConfigForm, usb: UsbIdentity)
    ensures
        ({
            let c = f.edited(usb);
            &&& c.audio_input == f.audio_input && c.audio_output == f.audio_output
            &&& c.protocol == f.protocol && c.serial.port == f.port && c.serial.baud == f.baud
            &&& c.serial.profile == f.profile && c.serial.autodetect == f.autodetect
            &&& f.port is None ==> c.serial.usb_serial is None && c.serial.usb_vid is None
                && c.serial.usb_pid is None
            &&& (f.port matches Some(p) && p@.len() > 0) ==> c.serial.usb_serial == usb.serial
                && c.serial.usb_vid == usb.vid && c.serial.usb_pid == usb.pid
        }),
{
}

/// The contest that was kept is Field Day only under its own word; what is sent in it comes
/// from the file, and from a default where the file says nothing.
pub proof fn law_kept_contest(v: Option<Seq<char>>, s: Seq<char>, default: Seq<char>, c: Contest)
    ensures
        crate::choices::contest_in(Some("field-day"@)) == ContestProfile::ArrlFieldDay,
        crate::choices::contest_in(None) == ContestProfile::Standard,
        v != Some("field-day"@) ==> crate::choices::contest_in(v) == ContestProfile::Standard,
        crate::choices::contest_in(Some(crate::choices::contest_kept(c.profile))) == c.profile,
        crate::choices::exchange_word(Some(s), default) == s,
        crate::choices::exchange_word(None, default) == default,
{
    reveal_strlit("field-day");
    reveal_strlit("none");
    assert("field-day"@.len() == 9 && "none"@.len() == 4);
}

/// A full window lets its oldest message go, and one that is not full loses none; the newest
/// comes last.
pub proof fn law_window_makes_room(s: Seq<int>, cap: int, v: int, i: int)
    requires
        0 < cap,
        s.len() <= cap,
    ensures
        crate::ring::pushed(s, cap, v).len() <= cap,
        crate::ring::pushed(s, cap, v).last() == v,
        s.len() < cap && 0 <= i < s.len() ==> crate::ring::pushed(s, cap, v)[i] == s[i],
        s.len() == cap && 0 < i < s.len() ==> crate::ring::pushed(s, cap, v)[i - 1] == s[i],
{
}

/// The identity that the contact engine takes on is that of the station, with the contest, the
/// class and the section that were chosen.
pub proof fn law_identity_of_the_engine(
    c: StationConfig,
    s: Station,
    contest: Contest,
)
    requires
        crate::console::is_identity(c, s, contest),
    ensures
        c.call.0@ == s.call@ && c.grid.0@ == s.grid@,
        c.fd_class@ == contest.class@ && c.fd_section.0@ == contest.section@,
        c.contest == contest.profile,
{
}

/// A new entry is the key, an equals sign between spaces, and the value in quotes.
pub proof fn law_new_entry(key: Seq<char>, value: Seq<char>)
    ensures
        crate::config_toml::entry_line((key, value)) == key + seq![' ', '=', ' '] + (seq!['"']
            + value + seq!['"']),
{
    assert(crate::config_toml::entry_line((key, value)) == key + seq![' ', '=', ' '] + (seq!['"']
        + value + seq!['"']));
}

/// A number with decimals is kept without the zeros at its end, and without a point that
/// nothing follows; digits that mean something stay.
pub proof fn law_short_decimals(s: Seq<char>)
    ensures
        crate::config_toml::short_decimal(s.push('0')) == crate::config_toml::short_decimal(s),
        s.len() > 0 && s.last() != '0' && s.last() != '.' ==> crate::config_toml::short_decimal(s)
            == s,
        s.len() > 0 && s.last() != '.' ==> crate::config_toml::short_decimal(s.push('.')) == s,
{
    assert(s.push('0').drop_last() == s);
    assert(s.push('.').drop_last() == s);
    let p = s.push('.');
    assert(crate::text::trim_back(p, Fringe::Is('0')) == p);
    assert(crate::text::trim_back(p, Fringe::Is('.')) == crate::text::trim_back(
        s,
        Fringe::Is('.'),
    ));
}

} // verus!
