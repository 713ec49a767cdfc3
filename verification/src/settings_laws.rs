//! What holds of the settings as a whole: what the console writes into the file is what
//! it reads from it at the next start.

use vstd::prelude::*;

verus! {

/// A word that can stand as the name of a table or of a key: small letters and
/// underscores.
spec fn word(s: Seq<char>) -> bool {
    s.len() > 0 && forall|i: int|
        0 <= i < s.len() ==> ('a' as int <= (#[trigger] s[i]) as int <= 'z' as int || s[i] == '_')
}

/// A word can stand before an equals sign and in a header.
proof fn lemma_word(s: Seq<char>)
    requires
        word(s),
    ensures
        crate::config_laws::key_ok(s),
        s[0] != '[',
{
    assert(!crate::text::white(s[0]));
    assert(!crate::text::white(s[s.len() - 1]));
    crate::text::lemma_trim_none(s, crate::text::Fringe::White);
}

/// A value that can be written and read back: one line without a comment sign.
pub open spec fn plain(s: Seq<char>) -> bool {
    !s.contains('\n') && !s.contains('#')
}

proof fn lemma_table_words()
    ensures
        word("station"@),
        word("audio"@),
        word("serial"@),
        word("display"@),
        word("window"@),
        word("layout"@),
        word("archive"@),
{
    reveal_strlit("station");
    reveal_strlit("audio");
    reveal_strlit("serial");
    reveal_strlit("display");
    reveal_strlit("window");
    reveal_strlit("layout");
    reveal_strlit("archive");
    assert("station"@ == seq!['s', 't', 'a', 't', 'i', 'o', 'n']);
    assert("audio"@ == seq!['a', 'u', 'd', 'i', 'o']);
    assert("serial"@ == seq!['s', 'e', 'r', 'i', 'a', 'l']);
    assert("display"@ == seq!['d', 'i', 's', 'p', 'l', 'a', 'y']);
    assert("window"@ == seq!['w', 'i', 'n', 'd', 'o', 'w']);
    assert("layout"@ == seq!['l', 'a', 'y', 'o', 'u', 't']);
    assert("archive"@ == seq!['a', 'r', 'c', 'h', 'i', 'v', 'e']);
}

proof fn lemma_station_keys()
    ensures
        word("callsign"@),
        word("call"@),
        word("grid"@),
        word("decodes"@),
        "callsign"@ != "grid"@,
        "callsign"@ != "call"@,
        "call"@ != "grid"@,
        "decodes"@ != "callsign"@,
        "decodes"@ != "grid"@,
{
    reveal_strlit("callsign");
    reveal_strlit("call");
    reveal_strlit("grid");
    reveal_strlit("decodes");
    assert("callsign"@ == seq!['c', 'a', 'l', 'l', 's', 'i', 'g', 'n']);
    assert("call"@ == seq!['c', 'a', 'l', 'l']);
    assert("grid"@ == seq!['g', 'r', 'i', 'd']);
    assert("decodes"@ == seq!['d', 'e', 'c', 'o', 'd', 'e', 's']);
    assert("callsign"@.len() == 8 && "call"@.len() == 4 && "grid"@.len() == 4);
    assert("decodes"@.len() == 7);
    assert("call"@[0] != "grid"@[0]);
}

/// Pairs whose keys are words and whose values are single lines can be written.
proof fn lemma_pairs_ok(kvs: Seq<(Seq<char>, Seq<char>)>)
    requires
        forall|i: int|
            0 <= i < kvs.len() ==> word((#[trigger] kvs[i]).0) && !kvs[i].1.contains('\n'),
    ensures
        forall|i: int| 0 <= i < kvs.len() ==> crate::config_laws::pair_ok(#[trigger] kvs[i]),
{
    assert forall|i: int| 0 <= i < kvs.len() implies crate::config_laws::pair_ok(
        #[trigger] kvs[i],
    ) by {
        lemma_word(kvs[i].0);
    }
}

/// A line that starts with a comment sign, and a blank one, hold nothing.
proof fn lemma_comment(l: Seq<char>)
    requires
        l.len() > 0 ==> l[0] == '#',
    ensures
        crate::config_toml::kind(l) is Other,
{
    crate::text::lemma_find(l, '#', 0);
    assert(l.take(0) == Seq::<char>::empty());
    assert(crate::text::trim(Seq::<char>::empty()) == Seq::<char>::empty());
    assert(crate::text::find(Seq::<char>::empty(), '=') == 0);
}

/// A call sign and a locator that were saved are read back, into a file that is there or
/// into a fresh one. A call sign that is empty once trimmed is left to the `call` key.
pub proof fn law_station_read_back(
    existing: Option<Seq<char>>,
    call: Seq<char>,
    grid: Seq<char>,
)
    requires
        plain(call),
        plain(grid),
    ensures
        ({
            let text = crate::settings::station_text(existing, call, grid);
            &&& crate::config_laws::stored(call) is Some ==> crate::settings::station_call(text)
                == crate::config_laws::stored(call)
            &&& crate::settings::station_grid(text) == crate::config_laws::stored(grid)
        }),
{
    lemma_table_words();
    lemma_station_keys();
    let t = "station"@;
    lemma_word(t);
    match existing {
        Some(text) => {
            let kvs = seq![("callsign"@, call), ("grid"@, grid)];
            lemma_pairs_ok(kvs);
            crate::config_toml::lemma_pick(kvs, "callsign"@, 0);
            crate::config_toml::lemma_pick(kvs, "grid"@, 1);
            crate::config_laws::law_read_back(text, t, kvs, 0);
            crate::config_laws::law_read_back(text, t, kvs, 1);
        },
        None => {
            lemma_default_lines(call, grid);
        },
    }
}

/// Whether the first `n` characters hold no line feed.
spec fn clear(s: Seq<char>, n: int) -> bool
    decreases n,
{
    n <= 0 || (s[n - 1] != '\n' && clear(s, n - 1))
}

proof fn lemma_clear(s: Seq<char>, n: int)
    requires
        clear(s, n),
        n <= s.len(),
    ensures
        forall|i: int| 0 <= i < n ==> s[i] != '\n',
    decreases n,
{
    if n > 0 {
        lemma_clear(s, n - 1);
    }
}

/// The comments of a fresh file are single lines.
proof fn lemma_comments()
    ensures
        ({
            let ls = crate::settings::default_lines(Seq::empty(), Seq::empty());
            &&& ls[0][0] == '#' && !ls[0].contains('\n')
            &&& ls[1][0] == '#' && !ls[1].contains('\n')
            &&& ls[7][0] == '#' && !ls[7].contains('\n')
            &&& ls[8][0] == '#' && !ls[8].contains('\n')
        }),
{
    let a = "# DM420 station identity — written from the UI; safe to hand-edit."@;
    let b = "# No built-in default: DM420 won't call CQ or answer until a callsign is set."@;
    let c = "# Raw decode/transmit archive (diagnostics): set `decodes` to a file path to"@;
    let d = "# append every heard + sent FT8/FT4 message as JSONL. Blank = disabled (default)."@;
    reveal_strlit("# DM420 station identity — written from the UI; safe to hand-edit.");
    reveal_strlit("# No built-in default: DM420 won't call CQ or answer until a callsign is set.");
    reveal_strlit("# Raw decode/transmit archive (diagnostics): set `decodes` to a file path to");
    reveal_strlit(
        "# append every heard + sent FT8/FT4 message as JSONL. Blank = disabled (default).",
    );
    reveal_with_fuel(clear, 90);
    assert(clear(a, a.len() as int));
    assert(clear(b, b.len() as int));
    assert(clear(c, c.len() as int));
    assert(clear(d, d.len() as int));
    lemma_clear(a, a.len() as int);
    lemma_clear(b, b.len() as int);
    lemma_clear(c, c.len() as int);
    lemma_clear(d, d.len() as int);
}

/// The tables of a fresh file.
proof fn lemma_headers()
    ensures
        "[station]"@ == seq!['['] + "station"@ + seq![']'],
        "[archive]"@ == seq!['['] + "archive"@ + seq![']'],
{
    reveal_strlit("[station]");
    reveal_strlit("[archive]");
    reveal_strlit("station");
    reveal_strlit("archive");
}

/// An entry with a word for its key is a single line.
proof fn lemma_entry_plain(p: (Seq<char>, Seq<char>))
    requires
        word(p.0),
        !p.1.contains('\n'),
    ensures
        !crate::config_toml::entry_line(p).contains('\n'),
{
    let l = crate::config_toml::entry_line(p);
    assert forall|i: int| 0 <= i < l.len() implies l[i] != '\n' by {
        if i < p.0.len() {
            assert(l[i] == p.0[i]);
        } else if i < p.0.len() + 4 {
        } else if i < p.0.len() + 4 + p.1.len() {
            assert(l[i] == p.1[i - 4 - p.0.len()]);
        } else {
            assert(l[i] == '"');
        }
    }
}

/// No line of a fresh file holds a line feed.
proof fn lemma_default_plain(call: Seq<char>, grid: Seq<char>)
    requires
        plain(call),
        plain(grid),
    ensures
        ({
            let ls = crate::settings::default_lines(call, grid);
            forall|i: int| 0 <= i < ls.len() ==> !(#[trigger] ls[i]).contains('\n')
        }),
{
    lemma_table_words();
    lemma_station_keys();
    lemma_comments();
    lemma_headers();
    let t = "station"@;
    let none = Seq::<char>::empty();
    let ls = crate::settings::default_lines(call, grid);
    lemma_entry_plain(("callsign"@, call));
    lemma_entry_plain(("grid"@, grid));
    lemma_entry_plain(("decodes"@, none));
    assert(!ls[3].contains('\n')) by {
        assert forall|i: int| 0 <= i < ls[3].len() implies ls[3][i] != '\n' by {
            if 0 < i < ls[3].len() - 1 {
                assert(ls[3][i] == t[i - 1]);
            }
        }
    }
    assert(!ls[9].contains('\n')) by {
        assert forall|i: int| 0 <= i < ls[9].len() implies ls[9][i] != '\n' by {
            if 0 < i < ls[9].len() - 1 {
                assert(ls[9][i] == "archive"@[i - 1]);
            }
        }
    }
    assert forall|i: int| 0 <= i < ls.len() implies !(#[trigger] ls[i]).contains('\n') by {
        assert(ls.len() == 11);
        if i == 2 || i == 6 {
            assert(ls[i] == none);
        }
    }
}

/// How a fresh file reads.
proof fn lemma_default_lines(call: Seq<char>, grid: Seq<char>)
    requires
        plain(call),
        plain(grid),
    ensures
        ({
            let text = crate::text::unlines(crate::settings::default_lines(call, grid));
            &&& crate::config_toml::table_value(text, "station"@, "callsign"@)
                == crate::config_laws::stored(call)
            &&& crate::config_toml::table_value(text, "station"@, "grid"@)
                == crate::config_laws::stored(grid)
        }),
{
    lemma_table_words();
    lemma_station_keys();
    lemma_comments();
    lemma_headers();
    let t = "station"@;
    let ls = crate::settings::default_lines(call, grid);
    lemma_word("station"@);
    lemma_word("archive"@);
    lemma_word("callsign"@);
    lemma_word("grid"@);
    lemma_default_plain(call, grid);
    crate::text::lemma_lines_of_unlines(ls);
    let back = crate::text::lines(crate::text::unlines(ls));
    assert forall|i: int| 0 <= i < ls.len() implies crate::config_toml::kind(#[trigger] ls[i])
        == crate::config_toml::kind(back[i]) by {
        crate::config_laws::lemma_without_cr(ls[i]);
    }
    crate::config_laws::lemma_same_kinds(false, ls, back, t, "callsign"@);
    crate::config_laws::lemma_same_kinds(false, ls, back, t, "grid"@);
    lemma_comment(ls[0]);
    lemma_comment(ls[1]);
    lemma_comment(ls[2]);
    crate::config_laws::lemma_new_header(t);
    crate::config_laws::lemma_new_entry(("callsign"@, call));
    crate::config_laws::lemma_new_entry(("grid"@, grid));
    assert(ls.take(1).drop_last() == ls.take(0));
    assert(ls.take(2).drop_last() == ls.take(1));
    assert(ls.take(3).drop_last() == ls.take(2));
    assert(ls.take(4).drop_last() == ls.take(3));
    assert(ls.take(5).drop_last() == ls.take(4));
    assert(ls.take(6).drop_last() == ls.take(5));
    reveal_with_fuel(crate::config_toml::lookup, 7);
    reveal_with_fuel(crate::config_toml::inside, 7);
    assert(crate::config_toml::lookup(false, ls.take(5), t, "callsign"@) == Some(
        crate::config_laws::quoted(call),
    ));
    assert(crate::config_toml::lookup(false, ls.take(6), t, "grid"@) == Some(
        crate::config_laws::quoted(grid),
    ));
    crate::config_toml::lemma_lookup_kept(ls, 5, t, "callsign"@);
    crate::config_toml::lemma_lookup_kept(ls, 6, t, "grid"@);
    crate::config_laws::lemma_clean(call);
    crate::config_laws::lemma_clean(grid);
}

/// How the archive of a fresh file reads.
proof fn lemma_fresh_archive(call: Seq<char>, grid: Seq<char>)
    requires
        plain(call),
        plain(grid),
    ensures
        crate::config_toml::table_value(
            crate::text::unlines(crate::settings::default_lines(call, grid)),
            "archive"@,
            "decodes"@,
        ) is None,
{
    lemma_table_words();
    lemma_station_keys();
    lemma_headers();
    let t = "archive"@;
    let k = "decodes"@;
    let none = Seq::<char>::empty();
    let ls = crate::settings::default_lines(call, grid);
    lemma_default_plain(call, grid);
    lemma_word(k);
    lemma_word(t);
    crate::text::lemma_lines_of_unlines(ls);
    let back = crate::text::lines(crate::text::unlines(ls));
    assert forall|i: int| 0 <= i < ls.len() implies crate::config_toml::kind(#[trigger] ls[i])
        == crate::config_toml::kind(back[i]) by {
        crate::config_laws::lemma_without_cr(ls[i]);
    }
    crate::config_laws::lemma_same_kinds(false, ls, back, t, k);
    lemma_only_empty(ls, t, k, ls.len() as int, call, grid);
    assert(ls.take(ls.len() as int) == ls);
    crate::config_laws::lemma_clean(none);
    lemma_empty_value();
}

/// What the first lines of a fresh file hold for the archive: nothing, or an empty value.
proof fn lemma_only_empty(
    ls: Seq<Seq<char>>,
    t: Seq<char>,
    k: Seq<char>,
    n: int,
    call: Seq<char>,
    grid: Seq<char>,
)
    requires
        ls == crate::settings::default_lines(call, grid),
        plain(call),
        plain(grid),
        t == "archive"@,
        k == "decodes"@,
        0 <= n <= ls.len(),
    ensures
        ({
            let v = crate::config_toml::lookup(false, ls.take(n), t, k);
            v is None || v == Some(crate::config_laws::quoted(Seq::empty()))
        }),
    decreases n,
{
    lemma_table_words();
    lemma_station_keys();
    lemma_comments();
    lemma_headers();
    if n > 0 {
        lemma_only_empty(ls, t, k, n - 1, call, grid);
        assert(ls.take(n).drop_last() == ls.take(n - 1));
        let line = ls[n - 1];
        assert(ls.take(n).last() == line);
        let none = Seq::<char>::empty();
        lemma_word("callsign"@);
        lemma_word("grid"@);
        lemma_word(k);
        lemma_word(t);
        lemma_word("station"@);
        if n == 4 {
            crate::config_laws::lemma_new_header("station"@);
        } else if n == 5 {
            crate::config_laws::lemma_new_entry(("callsign"@, call));
        } else if n == 6 {
            crate::config_laws::lemma_new_entry(("grid"@, grid));
        } else if n == 10 {
            crate::config_laws::lemma_new_header(t);
        } else if n == 11 {
            crate::config_laws::lemma_new_entry((k, none));
        } else {
            lemma_comment(line);
        }
    }
}

/// A fresh file names its station and keeps no archive: the call sign and the grid are read
/// back, as they stand where they are plain and not empty, and the archive reads as unset.
pub proof fn law_fresh_file(call: Seq<char>, grid: Seq<char>)
    requires
        plain(call),
        plain(grid),
    ensures
        ({
            let text = crate::text::unlines(crate::settings::default_lines(call, grid));
            let whole = |s: Seq<char>|
                s.len() > 0 && crate::text::trim(s) == s && s[0] != '"' && s.last() != '"';
            &&& crate::config_laws::stored(call) is Some ==> crate::settings::station_call(text)
                == crate::config_laws::stored(call)
            &&& crate::settings::station_grid(text) == crate::config_laws::stored(grid)
            &&& whole(call) ==> crate::settings::station_call(text) == Some(call)
            &&& whole(grid) ==> crate::settings::station_grid(text) == Some(grid)
            &&& crate::config_toml::table_value(text, "archive"@, "decodes"@) is None
        }),
{
    law_station_read_back(None, call, grid);
    lemma_fresh_archive(call, grid);
    if call.len() > 0 && call[0] != '"' && call.last() != '"' {
        crate::text::lemma_trim_none(call, crate::text::Fringe::Is('"'));
    }
    if grid.len() > 0 && grid[0] != '"' && grid.last() != '"' {
        crate::text::lemma_trim_none(grid, crate::text::Fringe::Is('"'));
    }
}

proof fn lemma_hardware_keys()
    ensures
        word("input"@),
        word("output"@),
        word("mode"@),
        word("port"@),
        word("usb_serial"@),
        word("usb_vid"@),
        word("usb_pid"@),
        word("baud"@),
        word("profile"@),
        word("autodetect"@),
        "input"@ != "output"@,
        "port"@ != "baud"@,
        "usb_serial"@ != "autodetect"@,
        "usb_vid"@ != "usb_pid"@,
        "usb_vid"@ != "profile"@,
        "usb_pid"@ != "profile"@,
        "input"@.len() == 5,
        "output"@.len() == 6,
        "mode"@.len() == 4,
        "port"@.len() == 4,
        "baud"@.len() == 4,
        "usb_serial"@.len() == 10,
        "autodetect"@.len() == 10,
        "usb_vid"@.len() == 7,
        "usb_pid"@.len() == 7,
        "profile"@.len() == 7,
        "audio"@ != "serial"@,
{
    reveal_strlit("audio");
    reveal_strlit("serial");
    reveal_strlit("input");
    reveal_strlit("output");
    reveal_strlit("mode");
    reveal_strlit("port");
    reveal_strlit("usb_serial");
    reveal_strlit("usb_vid");
    reveal_strlit("usb_pid");
    reveal_strlit("baud");
    reveal_strlit("profile");
    reveal_strlit("autodetect");
    assert("audio"@.len() == 5 && "serial"@.len() == 6);
    assert("input"@ == seq!['i', 'n', 'p', 'u', 't']);
    assert("output"@ == seq!['o', 'u', 't', 'p', 'u', 't']);
    assert("mode"@ == seq!['m', 'o', 'd', 'e']);
    assert("port"@ == seq!['p', 'o', 'r', 't']);
    assert("usb_serial"@ == seq!['u', 's', 'b', '_', 's', 'e', 'r', 'i', 'a', 'l']);
    assert("usb_vid"@ == seq!['u', 's', 'b', '_', 'v', 'i', 'd']);
    assert("usb_pid"@ == seq!['u', 's', 'b', '_', 'p', 'i', 'd']);
    assert("baud"@ == seq!['b', 'a', 'u', 'd']);
    assert("profile"@ == seq!['p', 'r', 'o', 'f', 'i', 'l', 'e']);
    assert("autodetect"@ == seq!['a', 'u', 't', 'o', 'd', 'e', 't', 'e', 'c', 't']);
    assert("port"@[0] != "baud"@[0]);
    assert("usb_serial"@[0] != "autodetect"@[0]);
    assert("usb_vid"@[4] != "usb_pid"@[4]);
    assert("usb_vid"@[0] != "profile"@[0]);
    assert("usb_pid"@[0] != "profile"@[0]);
}

/// A text of letters, digits and hyphens is read back as it is.
spec fn token(s: Seq<char>) -> bool {
    s.len() > 0 && forall|i: int|
        0 <= i < s.len() ==> !crate::text::white(#[trigger] s[i]) && s[i] != '"' && s[i] != '#'
            && s[i] != '\n'
}

proof fn lemma_token(s: Seq<char>)
    requires
        token(s),
    ensures
        plain(s),
        crate::config_laws::stored(s) == Some(s),
{
    assert(!crate::text::white(s[0]));
    assert(s[s.len() - 1] != '"' && !crate::text::white(s[s.len() - 1]));
    crate::text::lemma_trim_none(s, crate::text::Fringe::Is('"'));
    crate::text::lemma_trim_none(s, crate::text::Fringe::White);
}

/// Nothing is read back of an empty value.
proof fn lemma_empty_value()
    ensures
        plain(Seq::<char>::empty()),
        crate::config_laws::stored(Seq::<char>::empty()) is None,
{
}

proof fn lemma_dec_token(n: nat)
    ensures
        token(crate::numbers::dec(n)),
    decreases n,
{
    let s = crate::numbers::dec(n);
    if n >= 10 {
        lemma_dec_token(n / 10);
        assert forall|i: int| 0 <= i < s.len() implies !crate::text::white(#[trigger] s[i])
            && s[i] != '"' && s[i] != '#' && s[i] != '\n' by {
            if i < s.len() - 1 {
                assert(s[i] == crate::numbers::dec(n / 10)[i]);
            }
        }
    }
}

proof fn lemma_hex_token(o: Option<u16>)
    ensures
        o is Some ==> token(crate::settings::hex_text(o)) && crate::config_toml::u16_of(
            crate::settings::hex_text(o),
        ) == Some(o->Some_0 as int),
{
    if let Some(n) = o {
        let h = crate::numbers::hex4(n as int);
        let s = crate::settings::hex_text(o);
        assert(s == seq!['0', 'x'] + h);
        assert(s.len() == 6);
        assert forall|i: int| 0 <= i < s.len() implies !crate::text::white(#[trigger] s[i])
            && s[i] != '"' && s[i] != '#' && s[i] != '\n' by {
            if i >= 2 {
                assert(s[i] == h[i - 2]);
            }
        }
        lemma_token(s);
        crate::text::lemma_trim_none(s, crate::text::Fringe::White);
        assert(s.skip(2) == h);
        crate::numbers::law_hex4_read_back(n as int);
    }
}

proof fn lemma_profile_token(p: crate::types::LineProfile)
    ensures
        token(p.word()),
        crate::settings::profile_of(p.word()) == Some(p),
{
    reveal_strlit("none");
    reveal_strlit("dtr-rts");
    reveal_strlit("rtscts");
    assert("none"@ == seq!['n', 'o', 'n', 'e']);
    assert("dtr-rts"@ == seq!['d', 't', 'r', '-', 'r', 't', 's']);
    assert("rtscts"@ == seq!['r', 't', 's', 'c', 't', 's']);
    assert("none"@.len() == 4 && "dtr-rts"@.len() == 7 && "rtscts"@.len() == 6);
}

proof fn lemma_flag_token(b: bool)
    ensures
        token(crate::config_toml::flag_word(b)),
        crate::config_toml::flag_of(crate::config_toml::flag_word(b)) == Some(b),
{
    reveal_strlit("true");
    reveal_strlit("false");
    assert("true"@ == seq!['t', 'r', 'u', 'e']);
    assert("false"@ == seq!['f', 'a', 'l', 's', 'e']);
    crate::config_toml::law_flag_read_back(b);
}

proof fn lemma_protocol_token(p: crate::types::Protocol)
    ensures
        token(crate::settings::protocol_kept(p)),
        crate::settings::protocol_in(Some(crate::settings::protocol_kept(p))) == Some(p),
{
    reveal_strlit("ft8");
    reveal_strlit("ft4");
    assert("ft8"@ == seq!['f', 't', '8']);
    assert("ft4"@ == seq!['f', 't', '4']);
    assert("ft8"@[2] != "ft4"@[2]);
}

/// The protocol that was saved is the one that the next start takes from the file, unless
/// `DM420_MODE` asks for another; whatever the file held before.
pub proof fn law_protocol_read_back(
    existing: Option<Seq<char>>,
    cfg: crate::settings::HardwareConfig,
    mode: Option<Seq<char>>,
)
    requires
        !crate::settings::or_empty(cfg.audio_input).contains('\n'),
        !crate::settings::or_empty(cfg.audio_output).contains('\n'),
        !crate::settings::or_empty(cfg.serial.port).contains('\n'),
        !crate::settings::or_empty(cfg.serial.usb_serial).contains('\n'),
        crate::settings::nonempty(mode) is None,
    ensures
        crate::settings::first_protocol(
            mode,
            Some(crate::settings::hardware_text(existing, cfg)),
        ) == cfg.protocol,
{
    lemma_table_words();
    lemma_hardware_keys();
    lemma_word("audio"@);
    lemma_word("serial"@);
    let base = crate::settings::base_text(existing);
    let audio = crate::settings::audio_pairs(cfg);
    let c = cfg.serial;
    let serial = crate::settings::serial_pairs(c);
    lemma_protocol_token(cfg.protocol);
    lemma_token(crate::settings::protocol_kept(cfg.protocol));
    lemma_hex_token(c.usb_vid);
    lemma_hex_token(c.usb_pid);
    if let Some(n) = c.usb_vid {
        lemma_token(crate::settings::hex_text(c.usb_vid));
    }
    if let Some(n) = c.usb_pid {
        lemma_token(crate::settings::hex_text(c.usb_pid));
    }
    lemma_empty_value();
    lemma_dec_token(c.baud as nat);
    lemma_token(crate::numbers::dec(c.baud as nat));
    lemma_profile_token(c.profile);
    lemma_token(c.profile.word());
    lemma_flag_token(c.autodetect);
    lemma_token(crate::config_toml::flag_word(c.autodetect));
    lemma_pairs_ok(audio);
    lemma_pairs_ok(serial);
    crate::config_toml::lemma_pick(audio, "mode"@, 2);
    crate::config_laws::law_read_back(base, "audio"@, audio, 2);
    let mid = crate::config_toml::updated(base, "audio"@, audio);
    crate::config_laws::law_other_values_kept(mid, "serial"@, serial, "audio"@, "mode"@);
}

/// A protocol that the operator switches to is kept: what is handed out to be saved, once
/// it is written, is what the next start without `DM420_MODE` takes up.
pub proof fn law_switched_protocol_survives(
    existing: Option<Seq<char>>,
    cfg: crate::settings::HardwareConfig,
    protocol: crate::types::Protocol,
    control: crate::bus_view::Control,
)
    requires
        !crate::settings::or_empty(cfg.audio_input).contains('\n'),
        !crate::settings::or_empty(cfg.audio_output).contains('\n'),
        !crate::settings::or_empty(cfg.serial.port).contains('\n'),
        !crate::settings::or_empty(cfg.serial.usb_serial).contains('\n'),
        cfg.protocol != protocol,
    ensures
        ({
            let out = crate::bus_view::protocol_changes(cfg, protocol, control);
            &&& out.len() > 0
            &&& out.last() matches crate::bus_view::Outgoing::SaveHardware(saved)
            &&& crate::settings::first_protocol(
                None,
                Some(crate::settings::hardware_text(existing, saved)),
            ) == protocol
        }),
{
    let saved = crate::settings::HardwareConfig { protocol, ..cfg };
    law_protocol_read_back(existing, saved, None);
}

/// Hardware that was saved is read back: the devices as they are stored, and the protocol
/// and the rig's speed, lines, USB identity and autodetection exactly.
pub proof fn law_hardware_read_back(
    existing: Option<Seq<char>>,
    cfg: crate::settings::HardwareConfig,
    file: crate::settings::SerialFile,
)
    requires
        plain(crate::settings::or_empty(cfg.audio_input)),
        plain(crate::settings::or_empty(cfg.audio_output)),
        plain(crate::settings::or_empty(cfg.serial.port)),
        plain(crate::settings::or_empty(cfg.serial.usb_serial)),
        file.is_of(crate::settings::hardware_text(existing, cfg)),
    ensures
        ({
            let text = crate::settings::hardware_text(existing, cfg);
            let stored = |o: Option<String>|
                crate::config_laws::stored(crate::settings::or_empty(o));
            &&& crate::config_toml::table_value(text, "audio"@, "input"@) == stored(cfg.audio_input)
            &&& crate::config_toml::table_value(text, "audio"@, "output"@) == stored(
                cfg.audio_output,
            )
            &&& crate::settings::protocol_in(
                crate::config_toml::table_value(text, "audio"@, "mode"@),
            ) == Some(cfg.protocol)
            &&& crate::config_toml::text_of(file.port) == stored(cfg.serial.port)
            &&& crate::config_toml::text_of(file.usb_serial) == stored(cfg.serial.usb_serial)
            &&& file.usb_vid == cfg.serial.usb_vid
            &&& file.usb_pid == cfg.serial.usb_pid
            &&& file.baud == Some(cfg.serial.baud)
            &&& file.profile == Some(cfg.serial.profile)
            &&& file.autodetect == Some(cfg.serial.autodetect)
        }),
{
    lemma_table_words();
    lemma_hardware_keys();
    lemma_word("audio"@);
    lemma_word("serial"@);
    let base = crate::settings::base_text(existing);
    let audio = crate::settings::audio_pairs(cfg);
    let c = cfg.serial;
    let serial = crate::settings::serial_pairs(c);
    lemma_hex_token(c.usb_vid);
    lemma_hex_token(c.usb_pid);
    if let Some(n) = c.usb_vid {
        lemma_token(crate::settings::hex_text(c.usb_vid));
    }
    if let Some(n) = c.usb_pid {
        lemma_token(crate::settings::hex_text(c.usb_pid));
    }
    lemma_empty_value();
    lemma_dec_token(c.baud as nat);
    lemma_token(crate::numbers::dec(c.baud as nat));
    crate::numbers::law_dec_read_back(c.baud as nat, 0xFFFF_FFFF);
    lemma_profile_token(c.profile);
    lemma_token(c.profile.word());
    lemma_flag_token(c.autodetect);
    lemma_token(crate::config_toml::flag_word(c.autodetect));
    lemma_protocol_token(cfg.protocol);
    lemma_token(crate::settings::protocol_kept(cfg.protocol));
    lemma_pairs_ok(audio);
    lemma_pairs_ok(serial);
    crate::config_toml::lemma_pick(audio, "input"@, 0);
    crate::config_toml::lemma_pick(audio, "output"@, 1);
    crate::config_toml::lemma_pick(audio, "mode"@, 2);
    crate::config_laws::law_read_back(base, "audio"@, audio, 0);
    crate::config_laws::law_read_back(base, "audio"@, audio, 1);
    crate::config_laws::law_read_back(base, "audio"@, audio, 2);
    let mid = crate::config_toml::updated(base, "audio"@, audio);
    crate::config_laws::law_other_values_kept(mid, "serial"@, serial, "audio"@, "input"@);
    crate::config_laws::law_other_values_kept(mid, "serial"@, serial, "audio"@, "output"@);
    crate::config_laws::law_other_values_kept(mid, "serial"@, serial, "audio"@, "mode"@);
    crate::config_toml::lemma_pick(serial, "port"@, 0);
    crate::config_toml::lemma_pick(serial, "usb_serial"@, 1);
    crate::config_toml::lemma_pick(serial, "usb_vid"@, 2);
    crate::config_toml::lemma_pick(serial, "usb_pid"@, 3);
    crate::config_toml::lemma_pick(serial, "baud"@, 4);
    crate::config_toml::lemma_pick(serial, "profile"@, 5);
    crate::config_toml::lemma_pick(serial, "autodetect"@, 6);
    crate::config_laws::law_read_back(mid, "serial"@, serial, 0);
    crate::config_laws::law_read_back(mid, "serial"@, serial, 1);
    crate::config_laws::law_read_back(mid, "serial"@, serial, 2);
    crate::config_laws::law_read_back(mid, "serial"@, serial, 3);
    crate::config_laws::law_read_back(mid, "serial"@, serial, 4);
    crate::config_laws::law_read_back(mid, "serial"@, serial, 5);
    crate::config_laws::law_read_back(mid, "serial"@, serial, 6);
}

proof fn lemma_display_keys()
    ensures
        word("dark"@),
        word("waterslide_wide"@),
        word("fullscreen"@),
{
    reveal_strlit("dark");
    reveal_strlit("waterslide_wide");
    reveal_strlit("fullscreen");
    assert("dark"@ == seq!['d', 'a', 'r', 'k']);
    assert("waterslide_wide"@ == seq![
        'w', 'a', 't', 'e', 'r', 's', 'l', 'i', 'd', 'e', '_', 'w', 'i', 'd', 'e',
    ]);
    assert("fullscreen"@ == seq!['f', 'u', 'l', 'l', 's', 'c', 'r', 'e', 'e', 'n']);
}

/// The face of the console and the split of the waterslide are read back as they were
/// set, and setting one leaves the station's identity as it was.
pub proof fn law_display_read_back(existing: Option<Seq<char>>, on: bool)
    ensures
        ({
            let dark = crate::settings::display_text(existing, "dark"@, on);
            let wide = crate::settings::display_text(existing, "waterslide_wide"@, on);
            let base = crate::settings::base_text(existing);
            &&& crate::settings::flag_in(
                crate::config_toml::table_value(dark, "display"@, "dark"@),
            ) == Some(on)
            &&& crate::settings::flag_in(
                crate::config_toml::table_value(wide, "display"@, "waterslide_wide"@),
            ) == Some(on)
            &&& crate::settings::station_call(dark) == crate::settings::station_call(base)
            &&& crate::settings::station_grid(dark) == crate::settings::station_grid(base)
            &&& crate::settings::station_call(wide) == crate::settings::station_call(base)
            &&& crate::settings::station_grid(wide) == crate::settings::station_grid(base)
        }),
{
    lemma_table_words();
    lemma_display_keys();
    lemma_word("display"@);
    lemma_flag_token(on);
    lemma_token(crate::config_toml::flag_word(on));
    let base = crate::settings::base_text(existing);
    let a = seq![("dark"@, crate::config_toml::flag_word(on))];
    let b = seq![("waterslide_wide"@, crate::config_toml::flag_word(on))];
    lemma_pairs_ok(a);
    lemma_pairs_ok(b);
    crate::config_toml::lemma_pick(a, "dark"@, 0);
    crate::config_toml::lemma_pick(b, "waterslide_wide"@, 0);
    crate::config_laws::law_read_back(base, "display"@, a, 0);
    crate::config_laws::law_read_back(base, "display"@, b, 0);
    assert("display"@ != "station"@) by {
        reveal_strlit("display");
        reveal_strlit("station");
        assert("display"@[0] == 'd' && "station"@[0] == 's');
    }
    crate::config_laws::law_other_values_kept(base, "display"@, a, "station"@, "callsign"@);
    crate::config_laws::law_other_values_kept(base, "display"@, a, "station"@, "call"@);
    crate::config_laws::law_other_values_kept(base, "display"@, a, "station"@, "grid"@);
    crate::config_laws::law_other_values_kept(base, "display"@, b, "station"@, "callsign"@);
    crate::config_laws::law_other_values_kept(base, "display"@, b, "station"@, "call"@);
    crate::config_laws::law_other_values_kept(base, "display"@, b, "station"@, "grid"@);
}

proof fn lemma_window_keys()
    ensures
        word("width"@),
        word("height"@),
        word("x"@),
        word("y"@),
        word("waterfall"@),
        word("right"@),
        word("log"@),
        word("band"@),
        word("callsign"@),
        word("contacts"@),
        "width"@.len() == 5,
        "height"@.len() == 6,
        "x"@.len() == 1,
        "y"@.len() == 1,
        "x"@ != "y"@,
        "fullscreen"@.len() == 10,
        "window"@ != "layout"@,
{
    reveal_strlit("width");
    reveal_strlit("height");
    reveal_strlit("x");
    reveal_strlit("y");
    reveal_strlit("waterfall");
    reveal_strlit("right");
    reveal_strlit("log");
    reveal_strlit("band");
    reveal_strlit("callsign");
    reveal_strlit("contacts");
    reveal_strlit("fullscreen");
    reveal_strlit("window");
    reveal_strlit("layout");
    assert("width"@ == seq!['w', 'i', 'd', 't', 'h']);
    assert("height"@ == seq!['h', 'e', 'i', 'g', 'h', 't']);
    assert("x"@ == seq!['x']);
    assert("y"@ == seq!['y']);
    assert("waterfall"@ == seq!['w', 'a', 't', 'e', 'r', 'f', 'a', 'l', 'l']);
    assert("right"@ == seq!['r', 'i', 'g', 'h', 't']);
    assert("log"@ == seq!['l', 'o', 'g']);
    assert("band"@ == seq!['b', 'a', 'n', 'd']);
    assert("callsign"@ == seq!['c', 'a', 'l', 'l', 's', 'i', 'g', 'n']);
    assert("contacts"@ == seq!['c', 'o', 'n', 't', 'a', 'c', 't', 's']);
    assert("x"@[0] != "y"@[0]);
    assert("window"@[0] == 'w' && "layout"@[0] == 'l');
}

/// What is left of a number with decimals is a part of it.
proof fn lemma_short_plain(s: Seq<char>)
    requires
        plain(s),
    ensures
        plain(crate::config_toml::short_decimal(s)),
{
    lemma_trim_back_plain(s, crate::text::Fringe::Is('0'));
    lemma_trim_back_plain(
        crate::text::trim_back(s, crate::text::Fringe::Is('0')),
        crate::text::Fringe::Is('.'),
    );
}

proof fn lemma_trim_back_plain(s: Seq<char>, f: crate::text::Fringe)
    requires
        plain(s),
    ensures
        plain(crate::text::trim_back(s, f)),
    decreases s.len(),
{
    if s.len() > 0 && f.has(s.last()) {
        let t = s.drop_last();
        assert forall|i: int| 0 <= i < t.len() implies t[i] != '\n' && t[i] != '#' by {
            assert(t[i] == s[i]);
        }
        lemma_trim_back_plain(t, f);
    }
}

/// The window's size and its flag are read back as they were written, and so is its place
/// where it was known.
pub proof fn law_window_read_back(
    existing: Option<Seq<char>>,
    w: crate::settings::WindowText,
    l: crate::settings::LayoutText,
)
    requires
        plain(w.width@),
        plain(w.height@),
        w.pos is Some ==> plain(w.pos->Some_0.0@) && plain(w.pos->Some_0.1@),
        plain(l.waterfall@),
        plain(l.right@),
        plain(l.log@),
        plain(l.band@),
        plain(l.callsign@),
        plain(l.contacts@),
    ensures
        ({
            let text = crate::settings::window_text(existing, w, l);
            let at = |key: Seq<char>| crate::config_toml::table_value(text, "window"@, key);
            let short = |s: Seq<char>|
                crate::config_laws::stored(crate::config_toml::short_decimal(s));
            &&& at("width"@) == short(w.width@)
            &&& at("height"@) == short(w.height@)
            &&& w.pos is Some ==> at("x"@) == short(w.pos->Some_0.0@) && at("y"@) == short(
                w.pos->Some_0.1@,
            )
            &&& crate::settings::flag_in(at("fullscreen"@)) == Some(w.fullscreen)
        }),
{
    lemma_table_words();
    lemma_window_keys();
    lemma_display_keys();
    lemma_word("window"@);
    lemma_word("layout"@);
    lemma_flag_token(w.fullscreen);
    lemma_token(crate::config_toml::flag_word(w.fullscreen));
    lemma_short_plain(w.width@);
    lemma_short_plain(w.height@);
    lemma_short_plain(l.waterfall@);
    lemma_short_plain(l.right@);
    lemma_short_plain(l.log@);
    lemma_short_plain(l.band@);
    lemma_short_plain(l.callsign@);
    lemma_short_plain(l.contacts@);
    if w.pos is Some {
        lemma_short_plain(w.pos->Some_0.0@);
        lemma_short_plain(w.pos->Some_0.1@);
    }
    let base = crate::settings::base_text(existing);
    let win = crate::settings::window_pairs(w);
    let lay = crate::settings::layout_pairs(l);
    lemma_pairs_ok(win);
    lemma_pairs_ok(lay);
    let mid = crate::config_toml::updated(base, "window"@, win);
    let f: int = if w.pos is Some {
        4
    } else {
        2
    };
    crate::config_toml::lemma_pick(win, "width"@, 0);
    crate::config_toml::lemma_pick(win, "height"@, 1);
    crate::config_toml::lemma_pick(win, "fullscreen"@, f);
    crate::config_laws::law_read_back(base, "window"@, win, 0);
    crate::config_laws::law_read_back(base, "window"@, win, 1);
    crate::config_laws::law_read_back(base, "window"@, win, f);
    crate::config_laws::law_other_values_kept(mid, "layout"@, lay, "window"@, "width"@);
    crate::config_laws::law_other_values_kept(mid, "layout"@, lay, "window"@, "height"@);
    crate::config_laws::law_other_values_kept(mid, "layout"@, lay, "window"@, "fullscreen"@);
    if w.pos is Some {
        crate::config_toml::lemma_pick(win, "x"@, 2);
        crate::config_toml::lemma_pick(win, "y"@, 3);
        crate::config_laws::law_read_back(base, "window"@, win, 2);
        crate::config_laws::law_read_back(base, "window"@, win, 3);
        crate::config_laws::law_other_values_kept(mid, "layout"@, lay, "window"@, "x"@);
        crate::config_laws::law_other_values_kept(mid, "layout"@, lay, "window"@, "y"@);
    }
}

proof fn lemma_layout_keys()
    ensures
        "waterfall"@.len() == 9,
        "right"@.len() == 5,
        "log"@.len() == 3,
        "band"@.len() == 4,
        "callsign"@.len() == 8,
        "contacts"@.len() == 8,
        "callsign"@ != "contacts"@,
{
    reveal_strlit("waterfall");
    reveal_strlit("right");
    reveal_strlit("log");
    reveal_strlit("band");
    reveal_strlit("callsign");
    reveal_strlit("contacts");
    assert("callsign"@[1] == 'a');
    assert("contacts"@[1] == 'o');
}

/// The shares of the tiles are read back as they were written.
pub proof fn law_layout_read_back(
    existing: Option<Seq<char>>,
    w: crate::settings::WindowText,
    l: crate::settings::LayoutText,
)
    requires
        plain(l.waterfall@),
        plain(l.right@),
        plain(l.log@),
        plain(l.band@),
        plain(l.callsign@),
        plain(l.contacts@),
    ensures
        ({
            let text = crate::settings::window_text(existing, w, l);
            let at = |key: Seq<char>| crate::config_toml::table_value(text, "layout"@, key);
            let short = |s: Seq<char>|
                crate::config_laws::stored(crate::config_toml::short_decimal(s));
            &&& at("waterfall"@) == short(l.waterfall@)
            &&& at("right"@) == short(l.right@)
            &&& at("log"@) == short(l.log@)
            &&& at("band"@) == short(l.band@)
            &&& at("callsign"@) == short(l.callsign@)
            &&& at("contacts"@) == short(l.contacts@)
        }),
{
    lemma_table_words();
    lemma_window_keys();
    lemma_layout_keys();
    lemma_word("layout"@);
    lemma_short_plain(l.waterfall@);
    lemma_short_plain(l.right@);
    lemma_short_plain(l.log@);
    lemma_short_plain(l.band@);
    lemma_short_plain(l.callsign@);
    lemma_short_plain(l.contacts@);
    let base = crate::settings::base_text(existing);
    let lay = crate::settings::layout_pairs(l);
    lemma_pairs_ok(lay);
    let mid = crate::config_toml::updated(base, "window"@, crate::settings::window_pairs(w));
    crate::config_toml::lemma_pick(lay, "waterfall"@, 0);
    crate::config_toml::lemma_pick(lay, "right"@, 1);
    crate::config_toml::lemma_pick(lay, "log"@, 2);
    crate::config_toml::lemma_pick(lay, "band"@, 3);
    crate::config_toml::lemma_pick(lay, "callsign"@, 4);
    crate::config_toml::lemma_pick(lay, "contacts"@, 5);
    crate::config_laws::law_read_back(mid, "layout"@, lay, 0);
    crate::config_laws::law_read_back(mid, "layout"@, lay, 1);
    crate::config_laws::law_read_back(mid, "layout"@, lay, 2);
    crate::config_laws::law_read_back(mid, "layout"@, lay, 3);
    crate::config_laws::law_read_back(mid, "layout"@, lay, 4);
    crate::config_laws::law_read_back(mid, "layout"@, lay, 5);
}

proof fn lemma_band_names(b: crate::types::Band)
    ensures
        ({
            let name = crate::format::band_full(b);
            &&& token(name)
            &&& !name.contains(',')
            &&& crate::choices::band_called(name) == Some(b)
        }),
{
    reveal_strlit("160m");
    reveal_strlit("80m");
    reveal_strlit("40m");
    reveal_strlit("30m");
    reveal_strlit("20m");
    reveal_strlit("17m");
    reveal_strlit("15m");
    reveal_strlit("12m");
    reveal_strlit("10m");
    reveal_strlit("6m");
    assert("160m"@ == seq!['1', '6', '0', 'm']);
    assert("80m"@ == seq!['8', '0', 'm']);
    assert("40m"@ == seq!['4', '0', 'm']);
    assert("30m"@ == seq!['3', '0', 'm']);
    assert("20m"@ == seq!['2', '0', 'm']);
    assert("17m"@ == seq!['1', '7', 'm']);
    assert("15m"@ == seq!['1', '5', 'm']);
    assert("12m"@ == seq!['1', '2', 'm']);
    assert("10m"@ == seq!['1', '0', 'm']);
    assert("6m"@ == seq!['6', 'm']);
    assert("160m"@.len() == 4 && "6m"@.len() == 2);
    assert("80m"@[0] == '8' && "40m"@[0] == '4' && "30m"@[0] == '3' && "20m"@[0] == '2');
    assert("17m"@[0] == '1' && "17m"@[1] == '7' && "15m"@[0] == '1' && "15m"@[1] == '5');
    assert("12m"@[0] == '1' && "12m"@[1] == '2' && "10m"@[0] == '1' && "10m"@[1] == '0');
}

/// A token with a space before it, or without one, is the token once it is trimmed.
proof fn lemma_lead(lead: Seq<char>, name: Seq<char>)
    requires
        token(name),
        lead.len() == 0 || lead == seq![' '],
    ensures
        crate::text::trim(lead + name) == name,
{
    assert(!crate::text::white(name[0]) && !crate::text::white(name[name.len() - 1]));
    crate::text::lemma_trim_none(name, crate::text::Fringe::White);
    if lead.len() > 0 {
        assert(lead + name == seq![' '] + name);
        crate::text::lemma_trim_prepend(name, ' ', crate::text::Fringe::White);
    } else {
        assert(lead + name == name);
    }
}

/// How the part before the first comma is read.
proof fn lemma_first_name(
    lead: Seq<char>,
    name: Seq<char>,
    b: crate::types::Band,
    more: Option<Seq<char>>,
)
    requires
        token(name),
        !name.contains(','),
        crate::choices::band_called(name) == Some(b),
        lead.len() == 0 || lead == seq![' '],
    ensures
        more is None ==> crate::choices::bands_in(lead + name) == seq![b],
        more matches Some(m) ==> crate::choices::bands_in(lead + name + seq![','] + m) == seq![b]
            + crate::choices::bands_in(m),
{
    let l = lead + name;
    let n = l.len() as int;
    lemma_lead(lead, name);
    assert forall|i: int| 0 <= i < n implies l[i] != ',' by {
        if i >= lead.len() {
            assert(l[i] == name[i - lead.len()]);
        }
    }
    match more {
        None => {
            crate::text::lemma_find(l, ',', n);
            assert(l.take(n) == l);
        },
        Some(m) => {
            let t = l + seq![','] + m;
            assert(t[n] == ',');
            assert forall|i: int| 0 <= i < n implies t[i] != ',' by {
                assert(t[i] == l[i]);
            }
            crate::text::lemma_find(t, ',', n);
            assert(t.take(n) == l);
            assert(t.skip(n + 1) == m);
        },
    }
}

/// The names of bands are read as the bands, with or without a space before them.
proof fn lemma_names_read(bs: Seq<crate::types::Band>, lead: Seq<char>)
    requires
        bs.len() > 0,
        lead.len() == 0 || lead == seq![' '],
    ensures
        crate::choices::bands_in(lead + crate::choices::names_of(bs)) == bs,
    decreases bs.len(),
{
    let b = bs[0];
    let name = crate::format::band_full(b);
    let rest = bs.skip(1);
    lemma_band_names(b);
    assert(bs == seq![b] + rest);
    if rest.len() == 0 {
        lemma_first_name(lead, name, b, None);
        assert(lead + crate::choices::names_of(bs) == lead + name);
        assert(bs == seq![b]);
    } else {
        lemma_names_read(rest, seq![' ']);
        let m = seq![' '] + crate::choices::names_of(rest);
        lemma_first_name(lead, name, b, Some(m));
        assert(crate::choices::further_names(rest) == seq![',', ' '] + crate::choices::names_of(
            rest,
        ));
        assert(lead + crate::choices::names_of(bs) == lead + name + seq![','] + m);
    }
}

/// What the names of bands are made of.
proof fn lemma_names_plain(bs: Seq<crate::types::Band>)
    requires
        bs.len() > 0,
    ensures
        ({
            let s = crate::choices::names_of(bs);
            &&& s.len() > 0
            &&& plain(s)
            &&& !crate::text::white(s[0]) && s[0] != '"'
            &&& s.last() == 'm'
        }),
    decreases bs.len(),
{
    let b = bs[0];
    let name = crate::format::band_full(b);
    let rest = bs.skip(1);
    let s = crate::choices::names_of(bs);
    lemma_band_names(b);
    crate::format::law_band_names(b);
    assert(name.last() == 'm');
    assert(s[0] == name[0]);
    if rest.len() == 0 {
        assert(s == name);
    } else {
        lemma_names_plain(rest);
        let more = crate::choices::names_of(rest);
        assert(crate::choices::further_names(rest) == seq![',', ' '] + more);
        assert(s == name + (seq![',', ' '] + more));
        assert(s.last() == more.last());
        assert forall|i: int| 0 <= i < s.len() implies s[i] != '\n' && s[i] != '#' by {
            if i < name.len() {
                assert(s[i] == name[i]);
            } else if i >= name.len() + 2 {
                assert(s[i] == more[i - name.len() - 2]);
            }
        }
    }
}

proof fn lemma_choice_words()
    ensures
        word("bands"@),
        word("list"@),
        word("contest"@),
        word("fd_class"@),
        word("fd_section"@),
        "contest"@.len() == 7,
        "fd_class"@.len() == 8,
        "fd_section"@.len() == 10,
        "fd_class"@ != "callsign"@,
        "callsign"@.len() == 8,
        "grid"@.len() == 4,
        "call"@.len() == 4,
        "none"@ == seq!['n', 'o', 'n', 'e'],
        "field-day"@ == seq!['f', 'i', 'e', 'l', 'd', '-', 'd', 'a', 'y'],
{
    reveal_strlit("bands");
    reveal_strlit("list");
    reveal_strlit("contest");
    reveal_strlit("fd_class");
    reveal_strlit("fd_section");
    reveal_strlit("callsign");
    reveal_strlit("grid");
    reveal_strlit("call");
    reveal_strlit("none");
    reveal_strlit("field-day");
    assert("bands"@ == seq!['b', 'a', 'n', 'd', 's']);
    assert("list"@ == seq!['l', 'i', 's', 't']);
    assert("contest"@ == seq!['c', 'o', 'n', 't', 'e', 's', 't']);
    assert("fd_class"@ == seq!['f', 'd', '_', 'c', 'l', 'a', 's', 's']);
    assert("fd_section"@ == seq!['f', 'd', '_', 's', 'e', 'c', 't', 'i', 'o', 'n']);
    assert("callsign"@[0] == 'c' && "fd_class"@[0] == 'f');
    assert("none"@ == seq!['n', 'o', 'n', 'e']);
    assert("field-day"@ == seq!['f', 'i', 'e', 'l', 'd', '-', 'd', 'a', 'y']);
}

/// The bands that were chosen are read back, in their order, and that none were chosen is
/// read back too; whatever the file held before.
pub proof fn law_bands_read_back(existing: Option<Seq<char>>, bs: Seq<crate::types::Band>)
    ensures
        crate::choices::kept_bands(
            crate::config_toml::table_value(
                crate::choices::bands_text(existing, bs),
                "bands"@,
                "list"@,
            ),
        ) == Some(bs),
{
    lemma_choice_words();
    lemma_word("bands"@);
    let base = crate::settings::base_text(existing);
    let s = crate::choices::names_of(bs);
    let kvs = seq![("list"@, s)];
    if bs.len() == 0 {
        assert(token("none"@));
        lemma_token("none"@);
        assert(bs == Seq::<crate::types::Band>::empty());
    } else {
        lemma_names_read(bs, Seq::empty());
        lemma_names_plain(bs);
        assert(Seq::<char>::empty() + s == s);
        crate::text::lemma_trim_none(s, crate::text::Fringe::Is('"'));
        crate::text::lemma_trim_none(s, crate::text::Fringe::White);
        assert("none"@.last() == 'e');
        assert(s != "none"@);
    }
    lemma_pairs_ok(kvs);
    crate::config_toml::lemma_pick(kvs, "list"@, 0);
    crate::config_laws::law_read_back(base, "bands"@, kvs, 0);
}

/// The bands that the form gives out when the console is locked, once they are written, are
/// the bands in use at the next start.
pub proof fn law_chosen_bands_survive(
    existing: Option<Seq<char>>,
    universe: Seq<crate::types::Band>,
    chosen: Seq<crate::types::Band>,
)
    ensures
        ({
            let bs = crate::panels::waterfall::config_form::in_order(universe, chosen);
            crate::choices::bands_at_start(
                universe,
                crate::choices::kept_bands(
                    crate::config_toml::table_value(
                        crate::choices::bands_text(existing, bs),
                        "bands"@,
                        "list"@,
                    ),
                ),
            ) == bs
        }),
{
    let bs = crate::panels::waterfall::config_form::in_order(universe, chosen);
    law_bands_read_back(existing, bs);
    crate::panels::waterfall::config_form::law_order_is_settled(universe, chosen);
}

/// The operator's identity and contest are read back: the contest exactly, the rest as it
/// is stored. A call sign that is empty once trimmed is left to the `call` key.
pub proof fn law_operator_read_back(
    existing: Option<Seq<char>>,
    call: Seq<char>,
    grid: Seq<char>,
    c: crate::choices::Contest,
)
    requires
        plain(call),
        plain(grid),
        plain(c.class@),
        plain(c.section@),
    ensures
        ({
            let text = crate::choices::operator_text(existing, call, grid, c);
            let at = |key: Seq<char>| crate::config_toml::table_value(text, "station"@, key);
            &&& crate::config_laws::stored(call) is Some ==> crate::settings::station_call(text)
                == crate::config_laws::stored(call)
            &&& crate::settings::station_grid(text) == crate::config_laws::stored(grid)
            &&& crate::choices::contest_in(at("contest"@)) == c.profile
            &&& at("fd_class"@) == crate::config_laws::stored(c.class@)
            &&& at("fd_section"@) == crate::config_laws::stored(c.section@)
        }),
{
    lemma_table_words();
    lemma_choice_words();
    let t = "station"@;
    lemma_word(t);
    let mid = crate::settings::station_text(existing, call, grid);
    let kvs = crate::choices::contest_pairs(c);
    law_station_read_back(existing, call, grid);
    let kept = crate::choices::contest_kept(c.profile);
    assert(token(kept));
    lemma_token(kept);
    lemma_pairs_ok(kvs);
    crate::config_toml::lemma_pick(kvs, "contest"@, 0);
    crate::config_toml::lemma_pick(kvs, "fd_class"@, 1);
    crate::config_toml::lemma_pick(kvs, "fd_section"@, 2);
    crate::config_laws::law_read_back(mid, t, kvs, 0);
    crate::config_laws::law_read_back(mid, t, kvs, 1);
    crate::config_laws::law_read_back(mid, t, kvs, 2);
    assert("none"@.len() == 4 && "field-day"@.len() == 9);
    crate::config_laws::law_other_values_kept(mid, t, kvs, t, "callsign"@);
    crate::config_laws::law_other_values_kept(mid, t, kvs, t, "call"@);
    crate::config_laws::law_other_values_kept(mid, t, kvs, t, "grid"@);
}

} // verus!
