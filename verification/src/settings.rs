//! Startup settings: what the `DM420_*` variables and the configuration file say, and
//! the text of the file once a setting was changed.
//!
//! Nothing here touches the environment or a disk. The functions take the values of the
//! variables and the text of the file, and give back settings or the text to write.
//! Numbers with decimals stand as the bit pattern of a 32-bit float.

use vstd::prelude::*;

use crate::config_toml::{
    bool_str, parse_bool, parse_table_value, parse_u16, update_toml_table,
};
use crate::numbers::{parse_number, spell, spell_hex4};
use crate::text::{
    chars_of, owned, same_str, string_of, to_lowercase, to_uppercase, trimmed,
};
use crate::types::{
    clone_text, Callsign, ContestProfile, GridSquare, LineProfile, Protocol, Section, SerialConfig,
    StationConfig,
};

verus! {

/// The rig's speed when nothing else is said.
pub const DEFAULT_BAUD: u32 = 19_200;

/// The text of an optional view.
pub open spec fn view_of(o: Option<&str>) -> Option<Seq<char>> {
    match o {
        Some(s) => Some(s@),
        None => None,
    }
}

/// The first of two values that is there.
pub open spec fn first_of<T>(a: Option<T>, b: Option<T>) -> Option<T> {
    match a {
        Some(x) => Some(x),
        None => b,
    }
}

/// A value that is not empty.
pub open spec fn nonempty(v: Option<Seq<char>>) -> Option<Seq<char>> {
    match v {
        Some(s) => if s.len() == 0 {
            None
        } else {
            Some(s)
        },
        None => None,
    }
}

/// The value of `key` in `table` of a file that may be missing.
pub open spec fn file_value(config: Option<Seq<char>>, table: Seq<char>, key: Seq<char>) -> Option<
    Seq<char>,
> {
    match config {
        Some(text) => crate::config_toml::table_value(text, table, key),
        None => None,
    }
}

/// Reads a value of a file that may be missing.
pub fn read_value(config: Option<&str>, table: &str, key: &str) -> (r: Option<String>)
    ensures
        crate::config_toml::text_of(r) == file_value(view_of(config), table@, key@),
{
    match config {
        Some(text) => parse_table_value(text, table, key),
        None => None,
    }
}

/// Whether a variable is set to something other than nothing and `0`.
pub fn env_flag(value: Option<&str>) -> (r: bool)
    ensures
        r == match nonempty(view_of(value)) {
            Some(s) => s != "0"@,
            None => false,
        },
{
    match value {
        Some(s) => {
            let v: Vec<char> = chars_of(s);
            v.len() > 0 && !same_str(s, "0")
        },
        None => false,
    }
}

/// The value of a variable, if it is set and not empty.
pub fn env_nonempty(value: Option<&str>) -> (r: Option<String>)
    ensures
        crate::config_toml::text_of(r) == nonempty(view_of(value)),
{
    match value {
        Some(s) => {
            let v: Vec<char> = chars_of(s);
            if v.len() > 0 {
                Some(string_of(&v))
            } else {
                None
            }
        },
        None => None,
    }
}

/// The log level that the file asks for.
pub open spec fn level_of(config: Option<Seq<char>>) -> Seq<char> {
    match file_value(config, "logging"@, "level"@) {
        Some(s) => s,
        None => "info"@,
    }
}

/// The log level for the station's own code: `[logging] level`, or `info`.
pub fn log_level(config: Option<&str>) -> (r: String)
    ensures
        r@ == level_of(view_of(config)),
{
    match read_value(config, "logging", "level") {
        Some(s) => s,
        None => owned("info"),
    }
}

/// The call sign in `[station]`: `callsign`, or else `call`.
pub open spec fn station_call(text: Seq<char>) -> Option<Seq<char>> {
    first_of(
        crate::config_toml::table_value(text, "station"@, "callsign"@),
        crate::config_toml::table_value(text, "station"@, "call"@),
    )
}

/// The locator in `[station]`.
pub open spec fn station_grid(text: Seq<char>) -> Option<Seq<char>> {
    crate::config_toml::table_value(text, "station"@, "grid"@)
}

/// The call sign and the locator in `[station]`.
pub fn parse_station_config(text: &str) -> (r: (Option<String>, Option<String>))
    ensures
        crate::config_toml::text_of(r.0) == station_call(text@),
        crate::config_toml::text_of(r.1) == station_grid(text@),
{
    let call: Option<String> = match parse_table_value(text, "station", "callsign") {
        Some(s) => Some(s),
        None => parse_table_value(text, "station", "call"),
    };
    (call, parse_table_value(text, "station", "grid"))
}

/// The audio devices in `[audio]`: `input` and `output`.
pub fn parse_audio_config(text: &str) -> (r: (Option<String>, Option<String>))
    ensures
        crate::config_toml::text_of(r.0) == crate::config_toml::table_value(
            text@,
            "audio"@,
            "input"@,
        ),
        crate::config_toml::text_of(r.1) == crate::config_toml::table_value(
            text@,
            "audio"@,
            "output"@,
        ),
{
    (parse_table_value(text, "audio", "input"), parse_table_value(text, "audio", "output"))
}

/// The operator's identity on the air.
pub struct Station {
    pub call: String,
    pub grid: String,
}

/// What an identity is taken from: the variable, else the file, else nothing.
pub open spec fn identity_word(env: Option<Seq<char>>, file: Option<Seq<char>>) -> Seq<char> {
    match first_of(nonempty(env), file) {
        Some(s) => s,
        None => Seq::empty(),
    }
}

/// Whether `s` is the identity that a word stands for: the word in upper case.
pub open spec fn is_identity_of(s: Seq<char>, word: Seq<char>) -> bool {
    &&& s == crate::text::uppercase(word)
    &&& crate::text::ascii(word) ==> s == crate::text::ascii_upper(word)
}

/// Law: there is no default identity. Where neither the variable nor the file gives one, it is
/// empty, and the station counts as not set.
pub proof fn law_no_default_identity(s: Seq<char>, env: Option<Seq<char>>, file: Option<Seq<char>>)
    requires
        nonempty(env) is None,
        file is None,
        is_identity_of(s, identity_word(env, file)),
    ensures
        s.len() == 0,
        crate::text::trim(s).len() == 0,
{
    assert(crate::text::ascii_upper(Seq::empty()) == Seq::<char>::empty());
    assert(crate::text::trim(Seq::<char>::empty()) == Seq::<char>::empty());
}

/// An identity from a variable or from the file.
fn load_identity(env: Option<&str>, file: Option<String>) -> (r: String)
    ensures
        is_identity_of(r@, identity_word(view_of(env), crate::config_toml::text_of(file))),
{
    let word: String = match env_nonempty(env) {
        Some(s) => s,
        None => match file {
            Some(s) => s,
            None => String::new(),
        },
    };
    to_uppercase(word.as_str())
}

impl Station {
    /// The identity from `DM420_CALLSIGN` and `DM420_GRID`, else from the `[station]`
    /// table, else unset. There is no default: it could put the wrong station on the air.
    pub fn load(env_call: Option<&str>, env_grid: Option<&str>, config: Option<&str>) -> (r: Self)
        ensures
            is_identity_of(
                r.call@,
                identity_word(
                    view_of(env_call),
                    match view_of(config) {
                        Some(t) => station_call(t),
                        None => None,
                    },
                ),
            ),
            is_identity_of(
                r.grid@,
                identity_word(
                    view_of(env_grid),
                    match view_of(config) {
                        Some(t) => station_grid(t),
                        None => None,
                    },
                ),
            ),
    {
        let (call, grid): (Option<String>, Option<String>) = match config {
            Some(text) => parse_station_config(text),
            None => (None, None),
        };
        Station { call: load_identity(env_call, call), grid: load_identity(env_grid, grid) }
    }

    /// Whether a call sign is set. Without one nothing is sent and nothing is logged.
    pub fn is_set(&self) -> (r: bool)
        ensures
            r == (crate::text::trim(self.call@).len() > 0),
    {
        trimmed(&chars_of(self.call.as_str())).len() > 0
    }

    /// The text of the file that keeps this identity.
    pub fn save(&self, existing: Option<&str>) -> (r: String)
        ensures
            r@ == station_text(view_of(existing), self.call@, self.grid@),
    {
        update_station_config(existing, self.call.as_str(), self.grid.as_str())
    }

    /// The identity that outgoing messages are made from, with a standard exchange.
    pub fn to_qso_config(&self) -> (r: StationConfig)
        ensures
            r.call.0@ == self.call@,
            r.grid.0@ == self.grid@,
            r.fd_class@ == "1B"@,
            r.fd_section.0@ == "CO"@,
            r.contest == ContestProfile::Standard,
    {
        StationConfig {
            call: Callsign(self.call.clone()),
            grid: GridSquare(self.grid.clone()),
            fd_class: owned("1B"),
            fd_section: Section(owned("CO")),
            contest: ContestProfile::Standard,
        }
    }
}

/// The lines of a fresh file.
pub open spec fn default_lines(call: Seq<char>, grid: Seq<char>) -> Seq<Seq<char>> {
    seq![
        "# DM420 station identity — written from the UI; safe to hand-edit."@,
        "# No built-in default: DM420 won't call CQ or answer until a callsign is set."@,
        Seq::empty(),
        "[station]"@,
        crate::config_toml::entry_line(("callsign"@, call)),
        crate::config_toml::entry_line(("grid"@, grid)),
        Seq::empty(),
        "# Raw decode/transmit archive (diagnostics): set `decodes` to a file path to"@,
        "# append every heard + sent FT8/FT4 message as JSONL. Blank = disabled (default)."@,
        "[archive]"@,
        crate::config_toml::entry_line(("decodes"@, Seq::empty())),
    ]
}

/// A fresh file, with comments that explain it.
pub fn default_station_toml(call: &str, grid: &str) -> (r: String)
    ensures
        r@ == crate::text::unlines(default_lines(call@, grid@)),
{
    let mut ls: Vec<Vec<char>> = Vec::new();
    ls.push(chars_of("# DM420 station identity — written from the UI; safe to hand-edit."));
    ls.push(
        chars_of("# No built-in default: DM420 won't call CQ or answer until a callsign is set."),
    );
    ls.push(Vec::new());
    ls.push(chars_of("[station]"));
    ls.push(crate::config_toml::new_entry(&(chars_of("callsign"), chars_of(call))));
    ls.push(crate::config_toml::new_entry(&(chars_of("grid"), chars_of(grid))));
    ls.push(Vec::new());
    ls.push(
        chars_of("# Raw decode/transmit archive (diagnostics): set `decodes` to a file path to"),
    );
    ls.push(
        chars_of(
            "# append every heard + sent FT8/FT4 message as JSONL. Blank = disabled (default).",
        ),
    );
    ls.push(chars_of("[archive]"));
    ls.push(crate::config_toml::new_entry(&(chars_of("decodes"), Vec::new())));
    assert(crate::text::views(ls@) == default_lines(call@, grid@));
    string_of(&crate::text::join_lines(&ls))
}

/// The text of the file that keeps an identity.
pub open spec fn station_text(
    existing: Option<Seq<char>>,
    call: Seq<char>,
    grid: Seq<char>,
) -> Seq<char> {
    match existing {
        Some(text) => crate::config_toml::updated(
            text,
            "station"@,
            seq![("callsign"@, call), ("grid"@, grid)],
        ),
        None => crate::text::unlines(default_lines(call, grid)),
    }
}

/// The file with a new identity, comments kept; a fresh one when there is none yet.
pub fn update_station_config(existing: Option<&str>, call: &str, grid: &str) -> (r: String)
    ensures
        r@ == station_text(view_of(existing), call@, grid@),
{
    match existing {
        Some(text) => {
            let mut kvs: Vec<(&str, &str)> = Vec::new();
            kvs.push(("callsign", call));
            kvs.push(("grid", grid));
            assert(crate::config_toml::pairs(kvs@) == seq![("callsign"@, call@), ("grid"@, grid@)]);
            update_toml_table(text, "station", kvs.as_slice())
        },
        None => default_station_toml(call, grid),
    }
}

/// The rig's serial settings in the file; any of them may be missing.
pub struct SerialFile {
    pub port: Option<String>,
    pub usb_serial: Option<String>,
    pub usb_vid: Option<u16>,
    pub usb_pid: Option<u16>,
    pub baud: Option<u32>,
    pub profile: Option<LineProfile>,
    pub autodetect: Option<bool>,
}

/// The 16-bit number of an optional value.
pub open spec fn u16_in(v: Option<Seq<char>>) -> Option<int> {
    match v {
        Some(s) => crate::config_toml::u16_of(s),
        None => None,
    }
}

/// The speed that an optional value spells.
pub open spec fn baud_in(v: Option<Seq<char>>) -> Option<int> {
    match v {
        Some(s) => crate::numbers::read_number(s, 10, 0xFFFF_FFFF),
        None => None,
    }
}

/// The flag of an optional value.
pub open spec fn flag_in(v: Option<Seq<char>>) -> Option<bool> {
    match v {
        Some(s) => crate::config_toml::flag_of(s),
        None => None,
    }
}

/// The profile that a word stands for.
pub open spec fn profile_of(s: Seq<char>) -> Option<LineProfile> {
    if s == LineProfile::Default.word() {
        Some(LineProfile::Default)
    } else if s == LineProfile::AssertDtrRts.word() {
        Some(LineProfile::AssertDtrRts)
    } else if s == LineProfile::HardwareFlow.word() {
        Some(LineProfile::HardwareFlow)
    } else {
        None
    }
}

/// The profile of an optional value.
pub open spec fn profile_in(v: Option<Seq<char>>) -> Option<LineProfile> {
    match v {
        Some(s) => profile_of(s),
        None => None,
    }
}

/// The number that an optional speed stands for.
pub open spec fn int_of_u32(o: Option<u32>) -> Option<int> {
    match o {
        Some(n) => Some(n as int),
        None => None,
    }
}

/// Reads a 32-bit number.
pub fn parse_u32(s: &str) -> (r: Option<u32>)
    ensures
        int_of_u32(r) == crate::numbers::read_number(s@, 10, 0xFFFF_FFFF),
{
    match parse_number(&chars_of(s), 10, 0xFFFF_FFFF) {
        Some(n) => Some(n as u32),
        None => None,
    }
}

/// Reads a line profile.
fn parse_profile(s: &str) -> (r: Option<LineProfile>)
    ensures
        r == profile_of(s@),
{
    let r: Option<LineProfile> = LineProfile::parse(s);
    proof {
        if let Some(p) = r {
            if s@ == LineProfile::Default.word() {
                crate::types::law_profile_words_differ(p, LineProfile::Default);
            } else if s@ == LineProfile::AssertDtrRts.word() {
                crate::types::law_profile_words_differ(p, LineProfile::AssertDtrRts);
            }
        }
    }
    r
}

impl SerialFile {
    /// Whether these are the settings in the `[serial]` table of a file.
    pub open spec fn is_of(self, text: Seq<char>) -> bool {
        let at = |key: Seq<char>| crate::config_toml::table_value(text, "serial"@, key);
        &&& crate::config_toml::text_of(self.port) == at("port"@)
        &&& crate::config_toml::text_of(self.usb_serial) == at("usb_serial"@)
        &&& crate::config_toml::int_of_u16(self.usb_vid) == u16_in(at("usb_vid"@))
        &&& crate::config_toml::int_of_u16(self.usb_pid) == u16_in(at("usb_pid"@))
        &&& int_of_u32(self.baud) == baud_in(at("baud"@))
        &&& self.profile == profile_in(at("profile"@))
        &&& self.autodetect == flag_in(at("autodetect"@))
    }

    /// No settings.
    pub fn none() -> (r: Self)
        ensures
            r.port is None,
            r.usb_serial is None,
            r.usb_vid is None,
            r.usb_pid is None,
            r.baud is None,
            r.profile is None,
            r.autodetect is None,
    {
        SerialFile {
            port: None,
            usb_serial: None,
            usb_vid: None,
            usb_pid: None,
            baud: None,
            profile: None,
            autodetect: None,
        }
    }
}

/// The rig's settings in the `[serial]` table. A value that cannot be read counts as
/// unset.
pub fn parse_serial_config(text: &str) -> (r: SerialFile)
    ensures
        r.is_of(text@),
{
    let usb_vid: Option<u16> = match parse_table_value(text, "serial", "usb_vid") {
        Some(s) => parse_u16(s.as_str()),
        None => None,
    };
    let usb_pid: Option<u16> = match parse_table_value(text, "serial", "usb_pid") {
        Some(s) => parse_u16(s.as_str()),
        None => None,
    };
    let baud: Option<u32> = match parse_table_value(text, "serial", "baud") {
        Some(s) => parse_u32(s.as_str()),
        None => None,
    };
    let profile: Option<LineProfile> = match parse_table_value(text, "serial", "profile") {
        Some(s) => parse_profile(s.as_str()),
        None => None,
    };
    let autodetect: Option<bool> = match parse_table_value(text, "serial", "autodetect") {
        Some(s) => parse_bool(s.as_str()),
        None => None,
    };
    SerialFile {
        port: parse_table_value(text, "serial", "port"),
        usb_serial: parse_table_value(text, "serial", "usb_serial"),
        usb_vid,
        usb_pid,
        baud,
        profile,
        autodetect,
    }
}

/// The speed that a variable asks for, else the file, else the default. A variable that
/// is no number counts as the default.
pub open spec fn baud_from(env: Option<Seq<char>>, file: Option<u32>) -> int {
    match nonempty(env) {
        Some(s) => match crate::numbers::read_number(s, 10, 0xFFFF_FFFF) {
            Some(n) => n,
            None => DEFAULT_BAUD as int,
        },
        None => match file {
            Some(n) => n as int,
            None => DEFAULT_BAUD as int,
        },
    }
}

/// The profile that a variable asks for, else the file, else the default. A variable that
/// names none counts as the default.
pub open spec fn profile_from(env: Option<Seq<char>>, file: Option<LineProfile>) -> LineProfile {
    match nonempty(env) {
        Some(s) => match profile_of(s) {
            Some(p) => p,
            None => LineProfile::Default,
        },
        None => match file {
            Some(p) => p,
            None => LineProfile::Default,
        },
    }
}

/// The rig's settings: for each the variable, then the file, then the default. The USB
/// identity and autodetection come from the file alone; autodetection is on by default.
pub fn serial_from_env(
    env_port: Option<&str>,
    env_baud: Option<&str>,
    env_profile: Option<&str>,
    file: SerialFile,
) -> (r: SerialConfig)
    ensures
        crate::config_toml::text_of(r.port) == first_of(
            nonempty(view_of(env_port)),
            crate::config_toml::text_of(file.port),
        ),
        r.usb_serial == file.usb_serial,
        r.usb_vid == file.usb_vid,
        r.usb_pid == file.usb_pid,
        r.baud == baud_from(view_of(env_baud), file.baud),
        r.profile == profile_from(view_of(env_profile), file.profile),
        r.autodetect == match file.autodetect {
            Some(b) => b,
            None => true,
        },
{
    let port: Option<String> = match env_nonempty(env_port) {
        Some(s) => Some(s),
        None => file.port,
    };
    let baud: u32 = match env_nonempty(env_baud) {
        Some(s) => match parse_u32(s.as_str()) {
            Some(n) => n,
            None => DEFAULT_BAUD,
        },
        None => match file.baud {
            Some(n) => n,
            None => DEFAULT_BAUD,
        },
    };
    let profile: LineProfile = match env_nonempty(env_profile) {
        Some(s) => match parse_profile(s.as_str()) {
            Some(p) => p,
            None => LineProfile::Default,
        },
        None => match file.profile {
            Some(p) => p,
            None => LineProfile::Default,
        },
    };
    SerialConfig {
        port,
        usb_serial: file.usb_serial,
        usb_vid: file.usb_vid,
        usb_pid: file.usb_pid,
        baud,
        profile,
        autodetect: match file.autodetect {
            Some(b) => b,
            None => true,
        },
    }
}

/// The protocol that a word in lower case names; FT8 for any other word.
pub open spec fn protocol_word(s: Seq<char>) -> Protocol {
    if s == "ft4"@ {
        Protocol::Ft4
    } else {
        Protocol::Ft8
    }
}

/// The protocol that a word in lower case names; FT8 for any other word.
pub fn protocol_named(word: &str) -> (r: Protocol)
    ensures
        r == protocol_word(word@),
{
    if same_str(word, "ft4") {
        Protocol::Ft4
    } else {
        Protocol::Ft8
    }
}

/// The word that a protocol is kept under.
pub open spec fn protocol_kept(p: Protocol) -> Seq<char> {
    match p {
        Protocol::Ft8 => "ft8"@,
        Protocol::Ft4 => "ft4"@,
    }
}

/// The word that a protocol is kept under.
fn kept_word(p: Protocol) -> (s: &'static str)
    ensures
        s@ == protocol_kept(p),
{
    match p {
        Protocol::Ft8 => "ft8",
        Protocol::Ft4 => "ft4",
    }
}

/// The protocol that a kept value stands for. Any other word counts as unset.
pub open spec fn protocol_in(v: Option<Seq<char>>) -> Option<Protocol> {
    match v {
        Some(s) => if s == "ft8"@ {
            Some(Protocol::Ft8)
        } else if s == "ft4"@ {
            Some(Protocol::Ft4)
        } else {
            None
        },
        None => None,
    }
}

/// The protocol that is kept in `[audio] mode`.
pub fn read_protocol(config: Option<&str>) -> (r: Option<Protocol>)
    ensures
        r == protocol_in(file_value(view_of(config), "audio"@, "mode"@)),
{
    match read_value(config, "audio", "mode") {
        Some(s) => if same_str(s.as_str(), "ft8") {
            Some(Protocol::Ft8)
        } else if same_str(s.as_str(), "ft4") {
            Some(Protocol::Ft4)
        } else {
            None
        },
        None => None,
    }
}

/// The protocol that the console starts with: the one that `DM420_MODE` asks for, where it
/// is not empty, else the one that is kept in the file, else FT8.
pub open spec fn first_protocol(mode: Option<Seq<char>>, config: Option<Seq<char>>) -> Protocol {
    match nonempty(mode) {
        Some(s) => protocol_word(crate::text::lowercase(crate::text::trim(s))),
        None => match protocol_in(file_value(config, "audio"@, "mode"@)) {
            Some(p) => p,
            None => Protocol::Ft8,
        },
    }
}

/// The protocol that the console starts with.
pub fn starting_protocol(mode: Option<&str>, config: Option<&str>) -> (r: Protocol)
    ensures
        r == first_protocol(view_of(mode), view_of(config)),
        nonempty(view_of(mode)) matches Some(s) ==> crate::text::ascii(crate::text::trim(s)) ==> r
            == protocol_word(crate::text::ascii_lower(crate::text::trim(s))),
{
    let asked: bool = match mode {
        Some(s) => chars_of(s).len() > 0,
        None => false,
    };
    if asked {
        return protocol_from_env(mode);
    }
    match read_protocol(config) {
        Some(p) => p,
        None => Protocol::Ft8,
    }
}

/// The protocol that `DM420_MODE` asks for, in any case and with space around it.
pub fn protocol_from_env(value: Option<&str>) -> (r: Protocol)
    ensures
        r == match nonempty(view_of(value)) {
            Some(s) => protocol_word(crate::text::lowercase(crate::text::trim(s))),
            None => Protocol::Ft8,
        },
        value is Some && crate::text::ascii(crate::text::trim(value->Some_0@)) ==> r
            == protocol_word(crate::text::ascii_lower(crate::text::trim(value->Some_0@))),
{
    proof {
        reveal_strlit("ft4");
    }
    match value {
        Some(s) => {
            let v: Vec<char> = chars_of(s);
            let word: String = string_of(trimmed(&v));
            let lowered: String = to_lowercase(word.as_str());
            if v.len() == 0 {
                assert(crate::text::trim(s@).len() == 0);
                assert(crate::text::ascii_lower(crate::text::trim(s@)).len() == 0);
                return Protocol::Ft8;
            }
            protocol_named(lowered.as_str())
        },
        None => Protocol::Ft8,
    }
}

/// The recording that `DM420_WAV` names, if it is there to be replayed.
pub fn wav_from_env(value: Option<&str>, exists: bool) -> (r: Option<String>)
    ensures
        crate::config_toml::text_of(r) == (if exists {
            nonempty(view_of(value))
        } else {
            None
        }),
{
    if exists {
        env_nonempty(value)
    } else {
        None
    }
}

/// The hardware that the operator binds from the console.
#[derive(Debug)]
pub struct HardwareConfig {
    pub audio_input: Option<String>,
    pub audio_output: Option<String>,
    pub serial: SerialConfig,
    pub protocol: Protocol,
}

impl Clone for HardwareConfig {
    fn clone(&self) -> (r: Self)
        ensures
            r == *self,
    {
        HardwareConfig {
            audio_input: clone_text(&self.audio_input),
            audio_output: clone_text(&self.audio_output),
            serial: self.serial.clone(),
            protocol: self.protocol,
        }
    }
}

/// The values of the variables that are read at startup.
pub struct Environment<'a> {
    pub mock: Option<&'a str>,
    pub audio_input: Option<&'a str>,
    pub serial_port: Option<&'a str>,
    pub serial_baud: Option<&'a str>,
    pub serial_profile: Option<&'a str>,
    pub mode: Option<&'a str>,
    pub wav: Option<&'a str>,
    /// Whether the file that `wav` names exists.
    pub wav_exists: bool,
    /// The number in `[audio] tx_gain`, and the level where there is none.
    pub tx_gain: Option<u32>,
    pub default_gain: u32,
}

/// Startup settings. The transmit level is apart: see `tx_gain`.
pub struct Settings {
    /// Whether the real rig and decoder are run.
    pub real: bool,
    pub audio_input: Option<String>,
    pub serial: SerialConfig,
    pub protocol: Protocol,
    pub wav: Option<String>,
    pub audio_output: Option<String>,
    /// How loud transmissions are, from 0 to 1.
    pub tx_gain: u32,
}

/// Where decodes come from.
pub enum DecodeSource {
    /// A recording, replayed without end.
    Wav { path: String, protocol: Protocol, looping: bool },
    /// The capture device.
    Live { input: Option<String>, protocol: Protocol },
}

/// Where the logbook is kept.
pub enum LogbookPath {
    /// At the path that a variable names.
    At(String),
    /// Under the operator's home directory.
    Home,
    /// In the directory that the console was started in.
    Here,
}

/// What the rig, the decoder and the logbook are started with.
pub struct CoreConfig {
    pub allow_transmit: bool,
    pub decode: DecodeSource,
    pub serial: SerialConfig,
    pub logbook: LogbookPath,
    pub decode_archive: Option<String>,
    pub tx_output: Option<String>,
    pub tx_gain: u32,
}

impl Settings {
    /// The settings that the variables and the file make.
    pub fn from_env(env: &Environment, config: Option<&str>) -> (r: Self)
        ensures
            r.real == !(match nonempty(view_of(env.mock)) {
                Some(s) => s != "0"@,
                None => false,
            }),
            crate::config_toml::text_of(r.audio_input) == first_of(
                nonempty(view_of(env.audio_input)),
                file_value(view_of(config), "audio"@, "input"@),
            ),
            crate::config_toml::text_of(r.audio_output) == file_value(
                view_of(config),
                "audio"@,
                "output"@,
            ),
            crate::config_toml::text_of(r.serial.port) == first_of(
                nonempty(view_of(env.serial_port)),
                file_value(view_of(config), "serial"@, "port"@),
            ),
            crate::config_toml::text_of(r.serial.usb_serial) == file_value(
                view_of(config),
                "serial"@,
                "usb_serial"@,
            ),
            crate::config_toml::int_of_u16(r.serial.usb_vid) == u16_in(
                file_value(view_of(config), "serial"@, "usb_vid"@),
            ),
            crate::config_toml::int_of_u16(r.serial.usb_pid) == u16_in(
                file_value(view_of(config), "serial"@, "usb_pid"@),
            ),
            r.serial.baud == (match nonempty(view_of(env.serial_baud)) {
                Some(s) => first_of(
                    crate::numbers::read_number(s, 10, 0xFFFF_FFFF),
                    Some(DEFAULT_BAUD as int),
                ),
                None => first_of(
                    baud_in(file_value(view_of(config), "serial"@, "baud"@)),
                    Some(DEFAULT_BAUD as int),
                ),
            })->Some_0,
            r.serial.profile == (match nonempty(view_of(env.serial_profile)) {
                Some(s) => first_of(profile_of(s), Some(LineProfile::Default)),
                None => first_of(
                    profile_in(file_value(view_of(config), "serial"@, "profile"@)),
                    Some(LineProfile::Default),
                ),
            })->Some_0,
            r.serial.autodetect == first_of(
                flag_in(file_value(view_of(config), "serial"@, "autodetect"@)),
                Some(true),
            )->Some_0,
            r.protocol == first_protocol(view_of(env.mode), view_of(config)),
            nonempty(view_of(env.mode)) matches Some(s) ==> crate::text::ascii(
                crate::text::trim(s),
            ) ==> r.protocol == protocol_word(crate::text::ascii_lower(crate::text::trim(s))),
            crate::config_toml::text_of(r.wav) == (if env.wav_exists {
                nonempty(view_of(env.wav))
            } else {
                None
            }),
            r.tx_gain == gain(env.tx_gain, env.default_gain),
    {
        let (toml_in, toml_out): (Option<String>, Option<String>) = match config {
            Some(text) => parse_audio_config(text),
            None => (None, None),
        };
        let file: SerialFile = match config {
            Some(text) => parse_serial_config(text),
            None => SerialFile::none(),
        };
        Settings {
            real: !env_flag(env.mock),
            audio_input: match env_nonempty(env.audio_input) {
                Some(s) => Some(s),
                None => toml_in,
            },
            serial: serial_from_env(env.serial_port, env.serial_baud, env.serial_profile, file),
            protocol: starting_protocol(env.mode, config),
            wav: wav_from_env(env.wav, env.wav_exists),
            tx_gain: tx_gain(env.tx_gain, env.default_gain),
            audio_output: toml_out,
        }
    }

    /// Whether the real rig and decoder are run.
    pub fn is_real(&self) -> (r: bool)
        ensures
            r == self.real,
    {
        self.real
    }

    /// The hardware that the console starts with.
    pub fn hardware(&self) -> (r: HardwareConfig)
        ensures
            r.audio_input == self.audio_input,
            r.audio_output == self.audio_output,
            r.serial == self.serial,
            r.protocol == self.protocol,
    {
        HardwareConfig {
            audio_input: clone_text(&self.audio_input),
            audio_output: clone_text(&self.audio_output),
            serial: self.serial.clone(),
            protocol: self.protocol,
        }
    }

    /// What the rig and the decoder are started with: the recording if there is one, else
    /// live capture. The archive is on where the file names one.
    pub fn core_config(&self, env_logbook: Option<&str>, has_home: bool, config: Option<&str>) -> (r:
        CoreConfig)
        ensures
            r.allow_transmit,
            match self.wav {
                Some(p) => r.decode == (DecodeSource::Wav {
                    path: p,
                    protocol: self.protocol,
                    looping: true,
                }),
                None => r.decode == (DecodeSource::Live {
                    input: self.audio_input,
                    protocol: self.protocol,
                }),
            },
            r.serial == self.serial,
            match nonempty(view_of(env_logbook)) {
                Some(p) => r.logbook matches LogbookPath::At(q) && q@ == p,
                None => r.logbook == (if has_home {
                    LogbookPath::Home
                } else {
                    LogbookPath::Here
                }),
            },
            crate::config_toml::text_of(r.decode_archive) == file_value(
                view_of(config),
                "archive"@,
                "decodes"@,
            ),
            r.tx_output == self.audio_output,
            r.tx_gain == self.tx_gain,
    {
        let decode: DecodeSource = match &self.wav {
            Some(path) => DecodeSource::Wav {
                path: path.clone(),
                protocol: self.protocol,
                looping: true,
            },
            None => DecodeSource::Live {
                input: clone_text(&self.audio_input),
                protocol: self.protocol,
            },
        };
        CoreConfig {
            allow_transmit: true,
            decode,
            serial: self.serial.clone(),
            logbook: logbook_path(env_logbook, has_home),
            decode_archive: read_value(config, "archive", "decodes"),
            tx_output: clone_text(&self.audio_output),
            tx_gain: self.tx_gain,
        }
    }
}

/// Where the logbook is kept: at the path in `DM420_LOGBOOK`, else under the home
/// directory, else here.
pub fn logbook_path(env_logbook: Option<&str>, has_home: bool) -> (r: LogbookPath)
    ensures
        match nonempty(view_of(env_logbook)) {
            Some(p) => r matches LogbookPath::At(q) && q@ == p,
            None => r == (if has_home {
                LogbookPath::Home
            } else {
                LogbookPath::Here
            }),
        },
{
    match env_nonempty(env_logbook) {
        Some(p) => LogbookPath::At(p),
        None => if has_home {
            LogbookPath::Home
        } else {
            LogbookPath::Here
        },
    }
}

/// The text that a change is written into: the file, or a fresh one.
pub open spec fn base_text(existing: Option<Seq<char>>) -> Seq<char> {
    match existing {
        Some(t) => t,
        None => "# DM420 config — written from the UI; safe to hand-edit.\n"@,
    }
}

/// The text that a change is written into.
pub(crate) fn base_of<'a>(existing: Option<&'a str>) -> (r: &'a str)
    ensures
        r@ == base_text(view_of(existing)),
{
    match existing {
        Some(t) => t,
        None => "# DM420 config — written from the UI; safe to hand-edit.\n",
    }
}

/// A value that is written as nothing when it is missing.
pub open spec fn or_empty(o: Option<String>) -> Seq<char> {
    match o {
        Some(s) => s@,
        None => Seq::empty(),
    }
}

/// A 16-bit number as it is written: `0x` and four digits, or nothing.
pub open spec fn hex_text(o: Option<u16>) -> Seq<char> {
    match o {
        Some(n) => seq!['0', 'x'] + crate::numbers::hex4(n as int),
        None => Seq::empty(),
    }
}

/// The entries of `[audio]`.
pub open spec fn audio_pairs(cfg: HardwareConfig) -> Seq<(Seq<char>, Seq<char>)> {
    seq![
        ("input"@, or_empty(cfg.audio_input)),
        ("output"@, or_empty(cfg.audio_output)),
        ("mode"@, protocol_kept(cfg.protocol)),
    ]
}

/// The entries of `[serial]`.
pub open spec fn serial_pairs(c: SerialConfig) -> Seq<(Seq<char>, Seq<char>)> {
    seq![
        ("port"@, or_empty(c.port)),
        ("usb_serial"@, or_empty(c.usb_serial)),
        ("usb_vid"@, hex_text(c.usb_vid)),
        ("usb_pid"@, hex_text(c.usb_pid)),
        ("baud"@, crate::numbers::dec(c.baud as nat)),
        ("profile"@, c.profile.word()),
        ("autodetect"@, crate::config_toml::flag_word(c.autodetect)),
    ]
}

/// The text of the file that keeps the hardware.
pub open spec fn hardware_text(existing: Option<Seq<char>>, cfg: HardwareConfig) -> Seq<char> {
    crate::config_toml::updated(
        crate::config_toml::updated(base_text(existing), "audio"@, audio_pairs(cfg)),
        "serial"@,
        serial_pairs(cfg.serial),
    )
}

/// A text, or nothing when it is missing.
fn text_or_empty(o: &Option<String>) -> (r: &str)
    ensures
        r@ == or_empty(*o),
{
    match o {
        Some(s) => s.as_str(),
        None => {
            proof {
                reveal_strlit("");
            }
            assert(""@ == Seq::<char>::empty());
            ""
        },
    }
}

/// Spells a 16-bit number as it is written.
fn spell_hex_text(o: Option<u16>) -> (r: String)
    ensures
        r@ == hex_text(o),
{
    match o {
        Some(n) => {
            let mut v: Vec<char> = Vec::new();
            v.push('0');
            v.push('x');
            crate::text::append(&mut v, &spell_hex4(n));
            assert(v@ == hex_text(o));
            string_of(&v)
        },
        None => String::new(),
    }
}

/// The file with the hardware that the console binds: the audio devices, the protocol that
/// is decoded, and the rig's serial settings. What is missing is written as nothing; all else is kept.
pub fn save_hardware_config(existing: Option<&str>, cfg: &HardwareConfig) -> (r: String)
    ensures
        r@ == hardware_text(view_of(existing), *cfg),
{
    let mut audio: Vec<(&str, &str)> = Vec::new();
    audio.push(("input", text_or_empty(&cfg.audio_input)));
    audio.push(("output", text_or_empty(&cfg.audio_output)));
    audio.push(("mode", kept_word(cfg.protocol)));
    assert(crate::config_toml::pairs(audio@) == audio_pairs(*cfg));
    let text: String = update_toml_table(base_of(existing), "audio", audio.as_slice());

    let baud: String = string_of(&spell(cfg.serial.baud as u64));
    let usb_vid: String = spell_hex_text(cfg.serial.usb_vid);
    let usb_pid: String = spell_hex_text(cfg.serial.usb_pid);
    let mut serial: Vec<(&str, &str)> = Vec::new();
    serial.push(("port", text_or_empty(&cfg.serial.port)));
    serial.push(("usb_serial", text_or_empty(&cfg.serial.usb_serial)));
    serial.push(("usb_vid", usb_vid.as_str()));
    serial.push(("usb_pid", usb_pid.as_str()));
    serial.push(("baud", baud.as_str()));
    serial.push(("profile", cfg.serial.profile.label()));
    serial.push(("autodetect", bool_str(cfg.serial.autodetect)));
    assert(crate::config_toml::pairs(serial@) == serial_pairs(cfg.serial));
    update_toml_table(text.as_str(), "serial", serial.as_slice())
}

/// Whether the operator chose the dark face: `[display] dark`; `None` when it is unset.
pub fn read_theme_dark(config: Option<&str>) -> (r: Option<bool>)
    ensures
        r == flag_in(file_value(view_of(config), "display"@, "dark"@)),
{
    match read_value(config, "display", "dark") {
        Some(s) => parse_bool(s.as_str()),
        None => None,
    }
}

/// The file with one flag of `[display]` set.
pub open spec fn display_text(existing: Option<Seq<char>>, key: Seq<char>, on: bool) -> Seq<char> {
    crate::config_toml::updated(
        base_text(existing),
        "display"@,
        seq![(key, crate::config_toml::flag_word(on))],
    )
}

/// The file with one flag of `[display]` set.
fn save_display(existing: Option<&str>, key: &str, on: bool) -> (r: String)
    ensures
        r@ == display_text(view_of(existing), key@, on),
{
    let mut kvs: Vec<(&str, &str)> = Vec::new();
    kvs.push((key, bool_str(on)));
    assert(crate::config_toml::pairs(kvs@) == seq![(key@, crate::config_toml::flag_word(on))]);
    update_toml_table(base_of(existing), "display", kvs.as_slice())
}

/// The file with the face of the console set.
pub fn save_theme_dark(existing: Option<&str>, dark: bool) -> (r: String)
    ensures
        r@ == display_text(view_of(existing), "dark"@, dark),
{
    save_display(existing, "dark", dark)
}

/// Whether decoded text gets two thirds of the waterslide: `[display] waterslide_wide`,
/// off by default.
pub fn read_waterslide_wide(config: Option<&str>) -> (r: bool)
    ensures
        r == (flag_in(file_value(view_of(config), "display"@, "waterslide_wide"@)) == Some(true)),
{
    match read_value(config, "display", "waterslide_wide") {
        Some(s) => match parse_bool(s.as_str()) {
            Some(b) => b,
            None => false,
        },
        None => false,
    }
}

/// The file with the split of the waterslide set.
pub fn save_waterslide_wide(existing: Option<&str>, wide: bool) -> (r: String)
    ensures
        r@ == display_text(view_of(existing), "waterslide_wide"@, wide),
{
    save_display(existing, "waterslide_wide", wide)
}

/// Whether the bit pattern of a 32-bit float stands for a finite number.
pub open spec fn finite(bits: u32) -> bool {
    bits % 0x8000_0000 < 0x7F80_0000
}

/// Whether the bit pattern of a 32-bit float stands for a finite number above zero.
pub open spec fn positive(bits: u32) -> bool {
    0 < bits < 0x7F80_0000
}

/// Whether a number is finite.
pub fn is_finite(bits: u32) -> (r: bool)
    ensures
        r == finite(bits),
{
    bits % 0x8000_0000 < 0x7F80_0000
}

/// Whether a number is finite and above zero.
pub fn is_positive(bits: u32) -> (r: bool)
    ensures
        r == positive(bits),
{
    0 < bits && bits < 0x7F80_0000
}

/// The transmit level: the number in `[audio] tx_gain`, held between 0 and 1. A number
/// that is missing or not finite counts as the default. Negative zero stays.
pub open spec fn gain(read: Option<u32>, default_gain: u32) -> u32 {
    match read {
        Some(g) => if !finite(g) {
            default_gain
        } else if g > 0x8000_0000 {
            0
        } else if 0x3F80_0000 < g < 0x8000_0000 {
            0x3F80_0000
        } else {
            g
        },
        None => default_gain,
    }
}

/// The transmit level that was read, held between 0 and 1; the default where none was.
pub fn tx_gain(read: Option<u32>, default_gain: u32) -> (r: u32)
    ensures
        r == gain(read, default_gain),
{
    match read {
        Some(g) => if !is_finite(g) {
            default_gain
        } else if g > 0x8000_0000 {
            0
        } else if 0x3F80_0000 < g && g < 0x8000_0000 {
            0x3F80_0000
        } else {
            g
        },
        None => default_gain,
    }
}

/// The level never goes beyond full scale when the default does not: a mistyped entry
/// cannot drive the rig hotter.
pub proof fn law_gain_in_range(read: Option<u32>, default_gain: u32)
    requires
        default_gain <= 0x3F80_0000,
    ensures
        gain(read, default_gain) <= 0x3F80_0000 || gain(read, default_gain) == 0x8000_0000,
{
}

/// The window: its size and place in points, and whether it fills the screen.
#[derive(Clone, Copy, Debug, PartialEq, Eq)]
pub struct WindowSize {
    pub width: u32,
    pub height: u32,
    pub pos: Option<(u32, u32)>,
    pub fullscreen: bool,
}

/// The numbers of `[window]` as they were read, each missing where it is no number.
#[derive(Clone, Copy, Debug, PartialEq, Eq, Structural)]
pub struct WindowNumbers {
    pub width: Option<u32>,
    pub height: Option<u32>,
    pub x: Option<u32>,
    pub y: Option<u32>,
}

/// The window that the file asks for. The size must be there, finite and above zero; the
/// place counts only when both of its numbers are there and finite.
pub open spec fn window_of(n: WindowNumbers, fullscreen: Option<bool>) -> Option<WindowSize> {
    match (n.width, n.height) {
        (Some(w), Some(h)) => if positive(w) && positive(h) {
            Some(
                WindowSize {
                    width: w,
                    height: h,
                    pos: match (n.x, n.y) {
                        (Some(x), Some(y)) => if finite(x) && finite(y) {
                            Some((x, y))
                        } else {
                            None
                        },
                        _ => None,
                    },
                    fullscreen: fullscreen == Some(true),
                },
            )
        } else {
            None
        },
        _ => None,
    }
}

/// The window that the file asks for, from the numbers of `[window]` and the text of the
/// file, which holds the `fullscreen` flag.
pub fn read_window_size(n: WindowNumbers, config: Option<&str>) -> (r: Option<WindowSize>)
    ensures
        r == (if config is None {
            None
        } else {
            window_of(n, flag_in(file_value(view_of(config), "window"@, "fullscreen"@)))
        }),
{
    if config.is_none() {
        return None;
    }
    let fullscreen: bool = match read_value(config, "window", "fullscreen") {
        Some(s) => match parse_bool(s.as_str()) {
            Some(b) => b,
            None => false,
        },
        None => false,
    };
    match (n.width, n.height) {
        (Some(w), Some(h)) => {
            if !is_positive(w) || !is_positive(h) {
                return None;
            }
            let pos: Option<(u32, u32)> = match (n.x, n.y) {
                (Some(x), Some(y)) => if is_finite(x) && is_finite(y) {
                    Some((x, y))
                } else {
                    None
                },
                _ => None,
            };
            Some(WindowSize { width: w, height: h, pos, fullscreen })
        },
        _ => None,
    }
}

/// The shares of the tiles.
#[derive(Clone, Copy, Debug, PartialEq, Eq, Structural)]
pub struct LayoutShares {
    pub waterfall: u32,
    pub right: u32,
    pub log: u32,
    pub band: u32,
    pub callsign: u32,
    pub contacts: u32,
}

/// The shares of `[layout]` as they were read.
#[derive(Clone, Copy, Debug, PartialEq, Eq, Structural)]
pub struct LayoutNumbers {
    pub waterfall: Option<u32>,
    pub right: Option<u32>,
    pub log: Option<u32>,
    pub band: Option<u32>,
    pub callsign: Option<u32>,
    pub contacts: Option<u32>,
}

/// A share that is finite and above zero.
pub open spec fn share(n: Option<u32>) -> Option<u32> {
    match n {
        Some(v) => if positive(v) {
            Some(v)
        } else {
            None
        },
        None => None,
    }
}

/// A share that is finite and above zero.
fn good_share(n: Option<u32>) -> (r: Option<u32>)
    ensures
        r == share(n),
{
    match n {
        Some(v) => if is_positive(v) {
            Some(v)
        } else {
            None
        },
        None => None,
    }
}

/// The share of the call sign pane: the one that was read where it is good, and the default
/// where the file says nothing of it.
pub open spec fn callsign_share(
    n: Option<u32>,
    written: Option<Seq<char>>,
    default: u32,
) -> Option<u32> {
    if n is None && written is None {
        Some(default)
    } else {
        share(n)
    }
}

/// The layout that the file asks for: every share must be there and good. The one of the
/// call sign pane alone may be missing: a file that was written before that pane was there
/// has none, and the default stands for it.
pub open spec fn layout_of(
    n: LayoutNumbers,
    config: Option<Seq<char>>,
    callsign_default: u32,
) -> Option<LayoutShares> {
    let callsign = callsign_share(
        n.callsign,
        file_value(config, "layout"@, "callsign"@),
        callsign_default,
    );
    if share(n.waterfall) is Some && share(n.right) is Some && share(n.log) is Some && share(
        n.band,
    ) is Some && callsign is Some && share(n.contacts) is Some {
        Some(
            LayoutShares {
                waterfall: n.waterfall->Some_0,
                right: n.right->Some_0,
                log: n.log->Some_0,
                band: n.band->Some_0,
                callsign: callsign->Some_0,
                contacts: n.contacts->Some_0,
            },
        )
    } else {
        None
    }
}

/// The layout that the file asks for; `None` unless every share is there and good. Only a
/// call sign share of which the file says nothing has a default. The numbers are what the
/// entries of `config` stand for, where they stand for any.
pub fn read_layout_shares(n: LayoutNumbers, config: Option<&str>, callsign_default: u32) -> (r:
    Option<LayoutShares>)
    ensures
        r == layout_of(n, view_of(config), callsign_default),
{
    let written: bool = read_value(config, "layout", "callsign").is_some();
    let callsign: Option<u32> = if n.callsign.is_none() && !written {
        Some(callsign_default)
    } else {
        good_share(n.callsign)
    };
    match (
        good_share(n.waterfall),
        good_share(n.right),
        good_share(n.log),
        good_share(n.band),
        callsign,
        good_share(n.contacts),
    ) {
        (
            Some(waterfall),
            Some(right),
            Some(log),
            Some(band),
            Some(callsign),
            Some(contacts),
        ) => Some(
            LayoutShares { waterfall, right, log, band, callsign, contacts },
        ),
        _ => None,
    }
}

/// A window as it is written: its numbers spelled with one decimal.
pub struct WindowText {
    pub width: String,
    pub height: String,
    pub pos: Option<(String, String)>,
    pub fullscreen: bool,
}

/// A layout as it is written: its shares spelled with one decimal.
pub struct LayoutText {
    pub waterfall: String,
    pub right: String,
    pub log: String,
    pub band: String,
    pub callsign: String,
    pub contacts: String,
}

/// The entries of `[window]`. The place is left alone when it is not known.
pub open spec fn window_pairs(w: WindowText) -> Seq<(Seq<char>, Seq<char>)> {
    let size = seq![
        ("width"@, crate::config_toml::short_decimal(w.width@)),
        ("height"@, crate::config_toml::short_decimal(w.height@)),
    ];
    let place = match w.pos {
        Some((x, y)) => seq![
            ("x"@, crate::config_toml::short_decimal(x@)),
            ("y"@, crate::config_toml::short_decimal(y@)),
        ],
        None => Seq::empty(),
    };
    size + place + seq![("fullscreen"@, crate::config_toml::flag_word(w.fullscreen))]
}

/// The entries of `[layout]`.
pub open spec fn layout_pairs(l: LayoutText) -> Seq<(Seq<char>, Seq<char>)> {
    seq![
        ("waterfall"@, crate::config_toml::short_decimal(l.waterfall@)),
        ("right"@, crate::config_toml::short_decimal(l.right@)),
        ("log"@, crate::config_toml::short_decimal(l.log@)),
        ("band"@, crate::config_toml::short_decimal(l.band@)),
        ("callsign"@, crate::config_toml::short_decimal(l.callsign@)),
        ("contacts"@, crate::config_toml::short_decimal(l.contacts@)),
    ]
}

/// The file with the window and the layout set.
pub open spec fn window_text(
    existing: Option<Seq<char>>,
    w: WindowText,
    l: LayoutText,
) -> Seq<char> {
    crate::config_toml::updated(
        crate::config_toml::updated(base_text(existing), "window"@, window_pairs(w)),
        "layout"@,
        layout_pairs(l),
    )
}

/// The file with the window and the layout set, all else kept. The flag is always
/// written, so that a window that was closed as a window opens as one.
pub fn save_window_layout(existing: Option<&str>, win: &WindowText, layout: &LayoutText) -> (r:
    String)
    ensures
        r@ == window_text(view_of(existing), *win, *layout),
{
    let width: String = crate::config_toml::trim_decimal(win.width.as_str());
    let height: String = crate::config_toml::trim_decimal(win.height.as_str());
    let (x, y): (String, String) = match &win.pos {
        Some((x, y)) => (
            crate::config_toml::trim_decimal(x.as_str()),
            crate::config_toml::trim_decimal(y.as_str()),
        ),
        None => (String::new(), String::new()),
    };
    let mut kvs: Vec<(&str, &str)> = Vec::new();
    kvs.push(("width", width.as_str()));
    kvs.push(("height", height.as_str()));
    if win.pos.is_some() {
        kvs.push(("x", x.as_str()));
        kvs.push(("y", y.as_str()));
    }
    kvs.push(("fullscreen", bool_str(win.fullscreen)));
    assert(crate::config_toml::pairs(kvs@) == window_pairs(*win));
    let text: String = update_toml_table(base_of(existing), "window", kvs.as_slice());

    let waterfall: String = crate::config_toml::trim_decimal(layout.waterfall.as_str());
    let right: String = crate::config_toml::trim_decimal(layout.right.as_str());
    let log: String = crate::config_toml::trim_decimal(layout.log.as_str());
    let band: String = crate::config_toml::trim_decimal(layout.band.as_str());
    let callsign: String = crate::config_toml::trim_decimal(layout.callsign.as_str());
    let contacts: String = crate::config_toml::trim_decimal(layout.contacts.as_str());
    let mut shares: Vec<(&str, &str)> = Vec::new();
    shares.push(("waterfall", waterfall.as_str()));
    shares.push(("right", right.as_str()));
    shares.push(("log", log.as_str()));
    shares.push(("band", band.as_str()));
    shares.push(("callsign", callsign.as_str()));
    shares.push(("contacts", contacts.as_str()));
    assert(crate::config_toml::pairs(shares@) == layout_pairs(*layout));
    update_toml_table(text.as_str(), "layout", shares.as_slice())
}

} // verus!
