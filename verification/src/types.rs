//! The vocabulary of the station: bands and modes, decoded messages, log entries,
//! selections and configuration.
//!
//! Audio offsets are fractions of a hertz. The library hands them on without computing
//! with them, so they are carried as the bit pattern of a 32-bit float.

use vstd::prelude::*;

verus! {

/// An amateur band.
#[derive(Clone, Copy, Debug, PartialEq, Eq, Structural)]
pub enum Band {
    B160m,
    B80m,
    B40m,
    B30m,
    B20m,
    B17m,
    B15m,
    B12m,
    B10m,
    B6m,
}

/// The bands that a station can be set up for, from the longest wave to the shortest.
pub fn hf_bands() -> (r: Vec<Band>)
    ensures
        r@ == seq![Band::B160m, Band::B80m, Band::B40m, Band::B20m, Band::B15m, Band::B10m],
{
    let mut r: Vec<Band> = Vec::new();
    r.push(Band::B160m);
    r.push(Band::B80m);
    r.push(Band::B40m);
    r.push(Band::B20m);
    r.push(Band::B15m);
    r.push(Band::B10m);
    assert(r@ == seq![Band::B160m, Band::B80m, Band::B40m, Band::B20m, Band::B15m, Band::B10m]);
    r
}

/// The edges of a band in hertz, both in it.
pub open spec fn band_edges(b: Band) -> (int, int) {
    match b {
        Band::B160m => (1_800_000, 2_000_000),
        Band::B80m => (3_500_000, 4_000_000),
        Band::B40m => (7_000_000, 7_300_000),
        Band::B30m => (10_100_000, 10_150_000),
        Band::B20m => (14_000_000, 14_350_000),
        Band::B17m => (18_068_000, 18_168_000),
        Band::B15m => (21_000_000, 21_450_000),
        Band::B12m => (24_890_000, 24_990_000),
        Band::B10m => (28_000_000, 29_700_000),
        Band::B6m => (50_000_000, 54_000_000),
    }
}

/// Whether a frequency lies in a band.
pub open spec fn in_band(hz: int, b: Band) -> bool {
    band_edges(b).0 <= hz <= band_edges(b).1
}

/// The band of a frequency.
pub open spec fn band_at(hz: int) -> Option<Band> {
    if in_band(hz, Band::B160m) {
        Some(Band::B160m)
    } else if in_band(hz, Band::B80m) {
        Some(Band::B80m)
    } else if in_band(hz, Band::B40m) {
        Some(Band::B40m)
    } else if in_band(hz, Band::B30m) {
        Some(Band::B30m)
    } else if in_band(hz, Band::B20m) {
        Some(Band::B20m)
    } else if in_band(hz, Band::B17m) {
        Some(Band::B17m)
    } else if in_band(hz, Band::B15m) {
        Some(Band::B15m)
    } else if in_band(hz, Band::B12m) {
        Some(Band::B12m)
    } else if in_band(hz, Band::B10m) {
        Some(Band::B10m)
    } else if in_band(hz, Band::B6m) {
        Some(Band::B6m)
    } else {
        None
    }
}

impl Band {
    /// The band that a dial frequency lies in; `None` outside the amateur bands.
    pub fn from_hz(hz: AbsHz) -> (r: Option<Band>)
        ensures
            r == band_at(hz.0 as int),
    {
        let f: u64 = hz.0;
        if 1_800_000 <= f && f <= 2_000_000 {
            Some(Band::B160m)
        } else if 3_500_000 <= f && f <= 4_000_000 {
            Some(Band::B80m)
        } else if 7_000_000 <= f && f <= 7_300_000 {
            Some(Band::B40m)
        } else if 10_100_000 <= f && f <= 10_150_000 {
            Some(Band::B30m)
        } else if 14_000_000 <= f && f <= 14_350_000 {
            Some(Band::B20m)
        } else if 18_068_000 <= f && f <= 18_168_000 {
            Some(Band::B17m)
        } else if 21_000_000 <= f && f <= 21_450_000 {
            Some(Band::B15m)
        } else if 24_890_000 <= f && f <= 24_990_000 {
            Some(Band::B12m)
        } else if 28_000_000 <= f && f <= 29_700_000 {
            Some(Band::B10m)
        } else if 50_000_000 <= f && f <= 54_000_000 {
            Some(Band::B6m)
        } else {
            None
        }
    }
}

/// A frequency lies in the band that is found for it and in no other.
pub proof fn law_one_band(hz: int, b: Band)
    ensures
        in_band(hz, b) <==> band_at(hz) == Some(b),
{
}

/// A mode on the air.
#[derive(Clone, Copy, Debug, PartialEq, Eq, Structural)]
pub enum OverAirMode {
    Ft8,
    Ft4,
    Psk31,
    Rtty,
}

/// A protocol that the decoder runs.
#[derive(Clone, Copy, Debug, PartialEq, Eq, Structural)]
pub enum Protocol {
    Ft8,
    Ft4,
}

/// The state of the serial lines.
#[derive(Clone, Copy, Debug, PartialEq, Eq, Structural)]
pub enum LineProfile {
    Default,
    AssertDtrRts,
    HardwareFlow,
}

impl LineProfile {
    /// The word for a profile in the configuration.
    pub open spec fn word(self) -> Seq<char> {
        match self {
            LineProfile::Default => "none"@,
            LineProfile::AssertDtrRts => "dtr-rts"@,
            LineProfile::HardwareFlow => "rtscts"@,
        }
    }

    /// The word for the profile in the configuration.
    pub fn label(&self) -> (s: &'static str)
        ensures
            s@ == self.word(),
    {
        match *self {
            LineProfile::Default => "none",
            LineProfile::AssertDtrRts => "dtr-rts",
            LineProfile::HardwareFlow => "rtscts",
        }
    }

    /// The profile that a word stands for.
    pub fn parse(s: &str) -> (r: Option<LineProfile>)
        ensures
            match r {
                Some(p) => s@ == p.word(),
                None => forall|p: LineProfile| s@ != #[trigger] p.word(),
            },
    {
        let v: Vec<char> = crate::text::chars_of(s);
        if crate::text::same(&v, &crate::text::chars_of("none")) {
            assert(s@ == LineProfile::Default.word());
            Some(LineProfile::Default)
        } else if crate::text::same(&v, &crate::text::chars_of("dtr-rts")) {
            assert(s@ == LineProfile::AssertDtrRts.word());
            Some(LineProfile::AssertDtrRts)
        } else if crate::text::same(&v, &crate::text::chars_of("rtscts")) {
            assert(s@ == LineProfile::HardwareFlow.word());
            Some(LineProfile::HardwareFlow)
        } else {
            None
        }
    }
}

/// No word stands for two profiles.
pub proof fn law_profile_words_differ(a: LineProfile, b: LineProfile)
    requires
        a.word() == b.word(),
    ensures
        a == b,
{
    reveal_strlit("none");
    reveal_strlit("dtr-rts");
    reveal_strlit("rtscts");
    assert("none"@.len() == 4 && "dtr-rts"@.len() == 7 && "rtscts"@.len() == 6);
}

/// The exchange that a contest asks for.
#[derive(Clone, Copy, Debug, PartialEq, Eq, Structural)]
pub enum ContestProfile {
    Standard,
    ArrlFieldDay,
}

/// How a contact is signed off.
#[derive(Clone, Copy, Debug, PartialEq, Eq, Structural)]
pub enum Signoff {
    Rrr,
    Rr73,
    Seven3,
}

/// What the band scanner does.
#[derive(Clone, Copy, Debug, PartialEq, Eq, Structural)]
pub enum ScanStatus {
    Idle,
    Scanning,
}

/// The phase of the contact engine.
#[derive(Clone, Copy, Debug, PartialEq, Eq, Structural)]
pub enum QsoPhase {
    Idle,
    CallingCq,
    Armed,
    InExchange,
    Complete,
}

/// Whether a spectrum column was received or is our own signal.
#[derive(Clone, Copy, Debug, PartialEq, Eq, Structural)]
pub enum SignalSource {
    Received,
    OwnTx,
}

/// A piece of hardware that reports its health.
#[derive(Clone, Copy, Debug, PartialEq, Eq, Structural)]
pub enum SubsystemId {
    Rig,
    Audio,
}

/// The number of a transmit slot.
#[derive(Clone, Copy, Debug, PartialEq, Eq, Structural)]
pub struct SlotId(pub u64);

/// A frequency on the air, in hertz.
#[derive(Clone, Copy, Debug, PartialEq, Eq, Structural)]
pub struct AbsHz(pub u64);

/// An audio offset in hertz, as the bit pattern of a 32-bit float.
#[derive(Clone, Copy, Debug, PartialEq, Eq, Structural)]
pub struct OffsetHz(pub u32);

/// A call sign.
#[derive(Debug)]
pub struct Callsign(pub String);

impl Clone for Callsign {
    fn clone(&self) -> (r: Self)
        ensures
            r == *self,
    {
        Callsign(self.0.clone())
    }
}

/// A Maidenhead locator.
#[derive(Debug)]
pub struct GridSquare(pub String);

impl Clone for GridSquare {
    fn clone(&self) -> (r: Self)
        ensures
            r == *self,
    {
        GridSquare(self.0.clone())
    }
}

/// An ARRL or RAC section.
#[derive(Debug)]
pub struct Section(pub String);

impl Clone for Section {
    fn clone(&self) -> (r: Self)
        ensures
            r == *self,
    {
        Section(self.0.clone())
    }
}

/// The word between CQ and the call.
#[derive(Debug)]
pub enum ContestTag {
    FieldDay,
    Test,
    Other(String),
}

impl Clone for ContestTag {
    fn clone(&self) -> (r: Self)
        ensures
            r == *self,
    {
        match self {
            ContestTag::FieldDay => ContestTag::FieldDay,
            ContestTag::Test => ContestTag::Test,
            ContestTag::Other(s) => ContestTag::Other(s.clone()),
        }
    }
}

/// What an exchange carries.
#[derive(Debug)]
pub enum ExchangePayload {
    Grid(GridSquare),
    Report(i8),
    RogerReport(i8),
    FieldDay { class: String, section: Section, rogered: bool },
}

impl Clone for ExchangePayload {
    fn clone(&self) -> (r: Self)
        ensures
            r == *self,
    {
        match self {
            ExchangePayload::Grid(g) => ExchangePayload::Grid(g.clone()),
            ExchangePayload::Report(n) => ExchangePayload::Report(*n),
            ExchangePayload::RogerReport(n) => ExchangePayload::RogerReport(*n),
            ExchangePayload::FieldDay { class, section, rogered } => ExchangePayload::FieldDay {
                class: class.clone(),
                section: section.clone(),
                rogered: *rogered,
            },
        }
    }
}

/// A message as the decoder understood it.
#[derive(Debug)]
pub enum ParsedMessage {
    Cq { caller: Callsign, contest: Option<ContestTag>, grid: Option<GridSquare> },
    Exchange { to: Callsign, from: Callsign, payload: ExchangePayload },
    Signoff { to: Callsign, from: Callsign, kind: Signoff },
    Free(String),
    Raw(String),
}

impl Clone for ParsedMessage {
    fn clone(&self) -> (r: Self)
        ensures
            r == *self,
    {
        match self {
            ParsedMessage::Cq { caller, contest, grid } => ParsedMessage::Cq {
                caller: caller.clone(),
                contest: match contest {
                    Some(c) => Some(c.clone()),
                    None => None,
                },
                grid: match grid {
                    Some(g) => Some(g.clone()),
                    None => None,
                },
            },
            ParsedMessage::Exchange { to, from, payload } => ParsedMessage::Exchange {
                to: to.clone(),
                from: from.clone(),
                payload: payload.clone(),
            },
            ParsedMessage::Signoff { to, from, kind } => ParsedMessage::Signoff {
                to: to.clone(),
                from: from.clone(),
                kind: *kind,
            },
            ParsedMessage::Free(s) => ParsedMessage::Free(s.clone()),
            ParsedMessage::Raw(s) => ParsedMessage::Raw(s.clone()),
        }
    }
}

/// What a decode holds.
#[derive(Debug)]
pub enum DecodeContent {
    /// A message of one slot: how it was understood, and the line as it was received.
    Slotted { slot: SlotId, message: ParsedMessage, raw: String },
    /// Running text.
    Streaming { text: String },
}

impl Clone for DecodeContent {
    fn clone(&self) -> (r: Self)
        ensures
            r == *self,
    {
        match self {
            DecodeContent::Slotted { slot, message, raw } => DecodeContent::Slotted {
                slot: *slot,
                message: message.clone(),
                raw: raw.clone(),
            },
            DecodeContent::Streaming { text } => DecodeContent::Streaming { text: text.clone() },
        }
    }
}

/// A decoded line.
#[derive(Debug)]
pub struct Decode {
    /// The start of its slot, in milliseconds since the epoch.
    pub t_ms: i64,
    /// Its strength in decibels, where it is known.
    pub snr_db: Option<i8>,
    /// Its audio offset.
    pub offset: OffsetHz,
    /// Its audio offset in whole hertz, 0 where it is negative.
    pub audio_hz: u32,
    pub content: DecodeContent,
}

impl Clone for Decode {
    fn clone(&self) -> (r: Self)
        ensures
            r == *self,
    {
        Decode {
            t_ms: self.t_ms,
            snr_db: self.snr_db,
            offset: self.offset,
            audio_hz: self.audio_hz,
            content: self.content.clone(),
        }
    }
}

/// A decode that an operator points at: its slot, and the call of its sender.
#[derive(Debug)]
pub struct DecodeRef {
    pub slot: SlotId,
    pub call: Option<Callsign>,
}

impl Clone for DecodeRef {
    fn clone(&self) -> (r: Self)
        ensures
            r == *self,
    {
        DecodeRef {
            slot: self.slot,
            call: match &self.call {
                Some(c) => Some(c.clone()),
                None => None,
            },
        }
    }
}

/// Where the selected station was: a lane of the passband, or a frequency on the air.
#[derive(Clone, Copy, Debug, PartialEq, Eq, Structural)]
pub enum SelectionContext {
    Passband(OffsetHz),
    AbsFreq(AbsHz),
}

/// What is selected: who, and where.
#[derive(Debug)]
pub struct Selection {
    pub target: Option<DecodeRef>,
    pub context: Option<SelectionContext>,
}

impl Clone for Selection {
    fn clone(&self) -> (r: Self)
        ensures
            r == *self,
    {
        Selection {
            target: match &self.target {
                Some(t) => Some(t.clone()),
                None => None,
            },
            context: self.context,
        }
    }
}

/// A contact in the log.
#[derive(Debug)]
pub struct LogEntry {
    /// The station that logged it.
    pub origin: String,
    /// When, in milliseconds since the epoch.
    pub time_ms: i64,
    pub call: Callsign,
    pub band: Band,
    pub grid: Option<GridSquare>,
    pub section: Option<Section>,
    pub exchange_sent: String,
    pub exchange_rcvd: String,
}

impl Clone for LogEntry {
    fn clone(&self) -> (r: Self)
        ensures
            r == *self,
    {
        LogEntry {
            origin: self.origin.clone(),
            time_ms: self.time_ms,
            call: self.call.clone(),
            band: self.band,
            grid: match &self.grid {
                Some(g) => Some(g.clone()),
                None => None,
            },
            section: match &self.section {
                Some(s) => Some(s.clone()),
                None => None,
            },
            exchange_sent: self.exchange_sent.clone(),
            exchange_rcvd: self.exchange_rcvd.clone(),
        }
    }
}

/// A station that was worked on a band.
#[derive(Debug)]
pub struct WorkedEntry {
    pub call: Callsign,
    pub band: Band,
}

impl Clone for WorkedEntry {
    fn clone(&self) -> (r: Self)
        ensures
            r == *self,
    {
        WorkedEntry { call: self.call.clone(), band: self.band }
    }
}

/// How many stations were heard in a mode of a band, how many of them call CQ, and how
/// many were not worked.
#[derive(Clone, Copy, Debug, PartialEq, Eq, Structural)]
pub struct BandActivity {
    pub band: Band,
    pub mode: OverAirMode,
    pub heard: u32,
    pub cq: u32,
    pub unworked: u32,
}

/// What outgoing messages are made from.
#[derive(Debug)]
pub struct StationConfig {
    pub call: Callsign,
    pub grid: GridSquare,
    pub fd_class: String,
    pub fd_section: Section,
    pub contest: ContestProfile,
}

impl Clone for StationConfig {
    fn clone(&self) -> (r: Self)
        ensures
            r == *self,
    {
        StationConfig {
            call: self.call.clone(),
            grid: self.grid.clone(),
            fd_class: self.fd_class.clone(),
            fd_section: self.fd_section.clone(),
            contest: self.contest,
        }
    }
}

/// How the rig is reached.
#[derive(Debug)]
pub struct SerialConfig {
    pub port: Option<String>,
    /// The identity of the radio's USB interface, which a new port path does not change.
    pub usb_serial: Option<String>,
    pub usb_vid: Option<u16>,
    pub usb_pid: Option<u16>,
    pub baud: u32,
    pub profile: LineProfile,
    pub autodetect: bool,
}

/// A copy of an optional text.
pub fn clone_text(o: &Option<String>) -> (r: Option<String>)
    ensures
        r == *o,
{
    match o {
        Some(s) => Some(s.clone()),
        None => None,
    }
}

impl Clone for SerialConfig {
    fn clone(&self) -> (r: Self)
        ensures
            r == *self,
    {
        SerialConfig {
            port: clone_text(&self.port),
            usb_serial: clone_text(&self.usb_serial),
            usb_vid: self.usb_vid,
            usb_pid: self.usb_pid,
            baud: self.baud,
            profile: self.profile,
            autodetect: self.autodetect,
        }
    }
}

/// The length of a transmit slot in milliseconds.
pub open spec fn slot_len(p: Protocol) -> int {
    match p {
        Protocol::Ft8 => 15_000,
        Protocol::Ft4 => 7_500,
    }
}

/// The length of a transmit slot in milliseconds.
pub fn slot_period_ms(p: Protocol) -> (r: i64)
    ensures
        r == slot_len(p),
{
    match p {
        Protocol::Ft8 => 15_000,
        Protocol::Ft4 => 7_500,
    }
}

} // verus!
