//! What the console knows of the station: the newest value of each state, a window on
//! each stream, and the stations that were heard.
//!
//! The console feeds in what arrives, and sends out what its commands return.

use vstd::prelude::*;

use crate::panel_data::Locator;
use crate::panels::waterfall::render::HealthState;
use crate::panels::waterfall::send_row::has_text;
use crate::ring::Ring;
use crate::settings::HardwareConfig;
use crate::text::{chars_of, same_ignoring_case, same_str, upper_string};
use crate::types::{
    AbsHz, Band, BandActivity, Callsign, Decode, DecodeContent, DecodeRef, ExchangePayload,
    LogEntry, OffsetHz, OverAirMode, ParsedMessage, Protocol, QsoPhase, ScanStatus, SerialConfig,
    SignalSource, SlotId, StationConfig, SubsystemId, WorkedEntry, clone_text,
};

verus! {

/// How many decodes are kept: more than the widest waterslide shows on the busiest band.
pub const DECODE_RING_CAP: usize = 8192;

/// How many received rows of the spectrum are kept for the search for a clear lane.
pub const SPECTRUM_HIST_CAP: usize = 512;

/// How many log entries are kept.
pub const LOG_RING_CAP: usize = 512;

/// How long a station that was heard stays on the map, in milliseconds.
pub const HEARD_MS: i64 = 3_600_000;

/// A station on the map.
#[derive(Debug)]
pub struct MapSpot {
    pub call: String,
    pub loc: Locator,
    /// When it was logged or last heard, in milliseconds since the epoch.
    pub last_ms: i64,
    pub worked: bool,
    /// The band it was worked or heard on, where that is known.
    pub band: Option<Band>,
    /// Whether it called CQ when it was last heard.
    pub cq: bool,
    /// The frequency at which it was last heard, where that is known.
    pub abs: Option<AbsHz>,
    /// The slot in which it was last heard.
    pub slot: Option<SlotId>,
}

impl Clone for MapSpot {
    fn clone(&self) -> (r: Self)
        ensures
            r == *self,
    {
        MapSpot {
            call: self.call.clone(),
            loc: self.loc.clone(),
            last_ms: self.last_ms,
            worked: self.worked,
            band: self.band,
            cq: self.cq,
            abs: self.abs,
            slot: self.slot,
        }
    }
}

/// The newest sighting of a station that gave its locator.
#[derive(Debug)]
pub struct HeardEntry {
    pub call: String,
    pub loc: Locator,
    pub last_ms: i64,
    pub band: Option<Band>,
    pub cq: bool,
    pub abs: Option<AbsHz>,
    pub slot: SlotId,
}

/// A row of the spectrum.
#[derive(Debug)]
pub struct SpectrumRow {
    pub mode: OverAirMode,
    pub t_ms: i64,
    pub bin0_offset: OffsetHz,
    /// The width of a bin, as the bit pattern of a 32-bit float.
    pub bin_hz: u32,
    pub mags: Vec<u8>,
    pub source: SignalSource,
}

/// Whether two rows are the same.
pub open spec fn same_row(a: SpectrumRow, b: SpectrumRow) -> bool {
    &&& a.mode == b.mode
    &&& a.t_ms == b.t_ms
    &&& a.bin0_offset == b.bin0_offset
    &&& a.bin_hz == b.bin_hz
    &&& a.mags@ == b.mags@
    &&& a.source == b.source
}

impl Clone for SpectrumRow {
    fn clone(&self) -> (r: Self)
        ensures
            same_row(r, *self),
    {
        let mags: Vec<u8> = self.mags.clone();
        assert(mags@ == self.mags@);
        SpectrumRow {
            mode: self.mode,
            t_ms: self.t_ms,
            bin0_offset: self.bin0_offset,
            bin_hz: self.bin_hz,
            mags,
            source: self.source,
        }
    }
}

/// What the band scanner does.
#[derive(Clone, Copy, Debug)]
pub struct ScannerState {
    pub status: ScanStatus,
    pub current: Option<Band>,
    pub current_mode: Option<OverAirMode>,
    /// When the last survey ended, in milliseconds since the epoch.
    pub last_scan: Option<i64>,
}

/// What the contact engine does.
#[derive(Debug)]
pub struct QsoState {
    pub phase: QsoPhase,
    pub partner: Option<Callsign>,
    pub next_tx: Option<String>,
}

impl Clone for QsoState {
    fn clone(&self) -> (r: Self)
        ensures
            r == *self,
    {
        QsoState {
            phase: self.phase,
            partner: match &self.partner {
                Some(c) => Some(c.clone()),
                None => None,
            },
            next_tx: clone_text(&self.next_tx),
        }
    }
}

/// A command to the contact engine.
#[derive(Debug)]
pub enum QsoCommand {
    CallCq,
    /// Answer the target when it next calls CQ.
    Start { target: DecodeRef },
    /// Take the contact up at once, from a message of the target.
    Resume { target: DecodeRef, message: ParsedMessage, snr: i8, offset: OffsetHz },
    Abort,
}

/// A command to the band scanner.
#[derive(Debug)]
pub enum ScannerCommand {
    StartSurvey { stops: Vec<(Band, OverAirMode)>, dwell_slots: u8 },
    Cancel,
    SetStops { stops: Vec<(Band, OverAirMode)> },
}

/// What goes out to the rest of the station.
#[derive(Debug)]
pub enum Outgoing {
    /// The lane and the station that are selected.
    Selection { outgoing: OffsetHz, target: Option<DecodeRef> },
    Qso(QsoCommand),
    Scanner(ScannerCommand),
    /// Reach the rig another way.
    Rig(SerialConfig),
    /// Capture from another device, or in another protocol.
    Capture { input: Option<String>, protocol: Protocol },
    /// Play transmissions on another device.
    TxOutput(Option<String>),
    /// Keep the hardware settings.
    SaveHardware(HardwareConfig),
    /// Tune the rig's dial.
    SetFreq(AbsHz),
    /// Take the transmitter off the air.
    Unkey,
    /// The identity that messages are made from.
    Station(StationConfig),
    /// Whether the engine moves to a clear lane when nobody answers its CQs.
    AutoHop(bool),
    /// The lane that it would move to.
    CqHop(OffsetHz),
}

/// Which parts of the station can be set up anew while they run.
#[derive(Clone, Copy, Debug, PartialEq, Eq, Structural)]
pub struct Control {
    pub rig: bool,
    pub audio: bool,
    pub tx: bool,
}

/// The order of the bands, lowest frequency first.
pub open spec fn order_of(b: Band) -> int {
    match b {
        Band::B160m => 0,
        Band::B80m => 1,
        Band::B40m => 2,
        Band::B30m => 3,
        Band::B20m => 4,
        Band::B17m => 5,
        Band::B15m => 6,
        Band::B12m => 7,
        Band::B10m => 8,
        Band::B6m => 9,
    }
}

/// The order of the bands, lowest frequency first.
pub fn band_order(b: Band) -> (r: u8)
    ensures
        r == order_of(b),
{
    match b {
        Band::B160m => 0,
        Band::B80m => 1,
        Band::B40m => 2,
        Band::B30m => 3,
        Band::B20m => 4,
        Band::B17m => 5,
        Band::B15m => 6,
        Band::B12m => 7,
        Band::B10m => 8,
        Band::B6m => 9,
    }
}

/// The order of the bands is that of their frequencies.
pub proof fn law_band_order(a: Band, b: Band)
    ensures
        order_of(a) < order_of(b) <==> crate::types::band_edges(a).1 < crate::types::band_edges(
            b,
        ).0,
{
}

/// The first `n` rows of which the band has order `k`.
pub open spec fn rows_of(v: Seq<BandActivity>, n: int, k: int) -> Seq<BandActivity>
    decreases n,
{
    if n <= 0 {
        Seq::empty()
    } else if order_of(v[n - 1].band) == k {
        rows_of(v, n - 1, k).push(v[n - 1])
    } else {
        rows_of(v, n - 1, k)
    }
}

/// The rows of the lowest `k` bands, lowest first. Rows of one band stay in their order.
pub open spec fn by_band(v: Seq<BandActivity>, k: int) -> Seq<BandActivity>
    decreases k,
{
    if k <= 0 {
        Seq::empty()
    } else {
        by_band(v, k - 1) + rows_of(v, v.len() as int, k - 1)
    }
}

/// Who a decode places on the map, where, and whether it calls CQ: a CQ or an exchange
/// with a grid, or an exchange with a section.
pub open spec fn located(d: Decode) -> Option<(String, Locator, bool)> {
    match d.content {
        DecodeContent::Slotted { slot, message, raw } => match message {
            ParsedMessage::Cq { caller, contest, grid } => match grid {
                Some(g) => Some((caller.0, Locator::Grid(g.0), true)),
                None => None,
            },
            ParsedMessage::Exchange { to, from, payload } => match payload {
                ExchangePayload::Grid(g) => Some((from.0, Locator::Grid(g.0), false)),
                ExchangePayload::FieldDay { class, section, rogered } => Some(
                    (from.0, Locator::Section(section.0), false),
                ),
                _ => None,
            },
            _ => None,
        },
        DecodeContent::Streaming { text } => None,
    }
}

/// Who a decode places on the map, where, and whether it calls CQ.
pub fn station_locator(d: &Decode) -> (r: Option<(String, Locator, bool)>)
    ensures
        r == located(*d),
{
    match &d.content {
        DecodeContent::Slotted { slot: _, message, raw: _ } => match message {
            ParsedMessage::Cq { caller, contest: _, grid } => match grid {
                Some(g) => Some((caller.0.clone(), Locator::Grid(g.0.clone()), true)),
                None => None,
            },
            ParsedMessage::Exchange { to: _, from, payload } => match payload {
                ExchangePayload::Grid(g) => Some(
                    (from.0.clone(), Locator::Grid(g.0.clone()), false),
                ),
                ExchangePayload::FieldDay { class: _, section, rogered: _ } => Some(
                    (from.0.clone(), Locator::Section(section.0.clone()), false),
                ),
                _ => None,
            },
            _ => None,
        },
        DecodeContent::Streaming { text: _ } => None,
    }
}

/// The place of a call among the stations that were heard, their number where it is not
/// among them.
pub open spec fn heard_at(h: Seq<HeardEntry>, call: Seq<char>) -> int
    decreases h.len(),
{
    if h.len() == 0 {
        0
    } else if h[0].call@ == call {
        0
    } else {
        1 + heard_at(h.skip(1), call)
    }
}

/// A sighting: the band and the frequency follow from where the dial stands.
pub open spec fn sighting(d: Decode, vfo: Option<u64>) -> Option<HeardEntry> {
    match (located(d), d.content) {
        (Some((call, loc, cq)), DecodeContent::Slotted { slot, message, raw }) => Some(
            HeardEntry {
                call,
                loc,
                last_ms: d.t_ms,
                band: match vfo {
                    Some(v) => crate::types::band_at(v as int),
                    None => None,
                },
                cq,
                abs: match vfo {
                    Some(v) => Some(AbsHz((v + d.audio_hz) as u64)),
                    None => None,
                },
                slot,
            },
        ),
        _ => None,
    }
}

/// The stations that were heard, with one more decode. The newest sighting of each call
/// is kept, the later one of two at the same time.
pub open spec fn heard_with(h: Seq<HeardEntry>, d: Decode, vfo: Option<u64>) -> Seq<HeardEntry> {
    match sighting(d, vfo) {
        Some(e) => {
            let i = heard_at(h, e.call@);
            if i == h.len() {
                h.push(e)
            } else if e.last_ms >= h[i].last_ms {
                h.update(i, e)
            } else {
                h
            }
        },
        None => h,
    }
}

/// No call is there twice.
pub open spec fn one_each(h: Seq<HeardEntry>) -> bool {
    forall|i: int, j: int| #![trigger h[i], h[j]]
        0 <= i < j < h.len() ==> h[i].call@ != h[j].call@
}

/// What the map shows of a sighting.
pub open spec fn heard_spot(e: HeardEntry) -> MapSpot {
    MapSpot {
        call: e.call,
        loc: e.loc,
        last_ms: e.last_ms,
        worked: false,
        band: e.band,
        cq: e.cq,
        abs: e.abs,
        slot: Some(e.slot),
    }
}

/// What the map shows of the first `n` stations that were heard: those of the last hour.
pub open spec fn fresh_spots(h: Seq<HeardEntry>, n: int, now: int) -> Seq<MapSpot>
    decreases n,
{
    if n <= 0 {
        Seq::empty()
    } else if h[n - 1].last_ms >= now - HEARD_MS {
        fresh_spots(h, n - 1, now).push(heard_spot(h[n - 1]))
    } else {
        fresh_spots(h, n - 1, now)
    }
}

/// Where a log entry places its station: the grid, or else the section.
pub open spec fn entry_locator(e: LogEntry) -> Option<Locator> {
    match (e.grid, e.section) {
        (Some(g), _) => Some(Locator::Grid(g.0)),
        (None, Some(s)) => Some(Locator::Section(s.0)),
        _ => None,
    }
}

/// Whether a log entry is the contact of a worked station.
pub open spec fn entry_is_of(e: LogEntry, w: WorkedEntry) -> bool {
    e.band == w.band && crate::text::same_letters(e.call.0@, w.call.0@)
}

/// What the map shows of a worked station: the newest of the first `n` log entries of it
/// that has a locator.
pub open spec fn worked_spot(logs: Seq<LogEntry>, n: int, w: WorkedEntry) -> Option<MapSpot>
    decreases n,
{
    if n <= 0 {
        None
    } else {
        let e = logs[n - 1];
        match entry_locator(e) {
            Some(loc) => if entry_is_of(e, w) {
                Some(
                    MapSpot {
                        call: e.call.0,
                        loc,
                        last_ms: e.time_ms,
                        worked: true,
                        band: Some(e.band),
                        cq: false,
                        abs: None,
                        slot: None,
                    },
                )
            } else {
                worked_spot(logs, n - 1, w)
            },
            None => worked_spot(logs, n - 1, w),
        }
    }
}

/// What the map shows of the first `n` worked stations.
pub open spec fn spots_of(ws: Seq<WorkedEntry>, n: int, logs: Seq<LogEntry>) -> Seq<MapSpot>
    decreases n,
{
    if n <= 0 {
        Seq::empty()
    } else {
        match worked_spot(logs, logs.len() as int, ws[n - 1]) {
            Some(s) => spots_of(ws, n - 1, logs).push(s),
            None => spots_of(ws, n - 1, logs),
        }
    }
}

/// The calls of the first `n` worked stations that were worked on a band, in upper case,
/// each once.
pub open spec fn calls_on(ws: Seq<WorkedEntry>, n: int, band: Band) -> Seq<Seq<char>>
    decreases n,
{
    if n <= 0 {
        Seq::empty()
    } else {
        let r = calls_on(ws, n - 1, band);
        let c = crate::text::ascii_upper(ws[n - 1].call.0@);
        if ws[n - 1].band == band && !r.contains(c) {
            r.push(c)
        } else {
            r
        }
    }
}

/// What the console knows of the station.
pub struct BusView {
    /// The dial of the rig, once it has reported.
    pub vfo: Option<u64>,
    /// The newest received row of the spectrum.
    pub rx_row: Option<SpectrumRow>,
    /// The newest row of the station's own transmissions.
    pub tx_row: Option<SpectrumRow>,
    pub spectrum_hist: Ring<SpectrumRow>,
    pub scan: Option<ScannerState>,
    pub slot: Option<SlotId>,
    pub worked_set: Vec<WorkedEntry>,
    pub bands: Vec<BandActivity>,
    pub logs: Ring<LogEntry>,
    pub decodes: Ring<Decode>,
    pub heard: Vec<HeardEntry>,
    pub qso: Option<QsoState>,
    pub rig_health: Option<HealthState>,
    pub audio_health: Option<HealthState>,
    pub control: Control,
    /// The hardware settings in force.
    pub applied: HardwareConfig,
}

impl BusView {
    /// The windows have their sizes, and no call is among the heard ones twice.
    pub open spec fn wf(&self) -> bool {
        &&& self.spectrum_hist.wf()
        &&& self.spectrum_hist.capacity() == SPECTRUM_HIST_CAP
        &&& self.logs.wf()
        &&& self.logs.capacity() == LOG_RING_CAP
        &&& self.decodes.wf()
        &&& self.decodes.capacity() == DECODE_RING_CAP
        &&& one_each(self.heard@)
    }

    /// Knows nothing yet but the hardware settings.
    pub fn new(applied: HardwareConfig, control: Control) -> (r: Self)
        ensures
            r.wf(),
            r.vfo is None && r.rx_row is None && r.tx_row is None && r.scan is None && r.slot is None
                && r.qso is None && r.rig_health is None && r.audio_health is None,
            r.spectrum_hist@.len() == 0,
            r.logs@.len() == 0,
            r.decodes@.len() == 0,
            r.heard@.len() == 0,
            r.worked_set@.len() == 0,
            r.bands@.len() == 0,
            r.applied == applied,
            r.control == control,
    {
        BusView {
            vfo: None,
            rx_row: None,
            tx_row: None,
            spectrum_hist: Ring::new(SPECTRUM_HIST_CAP),
            scan: None,
            slot: None,
            worked_set: Vec::new(),
            bands: Vec::new(),
            logs: Ring::new(LOG_RING_CAP),
            decodes: Ring::new(DECODE_RING_CAP),
            heard: Vec::new(),
            qso: None,
            rig_health: None,
            audio_health: None,
            control,
            applied,
        }
    }

    /// The rig reports its dial.
    pub fn on_rig(&mut self, vfo: u64)
        ensures
            *final(self) == (BusView { vfo: Some(vfo), ..*old(self) }),
    {
        self.vfo = Some(vfo);
    }

    /// The scanner reports.
    pub fn on_scanner(&mut self, state: ScannerState)
        ensures
            *final(self) == (BusView { scan: Some(state), ..*old(self) }),
    {
        self.scan = Some(state);
    }

    /// The clock reports its slot.
    pub fn on_clock(&mut self, slot: SlotId)
        ensures
            *final(self) == (BusView { slot: Some(slot), ..*old(self) }),
    {
        self.slot = Some(slot);
    }

    /// The stations that were worked.
    pub fn on_worked(&mut self, entries: Vec<WorkedEntry>)
        ensures
            *final(self) == (BusView { worked_set: entries, ..*old(self) }),
    {
        self.worked_set = entries;
    }

    /// The activity of the bands, all of it at once.
    pub fn on_bands(&mut self, rows: Vec<BandActivity>)
        ensures
            *final(self) == (BusView { bands: rows, ..*old(self) }),
    {
        self.bands = rows;
    }

    /// The contact engine reports.
    pub fn on_qso(&mut self, state: QsoState)
        ensures
            *final(self) == (BusView { qso: Some(state), ..*old(self) }),
    {
        self.qso = Some(state);
    }

    /// A piece of hardware reports its health.
    pub fn on_health(&mut self, id: SubsystemId, state: HealthState)
        ensures
            *final(self) == (match id {
                SubsystemId::Rig => BusView { rig_health: Some(state), ..*old(self) },
                SubsystemId::Audio => BusView { audio_health: Some(state), ..*old(self) },
            }),
    {
        match id {
            SubsystemId::Rig => {
                self.rig_health = Some(state);
            },
            SubsystemId::Audio => {
                self.audio_health = Some(state);
            },
        }
    }

    /// A contact was logged.
    pub fn on_log(&mut self, entry: LogEntry)
        requires
            old(self).wf(),
        ensures
            final(self).wf(),
            *final(self) == (BusView { logs: final(self).logs, ..*old(self) }),
            final(self).logs@ == crate::ring::pushed(old(self).logs@, LOG_RING_CAP as int, entry),
    {
        self.logs.push(entry);
    }

    /// A row of the spectrum. A received one also joins the window that the search for a
    /// clear lane reads; one of the station's own does not.
    pub fn on_spectrum(&mut self, row: SpectrumRow)
        requires
            old(self).wf(),
        ensures
            final(self).wf(),
            match row.source {
                SignalSource::Received => {
                    let hist = final(self).spectrum_hist@;
                    &&& *final(self) == (BusView {
                        rx_row: Some(row),
                        spectrum_hist: final(self).spectrum_hist,
                        ..*old(self)
                    })
                    &&& hist.len() > 0
                    &&& same_row(hist.last(), row)
                    &&& hist == crate::ring::pushed(
                        old(self).spectrum_hist@,
                        SPECTRUM_HIST_CAP as int,
                        hist.last(),
                    )
                },
                SignalSource::OwnTx => *final(self) == (BusView {
                    tx_row: Some(row),
                    ..*old(self)
                }),
            },
    {
        match row.source {
            SignalSource::Received => {
                let copy: SpectrumRow = row.clone();
                self.spectrum_hist.push(copy);
                assert(self.spectrum_hist@.last() == copy);
                self.rx_row = Some(row);
            },
            SignalSource::OwnTx => {
                self.tx_row = Some(row);
            },
        }
    }

    /// A decode. It joins the window of decodes, and its sender the stations that were
    /// heard, where it gives a locator.
    pub fn on_decode(&mut self, d: Decode)
        requires
            old(self).wf(),
            old(self).vfo matches Some(v) ==> v + d.audio_hz <= u64::MAX,
        ensures
            final(self).wf(),
            *final(self) == (BusView {
                decodes: final(self).decodes,
                heard: final(self).heard,
                ..*old(self)
            }),
            final(self).decodes@ == crate::ring::pushed(
                old(self).decodes@,
                DECODE_RING_CAP as int,
                d,
            ),
            final(self).heard@ == heard_with(old(self).heard@, d, old(self).vfo),
    {
        proof {
            lemma_one_each(old(self).heard@, d, old(self).vfo);
        }
        let slot: SlotId = match &d.content {
            DecodeContent::Slotted { slot, message: _, raw: _ } => *slot,
            DecodeContent::Streaming { text: _ } => SlotId(0),
        };
        match station_locator(&d) {
            Some((call, loc, cq)) => {
                let band: Option<Band> = match self.vfo {
                    Some(v) => Band::from_hz(AbsHz(v)),
                    None => None,
                };
                let abs: Option<AbsHz> = match self.vfo {
                    Some(v) => Some(AbsHz(v + d.audio_hz as u64)),
                    None => None,
                };
                let i: usize = find_heard(&self.heard, call.as_str());
                let e: HeardEntry = HeardEntry {
                    call,
                    loc,
                    last_ms: d.t_ms,
                    band,
                    cq,
                    abs,
                    slot,
                };
                assert(sighting(d, self.vfo) == Some(e));
                if i == self.heard.len() {
                    self.heard.push(e);
                } else if d.t_ms >= self.heard[i].last_ms {
                    self.heard.set(i, e);
                }
            },
            None => {},
        }
        self.decodes.push(d);
    }

    /// The dial of the rig, once it has reported.
    pub fn rig_state(&self) -> (r: Option<u64>)
        ensures
            r == self.vfo,
    {
        self.vfo
    }

    /// The received rows of the spectrum, oldest first.
    pub fn recent_spectrum(&self) -> (r: Vec<SpectrumRow>)
        ensures
            r@.len() == self.spectrum_hist@.len(),
            forall|i: int|
                0 <= i < r@.len() ==> same_row(#[trigger] r@[i], self.spectrum_hist@[i]),
    {
        let n: usize = self.spectrum_hist.len();
        let mut r: Vec<SpectrumRow> = Vec::new();
        let mut i: usize = 0;
        while i < n
            invariant
                i <= n,
                n == self.spectrum_hist@.len(),
                r@.len() == i,
                forall|j: int|
                    0 <= j < i ==> same_row(#[trigger] r@[j], self.spectrum_hist@[j]),
            decreases n - i,
        {
            r.push(self.spectrum_hist.get(i).clone());
            i = i + 1;
        }
        r
    }

    /// What the scanner does, once it has reported.
    pub fn scanner(&self) -> (r: Option<ScannerState>)
        ensures
            r == self.scan,
    {
        self.scan
    }

    /// The slot that the clock is in, once it has reported.
    pub fn clock(&self) -> (r: Option<SlotId>)
        ensures
            r == self.slot,
    {
        self.slot
    }

    /// The activity of the bands, lowest band first.
    pub fn band_activity(&self) -> (r: Vec<BandActivity>)
        ensures
            r@ == by_band(self.bands@, 10),
    {
        let mut r: Vec<BandActivity> = Vec::new();
        let mut k: u8 = 0;
        while k < 10
            invariant
                k <= 10,
                r@ == by_band(self.bands@, k as int),
            decreases 10 - k,
        {
            let ghost before = r@;
            let mut i: usize = 0;
            while i < self.bands.len()
                invariant
                    i <= self.bands@.len(),
                    r@ == before + rows_of(self.bands@, i as int, k as int),
                decreases self.bands@.len() - i,
            {
                let row: BandActivity = self.bands[i];
                if band_order(row.band) == k {
                    r.push(row);
                }
                i = i + 1;
            }
            k = k + 1;
        }
        r
    }

    /// The newest `n` log entries, newest first.
    pub fn recent_logs(&self, n: usize) -> (r: Vec<LogEntry>)
        ensures
            r@.len() == if n <= self.logs@.len() {
                n as int
            } else {
                self.logs@.len() as int
            },
            forall|i: int|
                0 <= i < r@.len() ==> #[trigger] r@[i] == self.logs@[self.logs@.len() - 1 - i],
    {
        let len: usize = self.logs.len();
        let m: usize = if n <= len {
            n
        } else {
            len
        };
        let mut r: Vec<LogEntry> = Vec::new();
        let mut i: usize = 0;
        while i < m
            invariant
                i <= m <= len,
                len == self.logs@.len(),
                r@.len() == i,
                forall|j: int| 0 <= j < i ==> #[trigger] r@[j] == self.logs@[len - 1 - j],
            decreases m - i,
        {
            r.push(self.logs.get(len - 1 - i).clone());
            i = i + 1;
        }
        r
    }

    /// How many log entries are held.
    pub fn log_count(&self) -> (n: usize)
        ensures
            n == self.logs@.len(),
    {
        self.logs.len()
    }

    /// The stations that were worked, none where nothing has arrived.
    pub fn worked(&self) -> (r: &Vec<WorkedEntry>)
        ensures
            *r == self.worked_set,
    {
        &self.worked_set
    }

    /// The worked stations that have a place on the map, one for each call and band.
    pub fn worked_spots(&self) -> (r: Vec<MapSpot>)
        ensures
            r@ == spots_of(self.worked_set@, self.worked_set@.len() as int, self.logs@),
    {
        let mut r: Vec<MapSpot> = Vec::new();
        let mut i: usize = 0;
        while i < self.worked_set.len()
            invariant
                i <= self.worked_set@.len(),
                r@ == spots_of(self.worked_set@, i as int, self.logs@),
            decreases self.worked_set@.len() - i,
        {
            match find_worked(&self.logs, &self.worked_set[i]) {
                Some(s) => {
                    r.push(s);
                },
                None => {},
            }
            i = i + 1;
        }
        r
    }

    /// The calls that were worked on a band, in upper case. A call that was worked on
    /// another band only is not among them.
    pub fn worked_calls_on_band(&self, band: Band) -> (r: Vec<String>)
        ensures
            crate::panels::waterfall::send_row::texts(r@) == calls_on(
                self.worked_set@,
                self.worked_set@.len() as int,
                band,
            ),
    {
        let mut r: Vec<String> = Vec::new();
        let mut i: usize = 0;
        while i < self.worked_set.len()
            invariant
                i <= self.worked_set@.len(),
                crate::panels::waterfall::send_row::texts(r@) == calls_on(
                    self.worked_set@,
                    i as int,
                    band,
                ),
            decreases self.worked_set@.len() - i,
        {
            let ghost before = r@;
            if self.worked_set[i].band == band {
                let call: String = upper_string(self.worked_set[i].call.0.as_str());
                if !has_text(&r, &chars_of(call.as_str())) {
                    r.push(call);
                    assert(crate::panels::waterfall::send_row::texts(r@)
                        == crate::panels::waterfall::send_row::texts(before).push(call@));
                }
            }
            i = i + 1;
        }
        r
    }

    /// The stations that were heard with a locator in the last hour.
    pub fn heard_spots(&self, now_ms: i64) -> (r: Vec<MapSpot>)
        requires
            now_ms - HEARD_MS >= i64::MIN,
        ensures
            r@ == fresh_spots(self.heard@, self.heard@.len() as int, now_ms as int),
    {
        let cutoff: i64 = now_ms - HEARD_MS;
        let mut r: Vec<MapSpot> = Vec::new();
        let mut i: usize = 0;
        while i < self.heard.len()
            invariant
                i <= self.heard@.len(),
                cutoff == now_ms - HEARD_MS,
                r@ == fresh_spots(self.heard@, i as int, now_ms as int),
            decreases self.heard@.len() - i,
        {
            let e: &HeardEntry = &self.heard[i];
            if e.last_ms >= cutoff {
                r.push(
                    MapSpot {
                        call: e.call.clone(),
                        loc: e.loc.clone(),
                        last_ms: e.last_ms,
                        worked: false,
                        band: e.band,
                        cq: e.cq,
                        abs: e.abs,
                        slot: Some(e.slot),
                    },
                );
            }
            i = i + 1;
        }
        r
    }

    /// The hardware settings in force.
    pub fn current_config(&self) -> (r: HardwareConfig)
        ensures
            r == self.applied,
    {
        self.applied.clone()
    }

    /// Puts hardware settings in force: what runs is set up anew with them.
    pub fn apply_config(&mut self, cfg: HardwareConfig) -> (r: Vec<Outgoing>)
        ensures
            *final(self) == (BusView { applied: cfg, ..*old(self) }),
            r@ == applied_changes(cfg, old(self).control),
    {
        let mut r: Vec<Outgoing> = Vec::new();
        if self.control.rig {
            r.push(Outgoing::Rig(cfg.serial.clone()));
        }
        if self.control.audio {
            r.push(
                Outgoing::Capture {
                    input: clone_text(&cfg.audio_input),
                    protocol: cfg.protocol,
                },
            );
        }
        if self.control.tx {
            r.push(Outgoing::TxOutput(clone_text(&cfg.audio_output)));
        }
        assert(r@ == applied_changes(cfg, self.control));
        self.applied = cfg;
        r
    }

    /// Changes the protocol, and keeps it. Nothing but the capture is set up anew.
    pub fn set_protocol(&mut self, protocol: Protocol) -> (r: Vec<Outgoing>)
        ensures
            *final(self) == (BusView {
                applied: HardwareConfig { protocol, ..old(self).applied },
                ..*old(self)
            }),
            r@ == protocol_changes(old(self).applied, protocol, old(self).control),
    {
        let mut r: Vec<Outgoing> = Vec::new();
        if self.applied.protocol == protocol {
            assert(r@ == protocol_changes(old(self).applied, protocol, old(self).control));
            return r;
        }
        self.applied.protocol = protocol;
        if self.control.audio {
            r.push(
                Outgoing::Capture { input: clone_text(&self.applied.audio_input), protocol },
            );
        }
        r.push(Outgoing::SaveHardware(self.applied.clone()));
        assert(r@ == protocol_changes(old(self).applied, protocol, old(self).control));
        r
    }

    /// Whether the audio is captured live, so that its settings can be changed.
    pub fn has_live_audio(&self) -> (r: bool)
        ensures
            r == self.control.audio,
    {
        self.control.audio
    }

    /// The health of a piece of hardware, once it has reported.
    pub fn health(&self, id: SubsystemId) -> (r: Option<HealthState>)
        ensures
            r == match id {
                SubsystemId::Rig => self.rig_health,
                SubsystemId::Audio => self.audio_health,
            },
    {
        match id {
            SubsystemId::Rig => self.rig_health,
            SubsystemId::Audio => self.audio_health,
        }
    }

    /// All decodes that are held, newest first.
    pub fn recent_decodes(&self) -> (r: Vec<Decode>)
        ensures
            r@ == self.decodes@.reverse(),
    {
        let n: usize = self.decodes.len();
        let mut r: Vec<Decode> = Vec::new();
        let mut i: usize = 0;
        while i < n
            invariant
                i <= n,
                n == self.decodes@.len(),
                r@.len() == i,
                forall|j: int| 0 <= j < i ==> #[trigger] r@[j] == self.decodes@[n - 1 - j],
            decreases n - i,
        {
            r.push(self.decodes.get(n - 1 - i).clone());
            i = i + 1;
        }
        r
    }

    /// What the contact engine does, once it has reported.
    pub fn qso_state(&self) -> (r: Option<QsoState>)
        ensures
            r == self.qso,
    {
        match &self.qso {
            Some(q) => Some(q.clone()),
            None => None,
        }
    }
}

/// What is set up anew when hardware settings come into force.
pub open spec fn applied_changes(cfg: HardwareConfig, c: Control) -> Seq<Outgoing> {
    let rig = if c.rig {
        seq![Outgoing::Rig(cfg.serial)]
    } else {
        Seq::empty()
    };
    let audio = if c.audio {
        seq![Outgoing::Capture { input: cfg.audio_input, protocol: cfg.protocol }]
    } else {
        Seq::empty()
    };
    let tx = if c.tx {
        seq![Outgoing::TxOutput(cfg.audio_output)]
    } else {
        Seq::empty()
    };
    rig + audio + tx
}

/// What a change of the protocol sets up anew, and that it is kept. Nothing where it is
/// no change.
pub open spec fn protocol_changes(cfg: HardwareConfig, p: Protocol, c: Control) -> Seq<Outgoing> {
    let save = seq![Outgoing::SaveHardware(HardwareConfig { protocol: p, ..cfg })];
    if cfg.protocol == p {
        Seq::empty()
    } else if c.audio {
        seq![Outgoing::Capture { input: cfg.audio_input, protocol: p }] + save
    } else {
        save
    }
}

/// The place of a call among the stations that were heard.
fn find_heard(h: &Vec<HeardEntry>, call: &str) -> (i: usize)
    ensures
        i == heard_at(h@, call@),
        i <= h@.len(),
{
    let mut i: usize = 0;
    assert(h@.skip(0) == h@);
    while i < h.len()
        invariant
            i <= h@.len(),
            heard_at(h@, call@) == i + heard_at(h@.skip(i as int), call@),
        decreases h@.len() - i,
    {
        assert(h@.skip(i as int)[0] == h@[i as int]);
        if same_str(h[i].call.as_str(), call) {
            return i;
        }
        assert(h@.skip(i as int).skip(1) == h@.skip(i + 1));
        i = i + 1;
    }
    i
}

/// What the map shows of a worked station.
fn find_worked(logs: &Ring<LogEntry>, w: &WorkedEntry) -> (r: Option<MapSpot>)
    ensures
        r == worked_spot(logs@, logs@.len() as int, *w),
{
    let mut n: usize = logs.len();
    while n > 0
        invariant
            n <= logs@.len(),
            worked_spot(logs@, logs@.len() as int, *w) == worked_spot(logs@, n as int, *w),
        decreases n,
    {
        let e: &LogEntry = logs.get(n - 1);
        if e.band == w.band && same_ignoring_case(e.call.0.as_str(), w.call.0.as_str()) {
            let loc: Option<Locator> = match &e.grid {
                Some(g) => Some(Locator::Grid(g.0.clone())),
                None => match &e.section {
                    Some(s) => Some(Locator::Section(s.0.clone())),
                    None => None,
                },
            };
            match loc {
                Some(loc) => {
                    return Some(
                        MapSpot {
                            call: e.call.0.clone(),
                            loc,
                            last_ms: e.time_ms,
                            worked: true,
                            band: Some(e.band),
                            cq: false,
                            abs: None,
                            slot: None,
                        },
                    );
                },
                None => {},
            }
        }
        n = n - 1;
    }
    None
}

pub(crate) proof fn lemma_heard_at(h: Seq<HeardEntry>, call: Seq<char>)
    ensures
        0 <= heard_at(h, call) <= h.len(),
        heard_at(h, call) < h.len() ==> h[heard_at(h, call)].call@ == call,
        forall|i: int| 0 <= i < heard_at(h, call) ==> (#[trigger] h[i]).call@ != call,
    decreases h.len(),
{
    if h.len() > 0 && h[0].call@ != call {
        lemma_heard_at(h.skip(1), call);
        assert forall|i: int| 0 <= i < heard_at(h, call) implies (#[trigger] h[i]).call@
            != call by {
            if i > 0 {
                assert(h.skip(1)[i - 1] == h[i]);
            }
        }
    }
}

proof fn lemma_one_each(h: Seq<HeardEntry>, d: Decode, vfo: Option<u64>)
    requires
        one_each(h),
    ensures
        one_each(heard_with(h, d, vfo)),
{
    match sighting(d, vfo) {
        Some(e) => {
            lemma_heard_at(h, e.call@);
        },
        None => {},
    }
}

impl BusView {
    /// The newest received row of the spectrum.
    pub fn spectrum(&self) -> (r: Option<SpectrumRow>)
        ensures
            match (r, self.rx_row) {
                (Some(a), Some(b)) => same_row(a, b),
                (None, None) => true,
                _ => false,
            },
    {
        match &self.rx_row {
            Some(row) => Some(row.clone()),
            None => None,
        }
    }

    /// The newest row of the station's own signal.
    pub fn tx_spectrum(&self) -> (r: Option<SpectrumRow>)
        ensures
            match (r, self.tx_row) {
                (Some(a), Some(b)) => same_row(a, b),
                (None, None) => true,
                _ => false,
            },
    {
        match &self.tx_row {
            Some(row) => Some(row.clone()),
            None => None,
        }
    }

    /// A command to call CQ in a lane: the lane is selected, with no station, and the engine
    /// starts.
    pub fn call_cq(&self, offset: OffsetHz) -> (r: Vec<Outgoing>)
        ensures
            r@ == seq![
                Outgoing::Selection { outgoing: offset, target: None },
                Outgoing::Qso(QsoCommand::CallCq),
            ],
    {
        let mut r: Vec<Outgoing> = Vec::new();
        r.push(Outgoing::Selection { outgoing: offset, target: None });
        r.push(Outgoing::Qso(QsoCommand::CallCq));
        r
    }

    /// A command to answer a station when it next calls CQ.
    pub fn answer_station(&self, offset: OffsetHz, call: String, slot: SlotId) -> (r: Vec<
        Outgoing,
    >)
        ensures
            ({
                let target = DecodeRef { slot, call: Some(Callsign(call)) };
                r@ == seq![
                    Outgoing::Selection { outgoing: offset, target: Some(target) },
                    Outgoing::Qso(QsoCommand::Start { target }),
                ]
            }),
    {
        let target: DecodeRef = DecodeRef { slot, call: Some(Callsign(call)) };
        let mut r: Vec<Outgoing> = Vec::new();
        r.push(Outgoing::Selection { outgoing: offset, target: Some(target.clone()) });
        r.push(Outgoing::Qso(QsoCommand::Start { target }));
        r
    }

    /// A command to take a contact up in the middle, from a message of the station.
    pub fn resume_qso(
        &self,
        offset: OffsetHz,
        call: String,
        slot: SlotId,
        message: ParsedMessage,
        snr: i8,
    ) -> (r: Vec<Outgoing>)
        ensures
            ({
                let target = DecodeRef { slot, call: Some(Callsign(call)) };
                r@ == seq![
                    Outgoing::Selection { outgoing: offset, target: Some(target) },
                    Outgoing::Qso(QsoCommand::Resume { target, message, snr, offset }),
                ]
            }),
    {
        let target: DecodeRef = DecodeRef { slot, call: Some(Callsign(call)) };
        let mut r: Vec<Outgoing> = Vec::new();
        r.push(Outgoing::Selection { outgoing: offset, target: Some(target.clone()) });
        r.push(Outgoing::Qso(QsoCommand::Resume { target, message, snr, offset }));
        r
    }

    /// A command to stop the contact engine.
    pub fn abort_qso(&self) -> (r: Outgoing)
        ensures
            r == Outgoing::Qso(QsoCommand::Abort),
    {
        Outgoing::Qso(QsoCommand::Abort)
    }

    /// A command to tune the dial.
    pub fn set_freq(&self, hz: u64) -> (r: Outgoing)
        ensures
            r == Outgoing::SetFreq(AbsHz(hz)),
    {
        Outgoing::SetFreq(AbsHz(hz))
    }

    /// A command to survey the bands, with so many slots at each stop.
    pub fn start_scan(&self, stops: Vec<(Band, OverAirMode)>, dwell_slots: u8) -> (r: Outgoing)
        ensures
            r == Outgoing::Scanner(ScannerCommand::StartSurvey { stops, dwell_slots }),
    {
        Outgoing::Scanner(ScannerCommand::StartSurvey { stops, dwell_slots })
    }

    /// A command to end the survey.
    pub fn cancel_scan(&self) -> (r: Outgoing)
        ensures
            r == Outgoing::Scanner(ScannerCommand::Cancel),
    {
        Outgoing::Scanner(ScannerCommand::Cancel)
    }

    /// A command to go on with other stops.
    pub fn set_stops(&self, stops: Vec<(Band, OverAirMode)>) -> (r: Outgoing)
        ensures
            r == Outgoing::Scanner(ScannerCommand::SetStops { stops }),
    {
        Outgoing::Scanner(ScannerCommand::SetStops { stops })
    }

    /// A command to take the transmitter off the air before the program ends.
    pub fn unkey_for_shutdown(&self) -> (r: Outgoing)
        ensures
            r == Outgoing::Unkey,
    {
        Outgoing::Unkey
    }

    /// The identity goes out to the contact engine.
    pub fn set_qso_station(&self, station: StationConfig) -> (r: Outgoing)
        ensures
            r == Outgoing::Station(station),
    {
        Outgoing::Station(station)
    }

    /// Whether the engine moves to a clear lane when nobody answers its CQs.
    pub fn set_auto_hop(&self, on: bool) -> (r: Outgoing)
        ensures
            r == Outgoing::AutoHop(on),
    {
        Outgoing::AutoHop(on)
    }

    /// The lane that the engine would move to.
    pub fn set_cq_hop_offset(&self, offset: OffsetHz) -> (r: Outgoing)
        ensures
            r == Outgoing::CqHop(offset),
    {
        Outgoing::CqHop(offset)
    }
}

/// The stations that were heard after a stream of decodes, each with the dial at its
/// time.
pub open spec fn heard_after(ds: Seq<(Decode, Option<u64>)>) -> Seq<HeardEntry>
    decreases ds.len(),
{
    if ds.len() == 0 {
        Seq::empty()
    } else {
        heard_with(heard_after(ds.drop_last()), ds.last().0, ds.last().1)
    }
}

/// Whether the call of a sighting has an entry that is at least as new.
pub open spec fn accounted(h: Seq<HeardEntry>, s: Option<HeardEntry>) -> bool {
    match s {
        Some(e) => {
            let k = heard_at(h, e.call@);
            0 <= k < h.len() && h[k].call@ == e.call@ && e.last_ms <= h[k].last_ms
        },
        None => true,
    }
}

/// After any stream of decodes each call has one entry at most, and each entry is the
/// sighting of a decode that is at least as new as every other of its call. Every decode
/// with a locator has the entry of its call.
pub proof fn law_newest_sighting_is_kept(ds: Seq<(Decode, Option<u64>)>)
    ensures
        one_each(heard_after(ds)),
        forall|k: int|
            0 <= k < heard_after(ds).len() ==> exists|i: int|
                0 <= i < ds.len() && #[trigger] sighting(ds[i].0, ds[i].1) == Some(
                    #[trigger] heard_after(ds)[k],
                ),
        forall|i: int|
            0 <= i < ds.len() ==> accounted(heard_after(ds), #[trigger] sighting(ds[i].0, ds[i].1)),
    decreases ds.len(),
{
    if ds.len() > 0 {
        let rest = ds.drop_last();
        let h = heard_after(rest);
        let (d, vfo) = ds.last();
        law_newest_sighting_is_kept(rest);
        lemma_one_each(h, d, vfo);
        match sighting(d, vfo) {
            Some(e) => {
                lemma_heard_at(h, e.call@);
            },
            None => {},
        }
        let g = heard_after(ds);
        assert forall|k: int| 0 <= k < g.len() implies exists|i: int|
            0 <= i < ds.len() && #[trigger] sighting(ds[i].0, ds[i].1) == Some(
                #[trigger] g[k],
            ) by {
            if sighting(d, vfo) == Some(g[k]) {
                assert(sighting(ds[ds.len() - 1].0, ds[ds.len() - 1].1) == Some(g[k]));
            } else {
                assert(k < h.len() && g[k] == h[k]);
                let i = choose|i: int|
                    0 <= i < rest.len() && #[trigger] sighting(rest[i].0, rest[i].1) == Some(h[k]);
                assert(rest[i] == ds[i]);
                assert(sighting(ds[i].0, ds[i].1) == Some(g[k]));
            }
        }
        assert forall|i: int| 0 <= i < ds.len() implies accounted(
            g,
            #[trigger] sighting(ds[i].0, ds[i].1),
        ) by {
            match sighting(ds[i].0, ds[i].1) {
                Some(e) => {
                    lemma_heard_at(h, e.call@);
                    lemma_heard_at(g, e.call@);
                    if i < rest.len() {
                        assert(rest[i] == ds[i]);
                    }
                    let m = heard_at(h, e.call@);
                    assert(g[m].call@ == e.call@);
                    assert(heard_at(g, e.call@) == m);
                },
                None => {},
            }
        }
    }
}

/// The map shows a heard station only within an hour of its newest sighting, and each
/// call once.
pub proof fn law_map_is_fresh(h: Seq<HeardEntry>, n: int, now: int)
    requires
        one_each(h),
        0 <= n <= h.len(),
    ensures
        forall|k: int|
            0 <= k < fresh_spots(h, n, now).len() ==> {
                let s = #[trigger] fresh_spots(h, n, now)[k];
                s.last_ms >= now - HEARD_MS && !s.worked
            },
        forall|k: int|
            0 <= k < fresh_spots(h, n, now).len() ==> exists|i: int|
                0 <= i < n && heard_spot(#[trigger] h[i]) == #[trigger] fresh_spots(h, n, now)[k],
        forall|k: int, m: int|
            0 <= k < m < fresh_spots(h, n, now).len() ==> (#[trigger] fresh_spots(h, n, now)[k]).call@
                != (#[trigger] fresh_spots(h, n, now)[m]).call@,
    decreases n,
{
    if n > 0 {
        law_map_is_fresh(h, n - 1, now);
        let s = fresh_spots(h, n, now);
        let t = fresh_spots(h, n - 1, now);
        assert forall|k: int| 0 <= k < s.len() implies exists|i: int|
            0 <= i < n && heard_spot(#[trigger] h[i]) == #[trigger] s[k] by {
            if k < t.len() {
                let i = choose|i: int| 0 <= i < n - 1 && heard_spot(#[trigger] h[i]) == t[k];
                assert(heard_spot(h[i]) == s[k]);
            } else {
                assert(heard_spot(h[n - 1]) == s[k]);
            }
        }
        assert forall|k: int, m: int| 0 <= k < m < s.len() implies (#[trigger] s[k]).call@ != (
        #[trigger] s[m]).call@ by {
            assert(s[k] == t[k]);
            if m < t.len() {
                assert(s[m] == t[m]);
            } else {
                let i = choose|i: int| 0 <= i < n - 1 && heard_spot(#[trigger] h[i]) == t[k];
                assert(h[i].call@ != h[n - 1].call@);
            }
        }
    }
}

/// The activity of the bands is given lowest band first, and no row is lost.
pub proof fn law_bands_are_sorted(v: Seq<BandActivity>, k: int)
    requires
        0 <= k <= 10,
    ensures
        forall|i: int, j: int| #![trigger by_band(v, k)[i], by_band(v, k)[j]]
            0 <= i <= j < by_band(v, k).len() ==> order_of(by_band(v, k)[i].band) <= order_of(
                by_band(v, k)[j].band,
            ),
        forall|i: int| 0 <= i < by_band(v, k).len() ==> order_of((#[trigger] by_band(v, k)[i]).band) < k,
        forall|i: int|
            0 <= i < v.len() && order_of((#[trigger] v[i]).band) < k ==> by_band(v, k).contains(v[i]),
    decreases k,
{
    if k > 0 {
        law_bands_are_sorted(v, k - 1);
        let n = v.len() as int;
        lemma_rows_of(v, n, k - 1);
        let a = by_band(v, k - 1);
        let b = rows_of(v, n, k - 1);
        assert forall|i: int|
            0 <= i < v.len() && order_of((#[trigger] v[i]).band) < k implies (a + b).contains(
            v[i],
        ) by {
            if order_of(v[i].band) < k - 1 {
                let j = choose|j: int| 0 <= j < a.len() && a[j] == v[i];
                assert((a + b)[j] == v[i]);
            } else {
                let j = choose|j: int| 0 <= j < b.len() && b[j] == v[i];
                assert((a + b)[a.len() + j] == v[i]);
            }
        }
    }
}

proof fn lemma_rows_of(v: Seq<BandActivity>, n: int, k: int)
    requires
        0 <= n <= v.len(),
    ensures
        forall|i: int| 0 <= i < rows_of(v, n, k).len() ==> order_of((#[trigger] rows_of(v, n, k)[i]).band) == k,
        forall|i: int|
            0 <= i < n && order_of((#[trigger] v[i]).band) == k ==> rows_of(v, n, k).contains(v[i]),
    decreases n,
{
    if n > 0 {
        lemma_rows_of(v, n - 1, k);
        let r = rows_of(v, n - 1, k);
        assert forall|i: int| 0 <= i < n && order_of((#[trigger] v[i]).band) == k implies rows_of(
            v,
            n,
            k,
        ).contains(v[i]) by {
            if i < n - 1 {
                let j = choose|j: int| 0 <= j < r.len() && r[j] == v[i];
                assert(rows_of(v, n, k)[j] == v[i]);
            } else {
                assert(rows_of(v, n, k)[r.len() as int] == v[i]);
            }
        }
    }
}

} // verus!
