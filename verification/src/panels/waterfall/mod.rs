//! The digital panel: the waterslide with its decodes, and the send row.
//!
//! The panel decides; it does nothing itself. Each step takes what the console knows and
//! gives back the actions that are to be carried out, in their order.

use vstd::prelude::*;

use crate::console::numbers_equal;
use crate::numbers::{spell, spell_padded};
use crate::send::{calling_freq_hz, Activation, Command, Mhz, SendState};
use crate::settings::HardwareConfig;
use crate::text::{append, append_str, chars_of, owned, same_str, string_of, trimmed};
use crate::types::{
    clone_text, slot_period_ms, AbsHz, Band, Callsign, Decode, DecodeRef, OffsetHz, OverAirMode,
    ParsedMessage, Protocol, QsoPhase, Selection, SelectionContext, SlotId, StationConfig,
};
use crate::waterslide_panel::Target;

pub mod config_form;
pub mod panel_laws;
pub mod placing;
pub mod render;
pub mod screen_laws;
pub mod send_row;

use config_form::{ConfigForm, UsbIdentity};
use render::decode_station;
use send_row::{digit_key_index, shortcuts, update_cq_assignments, CqAssignments};

verus! {

/// Where the transmit lane is put: on a lane of the passband, or on whole hertz.
#[derive(Clone, Copy, Debug, PartialEq, Eq, Structural)]
pub enum TxOffset {
    Lane(OffsetHz),
    Whole(u32),
}

/// Something that is to be carried out.
#[derive(Debug)]
pub enum Action {
    /// Lock the transmit lane, or unlock it.
    SetOffsetLock(bool),
    /// Put the transmit lane somewhere. The engine ignores it while the lane is locked.
    SetTxOffset(TxOffset),
    /// Select a station, a lane, or nothing.
    Select { target: Option<DecodeRef>, context: Option<SelectionContext> },
    /// Answer a station when it next calls CQ.
    Answer(DecodeRef),
    /// Take a contact up in the middle.
    Resume { target: DecodeRef, message: ParsedMessage, snr: i8 },
    /// Call CQ.
    CallCq,
    /// Stop the contact engine.
    Abort,
    /// Tune the dial, in hertz.
    SetFreq(u64),
    /// Tune the dial, in megahertz.
    SetFreqMhz(Mhz),
    /// Change the protocol.
    SetProtocol(Protocol),
    /// Start the band scanner.
    StartScan,
    /// Stop the band scanner.
    CancelScan,
}

/// A key that the panel knows.
#[derive(Clone, Copy, Debug, PartialEq, Eq, Structural)]
pub enum PanelKey {
    Tab,
    Q,
    S,
    Digit(char),
    Enter,
    Backspace,
    Escape,
    Other,
}

/// What came from the keyboard: a text, or a key that went down, with or without a
/// modifier.
#[derive(Debug)]
pub enum KeyEvent {
    Text(String),
    Key { key: PanelKey, modified: bool },
}

/// What decides whether a key is a shortcut.
#[derive(Clone, Copy, Debug, PartialEq, Eq, Structural)]
pub struct Gate {
    /// Whether the band scanner runs.
    pub scanning: bool,
    /// Whether the shortcuts are live.
    pub live: bool,
    /// Whether the transmit lane is locked.
    pub locked: bool,
}

/// What the keys of one frame have come to so far.
#[derive(Clone, Copy, Debug, PartialEq, Eq, Structural)]
pub struct KeyFlags {
    /// Whether a key was taken as a shortcut, so that its text is not typed as well.
    pub consumed: bool,
    /// Whether the tab key was taken.
    pub tab: bool,
    /// Whether Enter was pressed.
    pub activate: bool,
}

/// A shortcut.
pub enum Shortcut {
    Lock,
    ClearLane,
    Scan,
    Digit(int),
}

/// The shortcut that an event is, while no command is being typed if `entering` is false.
pub open spec fn shortcut(ev: KeyEvent, entering: bool, g: Gate) -> Option<Shortcut> {
    match ev {
        KeyEvent::Text(_) => None,
        KeyEvent::Key { key, modified } => if modified || entering {
            None
        } else if key == PanelKey::Tab && g.live {
            Some(Shortcut::Lock)
        } else if key == PanelKey::Q && g.live {
            Some(Shortcut::ClearLane)
        } else if key == PanelKey::S {
            Some(Shortcut::Scan)
        } else if g.live {
            match key {
                PanelKey::Digit(c) => match send_row::key_index(c) {
                    Some(i) => Some(Shortcut::Digit(i)),
                    None => None,
                },
                _ => None,
            }
        } else {
            None
        },
    }
}

/// The reference to the station of a decode.
pub open spec fn ref_of(d: Decode) -> Option<DecodeRef> {
    match render::station(d) {
        Some((call, slot)) => Some(DecodeRef { slot, call: Some(Callsign(call)) }),
        None => None,
    }
}

/// The reference to the station under a digit, and its lane.
pub open spec fn under(cuts: Seq<Option<Decode>>, i: int) -> Option<(DecodeRef, OffsetHz)> {
    match cuts[i] {
        Some(d) => match ref_of(d) {
            Some(r) => Some((r, d.offset)),
            None => None,
        },
        None => None,
    }
}

/// Selects nothing but a lane.
pub open spec fn to_lane(off: OffsetHz) -> Action {
    Action::Select { target: None, context: Some(SelectionContext::Passband(off)) }
}

/// The actions of an event.
pub open spec fn key_actions(
    ev: KeyEvent,
    entering: bool,
    g: Gate,
    cuts: Seq<Option<Decode>>,
    clear_lane: Option<OffsetHz>,
) -> Seq<Action> {
    match shortcut(ev, entering, g) {
        Some(Shortcut::Lock) => seq![Action::SetOffsetLock(!g.locked)],
        Some(Shortcut::ClearLane) => match clear_lane {
            Some(off) => seq![to_lane(off)],
            None => Seq::empty(),
        },
        Some(Shortcut::Scan) => if g.scanning {
            seq![Action::CancelScan]
        } else if g.live {
            seq![Action::StartScan]
        } else {
            Seq::empty()
        },
        Some(Shortcut::Digit(i)) => match under(cuts, i) {
            Some((r, off)) => seq![
                Action::Select {
                    target: Some(r),
                    context: Some(SelectionContext::Passband(off)),
                },
                Action::Answer(r),
            ],
            None => Seq::empty(),
        },
        None => match ev {
            KeyEvent::Key { key, .. } => if key == PanelKey::Escape && !entering && g.scanning {
                seq![Action::CancelScan]
            } else {
                Seq::empty()
            },
            _ => Seq::empty(),
        },
    }
}

/// Whether an event takes the hint away that a contact can be taken up.
pub open spec fn key_forgets(
    ev: KeyEvent,
    entering: bool,
    g: Gate,
    cuts: Seq<Option<Decode>>,
    clear_lane: Option<OffsetHz>,
) -> bool {
    match shortcut(ev, entering, g) {
        Some(Shortcut::ClearLane) => clear_lane is Some,
        Some(Shortcut::Digit(i)) => under(cuts, i) is Some,
        _ => false,
    }
}

/// The flags after an event.
pub open spec fn key_flags(ev: KeyEvent, entering: bool, g: Gate, f: KeyFlags) -> KeyFlags {
    match shortcut(ev, entering, g) {
        Some(s) => KeyFlags { consumed: true, tab: f.tab || s is Lock, activate: f.activate },
        None => KeyFlags {
            activate: f.activate || (ev matches KeyEvent::Key { key, .. } && key
                == PanelKey::Enter),
            ..f
        },
    }
}

/// The send box after an event.
pub open spec fn key_box(
    ev: KeyEvent,
    entering: bool,
    buf: Seq<char>,
    g: Gate,
    f: KeyFlags,
) -> (bool, Seq<char>) {
    match shortcut(ev, entering, g) {
        Some(_) => (entering, buf),
        None => match ev {
            KeyEvent::Text(t) => if f.consumed {
                (entering, buf)
            } else {
                crate::send::typed(entering, buf, t@)
            },
            KeyEvent::Key { key, .. } => if key == PanelKey::Backspace && entering {
                if buf.len() <= 1 {
                    (false, Seq::empty())
                } else {
                    (true, buf.drop_last())
                }
            } else if key == PanelKey::Escape && entering {
                (false, Seq::empty())
            } else {
                (entering, buf)
            },
        },
    }
}

/// The state of the panel.
pub struct Waterfall {
    pub form: ConfigForm,
    pub send: SendState,
    /// The selection that was acted on last.
    pub applied_selection: Option<Selection>,
    /// The message and report that a contact can be taken up from, with the decode that
    /// they belong to.
    pub resume: Option<(DecodeRef, ParsedMessage, i8)>,
    /// The phase of the contact engine in the last frame.
    pub prev_phase: Option<QsoPhase>,
    /// The message that is on the air.
    pub tx_hold: Option<String>,
    pub cq_assignments: CqAssignments,
    /// The slot boundary at which the digits were dealt last.
    pub last_assigned_slot_ms: i64,
    /// The decodes under the digits.
    pub cq_shortcuts: Vec<Option<Decode>>,
    /// The message that the engine had queued in the last frame.
    pub last_next_tx: Option<String>,
    /// Whether decoded text gets two thirds of the panel.
    pub wide_decode: bool,
    /// Whether the engine moves to a clear lane by itself.
    pub auto_hop: bool,
    /// The slot for which the engine was last told where to move.
    pub last_hop_feed_slot: Option<SlotId>,
}

impl Waterfall {
    /// Whether the digits are in order and each has its place.
    pub open spec fn wf(self) -> bool {
        &&& self.cq_assignments.wf()
        &&& self.cq_shortcuts@.len() == send_row::DIGITS
        &&& self.send.wf()
    }

    /// A fresh panel.
    pub fn new(wide_decode: bool) -> (r: Self)
        ensures
            r.wf(),
            !r.form.loaded,
            !r.send.entering,
            r.send.buf@.len() == 0,
            r.applied_selection is None,
            r.resume is None,
            r.prev_phase is None,
            r.tx_hold is None,
            r.cq_assignments@.len() == 0,
            r.last_assigned_slot_ms == 0,
            forall|i: int| 0 <= i < send_row::DIGITS ==> (#[trigger] r.cq_shortcuts@[i]) is None,
            r.last_next_tx is None,
            r.wide_decode == wide_decode,
            !r.auto_hop,
            r.last_hop_feed_slot is None,
    {
        let mut cuts: Vec<Option<Decode>> = Vec::new();
        let mut i: usize = 0;
        while i < send_row::DIGITS
            invariant
                i <= send_row::DIGITS,
                cuts@.len() == i,
                forall|x: int| 0 <= x < i ==> (#[trigger] cuts@[x]) is None,
            decreases send_row::DIGITS - i,
        {
            cuts.push(None);
            i = i + 1;
        }
        Waterfall {
            form: ConfigForm::default(),
            send: SendState::default(),
            applied_selection: None,
            resume: None,
            prev_phase: None,
            tx_hold: None,
            cq_assignments: CqAssignments::new(),
            last_assigned_slot_ms: 0,
            cq_shortcuts: cuts,
            last_next_tx: None,
            wide_decode,
            auto_hop: false,
            last_hop_feed_slot: None,
        }
    }

    /// Whether the shortcuts are live: the scanner is at rest, nothing is on the air, and
    /// the contact engine is idle or has not reported yet.
    pub fn shortcuts_live(&self, scanning: bool, phase: Option<QsoPhase>) -> (r: bool)
        ensures
            r == (!scanning && self.tx_hold is None && (phase is None || phase == Some(
                QsoPhase::Idle,
            ))),
    {
        let idle: bool = match phase {
            None => true,
            Some(p) => p == QsoPhase::Idle,
        };
        !scanning && self.tx_hold.is_none() && idle
    }

    /// Takes one event from the keyboard. Tab locks the transmit lane, `Q` moves to a
    /// clear lane, `S` starts and stops the scanner and a digit answers the station under
    /// it, unless a command is being typed; all else goes to the send box. `clear_lane` is
    /// the clearest lane, where there is one.
    pub fn key_event(
        &mut self,
        ev: &KeyEvent,
        gate: Gate,
        flags: KeyFlags,
        clear_lane: Option<OffsetHz>,
    ) -> (r: (Vec<Action>, KeyFlags))
        requires
            old(self).wf(),
        ensures
            final(self).wf(),
            r.0@ == key_actions(
                *ev,
                old(self).send.entering,
                gate,
                old(self).cq_shortcuts@,
                clear_lane,
            ),
            r.1 == key_flags(*ev, old(self).send.entering, gate, flags),
            (final(self).send.entering, final(self).send.buf@) == key_box(
                *ev,
                old(self).send.entering,
                old(self).send.buf@,
                gate,
                flags,
            ),
            final(self).resume == (if key_forgets(
                *ev,
                old(self).send.entering,
                gate,
                old(self).cq_shortcuts@,
                clear_lane,
            ) {
                None
            } else {
                old(self).resume
            }),
            *final(self) == (Waterfall {
                send: final(self).send,
                resume: final(self).resume,
                ..*old(self)
            }),
    {
        let mut out: Vec<Action> = Vec::new();
        let mut f: KeyFlags = flags;
        let entering: bool = self.send.entering;
        match ev {
            KeyEvent::Text(t) => {
                if !flags.consumed {
                    self.send.type_text(t.as_str());
                }
            },
            KeyEvent::Key { key, modified } => {
                let plain: bool = !*modified && !entering;
                match *key {
                    PanelKey::Tab => {
                        if plain && gate.live {
                            out.push(Action::SetOffsetLock(!gate.locked));
                            f.tab = true;
                            f.consumed = true;
                        }
                    },
                    PanelKey::Q => {
                        if plain && gate.live {
                            if let Some(off) = clear_lane {
                                out.push(
                                    Action::Select {
                                        target: None,
                                        context: Some(SelectionContext::Passband(off)),
                                    },
                                );
                                self.resume = None;
                            }
                            f.consumed = true;
                        }
                    },
                    PanelKey::S => {
                        if plain {
                            if gate.scanning {
                                out.push(Action::CancelScan);
                            } else if gate.live {
                                out.push(Action::StartScan);
                            }
                            f.consumed = true;
                        }
                    },
                    PanelKey::Digit(c) => {
                        if plain && gate.live {
                            if let Some(i) = digit_key_index(c) {
                                f.consumed = true;
                                let mut hit: bool = false;
                                if let Some(d) = &self.cq_shortcuts[i] {
                                    if let Some((call, slot)) = decode_station(d) {
                                        let target: DecodeRef = DecodeRef {
                                            slot,
                                            call: Some(Callsign(call)),
                                        };
                                        out.push(
                                            Action::Select {
                                                target: Some(target.clone()),
                                                context: Some(SelectionContext::Passband(d.offset)),
                                            },
                                        );
                                        out.push(Action::Answer(target));
                                        hit = true;
                                    }
                                }
                                if hit {
                                    self.resume = None;
                                }
                            }
                        }
                    },
                    PanelKey::Enter => {
                        f.activate = true;
                    },
                    PanelKey::Backspace => {
                        self.send.backspace();
                    },
                    PanelKey::Escape => {
                        if entering {
                            self.send.escape();
                        } else if gate.scanning {
                            out.push(Action::CancelScan);
                        }
                    },
                    PanelKey::Other => {},
                }
            },
        }
        (out, f)
    }
}

/// While a command is being typed no key is a shortcut, and nothing is carried out.
pub proof fn law_no_shortcut_while_typing(
    ev: KeyEvent,
    g: Gate,
    cuts: Seq<Option<Decode>>,
    clear_lane: Option<OffsetHz>,
)
    ensures
        key_actions(ev, true, g, cuts, clear_lane).len() == 0,
        !key_forgets(ev, true, g, cuts, clear_lane),
{
}

/// While the scanner runs, and the shortcuts are not live, a key can do nothing but stop
/// the scanner.
pub proof fn law_scanning_hands_off(
    ev: KeyEvent,
    entering: bool,
    g: Gate,
    cuts: Seq<Option<Decode>>,
    clear_lane: Option<OffsetHz>,
    i: int,
)
    requires
        g.scanning,
        !g.live,
        0 <= i < key_actions(ev, entering, g, cuts, clear_lane).len(),
    ensures
        key_actions(ev, entering, g, cuts, clear_lane)[i] == Action::CancelScan,
{
}

/// The view of an optional text.
pub open spec fn opt(o: Option<String>) -> Option<Seq<char>> {
    crate::config_toml::text_of(o)
}

/// The message that is held while one is on the air: the one that was held, else the one
/// that is queued, else the one that was queued in the last frame.
pub open spec fn held(
    transmitting: bool,
    hold: Option<Seq<char>>,
    next: Option<Seq<char>>,
    last: Option<Seq<char>>,
) -> Option<Seq<char>> {
    if transmitting {
        crate::settings::first_of(hold, crate::settings::first_of(next, last))
    } else {
        None
    }
}

/// Once a message is held, it is held until the transmission ends, whatever the engine
/// queues meanwhile.
pub proof fn law_message_is_held(
    hold: Option<Seq<char>>,
    next: Option<Seq<char>>,
    last: Option<Seq<char>>,
    next2: Option<Seq<char>>,
)
    requires
        held(true, hold, next, last) is Some,
    ensures
        held(true, held(true, hold, next, last), next2, next) == held(true, hold, next, last),
        held(false, held(true, hold, next, last), next2, next) is None,
{
}

/// Whether our own signal was seen less than half a second ago.
pub fn is_transmitting(last_own_ms: Option<i64>, now_ms: i64) -> (r: bool)
    ensures
        r == match last_own_ms {
            Some(t) => now_ms - t < 500,
            None => false,
        },
{
    match last_own_ms {
        Some(t) => {
            let age: i128 = now_ms as i128 - t as i128;
            age < 500
        },
        None => false,
    }
}

/// What the send box shows: a command that is being typed, else what keeps the station off
/// the air, else the message on the air, else the one that is queued, else the preview.
pub open spec fn box_text(
    entering: bool,
    buf: Seq<char>,
    call_set: bool,
    hold: Option<Seq<char>>,
    next: Option<Seq<char>>,
) -> Seq<char> {
    if entering {
        buf
    } else if !call_set {
        "SET CALLSIGN — unlock (GUI ▸ EDIT) or set the config file"@
    } else {
        match crate::settings::first_of(hold, next) {
            Some(t) => t,
            None => buf,
        }
    }
}

/// What the button says.
pub fn button_label(call_set: bool, active: bool) -> (s: &'static str)
    ensures
        s@ == (if !call_set {
            "SET CALL"@
        } else if active {
            "STOP"@
        } else {
            "SEND"@
        }),
{
    if !call_set {
        "SET CALL"
    } else if active {
        "STOP"
    } else {
        "SEND"
    }
}

/// The state that the panel is tinted by.
#[derive(Clone, Copy, Debug, PartialEq, Eq, Structural)]
pub enum Tint {
    Idle,
    Armed,
    Keyed,
}

/// The tint of the frame: only a locked panel shows what is on.
pub fn frame_tint(unlocked: bool, transmitting: bool, armed: bool) -> (r: Tint)
    ensures
        r == (if unlocked {
            Tint::Idle
        } else if transmitting {
            Tint::Keyed
        } else if armed {
            Tint::Armed
        } else {
            Tint::Idle
        }),
{
    if unlocked {
        Tint::Idle
    } else if transmitting {
        Tint::Keyed
    } else if armed {
        Tint::Armed
    } else {
        Tint::Idle
    }
}

/// The tuned frequency as it is shown: megahertz, kilohertz and tens of hertz, with points
/// between them. A rig that is at fault shows dashes; one that has not reported yet shows
/// 14.074 MHz.
pub open spec fn dial_text(fault: bool, vfo: Option<u64>) -> Seq<char> {
    let hz: nat = match vfo {
        Some(n) => n as nat,
        None => 14_074_000,
    };
    if fault {
        "---.---.--"@
    } else {
        crate::numbers::dec(hz / 1_000_000) + seq!['.'] + crate::numbers::padded(
            hz % 1_000_000 / 1_000,
            3,
        ) + seq!['.'] + crate::numbers::padded(hz % 1_000 / 10, 2)
    }
}

/// The tuned frequency as it is shown.
pub fn vfo_text(fault: bool, vfo: Option<u64>) -> (r: String)
    ensures
        r@ == dial_text(fault, vfo),
{
    if fault {
        return owned("---.---.--");
    }
    let hz: u64 = match vfo {
        Some(n) => n,
        None => 14_074_000,
    };
    let mut v: Vec<char> = spell(hz / 1_000_000);
    v.push('.');
    append(&mut v, &spell_padded(hz % 1_000_000 / 1_000, 3));
    v.push('.');
    append(&mut v, &spell_padded(hz % 1_000 / 10, 2));
    assert(v@ == dial_text(fault, vfo));
    string_of(&v)
}

/// The tag on the selected lane: the call, and what is being done with it.
pub open spec fn tag_of(call: Seq<char>, phase: QsoPhase) -> Seq<char> {
    (match phase {
        QsoPhase::Armed => "ARMED ▸ "@,
        QsoPhase::InExchange => "WORKING ▸ "@,
        _ => "▸ "@,
    }) + call
}

/// The tag on the selected lane.
pub fn selection_tag(call: &str, phase: QsoPhase) -> (r: String)
    ensures
        r@ == tag_of(call@, phase),
{
    let mut v: Vec<char> = match phase {
        QsoPhase::Armed => chars_of("ARMED ▸ "),
        QsoPhase::InExchange => chars_of("WORKING ▸ "),
        _ => chars_of("▸ "),
    };
    append_str(&mut v, call);
    string_of(&v)
}

/// Whether two optional calls are the same.
pub open spec fn same_call(a: Option<Callsign>, b: Option<Callsign>) -> bool {
    match (a, b) {
        (Some(x), Some(y)) => x.0@ == y.0@,
        (None, None) => true,
        _ => false,
    }
}

/// Whether two references are to the same decode.
pub open spec fn same_ref(a: DecodeRef, b: DecodeRef) -> bool {
    a.slot == b.slot && same_call(a.call, b.call)
}

/// Whether two optional references are the same.
pub open spec fn same_target(a: Option<DecodeRef>, b: Option<DecodeRef>) -> bool {
    match (a, b) {
        (Some(x), Some(y)) => same_ref(x, y),
        (None, None) => true,
        _ => false,
    }
}

/// Whether two optional contexts are the same. Lanes are compared as numbers: what is no
/// number is the same as nothing, itself among it.
pub open spec fn same_context(a: Option<SelectionContext>, b: Option<SelectionContext>) -> bool {
    match (a, b) {
        (
            Some(SelectionContext::Passband(x)),
            Some(SelectionContext::Passband(y)),
        ) => crate::console::equal_numbers(x.0, y.0),
        (Some(SelectionContext::AbsFreq(x)), Some(SelectionContext::AbsFreq(y))) => x == y,
        (None, None) => true,
        _ => false,
    }
}

/// Whether two optional selections are the same.
pub open spec fn same_selection(a: Option<Selection>, b: Option<Selection>) -> bool {
    match (a, b) {
        (Some(x), Some(y)) => same_target(x.target, y.target) && same_context(
            x.context,
            y.context,
        ),
        (None, None) => true,
        _ => false,
    }
}

/// Whether two references are to the same decode.
fn refs_equal(a: &DecodeRef, b: &DecodeRef) -> (r: bool)
    ensures
        r == same_ref(*a, *b),
{
    if a.slot != b.slot {
        return false;
    }
    match (&a.call, &b.call) {
        (Some(x), Some(y)) => same_str(x.0.as_str(), y.0.as_str()),
        (None, None) => true,
        _ => false,
    }
}

/// Whether two optional references are the same.
fn targets_equal(a: &Option<DecodeRef>, b: &Option<DecodeRef>) -> (r: bool)
    ensures
        r == same_target(*a, *b),
{
    match (a, b) {
        (Some(x), Some(y)) => refs_equal(x, y),
        (None, None) => true,
        _ => false,
    }
}

/// Whether two contexts are the same.
fn contexts_equal(a: Option<SelectionContext>, b: Option<SelectionContext>) -> (r: bool)
    ensures
        r == same_context(a, b),
{
    match (a, b) {
        (
            Some(SelectionContext::Passband(x)),
            Some(SelectionContext::Passband(y)),
        ) => numbers_equal(x.0, y.0),
        (Some(SelectionContext::AbsFreq(x)), Some(SelectionContext::AbsFreq(y))) => x == y,
        (None, None) => true,
        _ => false,
    }
}

/// Whether two optional selections are the same.
fn selections_equal(a: &Option<Selection>, b: &Option<Selection>) -> (r: bool)
    ensures
        r == same_selection(*a, *b),
{
    match (a, b) {
        (Some(x), Some(y)) => targets_equal(&x.target, &y.target) && contexts_equal(
            x.context,
            y.context,
        ),
        (None, None) => true,
        _ => false,
    }
}

/// What a new selection calls for. A lane of the passband is where the transmit lane goes.
/// A station at a known frequency is reached without tuning where it lies between 300 and
/// 2500 Hz of audio; else the dial is tuned so that it lies at 1500 Hz, unless the lane is
/// locked.
pub open spec fn selection_actions(sel: Selection, vfo: Option<u64>, locked: bool) -> Seq<Action> {
    match sel.context {
        Some(SelectionContext::Passband(off)) => seq![Action::SetTxOffset(TxOffset::Lane(off))],
        Some(SelectionContext::AbsFreq(abs)) => match vfo {
            Some(v) => {
                let audio = abs.0 - v;
                if 300 <= audio <= 2500 {
                    seq![Action::SetTxOffset(TxOffset::Whole(audio as u32))]
                } else if !locked {
                    seq![
                        Action::SetFreq(
                            if abs.0 >= 1500 {
                                (abs.0 - 1500) as u64
                            } else {
                                0
                            },
                        ),
                        Action::SetTxOffset(TxOffset::Whole(1500)),
                    ]
                } else {
                    Seq::empty()
                }
            },
            None => Seq::empty(),
        },
        None => Seq::empty(),
    }
}

/// What a new selection calls for.
pub fn apply_selection(sel: &Selection, vfo: Option<u64>, locked: bool) -> (r: Vec<Action>)
    ensures
        r@ == selection_actions(*sel, vfo, locked),
{
    let mut out: Vec<Action> = Vec::new();
    match sel.context {
        Some(SelectionContext::Passband(off)) => {
            out.push(Action::SetTxOffset(TxOffset::Lane(off)));
        },
        Some(SelectionContext::AbsFreq(abs)) => {
            if let Some(v) = vfo {
                let audio: i128 = abs.0 as i128 - v as i128;
                if 300 <= audio && audio <= 2500 {
                    out.push(Action::SetTxOffset(TxOffset::Whole(audio as u32)));
                } else if !locked {
                    let dial: u64 = if abs.0 >= 1500 {
                        abs.0 - 1500
                    } else {
                        0
                    };
                    out.push(Action::SetFreq(dial));
                    out.push(Action::SetTxOffset(TxOffset::Whole(1500)));
                }
            }
        },
        None => {},
    }
    out
}

/// A locked lane is never tuned away from: no selection moves the dial.
pub proof fn law_locked_never_tunes(sel: Selection, vfo: Option<u64>, i: int)
    requires
        0 <= i < selection_actions(sel, vfo, true).len(),
    ensures
        selection_actions(sel, vfo, true)[i] is SetTxOffset,
{
}

/// After a selection was acted on, the station lies in the passband at the transmit lane:
/// dial and lane add up to its frequency, where it is not below the lane.
pub proof fn law_selection_reaches_station(abs: AbsHz, target: Option<DecodeRef>, v: u64)
    requires
        abs.0 >= 1500,
    ensures
        ({
            let sel = Selection { target, context: Some(SelectionContext::AbsFreq(abs)) };
            let acts = selection_actions(sel, Some(v), false);
            let dial: int = if acts.len() == 2 {
                acts[0]->SetFreq_0 as int
            } else {
                v as int
            };
            acts.len() > 0 && dial + acts.last()->SetTxOffset_0->Whole_0 == abs.0
        }),
{
}

/// What a click on the waterslide came to: the lane under it, and the station whose line
/// was hit, with what it can be taken up from where the line is for us.
pub struct WsClick {
    pub offset: OffsetHz,
    pub target: Option<DecodeRef>,
    pub resume: Option<(ParsedMessage, i8)>,
}

/// What a click on the line of a decode comes to.
pub fn line_click(d: &Decode, my_call: Option<&str>) -> (r: Option<WsClick>)
    ensures
        match r {
            Some(c) => c.offset == d.offset && c.target == ref_of(*d) && c.target is Some
                && c.resume == (match my_call {
                Some(me) => if render::is_for(*d, me@) {
                    Some(
                        (
                            render::message_of(*d),
                            match d.snr_db {
                                Some(n) => n,
                                None => 0,
                            },
                        ),
                    )
                } else {
                    None
                },
                None => None,
            }),
            None => ref_of(*d) is None,
        },
{
    match decode_station(d) {
        Some((call, slot)) => Some(
            WsClick {
                offset: d.offset,
                target: Some(DecodeRef { slot, call: Some(Callsign(call)) }),
                resume: render::resume_intent(d, my_call),
            },
        ),
        None => None,
    }
}

/// The actions of a command.
pub open spec fn command_actions(
    cmd: Command,
    mode: Option<OverAirMode>,
    scanning: bool,
    clear_lane: Option<OffsetHz>,
) -> Seq<Action> {
    match cmd {
        Command::ClearQsy => match clear_lane {
            Some(off) => seq![to_lane(off)],
            None => Seq::empty(),
        },
        Command::Scan => if scanning {
            seq![Action::CancelScan]
        } else {
            seq![Action::StartScan]
        },
        Command::SetFrequency(mhz) => seq![Action::SetFreqMhz(mhz)],
        Command::SetBand(band) => match crate::send::calling_freq(
            band,
            match mode {
                Some(m) => m,
                None => OverAirMode::Ft8,
            },
        ) {
            Some(hz) => seq![Action::SetFreq(hz)],
            None => Seq::empty(),
        },
    }
}

/// What the button or Enter starts or stops, where no command is being typed.
pub open spec fn toggle_actions(
    call_set: bool,
    active: bool,
    target: Option<DecodeRef>,
    resume: Option<(DecodeRef, ParsedMessage, i8)>,
) -> Seq<Action> {
    if !call_set {
        Seq::empty()
    } else if active {
        seq![Action::Abort]
    } else {
        match target {
            Some(t) => match resume {
                Some((r, message, snr)) => if same_ref(r, t) {
                    seq![Action::Resume { target: t, message, snr }]
                } else {
                    seq![Action::Answer(t)]
                },
                None => seq![Action::Answer(t)],
            },
            None => seq![Action::CallCq],
        }
    }
}

/// Without a call sign nothing is started and nothing is stopped.
pub proof fn law_no_call_no_operation(
    active: bool,
    target: Option<DecodeRef>,
    resume: Option<(DecodeRef, ParsedMessage, i8)>,
)
    ensures
        toggle_actions(false, active, target, resume).len() == 0,
{
}

/// What is known when the button or Enter is pressed.
pub struct Situation<'a> {
    /// Whether a call sign is set.
    pub call_set: bool,
    /// Whether the contact engine is at work, or a message is on the air.
    pub active: bool,
    /// Whether the band scanner runs.
    pub scanning: bool,
    /// The station that is selected.
    pub target: &'a Option<DecodeRef>,
    /// The mode of the spectrum.
    pub mode: Option<OverAirMode>,
    /// The number in the command, where it tunes the dial.
    pub mhz: Option<u64>,
    /// The clearest lane.
    pub clear_lane: Option<OffsetHz>,
}

impl Waterfall {
    /// Takes up what the engine has queued and whether we are on the air, and holds the
    /// message that is being sent.
    pub fn latch(&mut self, transmitting: bool, next_tx: &Option<String>)
        ensures
            opt(final(self).tx_hold) == held(
                transmitting,
                opt(old(self).tx_hold),
                opt(*next_tx),
                opt(old(self).last_next_tx),
            ),
            final(self).last_next_tx == *next_tx,
            *final(self) == (Waterfall {
                tx_hold: final(self).tx_hold,
                last_next_tx: final(self).last_next_tx,
                ..*old(self)
            }),
    {
        if transmitting {
            if self.tx_hold.is_none() {
                self.tx_hold = match next_tx {
                    Some(t) => Some(t.clone()),
                    None => clone_text(&self.last_next_tx),
                };
            }
        } else {
            self.tx_hold = None;
        }
        self.last_next_tx = clone_text(next_tx);
    }

    /// Whether the contact engine is at work, or a message is on the air.
    pub fn is_active(&self, phase: QsoPhase) -> (r: bool)
        ensures
            r == (phase != QsoPhase::Idle || self.tx_hold is Some),
    {
        phase != QsoPhase::Idle || self.tx_hold.is_some()
    }

    /// What the send box shows.
    pub fn display(&self, call_set: bool, next_tx: &Option<String>) -> (r: String)
        ensures
            r@ == box_text(
                self.send.entering,
                self.send.buf@,
                call_set,
                opt(self.tx_hold),
                opt(*next_tx),
            ),
    {
        if self.send.entering {
            return self.send.buf.clone();
        }
        if !call_set {
            return owned("SET CALLSIGN — unlock (GUI ▸ EDIT) or set the config file");
        }
        match &self.tx_hold {
            Some(t) => t.clone(),
            None => match next_tx {
                Some(t) => t.clone(),
                None => self.send.buf.clone(),
            },
        }
    }

    /// Shows the message that would be sent next, unless a command is being typed.
    /// `tx_off` is the transmit lane in whole hertz.
    pub fn preview(&mut self, target: &Option<DecodeRef>, tx_off: i32, me: &StationConfig)
        requires
            old(self).wf(),
        ensures
            final(self).wf(),
            final(self).send.entering == old(self).send.entering,
            final(self).send.buf@ == (if old(self).send.entering {
                old(self).send.buf@
            } else {
                crate::send::message_for(
                    match *target {
                        Some(t) => match t.call {
                            Some(c) => Some(c.0@),
                            None => None,
                        },
                        None => None,
                    },
                    *me,
                )
            }),
            *final(self) == (Waterfall { send: final(self).send, ..*old(self) }),
    {
        let aim: Target = match target {
            Some(t) => match &t.call {
                Some(c) => Target::Station { call: c.0.clone(), off: tx_off },
                None => Target::Offset(tx_off),
            },
            None => Target::Offset(tx_off),
        };
        self.send.refresh_auto(&aim, me);
    }

    /// Acts on a selection that is new. One that was acted on is not acted on again.
    pub fn observe_selection(
        &mut self,
        selection: &Option<Selection>,
        vfo: Option<u64>,
        locked: bool,
    ) -> (r: Vec<Action>)
        ensures
            r@ == (if same_selection(*selection, old(self).applied_selection) || *selection is None {
                Seq::<Action>::empty()
            } else {
                selection_actions(selection->Some_0, vfo, locked)
            }),
            *final(self) == (Waterfall {
                applied_selection: if same_selection(
                    *selection,
                    old(self).applied_selection,
                ) {
                    old(self).applied_selection
                } else {
                    *selection
                },
                ..*old(self)
            }),
    {
        if selections_equal(selection, &self.applied_selection) {
            return Vec::new();
        }
        match selection {
            Some(sel) => {
                self.applied_selection = Some(sel.clone());
                apply_selection(sel, vfo, locked)
            },
            None => {
                self.applied_selection = None;
                Vec::new()
            },
        }
    }

    /// Takes up the phase of the contact engine. A contact that has just been completed is
    /// deselected, once; the transmit lane stays.
    pub fn observe_phase(&mut self, phase: QsoPhase) -> (r: Vec<Action>)
        ensures
            r@ == (if phase == QsoPhase::Complete && old(self).prev_phase != Some(
                QsoPhase::Complete,
            ) {
                seq![Action::Select { target: None, context: None }]
            } else {
                Seq::<Action>::empty()
            }),
            final(self).resume == (if r@.len() > 0 {
                None
            } else {
                old(self).resume
            }),
            final(self).prev_phase == Some(phase),
            *final(self) == (Waterfall {
                resume: final(self).resume,
                prev_phase: final(self).prev_phase,
                ..*old(self)
            }),
    {
        let mut out: Vec<Action> = Vec::new();
        let before: bool = match self.prev_phase {
            Some(p) => p == QsoPhase::Complete,
            None => false,
        };
        if phase == QsoPhase::Complete && !before {
            out.push(Action::Select { target: None, context: None });
            self.resume = None;
        }
        self.prev_phase = Some(phase);
        out
    }

    /// Takes a click on the waterslide: what was hit is selected.
    pub fn observe_click(&mut self, click: WsClick) -> (r: Vec<Action>)
        ensures
            r@ == seq![
                Action::Select {
                    target: click.target,
                    context: Some(SelectionContext::Passband(click.offset)),
                },
            ],
            final(self).resume == (match (click.target, click.resume) {
                (Some(t), Some((m, snr))) => Some((t, m, snr)),
                _ => None,
            }),
            *final(self) == (Waterfall { resume: final(self).resume, ..*old(self) }),
    {
        let mut out: Vec<Action> = Vec::new();
        self.resume = match (&click.target, click.resume) {
            (Some(t), Some((m, snr))) => Some((t.clone(), m, snr)),
            _ => None,
        };
        out.push(
            Action::Select {
                target: click.target,
                context: Some(SelectionContext::Passband(click.offset)),
            },
        );
        out
    }

    /// Takes the CLEAR QSY key: nothing stays selected and the clearest lane is taken, unless a
    /// contact is under way or no lane is clear.
    pub fn clear_clicked(&mut self, phase: QsoPhase, clear_lane: Option<OffsetHz>) -> (r: Vec<
        Action,
    >)
        ensures
            r@ == (match clear_lane {
                Some(lane) => if phase == QsoPhase::Idle {
                    seq![
                        Action::Select {
                            target: None,
                            context: Some(SelectionContext::Passband(lane)),
                        },
                    ]
                } else {
                    Seq::<Action>::empty()
                },
                None => Seq::<Action>::empty(),
            }),
            *final(self) == (Waterfall {
                resume: if phase == QsoPhase::Idle && clear_lane is Some {
                    None
                } else {
                    old(self).resume
                },
                ..*old(self)
            }),
    {
        let mut out: Vec<Action> = Vec::new();
        if phase == QsoPhase::Idle {
            if let Some(lane) = clear_lane {
                out.push(
                    Action::Select {
                        target: None,
                        context: Some(SelectionContext::Passband(lane)),
                    },
                );
                self.resume = None;
            }
        }
        out
    }

    /// Takes the button or Enter: a command is carried out, else the engine is started or
    /// stopped. Nothing happens while the scanner runs.
    pub fn activate(&mut self, s: &Situation) -> (r: Vec<Action>)
        requires
            old(self).wf(),
        ensures
            final(self).wf(),
            s.scanning ==> r@.len() == 0 && *final(self) == *old(self),
            !s.scanning ==> !final(self).send.entering && final(self).send.buf@ == (if old(
                self,
            ).send.entering {
                Seq::<char>::empty()
            } else {
                old(self).send.buf@
            }),
            !s.scanning ==> r@ == (if old(self).send.entering {
                match crate::send::command_of(old(self).send.buf@, s.mhz) {
                    Some(cmd) => command_actions(cmd, s.mode, false, s.clear_lane),
                    None => Seq::empty(),
                }
            } else {
                toggle_actions(s.call_set, s.active, *s.target, old(self).resume)
            }),
            !s.scanning && !old(self).send.entering && s.call_set && !s.active && *s.target is Some
                && panel_laws::hint_is_for(old(self).resume, s.target->Some_0) ==> r@ == seq![
                Action::Resume {
                    target: s.target->Some_0,
                    message: old(self).resume->Some_0.1,
                    snr: old(self).resume->Some_0.2,
                },
            ],
            final(self).resume == (if !s.scanning && old(self).send.entering
                && crate::send::command_of(old(self).send.buf@, s.mhz) == Some(Command::ClearQsy)
                && s.clear_lane is Some {
                None
            } else {
                old(self).resume
            }),
            *final(self) == (Waterfall {
                send: final(self).send,
                resume: final(self).resume,
                ..*old(self)
            }),
    {
        let mut out: Vec<Action> = Vec::new();
        if s.scanning {
            return out;
        }
        match self.send.activate(s.mhz) {
            Activation::Command(cmd) => {
                match cmd {
                    Command::ClearQsy => {
                        if let Some(off) = s.clear_lane {
                            out.push(
                                Action::Select {
                                    target: None,
                                    context: Some(SelectionContext::Passband(off)),
                                },
                            );
                            self.resume = None;
                        }
                    },
                    Command::Scan => {
                        out.push(Action::StartScan);
                    },
                    Command::SetFrequency(mhz) => {
                        out.push(Action::SetFreqMhz(mhz));
                    },
                    Command::SetBand(band) => {
                        let mode: OverAirMode = match s.mode {
                            Some(m) => m,
                            None => OverAirMode::Ft8,
                        };
                        if let Some(hz) = calling_freq_hz(band, mode) {
                            out.push(Action::SetFreq(hz));
                        }
                    },
                }
            },
            Activation::Toggle => {
                if s.call_set {
                    if s.active {
                        out.push(Action::Abort);
                    } else {
                        match s.target {
                            Some(t) => {
                                let mut mine: bool = false;
                                if let Some((hint, message, snr)) = &self.resume {
                                    if refs_equal(hint, t) {
                                        out.push(
                                            Action::Resume {
                                                target: t.clone(),
                                                message: message.clone(),
                                                snr: *snr,
                                            },
                                        );
                                        mine = true;
                                    }
                                }
                                if !mine {
                                    out.push(Action::Answer(t.clone()));
                                }
                            },
                            None => {
                                out.push(Action::CallCq);
                            },
                        }
                    }
                }
            },
            Activation::Nothing => {},
        }
        out
    }
}

/// The mode on the air of a protocol.
pub open spec fn mode_of(p: Protocol) -> OverAirMode {
    match p {
        Protocol::Ft8 => OverAirMode::Ft8,
        Protocol::Ft4 => OverAirMode::Ft4,
    }
}

/// The protocol that a click on the two mode keys changes to: none where the one that was
/// clicked is on already.
pub open spec fn mode_change(proto: Protocol, ft8: bool, ft4: bool) -> Option<Protocol> {
    if ft8 && proto != Protocol::Ft8 {
        Some(Protocol::Ft8)
    } else if ft4 && proto != Protocol::Ft4 {
        Some(Protocol::Ft4)
    } else {
        None
    }
}

/// The actions of a change of protocol: the dial follows to the calling frequency of the
/// new mode on the band that it is on.
pub open spec fn mode_actions(change: Option<Protocol>, vfo: Option<u64>) -> Seq<Action> {
    match change {
        Some(p) => {
            let tune = match vfo {
                Some(hz) => match crate::types::band_at(hz as int) {
                    Some(b) => crate::send::calling_freq(b, mode_of(p)),
                    None => None,
                },
                None => None,
            };
            match tune {
                Some(hz) => seq![Action::SetProtocol(p), Action::SetFreq(hz)],
                None => seq![Action::SetProtocol(p)],
            }
        },
        None => Seq::empty(),
    }
}

/// Takes a click on the two mode keys.
pub fn mode_clicked(proto: Protocol, ft8: bool, ft4: bool, vfo: Option<u64>) -> (r: Vec<Action>)
    ensures
        r@ == mode_actions(mode_change(proto, ft8, ft4), vfo),
{
    let mut out: Vec<Action> = Vec::new();
    let change: Option<Protocol> = if ft8 && proto != Protocol::Ft8 {
        Some(Protocol::Ft8)
    } else if ft4 && proto != Protocol::Ft4 {
        Some(Protocol::Ft4)
    } else {
        None
    };
    if let Some(p) = change {
        out.push(Action::SetProtocol(p));
        let mode: OverAirMode = match p {
            Protocol::Ft8 => OverAirMode::Ft8,
            Protocol::Ft4 => OverAirMode::Ft4,
        };
        if let Some(hz) = vfo {
            if let Some(b) = Band::from_hz(AbsHz(hz)) {
                if let Some(to) = calling_freq_hz(b, mode) {
                    out.push(Action::SetFreq(to));
                }
            }
        }
    }
    out
}

/// A change of protocol stays on its band.
pub proof fn law_mode_change_keeps_band(p: Protocol, vfo: u64)
    requires
        mode_actions(Some(p), Some(vfo)).len() == 2,
    ensures
        crate::types::band_at(mode_actions(Some(p), Some(vfo))[1]->SetFreq_0 as int)
            == crate::types::band_at(vfo as int),
{
    let b = crate::types::band_at(vfo as int)->Some_0;
    crate::send::law_calling_freq_in_band(b, mode_of(p));
}

/// The last slot boundary at or before `now`, counted from the epoch; before the epoch,
/// the next one.
pub open spec fn boundary(now: int, slot: int) -> int {
    if slot <= 0 {
        now
    } else if now >= 0 {
        now / slot * slot
    } else {
        -((-now) / slot * slot)
    }
}

/// The last slot boundary.
pub fn slot_boundary(now_ms: i64, slot_ms: i64) -> (r: i64)
    requires
        now_ms > i64::MIN,
    ensures
        r == boundary(now_ms as int, slot_ms as int),
        now_ms >= 0 ==> 0 <= r <= now_ms,
        now_ms < 0 ==> now_ms <= r <= 0,
{
    if slot_ms <= 0 {
        return now_ms;
    }
    let back: bool = now_ms < 0;
    let n: u64 = if back {
        (-now_ms) as u64
    } else {
        now_ms as u64
    };
    let m: u64 = slot_ms as u64;
    let q: u64 = n / m;
    assert(0 <= q * m <= n) by (nonlinear_arith)
        requires
            q == n / m,
            m > 0,
    ;
    let whole: u64 = q * m;
    if back {
        -(whole as i64)
    } else {
        whole as i64
    }
}

/// Whether two configurations are the same.
pub open spec fn same_hardware(a: HardwareConfig, b: HardwareConfig) -> bool {
    &&& opt(a.audio_input) == opt(b.audio_input)
    &&& opt(a.audio_output) == opt(b.audio_output)
    &&& a.protocol == b.protocol
    &&& opt(a.serial.port) == opt(b.serial.port)
    &&& opt(a.serial.usb_serial) == opt(b.serial.usb_serial)
    &&& a.serial.usb_vid == b.serial.usb_vid
    &&& a.serial.usb_pid == b.serial.usb_pid
    &&& a.serial.baud == b.serial.baud
    &&& a.serial.profile == b.serial.profile
    &&& a.serial.autodetect == b.serial.autodetect
}

/// Whether two optional texts are the same.
fn same_opt(a: &Option<String>, b: &Option<String>) -> (r: bool)
    ensures
        r == (opt(*a) == opt(*b)),
{
    match (a, b) {
        (Some(x), Some(y)) => same_str(x.as_str(), y.as_str()),
        (None, None) => true,
        _ => false,
    }
}

/// Whether two optional numbers are the same.
fn same_number(a: Option<u16>, b: Option<u16>) -> (r: bool)
    ensures
        r == (a == b),
{
    match (a, b) {
        (Some(x), Some(y)) => x == y,
        (None, None) => true,
        _ => false,
    }
}

/// Whether two configurations are the same.
pub fn hardware_equal(a: &HardwareConfig, b: &HardwareConfig) -> (r: bool)
    ensures
        r == same_hardware(*a, *b),
{
    same_opt(&a.audio_input, &b.audio_input) && same_opt(&a.audio_output, &b.audio_output)
        && a.protocol == b.protocol && same_opt(&a.serial.port, &b.serial.port) && same_opt(
        &a.serial.usb_serial,
        &b.serial.usb_serial,
    ) && same_number(a.serial.usb_vid, b.serial.usb_vid) && same_number(
        a.serial.usb_pid,
        b.serial.usb_pid,
    ) && a.serial.baud == b.serial.baud && a.serial.profile == b.serial.profile
        && a.serial.autodetect == b.serial.autodetect
}

/// A station on the network that told us where it works.
pub struct Peer {
    pub station: String,
    /// The call that it works.
    pub call: Option<String>,
    pub band: Band,
    pub offset: OffsetHz,
    /// How long ago it was last heard, in milliseconds.
    pub age_ms: u64,
}

/// A mark for a station on the network.
pub struct PeerTick {
    pub offset: OffsetHz,
    pub label: String,
}

/// How long a station on the network is shown after it was last heard, in milliseconds.
pub const PEER_STALE_MS: u64 = 30_000;

/// Whether a station on the network is shown: it works on our band, and was heard not too
/// long ago.
pub open spec fn peer_shown(p: Peer, band: Option<Band>) -> bool {
    band == Some(p.band) && p.age_ms <= PEER_STALE_MS
}

/// The label of a station on the network: its name, and the call that it works.
pub open spec fn peer_label(p: Peer) -> Seq<char> {
    match p.call {
        Some(c) => p.station@ + seq![' ', '\u{00B7}', ' '] + c@,
        None => p.station@,
    }
}

/// The marks for those of the first `n` stations that are shown.
pub open spec fn ticks(ps: Seq<Peer>, n: int, band: Option<Band>) -> Seq<(OffsetHz, Seq<char>)>
    decreases n,
{
    if n <= 0 {
        Seq::empty()
    } else if peer_shown(ps[n - 1], band) {
        ticks(ps, n - 1, band).push((ps[n - 1].offset, peer_label(ps[n - 1])))
    } else {
        ticks(ps, n - 1, band)
    }
}

/// What the marks say.
pub open spec fn tick_views(v: Seq<PeerTick>) -> Seq<(OffsetHz, Seq<char>)> {
    v.map_values(|t: PeerTick| (t.offset, t.label@))
}

/// The place of an offset in the total order of 32-bit floats: as the numbers are ordered,
/// the negative zero before the positive one, and what is no number at the two ends.
pub open spec fn rank(o: OffsetHz) -> int {
    if o.0 < 0x8000_0000 {
        o.0 as int
    } else {
        0x7FFF_FFFF - o.0
    }
}

/// The place of an offset in the total order of 32-bit floats.
fn rank_of(o: OffsetHz) -> (r: i64)
    ensures
        r == rank(o),
{
    if o.0 < 0x8000_0000 {
        o.0 as i64
    } else {
        0x7FFF_FFFF - o.0 as i64
    }
}

/// Whether marks stand from the highest offset to the lowest.
pub open spec fn descending(v: Seq<(OffsetHz, Seq<char>)>) -> bool {
    forall|i: int, j: int|
        0 <= i <= j < v.len() ==> rank((#[trigger] v[i]).0) >= rank((#[trigger] v[j]).0)
}

/// The marks at one place of the order, in the order in which they come.
pub open spec fn at_rank(v: Seq<(OffsetHz, Seq<char>)>, k: int) -> Seq<(OffsetHz, Seq<char>)> {
    v.filter(|t: (OffsetHz, Seq<char>)| rank(t.0) == k)
}

/// A mark behind others that are not lower, before others that are lower, is the last at
/// its place of the order, and leaves the others as they are.
proof fn lemma_at_rank(
    a: Seq<(OffsetHz, Seq<char>)>,
    b: Seq<(OffsetHz, Seq<char>)>,
    t: (OffsetHz, Seq<char>),
    k: int,
)
    requires
        forall|i: int| 0 <= i < b.len() ==> rank((#[trigger] b[i]).0) < rank(t.0),
    ensures
        at_rank(a.push(t) + b, k) == at_rank((a + b).push(t), k),
    decreases b.len(),
{
    lemma_rank_push(a + b, t, k);
    if b.len() == 0 {
        assert(a + b == a);
        assert(a.push(t) + b == a.push(t));
    } else {
        let c = b.drop_last();
        let last = b[b.len() - 1];
        assert forall|i: int| 0 <= i < c.len() implies rank((#[trigger] c[i]).0) < rank(t.0) by {
            assert(c[i] == b[i]);
        }
        lemma_at_rank(a, c, t, k);
        lemma_rank_push(a + c, t, k);
        assert(a.push(t) + b == (a.push(t) + c).push(last));
        lemma_rank_push(a.push(t) + c, last, k);
        assert(a + b == (a + c).push(last));
        lemma_rank_push(a + c, last, k);
        assert(rank(last.0) < rank(t.0));
    }
}

/// One mark more is the last at its place of the order.
proof fn lemma_rank_push(v: Seq<(OffsetHz, Seq<char>)>, t: (OffsetHz, Seq<char>), k: int)
    ensures
        at_rank(v.push(t), k) == (if rank(t.0) == k {
            at_rank(v, k).push(t)
        } else {
            at_rank(v, k)
        }),
{
    reveal(Seq::filter);
    assert(v.push(t).drop_last() == v);
    assert(v.push(t).last() == t);
}

/// The place of a mark among others that are in order: behind those that are not lower.
fn tick_place(v: &Vec<PeerTick>, o: OffsetHz) -> (n: usize)
    requires
        descending(tick_views(v@)),
    ensures
        n <= v@.len(),
        forall|i: int| 0 <= i < n ==> rank((#[trigger] tick_views(v@)[i]).0) >= rank(o),
        forall|i: int| n <= i < v@.len() ==> rank((#[trigger] tick_views(v@)[i]).0) < rank(o),
{
    let mut n: usize = v.len();
    while n > 0 && rank_of(v[n - 1].offset) < rank_of(o)
        invariant
            n <= v@.len(),
            forall|i: int| n <= i < v@.len() ==> rank((#[trigger] tick_views(v@)[i]).0) < rank(o),
        decreases n,
    {
        assert(tick_views(v@)[n - 1].0 == v@[n - 1].offset);
        n = n - 1;
    }
    proof {
        if n > 0 {
            assert(tick_views(v@)[n - 1].0 == v@[n - 1].offset);
        }
    }
    n
}

/// The marks for the stations on the network that are shown, from the highest offset to
/// the lowest; those at the same offset in the order of the stations.
pub fn peer_ticks(peers: &Vec<Peer>, band: Option<Band>) -> (r: Vec<PeerTick>)
    ensures
        descending(tick_views(r@)),
        tick_views(r@).to_multiset() == ticks(peers@, peers@.len() as int, band).to_multiset(),
        forall|k: int| #[trigger]
            at_rank(tick_views(r@), k) == at_rank(ticks(peers@, peers@.len() as int, band), k),
{
    let mut r: Vec<PeerTick> = Vec::new();
    let mut i: usize = 0;
    assert(tick_views(r@) == ticks(peers@, 0, band));
    while i < peers.len()
        invariant
            i <= peers.len(),
            descending(tick_views(r@)),
            tick_views(r@).to_multiset() == ticks(peers@, i as int, band).to_multiset(),
            forall|k: int| #[trigger]
                at_rank(tick_views(r@), k) == at_rank(ticks(peers@, i as int, band), k),
        decreases peers.len() - i,
    {
        let p: &Peer = &peers[i];
        let here: bool = match band {
            Some(b) => b == p.band,
            None => false,
        };
        if here && p.age_ms <= PEER_STALE_MS {
            let mut v: Vec<char> = chars_of(p.station.as_str());
            if let Some(c) = &p.call {
                v.push(' ');
                v.push('\u{00B7}');
                v.push(' ');
                append_str(&mut v, c.as_str());
            }
            assert(v@ == peer_label(*p));
            let ghost done = tick_views(r@);
            let ghost t = (p.offset, peer_label(*p));
            let ghost all = ticks(peers@, i as int, band);
            let n: usize = tick_place(&r, p.offset);
            r.insert(n, PeerTick { offset: p.offset, label: string_of(&v) });
            proof {
                broadcast use vstd::seq_lib::group_to_multiset_ensures;

                let now = tick_views(r@);
                let a = done.take(n as int);
                let b = done.skip(n as int);
                assert(now == done.insert(n as int, t));
                vstd::seq_lib::to_multiset_insert(done, n as int, t);
                assert(ticks(peers@, i + 1, band) == all.push(t));
                assert(now.to_multiset() == all.push(t).to_multiset());
                assert forall|x: int, y: int| 0 <= x <= y < now.len() implies rank(
                    (#[trigger] now[x]).0,
                ) >= rank((#[trigger] now[y]).0) by {
                    let from = |z: int|
                        if z < n {
                            z
                        } else {
                            z - 1
                        };
                    if x != n {
                        assert(now[x] == done[from(x)]);
                    }
                    if y != n {
                        assert(now[y] == done[from(y)]);
                    }
                }
                assert forall|k: int| #[trigger] at_rank(now, k) == at_rank(all.push(t), k) by {
                    assert(now == a.push(t) + b);
                    assert(a + b == done);
                    assert forall|z: int| 0 <= z < b.len() implies rank((#[trigger] b[z]).0)
                        < rank(t.0) by {
                        assert(b[z] == done[z + n]);
                    }
                    lemma_at_rank(a, b, t, k);
                    assert(at_rank(done, k) == at_rank(all, k));
                    lemma_rank_push(done, t, k);
                    lemma_rank_push(all, t, k);
                }
            }
        }
        i = i + 1;
    }
    r
}

impl Waterfall {
    /// Deals the digits out where a new slot has begun, and finds the decodes that they
    /// stand for.
    pub fn tick(
        &mut self,
        now_ms: i64,
        protocol: Protocol,
        decodes: &Vec<Decode>,
        worked: &Vec<String>,
    )
        requires
            old(self).wf(),
            i64::MIN + 30_000 < now_ms,
        ensures
            final(self).wf(),
            ({
                let slot = crate::types::slot_len(protocol);
                let now = boundary(now_ms as int, slot);
                &&& final(self).last_assigned_slot_ms == now
                &&& final(self).cq_assignments@ == (if now == old(self).last_assigned_slot_ms {
                    old(self).cq_assignments@
                } else {
                    send_row::redealt(
                        old(self).cq_assignments@,
                        decodes@,
                        send_row::texts(worked@),
                        now,
                        slot,
                    )
                })
            }),
            forall|k: int|
                0 <= k < send_row::DIGITS ==> #[trigger] final(self).cq_shortcuts@[k]
                    == send_row::under_digit(final(self).cq_assignments@, decodes@, k),
            *final(self) == (Waterfall {
                last_assigned_slot_ms: final(self).last_assigned_slot_ms,
                cq_assignments: final(self).cq_assignments,
                cq_shortcuts: final(self).cq_shortcuts,
                ..*old(self)
            }),
    {
        let slot_ms: i64 = slot_period_ms(protocol);
        let now: i64 = slot_boundary(now_ms, slot_ms);
        if now != self.last_assigned_slot_ms {
            self.last_assigned_slot_ms = now;
            update_cq_assignments(&mut self.cq_assignments, decodes, worked, now, slot_ms);
        }
        self.cq_shortcuts = shortcuts(&self.cq_assignments, decodes);
    }

    /// Whether the engine is to be told where to move: once in each slot while it moves by
    /// itself.
    pub fn hop_due(&mut self, slot: Option<SlotId>) -> (r: bool)
        ensures
            r == (old(self).auto_hop && slot != old(self).last_hop_feed_slot),
            final(self).last_hop_feed_slot == (if r {
                slot
            } else {
                old(self).last_hop_feed_slot
            }),
            *final(self) == (Waterfall {
                last_hop_feed_slot: final(self).last_hop_feed_slot,
                ..*old(self)
            }),
    {
        if !self.auto_hop {
            return false;
        }
        let same: bool = match (slot, self.last_hop_feed_slot) {
            (Some(a), Some(b)) => a == b,
            (None, None) => true,
            _ => false,
        };
        if same {
            return false;
        }
        self.last_hop_feed_slot = slot;
        true
    }

    /// Locks the console: the settings that were edited since it was unlocked are returned
    /// where they differ from those in use, and the form is closed. `usb` is the identity
    /// of the port that the form has chosen.
    pub fn relock(&mut self, current: &HardwareConfig, usb: UsbIdentity) -> (r: Option<
        HardwareConfig,
    >)
        ensures
            !final(self).form.loaded,
            *final(self) == (Waterfall { form: final(self).form, ..*old(self) }),
            final(self).form == (ConfigForm { loaded: false, ..old(self).form }),
            r == (if old(self).form.loaded && !same_hardware(
                old(self).form.edited(usb),
                *current,
            ) {
                Some(old(self).form.edited(usb))
            } else {
                None
            }),
    {
        if !self.form.loaded {
            return None;
        }
        let edited: HardwareConfig = self.form.to_config(usb);
        self.form.loaded = false;
        if hardware_equal(&edited, current) {
            None
        } else {
            Some(edited)
        }
    }
}

/// Whether a call sign is set: it is more than space.
pub fn call_is_set(call: &str) -> (r: bool)
    ensures
        r == (crate::text::trim(call@).len() > 0),
{
    trimmed(&chars_of(call)).len() > 0
}

} // verus!
