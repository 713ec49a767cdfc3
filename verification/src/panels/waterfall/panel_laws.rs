//! What holds of the digital panel, whatever is pressed, selected and queued.

use vstd::prelude::*;

use super::{Action, Gate, KeyEvent, KeyFlags, PanelKey, Peer, TxOffset};
use crate::send::{Command, Mhz};
use crate::settings::HardwareConfig;
use crate::types::{
    AbsHz, Band, Callsign, Decode, DecodeContent, DecodeRef, OffsetHz, OverAirMode, ParsedMessage,
    Protocol, QsoPhase, Selection, SelectionContext, SlotId,
};

verus! {

/// Whether a hint to take a contact up belongs to a decode: it names the same slot, and the
/// same call letter for letter.
pub open spec fn hint_is_for(
    resume: Option<(DecodeRef, ParsedMessage, i8)>,
    t: DecodeRef,
) -> bool {
    match resume {
        Some((r, _, _)) => r.slot == t.slot && (match (r.call, t.call) {
            (Some(x), Some(y)) => x.0@ == y.0@,
            (None, None) => true,
            _ => false,
        }),
        None => false,
    }
}

/// With a call sign set, the engine idle and no command typed, Enter on a selected decode
/// does one thing. Where there is a hint for that very decode, the contact is taken up from
/// the hint's message and report; the station is answered from the start where, and only
/// where, there is none.
pub proof fn law_enter_takes_up_or_answers(
    t: DecodeRef,
    resume: Option<(DecodeRef, ParsedMessage, i8)>,
)
    ensures
        ({
            let acts = super::toggle_actions(true, false, Some(t), resume);
            &&& acts.len() == 1
            &&& hint_is_for(resume, t) ==> {
                &&& acts[0] is Resume
                &&& acts[0]->Resume_target == t
                &&& acts[0]->Resume_message == resume->Some_0.1
                &&& acts[0]->Resume_snr == resume->Some_0.2
            }
            &&& acts[0] is Answer <==> !hint_is_for(resume, t)
            &&& acts[0] is Answer ==> acts[0]->Answer_0 == t
        }),
{
}

/// A click on the line of a decode leaves a hint for that decode, and Enter then takes the
/// contact up from the line that was clicked; a hint for another slot or another call is
/// never used.
pub proof fn law_hint_is_for_its_own_decode(
    t: DecodeRef,
    other: DecodeRef,
    message: ParsedMessage,
    snr: i8,
)
    ensures
        super::toggle_actions(true, false, Some(t), Some((t, message, snr)))
            == seq![Action::Resume { target: t, message, snr }],
        other.slot != t.slot ==> super::toggle_actions(
            true,
            false,
            Some(other),
            Some((t, message, snr)),
        ) == seq![Action::Answer(other)],
        other.call is Some && t.call is Some && other.call->Some_0.0@ != t.call->Some_0.0@
            ==> super::toggle_actions(true, false, Some(other), Some((t, message, snr)))
            == seq![Action::Answer(other)],
{
}

/// With a call sign set, Enter stops an engine that is at work, whatever is selected; and
/// with nothing selected it calls CQ, whatever hint is left over.
pub proof fn law_enter_stops_or_calls(
    target: Option<DecodeRef>,
    resume: Option<(DecodeRef, ParsedMessage, i8)>,
)
    ensures
        super::toggle_actions(true, true, target, resume) == seq![Action::Abort],
        super::toggle_actions(true, false, None, resume) == seq![Action::CallCq],
        super::toggle_actions(false, true, target, resume).len() == 0,
        super::toggle_actions(false, false, target, resume).len() == 0,
{
}

/// What a typed command does: to move to the clear lane selects that lane and no station,
/// where there is one; to scan turns the scanner over; to tune hands the number on as it is;
/// and a band is tuned to its calling frequency, in FT8 where no mode is known.
pub proof fn law_commands_do_what_they_say(
    mode: Option<OverAirMode>,
    scanning: bool,
    clear_lane: Option<OffsetHz>,
    mhz: Mhz,
    band: Band,
)
    ensures
        ({
            let acts = super::command_actions(Command::ClearQsy, mode, scanning, clear_lane);
            match clear_lane {
                Some(off) => acts == seq![
                    Action::Select { target: None, context: Some(SelectionContext::Passband(off)) },
                ],
                None => acts.len() == 0,
            }
        }),
        super::command_actions(Command::Scan, mode, false, clear_lane) == seq![Action::StartScan],
        super::command_actions(Command::Scan, mode, true, clear_lane) == seq![Action::CancelScan],
        super::command_actions(Command::SetFrequency(mhz), mode, scanning, clear_lane)
            == seq![Action::SetFreqMhz(mhz)],
        ({
            let acts = super::command_actions(
                Command::SetBand(band),
                mode,
                scanning,
                clear_lane,
            );
            &&& acts.len() <= 1
            &&& acts.len() == 1 ==> acts[0] is SetFreq && crate::types::in_band(
                acts[0]->SetFreq_0 as int,
                band,
            )
            &&& mode == Some(OverAirMode::Ft8) || mode is None ==> acts.len() == 1
            &&& acts == super::command_actions(
                Command::SetBand(band),
                Some(
                    match mode {
                        Some(m) => m,
                        None => OverAirMode::Ft8,
                    },
                ),
                scanning,
                clear_lane,
            )
        }),
{
}

/// Tab turns the lock over, S the scanner, and Q selects the clear lane, each only while no
/// command is typed and no modifier is held; all but S, which must stop a scan, only while
/// the shortcuts are live.
pub proof fn law_shortcut_keys(
    g: Gate,
    cuts: Seq<Option<Decode>>,
    clear_lane: Option<OffsetHz>,
    key: PanelKey,
)
    ensures
        ({
            let tab = KeyEvent::Key { key: PanelKey::Tab, modified: false };
            let q = KeyEvent::Key { key: PanelKey::Q, modified: false };
            let s = KeyEvent::Key { key: PanelKey::S, modified: false };
            let held = KeyEvent::Key { key, modified: true };
            &&& super::key_actions(tab, false, g, cuts, clear_lane) == (if g.live {
                seq![Action::SetOffsetLock(!g.locked)]
            } else {
                Seq::empty()
            })
            &&& g.live && clear_lane is Some ==> super::key_actions(q, false, g, cuts, clear_lane)
                == seq![
                Action::Select {
                    target: None,
                    context: Some(SelectionContext::Passband(clear_lane->Some_0)),
                },
            ]
            &&& !g.live || clear_lane is None ==> super::key_actions(
                q,
                false,
                g,
                cuts,
                clear_lane,
            ).len() == 0
            &&& super::key_actions(s, false, g, cuts, clear_lane) == (if g.scanning {
                seq![Action::CancelScan]
            } else if g.live {
                seq![Action::StartScan]
            } else {
                Seq::empty()
            })
            &&& key != PanelKey::Escape ==> super::key_actions(
                held,
                false,
                g,
                cuts,
                clear_lane,
            ).len() == 0
        }),
{
}

/// A digit selects the station under it, on its own lane, and answers it, in this order;
/// and it takes away the hint of another contact. Under an empty digit nothing happens.
pub proof fn law_digit_answers(
    g: Gate,
    cuts: Seq<Option<Decode>>,
    clear_lane: Option<OffsetHz>,
    i: int,
    c: char,
    call: String,
    slot: SlotId,
)
    requires
        g.live,
        cuts.len() == 10,
        0 <= i < 10,
        c as int == (if i == 9 {
            '0' as int
        } else {
            '1' as int + i
        }),
    ensures
        ({
            let ev = KeyEvent::Key { key: PanelKey::Digit(c), modified: false };
            let acts = super::key_actions(ev, false, g, cuts, clear_lane);
            let forgets = super::key_forgets(ev, false, g, cuts, clear_lane);
            &&& cuts[i] is None ==> acts.len() == 0 && !forgets
            &&& cuts[i] matches Some(d) ==> (super::render::station(d) == Some((call, slot)) ==> {
                let r = DecodeRef { slot, call: Some(Callsign(call)) };
                &&& acts == seq![
                    Action::Select {
                        target: Some(r),
                        context: Some(SelectionContext::Passband(d.offset)),
                    },
                    Action::Answer(r),
                ]
                &&& forgets
            })
        }),
{
}

/// Only a key that selects something else takes the hint of a contact away: Enter, Tab, S
/// and the keys of the send box leave it.
pub proof fn law_other_keys_keep_the_hint(
    g: Gate,
    cuts: Seq<Option<Decode>>,
    clear_lane: Option<OffsetHz>,
    ev: KeyEvent,
    entering: bool,
)
    requires
        super::key_forgets(ev, entering, g, cuts, clear_lane),
    ensures
        exists|i: int|
            0 <= i < super::key_actions(ev, entering, g, cuts, clear_lane).len() && (
            #[trigger] super::key_actions(ev, entering, g, cuts, clear_lane)[i]) is Select,
{
    assert(super::key_actions(ev, entering, g, cuts, clear_lane)[0] is Select);
}

/// Enter is remembered until the frame ends, and so is the tab key; a key that was taken as
/// a shortcut is not typed as well.
pub proof fn law_key_flags(g: Gate, f: KeyFlags, ev: KeyEvent, entering: bool, buf: Seq<char>)
    ensures
        ({
            let n = super::key_flags(ev, entering, g, f);
            &&& f.activate ==> n.activate
            &&& f.tab ==> n.tab
            &&& f.consumed ==> n.consumed
            &&& n.activate && !f.activate ==> (ev matches KeyEvent::Key { key, .. } && key
                == PanelKey::Enter)
            &&& (ev matches KeyEvent::Key { key, .. } && key == PanelKey::Enter) ==> n.activate
                && n.consumed == f.consumed
            &&& n.tab && !f.tab ==> (ev matches KeyEvent::Key { key, .. } && key == PanelKey::Tab
                && n.consumed)
            &&& f.consumed && ev is Text ==> super::key_box(ev, entering, buf, g, f) == (
                entering,
                buf,
            )
        }),
{
}

/// In the send box Backspace takes the last character of a command back, and the command
/// ends with its mark; Escape gives a command up at once. Outside a command neither changes
/// anything.
pub proof fn law_editing_keys(g: Gate, f: KeyFlags, buf: Seq<char>, c: char, modified: bool)
    ensures
        ({
            let back = KeyEvent::Key { key: PanelKey::Backspace, modified };
            let esc = KeyEvent::Key { key: PanelKey::Escape, modified };
            &&& buf.len() > 0 ==> super::key_box(back, true, buf.push(c), g, f) == (true, buf)
            &&& super::key_box(back, true, seq![c], g, f) == (false, Seq::<char>::empty())
            &&& super::key_box(esc, true, buf, g, f) == (false, Seq::<char>::empty())
            &&& super::key_box(back, false, buf, g, f) == (false, buf)
            &&& super::key_box(esc, false, buf, g, f) == (false, buf)
        }),
{
    assert(buf.push(c).drop_last() == buf);
}

/// Text goes into the send box as it is typed, unless its key was taken as a shortcut; every
/// other key leaves the box as it is.
pub proof fn law_text_is_typed(
    g: Gate,
    f: KeyFlags,
    entering: bool,
    buf: Seq<char>,
    t: String,
    key: PanelKey,
    modified: bool,
)
    ensures
        !f.consumed ==> super::key_box(KeyEvent::Text(t), entering, buf, g, f)
            == crate::send::typed(entering, buf, t@),
        key != PanelKey::Backspace && key != PanelKey::Escape ==> super::key_box(
            KeyEvent::Key { key, modified },
            entering,
            buf,
            g,
            f,
        ) == (entering, buf),
{
}

/// Escape stops the scanner where no command is being typed.
pub proof fn law_escape_stops_the_scan(
    g: Gate,
    cuts: Seq<Option<Decode>>,
    clear_lane: Option<OffsetHz>,
    modified: bool,
    entering: bool,
)
    ensures
        super::key_actions(
            KeyEvent::Key { key: PanelKey::Escape, modified },
            entering,
            g,
            cuts,
            clear_lane,
        ) == (if g.scanning && !entering {
            seq![Action::CancelScan]
        } else {
            Seq::empty()
        }),
{
}

/// What is held while a message is on the air: the message that was queued when the
/// transmission began, or that was queued just before, where the engine has already queued
/// none. Off the air nothing is held.
pub proof fn law_what_is_held(
    hold: Option<Seq<char>>,
    next: Option<Seq<char>>,
    last: Option<Seq<char>>,
    m: Seq<char>,
)
    ensures
        super::held(false, hold, next, last) is None,
        super::held(true, Some(m), next, last) == Some(m),
        super::held(true, None, Some(m), last) == Some(m),
        super::held(true, None, None, Some(m)) == Some(m),
        super::held(true, None, None, None) is None,
{
}

/// The send box never hides a command that is being typed, shows what is on the air before
/// what is queued, and shows no message without a call sign.
pub proof fn law_send_box_shows(
    buf: Seq<char>,
    call_set: bool,
    hold: Option<Seq<char>>,
    next: Option<Seq<char>>,
    m: Seq<char>,
)
    ensures
        super::box_text(true, buf, call_set, hold, next) == buf,
        super::box_text(false, buf, true, Some(m), next) == m,
        super::box_text(false, buf, true, None, Some(m)) == m,
        super::box_text(false, buf, true, None, None) == buf,
        super::box_text(false, buf, false, hold, next) == super::box_text(
            false,
            m,
            false,
            None,
            None,
        ),
{
}

/// The dial is shown in megahertz, kilohertz and tens of hertz. A rig that has not reported
/// is shown at 14.074 MHz, and one at fault without any digits.
pub proof fn law_dial_text(mhz: nat, khz: nat, tens: nat, hertz: nat, vfo: Option<u64>)
    requires
        khz < 1_000,
        tens < 100,
        hertz < 10,
        1_000_000 * mhz + 1_000 * khz + 10 * tens + hertz <= u64::MAX,
    ensures
        super::dial_text(
            false,
            Some((1_000_000 * mhz + 1_000 * khz + 10 * tens + hertz) as u64),
        ) == crate::numbers::dec(mhz) + seq!['.'] + crate::numbers::padded(khz, 3) + seq!['.']
            + crate::numbers::padded(tens, 2),
        super::dial_text(false, None) == super::dial_text(false, Some(14_074_000)),
        super::dial_text(true, vfo) == super::dial_text(true, None),
{
    let hz: nat = 1_000_000 * mhz + 1_000 * khz + 10 * tens + hertz;
    assert(hz / 1_000_000 == mhz);
    assert(hz % 1_000_000 == 1_000 * khz + 10 * tens + hertz);
    assert(hz % 1_000_000 / 1_000 == khz);
    assert(hz % 1_000 == 10 * tens + hertz);
    assert(hz % 1_000 / 10 == tens);
}

/// The tag on the selected lane ends with the call, and says of an engine that is armed or
/// at work something else than of one that is not.
pub proof fn law_tag_names_the_station(call: Seq<char>, a: QsoPhase, b: QsoPhase)
    ensures
        super::tag_of(call, a).len() >= call.len(),
        super::tag_of(call, a).skip(super::tag_of(call, a).len() - call.len()) == call,
        a == QsoPhase::Armed && b == QsoPhase::InExchange ==> super::tag_of(call, a)
            != super::tag_of(call, b),
        a == QsoPhase::Armed && (b == QsoPhase::Idle || b == QsoPhase::CallingCq || b
            == QsoPhase::Complete) ==> super::tag_of(call, a) != super::tag_of(call, b),
        a == QsoPhase::InExchange && (b == QsoPhase::Idle || b == QsoPhase::CallingCq || b
            == QsoPhase::Complete) ==> super::tag_of(call, a) != super::tag_of(call, b),
{
    reveal_strlit("ARMED ▸ ");
    reveal_strlit("WORKING ▸ ");
    reveal_strlit("▸ ");
    let t = super::tag_of(call, a);
    assert(t.skip(t.len() - call.len()) == call);
}

/// Two references are to the same decode exactly where slot and call agree; so each is the
/// same as itself, and the order does not matter.
pub proof fn law_same_decode(a: DecodeRef, b: DecodeRef)
    ensures
        super::same_ref(a, a),
        super::same_ref(a, b) == super::same_ref(b, a),
        super::same_ref(a, b) ==> a.slot == b.slot && (a.call is Some <==> b.call is Some),
        a.call is Some && b.call is Some ==> (super::same_ref(a, b) <==> a.slot == b.slot
            && a.call->Some_0.0@ == b.call->Some_0.0@),
        a.call is None && b.call is None ==> (super::same_ref(a, b) <==> a.slot == b.slot),
{
}

/// A selection is new where the station, the slot, the frequency or the kind of place is
/// another, and where something is selected that was not, or the other way round.
pub proof fn law_new_selection(a: Selection, b: Selection)
    ensures
        !super::same_selection(Some(a), None),
        !super::same_selection(None, Some(a)),
        super::same_selection(None, None),
        a.target is Some && b.target is None ==> !super::same_selection(Some(a), Some(b)),
        a.target is Some && b.target is Some && a.target->Some_0.slot != b.target->Some_0.slot
            ==> !super::same_selection(Some(a), Some(b)),
        a.context is Some && b.context is None ==> !super::same_selection(Some(a), Some(b)),
        (a.context matches Some(SelectionContext::AbsFreq(x)) && b.context matches Some(
            SelectionContext::AbsFreq(y),
        ) && x != y) ==> !super::same_selection(Some(a), Some(b)),
        (a.context matches Some(SelectionContext::AbsFreq(x)) && b.context matches Some(
            SelectionContext::Passband(y),
        )) ==> !super::same_selection(Some(a), Some(b)),
        (a.context matches Some(SelectionContext::AbsFreq(x)) && a == b) ==> super::same_selection(
            Some(a),
            Some(b),
        ),
        a.context is None && a == b ==> super::same_selection(Some(a), Some(b)),
        (a.context matches Some(SelectionContext::Passband(x)) && b.context matches Some(
            SelectionContext::Passband(y),
        ) && x.0 != y.0 && x.0 != 0 && x.0 != 0x8000_0000) ==> !super::same_selection(
            Some(a),
            Some(b),
        ),
        (a.context matches Some(SelectionContext::Passband(x)) && a == b && x.0 < 0x7F80_0000)
            ==> super::same_selection(Some(a), Some(b)),
        a.target is Some && b.target is Some && a.target->Some_0.call is Some
            && b.target->Some_0.call is Some && a.target->Some_0.call->Some_0.0@
            != b.target->Some_0.call->Some_0.0@ ==> !super::same_selection(Some(a), Some(b)),
{
}

/// A selected lane is taken as the transmit lane as it is, locked or not, and nothing else
/// happens. A selection without a place does nothing, and neither does a frequency on the
/// air while the dial is unknown.
pub proof fn law_lane_is_taken(
    target: Option<DecodeRef>,
    off: OffsetHz,
    abs: AbsHz,
    vfo: Option<u64>,
    locked: bool,
)
    ensures
        super::selection_actions(
            Selection { target, context: Some(SelectionContext::Passband(off)) },
            vfo,
            locked,
        ) == seq![Action::SetTxOffset(TxOffset::Lane(off))],
        super::selection_actions(Selection { target, context: None }, vfo, locked).len() == 0,
        super::selection_actions(
            Selection { target, context: Some(SelectionContext::AbsFreq(abs)) },
            None,
            locked,
        ).len() == 0,
{
}

/// A station that lies between 300 and 2500 Hz of audio is reached without touching the
/// dial; from any other the dial is tuned, so that it lies at 1500 Hz, unless the lane is
/// locked, when nothing happens.
pub proof fn law_dial_moves_only_where_it_must(
    target: Option<DecodeRef>,
    abs: AbsHz,
    v: u64,
    locked: bool,
)
    ensures
        ({
            let acts = super::selection_actions(
                Selection { target, context: Some(SelectionContext::AbsFreq(abs)) },
                Some(v),
                locked,
            );
            let near = v + 300 <= abs.0 && abs.0 <= v + 2_500;
            &&& near ==> acts == seq![
                Action::SetTxOffset(TxOffset::Whole((abs.0 - v) as u32)),
            ]
            &&& !near && locked ==> acts.len() == 0
            &&& !near && !locked ==> {
                &&& acts.len() == 2
                &&& acts[1] == Action::SetTxOffset(TxOffset::Whole(1_500))
                &&& acts[0] is SetFreq
                &&& abs.0 >= 1_500 ==> acts[0]->SetFreq_0 + 1_500 == abs.0
                &&& abs.0 < 1_500 ==> acts[0]->SetFreq_0 == 0
            }
        }),
{
}

/// A click on a mode key changes to that mode where it is not on already; a click on the
/// mode that is on does nothing.
pub proof fn law_mode_keys(proto: Protocol)
    ensures
        super::mode_change(proto, false, false) is None,
        super::mode_change(proto, proto == Protocol::Ft8, proto == Protocol::Ft4) is None,
        super::mode_change(Protocol::Ft4, true, false) == Some(Protocol::Ft8),
        super::mode_change(Protocol::Ft8, false, true) == Some(Protocol::Ft4),
{
}

/// A change of protocol is always carried out first. The dial follows only where it stands
/// in a band, and goes to the calling frequency of that band in the new mode.
pub proof fn law_mode_change_tunes(p: Protocol, vfo: u64)
    ensures
        super::mode_actions(None, Some(vfo)).len() == 0,
        super::mode_actions(Some(p), None) == seq![Action::SetProtocol(p)],
        ({
            let acts = super::mode_actions(Some(p), Some(vfo));
            &&& 1 <= acts.len() <= 2
            &&& acts[0] == Action::SetProtocol(p)
            &&& crate::types::band_at(vfo as int) is None ==> acts.len() == 1
            &&& p == Protocol::Ft8 && crate::types::band_at(vfo as int) is Some ==> acts.len() == 2
            &&& acts.len() == 2 ==> acts[1] is SetFreq && Some(acts[1]->SetFreq_0)
                == crate::send::calling_freq(
                crate::types::band_at(vfo as int)->Some_0,
                if p == Protocol::Ft8 {
                    OverAirMode::Ft8
                } else {
                    OverAirMode::Ft4
                },
            )
        }),
{
}

/// The slot boundary is a whole number of slots from the epoch, and the moment lies in the
/// slot that it begins; so all moments of one slot have one boundary.
pub proof fn law_slot_boundary(now: int, slot: int, n: int)
    requires
        now >= 0,
        slot > 0,
    ensures
        super::boundary(now, slot) % slot == 0,
        super::boundary(now, slot) <= now < super::boundary(now, slot) + slot,
        n >= 0 && n * slot <= now < (n + 1) * slot ==> super::boundary(now, slot) == n * slot,
{
    let q = now / slot;
    assert(q * slot <= now < q * slot + slot && (q * slot) % slot == 0) by (nonlinear_arith)
        requires
            q == now / slot,
            slot > 0,
    ;
    if n >= 0 && n * slot <= now < (n + 1) * slot {
        assert(n == q) by (nonlinear_arith)
            requires
                n * slot <= now < (n + 1) * slot,
                q * slot <= now < q * slot + slot,
                slot > 0,
        ;
    }
}

/// Two configurations are the same only where nothing that the operator can set differs.
pub proof fn law_hardware_change_is_seen(a: HardwareConfig, b: HardwareConfig)
    ensures
        super::same_hardware(a, a),
        super::same_hardware(a, b) == super::same_hardware(b, a),
        a.protocol != b.protocol || a.serial.baud != b.serial.baud || a.serial.profile
            != b.serial.profile || a.serial.autodetect != b.serial.autodetect || a.serial.usb_vid
            != b.serial.usb_vid || a.serial.usb_pid != b.serial.usb_pid ==> !super::same_hardware(
            a,
            b,
        ),
        a.audio_input is Some != b.audio_input is Some || a.audio_output is Some
            != b.audio_output is Some || a.serial.port is Some != b.serial.port is Some
            || a.serial.usb_serial is Some != b.serial.usb_serial is Some ==> !super::same_hardware(
            a,
            b,
        ),
        a.audio_input is Some && b.audio_input is Some && a.audio_input->Some_0@
            != b.audio_input->Some_0@ ==> !super::same_hardware(a, b),
        a.audio_output is Some && b.audio_output is Some && a.audio_output->Some_0@
            != b.audio_output->Some_0@ ==> !super::same_hardware(a, b),
        a.serial.port is Some && b.serial.port is Some && a.serial.port->Some_0@
            != b.serial.port->Some_0@ ==> !super::same_hardware(a, b),
        a.serial.usb_serial is Some && b.serial.usb_serial is Some && a.serial.usb_serial->Some_0@
            != b.serial.usb_serial->Some_0@ ==> !super::same_hardware(a, b),
{
}

/// The stations on the network that are marked are those on our band that were heard in the
/// last 30 seconds, each with its own lane, its name and the call that it works.
pub proof fn law_marked_peers(ps: Seq<Peer>, n: int, band: Option<Band>)
    requires
        0 <= n <= ps.len(),
    ensures
        super::ticks(ps, n, band) == ps.take(n).filter(
            |p: Peer| band == Some(p.band) && p.age_ms <= 30_000,
        ).map_values(|p: Peer| (p.offset, super::peer_label(p))),
    decreases n,
{
    reveal(Seq::filter);
    let test = |p: Peer| band == Some(p.band) && p.age_ms <= 30_000;
    let mark = |p: Peer| (p.offset, super::peer_label(p));
    if n > 0 {
        law_marked_peers(ps, n - 1, band);
        let t = ps.take(n);
        assert(t.drop_last() == ps.take(n - 1));
        assert(t.last() == ps[n - 1]);
        let f = ps.take(n - 1).filter(test);
        assert(f.push(ps[n - 1]).map_values(mark) == f.map_values(mark).push(mark(ps[n - 1])));
    } else {
        assert(ps.take(0).len() == 0);
    }
}

/// The label of a station on the network starts with its name; it is the name alone where
/// it works nobody, and else ends with the call that it works.
pub proof fn law_peer_label(p: Peer)
    ensures
        p.station@ == super::peer_label(p).take(p.station@.len() as int),
        p.call is None ==> super::peer_label(p) == p.station@,
        p.call matches Some(c) ==> super::peer_label(p).len() == p.station@.len() + 3 + c@.len()
            && super::peer_label(p).skip(p.station@.len() + 3int) == c@,
{
    assert(p.station@ == super::peer_label(p).take(p.station@.len() as int));
    if let Some(c) = p.call {
        assert(super::peer_label(p).skip(p.station@.len() + 3int) == c@);
    }
}

/// Offsets are ordered as 32-bit floats are: of two without a sign the one with the greater
/// pattern is the higher, of two with a sign the one with the lesser pattern, and any without
/// a sign is above any with one.
pub proof fn law_order_of_offsets(a: OffsetHz, b: OffsetHz)
    ensures
        a.0 < 0x8000_0000 && b.0 < 0x8000_0000 ==> (super::rank(a) < super::rank(b) <==> a.0
            < b.0),
        a.0 >= 0x8000_0000 && b.0 >= 0x8000_0000 ==> (super::rank(a) < super::rank(b) <==> a.0
            > b.0),
        a.0 >= 0x8000_0000 && b.0 < 0x8000_0000 ==> super::rank(a) < super::rank(b),
        super::rank(a) == super::rank(b) ==> a == b,
{
}

/// A message names its sender: the caller of a CQ, and the station that an exchange or a
/// sign-off comes from. Nobody signs free text.
pub proof fn law_who_sent_it(d: Decode)
    ensures
        match d.content {
            DecodeContent::Slotted { slot, message, raw } => match message {
                ParsedMessage::Cq { caller, contest, grid } => super::render::station(d) == Some(
                    (caller.0, slot),
                ),
                ParsedMessage::Exchange { to, from, payload } => super::render::station(d) == Some(
                    (from.0, slot),
                ),
                ParsedMessage::Signoff { to, from, kind } => super::render::station(d) == Some(
                    (from.0, slot),
                ),
                ParsedMessage::Free(_) => super::render::station(d) is None,
                ParsedMessage::Raw(_) => super::render::station(d) is None,
            },
            DecodeContent::Streaming { .. } => super::render::station(d) is None,
        },
        super::render::calls_cq(d) <==> (d.content is Slotted && d.content->Slotted_message is Cq),
        super::render::calls_cq(d) ==> super::render::station(d) is Some,
        super::ref_of(d) matches Some(r) ==> r.call is Some && super::render::station(d) == Some(
            (r.call->Some_0.0, r.slot),
        ),
        super::ref_of(d) is None <==> super::render::station(d) is None,
{
}

/// A decode is for the station that its message is addressed to, in whatever case the call is
/// written, and for nobody else; a CQ is for nobody.
pub proof fn law_who_it_is_for(d: Decode, me: Seq<char>)
    ensures
        match d.content {
            DecodeContent::Slotted { slot, message, raw } => match message {
                ParsedMessage::Exchange { to, from, payload } => super::render::is_for(d, me)
                    <==> crate::text::ascii_upper(to.0@) == crate::text::ascii_upper(me),
                ParsedMessage::Signoff { to, from, kind } => super::render::is_for(d, me)
                    <==> crate::text::ascii_upper(to.0@) == crate::text::ascii_upper(me),
                _ => !super::render::is_for(d, me),
            },
            DecodeContent::Streaming { .. } => !super::render::is_for(d, me),
        },
        super::render::is_for(d, me) ==> !super::render::calls_cq(d),
{
}

} // verus!
