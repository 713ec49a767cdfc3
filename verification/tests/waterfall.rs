use dm420::panels::waterfall::config_form::{
    contest_label, device_text, has_band, profile_label, proto_label, ConfigForm, UsbIdentity,
};
use dm420::panels::waterfall::placing::{place, LineBox, Pane};
use dm420::panels::waterfall::render::{
    decode_station, fault_title, is_addressed_to, is_cq, is_faulted, line_mark, report_text,
    resume_intent, signal_bandwidth_hz, tx_label, HealthState, LineSign, LineTint,
};
use dm420::panels::waterfall::send_row::{
    digit_badge, digit_key_index, shortcuts, update_cq_assignments, CqAssignments,
};
use dm420::panels::waterfall::{
    apply_selection, button_label, call_is_set, frame_tint, hardware_equal, is_transmitting,
    line_click, mode_clicked, peer_ticks, selection_tag, slot_boundary, vfo_text, Action, Gate,
    KeyEvent, KeyFlags, PanelKey, Peer, Situation, Tint, TxOffset, Waterfall,
};
use dm420::settings::HardwareConfig;
use dm420::types::{
    hf_bands, AbsHz, Band, Callsign, ContestProfile, Decode, DecodeContent, DecodeRef, ExchangePayload,
    LineProfile, OffsetHz, OverAirMode, ParsedMessage, Protocol, QsoPhase, Selection,
    SelectionContext, SerialConfig, SlotId,
};

fn decode(t_ms: i64, snr: i8, message: ParsedMessage) -> Decode {
    Decode {
        t_ms,
        snr_db: Some(snr),
        offset: OffsetHz(1000f32.to_bits()),
        audio_hz: 1000,
        content: DecodeContent::Slotted {
            slot: SlotId(5),
            message,
            raw: "".into(),
        },
    }
}

fn cq(call: &str) -> ParsedMessage {
    ParsedMessage::Cq {
        caller: Callsign(call.into()),
        contest: None,
        grid: None,
    }
}

fn report(to: &str, from: &str) -> ParsedMessage {
    ParsedMessage::Exchange {
        to: Callsign(to.into()),
        from: Callsign(from.into()),
        payload: ExchangePayload::Report(-3),
    }
}

fn hardware() -> HardwareConfig {
    HardwareConfig {
        audio_input: None,
        audio_output: None,
        serial: SerialConfig {
            port: None,
            usb_serial: None,
            usb_vid: None,
            usb_pid: None,
            baud: 38_400,
            profile: LineProfile::Default,
            autodetect: true,
        },
        protocol: Protocol::Ft8,
    }
}

#[test]
fn callers_get_digits_and_keep_them() {
    let mut a = CqAssignments::new();
    let decodes = vec![
        decode(0, -20, cq("WEAK")),
        decode(0, 5, cq("LOUD")),
        decode(0, 0, report("A", "B")),
        decode(0, 9, cq("DONE")),
    ];
    update_cq_assignments(&mut a, &decodes, &vec!["DONE".to_string()], 15_000, 15_000);
    assert_eq!(a.digit("LOUD"), Some(0));
    assert_eq!(a.digit("WEAK"), Some(1));
    assert_eq!(a.digit("B"), None);
    assert_eq!(a.digit("DONE"), None);
    let later = vec![decode(15_000, 20, cq("NEW")), decode(15_000, -20, cq("WEAK"))];
    update_cq_assignments(&mut a, &later, &vec![], 30_000, 15_000);
    assert_eq!(a.digit("WEAK"), Some(1));
    let under = shortcuts(&a, &later);
    assert!(under[1].is_some());
    assert_eq!(digit_key_index('1'), Some(0));
    assert_eq!(digit_key_index('x'), None);
    assert_eq!(digit_badge(0), '1');
}

#[test]
fn lines_are_marked() {
    let a = CqAssignments::new();
    let d = decode(0, 0, cq("K1ABC"));
    let none = Vec::new();
    let plain = line_mark(&d, None, Some("W4LL"), &none, &a, false);
    assert_eq!(plain.tint, LineTint::Plain);
    assert_eq!(plain.sign, LineSign::Caller);
    let selected = line_mark(&d, Some("K1ABC"), Some("W4LL"), &none, &a, false);
    assert!(selected.selected);
    assert_eq!(selected.sign, LineSign::Selected);
    let worked = vec!["K1ABC".to_string()];
    assert_eq!(
        line_mark(&d, None, Some("W4LL"), &worked, &a, false).sign,
        LineSign::Worked
    );
    let ours = decode(0, 0, report("W4LL", "K1ABC"));
    assert_eq!(
        line_mark(&ours, None, Some("W4LL"), &none, &a, false).tint,
        LineTint::Ours
    );
}

#[test]
fn a_decode_tells_who_and_whether_it_is_for_us() {
    let d = decode(0, -7, report("w4ll", "K1ABC"));
    assert_eq!(decode_station(&d).unwrap(), ("K1ABC".to_string(), SlotId(5)));
    assert!(!is_cq(&d));
    assert!(is_addressed_to(&d, Some("W4LL")));
    assert!(!is_addressed_to(&d, None));
    let (message, snr) = resume_intent(&d, Some("W4LL")).unwrap();
    assert!(matches!(message, ParsedMessage::Exchange { .. }));
    assert_eq!(snr, -7);
    assert!(resume_intent(&d, Some("N0ONE")).is_none());
    let click = line_click(&d, Some("W4LL")).unwrap();
    assert!(click.resume.is_some());
    assert_eq!(click.target.unwrap().call.unwrap().0, "K1ABC");
}

#[test]
fn labels_are_spelled() {
    assert_eq!(signal_bandwidth_hz(Protocol::Ft8), 50);
    assert_eq!(signal_bandwidth_hz(Protocol::Ft4), 83);
    assert!(is_faulted(HealthState::Degraded));
    assert_eq!(fault_title(HealthState::Down), Some("AUDIO OFFLINE"));
    assert_eq!(fault_title(HealthState::Healthy), None);
    assert_eq!(proto_label(Protocol::Ft4), "FT4");
    assert_ne!(profile_label(LineProfile::Default), profile_label(LineProfile::AssertDtrRts));
    assert_ne!(
        contest_label(ContestProfile::Standard),
        contest_label(ContestProfile::ArrlFieldDay)
    );
    assert_eq!(button_label(true, true), "STOP");
    assert_eq!(button_label(true, false), "SEND");
    assert_eq!(button_label(false, true), "SET CALL");
    assert_eq!(frame_tint(false, true, true), Tint::Keyed);
    assert_eq!(frame_tint(false, false, true), Tint::Armed);
    assert_eq!(frame_tint(false, false, false), Tint::Idle);
    assert_eq!(tx_label(Some("K1ABC"), 1500), "K1ABC  1500 Hz");
    assert_eq!(tx_label(None, -5), "\u{25B6} TX -5 Hz");
    assert_eq!(report_text(None), "   ");
    assert_eq!(report_text(Some(-8)), "\u{2212}08");
    assert_eq!(vfo_text(false, Some(7_047_509)), "7.047.50");
    assert_eq!(vfo_text(false, None), "14.074.00");
    assert_eq!(vfo_text(true, Some(7_047_500)), "---.---.--");
    assert!(selection_tag("K1ABC", QsoPhase::Armed).contains("K1ABC"));
    assert!(call_is_set(" W4LL ") && !call_is_set("  "));
    assert!(!device_text(&None).is_empty());
}

#[test]
fn a_locked_lane_is_never_moved_by_a_selection() {
    let sel = Selection {
        target: None,
        context: Some(SelectionContext::AbsFreq(AbsHz(14_076_000))),
    };
    let free = apply_selection(&sel, Some(14_074_000), false);
    assert!(free
        .iter()
        .any(|a| matches!(a, Action::SetTxOffset(TxOffset::Whole(2_000)))));
    let locked = apply_selection(&sel, Some(14_074_000), true);
    assert!(!locked.iter().any(|a| matches!(a, Action::SetFreq(_))));
}

#[test]
fn a_mode_change_keeps_the_band() {
    let out = mode_clicked(Protocol::Ft8, false, true, Some(14_074_000));
    assert!(out.iter().any(|a| matches!(a, Action::SetProtocol(Protocol::Ft4))));
    assert!(out.iter().any(|a| matches!(a, Action::SetFreq(14_080_000))));
    assert!(mode_clicked(Protocol::Ft8, true, false, Some(14_074_000)).is_empty());
}

#[test]
fn slots_begin_on_the_clock() {
    assert_eq!(slot_boundary(31_234, 15_000), 30_000);
    assert_eq!(slot_boundary(-1, 15_000), 0);
    assert_eq!(slot_boundary(7, 0), 7);
    assert!(is_transmitting(Some(1_000), 1_100));
    assert!(!is_transmitting(None, 0));
}

#[test]
fn peers_on_the_band_have_ticks() {
    let peer = |band: Band, call: Option<&str>| Peer {
        station: "op2".into(),
        call: call.map(|c| c.into()),
        band,
        offset: OffsetHz(0),
        age_ms: 0,
    };
    let peers = vec![peer(Band::B20m, Some("K1ABC")), peer(Band::B40m, None)];
    let ticks = peer_ticks(&peers, Some(Band::B20m));
    assert_eq!(ticks.len(), 1);
    assert!(ticks[0].label.contains("op2"));
    assert!(peer_ticks(&peers, None).is_empty());
}

#[test]
fn marks_of_peers_come_from_the_highest_offset() {
    let peer = |station: &str, hz: f32| Peer {
        station: station.into(),
        call: None,
        band: Band::B20m,
        offset: OffsetHz(hz.to_bits()),
        age_ms: 0,
    };
    let peers = vec![
        peer("a", 500.0),
        peer("b", 2000.0),
        peer("c", -0.0),
        peer("d", 500.0),
        peer("e", 0.0),
        peer("f", -3.0),
        peer("g", 2000.0),
    ];
    let labels: Vec<String> =
        peer_ticks(&peers, Some(Band::B20m)).into_iter().map(|t| t.label).collect();
    assert_eq!(labels, ["b", "g", "a", "d", "e", "c", "f"]);
}

#[test]
fn lanes_are_compared_as_numbers() {
    let lane = |hz: f32| {
        Some(Selection {
            target: None,
            context: Some(SelectionContext::Passband(OffsetHz(hz.to_bits()))),
        })
    };
    let mut p = Waterfall::new(false);
    assert_eq!(p.observe_selection(&lane(0.0), None, false).len(), 1);
    assert!(p.observe_selection(&lane(-0.0), None, false).is_empty());
    assert_eq!(p.observe_selection(&lane(f32::NAN), None, false).len(), 1);
    assert_eq!(p.observe_selection(&lane(f32::NAN), None, false).len(), 1);
    assert_eq!(p.observe_selection(&lane(1.5), None, false).len(), 1);
    assert!(p.observe_selection(&lane(1.5), None, false).is_empty());
}

#[test]
fn bands_are_put_to_use_where_they_changed() {
    let all = hf_bands();
    let mut f = ConfigForm::default();
    assert!(f.changed_bands(&all, &all).is_none(), "the form was not open");
    f.loaded = true;
    f.active_bands = vec![Band::B10m, Band::B40m];
    assert_eq!(f.changed_bands(&all, &all), Some(vec![Band::B40m, Band::B10m]));
    assert!(f.changed_bands(&all, &vec![Band::B40m, Band::B10m]).is_none());
}

fn flags() -> KeyFlags {
    KeyFlags {
        consumed: false,
        tab: false,
        activate: false,
    }
}

#[test]
fn a_key_typed_into_a_command_is_no_shortcut() {
    let mut p = Waterfall::new(false);
    let gate = Gate {
        scanning: false,
        live: true,
        locked: false,
    };
    let slash = KeyEvent::Text("/".into());
    let (out, _) = p.key_event(&slash, gate, flags(), None);
    assert!(out.is_empty());
    assert!(p.send.entering);
    let (out, f) = p.key_event(
        &KeyEvent::Key {
            key: PanelKey::S,
            modified: false,
        },
        gate,
        flags(),
        None,
    );
    assert!(out.is_empty());
    assert!(!f.consumed);
}

#[test]
fn enter_starts_and_stops_the_engine() {
    let mut p = Waterfall::new(false);
    let target = Some(DecodeRef {
        slot: SlotId(1),
        call: Some(Callsign("K1ABC".into())),
    });
    let mut s = Situation {
        call_set: true,
        active: false,
        scanning: false,
        target: &target,
        mode: Some(OverAirMode::Ft8),
        mhz: None,
        clear_lane: None,
    };
    assert!(matches!(p.activate(&s)[..], [Action::Answer(_)]));
    s.active = true;
    assert!(p.activate(&s).iter().any(|a| matches!(a, Action::Abort)));
    s.active = false;
    s.target = &None;
    assert!(p.activate(&s).iter().any(|a| matches!(a, Action::CallCq)));
    s.call_set = false;
    assert!(p.activate(&s).is_empty());
}

#[test]
fn a_form_is_applied_when_it_was_changed() {
    let none = || UsbIdentity {
        vid: None,
        pid: None,
        serial: None,
    };
    let mut p = Waterfall::new(false);
    p.form
        .load(hardware(), vec![Band::B20m], vec![], vec![], vec![]);
    assert!(p.relock(&hardware(), none()).is_none());
    p.form
        .load(hardware(), vec![Band::B20m], vec![], vec![], vec![]);
    p.form.protocol = Protocol::Ft4;
    let changed = p.relock(&hardware(), none()).unwrap();
    assert_eq!(changed.protocol, Protocol::Ft4);
    assert!(!hardware_equal(&changed, &hardware()));
    assert!(hardware_equal(&hardware(), &hardware()));
}

#[test]
fn bands_are_checked_in_the_order_of_the_station() {
    let mut f = ConfigForm::default();
    f.set_band(Band::B10m, true);
    f.set_band(Band::B40m, true);
    f.set_band(Band::B10m, true);
    let all = vec![Band::B40m, Band::B20m, Band::B10m];
    assert_eq!(f.active_bands(&all), vec![Band::B40m, Band::B10m]);
    f.set_band(Band::B10m, false);
    assert_eq!(f.active_bands(&all), vec![Band::B40m]);
    assert!(has_band(&all, Band::B20m) && !has_band(&all, Band::B6m));
}

#[test]
fn the_engine_is_fed_once_a_slot() {
    let mut p = Waterfall::new(true);
    p.auto_hop = true;
    assert!(p.hop_due(Some(SlotId(1))));
    assert!(!p.hop_due(Some(SlotId(1))));
    assert!(p.hop_due(Some(SlotId(2))));
}

fn line(t_ms: i64, y: i32) -> LineBox {
    LineBox { t_ms, right: 500, y }
}

fn pane() -> Pane {
    Pane { now_ms: 1_000, left: 0, top: 0, bottom: 100, half_line: 5 }
}

fn placed(lines: Vec<LineBox>) -> Vec<(usize, i64)> {
    place(&lines, pane()).iter().map(|p| (p.idx, p.y)).collect()
}

#[test]
fn lines_of_one_slot_are_pushed_apart() {
    let got = placed(vec![line(900, 40), line(900, 33), line(900, 42), line(800, 40)]);
    assert_eq!(got, vec![(3, 40), (1, 33), (0, 43), (2, 53)]);
}

#[test]
fn a_column_that_hangs_over_the_bottom_moves_up() {
    let got = placed(vec![line(900, 90), line(900, 92), line(900, 94)]);
    assert_eq!(got, vec![(0, 75), (1, 85), (2, 95)]);
    // Lines that cannot all be shown are stopped at the top.
    let many: Vec<LineBox> = (0..12).map(|_| line(900, 90)).collect();
    let got = placed(many);
    assert_eq!(got[0], (0, 5));
    assert_eq!(got[2], (2, 5));
    assert_eq!(got[3], (3, 15));
    assert_eq!(got[11], (11, 95));
}

#[test]
fn lines_off_the_screen_are_not_placed() {
    let gone = LineBox { t_ms: 900, right: -1, y: 50 };
    let edge = LineBox { t_ms: 900, right: 0, y: 50 };
    let got = placed(vec![gone, line(1_001, 50), line(900, 101), line(900, -1), edge, line(900, 0)]);
    assert_eq!(got, vec![(5, 0), (4, 50)]);
    assert_eq!(placed(vec![]), vec![]);
}

#[test]
fn clear_qsy_takes_the_clearest_lane_unless_a_contact_is_under_way() {
    let lane = OffsetHz(700f32.to_bits());
    let mut w = Waterfall::new(false);
    assert!(w.clear_clicked(QsoPhase::InExchange, Some(lane)).is_empty());
    assert!(w.clear_clicked(QsoPhase::Idle, None).is_empty());
    let out = w.clear_clicked(QsoPhase::Idle, Some(lane));
    assert_eq!(out.len(), 1);
    assert!(matches!(&out[0], Action::Select { target: None, context: Some(c) }
        if *c == SelectionContext::Passband(lane)));
    assert!(w.resume.is_none());
}
