use dm420::bus_view::{
    band_order, BusView, Control, Outgoing, QsoCommand, QsoState, ScannerCommand, ScannerState,
    SpectrumRow,
};
use dm420::panel_data::Locator;
use dm420::panels::waterfall::render::{HealthState, Spectrogram};
use dm420::ring::Ring;
use dm420::settings::HardwareConfig;
use dm420::types::{
    AbsHz, Band, BandActivity, Callsign, Decode, DecodeContent, ExchangePayload, GridSquare,
    LineProfile, LogEntry, OffsetHz, OverAirMode, ParsedMessage, Protocol, QsoPhase, ScanStatus,
    Section, SerialConfig, SignalSource, SlotId, SubsystemId, WorkedEntry,
};

fn hardware() -> HardwareConfig {
    HardwareConfig {
        audio_input: Some("USB".into()),
        audio_output: None,
        serial: SerialConfig {
            port: None,
            usb_serial: None,
            usb_vid: None,
            usb_pid: None,
            baud: 38_400,
            profile: LineProfile::Default,
            autodetect: true,
        },
        protocol: Protocol::Ft8,
    }
}

fn view() -> BusView {
    BusView::new(
        hardware(),
        Control {
            rig: true,
            audio: true,
            tx: false,
        },
    )
}

fn decode(t_ms: i64, message: ParsedMessage) -> Decode {
    Decode {
        t_ms,
        snr_db: Some(-5),
        offset: OffsetHz(1200.4f32.to_bits()),
        audio_hz: 1200,
        content: DecodeContent::Slotted {
            slot: SlotId(7),
            message,
            raw: "".into(),
        },
    }
}

fn cq(call: &str, grid: Option<&str>) -> ParsedMessage {
    ParsedMessage::Cq {
        caller: Callsign(call.into()),
        contest: None,
        grid: grid.map(|g| GridSquare(g.into())),
    }
}

fn log(call: &str, band: Band, grid: Option<&str>, section: Option<&str>, time_ms: i64) -> LogEntry {
    LogEntry {
        origin: "me".into(),
        time_ms,
        call: Callsign(call.into()),
        band,
        grid: grid.map(|g| GridSquare(g.into())),
        section: section.map(|s| Section(s.into())),
        exchange_sent: "".into(),
        exchange_rcvd: "".into(),
    }
}

fn worked(call: &str, band: Band) -> WorkedEntry {
    WorkedEntry {
        call: Callsign(call.into()),
        band,
    }
}

#[test]
fn a_window_keeps_the_newest() {
    let mut r: Ring<u32> = Ring::new(3);
    for i in 0..5 {
        r.push(i);
    }
    assert_eq!(r.len(), 3);
    assert_eq!((*r.get(0), *r.get(1), *r.get(2)), (2, 3, 4));
}

#[test]
fn logs_come_newest_first() {
    let mut v = view();
    for i in 0..600 {
        v.on_log(log("K1ABC", Band::B20m, None, None, i));
    }
    assert_eq!(v.log_count(), 512);
    let two: Vec<i64> = v.recent_logs(2).iter().map(|e| e.time_ms).collect();
    assert_eq!(two, [599, 598]);
    assert_eq!(v.recent_logs(9_999).len(), 512);
    assert_eq!(v.recent_logs(9_999)[511].time_ms, 88);
}

#[test]
fn the_newest_sighting_of_a_call_is_kept() {
    let mut v = view();
    v.on_decode(decode(1_000, cq("K1ABC", Some("FN31"))));
    assert_eq!(v.heard_spots(0)[0].band, None, "the dial is not known yet");
    v.on_rig(14_074_000);
    v.on_decode(decode(
        2_000,
        ParsedMessage::Exchange {
            to: Callsign("W4LL".into()),
            from: Callsign("K1ABC".into()),
            payload: ExchangePayload::FieldDay {
                class: "3A".into(),
                section: Section("CT".into()),
                rogered: false,
            },
        },
    ));
    v.on_decode(decode(1_500, cq("K1ABC", Some("AA00"))));
    v.on_decode(decode(2_500, cq("N0GRID", None)));
    let spots = v.heard_spots(2_000);
    assert_eq!(spots.len(), 1);
    assert_eq!(spots[0].call, "K1ABC");
    assert_eq!(spots[0].loc, Locator::Section("CT".into()));
    assert_eq!(spots[0].last_ms, 2_000);
    assert_eq!(spots[0].band, Some(Band::B20m));
    assert!(!spots[0].cq && !spots[0].worked);
    assert_eq!(spots[0].abs, Some(AbsHz(14_075_200)));
    assert_eq!(spots[0].slot, Some(SlotId(7)));
    assert_eq!(v.heard_spots(3_602_000).len(), 1);
    assert_eq!(v.heard_spots(3_602_001).len(), 0);
    assert_eq!(v.recent_decodes().len(), 4);
    assert_eq!(v.recent_decodes()[0].t_ms, 2_500);
}

#[test]
fn worked_stations_are_placed_by_the_log() {
    let mut v = view();
    v.on_worked(vec![
        worked("k1abc", Band::B20m),
        worked("K1ABC", Band::B40m),
        worked("W4LL", Band::B20m),
    ]);
    v.on_log(log("K1ABC", Band::B20m, Some("FN31"), None, 1));
    v.on_log(log("K1ABC", Band::B20m, None, Some("CT"), 2));
    v.on_log(log("K1ABC", Band::B20m, None, None, 3));
    v.on_log(log("W4LL", Band::B20m, Some("EM73"), Some("GA"), 4));
    let spots = v.worked_spots();
    assert_eq!(spots.len(), 2);
    assert_eq!(spots[0].loc, Locator::Section("CT".into()));
    assert_eq!(spots[0].last_ms, 2);
    assert_eq!(spots[1].loc, Locator::Grid("EM73".into()));
    assert!(spots[1].worked && spots[1].abs.is_none() && spots[1].slot.is_none());
    assert_eq!(v.worked_calls_on_band(Band::B20m), ["K1ABC", "W4LL"]);
    assert_eq!(v.worked_calls_on_band(Band::B10m), Vec::<String>::new());
    assert_eq!(v.worked().len(), 3);
}

#[test]
fn band_rows_come_lowest_first() {
    let mut v = view();
    let row = |band: Band, mode: OverAirMode| BandActivity {
        band,
        mode,
        heard: 0,
        cq: 0,
        unworked: 0,
    };
    v.on_bands(vec![
        row(Band::B10m, OverAirMode::Ft8),
        row(Band::B40m, OverAirMode::Ft4),
        row(Band::B40m, OverAirMode::Ft8),
    ]);
    let got: Vec<(Band, OverAirMode)> = v.band_activity().iter().map(|r| (r.band, r.mode)).collect();
    assert_eq!(
        got,
        [
            (Band::B40m, OverAirMode::Ft4),
            (Band::B40m, OverAirMode::Ft8),
            (Band::B10m, OverAirMode::Ft8)
        ]
    );
    assert_eq!(band_order(Band::B160m), 0);
    assert_eq!(band_order(Band::B6m), 9);
}

#[test]
fn settings_go_to_what_runs() {
    let mut v = view();
    let mut cfg = hardware();
    cfg.protocol = Protocol::Ft4;
    let out = v.apply_config(cfg);
    assert!(matches!(&out[0], Outgoing::Rig(s) if s.baud == 38_400));
    assert!(matches!(
        &out[1],
        Outgoing::Capture {
            protocol: Protocol::Ft4,
            ..
        }
    ));
    assert_eq!(out.len(), 2, "nothing transmits here");
    assert_eq!(v.current_config().protocol, Protocol::Ft4);
    assert!(v.has_live_audio());
}

#[test]
fn a_protocol_is_changed_once() {
    let mut v = view();
    assert!(v.set_protocol(Protocol::Ft8).is_empty());
    let out = v.set_protocol(Protocol::Ft4);
    assert!(matches!(&out[0], Outgoing::Capture { input: Some(i), .. } if i == "USB"));
    assert!(matches!(&out[1], Outgoing::SaveHardware(c) if c.protocol == Protocol::Ft4));
    assert!(v.set_protocol(Protocol::Ft4).is_empty());
}

#[test]
fn commands_select_before_they_start() {
    let off = OffsetHz(1500f32.to_bits());
    let v = view();
    let cq = v.call_cq(off);
    assert!(matches!(&cq[0], Outgoing::Selection { target: None, outgoing } if *outgoing == off));
    assert!(matches!(&cq[1], Outgoing::Qso(QsoCommand::CallCq)));
    let answer = v.answer_station(off, "K1ABC".into(), SlotId(3));
    assert!(matches!(&answer[0], Outgoing::Selection { target: Some(t), .. } if t.slot == SlotId(3)));
    assert!(matches!(&answer[1], Outgoing::Qso(QsoCommand::Start { target })
        if target.call.as_ref().unwrap().0 == "K1ABC"));
    let resume = v.resume_qso(
        off,
        "K1ABC".into(),
        SlotId(3),
        ParsedMessage::Free("x".into()),
        -4,
    );
    assert!(matches!(&resume[1], Outgoing::Qso(QsoCommand::Resume { snr: -4, offset, .. })
        if *offset == off));
    assert!(matches!(v.abort_qso(), Outgoing::Qso(QsoCommand::Abort)));
    assert!(matches!(v.set_freq(14_074_000), Outgoing::SetFreq(hz) if hz.0 == 14_074_000));
    let stops = vec![(Band::B20m, OverAirMode::Ft8)];
    assert!(matches!(v.start_scan(stops, 2), Outgoing::Scanner(ScannerCommand::StartSurvey {
        stops, dwell_slots: 2 }) if stops.len() == 1));
    assert!(matches!(v.cancel_scan(), Outgoing::Scanner(ScannerCommand::Cancel)));
    assert!(matches!(v.set_cq_hop_offset(off), Outgoing::CqHop(o) if o == off));
    assert!(matches!(v.unkey_for_shutdown(), Outgoing::Unkey));
}

fn spectrum(t_ms: i64, mags: Vec<u8>, source: SignalSource) -> SpectrumRow {
    SpectrumRow {
        mode: OverAirMode::Ft8,
        t_ms,
        bin0_offset: OffsetHz(0),
        bin_hz: 0,
        mags,
        source,
    }
}

#[test]
fn own_rows_do_not_join_the_received_ones() {
    let mut v = view();
    v.on_spectrum(spectrum(1, vec![1], SignalSource::Received));
    v.on_spectrum(spectrum(2, vec![2], SignalSource::OwnTx));
    assert_eq!(v.rx_row.as_ref().unwrap().t_ms, 1);
    assert_eq!(v.tx_row.as_ref().unwrap().t_ms, 2);
    let hist = v.recent_spectrum();
    assert_eq!(hist.len(), 1);
    assert_eq!(hist[0].mags, [1]);
    for t in 0..600 {
        v.on_spectrum(spectrum(t, vec![], SignalSource::Received));
    }
    assert_eq!(v.recent_spectrum().len(), 512);
}

#[test]
fn states_are_the_newest() {
    let mut v = view();
    assert_eq!(v.rig_state(), None);
    assert!(v.qso_state().is_none() && v.scanner().is_none() && v.clock().is_none());
    v.on_rig(7_074_000);
    v.on_clock(SlotId(9));
    v.on_scanner(ScannerState {
        status: ScanStatus::Idle,
        current: None,
        current_mode: None,
        last_scan: Some(5),
    });
    v.on_qso(QsoState {
        phase: QsoPhase::Armed,
        partner: Some(Callsign("K1ABC".into())),
        next_tx: None,
    });
    v.on_health(SubsystemId::Audio, HealthState::Down);
    assert_eq!(v.rig_state(), Some(7_074_000));
    assert_eq!(v.clock(), Some(SlotId(9)));
    assert_eq!(v.scanner().unwrap().last_scan, Some(5));
    assert_eq!(v.qso_state().unwrap().phase, QsoPhase::Armed);
    assert_eq!(v.health(SubsystemId::Audio), Some(HealthState::Down));
    assert_eq!(v.health(SubsystemId::Rig), None);
}

#[test]
fn a_spectrogram_is_painted_by_time() {
    let mut s = Spectrogram::new();
    let rx = vec![
        spectrum(0, vec![10, 20], SignalSource::Received),
        spectrum(1_000, vec![11, 21], SignalSource::Received),
        spectrum(99_000, vec![99, 99], SignalSource::Received),
    ];
    let tx = vec![spectrum(500, vec![70, 80], SignalSource::OwnTx)];
    s.repaint(&rx, &tx, 2_000, 512_000);
    assert_eq!(s.height(), 2);
    let px = s.pixels();
    assert_eq!((px[0], px[512]), (21, 11), "the newest reaches to now");
    assert_eq!((px[1], px[512 + 1]), (21, 11));
    assert_eq!((px[2], px[512 + 2]), (80, 70), "own rows cover what was received");
    assert_eq!((px[3], px[512 + 3]), (0, 0), "nothing is that old");
}

#[test]
fn a_spectrogram_scrolls() {
    let mut s = Spectrogram::new();
    s.ensure_size(2);
    s.advance(1, Some(&vec![5, 6]));
    s.advance(2, None);
    let px = s.pixels();
    assert_eq!((px[0], px[1], px[2], px[512 + 2]), (0, 0, 6, 5));
}
