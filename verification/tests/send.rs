use dm420::format::{band_label, band_short, display_call, fmt_payload, fmt_signoff, fmt_snr, mode_label};
use dm420::send::{
    calling_freq_hz, frequency_arg, next_message, parse_band, parse_command, Activation, Command,
    Mhz, SendState,
};
use dm420::types::{
    Band, Callsign, ContestProfile, ExchangePayload, GridSquare, OverAirMode, Section, Signoff,
    StationConfig,
};
use dm420::waterslide_panel::Target;

fn number(input: &str) -> Option<u64> {
    frequency_arg(input)
        .and_then(|a| a.parse::<f64>().ok())
        .map(f64::to_bits)
}

fn command(input: &str) -> Option<Command> {
    parse_command(input, number(input))
}

fn frequency(mhz: f64) -> Command {
    Command::SetFrequency(Mhz(mhz.to_bits()))
}

fn activate(s: &mut SendState) -> Activation {
    let mhz = number(&s.buf);
    s.activate(mhz)
}

#[test]
fn parses_frequency_verbs_and_aliases() {
    for s in [
        "/f 14.074",
        ":f 14.074",
        "/freq 14.074",
        "/frequency 14.074",
        "  /F  14.074 ",
    ] {
        assert_eq!(command(s), Some(frequency(14.074)), "input {s:?}");
    }
}

#[test]
fn rejects_non_commands_and_bad_args() {
    assert_eq!(command("f 14.074"), None);
    assert_eq!(command("CQ N0JDC DN70"), None);
    assert_eq!(command("/x 20"), None);
    assert_eq!(command("/f"), None);
    assert_eq!(command("/f abc"), None);
    assert_eq!(command("/f 0"), None);
    assert_eq!(command("/f -1"), None);
}

#[test]
fn parses_band_verbs_and_flexible_args() {
    for s in ["/b 20", "/b 20m", "/band 20M", ":band 20m", "  /B  20m "] {
        assert_eq!(command(s), Some(Command::SetBand(Band::B20m)), "input {s:?}");
    }
    assert_eq!(command("/b 40"), Some(Command::SetBand(Band::B40m)));
    assert_eq!(command("/b 6"), Some(Command::SetBand(Band::B6m)));
    assert_eq!(command("/b 21"), None);
    assert_eq!(command("/b"), None);
    assert_eq!(command("/b xyz"), None);
}

#[test]
fn parses_scan_and_clear_verbs() {
    for s in ["/scan", ":scan", "  /SCAN ", "/Scan"] {
        assert_eq!(command(s), Some(Command::Scan), "input {s:?}");
    }
    assert_eq!(command("/clear"), Some(Command::ClearQsy));
}

#[test]
fn calling_freq_is_mode_dependent() {
    assert_eq!(
        calling_freq_hz(Band::B20m, OverAirMode::Ft8),
        Some(14_074_000)
    );
    assert_eq!(
        calling_freq_hz(Band::B20m, OverAirMode::Ft4),
        Some(14_080_000)
    );
    assert_eq!(calling_freq_hz(Band::B160m, OverAirMode::Ft4), None);
    assert_eq!(
        calling_freq_hz(Band::B160m, OverAirMode::Ft8),
        Some(1_840_000)
    );
}

fn me() -> StationConfig {
    StationConfig {
        call: Callsign("N0JDC".into()),
        grid: GridSquare("DN70".into()),
        fd_class: "3A".into(),
        fd_section: Section("CO".into()),
        contest: ContestProfile::Standard,
    }
}

#[test]
fn auto_message_reflects_selection() {
    let me = me();
    let station = Target::Station {
        call: "K1ABC".into(),
        off: 1180,
    };
    assert_eq!(next_message(&Target::Offset(300), &me), "CQ N0JDC DN70");
    assert_eq!(next_message(&station, &me), "K1ABC N0JDC DN70");
    let fd = StationConfig {
        contest: ContestProfile::ArrlFieldDay,
        ..me.clone()
    };
    assert_eq!(next_message(&Target::Offset(300), &fd), "CQ FD N0JDC DN70");
    assert_eq!(next_message(&station, &fd), "K1ABC N0JDC 3A CO");
}

#[test]
fn typing_only_accepts_slash_commands() {
    let mut s = SendState {
        buf: "CQ N0JDC DN70".into(),
        ..Default::default()
    };
    s.type_text("hello");
    assert!(!s.entering);
    assert_eq!(s.buf, "CQ N0JDC DN70");
    s.type_text("/");
    assert!(s.entering);
    assert_eq!(s.buf, "/");
    s.type_text("f 14.074");
    assert_eq!(s.buf, "/f 14.074");
    assert_eq!(activate(&mut s), Activation::Command(frequency(14.074)));
    assert!(!s.entering);
    assert!(s.buf.is_empty());
    s.type_text(":freq 7.074");
    assert_eq!(activate(&mut s), Activation::Command(frequency(7.074)));
}

#[test]
fn enter_is_a_toggle_when_not_composing() {
    let mut s = SendState {
        buf: "CQ N0JDC DN70".into(),
        ..Default::default()
    };
    assert_eq!(activate(&mut s), Activation::Toggle);
    assert_eq!(activate(&mut s), Activation::Toggle);
}

#[test]
fn empty_command_is_a_noop_not_a_toggle() {
    let mut s = SendState::default();
    s.type_text("/");
    assert_eq!(activate(&mut s), Activation::Nothing);
    assert!(!s.entering);
}

#[test]
fn backspace_and_escape_exit_command_entry() {
    let mut s = SendState::default();
    s.type_text("/");
    s.backspace();
    assert!(!s.entering);
    s.type_text("/f");
    s.escape();
    assert!(!s.entering);
    assert!(s.buf.is_empty());
}

#[test]
fn format_display_call_marks_resolved_hashes() {
    let raw = "W4LL <W1AW/0> -10";
    assert_eq!(display_call(&Callsign("W1AW/0".into()), raw), "<W1AW/0>");
    assert_eq!(display_call(&Callsign("W4LL".into()), raw), "W4LL");
    assert_eq!(
        display_call(&Callsign("<...>".into()), "W4LL <...> -10"),
        "<...>"
    );
}

#[test]
fn waterfall_display_call_marks_resolved_hashes() {
    let raw = "W4LL <W1AW/0> -10";
    assert_eq!(display_call(&Callsign("W1AW/0".into()), raw), "<W1AW/0>");
    assert_eq!(display_call(&Callsign("W4LL".into()), raw), "W4LL");
    assert_eq!(
        display_call(&Callsign("<...>".into()), "W4LL <...> -10"),
        "<...>"
    );
}

#[test]
fn text_typed_in_parts_is_the_text_typed_at_once() {
    let mut whole = SendState::default();
    whole.type_text("/band 20");
    let mut parts = SendState::default();
    parts.type_text("/ba");
    parts.type_text("nd 20");
    assert_eq!(whole.buf, parts.buf);
    assert_eq!(parse_band("20"), Some(Band::B20m));
    assert_eq!(parse_band("20mm"), Some(Band::B20m));
}

#[test]
fn every_calling_frequency_is_in_its_band() {
    for band in [Band::B80m, Band::B40m, Band::B10m, Band::B6m] {
        let hz = calling_freq_hz(band, OverAirMode::Ft8).unwrap();
        assert_eq!(Band::from_hz(dm420::types::AbsHz(hz)), Some(band));
    }
}

#[test]
fn a_target_knows_its_lane_and_its_station() {
    let t = Target::Station {
        call: "K1ABC".into(),
        off: 1180,
    };
    assert_eq!(t.off(), 1180);
    assert_eq!(t.station(), Some("K1ABC"));
    assert_eq!(Target::Offset(-5).off(), -5);
    assert_eq!(Target::Offset(-5).station(), None);
}

#[test]
fn reports_and_labels_are_spelled() {
    assert_eq!(fmt_snr(-7), "\u{2212}07");
    assert_eq!(fmt_snr(12), "+12");
    assert_eq!(fmt_payload(&ExchangePayload::Report(-10)), "-10");
    assert_eq!(fmt_payload(&ExchangePayload::RogerReport(3)), "R+03");
    assert_eq!(fmt_signoff(Signoff::Rr73), "RR73");
    assert_eq!(band_label(Band::B160m), "160m");
    assert_eq!(band_short(Band::B40m), "40");
    assert_eq!(mode_label(OverAirMode::Ft4), "FT4");
}

#[test]
fn every_band_is_read_from_its_names() {
    let all = [
        Band::B160m,
        Band::B80m,
        Band::B40m,
        Band::B30m,
        Band::B20m,
        Band::B17m,
        Band::B15m,
        Band::B12m,
        Band::B10m,
        Band::B6m,
    ];
    for b in all {
        assert_eq!(parse_band(band_label(b)), Some(b));
        assert_eq!(parse_band(band_short(b)), Some(b));
        assert_eq!(parse_band(&band_label(b).to_uppercase()), Some(b));
    }
    let named = (0..70_000u32).filter(|n| parse_band(&n.to_string()).is_some()).count();
    assert_eq!(named, all.len());
}
