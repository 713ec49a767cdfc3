use dm420::bus_view::{MapSpot, ScannerCommand, ScannerState};
use dm420::panel_data::Locator;
use dm420::panels::band_scan::{
    ago, fmt_elapsed, key_label, scan_stops, BandScan, StopTint, DWELL_SLOTS,
};
use dm420::panels::band_status::{
    cell_of, grid_shape, mode_line, pane_rows, rows_of_active, BandStatusPanel,
};
use dm420::panels::call_sign::{
    distance_text, exchange_line, facts_line, group, selected_call, shown_call, CallSign,
};
use dm420::panels::contacts::{
    draw_order, fade_ms, find_spot, hit, home, marker, pick_station, spot_count_text, Contacts,
    Marker,
};
use dm420::panels::log_book::{capacity, hhmm, log_row, LogBook};
use dm420::types::{
    AbsHz, Band, BandActivity, Callsign, GridSquare, LogEntry, OverAirMode, ScanStatus,
    SelectionContext, SlotId,
};

fn row(band: Band, mode: OverAirMode, heard: u32) -> BandActivity {
    BandActivity {
        band,
        mode,
        heard,
        cq: 2,
        unworked: 1,
    }
}

fn spot(call: &str, band: Band, last_ms: i64, worked: bool) -> MapSpot {
    MapSpot {
        call: call.into(),
        loc: Locator::Grid("FN31".into()),
        last_ms,
        worked,
        band: Some(band),
        cq: false,
        abs: None,
        slot: None,
    }
}

fn entry(call: &str, grid: Option<&str>) -> LogEntry {
    LogEntry {
        origin: "op1".into(),
        time_ms: 947_638_923_004,
        call: Callsign(call.into()),
        band: Band::B20m,
        grid: grid.map(|g| GridSquare(g.into())),
        section: None,
        exchange_sent: "-10".into(),
        exchange_rcvd: "".into(),
    }
}

#[test]
fn a_scan_starts_with_every_stop() {
    let p = BandScan::new();
    match p.key_clicked(false) {
        Some(ScannerCommand::StartSurvey { stops, dwell_slots }) => {
            assert_eq!(dwell_slots, DWELL_SLOTS);
            assert_eq!(
                stops,
                vec![
                    (Band::B40m, OverAirMode::Ft8),
                    (Band::B40m, OverAirMode::Ft4),
                    (Band::B20m, OverAirMode::Ft8),
                    (Band::B20m, OverAirMode::Ft4),
                    (Band::B15m, OverAirMode::Ft8),
                    (Band::B15m, OverAirMode::Ft4),
                    (Band::B10m, OverAirMode::Ft8),
                    (Band::B10m, OverAirMode::Ft4),
                ]
            );
        }
        other => panic!("unexpected {other:?}"),
    }
    assert!(matches!(p.key_clicked(true), Some(ScannerCommand::Cancel)));
}

#[test]
fn a_stop_is_turned_over_live() {
    let mut p = BandScan::new();
    match p.toggle(1, true) {
        Some(ScannerCommand::SetStops { stops }) => {
            assert_eq!(stops.len(), 7);
            assert!(!stops.contains(&(Band::B40m, OverAirMode::Ft4)));
        }
        other => panic!("unexpected {other:?}"),
    }
    assert!(p.toggle(1, false).is_none());
    assert_eq!(p.selected_stops().len(), 8);
    for k in 0..8 {
        assert!(p.toggle(k, false).is_none());
    }
    assert!(p.key_clicked(false).is_none(), "nothing to survey");
}

#[test]
fn the_scan_header_tells_what_goes_on() {
    let mut p = BandScan::new();
    let mut state = ScannerState {
        status: ScanStatus::Scanning,
        current: Some(Band::B20m),
        current_mode: Some(OverAirMode::Ft8),
        last_scan: None,
    };
    p.observe(true, 1_000);
    p.observe(true, 5_000);
    assert_eq!(
        p.status(Some(state), 66_000, 0),
        "Scanning 20m \u{2026} 01:05"
    );
    p.observe(false, 70_000);
    state.status = ScanStatus::Idle;
    state.last_scan = Some(0);
    assert_eq!(p.status(Some(state), 0, 30_000), "Last scan: just now");
    assert_eq!(p.status(Some(state), 0, 180_000), "Last scan: 3 min ago");
    assert_eq!(p.status(None, 0, 0), "Idle");
    assert_eq!(key_label(true), "CANCEL");
    assert_eq!(key_label(false), "SCAN");
}

#[test]
fn spans_of_time_are_spelled() {
    assert_eq!(ago(1_000, 0), "just now");
    assert_eq!(ago(0, 59_999), "just now");
    assert_eq!(ago(0, 120_000), "2 min ago");
    assert_eq!(fmt_elapsed(0), "00:00");
    assert_eq!(fmt_elapsed(6_009), "100:09");
}

#[test]
fn stops_show_their_counts() {
    let mut p = BandScan::new();
    let rows = vec![row(Band::B20m, OverAirMode::Ft4, 9)];
    assert_eq!(p.stop_line(3, &rows), "9 heard \u{b7} 2 cq \u{b7} 1 unwkd");
    assert_eq!(p.stop_line(2, &rows), "0 heard \u{b7} 0 cq \u{b7} 0 unwkd");
    let here = Some(Band::B20m);
    assert_eq!(p.stop_tint(3, here, Some(OverAirMode::Ft4)), StopTint::Bright);
    assert_eq!(p.stop_tint(2, here, Some(OverAirMode::Ft4)), StopTint::Dim);
    assert_eq!(p.stop_tint(0, here, Some(OverAirMode::Ft4)), StopTint::Plain);
    let _ = p.toggle(3, false);
    assert_eq!(p.stop_line(3, &rows), "\u{2014} off");
}

#[test]
fn bands_are_laid_out_in_two_columns() {
    assert_eq!(grid_shape(0), (1, 1));
    assert_eq!(grid_shape(3), (1, 3));
    assert_eq!(grid_shape(4), (2, 2));
    assert_eq!(grid_shape(5), (2, 3));
    assert_eq!(pane_rows(0), 1);
    assert_eq!(pane_rows(9), 3);
    assert_eq!(cell_of(4, 5), (1, 1));
}

#[test]
fn the_longest_wavelengths_are_hidden_and_logged_once() {
    let all = [
        Band::B6m,
        Band::B160m,
        Band::B80m,
        Band::B40m,
        Band::B30m,
        Band::B20m,
        Band::B17m,
        Band::B15m,
    ];
    let rows: Vec<BandActivity> = all
        .iter()
        .map(|b| row(*b, OverAirMode::Ft8, 1))
        .collect();
    let mut p = BandStatusPanel::new();
    let (shown, warning) = p.bands_shown(&rows);
    assert_eq!(
        shown,
        vec![
            Band::B40m,
            Band::B30m,
            Band::B20m,
            Band::B17m,
            Band::B15m,
            Band::B6m
        ]
    );
    assert_eq!(
        warning.as_deref(),
        Some("Band Status shows at most 6 bands; hiding 160m, 80m (scanned but not displayed)")
    );
    assert_eq!(p.bands_shown(&rows).1, None);
    assert!(p.warned);
}

#[test]
fn only_bands_in_use_are_surveyed() {
    assert!(scan_stops(&vec![]).is_empty());
    assert_eq!(
        scan_stops(&vec![Band::B40m, Band::B160m]),
        vec![
            (Band::B40m, OverAirMode::Ft8),
            (Band::B40m, OverAirMode::Ft4),
            (Band::B160m, OverAirMode::Ft8),
            (Band::B160m, OverAirMode::Ft4),
        ]
    );
}

#[test]
fn only_active_bands_have_lines() {
    let rows = vec![
        row(Band::B20m, OverAirMode::Ft8, 4),
        row(Band::B40m, OverAirMode::Ft8, 7),
    ];
    let active = rows_of_active(&rows, &vec![Band::B40m]);
    assert_eq!(active.len(), 1);
    assert_eq!(mode_line(&active, Band::B40m, OverAirMode::Ft8), "7 \u{b7} 2 \u{b7} 1");
    assert_eq!(mode_line(&active, Band::B40m, OverAirMode::Ft4), "\u{2014}");
}

#[test]
fn thousands_are_grouped() {
    assert_eq!(group(0), "0");
    assert_eq!(group(999), "999");
    assert_eq!(group(5_432), "5,432");
    assert_eq!(group(1_234_567), "1,234,567");
    assert_eq!(group(-12_345), "-12,345");
    assert_eq!(distance_text(1_234, 1_986), "1,234 mi / 1,986 km");
}

#[test]
fn the_card_tells_what_is_known() {
    assert_eq!(selected_call(Some("  k1abc ")).as_deref(), Some("k1abc"));
    assert_eq!(selected_call(Some("   ")), None);
    assert_eq!(selected_call(None), None);
    assert_eq!(shown_call("k1abc/p"), "K1ABC/P");
    assert_eq!(
        facts_line(None, Some("FN31"), None),
        "Unknown prefix  \u{b7}  FN31"
    );
    assert_eq!(
        facts_line(Some("France"), Some("JN18"), Some("1 mi / 2 km")),
        "France  \u{b7}  JN18  \u{b7}  1 mi / 2 km"
    );
    let e = entry("K1ABC", None);
    assert_eq!(exchange_line(Some(&e)), "TX -10  \u{b7}  RX \u{2014}");
    assert_eq!(exchange_line(None), "not worked");
}

#[test]
fn a_grid_comes_from_the_map_or_the_log() {
    let mut card = CallSign::new();
    let heard = vec![spot("k1abc", Band::B20m, 0, false)];
    let logs = vec![entry("W4LL", Some("EM73"))];
    card.show("K1ABC", &heard, &vec![], &logs);
    assert_eq!(card.call, "K1ABC");
    assert_eq!(card.grid.as_deref(), Some("FN31"));
    assert_eq!(card.worked, None);
    card.show("w4ll", &heard, &vec![], &logs);
    assert_eq!(card.grid.as_deref(), Some("EM73"));
    assert_eq!(card.worked, Some(0));
    card.show("N0CALL", &heard, &vec![], &logs);
    assert_eq!(card.grid, None);
}

#[test]
fn times_are_shown_in_utc() {
    assert_eq!(hhmm(947_638_923_004), "0102");
    assert_eq!(hhmm(0), "0000");
    assert_eq!(hhmm(-60_000), "2359");
    assert_eq!(hhmm(86_399_999), "2359");
    assert_eq!(hhmm(8_210_266_876_799_999), "2359");
    assert_eq!(hhmm(8_210_266_876_800_000), "----");
    assert_eq!(hhmm(-8_334_601_228_800_000), "0000");
    assert_eq!(hhmm(-8_334_601_228_800_001), "----");
    assert_eq!(hhmm(i64::MAX), "----");
    assert_eq!(hhmm(i64::MIN), "----");
}

#[test]
fn contacts_of_others_have_a_badge() {
    let e = entry("K1ABC", None);
    let mine = log_row(&e, "op1");
    assert_eq!(mine.badge, None);
    assert_eq!(mine.time, "0102");
    assert_eq!(mine.grid, "----");
    let theirs = log_row(&e, "op2");
    assert_eq!(theirs.badge.as_deref(), Some("\u{2194} op1"));
    assert_eq!(theirs.sent, "-10");
}

#[test]
fn the_log_fills_its_panel() {
    assert_eq!(capacity(0), 0);
    assert_eq!(capacity(37_999), 0);
    assert_eq!(capacity(38_000), 1);
    assert_eq!(capacity(60_000), 2);
    let mut book = LogBook::new();
    book.show(&vec![entry("K1ABC", None), entry("W4LL", None)], 17, "op1");
    assert_eq!(book.status(), "last 2 \u{b7} FT8");
    assert_eq!(book.total_text(), "17 QSO");
    assert_eq!(book.rows[1].call, "W4LL");
}

#[test]
fn the_map_shows_one_band() {
    let day = 24 * 3_600_000;
    let worked = vec![
        spot("K1ABC", Band::B20m, 0, true),
        spot("W4LL", Band::B40m, 0, true),
        spot("N0OLD", Band::B20m, -day - 1, true),
    ];
    let heard = vec![
        spot("K1ABC", Band::B20m, 0, false),
        spot("W2NYC", Band::B20m, 0, false),
        spot("VE3AA", Band::B40m, 0, false),
    ];
    let mut p = Contacts::new();
    let calls = |p: &Contacts| -> Vec<String> {
        p.spots(&worked, &heard, 0).into_iter().map(|s| s.call).collect()
    };
    assert_eq!(calls(&p), ["K1ABC", "W2NYC"]);
    p.toggle(0);
    assert_eq!(calls(&p), ["K1ABC", "N0OLD", "W2NYC"]);
    p.toggle(1);
    assert_eq!(calls(&p), ["K1ABC", "N0OLD"]);
    p.keep_band(&vec![Band::B40m, Band::B20m]);
    assert_eq!(p.band, Band::B20m);
    p.keep_band(&vec![Band::B40m]);
    assert_eq!(p.band, Band::B40m);
    p.choose_band(&vec![Band::B10m, Band::B15m], 1);
    assert_eq!(p.band, Band::B15m);
}

#[test]
fn a_click_on_the_map_selects() {
    let mut s = spot("K1ABC", Band::B20m, 0, false);
    let none = pick_station(&s);
    assert_eq!(none.context, None);
    assert_eq!(none.target.as_ref().unwrap().slot, SlotId(0));
    s.abs = Some(AbsHz(14_075_500));
    s.slot = Some(SlotId(42));
    let some = pick_station(&s);
    assert_eq!(
        some.context,
        Some(SelectionContext::AbsFreq(AbsHz(14_075_500)))
    );
    let target = some.target.unwrap();
    assert_eq!(target.slot, SlotId(42));
    assert_eq!(target.call.unwrap().0, "K1ABC");
}

#[test]
fn the_nearest_marker_is_hit() {
    let d = |x: f32| Some(x.to_bits());
    assert_eq!(hit(&vec![d(9.0), d(3.0), None, d(3.0)]), Some(1));
    assert_eq!(hit(&vec![d(10.0)]), Some(0));
    assert_eq!(hit(&vec![d(10.001), None]), None);
    assert_eq!(hit(&vec![Some(f32::NAN.to_bits())]), None);
}

#[test]
fn markers_have_their_shape_and_order() {
    let mut cq = spot("A", Band::B20m, 0, false);
    cq.cq = true;
    let v = vec![
        spot("W", Band::B20m, 0, true),
        cq,
        spot("H", Band::B20m, 0, false),
    ];
    assert_eq!(marker(&v[0]), Marker::Plus);
    assert_eq!(marker(&v[1]), Marker::Disc);
    assert_eq!(marker(&v[2]), Marker::Circle);
    assert_eq!(draw_order(&v), vec![1, 2, 0]);
    assert_eq!(find_spot(&v, "h"), Some(2));
    assert_eq!(find_spot(&v, "x"), None);
    assert_eq!(spot_count_text(3), "3 spots");
    assert_eq!(fade_ms(10, 20), 0);
    assert_eq!(fade_ms(1_800_000, 0), 1_800_000);
    assert_eq!(fade_ms(9_000_000, 0), 3_600_000);
}

#[test]
fn home_is_the_grid_or_a_fixed_place() {
    assert_eq!(home("DN70"), (-378_000, 145_800));
    assert_eq!(home("nowhere"), (-378_360, 144_000));
}

#[test]
fn a_new_selection_out_of_view_resets_the_map() {
    let mut p = Contacts::new();
    let k1 = Some("K1ABC".to_string());
    assert!(p.observe_selection(&k1, Some(false)));
    assert!(!p.observe_selection(&k1, Some(false)), "panned away since");
    let w4 = Some("W4LL".to_string());
    assert!(!p.observe_selection(&w4, Some(true)));
    assert!(!p.observe_selection(&None, Some(false)));
    assert!(!p.observe_selection(&w4, None));
}
