use dm420::bus_view::SpectrumRow;
use dm420::lane_finder::{pick, pick_cq_offset, row_ages, Heard, LaneRow, Occupancy, MIN_SCALE};
use dm420::types::{OffsetHz, OverAirMode, SignalSource};

const FT8_BW: u32 = 50;
const STEP: f64 = 65536.0;
const FULL: u32 = 1 << 30;

fn floor_with_signals(floor: u8, signals: &[(usize, usize)]) -> LaneRow {
    let n = 601;
    let mut mags = vec![floor; n];
    for &(lo, hi) in signals {
        let a = lo / 5;
        let b = (hi / 5).min(n - 1);
        for m in mags.iter_mut().take(b + 1).skip(a) {
            *m = 230;
        }
    }
    LaneRow {
        received: true,
        bin0: 0,
        bin: 5_000_000,
        weight: FULL,
        mags,
    }
}

fn hz(half: u32) -> f64 {
    half as f64 / 2.0
}

#[test]
fn empty_spectrum_defaults_to_center() {
    let off = hz(pick_cq_offset(&vec![], &vec![], FT8_BW, 0).unwrap());
    assert!((off - (1500.0 - FT8_BW as f64 / 2.0)).abs() < 5.0);
    assert_eq!(pick_cq_offset(&vec![], &vec![], 83, 0), Some(2917));
}

#[test]
fn degenerate_bandwidth_returns_none() {
    assert!(pick_cq_offset(&vec![], &vec![], 0, 0).is_none());
    assert!(pick_cq_offset(&vec![], &vec![], 2_501, 0).is_none());
    assert!(pick_cq_offset(&vec![], &vec![], 2_500, 0).is_some());
}

#[test]
fn occupancy_floor_subtracted_clear_band_is_zero() {
    let occ = Occupancy::build(&vec![floor_with_signals(120, &[])]);
    let (peak, _, _) = occ.region(500, 5_500);
    assert!((peak as f64) < STEP, "flat band should be ~0 excess, got {peak}");
    assert_eq!(occ.scale, MIN_SCALE);
}

#[test]
fn occupancy_marks_a_signal() {
    let occ = Occupancy::build(&vec![floor_with_signals(60, &[(1480, 1530)])]);
    let (on_peak, _, _) = occ.region(2 * 1480, 2 * 1530);
    let (off_peak, _, _) = occ.region(2 * 800, 2 * 850);
    assert!(on_peak as f64 > 100.0 * STEP, "signal cell should be hot, got {on_peak}");
    assert!((off_peak as f64) < STEP, "clear cell should be ~0, got {off_peak}");
}

#[test]
fn avoids_a_busy_center_picks_clear_lane() {
    let occ = Occupancy::build(&vec![floor_with_signals(50, &[(1350, 1650)])]);
    let off = hz(pick(&occ, &vec![], FT8_BW));
    let lane_lo = off;
    let lane_hi = off + FT8_BW as f64;
    assert!(
        lane_hi <= 1350.0 || lane_lo >= 1650.0,
        "lane [{lane_lo},{lane_hi}] should clear the busy 1350..1650 block"
    );
}

#[test]
fn among_clear_lanes_prefers_center() {
    let occ = Occupancy::build(&vec![floor_with_signals(50, &[(600, 700), (2300, 2400)])]);
    let off = hz(pick(&occ, &vec![], FT8_BW));
    let center = off + FT8_BW as f64 / 2.0;
    assert!(
        (center - 1500.0).abs() < 150.0,
        "expected a near-center pick, got center {center}"
    );
}

#[test]
fn routes_around_a_recent_decode_on_center() {
    let occ = Occupancy::build(&vec![floor_with_signals(50, &[])]);
    let decode_at_center = 1500.0 - FT8_BW as f64 / 2.0;
    let off = hz(pick(&occ, &vec![(decode_at_center * 1000.0) as i64], FT8_BW));
    let bw = FT8_BW as f64;
    let gap = ((off - (decode_at_center + bw)).max(decode_at_center - (off + bw))).max(0.0);
    assert!(
        gap > 0.0,
        "pick {off} should not overlap the decode at {decode_at_center}"
    );
}

#[test]
fn pick_stays_in_usable_window() {
    let occ = Occupancy::build(&vec![floor_with_signals(50, &[(1350, 1650)])]);
    let off = hz(pick(&occ, &vec![], FT8_BW));
    assert!(off >= 250.0 && off + FT8_BW as f64 <= 2750.0);
}

#[test]
fn recency_weights_newer_rows() {
    let mut old = floor_with_signals(50, &[(1400, 1600)]);
    old.weight = (0.5f64.powf(60_000.0 / 8_000.0) * FULL as f64) as u32;
    let fresh = floor_with_signals(50, &[]);
    let occ = Occupancy::build(&vec![old, fresh]);
    let (peak, _, _) = occ.region(2 * 1450, 2 * 1550);
    assert!(
        (peak as f64) < 20.0 * STEP,
        "stale signal should have decayed, peak {peak}"
    );
}

#[test]
fn a_clear_band_is_called_in_the_middle() {
    let rows = vec![floor_with_signals(80, &[])];
    assert_eq!(pick_cq_offset(&rows, &vec![], FT8_BW, 0), Some(2_950));
}

#[test]
fn decodes_count_for_three_slots() {
    let rows = vec![floor_with_signals(80, &[])];
    let heard = vec![Heard {
        t_ms: 0,
        offset: 1_475_000,
    }];
    assert_ne!(pick_cq_offset(&rows, &heard, FT8_BW, 45_000), Some(2_950));
    assert_eq!(pick_cq_offset(&rows, &heard, FT8_BW, 45_001), Some(2_950));
}

#[test]
fn own_rows_count_for_nothing() {
    let mut own = floor_with_signals(80, &[(1400, 1600)]);
    own.received = false;
    assert_eq!(pick_cq_offset(&vec![own], &vec![], FT8_BW, 0), Some(2_950));
}

#[test]
fn ages_count_from_the_newest_received_row() {
    let row = |t_ms: i64, source: SignalSource| SpectrumRow {
        mode: OverAirMode::Ft8,
        t_ms,
        bin0_offset: OffsetHz(0),
        bin_hz: 0x40a0_0000,
        mags: vec![],
        source,
    };
    let rows = vec![
        row(1_000, SignalSource::Received),
        row(9_000, SignalSource::OwnTx),
        row(4_000, SignalSource::Received),
    ];
    assert_eq!(row_ages(&rows), vec![3_000, 0, 0]);
    assert_eq!(row_ages(&vec![row(5, SignalSource::OwnTx)]), Vec::<u64>::new());
}
