use dm420::choices::{save_operator, Contest};
use dm420::console::{
    by_number, clock_text, takes_keyboard_focus, title, CloseAction, Console, KeepStep, LockAction, PanelId,
};
use dm420::flag::{design, rgb, Design, Paint};
use dm420::relief::make_relief;
use dm420::settings::{Station, WindowSize};
use dm420::theme::{letter_spaced, palette, switch_clicks, PaletteName};
use dm420::types::{Callsign, ContestProfile, DecodeRef, Selection, SlotId};

fn console(call: &str, saved: Option<WindowSize>) -> Console {
    Console::new(
        Station {
            call: call.into(),
            grid: "EM73".into(),
        },
        Contest::load(None),
        false,
        false,
        saved,
    )
}

fn window(width: f32, height: f32) -> WindowSize {
    WindowSize {
        width: width.to_bits(),
        height: height.to_bits(),
        pos: Some((0f32.to_bits(), 0f32.to_bits())),
        fullscreen: false,
    }
}

#[test]
fn a_station_without_a_call_is_asked_for_one() {
    assert!(console("  ", None).edit_mode);
    assert!(!console("W4LL", None).edit_mode);
}

#[test]
fn the_system_face_is_taken_once() {
    let mut c = console("W4LL", None);
    c.seed_theme(None);
    assert!(c.dark && !c.seeded);
    c.seed_theme(Some(false));
    assert!(!c.dark);
    c.seed_theme(Some(true));
    assert!(!c.dark, "the system counts no more");
    assert_eq!(c.choose_theme(false, false), None);
    assert_eq!(c.choose_theme(true, false), Some(true));
    assert!(c.dark);
    let mut forced = Console::new(
        Station {
            call: "W4LL".into(),
            grid: "".into(),
        },
        Contest::load(None),
        true,
        false,
        None,
    );
    forced.seed_theme(Some(true));
    assert!(!forced.dark);
    assert_eq!(palette(forced.dark), PaletteName::Silver);
}

#[test]
fn locking_puts_the_identity_in_force() {
    let mut c = console("", None);
    c.type_call("w4ll");
    c.type_grid("em73");
    assert_eq!((c.station.call.as_str(), c.station.grid.as_str()), ("W4LL", "EM73"));
    let out = c.switch_lock(true, false);
    assert!(!c.edit_mode);
    assert!(matches!(&out[0], LockAction::SetStation(s) if s.call.0 == "W4LL"));
    assert!(matches!(&out[1], LockAction::SaveStation));
    assert!(c.switch_lock(false, true).is_empty());
    assert!(c.edit_mode);
    let mut unset = console("", None);
    assert_eq!(unset.switch_lock(true, false).len(), 1);
}

#[test]
fn keys_and_clicks_move_the_keyboard() {
    let mut c = console("W4LL", None);
    assert_eq!(by_number(6), None);
    c.focus_number(Some(5));
    assert_eq!(c.focused, PanelId::Contacts);
    c.focus_click(PanelId::Band);
    assert_eq!(c.focused, PanelId::Contacts);
    c.focus_click(PanelId::Log);
    assert_eq!(c.focused, PanelId::Log);
    assert!(!takes_keyboard_focus(PanelId::CallSign));
    assert_eq!(title(PanelId::Band), "Band Status");
}

#[test]
fn the_selection_is_shared() {
    let mut c = console("W4LL", None);
    c.observe_selection(&Some(Selection {
        target: Some(DecodeRef {
            slot: SlotId(1),
            call: Some(Callsign("K1ABC".into())),
        }),
        context: None,
    }));
    assert_eq!(c.selected.as_deref(), Some("K1ABC"));
    c.observe_selection(&None);
    assert_eq!(c.selected, None);
}

#[test]
fn a_window_is_kept_when_it_holds_still() {
    let mut c = console("W4LL", None);
    let w = window(1200.0, 800.0);
    assert!(matches!(c.keep_window(w, false, 0), KeepStep::Wait));
    assert!(matches!(c.keep_window(w, false, 699), KeepStep::Wait));
    let moved = window(1300.0, 800.0);
    assert!(matches!(c.keep_window(moved, false, 700), KeepStep::Wait));
    assert!(matches!(c.keep_window(moved, false, 1_400), KeepStep::Save(k) if k == moved));
    assert!(matches!(c.keep_window(moved, false, 9_000), KeepStep::Nothing));
    assert!(matches!(
        c.keep_window(window(0.0, 800.0), false, 9_000),
        KeepStep::Nothing
    ));
    let mut zero = moved;
    zero.pos = Some(((-0f32).to_bits(), 0f32.to_bits()));
    assert!(matches!(c.keep_window(zero, false, 99_000), KeepStep::Nothing));
}

#[test]
fn full_screen_keeps_the_window_it_came_from() {
    let mut c = console("W4LL", Some(window(900.0, 650.0)));
    let screen = window(2560.0, 1440.0);
    assert_eq!(c.current_window(screen, true).width, 900f32.to_bits());
    c.observe_window(window(1000.0, 700.0), false);
    c.observe_window(screen, true);
    let kept = c.current_window(screen, true);
    assert_eq!(kept.width, 1000f32.to_bits());
    assert!(kept.fullscreen);
    assert!(!c.current_window(screen, false).fullscreen);
}

#[test]
fn locking_puts_the_contest_in_force() {
    let mut c = console("W4LL", None);
    let out = c.switch_lock(true, false);
    assert!(matches!(&out[0], LockAction::SetStation(s)
        if s.contest == ContestProfile::Standard && s.fd_class == "1B" && s.fd_section.0 == "CO"));
    c.choose_contest(ContestProfile::ArrlFieldDay);
    c.type_class("3a");
    c.type_section("ga");
    let out = c.switch_lock(true, false);
    assert!(matches!(&out[0], LockAction::SetStation(s)
        if s.contest == ContestProfile::ArrlFieldDay && s.fd_class == "3A"
            && s.fd_section.0 == "GA" && s.call.0 == "W4LL" && s.grid.0 == "EM73"));
    assert!(matches!(out[1], LockAction::SaveStation));
}

#[test]
fn the_contest_is_read_back() {
    let mut c = console("W4LL", None);
    c.choose_contest(ContestProfile::ArrlFieldDay);
    c.type_class("3a");
    c.type_section("ga");
    let text = save_operator(Some("[audio]\ninput = \"x\"\n"), &c.station, &c.contest);
    let back = Contest::load(Some(&text));
    assert_eq!(back.profile, ContestProfile::ArrlFieldDay);
    assert_eq!((back.class.as_str(), back.section.as_str()), ("3A", "GA"));
    let station = Station::load(None, None, Some(&text));
    assert_eq!((station.call.as_str(), station.grid.as_str()), ("W4LL", "EM73"));
    assert!(text.contains("input = \"x\""));
    c.choose_contest(ContestProfile::Standard);
    let text = save_operator(Some(&text), &c.station, &c.contest);
    assert_eq!(Contest::load(Some(&text)).profile, ContestProfile::Standard);
    let odd = Contest::load(Some("[station]\ncontest = \"sweepstakes\"\nfd_class = \"2b\"\n"));
    assert_eq!(odd.profile, ContestProfile::Standard);
    assert_eq!((odd.class.as_str(), odd.section.as_str()), ("2B", "CO"));
}

#[test]
fn closing_unkeys_first() {
    let c = console("W4LL", None);
    assert_eq!(
        c.close(),
        vec![CloseAction::Unkey, CloseAction::SaveWindow, CloseAction::Exit]
    );
    let mut shot = Console::new(
        Station {
            call: "W4LL".into(),
            grid: "".into(),
        },
        Contest::load(None),
        false,
        true,
        None,
    );
    assert_eq!(shot.close(), vec![CloseAction::Unkey, CloseAction::Exit]);
    let taken: Vec<bool> = (0..5).map(|_| shot.shot_frame()).collect();
    assert_eq!(taken, [false, false, false, true, false]);
}

#[test]
fn legends_are_spaced() {
    assert_eq!(letter_spaced(""), "");
    assert_eq!(letter_spaced("A"), "A");
    assert_eq!(letter_spaced("FT8"), "F\u{2009}T\u{2009}8");
    assert_eq!(switch_clicks(true, &vec![true, false]), vec![false, true]);
    assert_eq!(switch_clicks(false, &vec![true, false]), vec![false, false]);
}

#[test]
fn flags_have_their_design() {
    assert!(matches!(design("FR"), Design::Stripes(v)
        if v == [Paint::Blue, Paint::White, Paint::Red]));
    assert!(matches!(design("NI"), Design::Bands(v)
        if v == [Paint::Azure, Paint::White, Paint::Azure]));
    assert!(matches!(
        design("SE"),
        Design::Nordic {
            field: Paint::Azure,
            cross: Paint::Gold
        }
    ));
    assert!(matches!(design("GG"), Design::Uk));
    assert!(matches!(design("NP"), Design::Chip));
    assert!(matches!(design("fr"), Design::Chip));
    assert_eq!(rgb(Paint::Orange), (0xFF, 0x79, 0x00));
}

#[test]
fn relief_becomes_a_tint() {
    let gray = image::GrayImage::from_raw(2, 1, vec![255, 55]).unwrap();
    let mut bytes = std::io::Cursor::new(Vec::new());
    gray.write_to(&mut bytes, image::ImageFormat::Png).unwrap();
    let o = make_relief(&bytes.into_inner()).unwrap();
    assert_eq!((o.width, o.height), (2, 1));
    assert_eq!(o.rgba, [255, 255, 255, 0, 255, 255, 255, 200]);
    assert!(make_relief(&[1, 2, 3]).is_none());
    assert!(make_relief(&[]).is_none());
}

#[test]
fn relief_keeps_the_size_of_a_picture_in_colour() {
    let colour = image::RgbImage::from_raw(1, 2, vec![255, 255, 255, 0, 0, 0]).unwrap();
    let mut bytes = std::io::Cursor::new(Vec::new());
    colour.write_to(&mut bytes, image::ImageFormat::Png).unwrap();
    let bytes = bytes.into_inner();
    let o = make_relief(&bytes).unwrap();
    assert_eq!((o.width, o.height), (1, 2));
    assert_eq!(o.rgba.len(), 8);
    assert_eq!((o.rgba[0], o.rgba[1], o.rgba[2]), (255, 255, 255));
    assert_eq!((o.rgba[4], o.rgba[5], o.rgba[6]), (255, 255, 255));
    assert!(o.rgba[3] < o.rgba[7]);
    assert!(make_relief(&bytes[..20]).is_none());
}

#[test]
fn relief_reads_grey_beside_transparency() {
    let grey = image::GrayAlphaImage::from_raw(2, 1, vec![255, 0, 55, 9]).unwrap();
    let mut bytes = std::io::Cursor::new(Vec::new());
    grey.write_to(&mut bytes, image::ImageFormat::Png).unwrap();
    let bytes = bytes.into_inner();
    assert_eq!(bytes[25], 4);
    let o = make_relief(&bytes).unwrap();
    assert_eq!(o.rgba, [255, 255, 255, 0, 255, 255, 255, 200]);
}

#[test]
fn a_clock_shows_the_time_of_day() {
    assert_eq!(clock_text(0), "00:00:00");
    assert_eq!(clock_text(((7 * 60 + 4) * 60 + 5) * 1_000 + 999), "07:04:05");
    assert_eq!(clock_text(86_400_000 * 3 - 1), "23:59:59");
}
