use dm420::bus_view::{BusView, Control, Outgoing};
use dm420::choices::{read_active_bands, save_active_bands, starting_bands};
use dm420::settings::{
    default_station_toml, env_flag, env_nonempty, log_level, logbook_path, parse_audio_config,
    parse_u32, protocol_from_env, read_layout_shares, read_protocol, read_theme_dark,
    read_waterslide_wide, read_window_size, save_hardware_config, save_waterslide_wide,
    save_window_layout, serial_from_env, starting_protocol, tx_gain, wav_from_env,
    DecodeSource, Environment, HardwareConfig, LayoutNumbers, LayoutText, LogbookPath, SerialFile,
    Settings, Station, WindowNumbers, WindowText, DEFAULT_BAUD,
};
use dm420::config_toml::parse_table_value;
use dm420::types::{hf_bands, Band, LineProfile, Protocol, SerialConfig};

#[test]
fn an_identity_comes_from_the_variable_then_the_file() {
    let file = "[station]\ncallsign = \"w4ll\"\ngrid = \"em73\"\n";
    let s = Station::load(None, None, Some(file));
    assert_eq!((s.call.as_str(), s.grid.as_str()), ("W4LL", "EM73"));
    assert!(s.is_set());
    let s = Station::load(Some("n0jdc"), Some(""), Some(file));
    assert_eq!((s.call.as_str(), s.grid.as_str()), ("N0JDC", "EM73"));
    let none = Station::load(None, None, None);
    assert!(!none.is_set());
    assert_eq!(none.to_qso_config().fd_class, "1B");
}

#[test]
fn an_identity_is_read_back() {
    let s = Station {
        call: "W4LL".into(),
        grid: "EM73".into(),
    };
    let text = s.save(Some("# mine\n"));
    assert!(text.starts_with("# mine\n"));
    let back = Station::load(None, None, Some(&text));
    assert_eq!((back.call, back.grid), (s.call, s.grid));
    let fresh = default_station_toml("K1ABC", "FN31");
    assert!(fresh.ends_with("\n"));
    assert_eq!(
        parse_table_value(&fresh, "station", "callsign").as_deref(),
        Some("K1ABC")
    );
}

#[test]
fn flags_and_levels_have_defaults() {
    assert!(env_flag(Some("1")) && env_flag(Some("no")));
    assert!(!env_flag(Some("0")) && !env_flag(Some("")) && !env_flag(None));
    assert_eq!(env_nonempty(Some("")), None);
    assert_eq!(env_nonempty(Some("x")).as_deref(), Some("x"));
    assert_eq!(log_level(None), "info");
    assert_eq!(log_level(Some("[logging]\nlevel = \"debug\"\n")), "debug");
    assert_eq!(parse_u32("4294967295"), Some(u32::MAX));
    assert_eq!(parse_u32("4294967296"), None);
    assert_eq!(protocol_from_env(Some(" FT4 ")), Protocol::Ft4);
    assert_eq!(protocol_from_env(Some("psk")), Protocol::Ft8);
    assert_eq!(wav_from_env(Some("a.wav"), true).as_deref(), Some("a.wav"));
    assert_eq!(wav_from_env(Some("a.wav"), false), None);
    assert_eq!(
        parse_audio_config("[audio]\ninput = \"USB\"\n"),
        (Some("USB".to_string()), None)
    );
}

#[test]
fn the_serial_line_comes_from_variables_then_the_file() {
    let mut file = SerialFile::none();
    file.baud = Some(4_800);
    let s = serial_from_env(Some("/dev/ttyS0"), Some("fast"), None, file);
    assert_eq!(s.port.as_deref(), Some("/dev/ttyS0"));
    assert_eq!(s.baud, DEFAULT_BAUD, "a speed that is no number counts as the default");
    let mut file = SerialFile::none();
    file.baud = Some(4_800);
    assert_eq!(serial_from_env(None, None, Some("dtr-rts"), file).baud, 4_800);
    let s = serial_from_env(None, None, None, SerialFile::none());
    assert_eq!(s.baud, DEFAULT_BAUD);
    assert_eq!(s.profile, LineProfile::Default);
}

fn environment() -> Environment<'static> {
    Environment {
        mock: None,
        audio_input: None,
        serial_port: None,
        serial_baud: None,
        serial_profile: None,
        mode: None,
        wav: None,
        wav_exists: false,
        tx_gain: Some(2f32.to_bits()),
        default_gain: 0.5f32.to_bits(),
    }
}

#[test]
fn a_recording_is_replayed_without_end() {
    let mut env = environment();
    env.wav = Some("a.wav");
    env.wav_exists = true;
    env.mode = Some("ft4");
    let s = Settings::from_env(&env, None);
    assert!(s.is_real());
    let core = s.core_config(None, true, None);
    assert!(core.allow_transmit);
    assert_eq!(core.tx_gain, 1f32.to_bits());
    assert!(matches!(core.decode, DecodeSource::Wav { path, protocol: Protocol::Ft4, looping: true }
        if path == "a.wav"));
    assert!(matches!(core.logbook, LogbookPath::Home));
    env.mock = Some("1");
    assert!(!Settings::from_env(&env, None).is_real());
    assert!(matches!(logbook_path(Some("x.db"), true), LogbookPath::At(p) if p == "x.db"));
    assert!(matches!(logbook_path(None, false), LogbookPath::Here));
}

#[test]
fn hardware_is_read_back() {
    let cfg = HardwareConfig {
        audio_input: Some("USB Audio".into()),
        audio_output: None,
        serial: SerialConfig {
            port: Some("/dev/ttyUSB0".into()),
            usb_serial: Some("52238a72".into()),
            usb_vid: Some(0x10C4),
            usb_pid: Some(0xEA60),
            baud: 19_200,
            profile: LineProfile::AssertDtrRts,
            autodetect: false,
        },
        protocol: Protocol::Ft4,
    };
    let text = save_hardware_config(Some("# top\n"), &cfg);
    assert!(text.contains("# top"));
    let s = Settings::from_env(&environment(), Some(&text));
    let back = s.hardware();
    assert_eq!(back.audio_input.as_deref(), Some("USB Audio"));
    assert_eq!(back.audio_output, None);
    assert_eq!(back.serial.port.as_deref(), Some("/dev/ttyUSB0"));
    assert_eq!(back.serial.usb_vid, Some(0x10C4));
    assert_eq!(back.serial.baud, 19_200);
    assert_eq!(back.serial.profile, LineProfile::AssertDtrRts);
    assert!(!back.serial.autodetect);
    assert_eq!(back.protocol, Protocol::Ft4);
}

#[test]
fn a_switched_mode_is_in_force_at_the_next_start() {
    let start = Settings::from_env(&environment(), None).hardware();
    assert_eq!(start.protocol, Protocol::Ft8);
    let mut view = BusView::new(start, Control { rig: false, audio: true, tx: false });
    assert!(view.set_protocol(Protocol::Ft8).is_empty(), "it is on already");
    let out = view.set_protocol(Protocol::Ft4);
    assert_eq!(out.len(), 2);
    let text = match &out[1] {
        Outgoing::SaveHardware(cfg) => save_hardware_config(None, cfg),
        other => panic!("{other:?}"),
    };
    assert_eq!(Settings::from_env(&environment(), Some(&text)).protocol, Protocol::Ft4);
    let mut env = environment();
    env.mode = Some("");
    assert_eq!(Settings::from_env(&env, Some(&text)).protocol, Protocol::Ft4);
    env.mode = Some(" FT8 ");
    assert_eq!(Settings::from_env(&env, Some(&text)).protocol, Protocol::Ft8);
    env.mode = Some("psk");
    assert_eq!(Settings::from_env(&env, Some(&text)).protocol, Protocol::Ft8);
    let odd = "[audio]\nmode = \"psk\"\n";
    assert_eq!(read_protocol(Some(odd)), None);
    assert_eq!(starting_protocol(None, Some(odd)), Protocol::Ft8);
}

#[test]
fn chosen_bands_are_read_back() {
    let all = hf_bands();
    assert_eq!(read_active_bands(None), None);
    assert_eq!(starting_bands(None, &all), all);
    let text = save_active_bands(None, &vec![Band::B40m, Band::B10m]);
    assert!(text.contains("list = \"40m, 10m\""), "{text}");
    assert_eq!(read_active_bands(Some(&text)), Some(vec![Band::B40m, Band::B10m]));
    assert_eq!(starting_bands(Some(&text), &all), vec![Band::B40m, Band::B10m]);
    let none = save_active_bands(Some(&text), &vec![]);
    assert_eq!(read_active_bands(Some(&none)), Some(vec![]));
    assert!(starting_bands(Some(&none), &all).is_empty());
    let odd = "[bands]\nlist = \" 10m ,11m,40m\"\n";
    assert_eq!(read_active_bands(Some(odd)), Some(vec![Band::B10m, Band::B40m]));
    assert_eq!(starting_bands(Some(odd), &all), vec![Band::B40m, Band::B10m]);
    assert_eq!(read_active_bands(Some("[bands]\nlist = \"11m\"\n")), None);
}

#[test]
fn the_display_is_read_back() {
    let text = save_waterslide_wide(None, true);
    assert!(read_waterslide_wide(Some(&text)));
    assert!(!read_waterslide_wide(None));
    assert_eq!(read_theme_dark(Some(&text)), None);
}

fn numbers(text: &str, table: &str, key: &str) -> Option<u32> {
    parse_table_value(text, table, key)
        .and_then(|s| s.parse::<f32>().ok())
        .map(f32::to_bits)
}

#[test]
fn the_window_and_its_tiles_are_read_back() {
    let win = WindowText {
        width: "1200.0".into(),
        height: "800.5".into(),
        pos: Some(("-10.0".into(), "20.0".into())),
        fullscreen: true,
    };
    let lay = LayoutText {
        waterfall: "470.0".into(),
        right: "490.0".into(),
        log: "142.0".into(),
        band: "176.0".into(),
        callsign: "128.0".into(),
        contacts: "154.0".into(),
    };
    let text = save_window_layout(None, &win, &lay);
    let n = WindowNumbers {
        width: numbers(&text, "window", "width"),
        height: numbers(&text, "window", "height"),
        x: numbers(&text, "window", "x"),
        y: numbers(&text, "window", "y"),
    };
    let w = read_window_size(n, Some(&text)).unwrap();
    assert_eq!(f32::from_bits(w.width), 1200.0);
    assert_eq!(f32::from_bits(w.height), 800.5);
    assert_eq!(w.pos.map(|p| f32::from_bits(p.0)), Some(-10.0));
    assert!(w.fullscreen);
    assert!(read_window_size(n, None).is_none());
    let shares = LayoutNumbers {
        waterfall: numbers(&text, "layout", "waterfall"),
        right: numbers(&text, "layout", "right"),
        log: numbers(&text, "layout", "log"),
        band: numbers(&text, "layout", "band"),
        callsign: numbers(&text, "layout", "callsign"),
        contacts: numbers(&text, "layout", "contacts"),
    };
    let l = read_layout_shares(shares, Some(&text), 1f32.to_bits()).unwrap();
    assert_eq!(f32::from_bits(l.callsign), 128.0);
    assert_eq!(f32::from_bits(l.log), 142.0);
    let mut bad = shares;
    bad.log = Some((-1f32).to_bits());
    assert!(read_layout_shares(bad, Some(&text), 0).is_none());
    assert!(!text.contains("1200.0"), "a whole number has no decimal");
}

#[test]
fn only_a_missing_call_sign_share_has_a_default() {
    let one = Some(1f32.to_bits());
    let shares = LayoutNumbers {
        waterfall: one,
        right: one,
        log: one,
        band: one,
        callsign: None,
        contacts: one,
    };
    let older = "[layout]\nlog = \"1\"\n";
    let l = read_layout_shares(shares, Some(older), 128f32.to_bits()).unwrap();
    assert_eq!(f32::from_bits(l.callsign), 128.0);
    let garbled = "[layout]\ncallsign = \"wide\"\n";
    assert!(read_layout_shares(shares, Some(garbled), 128f32.to_bits()).is_none());
    for v in [0.0, -3.0, f32::NAN, f32::INFINITY] {
        let mut bad = shares;
        bad.callsign = Some(v.to_bits());
        let text = format!("[layout]\ncallsign = \"{v}\"\n");
        assert!(read_layout_shares(bad, Some(&text), 128f32.to_bits()).is_none(), "{v}");
    }
    let mut missing = shares;
    missing.band = None;
    assert!(read_layout_shares(missing, Some(older), 128f32.to_bits()).is_none());
}

#[test]
fn the_level_is_held_below_full_scale() {
    let d = 0.5f32.to_bits();
    assert_eq!(tx_gain(None, d), d);
    assert_eq!(tx_gain(Some(f32::NAN.to_bits()), d), d);
    assert_eq!(f32::from_bits(tx_gain(Some(7f32.to_bits()), d)), 1.0);
    assert_eq!(f32::from_bits(tx_gain(Some((-7f32).to_bits()), d)), 0.0);
    assert_eq!(f32::from_bits(tx_gain(Some(0.25f32.to_bits()), d)), 0.25);
}

#[test]
fn a_fresh_file_keeps_no_archive() {
    let fresh = default_station_toml("K1ABC", "FN31");
    let s = Station::load(None, None, Some(&fresh));
    assert_eq!((s.call.as_str(), s.grid.as_str()), ("K1ABC", "FN31"));
    assert!(fresh.contains("decodes"));
    assert_eq!(parse_table_value(&fresh, "archive", "decodes"), None);
}
