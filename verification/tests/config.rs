use dm420::config_toml::{bool_str, parse_bool, parse_table_value, parse_u16, rewrite_kv, update_toml_table};
use dm420::settings::{
    parse_serial_config, parse_station_config, read_theme_dark, save_theme_dark,
    update_station_config,
};
use dm420::types::LineProfile;

#[test]
fn parses_station_table_with_comments() {
    let cfg = "# header\n[station]\ncallsign = \"w4ll\"  # my call\ngrid = \"EM73\"\n";
    let (call, grid) = parse_station_config(cfg);
    assert_eq!(call.as_deref(), Some("w4ll"));
    assert_eq!(grid.as_deref(), Some("EM73"));
}

#[test]
fn ignores_other_tables_and_blank_values() {
    let cfg = "[other]\ncallsign = \"X\"\n\n[station]\ngrid = \"\"\n";
    let (call, grid) = parse_station_config(cfg);
    assert_eq!(call, None, "a callsign under [other] must not leak in");
    assert_eq!(grid, None, "an empty value is treated as unset");
}

#[test]
fn empty_config_is_unset() {
    assert_eq!(parse_station_config(""), (None, None));
}

#[test]
fn update_preserves_comments_and_round_trips() {
    let original = "# top\n[station]\ncallsign = \"OLD\"  # my call\ngrid = \"AA00\"\n";
    let updated = update_station_config(Some(original), "W4LL", "EM73");
    assert!(
        updated.contains("callsign = \"W4LL\"  # my call"),
        "inline comment kept: {updated}"
    );
    assert!(updated.contains("# top"), "header comment kept: {updated}");
    assert_eq!(
        parse_station_config(&updated),
        (Some("W4LL".to_string()), Some("EM73".to_string()))
    );
}

#[test]
fn update_appends_missing_keys_and_table() {
    let a = update_station_config(Some("[station]\ncallsign = \"X\"\n"), "X", "EM73");
    assert_eq!(
        parse_station_config(&a),
        (Some("X".to_string()), Some("EM73".to_string()))
    );
    let b = update_station_config(None, "W4LL", "EM73");
    assert!(b.contains("[station]"));
    assert_eq!(
        parse_station_config(&b),
        (Some("W4LL".to_string()), Some("EM73".to_string()))
    );
    let c = update_station_config(Some("# just a note\n"), "W4LL", "EM73");
    assert!(c.contains("# just a note"));
    assert_eq!(
        parse_station_config(&c),
        (Some("W4LL".to_string()), Some("EM73".to_string()))
    );
}

#[test]
fn parses_serial_table_with_all_fields() {
    let cfg = "[serial]\nport = \"/dev/cu.usbserial-120\"\nbaud = \"9600\"\n\
               profile = \"dtr-rts\"\nautodetect = \"false\"\n";
    let s = parse_serial_config(cfg);
    assert_eq!(s.port.as_deref(), Some("/dev/cu.usbserial-120"));
    assert_eq!(s.baud, Some(9600));
    assert_eq!(s.profile, Some(LineProfile::AssertDtrRts));
    assert_eq!(s.autodetect, Some(false));
}

#[test]
fn serial_partial_and_garbage_values_are_unset() {
    let cfg = "[serial]\nport = \"\"\nbaud = \"fast\"\n";
    let s = parse_serial_config(cfg);
    assert_eq!(s.port, None, "empty port is treated as unset (autodetect)");
    assert_eq!(s.baud, None, "unparseable baud falls back to the default");
    assert_eq!(s.profile, None);
    assert_eq!(s.autodetect, None);
}

#[test]
fn serial_round_trips_through_the_toml_writer() {
    let text = update_toml_table(
        "",
        "serial",
        &[
            ("port", "/dev/ttyUSB0"),
            ("usb_serial", "52238a72"),
            ("usb_vid", "0x10C4"),
            ("usb_pid", "0xEA60"),
            ("baud", "19200"),
            ("profile", LineProfile::Default.label()),
            ("autodetect", "true"),
        ],
    );
    let s = parse_serial_config(&text);
    assert_eq!(s.port.as_deref(), Some("/dev/ttyUSB0"));
    assert_eq!(s.usb_serial.as_deref(), Some("52238a72"));
    assert_eq!(s.usb_vid, Some(0x10C4));
    assert_eq!(s.usb_pid, Some(0xEA60));
    assert_eq!(s.baud, Some(19_200));
    assert_eq!(s.profile, Some(LineProfile::Default));
    assert_eq!(s.autodetect, Some(true));
}

#[test]
fn display_theme_round_trips_and_preserves_other_tables() {
    let text = update_toml_table(
        "# top\n[station]\ncallsign = \"W4LL\"\n",
        "display",
        &[("dark", "false")],
    );
    assert!(text.contains("# top"), "header comment kept: {text}");
    assert_eq!(
        parse_station_config(&text),
        (Some("W4LL".to_string()), None),
        "station table survives: {text}"
    );
    assert_eq!(
        parse_table_value(&text, "display", "dark").as_deref(),
        Some("false")
    );
    let flipped = update_toml_table(&text, "display", &[("dark", "true")]);
    assert_eq!(
        flipped.matches("dark =").count(),
        1,
        "key rewritten, not appended: {flipped}"
    );
    assert_eq!(
        parse_table_value(&flipped, "display", "dark").and_then(|s| s.parse::<bool>().ok()),
        Some(true)
    );
}

#[test]
fn window_fullscreen_flag_round_trips_with_size() {
    let text = update_toml_table(
        "",
        "window",
        &[("width", "1200"), ("height", "800"), ("fullscreen", "true")],
    );
    let number = |key: &str| {
        parse_table_value(&text, "window", key).and_then(|s| s.parse::<f32>().ok())
    };
    assert_eq!(number("width"), Some(1200.0));
    assert_eq!(number("height"), Some(800.0));
    assert_eq!(
        parse_table_value(&text, "window", "fullscreen").and_then(|s| s.parse::<bool>().ok()),
        Some(true)
    );
    let windowed = update_toml_table(&text, "window", &[("fullscreen", "false")]);
    assert_eq!(
        windowed.matches("fullscreen =").count(),
        1,
        "rewritten: {windowed}"
    );
    assert_eq!(
        parse_table_value(&windowed, "window", "fullscreen").and_then(|s| s.parse::<bool>().ok()),
        Some(false)
    );
}

#[test]
fn config_toml_usb_ids_parse_hex_and_decimal() {
    assert_eq!(parse_u16("0x10C4"), Some(0x10C4));
    assert_eq!(parse_u16("0X10c4"), Some(0x10C4));
    assert_eq!(parse_u16("4292"), Some(4292));
    assert_eq!(parse_u16("nope"), None);
}

#[test]
fn settings_usb_ids_parse_hex_and_decimal() {
    assert_eq!(parse_u16("0x10C4"), Some(0x10C4));
    assert_eq!(parse_u16("0X10c4"), Some(0x10C4));
    assert_eq!(parse_u16("4292"), Some(4292));
    assert_eq!(parse_u16("nope"), None);
}

#[test]
fn flags_are_spelled_and_read_back() {
    assert_eq!(bool_str(true), "true");
    assert_eq!(bool_str(false), "false");
    assert_eq!(parse_bool("true"), Some(true));
    assert_eq!(parse_bool("false"), Some(false));
    assert_eq!(parse_bool("True"), None);
}

#[test]
fn a_rewritten_line_keeps_indent_and_comment() {
    assert_eq!(
        rewrite_kv("  grid = \"AA00\"   # square", "EM73"),
        "  grid = \"EM73\"  # square"
    );
}

#[test]
fn a_saved_theme_is_read_back() {
    let text = save_theme_dark(Some("# mine\n[station]\ngrid = \"EM73\"\n"), true);
    assert!(text.starts_with("# mine\n"));
    assert_eq!(read_theme_dark(Some(&text)), Some(true));
    let text = save_theme_dark(Some(&text), false);
    assert_eq!(read_theme_dark(Some(&text)), Some(false));
    assert_eq!(read_theme_dark(None), None);
}

#[test]
fn a_value_written_twice_stands_once() {
    let once = update_toml_table("[a]\nx = \"1\"\n", "b", &[("x", "2"), ("y", "3")]);
    let twice = update_toml_table(&once, "b", &[("x", "2"), ("y", "3")]);
    assert_eq!(once, twice);
    assert_eq!(parse_table_value(&twice, "a", "x").as_deref(), Some("1"));
    assert_eq!(parse_table_value(&twice, "b", "x").as_deref(), Some("2"));
    assert_eq!(parse_table_value(&twice, "b", "y").as_deref(), Some("3"));
}

#[test]
fn an_id_is_read_back_however_it_is_spelled() {
    for v in [0u16, 9, 10, 0xAB, 0x0FFF, 0x10C4, u16::MAX] {
        for s in [
            format!("0x{v:04X}"),
            format!("0X{v:04X}"),
            format!("0x{v:x}"),
            format!("0X{v:x}"),
            v.to_string(),
        ] {
            assert_eq!(parse_u16(&s), Some(v), "{s}");
        }
    }
    assert_eq!(parse_u16("65536"), None);
}
