use dm420::logging::{
    build_directive, directive_for, is_steady, normalize_level, start_directive,
};

#[test]
fn unknown_level_defaults_to_info() {
    assert_eq!(normalize_level("debug"), "debug");
    assert_eq!(normalize_level("DEBUG"), "debug");
    assert_eq!(normalize_level("warning"), "warn");
    assert_eq!(normalize_level("nonsense"), "info");
    assert_eq!(normalize_level(""), "info");
}

#[test]
fn directive_scopes_our_crates_and_pins_the_rest() {
    let d = build_directive("debug", None);
    assert!(d.starts_with("warn"), "third-party pinned at warn: {d}");
    assert!(d.contains("core=debug"), "our crates raised: {d}");
    assert!(d.contains("dm420=debug"));
    assert!(build_directive("info", None).contains("audio=info"));
    assert!(build_directive("bogus", None).contains("rig=info"));
}

#[test]
fn rust_log_overrides_when_valid() {
    assert_eq!(
        build_directive("info", Some("core::tx=debug")),
        "core::tx=debug"
    );
    assert!(build_directive("info", Some("  ")).contains("core=info"));
}

#[test]
fn a_refused_override_falls_back() {
    assert!(build_directive("trace", Some("core=loud")).contains("core=trace"));
    assert_eq!(directive_for("info", Some("x"), true), "x");
    assert!(directive_for("info", Some("x"), false).starts_with("warn"));
}

#[test]
fn overrides_with_stray_blanks_and_foreign_letters_are_told_apart() {
    assert!(is_steady("core=debug,rig=info"));
    assert!(is_steady(" core=debug"));
    assert!(!is_steady("core=debug, r\u{e9}=info"));
    assert!(is_steady("core=debug, r\u{e9}"), "nothing is cut");
    assert!(is_steady("core=debug,r\u{e9}=info"), "no blank");
    assert!(!is_steady("  r\u{e9}=info"));
    assert!(is_steady("   r\u{e9}=info"), "both cuts fall between characters");
    assert!(is_steady(" a[b{c=d}]=info"));
    assert!(!is_steady(" a[\u{e9}]=info"));
    assert!(is_steady(" ]\u{e9}"));
}

#[test]
fn overrides_with_foreign_letters_win_where_they_are_filters() {
    for s in ["core=debug, caf\u{e9}", "core=debug,caf\u{e9}=info", "rig, \u{e9}]x"] {
        assert_eq!(start_directive("info", Some(s)), s);
        assert_eq!(build_directive("info", Some(s)), s);
    }
    assert!(start_directive("info", Some("core,   r\u{e9}=info")).contains("core=info"));
    assert!(build_directive("info", Some("core,   r\u{e9}=info")).contains("core=info"));
}

#[test]
fn the_log_starts_whatever_the_override_holds() {
    assert!(start_directive("info", Some("core=debug, r\u{e9}=info")).contains("core=info"));
    assert_eq!(start_directive("info", Some(" rig=trace ")), "rig=trace");
    assert!(start_directive("debug", Some("core=loud")).contains("core=debug"));
    assert!(start_directive("warn", None).contains("rig=warn"));
}
