use lact::bootstrap::{log_line, prepare_portable_runtime, should_query_pixbuf_loaders, should_write_loader_cache};
use lact::gui::{device_name, format_clock, format_extra_clocks, format_fan, format_offset_range, format_utilization, offset_control, NvidiaClockOffset};
use lact::text::{push_decimal, push_hex_padded, push_plus_signed_decimal, push_signed_decimal, string_of};

#[test]
fn decimal_rendering() {
    for n in [0u64, 7, 10, 99, 100, 305, 1_000_000, u64::MAX] {
        let mut s = String::from("x");
        push_decimal(&mut s, n);
        assert_eq!(s, format!("x{n}"));
    }
    for n in [0i64, -1, 42, -305, i64::MIN, i64::MAX] {
        let mut s = String::new();
        push_signed_decimal(&mut s, n);
        assert_eq!(s, format!("{n}"));
        let mut p = String::new();
        push_plus_signed_decimal(&mut p, n);
        assert_eq!(p, format!("{n:+}"));
    }
}

#[test]
fn hex_rendering() {
    let mut s = String::new();
    push_hex_padded(&mut s, 0xbeef, 8);
    assert_eq!(s, "0000beef");
    let mut t = String::new();
    push_hex_padded(&mut t, 0xabcdef12, 4);
    assert_eq!(t, "ef12");
    assert_eq!(string_of("abc"), "abc");
}

#[test]
fn clock_labels() {
    assert_eq!(format_clock(Some(1950)), "1950 MHz");
    assert_eq!(format_clock(Some(0)), "0 MHz");
    assert_eq!(format_clock(None), "Unavailable");
}

#[test]
fn utilization_labels() {
    assert_eq!(format_utilization(Some(87)), "87%");
    assert_eq!(format_utilization(None), "Unavailable");
}

#[test]
fn fan_labels() {
    assert_eq!(format_fan(Some(45), Some(1500)), "45% - 1500 RPM");
    assert_eq!(format_fan(Some(45), None), "45%");
    assert_eq!(format_fan(None, Some(1500)), "1500 RPM");
    assert_eq!(format_fan(None, None), "Unavailable");
}

#[test]
fn offset_range_labels() {
    assert_eq!(format_offset_range(0, 150, -1000, 1000), "P0: current +150 MHz - allowed -1000 to +1000 MHz");
    assert_eq!(format_offset_range(2, 0, 0, 0), "P2: current +0 MHz - allowed +0 to +0 MHz");
    assert_eq!(format_offset_range(2, -5, -10, -1), "P2: current -5 MHz - allowed -10 to -1 MHz");
}

#[test]
fn device_name_falls_back_to_id() {
    assert_eq!(device_name(Some("RTX 4090".to_owned()), "0000:01:00.0"), "RTX 4090");
    assert_eq!(device_name(None, "0000:01:00.0"), "0000:01:00.0");
}

#[test]
fn portable_runtime_layout() {
    let layout = prepare_portable_runtime();
    let keys: Vec<&str> = layout.env_vars.iter().map(|v| v.key.as_str()).collect();
    assert_eq!(keys, vec!["GSETTINGS_SCHEMA_DIR", "XDG_DATA_DIRS", "FONTCONFIG_PATH"]);
    assert_eq!(layout.env_vars[0].path, vec!["share", "glib-2.0", "schemas"]);
    assert_eq!(layout.env_vars[1].path, vec!["share"]);
    assert_eq!(layout.env_vars[2].path, vec!["etc", "fonts"]);
    assert_eq!(layout.pixbuf_loaders_dir, vec!["lib", "gdk-pixbuf-2.0", "2.10.0", "loaders"]);
    assert_eq!(layout.pixbuf_loaders_cache, vec!["lib", "gdk-pixbuf-2.0", "2.10.0", "loaders.cache"]);
    assert_eq!(layout.query_loaders, vec!["gdk-pixbuf-query-loaders.exe"]);
    assert_eq!(layout.module_file_key, "GDK_PIXBUF_MODULE_FILE");
    assert_eq!(layout.module_dir_key, "GDK_PIXBUF_MODULEDIR");
}

#[test]
fn loader_cache_decisions() {
    assert!(should_query_pixbuf_loaders(true, true));
    assert!(!should_query_pixbuf_loaders(true, false));
    assert!(!should_query_pixbuf_loaders(false, true));
    assert!(should_write_loader_cache(true, 10));
    assert!(!should_write_loader_cache(true, 0));
    assert!(!should_write_loader_cache(false, 10));
}

#[test]
fn bootstrap_log_lines() {
    assert_eq!(log_line(1_700_000_000, "LACT Windows GUI bootstrap starting"), "[1700000000] LACT Windows GUI bootstrap starting");
    assert_eq!(log_line(0, ""), "[0] ");
}

#[test]
fn extra_clocks_are_sorted_and_joined() {
    assert_eq!(format_extra_clocks(&vec![]), "Unavailable");
    assert_eq!(format_extra_clocks(&vec![("Video".to_owned(), 1710)]), "Video: 1710 MHz");
    let sensors = vec![
        ("video".to_owned(), 1710u64),
        ("SM".to_owned(), 2100),
        ("Graphics".to_owned(), 2100),
        ("Memory".to_owned(), 10501),
        ("Graphics".to_owned(), 210),
    ];
    let mut expected: Vec<String> = sensors.iter().map(|(n, v)| format!("{n}: {v} MHz")).collect();
    expected.sort();
    assert_eq!(format_extra_clocks(&sensors), expected.join(" | "));
    assert_eq!(
        format_extra_clocks(&sensors),
        "Graphics: 210 MHz | Graphics: 2100 MHz | Memory: 10501 MHz | SM: 2100 MHz | video: 1710 MHz"
    );
}

#[test]
fn extra_clocks_sort_non_ascii_like_strings() {
    let sensors = vec![("é".to_owned(), 1u64), ("z".to_owned(), 2), ("Ä".to_owned(), 3), ("a".to_owned(), 4)];
    let mut expected: Vec<String> = sensors.iter().map(|(n, v)| format!("{n}: {v} MHz")).collect();
    expected.sort();
    assert_eq!(format_extra_clocks(&sensors), expected.join(" | "));
}

#[test]
fn offset_controls() {
    let c = offset_control(Some((0, NvidiaClockOffset { current: 150, min: -1000, max: 1000 })));
    assert_eq!(c.pstate, Some(0));
    assert_eq!(c.offset, Some(150));
    assert_eq!(c.label, "P0: current +150 MHz - allowed -1000 to +1000 MHz");
    let none = offset_control(None);
    assert_eq!(none.pstate, None);
    assert_eq!(none.offset, None);
    assert_eq!(none.label, "Not exposed by driver");
}
