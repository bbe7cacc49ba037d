use alvr_capture::capture_paths::{
    capture_stem, program_root, recording_stem, resolve_capture_path, screenshot_stem,
    select_capture_path, with_media_ext, Degrees, LocalTime,
};
use chrono::{Datelike, TimeZone, Timelike};
use std::path::{Path, PathBuf};

fn local(now: chrono::DateTime<chrono::Local>) -> LocalTime {
    LocalTime::new(
        now.year(),
        now.month(),
        now.day(),
        now.hour(),
        now.minute(),
        now.second(),
        now.nanosecond(),
    )
    .expect("valid local time")
}

fn degrees(deg: f32) -> Degrees {
    let negative = deg.is_sign_negative();
    if deg.is_nan() {
        Degrees::NotANumber
    } else if deg.is_infinite() {
        Degrees::Infinite { negative }
    } else {
        // Exact from 2^-77 on for a float below 2^27.
        let num = (f64::from(deg.abs()) * 2f64.powi(100)) as u128;
        Degrees::Finite { negative, num, den: 1 << 100 }
    }
}

fn whole(num: u128) -> Degrees {
    Degrees::Finite { negative: false, num, den: 1 }
}

#[test]
fn fields_of_view_are_shown_as_floats_are() {
    let mut angles = vec![
        0.0, -0.0, 0.5, 90.0, 103.976959, 179.99999, 0.0000005, 0.0000015, 1e-9, -12.34, 1234567.9,
        0.00000048, 99.9999995, 0.015625, 0.0078125, 0.00390625, 0.1171875, f32::NAN, f32::INFINITY,
        f32::NEG_INFINITY,
    ];
    let mut bits: u32 = 12345;
    for _ in 0..2000 {
        bits = bits.wrapping_mul(1664525).wrapping_add(1013904223);
        angles.push((bits >> 8) as f32 / 65536.0);
        angles.push((bits >> 8) as f32 / 134217728.0);
        angles.push((bits >> 20) as f32 / 128.0);
    }
    for angle in angles {
        assert_eq!(degrees(angle).text(), format!("{angle:.6}"));
    }
    let third = Degrees::Finite { negative: true, num: 2, den: 3 };
    assert_eq!(third.text(), "-0.666667");
    let huge = Degrees::Finite { negative: false, num: u128::MAX, den: u128::MAX - 1 };
    assert_eq!(huge.text(), "1.000000");
    assert_eq!(whole(u128::MAX).text(), format!("{}.000000", u128::MAX));
}

#[test]
fn absolute_path_unchanged() {
    let root = "/opt/alvr";
    if std::path::MAIN_SEPARATOR == '\\' {
        let p = resolve_capture_path(root, r"D:\out\recs");
        assert_eq!(PathBuf::from(p), PathBuf::from(r"D:\out\recs"));
    } else {
        let p = resolve_capture_path(root, "/tmp/recs");
        assert_eq!(PathBuf::from(p), PathBuf::from("/tmp/recs"));
    }
}

#[test]
fn relative_joins_root() {
    let root = "/opt/alvr";
    let p = resolve_capture_path(root, "Captures/Records");
    assert_eq!(PathBuf::from(p), PathBuf::from("/opt/alvr/Captures/Records"));
}

#[test]
fn resolving_agrees_with_the_standard_library() {
    for root in ["/opt/alvr", "/opt/alvr/", "", ".", "relative/root"] {
        for configured in ["Captures", "/abs", "", "./x", "../up", "a b/c.d"] {
            let path = PathBuf::from(configured);
            let expected = if path.is_absolute() {
                path
            } else {
                Path::new(root).join(path)
            };
            assert_eq!(resolve_capture_path(root, configured), expected.to_str().unwrap());
        }
    }
}

#[test]
fn selection_prefers_absolute_paths() {
    assert_eq!(select_capture_path(true, "/tmp/recs", "/opt/x".to_string()), "/tmp/recs");
    assert_eq!(select_capture_path(false, "recs", "/opt/recs".to_string()), "/opt/recs");
}

#[test]
fn program_root_falls_back_to_here() {
    assert_eq!(program_root(Some("/opt/alvr")), "/opt/alvr");
    assert_eq!(program_root(None), ".");
}

#[test]
fn recording_name_keeps_seconds_when_adding_ext() {
    let now = chrono::Local
        .with_ymd_and_hms(2026, 7, 13, 14, 30, 45)
        .single()
        .expect("valid local time");
    let stem_name = recording_stem(local(now), degrees(103.976959));
    assert_eq!(stem_name, "recording_20260713_143045_FOV_103.976959");

    let video = with_media_ext(&stem_name, "mkv");
    assert_eq!(video, "recording_20260713_143045_FOV_103.976959.mkv");
    let shot = with_media_ext(&screenshot_stem(local(now), degrees(103.976959)), "jpg");
    assert_eq!(shot, "screenshot_20260713_143045_FOV_103.976959.jpg");
}

#[test]
fn with_extension_bug_demo() {
    // Documents why `Path::with_extension` is avoided for timestamped stems.
    let bad = PathBuf::from("recording.2026-07-13.14-30-45").with_extension("h264");
    assert_eq!(
        bad.file_name().unwrap().to_string_lossy(),
        "recording.2026-07-13.h264"
    );
}

#[test]
fn dotted_names_keep_their_dots() {
    assert_eq!(
        with_media_ext("recording.2026-07-13.14-30-45", "h264"),
        "recording.2026-07-13.14-30-45.h264"
    );
    assert_eq!(with_media_ext("a", ".wav"), "a.wav");
    assert_eq!(with_media_ext("a", "..tar.gz"), "a.tar.gz");
    assert_eq!(with_media_ext("", ""), ".");
}

#[test]
fn stamps_agree_with_chrono() {
    for (y, mo, d, h, mi, s, n) in [
        (2026, 7, 13, 14, 30, 45, 0),
        (7, 1, 2, 3, 4, 5, 6),
        (0, 12, 31, 0, 0, 0, 0),
        (-5, 2, 28, 23, 59, 59, 999_999_999),
        (9999, 12, 31, 23, 59, 59, 1_000_000_000),
        (10000, 2, 29, 0, 0, 0, 0),
        (-262143, 1, 1, 0, 0, 0, 0),
        (262142, 12, 31, 0, 0, 0, 0),
    ] {
        let expected = chrono::NaiveDate::from_ymd_opt(y, mo, d)
            .unwrap()
            .and_hms_nano_opt(h, mi, s, n)
            .unwrap()
            .format("%Y%m%d_%H%M%S")
            .to_string();
        let now = LocalTime::new(y, mo, d, h, mi, s, n).unwrap();
        assert_eq!(capture_stem("k", now, whole(1)), format!("k_{expected}_FOV_1.000000"));
    }
    let early = LocalTime::new(7, 1, 2, 3, 4, 5, 6).unwrap();
    assert_eq!(capture_stem("k", early, whole(9)), "k_00070102_030405_FOV_9.000000");
    let ancient = LocalTime::new(-5, 2, 28, 23, 59, 59, 1_000_000_000).unwrap();
    assert_eq!(capture_stem("k", ancient, whole(9)), "k_-00050228_235960_FOV_9.000000");
    let far = LocalTime::new(10000, 2, 29, 0, 0, 0, 0).unwrap();
    assert_eq!(capture_stem("k", far, whole(9)), "k_+100000229_000000_FOV_9.000000");
}

#[test]
fn impossible_times_are_refused_as_chrono_does() {
    for y in [-262144, -262143, -4, 0, 1900, 2000, 2023, 2024, 262142, 262143] {
        for mo in 0..=13u32 {
            for d in 0..=32u32 {
                assert_eq!(
                    LocalTime::new(y, mo, d, 0, 0, 0, 0).is_some(),
                    chrono::NaiveDate::from_ymd_opt(y, mo, d).is_some(),
                    "{y} {mo} {d}"
                );
            }
        }
    }
    assert!(LocalTime::new(2024, 1, 1, 24, 0, 0, 0).is_none());
    assert!(LocalTime::new(2024, 1, 1, 0, 60, 0, 0).is_none());
    assert!(LocalTime::new(2024, 1, 1, 0, 0, 60, 0).is_none());
    assert!(LocalTime::new(2024, 1, 1, 0, 0, 58, 1_000_000_000).is_none());
    assert!(LocalTime::new(2024, 1, 1, 0, 0, 59, 2_000_000_000).is_none());
}

#[test]
fn seconds_tell_names_apart() {
    let a = LocalTime::new(2026, 7, 13, 14, 30, 45, 0).unwrap();
    let b = LocalTime::new(2026, 7, 13, 14, 30, 46, 0).unwrap();
    assert_ne!(recording_stem(a, whole(90)), recording_stem(b, whole(90)));
}
