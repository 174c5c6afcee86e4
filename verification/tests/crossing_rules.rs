#![allow(dead_code)]
use dat_linter::dat::DatFile;
use dat_linter::diagnostics::{Diagnostic, Finding, Severity};
use dat_linter::images::{settle_findings, FileProbe};
use std::io::Cursor;

fn png(w: u32, h: u32) -> Vec<u8> {
    let img = image::RgbaImage::new(w, h);
    let mut out = Cursor::new(Vec::new());
    img.write_to(&mut out, image::ImageFormat::Png).unwrap();
    out.into_inner()
}

/// A definition from `key=value` lines, numbered from 1.
fn dat(lines: &[(&str, &str)]) -> DatFile {
    let mut d = DatFile::new();
    for (i, (k, v)) in lines.iter().enumerate() {
        d.insert(k, v, i + 1);
    }
    d
}

/// The findings with every file request answered by `probe(filename)`.
fn settle(findings: Vec<Finding>, d: &DatFile, probe: &dyn Fn(&str) -> FileProbe) -> Vec<Diagnostic> {
    let probes: Vec<FileProbe> = findings
        .iter()
        .filter_map(|f| match f {
            Finding::Image(r) => Some(probe(&r.filename)),
            Finding::Diag(_) => None,
        })
        .collect();
    settle_findings(findings, &probes, d)
}

fn tile_png(_: &str) -> FileProbe {
    FileProbe::Contents(png(1024, 1024))
}

fn no_file(_: &str) -> FileProbe {
    FileProbe::Missing
}

fn odd_png(_: &str) -> FileProbe {
    FileProbe::Contents(png(100, 64))
}

fn has(ds: &[Diagnostic], severity: Severity, code: &str) -> bool {
    ds.iter().any(|d| d.severity == severity && d.code.as_str() == code)
}

fn count(ds: &[Diagnostic], severity: Severity, code: &str) -> usize {
    ds.iter().filter(|d| d.severity == severity && d.code.as_str() == code).count()
}

fn clean(ds: &[Diagnostic]) -> bool {
    ds.iter().all(|d| d.severity != Severity::Error && d.severity != Severity::Warning)
}
use dat_linter::crossing::{check_crossing, make_list, resolve_waytype, Waytype};

fn crossing(lines: &[(&str, &str)], probe: &dyn Fn(&str) -> FileProbe) -> Vec<Diagnostic> {
    let d = dat(lines);
    settle(check_crossing(&d), &d, probe)
}

const VALID: [(&str, &str); 8] = [
    ("obj", "crossing"),
    ("name", "road_rail"),
    ("waytype[0]", "road"),
    ("waytype[1]", "track"),
    ("speed[0]", "60"),
    ("speed[1]", "120"),
    ("openimage[ns][0]", "crossing.0.0"),
    ("openimage[ew][0]", "crossing.0.1"),
];

fn with<'a>(change: &[(&'a str, &'a str)], drop: &[&str]) -> Vec<(&'a str, &'a str)> {
    let mut v: Vec<(&'a str, &'a str)> = VALID.iter().copied().filter(|(k, _)| !drop.contains(k)).collect();
    for &(k, val) in change {
        match v.iter_mut().find(|(x, _)| *x == k) {
            Some(slot) => slot.1 = val,
            None => v.push((k, val)),
        }
    }
    v
}

#[test]
fn valid_crossing_has_no_errors_or_warnings() {
    let ds = crossing(&VALID, &tile_png);
    assert!(clean(&ds), "{ds:?}");
    assert_eq!(count(&ds, Severity::Info, "image-ok"), 2);
}

#[test]
fn crossing_lint_missing_waytype_is_detected() {
    let ds = crossing(&with(&[], &["waytype[1]"]), &tile_png);
    assert!(has(&ds, Severity::Error, "missing-waytype"));
}

#[test]
fn crossing_lint_unknown_waytype_is_detected() {
    let ds = crossing(&with(&[("waytype[0]", "canal")], &[]), &tile_png);
    assert!(has(&ds, Severity::Error, "unknown-waytype"));
}

#[test]
fn identical_waytypes_is_detected() {
    // Two spellings of the tram way resolve to the same kind.
    let ds = crossing(&with(&[("waytype[0]", "schiene_tram"), ("waytype[1]", "tram_track")], &[]), &tile_png);
    assert!(has(&ds, Severity::Error, "crossing-identical-waytypes"));
    let ds = crossing(&with(&[("waytype[0]", "Road"), ("waytype[1]", "road")], &[]), &tile_png);
    assert!(has(&ds, Severity::Error, "crossing-identical-waytypes"));
}

#[test]
fn missing_speed_is_detected() {
    let ds = crossing(&with(&[("speed[1]", "0")], &[]), &tile_png);
    assert!(has(&ds, Severity::Error, "crossing-missing-speed"));
    let ds = crossing(&with(&[], &["speed[0]"]), &tile_png);
    assert!(has(&ds, Severity::Error, "crossing-missing-speed"));
}

#[test]
fn missing_openimage_is_detected() {
    let ds = crossing(&with(&[], &["openimage[ew][0]"]), &tile_png);
    assert!(has(&ds, Severity::Error, "crossing-missing-openimage"));
    let d = ds.iter().find(|d| d.code.as_str() == "crossing-missing-openimage").unwrap();
    assert_eq!(d.args, vec!["1".to_string(), "0".to_string()]);
}

#[test]
fn crossing_lint_missing_image_file_is_detected() {
    assert!(has(&crossing(&VALID, &no_file), Severity::Error, "missing-image-file"));
}

#[test]
fn crossing_lint_bad_image_size_is_detected() {
    assert!(has(&crossing(&VALID, &odd_png), Severity::Error, "image-size-not-multiple-of-128"));
}

#[test]
fn identical_waytypes_diagnostic_has_correct_line_number() {
    let lines = [
        ("obj", "crossing"),
        ("name", "tram_tram"),
        ("waytype[0]", "schiene_tram"),
        ("waytype[1]", "tram_track"),
        ("speed[0]", "50"),
        ("speed[1]", "50"),
    ];
    let ds = crossing(&lines, &tile_png);
    let d = ds.iter().find(|d| d.code.as_str() == "crossing-identical-waytypes").expect("the crossing is refused");
    let loc = d.location.as_ref().expect("a location");
    assert_eq!(loc.line, 3);
    assert_eq!(loc.key, "waytype[0]");
}

#[test]
fn image_lists_stop_at_the_first_gap() {
    let d = dat(&[("openimage[ns][0]", "a.0.0"), ("openimage[ns][1]", "a.0.1"), ("openimage[ns][3]", "a.0.3")]);
    let l = make_list(&d, "openimage[ns]");
    assert_eq!(l.len(), 2);
    assert_eq!(l[1], ("a.0.1".to_string(), "openimage[ns][1]".to_string()));
}

#[test]
fn waytype_aliases_resolve_to_one_kind() {
    assert_eq!(resolve_waytype("schiene_tram"), Some(Waytype::Tram));
    assert_eq!(resolve_waytype("tram_track"), Some(Waytype::Tram));
    assert_eq!(resolve_waytype("track"), Some(Waytype::Track));
    assert_eq!(resolve_waytype("hovercraft"), None);
}

#[test]
fn crossing_lint_date_index_overflow_is_detected() {
    let ds = crossing(&with(&[("intro_year", "-1900"), ("retire_year", "12999")], &[]), &tile_png);
    assert_eq!(count(&ds, Severity::Warning, "date-index-overflow"), 2);
}

#[test]
fn crossing_lint_name_forbidden_filename_character_is_detected() {
    let ds = crossing(&with(&[("name", "CON")], &[]), &tile_png);
    assert!(has(&ds, Severity::Error, "name-forbidden-filename-character"));
}

#[test]
fn crossing_lint_embedded_nul_in_name_is_detected() {
    let ds = crossing(&with(&[("name", "ValidCrossing\0Extra")], &[]), &tile_png);
    assert!(has(&ds, Severity::Warning, "embedded-nul-in-string-field"));
}

#[test]
fn crossing_lint_narrow_int_overflow_is_detected() {
    let ds = crossing(&with(&[("speed[0]", "100000")], &[]), &tile_png);
    assert!(has(&ds, Severity::Warning, "narrow-int-overflow"));
    assert!(!has(&ds, Severity::Error, "crossing-missing-speed"));
}
