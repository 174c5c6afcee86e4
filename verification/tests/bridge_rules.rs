#![allow(dead_code)]
use dat_linter::dat::DatFile;
use dat_linter::diagnostics::{Diagnostic, Finding, Severity};
use dat_linter::images::{settle_findings, FileProbe};
use std::io::Cursor;

fn png(w: u32, h: u32) -> Vec<u8> {
    let img = image::RgbaImage::new(w, h);
    let mut out = Cursor::new(Vec::new());
    img.write_to(&mut out, image::ImageFormat::Png).unwrap();
    out.into_inner()
}

/// A definition from `key=value` lines, numbered from 1.
fn dat(lines: &[(&str, &str)]) -> DatFile {
    let mut d = DatFile::new();
    for (i, (k, v)) in lines.iter().enumerate() {
        d.insert(k, v, i + 1);
    }
    d
}

/// The findings with every file request answered by `probe(filename)`.
fn settle(findings: Vec<Finding>, d: &DatFile, probe: &dyn Fn(&str) -> FileProbe) -> Vec<Diagnostic> {
    let probes: Vec<FileProbe> = findings
        .iter()
        .filter_map(|f| match f {
            Finding::Image(r) => Some(probe(&r.filename)),
            Finding::Diag(_) => None,
        })
        .collect();
    settle_findings(findings, &probes, d)
}

fn tile_png(_: &str) -> FileProbe {
    FileProbe::Contents(png(1024, 1024))
}

fn no_file(_: &str) -> FileProbe {
    FileProbe::Missing
}

fn odd_png(_: &str) -> FileProbe {
    FileProbe::Contents(png(100, 64))
}

fn has(ds: &[Diagnostic], severity: Severity, code: &str) -> bool {
    ds.iter().any(|d| d.severity == severity && d.code.as_str() == code)
}

fn count(ds: &[Diagnostic], severity: Severity, code: &str) -> usize {
    ds.iter().filter(|d| d.severity == severity && d.code.as_str() == code).count()
}

fn clean(ds: &[Diagnostic]) -> bool {
    ds.iter().all(|d| d.severity != Severity::Error && d.severity != Severity::Warning)
}
use dat_linter::bridge::check_bridge;

const FRONT_KEYS: [&str; 24] = [
    "frontimage[ns]", "frontimage[ew]",
    "frontstart[n]", "frontstart[s]", "frontstart[e]", "frontstart[w]",
    "frontramp[n]", "frontramp[s]", "frontramp[e]", "frontramp[w]",
    "frontpillar[s]", "frontpillar[w]",
    "frontimage2[ns]", "frontimage2[ew]",
    "frontstart2[n]", "frontstart2[s]", "frontstart2[e]", "frontstart2[w]",
    "frontramp2[n]", "frontramp2[s]", "frontramp2[e]", "frontramp2[w]",
    "frontpillar2[s]", "frontpillar2[w]",
];

/// A bridge with the given head lines followed by every front image.
fn bridge_lines<'a>(head: &[(&'a str, &'a str)]) -> Vec<(&'a str, &'a str)> {
    let mut v: Vec<(&str, &str)> = head.to_vec();
    for k in FRONT_KEYS {
        v.push((k, "bridge.0.0"));
    }
    v
}

fn bridge(lines: &[(&str, &str)], probe: &dyn Fn(&str) -> FileProbe) -> Vec<Diagnostic> {
    let d = dat(lines);
    settle(check_bridge(&d), &d, probe)
}

#[test]
fn valid_bridge_has_no_errors_or_warnings() {
    let ds = bridge(&bridge_lines(&[("obj", "bridge"), ("name", "b"), ("waytype", "track"), ("pillar_distance", "3")]), &tile_png);
    assert!(clean(&ds), "{ds:?}");
    assert_eq!(count(&ds, Severity::Info, "image-ok"), 24);
}

#[test]
fn bridge_lint_missing_waytype_is_detected() {
    let ds = bridge(&bridge_lines(&[("obj", "bridge")]), &tile_png);
    assert!(has(&ds, Severity::Error, "missing-waytype"));
}

#[test]
fn bridge_lint_unknown_waytype_is_detected() {
    let ds = bridge(&bridge_lines(&[("obj", "bridge"), ("waytype", "rail")]), &tile_png);
    assert!(has(&ds, Severity::Error, "unknown-waytype"));
}

#[test]
fn clamped_value_out_of_range_is_detected() {
    let ds = bridge(&bridge_lines(&[("obj", "bridge"), ("waytype", "road"), ("max_height", "300")]), &tile_png);
    assert!(has(&ds, Severity::Warning, "clamped-value-out-of-range"));
    let d = ds.iter().find(|d| d.code.as_str() == "clamped-value-out-of-range").unwrap();
    assert_eq!(d.args, vec!["max_height".to_string(), "300".to_string(), "0".to_string(), "255".to_string()]);
}

#[test]
fn missing_front_image_is_warned() {
    let mut lines = bridge_lines(&[("obj", "bridge"), ("waytype", "road")]);
    lines.retain(|(k, _)| *k != "frontramp[e]");
    let ds = bridge(&lines, &tile_png);
    assert!(has(&ds, Severity::Warning, "no-bridge-image-specified"));
    assert_eq!(count(&ds, Severity::Warning, "no-bridge-image-specified"), 1);
}

#[test]
fn short_front_image_value_is_treated_as_unspecified() {
    let mut lines = bridge_lines(&[("obj", "bridge"), ("waytype", "road")]);
    lines.retain(|(k, _)| *k != "frontpillar[s]");
    lines.push(("frontpillar[s]", "-"));
    let ds = bridge(&lines, &tile_png);
    assert_eq!(count(&ds, Severity::Warning, "no-bridge-image-specified"), 1);
}

#[test]
fn bridge_lint_missing_image_file_is_detected() {
    let ds = bridge(&bridge_lines(&[("obj", "bridge"), ("waytype", "road")]), &no_file);
    assert!(has(&ds, Severity::Error, "missing-image-file"));
}

#[test]
fn winter_back_images_add_front_image_seasons() {
    let lines = bridge_lines(&[("obj", "bridge"), ("waytype", "road"), ("backimage[ns][0]", "b.0.0")]);
    // With a season-0 back image the seasonal front keys are read instead.
    let ds = bridge(&lines, &tile_png);
    assert_eq!(count(&ds, Severity::Warning, "no-bridge-image-specified"), 24);
    let x = ds.iter().find(|x| x.code.as_str() == "no-bridge-image-specified").unwrap();
    assert_eq!(x.args, vec!["frontimage[ns][0]".to_string()]);
}

#[test]
fn clamped_value_out_of_range_diagnostic_has_correct_line_number() {
    let lines = bridge_lines(&[
        ("obj", "bridge"),
        ("name", "b"),
        ("waytype", "road"),
        ("pillar_distance", "2"),
        ("pillar_asymmetric", "5"),
    ]);
    let d = dat(&lines);
    let ds = settle(check_bridge(&d), &d, &tile_png);
    let x = ds.iter().find(|x| x.code.as_str() == "clamped-value-out-of-range").expect("a clamped warning");
    let loc = x.location.as_ref().expect("a location");
    assert_eq!(loc.line, 5);
    assert_eq!(loc.key, "pillar_asymmetric");
}

#[test]
fn no_bridge_image_specified_diagnostic_has_correct_line_number() {
    let mut lines = bridge_lines(&[("obj", "bridge"), ("waytype", "road")]);
    lines.retain(|(k, _)| *k != "frontimage[ns]");
    let d = dat(&lines);
    let ds = settle(check_bridge(&d), &d, &tile_png);
    let x = ds.iter().find(|x| x.code.as_str() == "no-bridge-image-specified").expect("a warning");
    assert!(x.location.is_none(), "{x:?}");
}

#[test]
fn bridge_lint_name_forbidden_filename_character_is_detected() {
    let ds = bridge(&bridge_lines(&[("obj", "bridge"), ("name", "CON"), ("waytype", "road")]), &tile_png);
    assert!(has(&ds, Severity::Error, "name-forbidden-filename-character"));
}

#[test]
fn bridge_lint_embedded_nul_in_name_is_detected() {
    let ds = bridge(&bridge_lines(&[("obj", "bridge"), ("name", "ValidBridge\0Extra"), ("waytype", "road")]), &tile_png);
    assert!(has(&ds, Severity::Warning, "embedded-nul-in-string-field"));
}
