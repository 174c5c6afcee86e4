#![allow(dead_code)]
use dat_linter::dat::DatFile;
use dat_linter::diagnostics::{Diagnostic, Finding, Severity};
use dat_linter::images::{settle_findings, FileProbe};
use std::io::Cursor;

fn png(w: u32, h: u32) -> Vec<u8> {
    let img = image::RgbaImage::new(w, h);
    let mut out = Cursor::new(Vec::new());
    img.write_to(&mut out, image::ImageFormat::Png).unwrap();
    out.into_inner()
}

/// A definition from `key=value` lines, numbered from 1.
fn dat(lines: &[(&str, &str)]) -> DatFile {
    let mut d = DatFile::new();
    for (i, (k, v)) in lines.iter().enumerate() {
        d.insert(k, v, i + 1);
    }
    d
}

/// The findings with every file request answered by `probe(filename)`.
fn settle(findings: Vec<Finding>, d: &DatFile, probe: &dyn Fn(&str) -> FileProbe) -> Vec<Diagnostic> {
    let probes: Vec<FileProbe> = findings
        .iter()
        .filter_map(|f| match f {
            Finding::Image(r) => Some(probe(&r.filename)),
            Finding::Diag(_) => None,
        })
        .collect();
    settle_findings(findings, &probes, d)
}

fn tile_png(_: &str) -> FileProbe {
    FileProbe::Contents(png(1024, 1024))
}

fn no_file(_: &str) -> FileProbe {
    FileProbe::Missing
}

fn odd_png(_: &str) -> FileProbe {
    FileProbe::Contents(png(100, 64))
}

fn has(ds: &[Diagnostic], severity: Severity, code: &str) -> bool {
    ds.iter().any(|d| d.severity == severity && d.code.as_str() == code)
}

fn count(ds: &[Diagnostic], severity: Severity, code: &str) -> usize {
    ds.iter().filter(|d| d.severity == severity && d.code.as_str() == code).count()
}

fn clean(ds: &[Diagnostic]) -> bool {
    ds.iter().all(|d| d.severity != Severity::Error && d.severity != Severity::Warning)
}
use dat_linter::roadsign::{check_roadsign, is_private_road_exec};
use dat_linter::way_obj::check_way_obj;

fn run(check: fn(&DatFile) -> Vec<Finding>, lines: &[(&str, &str)], probe: &dyn Fn(&str) -> FileProbe) -> Vec<Diagnostic> {
    let d = dat(lines);
    settle(check(&d), &d, probe)
}

fn no_errors(ds: &[Diagnostic]) -> bool {
    !ds.iter().any(|d| d.severity == Severity::Error)
}

fn owned(v: &[(String, String)]) -> Vec<(&str, &str)> {
    v.iter().map(|(k, x)| (k.as_str(), x.as_str())).collect()
}

/// A sign with the given directions for states `0..states`.
fn sign(head: &[(&str, &str)], dirs: &[&str], states: u32) -> Vec<(String, String)> {
    let mut v: Vec<(String, String)> = head.iter().map(|(k, x)| (k.to_string(), x.to_string())).collect();
    for s in 0..states {
        for d in dirs {
            v.push((format!("image[{d}][{s}]"), format!("sign.{s}.{d}")));
        }
    }
    v
}

const FOUR: [&str; 4] = ["n", "s", "w", "e"];
const EIGHT: [&str; 8] = ["n", "s", "w", "e", "nw", "se", "sw", "ne"];

#[test]
fn valid_roadsign_has_no_errors() {
    let v = sign(&[("obj", "roadsign"), ("waytype", "road")], &FOUR, 1);
    assert!(no_errors(&run(check_roadsign, &owned(&v), &tile_png)));
}

#[test]
fn two_state_2d_roadsign_has_no_errors() {
    let v = sign(&[("obj", "roadsign"), ("waytype", "track"), ("is_signal", "1")], &FOUR, 2);
    let ds = run(check_roadsign, &owned(&v), &tile_png);
    assert!(no_errors(&ds), "{ds:?}");
    assert_eq!(count(&ds, Severity::Info, "image-ok"), 8);
}

#[test]
fn private_road_sign_valid_has_no_errors() {
    let v = sign(&[("obj", "roadsign"), ("waytype", "road"), ("is_private", "1")], &["ns", "ew"], 2);
    let d = dat(&owned(&v));
    assert!(is_private_road_exec(&d));
    let ds = settle(check_roadsign(&d), &d, &tile_png);
    assert!(no_errors(&ds), "{ds:?}");
}

#[test]
fn private_road_sign_missing_state1_is_detected() {
    let v = sign(&[("obj", "roadsign"), ("waytype", "road"), ("is_private", "1")], &["ns", "ew"], 1);
    let ds = run(check_roadsign, &owned(&v), &tile_png);
    assert!(has(&ds, Severity::Error, "roadsign-image-missing"));
}

#[test]
fn traffic_light_valid_has_no_errors() {
    let v = sign(&[("obj", "roadsign"), ("waytype", "road"), ("is_signal", "1")], &EIGHT, 3);
    let ds = run(check_roadsign, &owned(&v), &tile_png);
    assert!(no_errors(&ds), "{ds:?}");
    assert_eq!(count(&ds, Severity::Info, "image-ok"), 24);
}

#[test]
fn numbered_syntax_valid_has_no_errors() {
    let lines = [
        ("obj", "roadsign"),
        ("waytype", "road"),
        ("image[0]", "sign.0.0"),
        ("image[1]", "sign.0.1"),
        ("image[2]", "sign.0.2"),
        ("image[3]", "sign.0.3"),
    ];
    let ds = run(check_roadsign, &lines, &tile_png);
    assert!(no_errors(&ds), "{ds:?}");
    assert_eq!(count(&ds, Severity::Info, "image-ok"), 4);
}

#[test]
fn roadsign_lint_missing_waytype_is_detected() {
    let v = sign(&[("obj", "roadsign")], &FOUR, 1);
    assert!(has(&run(check_roadsign, &owned(&v), &tile_png), Severity::Error, "missing-waytype"));
}

#[test]
fn roadsign_lint_unknown_waytype_is_detected() {
    let v = sign(&[("obj", "roadsign"), ("waytype", "highway")], &FOUR, 1);
    assert!(has(&run(check_roadsign, &owned(&v), &tile_png), Severity::Error, "unknown-waytype"));
}

#[test]
fn roadsign_lint_missing_image_file_is_detected() {
    let v = sign(&[("obj", "roadsign"), ("waytype", "road")], &FOUR, 1);
    assert!(has(&run(check_roadsign, &owned(&v), &no_file), Severity::Error, "missing-image-file"));
}

#[test]
fn roadsign_lint_bad_image_size_is_detected() {
    let v = sign(&[("obj", "roadsign"), ("waytype", "road")], &FOUR, 1);
    assert!(has(&run(check_roadsign, &owned(&v), &odd_png), Severity::Error, "image-size-not-multiple-of-128"));
}

#[test]
fn two_d_image_missing_in_middle_is_detected() {
    let mut v = sign(&[("obj", "roadsign"), ("waytype", "road")], &FOUR, 1);
    v.retain(|(k, _)| k != "image[s][0]");
    let ds = run(check_roadsign, &owned(&v), &tile_png);
    let d = ds.iter().find(|d| d.code.as_str() == "roadsign-image-missing").expect("an error");
    assert_eq!(d.args, vec!["image[s][0]".to_string()]);
}

#[test]
fn numbered_count_not_multiple_of_4_is_detected() {
    let lines = [("obj", "roadsign"), ("waytype", "road"), ("image[0]", "a.0.0"), ("image[1]", "a.0.1"), ("image[2]", "a.0.2")];
    let ds = run(check_roadsign, &lines, &tile_png);
    let d = ds.iter().find(|d| d.code.as_str() == "roadsign-image-count-not-multiple-of-4").expect("an error");
    assert_eq!(d.args, vec!["3".to_string()]);
}

#[test]
fn numbered_missing_image_file_is_detected() {
    let lines = [("obj", "roadsign"), ("waytype", "road"), ("image[0]", "a.0.0"), ("image[1]", "a.0.1"), ("image[2]", "a.0.2"), ("image[3]", "a.0.3")];
    assert!(has(&run(check_roadsign, &lines, &no_file), Severity::Error, "missing-image-file"));
}

// ----- way-object -----

const WAY_OBJ: [(&str, &str); 5] = [
    ("obj", "way-object"),
    ("name", "catenary"),
    ("waytype", "track"),
    ("own_waytype", "electrified_track"),
    ("frontimage[ns]", "wire.0.0"),
];

fn way_obj_with<'a>(change: &[(&'a str, &'a str)], drop: &[&str]) -> Vec<(&'a str, &'a str)> {
    let mut v: Vec<(&'a str, &'a str)> = WAY_OBJ.iter().copied().filter(|(k, _)| !drop.contains(k)).collect();
    for &(k, x) in change {
        match v.iter_mut().find(|(y, _)| *y == k) {
            Some(slot) => slot.1 = x,
            None => v.push((k, x)),
        }
    }
    v
}

#[test]
fn valid_way_obj_has_no_errors_or_warnings() {
    let ds = run(check_way_obj, &WAY_OBJ, &tile_png);
    assert!(clean(&ds), "{ds:?}");
    assert_eq!(count(&ds, Severity::Info, "image-ok"), 1);
}

#[test]
fn dash_sentinel_in_backdiagonal_is_not_a_false_positive() {
    let ds = run(check_way_obj, &way_obj_with(&[("backdiagonal[nw]", "-")], &[]), &tile_png);
    assert!(no_errors(&ds), "{ds:?}");
    assert!(has(&ds, Severity::Info, "image-ref-empty-sentinel"));
}

#[test]
fn way_obj_lint_missing_waytype_is_detected() {
    assert!(has(&run(check_way_obj, &way_obj_with(&[], &["waytype"]), &tile_png), Severity::Error, "missing-waytype"));
}

#[test]
fn way_obj_lint_unknown_waytype_is_detected() {
    let ds = run(check_way_obj, &way_obj_with(&[("waytype", "trolley")], &[]), &tile_png);
    assert!(has(&ds, Severity::Error, "unknown-waytype"));
}

#[test]
fn missing_own_waytype_is_detected() {
    let ds = run(check_way_obj, &way_obj_with(&[], &["own_waytype"]), &tile_png);
    let d = ds.iter().find(|d| d.code.as_str() == "missing-waytype").expect("an error");
    assert_eq!(d.args, vec!["own_waytype".to_string()]);
}

#[test]
fn unknown_own_waytype_is_detected() {
    let ds = run(check_way_obj, &way_obj_with(&[("own_waytype", "nonexistent_waytype")], &[]), &tile_png);
    assert!(has(&ds, Severity::Error, "unknown-waytype"));
}

#[test]
fn way_obj_lint_missing_image_file_is_detected() {
    assert!(has(&run(check_way_obj, &WAY_OBJ, &no_file), Severity::Error, "missing-image-file"));
}

#[test]
fn way_obj_lint_bad_image_size_is_detected() {
    assert!(has(&run(check_way_obj, &WAY_OBJ, &odd_png), Severity::Error, "image-size-not-multiple-of-128"));
}

#[test]
fn way_obj_lint_date_index_overflow_is_detected() {
    let ds = run(check_way_obj, &way_obj_with(&[("intro_year", "-1900"), ("retire_year", "12999")], &[]), &tile_png);
    assert_eq!(count(&ds, Severity::Warning, "date-index-overflow"), 2);
}

#[test]
fn unknown_own_waytype_diagnostic_has_correct_line_number() {
    let lines = [
        ("obj", "way-object"),
        ("name", "catenary"),
        ("waytype", "track"),
        ("own_waytype", "nonexistent_waytype"),
    ];
    let d = dat(&lines);
    let ds = settle(check_way_obj(&d), &d, &tile_png);
    let x = ds
        .iter()
        .find(|x| x.code.as_str() == "unknown-waytype" && x.location.as_ref().is_some_and(|l| l.key == "own_waytype"))
        .expect("own_waytype is refused");
    assert_eq!(x.location.as_ref().unwrap().line, 4);
}

#[test]
fn way_obj_lint_missing_image_file_diagnostic_has_correct_line_number() {
    let lines = [
        ("obj", "way-object"),
        ("name", "catenary"),
        ("waytype", "track"),
        ("own_waytype", "electrified_track"),
        ("frontimage[-]", "nonexistent_way_obj_image.png.0.0"),
    ];
    let d = dat(&lines);
    let ds = settle(check_way_obj(&d), &d, &no_file);
    let x = ds.iter().find(|x| x.code.as_str() == "missing-image-file").expect("missing-image-file");
    let loc = x.location.as_ref().expect("a location");
    assert_eq!(loc.line, 5);
    assert_eq!(loc.key, "frontimage[-]");
}
