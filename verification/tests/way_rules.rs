#![allow(dead_code)]
use dat_linter::dat::DatFile;
use dat_linter::diagnostics::{Diagnostic, Finding, Severity};
use dat_linter::images::{settle_findings, FileProbe};
use std::io::Cursor;

fn png(w: u32, h: u32) -> Vec<u8> {
    let img = image::RgbaImage::new(w, h);
    let mut out = Cursor::new(Vec::new());
    img.write_to(&mut out, image::ImageFormat::Png).unwrap();
    out.into_inner()
}

/// A definition from `key=value` lines, numbered from 1.
fn dat(lines: &[(&str, &str)]) -> DatFile {
    let mut d = DatFile::new();
    for (i, (k, v)) in lines.iter().enumerate() {
        d.insert(k, v, i + 1);
    }
    d
}

/// The findings with every file request answered by `probe(filename)`.
fn settle(findings: Vec<Finding>, d: &DatFile, probe: &dyn Fn(&str) -> FileProbe) -> Vec<Diagnostic> {
    let probes: Vec<FileProbe> = findings
        .iter()
        .filter_map(|f| match f {
            Finding::Image(r) => Some(probe(&r.filename)),
            Finding::Diag(_) => None,
        })
        .collect();
    settle_findings(findings, &probes, d)
}

fn tile_png(_: &str) -> FileProbe {
    FileProbe::Contents(png(1024, 1024))
}

fn no_file(_: &str) -> FileProbe {
    FileProbe::Missing
}

fn odd_png(_: &str) -> FileProbe {
    FileProbe::Contents(png(100, 64))
}

fn has(ds: &[Diagnostic], severity: Severity, code: &str) -> bool {
    ds.iter().any(|d| d.severity == severity && d.code.as_str() == code)
}

fn count(ds: &[Diagnostic], severity: Severity, code: &str) -> usize {
    ds.iter().filter(|d| d.severity == severity && d.code.as_str() == code).count()
}

fn clean(ds: &[Diagnostic]) -> bool {
    ds.iter().all(|d| d.severity != Severity::Error && d.severity != Severity::Warning)
}
use dat_linter::way::check_way;

fn way(lines: &[(&str, &str)], probe: &dyn Fn(&str) -> FileProbe) -> Vec<Diagnostic> {
    let d = dat(lines);
    settle(check_way(&d), &d, probe)
}

#[test]
fn valid_way_has_no_errors_or_warnings() {
    let ds = way(
        &[("obj", "way"), ("name", "road_50"), ("waytype", "road"), ("clip_below", "1"), ("image[-]", "road.0.0")],
        &tile_png,
    );
    assert!(clean(&ds), "{ds:?}");
    assert!(has(&ds, Severity::Info, "waytype-ok"));
    assert!(has(&ds, Severity::Info, "image-ok"));
}

#[test]
fn way_lint_missing_waytype_is_detected() {
    let ds = way(&[("obj", "way"), ("image[-]", "road.0.0")], &tile_png);
    assert!(has(&ds, Severity::Error, "missing-waytype"));
}

#[test]
fn way_lint_unknown_waytype_is_detected() {
    let ds = way(&[("obj", "way"), ("waytype", "hovercraft"), ("image[-]", "road.0.0")], &tile_png);
    assert!(has(&ds, Severity::Error, "unknown-waytype"));
    let d = ds.iter().find(|d| d.code.as_str() == "unknown-waytype").unwrap();
    assert_eq!(d.args, vec!["waytype".to_string(), "hovercraft".to_string()]);
    assert_eq!(d.location.as_ref().map(|l| l.line), Some(2));
}

#[test]
fn missing_base_image_is_detected() {
    let ds = way(&[("obj", "way"), ("waytype", "road")], &tile_png);
    assert!(has(&ds, Severity::Error, "missing-base-image"));
}

#[test]
fn winter_image_exempts_base_image_check() {
    let ds = way(&[("obj", "way"), ("waytype", "road"), ("image[-][0]", "road.1.0")], &no_file);
    assert!(!has(&ds, Severity::Error, "missing-base-image"));
    // In the winter branch `image[-]` is not read, so no file is asked for.
    assert!(!has(&ds, Severity::Error, "missing-image-file"));
    let ok = ds.iter().find(|d| d.code.as_str() == "base-image-ok").unwrap();
    assert_eq!(ok.args, vec!["image[-][0]".to_string()]);
}

#[test]
fn clip_below_out_of_range_is_detected() {
    let ds = way(&[("obj", "way"), ("waytype", "road"), ("image[-]", "road.0.0"), ("clip_below", "2")], &tile_png);
    assert!(has(&ds, Severity::Warning, "clip-below-out-of-range"));
    let ds = way(&[("obj", "way"), ("waytype", "road"), ("image[-]", "road.0.0"), ("clip_below", " -1 ")], &tile_png);
    let d = ds.iter().find(|d| d.code.as_str() == "clip-below-out-of-range").unwrap();
    assert_eq!(d.args, vec!["-1".to_string()]);
}

#[test]
fn clip_below_that_is_not_a_number_is_left_alone() {
    let ds = way(&[("obj", "way"), ("waytype", "road"), ("image[-]", "road.0.0"), ("clip_below", "yes")], &tile_png);
    assert!(clean(&ds), "{ds:?}");
    let ds = way(&[("obj", "way"), ("waytype", "road"), ("image[-]", "road.0.0"), ("clip_below", "0")], &tile_png);
    assert!(clean(&ds), "{ds:?}");
}

#[test]
fn way_lint_missing_image_file_is_detected() {
    let ds = way(&[("obj", "way"), ("waytype", "road"), ("image[-]", "nothere.0.0")], &no_file);
    assert!(has(&ds, Severity::Error, "missing-image-file"));
    let d = ds.iter().find(|d| d.code.as_str() == "missing-image-file").unwrap();
    assert_eq!(d.args, vec!["image[-]".to_string(), "nothere.png".to_string()]);
    let loc = d.location.as_ref().expect("the key is present");
    assert_eq!((loc.line, loc.key.as_str()), (3, "image[-]"));
}

#[test]
fn way_lint_date_index_overflow_is_detected() {
    let ds = way(
        &[("obj", "way"), ("waytype", "road"), ("image[-]", "road.0.0"), ("intro_year", "-1900"), ("retire_year", "12999")],
        &tile_png,
    );
    assert_eq!(count(&ds, Severity::Warning, "date-index-overflow"), 2);
}

#[test]
fn way_lint_narrow_int_overflow_is_detected() {
    let ds = way(
        &[("obj", "way"), ("waytype", "road"), ("image[-]", "road.0.0"), ("axle_load", "100000"), ("system_type", "300")],
        &tile_png,
    );
    assert_eq!(count(&ds, Severity::Warning, "narrow-int-overflow"), 2, "{ds:?}");
}

#[test]
fn way_lint_name_forbidden_filename_character_is_detected() {
    let ds = way(&[("obj", "way"), ("name", "CON"), ("waytype", "road"), ("image[-]", "road.0.0")], &tile_png);
    assert!(has(&ds, Severity::Error, "name-forbidden-filename-character"));
    let d = ds.iter().find(|d| d.code.as_str() == "name-forbidden-filename-character").unwrap();
    assert_eq!(d.args, vec!["name".to_string(), "CON".to_string()]);
    assert_eq!(d.location.as_ref().map(|l| l.line), Some(2));
}

#[test]
fn way_lint_embedded_nul_in_name_is_detected() {
    let ds = way(&[("obj", "way"), ("name", "ValidRoad\0Extra"), ("waytype", "road"), ("image[-]", "road.0.0")], &tile_png);
    assert!(has(&ds, Severity::Warning, "embedded-nul-in-string-field"));
    // What makeobj keeps of the name is a valid file name.
    assert!(!has(&ds, Severity::Error, "name-forbidden-filename-character"));
}

#[test]
fn way_lint_image_coordinate_out_of_bounds_is_detected() {
    // station_cube.png is one 128x128 tile: row 334 does not exist.
    let ds = way(&[("obj", "way"), ("waytype", "road"), ("image[-]", "station_cube.334.0")], &|_: &str| {
        FileProbe::Contents(png(128, 128))
    });
    let d = ds.iter().find(|d| d.code.as_str() == "image-coordinate-out-of-bounds").expect("an error");
    assert_eq!(d.severity, Severity::Error);
    assert_eq!(
        d.args,
        vec!["image[-]".to_string(), "station_cube.334.0".to_string(), "1".to_string(), "1".to_string()]
    );
}

#[test]
fn only_an_unknown_waytype_points_at_its_line() {
    let ds = way(&[("obj", "way"), ("waytype", "road"), ("image[-]", "road.0.0")], &tile_png);
    let ok = ds.iter().find(|d| d.code.as_str() == "waytype-ok").unwrap();
    assert!(ok.location.is_none());
    let ds = way(&[("obj", "way"), ("waytype", ""), ("image[-]", "road.0.0")], &tile_png);
    let missing = ds.iter().find(|d| d.code.as_str() == "missing-waytype").unwrap();
    assert!(missing.location.is_none());
}
