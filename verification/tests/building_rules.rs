#![allow(dead_code)]
use dat_linter::dat::DatFile;
use dat_linter::diagnostics::{Diagnostic, Finding, Severity};
use dat_linter::images::{settle_findings, FileProbe};
use std::io::Cursor;

fn png(w: u32, h: u32) -> Vec<u8> {
    let img = image::RgbaImage::new(w, h);
    let mut out = Cursor::new(Vec::new());
    img.write_to(&mut out, image::ImageFormat::Png).unwrap();
    out.into_inner()
}

/// A definition from `key=value` lines, numbered from 1.
fn dat(lines: &[(&str, &str)]) -> DatFile {
    let mut d = DatFile::new();
    for (i, (k, v)) in lines.iter().enumerate() {
        d.insert(k, v, i + 1);
    }
    d
}

/// The findings with every file request answered by `probe(filename)`.
fn settle(findings: Vec<Finding>, d: &DatFile, probe: &dyn Fn(&str) -> FileProbe) -> Vec<Diagnostic> {
    let probes: Vec<FileProbe> = findings
        .iter()
        .filter_map(|f| match f {
            Finding::Image(r) => Some(probe(&r.filename)),
            Finding::Diag(_) => None,
        })
        .collect();
    settle_findings(findings, &probes, d)
}

fn tile_png(_: &str) -> FileProbe {
    FileProbe::Contents(png(1024, 1024))
}

fn no_file(_: &str) -> FileProbe {
    FileProbe::Missing
}

fn odd_png(_: &str) -> FileProbe {
    FileProbe::Contents(png(100, 64))
}

fn has(ds: &[Diagnostic], severity: Severity, code: &str) -> bool {
    ds.iter().any(|d| d.severity == severity && d.code.as_str() == code)
}

fn count(ds: &[Diagnostic], severity: Severity, code: &str) -> usize {
    ds.iter().filter(|d| d.severity == severity && d.code.as_str() == code).count()
}

fn clean(ds: &[Diagnostic]) -> bool {
    ds.iter().all(|d| d.severity != Severity::Error && d.severity != Severity::Warning)
}
use dat_linter::building::check_building;

fn building(lines: &[(&str, &str)]) -> Vec<Diagnostic> {
    let d = dat(lines);
    settle(check_building(&d), &d, &tile_png)
}

const STATION: [(&str, &str); 9] = [
    ("obj", "building"),
    ("name", "station_cube"),
    ("type", "stop"),
    ("waytype", "track"),
    ("enables_pax", "1"),
    ("level", "4"),
    ("dims", "1,1,1"),
    ("cursor", "station_icon.png.0.0"),
    ("icon", "> station_icon.png.0.1"),
];

fn with<'a>(change: &[(&'a str, &'a str)], drop: &[&str]) -> Vec<(&'a str, &'a str)> {
    let mut v: Vec<(&'a str, &'a str)> = STATION.iter().copied().filter(|(k, _)| !drop.contains(k)).collect();
    for &(k, x) in change {
        match v.iter_mut().find(|(y, _)| *y == k) {
            Some(slot) => slot.1 = x,
            None => v.push((k, x)),
        }
    }
    v
}

#[test]
fn valid_building_has_no_errors_or_warnings() {
    let ds = building(&STATION);
    assert!(clean(&ds), "{ds:?}");
    let n = ds.iter().find(|d| d.code.as_str() == "parsed-pairs").expect("the pairs are counted");
    assert_eq!(n.args, vec!["9".to_string()]);
    assert_eq!(count(&ds, Severity::Info, "image-ok"), 2);
}

#[test]
fn obsolete_type_is_detected() {
    assert!(has(&building(&with(&[("type", "station")], &[])), Severity::Error, "obsolete-type"));
}

#[test]
fn missing_waytype_for_stop_is_detected() {
    assert!(has(&building(&with(&[], &["waytype"])), Severity::Error, "missing-waytype"));
}

#[test]
fn building_date_index_overflow_is_detected() {
    let ds = building(&with(
        &[("intro_year", "-1900"), ("intro_month", "13"), ("retire_year", "12999"), ("retire_month", "0")],
        &[],
    ));
    assert!(has(&ds, Severity::Warning, "date-index-overflow"));
    assert_eq!(count(&ds, Severity::Warning, "date-index-overflow"), 2);
}

#[test]
fn boolean_style_field_not_zero_or_one_is_detected() {
    let ds = building(&with(&[("NoInfo", "999"), ("enables_pax", "999")], &[]));
    assert!(has(&ds, Severity::Warning, "boolean-style-field-not-zero-or-one"));
    assert_eq!(count(&ds, Severity::Warning, "boolean-style-field-not-zero-or-one"), 2);
}

#[test]
fn capacity_narrow_int_overflow_is_detected() {
    let ds = building(&with(&[("capacity", "100000")], &[]));
    assert!(has(&ds, Severity::Warning, "narrow-int-overflow"));
}

#[test]
fn unknown_type_and_extension_without_waytype() {
    assert!(has(&building(&with(&[("type", "skyscraper")], &[])), Severity::Error, "unknown-type"));
    let ds = building(&with(&[("type", "extension")], &["waytype"]));
    assert!(!ds.iter().any(|d| d.severity == Severity::Error), "{ds:?}");
}

#[test]
fn level_zero_wraps() {
    let ds = building(&with(&[("level", "0")], &[]));
    assert!(has(&ds, Severity::Warning, "narrow-int-overflow"));
}

#[test]
fn obsolete_extension_building_keyword_is_detected() {
    let ds = building(&with(&[("extension_building", "1")], &[]));
    let d = ds.iter().find(|d| d.code.as_str() == "obsolete-keyword").expect("an error");
    assert_eq!(d.location.as_ref().map(|l| l.line), Some(10));
    let ds = building(&with(&[("extension_building", "0")], &[]));
    assert!(!has(&ds, Severity::Error, "obsolete-keyword"));
}

#[test]
fn building_name_forbidden_filename_character_is_detected() {
    assert!(has(&building(&with(&[("name", "CON")], &[])), Severity::Error, "name-forbidden-filename-character"));
    assert!(has(&building(&with(&[("name", "lpt3.station")], &[])), Severity::Error, "name-forbidden-filename-character"));
    assert!(!has(&building(&with(&[("name", "console")], &[])), Severity::Error, "name-forbidden-filename-character"));
}

#[test]
fn building_embedded_nul_in_name_is_detected() {
    let ds = building(&with(&[("name", "Passagiere\0Extra")], &[]));
    assert!(has(&ds, Severity::Warning, "embedded-nul-in-string-field"));
}

fn building_with_files(lines: &[(&str, &str)], probe: &dyn Fn(&str) -> FileProbe) -> Vec<Diagnostic> {
    let d = dat(lines);
    settle(check_building(&d), &d, probe)
}

#[test]
fn image_ref_without_literal_png_resolves_correctly() {
    let ds = building_with_files(&with(&[("icon", "> JpClassicTerminal.4.0")], &[]), &|f: &str| {
        if f == "station_icon.png" || f == "JpClassicTerminal.png" {
            FileProbe::Contents(png(1024, 1024))
        } else {
            FileProbe::Missing
        }
    });
    assert!(!has(&ds, Severity::Error, "missing-image-file"), "{ds:?}");
}

#[test]
fn relative_path_with_double_dot_in_directory_prefix_is_not_a_false_positive() {
    let ds = building_with_files(&with(&[("cursor", "../../station_icon.1.0")], &["icon"]), &|f: &str| {
        if f == "../../station_icon.png" {
            FileProbe::Contents(png(256, 256))
        } else {
            FileProbe::Missing
        }
    });
    assert!(!has(&ds, Severity::Error, "missing-image-file"), "{ds:?}");
}

#[test]
fn missing_cursor_and_icon_is_detected() {
    let ds = building(&with(&[], &["cursor", "icon"]));
    assert!(has(&ds, Severity::Error, "missing-cursor-icon"));
    // One of the two is enough for a tool.
    assert!(!has(&building(&with(&[], &["icon"])), Severity::Error, "missing-cursor-icon"));
}

#[test]
fn cursor_icon_not_applicable_for_res_com_ind_cur_mon_tow() {
    for t in ["res", "com", "ind", "cur", "mon", "tow", "COM"] {
        let ds = building(&with(&[("type", t)], &["cursor", "icon", "waytype"]));
        assert!(!has(&ds, Severity::Error, "missing-cursor-icon"), "{t}: {ds:?}");
        assert!(has(&ds, Severity::Info, "cursor-icon-not-applicable"), "{t}");
    }
    assert!(has(&building(&with(&[("type", "hq")], &["cursor", "icon"])), Severity::Error, "missing-cursor-icon"));
}

#[test]
fn image_not_multiple_of_128_is_detected() {
    let ds = building_with_files(&STATION, &odd_png);
    assert!(has(&ds, Severity::Error, "image-size-not-multiple-of-128"));
}

#[test]
fn building_image_coordinate_out_of_bounds_is_detected() {
    let ds = building_with_files(&with(&[("cursor", "station_icon.334.0")], &[]), &|_: &str| FileProbe::Contents(png(128, 128)));
    assert!(has(&ds, Severity::Error, "image-coordinate-out-of-bounds"));
}

#[test]
fn leading_space_in_value_is_trimmed_and_not_an_error() {
    let ds = building_with_files(&with(&[("cursor", " station_icon.png.0.0")], &[]), &|f: &str| {
        if f == "station_icon.png" {
            FileProbe::Contents(png(256, 256))
        } else {
            FileProbe::Missing
        }
    });
    assert!(!ds.iter().any(|d| d.severity == Severity::Error), "{ds:?}");
}

#[test]
fn zero_footprint_is_a_fatal_error() {
    let ds = building(&with(&[("dims", "0,2")], &[]));
    let d = ds.iter().find(|d| d.code.as_str() == "zero-size").expect("an error");
    assert_eq!(d.args, vec!["0".to_string(), "2".to_string()]);
    assert_eq!(d.location.as_ref().map(|l| l.key.as_str()), Some("dims"));
    assert!(!has(&building(&with(&[("dims", "2")], &[])), Severity::Error, "zero-size"));
    assert!(has(&building(&with(&[("dims", "3,x")], &[])), Severity::Error, "zero-size"));
}
