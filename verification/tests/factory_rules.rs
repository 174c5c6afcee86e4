#![allow(dead_code)]
use dat_linter::dat::DatFile;
use dat_linter::diagnostics::{Diagnostic, Finding, Severity};
use dat_linter::images::{settle_findings, FileProbe};
use std::io::Cursor;

fn png(w: u32, h: u32) -> Vec<u8> {
    let img = image::RgbaImage::new(w, h);
    let mut out = Cursor::new(Vec::new());
    img.write_to(&mut out, image::ImageFormat::Png).unwrap();
    out.into_inner()
}

/// A definition from `key=value` lines, numbered from 1.
fn dat(lines: &[(&str, &str)]) -> DatFile {
    let mut d = DatFile::new();
    for (i, (k, v)) in lines.iter().enumerate() {
        d.insert(k, v, i + 1);
    }
    d
}

/// The findings with every file request answered by `probe(filename)`.
fn settle(findings: Vec<Finding>, d: &DatFile, probe: &dyn Fn(&str) -> FileProbe) -> Vec<Diagnostic> {
    let probes: Vec<FileProbe> = findings
        .iter()
        .filter_map(|f| match f {
            Finding::Image(r) => Some(probe(&r.filename)),
            Finding::Diag(_) => None,
        })
        .collect();
    settle_findings(findings, &probes, d)
}

fn tile_png(_: &str) -> FileProbe {
    FileProbe::Contents(png(1024, 1024))
}

fn no_file(_: &str) -> FileProbe {
    FileProbe::Missing
}

fn odd_png(_: &str) -> FileProbe {
    FileProbe::Contents(png(100, 64))
}

fn has(ds: &[Diagnostic], severity: Severity, code: &str) -> bool {
    ds.iter().any(|d| d.severity == severity && d.code.as_str() == code)
}

fn count(ds: &[Diagnostic], severity: Severity, code: &str) -> usize {
    ds.iter().filter(|d| d.severity == severity && d.code.as_str() == code).count()
}

fn clean(ds: &[Diagnostic]) -> bool {
    ds.iter().all(|d| d.severity != Severity::Error && d.severity != Severity::Warning)
}
use dat_linter::factory::check_factory;

fn factory(lines: &[(&str, &str)]) -> Vec<Diagnostic> {
    let d = dat(lines);
    settle(check_factory(&d), &d, &tile_png)
}

const VALID: [(&str, &str); 8] = [
    ("obj", "factory"),
    ("name", "CoalMine"),
    ("mapcolor", "20"),
    ("productivity", "12"),
    ("outputgood[0]", "Kohle"),
    ("outputcapacity[0]", "200"),
    ("smoketile[0]", "0,0"),
    ("smokeoffset[0]", "10,-20"),
];

fn with<'a>(change: &[(&'a str, &'a str)], drop: &[&str]) -> Vec<(&'a str, &'a str)> {
    let mut v: Vec<(&'a str, &'a str)> = VALID.iter().copied().filter(|(k, _)| !drop.contains(k)).collect();
    for &(k, x) in change {
        match v.iter_mut().find(|(y, _)| *y == k) {
            Some(slot) => slot.1 = x,
            None => v.push((k, x)),
        }
    }
    v
}

#[test]
fn valid_factory_has_no_errors_or_warnings() {
    let ds = factory(&VALID);
    assert!(clean(&ds), "{ds:?}");
    let ok = ds.iter().find(|d| d.code.as_str() == "factory-mapcolor-ok").expect("the color is noted");
    assert_eq!(ok.args, vec!["20".to_string()]);
}

#[test]
fn missing_mapcolor_is_detected() {
    assert!(has(&factory(&with(&[], &["mapcolor"])), Severity::Error, "factory-missing-mapcolor"));
    // 255 is the "no color" value itself, and an out-of-range color falls back to it.
    assert!(has(&factory(&with(&[("mapcolor", "255")], &[])), Severity::Error, "factory-missing-mapcolor"));
    assert!(has(&factory(&with(&[("mapcolor", "300")], &[])), Severity::Error, "factory-missing-mapcolor"));
}

#[test]
fn type_override_is_detected() {
    assert!(has(&factory(&with(&[("type", "res")], &[])), Severity::Error, "factory-type-override"));
    assert!(!has(&factory(&with(&[("type", "FAC")], &[])), Severity::Error, "factory-type-override"));
}

#[test]
fn output_capacity_too_small_is_detected() {
    let ds = factory(&with(&[("outputcapacity[0]", "5")], &[]));
    assert!(has(&ds, Severity::Warning, "factory-output-capacity-too-small"));
    let d = ds.iter().find(|d| d.code.as_str() == "factory-output-capacity-too-small").unwrap();
    assert_eq!(d.args, vec!["outputcapacity[0]".to_string(), "5".to_string()]);
}

#[test]
fn smoketile_without_offset_is_detected() {
    let ds = factory(&with(&[], &["smokeoffset[0]"]));
    assert!(has(&ds, Severity::Warning, "factory-smoketile-without-offset"));
}

#[test]
fn probability_clamped_is_detected() {
    let ds = factory(&with(&[("probability_to_spawn", "10000"), ("expand_probability", "20000")], &[]));
    assert!(has(&ds, Severity::Warning, "factory-probability-clamped"));
    assert_eq!(count(&ds, Severity::Warning, "factory-probability-clamped"), 2);
}

#[test]
fn productivity_zero_is_detected() {
    assert!(has(&factory(&with(&[("productivity", "0")], &[])), Severity::Error, "factory-productivity-zero"));
}

#[test]
fn type_override_diagnostic_has_correct_line_number() {
    let lines = [
        ("obj", "factory"),
        ("name", "Odd"),
        ("copyright", "someone"),
        ("mapcolor", "20"),
        ("type", "res"),
    ];
    let ds = factory(&lines);
    let d = ds.iter().find(|d| d.code.as_str() == "factory-type-override").expect("the override is refused");
    let loc = d.location.as_ref().expect("a location");
    assert_eq!(loc.line, 5);
    assert_eq!(loc.key, "type");
}

#[test]
fn output_capacity_too_small_diagnostic_has_correct_line_number() {
    let lines = [
        ("obj", "factory"),
        ("name", "Small"),
        ("copyright", "someone"),
        ("mapcolor", "20"),
        ("productivity", "10"),
        ("range", "10"),
        ("location", "land"),
        ("outputgood[0]", "Kohle"),
        ("outputcapacity[0]", "5"),
    ];
    let ds = factory(&lines);
    let d = ds.iter().find(|d| d.code.as_str() == "factory-output-capacity-too-small").expect("a warning");
    let loc = d.location.as_ref().expect("a location");
    assert_eq!(loc.line, 9);
    assert_eq!(loc.key, "outputcapacity[0]");
}

#[test]
fn zero_dims_is_detected() {
    assert!(has(&factory(&with(&[("dims", "0,0,1")], &[])), Severity::Error, "zero-size"));
}

#[test]
fn cursor_icon_not_applicable_for_factory() {
    let ds = factory(&VALID);
    assert!(!has(&ds, Severity::Error, "missing-cursor-icon"), "{ds:?}");
    assert!(has(&ds, Severity::Info, "cursor-icon-not-applicable"));
}

#[test]
fn each_listed_output_below_eleven_is_warned_in_order() {
    let ds = factory(&[
        ("obj", "factory"),
        ("mapcolor", "20"),
        ("outputgood[0]", "Kohle"),
        ("outputcapacity[0]", "5"),
        ("outputgood[1]", "Holz"),
        ("outputcapacity[1]", "40"),
        ("outputgood[2]", "Erz"),
        ("outputgood[4]", "Oel"),
        ("outputcapacity[4]", "1"),
    ]);
    let w: Vec<&Diagnostic> = ds.iter().filter(|d| d.code.as_str() == "factory-output-capacity-too-small").collect();
    // outputgood[3] is missing, so output 4 is never read.
    assert_eq!(w.len(), 2);
    assert_eq!(w[0].args, vec!["outputcapacity[0]".to_string(), "5".to_string()]);
    assert_eq!(w[1].args, vec!["outputcapacity[2]".to_string(), "0".to_string()]);
    assert!(w[1].location.is_none());
}
