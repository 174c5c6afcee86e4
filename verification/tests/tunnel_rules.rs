#![allow(dead_code)]
use dat_linter::dat::DatFile;
use dat_linter::diagnostics::{Diagnostic, Finding, Severity};
use dat_linter::images::{settle_findings, FileProbe};
use std::io::Cursor;

fn png(w: u32, h: u32) -> Vec<u8> {
    let img = image::RgbaImage::new(w, h);
    let mut out = Cursor::new(Vec::new());
    img.write_to(&mut out, image::ImageFormat::Png).unwrap();
    out.into_inner()
}

/// A definition from `key=value` lines, numbered from 1.
fn dat(lines: &[(&str, &str)]) -> DatFile {
    let mut d = DatFile::new();
    for (i, (k, v)) in lines.iter().enumerate() {
        d.insert(k, v, i + 1);
    }
    d
}

/// The findings with every file request answered by `probe(filename)`.
fn settle(findings: Vec<Finding>, d: &DatFile, probe: &dyn Fn(&str) -> FileProbe) -> Vec<Diagnostic> {
    let probes: Vec<FileProbe> = findings
        .iter()
        .filter_map(|f| match f {
            Finding::Image(r) => Some(probe(&r.filename)),
            Finding::Diag(_) => None,
        })
        .collect();
    settle_findings(findings, &probes, d)
}

fn tile_png(_: &str) -> FileProbe {
    FileProbe::Contents(png(1024, 1024))
}

fn no_file(_: &str) -> FileProbe {
    FileProbe::Missing
}

fn odd_png(_: &str) -> FileProbe {
    FileProbe::Contents(png(100, 64))
}

fn has(ds: &[Diagnostic], severity: Severity, code: &str) -> bool {
    ds.iter().any(|d| d.severity == severity && d.code.as_str() == code)
}

fn count(ds: &[Diagnostic], severity: Severity, code: &str) -> usize {
    ds.iter().filter(|d| d.severity == severity && d.code.as_str() == code).count()
}

fn clean(ds: &[Diagnostic]) -> bool {
    ds.iter().all(|d| d.severity != Severity::Error && d.severity != Severity::Warning)
}
use dat_linter::tunnel::{check_tunnel, number_of_seasons_exec, number_portals_exec};

fn tunnel(lines: &[(&str, &str)], probe: &dyn Fn(&str) -> FileProbe) -> Vec<Diagnostic> {
    let d = dat(lines);
    settle(check_tunnel(&d), &d, probe)
}

const PLAIN: [(&str, &str); 10] = [
    ("obj", "tunnel"),
    ("waytype", "track"),
    ("frontimage[n][0]", "tunnel.0.0"),
    ("frontimage[s][0]", "tunnel.0.1"),
    ("frontimage[e][0]", "tunnel.0.2"),
    ("frontimage[w][0]", "tunnel.0.3"),
    ("backimage[n][0]", "tunnel.1.0"),
    ("backimage[s][0]", "tunnel.1.1"),
    ("backimage[e][0]", "tunnel.1.2"),
    ("backimage[w][0]", "tunnel.1.3"),
];

#[test]
fn valid_tunnel_has_no_errors_or_warnings() {
    let ds = tunnel(&PLAIN, &tile_png);
    assert!(clean(&ds), "{ds:?}");
    assert_eq!(count(&ds, Severity::Info, "image-ok"), 8);
}

#[test]
fn broad_portal_short_key_has_no_errors_or_warnings() {
    let mut lines = PLAIN.to_vec();
    lines.push(("frontimage[nl]", "tunnel.2.0"));
    let d = dat(&lines);
    assert_eq!(number_portals_exec(&d), 4);
    assert_eq!(number_of_seasons_exec(&d), 0);
    let ds = settle(check_tunnel(&d), &d, &tile_png);
    assert!(!ds.iter().any(|x| x.severity == Severity::Error), "{ds:?}");
    // The short key is an image that is actually read.
    assert!(ds.iter().any(|x| x.code.as_str() == "image-ok" && x.args[0] == "frontimage[nl]"));
}

#[test]
fn tunnel_lint_missing_waytype_is_detected() {
    let lines: Vec<(&str, &str)> = PLAIN.iter().copied().filter(|(k, _)| *k != "waytype").collect();
    assert!(has(&tunnel(&lines, &tile_png), Severity::Error, "missing-waytype"));
}

#[test]
fn tunnel_lint_unknown_waytype_is_detected() {
    let mut lines = PLAIN.to_vec();
    lines[1] = ("waytype", "subway");
    assert!(has(&tunnel(&lines, &tile_png), Severity::Error, "unknown-waytype"));
}

#[test]
fn tunnel_lint_missing_image_file_is_detected() {
    assert!(has(&tunnel(&PLAIN, &no_file), Severity::Error, "missing-image-file"));
}

#[test]
fn tunnel_lint_bad_image_size_is_detected() {
    assert!(has(&tunnel(&PLAIN, &odd_png), Severity::Error, "image-size-not-multiple-of-128"));
}

#[test]
fn tunnel_lint_date_index_overflow_is_detected() {
    let mut lines = PLAIN.to_vec();
    lines.push(("intro_year", "-1900"));
    lines.push(("retire_year", "12999"));
    let ds = tunnel(&lines, &tile_png);
    assert!(has(&ds, Severity::Warning, "date-index-overflow"));
    assert_eq!(count(&ds, Severity::Warning, "date-index-overflow"), 2);
}

#[test]
fn snow_season_doubles_the_portal_images() {
    let mut lines = PLAIN.to_vec();
    lines.push(("frontimage[n][1]", "tunnel.3.0"));
    let d = dat(&lines);
    assert_eq!(number_of_seasons_exec(&d), 1);
    let ds = settle(check_tunnel(&d), &d, &tile_png);
    assert_eq!(count(&ds, Severity::Info, "image-ok"), 9);
}

#[test]
fn tunnel_lint_name_forbidden_filename_character_is_detected() {
    let mut lines = PLAIN.to_vec();
    lines.push(("name", "CON"));
    assert!(has(&tunnel(&lines, &tile_png), Severity::Error, "name-forbidden-filename-character"));
}

#[test]
fn tunnel_lint_embedded_nul_in_name_is_detected() {
    let mut lines = PLAIN.to_vec();
    lines.push(("name", "ValidTunnel\0Extra"));
    assert!(has(&tunnel(&lines, &tile_png), Severity::Warning, "embedded-nul-in-string-field"));
}

#[test]
fn tunnel_lint_narrow_int_overflow_is_detected() {
    let mut lines = PLAIN.to_vec();
    lines.push(("axle_load", "100000"));
    let ds = tunnel(&lines, &tile_png);
    let d = ds.iter().find(|d| d.code.as_str() == "narrow-int-overflow").expect("a warning");
    assert_eq!(d.args, vec!["axle_load".to_string(), "100000".to_string(), "0".to_string(), "65535".to_string()]);
}

#[test]
fn tunnel_lint_image_coordinate_out_of_bounds_is_detected() {
    let mut lines = PLAIN.to_vec();
    lines[2] = ("frontimage[n][0]", "station_cube.334.0");
    let ds = tunnel(&lines, &|_: &str| FileProbe::Contents(png(512, 512)));
    assert_eq!(count(&ds, Severity::Error, "image-coordinate-out-of-bounds"), 1);
}
