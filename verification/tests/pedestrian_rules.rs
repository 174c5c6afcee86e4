#![allow(dead_code)]
use dat_linter::dat::DatFile;
use dat_linter::diagnostics::{Diagnostic, Finding, Severity};
use dat_linter::images::{settle_findings, FileProbe};
use std::io::Cursor;

fn png(w: u32, h: u32) -> Vec<u8> {
    let img = image::RgbaImage::new(w, h);
    let mut out = Cursor::new(Vec::new());
    img.write_to(&mut out, image::ImageFormat::Png).unwrap();
    out.into_inner()
}

/// A definition from `key=value` lines, numbered from 1.
fn dat(lines: &[(&str, &str)]) -> DatFile {
    let mut d = DatFile::new();
    for (i, (k, v)) in lines.iter().enumerate() {
        d.insert(k, v, i + 1);
    }
    d
}

/// The findings with every file request answered by `probe(filename)`.
fn settle(findings: Vec<Finding>, d: &DatFile, probe: &dyn Fn(&str) -> FileProbe) -> Vec<Diagnostic> {
    let probes: Vec<FileProbe> = findings
        .iter()
        .filter_map(|f| match f {
            Finding::Image(r) => Some(probe(&r.filename)),
            Finding::Diag(_) => None,
        })
        .collect();
    settle_findings(findings, &probes, d)
}

fn tile_png(_: &str) -> FileProbe {
    FileProbe::Contents(png(1024, 1024))
}

fn no_file(_: &str) -> FileProbe {
    FileProbe::Missing
}

fn odd_png(_: &str) -> FileProbe {
    FileProbe::Contents(png(100, 64))
}

fn has(ds: &[Diagnostic], severity: Severity, code: &str) -> bool {
    ds.iter().any(|d| d.severity == severity && d.code.as_str() == code)
}

fn count(ds: &[Diagnostic], severity: Severity, code: &str) -> usize {
    ds.iter().filter(|d| d.severity == severity && d.code.as_str() == code).count()
}

fn clean(ds: &[Diagnostic]) -> bool {
    ds.iter().all(|d| d.severity != Severity::Error && d.severity != Severity::Warning)
}
use dat_linter::pedestrian::{check_pedestrian, is_animated_exec};

fn pedestrian(lines: &[(&str, &str)], probe: &dyn Fn(&str) -> FileProbe) -> Vec<Diagnostic> {
    let d = dat(lines);
    settle(check_pedestrian(&d), &d, probe)
}

const STILL: [(&str, &str); 10] = [
    ("obj", "pedestrian"),
    ("name", "walker"),
    ("image[s]", "ped.0.0"),
    ("image[w]", "ped.0.1"),
    ("image[sw]", "ped.0.2"),
    ("image[se]", "ped.0.3"),
    ("image[n]", "ped.0.4"),
    ("image[e]", "ped.0.5"),
    ("image[ne]", "ped.0.6"),
    ("image[nw]", "ped.0.7"),
];

const ANIMATED: [(&str, &str); 5] = [
    ("obj", "pedestrian"),
    ("name", "runner"),
    ("image[s][0]", "run.0.0"),
    ("image[s][1]", "run.0.1"),
    ("image[n][0]", "run.1.0"),
];

#[test]
fn valid_pedestrian_has_no_errors_or_warnings() {
    let ds = pedestrian(&STILL, &tile_png);
    assert!(clean(&ds), "{ds:?}");
    assert_eq!(count(&ds, Severity::Info, "image-ok"), 8);
}

#[test]
fn pedestrian_lint_partial_direction_images_has_no_errors_or_warnings() {
    let ds = pedestrian(&STILL[..4], &tile_png);
    assert!(clean(&ds), "{ds:?}");
}

#[test]
fn animated_pedestrian_has_no_errors_or_warnings() {
    let d = dat(&ANIMATED);
    assert!(is_animated_exec(&d));
    assert!(!is_animated_exec(&dat(&STILL)));
    let ds = settle(check_pedestrian(&d), &d, &tile_png);
    assert!(clean(&ds), "{ds:?}");
    assert_eq!(count(&ds, Severity::Info, "image-ok"), 3);
}

#[test]
fn pedestrian_lint_missing_image_file_is_detected() {
    assert!(has(&pedestrian(&STILL, &no_file), Severity::Error, "missing-image-file"));
}

#[test]
fn pedestrian_lint_bad_image_size_is_detected() {
    assert!(has(&pedestrian(&STILL, &odd_png), Severity::Error, "image-size-not-multiple-of-128"));
}

#[test]
fn animated_missing_image_file_is_detected() {
    assert!(has(&pedestrian(&ANIMATED, &no_file), Severity::Error, "missing-image-file"));
}

#[test]
fn pedestrian_lint_date_index_overflow_is_detected() {
    let mut lines = STILL.to_vec();
    lines.push(("intro_year", "-1900"));
    lines.push(("retire_year", "12999"));
    let ds = pedestrian(&lines, &tile_png);
    assert_eq!(count(&ds, Severity::Warning, "date-index-overflow"), 2);
}

#[test]
fn pedestrian_lint_missing_image_file_diagnostic_has_correct_line_number() {
    let lines = [
        ("obj", "pedestrian"),
        ("name", "lost"),
        ("copyright", "someone"),
        ("image[s]", "ped.0.0"),
        ("image[n]", "ped.0.1"),
        ("image[e]", "ped.0.2"),
        ("image[w]", "nonexistent_pedestrian.png.0.0"),
    ];
    let d = dat(&lines);
    let ds = settle(check_pedestrian(&d), &d, &|f: &str| {
        if f == "nonexistent_pedestrian.png" {
            FileProbe::Missing
        } else {
            tile_png(f)
        }
    });
    let x = ds.iter().find(|x| x.code.as_str() == "missing-image-file").expect("missing-image-file");
    let loc = x.location.as_ref().expect("a location");
    assert_eq!(loc.line, 7);
    assert_eq!(loc.key, "image[w]");
}

#[test]
fn pedestrian_lint_name_forbidden_filename_character_is_detected() {
    let mut lines = STILL.to_vec();
    lines[1] = ("name", "CON");
    assert!(has(&pedestrian(&lines, &tile_png), Severity::Error, "name-forbidden-filename-character"));
}

#[test]
fn pedestrian_lint_embedded_nul_in_copyright_is_detected() {
    let mut lines = STILL.to_vec();
    lines.push(("copyright", "fuga\0bar"));
    assert!(has(&pedestrian(&lines, &tile_png), Severity::Warning, "embedded-nul-in-string-field"));
}

#[test]
fn pedestrian_lint_narrow_int_overflow_is_detected() {
    let mut lines = STILL.to_vec();
    lines.push(("distributionweight", "100000"));
    lines.push(("offset", "100000"));
    let ds = pedestrian(&lines, &tile_png);
    assert_eq!(count(&ds, Severity::Warning, "narrow-int-overflow"), 2, "{ds:?}");
}
