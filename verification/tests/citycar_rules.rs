#![allow(dead_code)]
use dat_linter::dat::DatFile;
use dat_linter::diagnostics::{Diagnostic, Finding, Severity};
use dat_linter::images::{settle_findings, FileProbe};
use std::io::Cursor;

fn png(w: u32, h: u32) -> Vec<u8> {
    let img = image::RgbaImage::new(w, h);
    let mut out = Cursor::new(Vec::new());
    img.write_to(&mut out, image::ImageFormat::Png).unwrap();
    out.into_inner()
}

/// A definition from `key=value` lines, numbered from 1.
fn dat(lines: &[(&str, &str)]) -> DatFile {
    let mut d = DatFile::new();
    for (i, (k, v)) in lines.iter().enumerate() {
        d.insert(k, v, i + 1);
    }
    d
}

/// The findings with every file request answered by `probe(filename)`.
fn settle(findings: Vec<Finding>, d: &DatFile, probe: &dyn Fn(&str) -> FileProbe) -> Vec<Diagnostic> {
    let probes: Vec<FileProbe> = findings
        .iter()
        .filter_map(|f| match f {
            Finding::Image(r) => Some(probe(&r.filename)),
            Finding::Diag(_) => None,
        })
        .collect();
    settle_findings(findings, &probes, d)
}

fn tile_png(_: &str) -> FileProbe {
    FileProbe::Contents(png(1024, 1024))
}

fn no_file(_: &str) -> FileProbe {
    FileProbe::Missing
}

fn odd_png(_: &str) -> FileProbe {
    FileProbe::Contents(png(100, 64))
}

fn has(ds: &[Diagnostic], severity: Severity, code: &str) -> bool {
    ds.iter().any(|d| d.severity == severity && d.code.as_str() == code)
}

fn count(ds: &[Diagnostic], severity: Severity, code: &str) -> usize {
    ds.iter().filter(|d| d.severity == severity && d.code.as_str() == code).count()
}

fn clean(ds: &[Diagnostic]) -> bool {
    ds.iter().all(|d| d.severity != Severity::Error && d.severity != Severity::Warning)
}
use dat_linter::citycar::check_citycar;

fn citycar(lines: &[(&str, &str)], probe: &dyn Fn(&str) -> FileProbe) -> Vec<Diagnostic> {
    let d = dat(lines);
    settle(check_citycar(&d), &d, probe)
}

const VALID: [(&str, &str); 10] = [
    ("obj", "citycar"),
    ("name", "hatchback"),
    ("image[s]", "car.0.0"),
    ("image[n]", "car.0.1"),
    ("image[e]", "car.0.2"),
    ("image[w]", "car.0.3"),
    ("image[se]", "car.0.4"),
    ("image[nw]", "car.0.5"),
    ("image[ne]", "car.0.6"),
    ("image[sw]", "car.0.7"),
];

#[test]
fn valid_citycar_has_no_errors_or_warnings() {
    let ds = citycar(&VALID, &tile_png);
    assert!(clean(&ds), "{ds:?}");
    assert_eq!(count(&ds, Severity::Info, "image-ok"), 8);
}

#[test]
fn citycar_lint_partial_direction_images_has_no_errors_or_warnings() {
    let ds = citycar(&[("obj", "citycar"), ("name", "half"), ("image[s]", "car.0.0"), ("image[n]", "car.0.1")], &tile_png);
    assert!(clean(&ds), "{ds:?}");
    assert_eq!(count(&ds, Severity::Debug, "image-omitted"), 6);
}

#[test]
fn citycar_lint_missing_image_file_is_detected() {
    assert!(has(&citycar(&VALID, &no_file), Severity::Error, "missing-image-file"));
}

#[test]
fn citycar_lint_bad_image_size_is_detected() {
    assert!(has(&citycar(&VALID, &odd_png), Severity::Error, "image-size-not-multiple-of-128"));
}

#[test]
fn citycar_lint_date_index_overflow_is_detected() {
    let mut lines = VALID.to_vec();
    lines.push(("intro_year", "-1900"));
    lines.push(("retire_year", "12999"));
    let ds = citycar(&lines, &tile_png);
    assert_eq!(count(&ds, Severity::Warning, "date-index-overflow"), 2);
}

#[test]
fn citycar_lint_narrow_int_overflow_is_detected() {
    let mut lines = VALID.to_vec();
    lines.push(("distributionweight", "100000"));
    let ds = citycar(&lines, &tile_png);
    assert!(has(&ds, Severity::Warning, "narrow-int-overflow"));
    let d = ds.iter().find(|d| d.code.as_str() == "narrow-int-overflow").unwrap();
    assert_eq!(d.args, vec!["distributionweight".to_string(), "100000".to_string(), "0".to_string(), "65535".to_string()]);
}

#[test]
fn citycar_lint_missing_image_file_diagnostic_has_correct_line_number() {
    let lines = [
        ("obj", "citycar"),
        ("name", "lost"),
        ("copyright", "someone"),
        ("intro_year", "1990"),
        ("image[s]", "car.0.0"),
        ("image[n]", "car.0.1"),
        ("image[e]", "car.0.2"),
        ("image[w]", "nonexistent_citycar.png.0.0"),
    ];
    let d = dat(&lines);
    let ds = settle(check_citycar(&d), &d, &|f: &str| {
        if f == "nonexistent_citycar.png" {
            FileProbe::Missing
        } else {
            tile_png(f)
        }
    });
    let x = ds.iter().find(|x| x.code.as_str() == "missing-image-file").expect("missing-image-file");
    let loc = x.location.as_ref().expect("a location");
    assert_eq!(loc.line, 8);
    assert_eq!(loc.key, "image[w]");
}

#[test]
fn citycar_lint_name_forbidden_filename_character_is_detected() {
    let mut lines = VALID.to_vec();
    lines[1] = ("name", "CON");
    assert!(has(&citycar(&lines, &tile_png), Severity::Error, "name-forbidden-filename-character"));
}

#[test]
fn citycar_lint_embedded_nul_in_copyright_is_detected() {
    let mut lines = VALID.to_vec();
    lines.push(("copyright", "fuga\0bar"));
    let ds = citycar(&lines, &tile_png);
    let d = ds.iter().find(|d| d.code.as_str() == "embedded-nul-in-string-field").expect("a warning");
    assert_eq!(d.args, vec!["copyright".to_string()]);
}
