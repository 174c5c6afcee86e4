#![allow(dead_code)]
use dat_linter::dat::DatFile;
use dat_linter::diagnostics::{Diagnostic, Finding, Severity};
use dat_linter::images::{settle_findings, FileProbe};
use std::io::Cursor;

fn png(w: u32, h: u32) -> Vec<u8> {
    let img = image::RgbaImage::new(w, h);
    let mut out = Cursor::new(Vec::new());
    img.write_to(&mut out, image::ImageFormat::Png).unwrap();
    out.into_inner()
}

/// A definition from `key=value` lines, numbered from 1.
fn dat(lines: &[(&str, &str)]) -> DatFile {
    let mut d = DatFile::new();
    for (i, (k, v)) in lines.iter().enumerate() {
        d.insert(k, v, i + 1);
    }
    d
}

/// The findings with every file request answered by `probe(filename)`.
fn settle(findings: Vec<Finding>, d: &DatFile, probe: &dyn Fn(&str) -> FileProbe) -> Vec<Diagnostic> {
    let probes: Vec<FileProbe> = findings
        .iter()
        .filter_map(|f| match f {
            Finding::Image(r) => Some(probe(&r.filename)),
            Finding::Diag(_) => None,
        })
        .collect();
    settle_findings(findings, &probes, d)
}

fn tile_png(_: &str) -> FileProbe {
    FileProbe::Contents(png(1024, 1024))
}

fn no_file(_: &str) -> FileProbe {
    FileProbe::Missing
}

fn odd_png(_: &str) -> FileProbe {
    FileProbe::Contents(png(100, 64))
}

fn has(ds: &[Diagnostic], severity: Severity, code: &str) -> bool {
    ds.iter().any(|d| d.severity == severity && d.code.as_str() == code)
}

fn count(ds: &[Diagnostic], severity: Severity, code: &str) -> usize {
    ds.iter().filter(|d| d.severity == severity && d.code.as_str() == code).count()
}

fn clean(ds: &[Diagnostic]) -> bool {
    ds.iter().all(|d| d.severity != Severity::Error && d.severity != Severity::Warning)
}
use dat_linter::cursor::check_cursor;
use dat_linter::field::check_field;
use dat_linter::menu::check_menu;
use dat_linter::misc::check_misc;
use dat_linter::smoke::check_smoke;
use dat_linter::sound::check_sound;
use dat_linter::symbol::check_symbol;

fn run(check: fn(&DatFile) -> Vec<Finding>, lines: &[(&str, &str)], probe: &dyn Fn(&str) -> FileProbe) -> Vec<Diagnostic> {
    let d = dat(lines);
    settle(check(&d), &d, probe)
}

const SYMBOL: [(&str, &str); 4] = [("obj", "symbol"), ("name", "Logo"), ("image[0]", "logo.0.0"), ("image[1]", "logo.0.1")];

#[test]
fn valid_symbol_has_no_errors_or_warnings() {
    let ds = run(check_symbol, &SYMBOL, &tile_png);
    assert!(clean(&ds), "{ds:?}");
    assert_eq!(count(&ds, Severity::Info, "image-ok"), 2);
}

#[test]
fn symbol_lint_dash_sentinel_is_not_an_error() {
    let lines = [("obj", "symbol"), ("name", "Logo"), ("image[0]", "-"), ("image[1]", "logo.0.1")];
    let ds = run(check_symbol, &lines, &tile_png);
    assert!(!ds.iter().any(|d| d.severity == Severity::Error), "{ds:?}");
    // The sentinel does not end the scan: image[1] is still checked.
    assert_eq!(count(&ds, Severity::Info, "image-ok"), 1);
}

#[test]
fn dash_sentinel_produces_image_ref_empty_sentinel_info() {
    let lines = [("obj", "symbol"), ("name", "Logo"), ("image[0]", "-"), ("image[1]", "logo.0.1")];
    let ds = run(check_symbol, &lines, &tile_png);
    assert!(has(&ds, Severity::Info, "image-ref-empty-sentinel"));
}

#[test]
fn symbol_lint_no_images_is_not_an_error() {
    let ds = run(check_symbol, &[("obj", "symbol"), ("name", "Logo")], &tile_png);
    assert!(ds.is_empty(), "{ds:?}");
}

#[test]
fn symbol_lint_missing_image_file_is_detected() {
    assert!(has(&run(check_symbol, &SYMBOL, &no_file), Severity::Error, "missing-image-file"));
}

#[test]
fn symbol_lint_bad_image_size_is_detected() {
    assert!(has(&run(check_symbol, &SYMBOL, &odd_png), Severity::Error, "image-size-not-multiple-of-128"));
}

#[test]
fn zoomable_prefix_is_not_a_false_positive() {
    let lines = [("obj", "symbol"), ("name", "Logo"), ("image[0]", "> station_cube.png.0.0")];
    let d = dat(&lines);
    let ds = settle(check_symbol(&d), &d, &|f: &str| {
        if f == "station_cube.png" {
            tile_png(f)
        } else {
            FileProbe::Missing
        }
    });
    assert!(!ds.iter().any(|x| x.severity == Severity::Error), "{ds:?}");
}

#[test]
fn scan_stops_at_the_first_missing_index() {
    let lines = [("obj", "menu"), ("image[0]", "m.0.0"), ("image[2]", "m.0.2")];
    let ds = run(check_menu, &lines, &tile_png);
    assert_eq!(count(&ds, Severity::Info, "image-ok"), 1);
}

#[test]
fn every_skin_type_checks_its_images() {
    for check in [check_menu, check_cursor, check_symbol, check_smoke, check_field, check_misc] {
        let ds = run(check, &[("name", "Sidewalk"), ("image[0]", "skin.0.0")], &no_file);
        assert!(has(&ds, Severity::Error, "missing-image-file"));
        assert_eq!(ds.iter().filter(|d| d.code.as_str() != "unknown-skin-name").count(), 2);
    }
}

#[test]
fn valid_sound_has_no_errors_or_warnings() {
    let ds = run(check_sound, &[("obj", "sound"), ("name", "horn"), ("sound_nr", "3"), ("sound_name", "horn.wav")], &no_file);
    assert!(ds.is_empty());
}

#[test]
fn sound_lint_name_forbidden_filename_character_is_detected() {
    let ds = run(check_sound, &[("obj", "sound"), ("name", "CON")], &no_file);
    assert!(has(&ds, Severity::Error, "name-forbidden-filename-character"));
}

#[test]
fn sound_lint_embedded_nul_in_copyright_is_detected() {
    let ds = run(check_sound, &[("obj", "sound"), ("name", "horn"), ("copyright", "fuga\0bar")], &no_file);
    assert!(has(&ds, Severity::Warning, "embedded-nul-in-string-field"));
}

#[test]
fn sound_lint_narrow_int_overflow_is_detected() {
    let ds = run(check_sound, &[("obj", "sound"), ("name", "horn"), ("sound_nr", "100000")], &no_file);
    assert!(has(&ds, Severity::Warning, "narrow-int-overflow"));
    // Without the key the default is not judged.
    assert!(run(check_sound, &[("obj", "sound"), ("name", "horn")], &no_file).is_empty());
}

#[test]
fn misc_name_must_be_one_the_game_looks_up() {
    let ds = run(check_misc, &[("obj", "misc"), ("name", "NotARealSkinName")], &no_file);
    let d = ds.iter().find(|d| d.code.as_str() == "unknown-skin-name").expect("a warning");
    assert_eq!(d.args, vec!["misc".to_string(), "NotARealSkinName".to_string()]);
    assert_eq!(d.location.as_ref().map(|l| l.line), Some(2));
    assert!(run(check_misc, &[("obj", "misc"), ("name", "Sidewalk")], &no_file).is_empty());
    // The lookup is case-sensitive.
    assert!(has(&run(check_misc, &[("obj", "misc"), ("name", "sidewalk")], &no_file), Severity::Warning, "unknown-skin-name"));
}

#[test]
fn unknown_name_is_detected() {
    let ds = run(check_symbol, &[("obj", "symbol"), ("name", "NotARealSkinName")], &no_file);
    let d = ds.iter().find(|d| d.code.as_str() == "unknown-skin-name").expect("a warning");
    assert_eq!(d.severity, Severity::Warning);
    assert_eq!(d.args, vec!["symbol".to_string(), "NotARealSkinName".to_string()]);
    assert_eq!(d.location.as_ref().map(|l| (l.line, l.key.as_str())), Some((2, "name")));
}

#[test]
fn fakultative_name_is_not_unknown_skin_name() {
    let ds = run(check_symbol, &[("obj", "symbol"), ("name", "TrainStop"), ("image[0]", "stop.0.0")], &tile_png);
    assert!(!has(&ds, Severity::Warning, "unknown-skin-name"), "{ds:?}");
    let ds = run(check_symbol, &[("obj", "symbol"), ("name", "Waren")], &tile_png);
    assert!(ds.is_empty(), "{ds:?}");
    // The lookup is case-sensitive.
    let ds = run(check_symbol, &[("obj", "symbol"), ("name", "trainstop")], &tile_png);
    assert!(has(&ds, Severity::Warning, "unknown-skin-name"));
}
