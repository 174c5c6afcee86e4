#![allow(dead_code)]
use dat_linter::dat::DatFile;
use dat_linter::diagnostics::{Diagnostic, Finding, Severity};
use dat_linter::images::{settle_findings, FileProbe};
use std::io::Cursor;

fn png(w: u32, h: u32) -> Vec<u8> {
    let img = image::RgbaImage::new(w, h);
    let mut out = Cursor::new(Vec::new());
    img.write_to(&mut out, image::ImageFormat::Png).unwrap();
    out.into_inner()
}

/// A definition from `key=value` lines, numbered from 1.
fn dat(lines: &[(&str, &str)]) -> DatFile {
    let mut d = DatFile::new();
    for (i, (k, v)) in lines.iter().enumerate() {
        d.insert(k, v, i + 1);
    }
    d
}

/// The findings with every file request answered by `probe(filename)`.
fn settle(findings: Vec<Finding>, d: &DatFile, probe: &dyn Fn(&str) -> FileProbe) -> Vec<Diagnostic> {
    let probes: Vec<FileProbe> = findings
        .iter()
        .filter_map(|f| match f {
            Finding::Image(r) => Some(probe(&r.filename)),
            Finding::Diag(_) => None,
        })
        .collect();
    settle_findings(findings, &probes, d)
}

fn tile_png(_: &str) -> FileProbe {
    FileProbe::Contents(png(1024, 1024))
}

fn no_file(_: &str) -> FileProbe {
    FileProbe::Missing
}

fn odd_png(_: &str) -> FileProbe {
    FileProbe::Contents(png(100, 64))
}

fn has(ds: &[Diagnostic], severity: Severity, code: &str) -> bool {
    ds.iter().any(|d| d.severity == severity && d.code.as_str() == code)
}

fn count(ds: &[Diagnostic], severity: Severity, code: &str) -> usize {
    ds.iter().filter(|d| d.severity == severity && d.code.as_str() == code).count()
}

fn clean(ds: &[Diagnostic]) -> bool {
    ds.iter().all(|d| d.severity != Severity::Error && d.severity != Severity::Warning)
}
use dat_linter::good::check_good;
use dat_linter::ground::check_ground;
use dat_linter::groundobj::check_groundobj;
use dat_linter::tree::{check_tree, seasons_exec};

fn run(check: fn(&DatFile) -> Vec<Finding>, lines: &[(&str, &str)], probe: &dyn Fn(&str) -> FileProbe) -> Vec<Diagnostic> {
    let d = dat(lines);
    settle(check(&d), &d, probe)
}

// ----- good -----

#[test]
fn valid_good_has_no_errors_or_warnings() {
    let ds = run(check_good, &[("obj", "good"), ("name", "Passagiere"), ("catg", "0"), ("mapcolor", "12")], &tile_png);
    assert!(ds.is_empty(), "{ds:?}");
}

#[test]
fn good_lint_narrow_int_overflow_is_detected() {
    let ds = run(check_good, &[("obj", "good"), ("name", "Goods"), ("catg", "300")], &tile_png);
    assert!(has(&ds, Severity::Warning, "narrow-int-overflow"));
    let d = ds.iter().find(|d| d.code.as_str() == "narrow-int-overflow").unwrap();
    assert_eq!(d.args, vec!["catg".to_string(), "300".to_string(), "0".to_string(), "255".to_string()]);
    assert_eq!(d.location.as_ref().map(|l| l.line), Some(3));
}

#[test]
fn good_mapcolor_absent_is_the_default_and_fine() {
    let ds = run(check_good, &[("obj", "good"), ("name", "Goods")], &tile_png);
    assert!(ds.is_empty(), "{ds:?}");
    let ds = run(check_good, &[("obj", "good"), ("speed_bonus", "0x10000")], &tile_png);
    assert_eq!(count(&ds, Severity::Warning, "narrow-int-overflow"), 1);
}

// ----- ground -----

#[test]
fn valid_ground_has_no_errors_or_warnings() {
    let ds = run(
        check_ground,
        &[("obj", "ground"), ("name", "Outside"), ("image[0][0]", "ground.0.0"), ("image[0][1]", "ground.0.1"), ("image[1][0]", "ground.1.0")],
        &tile_png,
    );
    assert!(clean(&ds), "{ds:?}");
    assert_eq!(count(&ds, Severity::Info, "image-ok"), 3);
}

#[test]
fn ground_lint_dash_sentinel_is_not_an_error() {
    let ds = run(check_ground, &[("obj", "ground"), ("name", "Outside"), ("image[0][0]", "-")], &no_file);
    assert!(!ds.iter().any(|d| d.severity == Severity::Error), "{ds:?}");
    assert!(has(&ds, Severity::Info, "image-ref-empty-sentinel"));
}

#[test]
fn ground_lint_no_images_is_not_an_error() {
    let ds = run(check_ground, &[("obj", "ground"), ("name", "Outside")], &no_file);
    assert!(ds.is_empty(), "{ds:?}");
}

#[test]
fn ground_lint_missing_image_file_is_detected() {
    let ds = run(check_ground, &[("obj", "ground"), ("image[0][0]", "gone.0.0")], &no_file);
    assert!(has(&ds, Severity::Error, "missing-image-file"));
}

#[test]
fn ground_lint_bad_image_size_is_detected() {
    let ds = run(check_ground, &[("obj", "ground"), ("image[0][0]", "odd.0.0")], &odd_png);
    assert!(has(&ds, Severity::Error, "image-size-not-multiple-of-128"));
}

#[test]
fn ground_stops_at_the_first_slope_without_images() {
    let ds = run(check_ground, &[("obj", "ground"), ("image[0][0]", "g.0.0"), ("image[2][0]", "g.2.0")], &tile_png);
    assert_eq!(count(&ds, Severity::Info, "image-ok"), 1);
}

// ----- ground_obj -----

const MOVING_DIRS: [&str; 8] = ["s", "w", "sw", "se", "n", "e", "ne", "nw"];

fn moving(speed: &'static str) -> Vec<(String, String)> {
    let mut v = vec![("obj".to_string(), "ground_obj".to_string()), ("speed".to_string(), speed.to_string())];
    for dir in MOVING_DIRS {
        v.push((format!("image[{dir}][0]"), format!("bird.{dir}.0")));
    }
    v
}

fn borrow(v: &[(String, String)]) -> Vec<(&str, &str)> {
    v.iter().map(|(k, x)| (k.as_str(), x.as_str())).collect()
}

#[test]
fn valid_groundobj_has_no_errors_or_warnings() {
    let ds = run(
        check_groundobj,
        &[("obj", "ground_obj"), ("name", "rock"), ("seasons", "2"), ("image[0][0]", "rock.0.0"), ("image[0][1]", "rock.0.1")],
        &tile_png,
    );
    assert!(clean(&ds), "{ds:?}");
    assert!(has(&ds, Severity::Info, "waytype-omitted"));
}

#[test]
fn valid_moving_groundobj_has_no_errors_or_warnings() {
    let ds = run(check_groundobj, &borrow(&moving("10")), &tile_png);
    assert!(clean(&ds), "{ds:?}");
    assert_eq!(count(&ds, Severity::Info, "image-ok"), 8);
}

#[test]
fn missing_waytype_and_images_is_not_an_error() {
    let ds = run(check_groundobj, &[("obj", "ground_obj"), ("name", "nothing")], &tile_png);
    assert!(clean(&ds), "{ds:?}");
    assert!(has(&ds, Severity::Info, "no-images"));
    assert!(has(&ds, Severity::Info, "waytype-omitted"));
}

#[test]
fn speed_truncated_to_zero_uses_fixed_branch() {
    let ds = run(check_groundobj, &[("obj", "ground_obj"), ("speed", "65536"), ("image[0][0]", "rock.0.0")], &tile_png);
    assert!(!ds.iter().any(|d| d.severity == Severity::Error), "{ds:?}");
}

#[test]
fn speed_hex_prefix_selects_moving_branch_and_is_accepted() {
    let ds = run(check_groundobj, &borrow(&moving("0xA")), &tile_png);
    assert!(clean(&ds), "{ds:?}");
    assert!(!has(&ds, Severity::Info, "no-images"), "{ds:?}");
}

#[test]
fn groundobj_lint_missing_season_image_is_detected() {
    let ds = run(
        check_groundobj,
        &[("obj", "ground_obj"), ("seasons", "2"), ("image[0][0]", "rock.0.0")],
        &tile_png,
    );
    assert!(has(&ds, Severity::Error, "missing-season-image"));
}

#[test]
fn groundobj_lint_unknown_waytype_is_detected() {
    let ds = run(check_groundobj, &[("obj", "ground_obj"), ("name", "boat"), ("waytype", "nonexistent_waytype")], &tile_png);
    assert!(has(&ds, Severity::Error, "unknown-waytype"));
}

#[test]
fn groundobj_lint_missing_image_file_is_detected() {
    let ds = run(check_groundobj, &[("obj", "ground_obj"), ("image[0][0]", "gone.0.0")], &no_file);
    assert!(has(&ds, Severity::Error, "missing-image-file"));
}

#[test]
fn groundobj_lint_bad_image_size_is_detected() {
    let ds = run(check_groundobj, &[("obj", "ground_obj"), ("image[0][0]", "odd.0.0")], &odd_png);
    assert!(has(&ds, Severity::Error, "image-size-not-multiple-of-128"));
}

#[test]
fn moving_groundobj_missing_direction_is_detected() {
    let mut v = moving("10");
    v.retain(|(k, _)| k != "image[ne][0]");
    let ds = run(check_groundobj, &borrow(&v), &tile_png);
    assert!(has(&ds, Severity::Error, "missing-season-image"));
    assert_eq!(count(&ds, Severity::Error, "missing-season-image"), 1);
}

#[test]
fn unknown_waytype_diagnostic_has_correct_line_number() {
    let d = dat(&[("obj", "ground_obj"), ("name", "boat"), ("waytype", "nonexistent_waytype")]);
    let ds = settle(check_groundobj(&d), &d, &tile_png);
    let x = ds.iter().find(|x| x.code.as_str() == "unknown-waytype").expect("unknown-waytype");
    let loc = x.location.as_ref().expect("a location");
    assert_eq!(loc.line, 3);
    assert_eq!(loc.key, "waytype");
}

// ----- tree -----

fn tree_images(seasons: u32) -> Vec<(String, String)> {
    let mut v = vec![("obj".to_string(), "tree".to_string()), ("seasons".to_string(), seasons.to_string())];
    for age in 0..5 {
        for s in 0..seasons {
            v.push((format!("image[{age}][{s}]"), format!("tree.{age}.{s}")));
        }
    }
    v
}

#[test]
fn valid_tree_has_no_errors_or_warnings() {
    let mut v = tree_images(1);
    v.retain(|(k, _)| k != "seasons");
    let ds = run(check_tree, &borrow(&v), &tile_png);
    assert!(clean(&ds), "{ds:?}");
    assert_eq!(count(&ds, Severity::Info, "image-ok"), 5);
}

#[test]
fn valid_seasonal_tree_has_no_errors_or_warnings() {
    let ds = run(check_tree, &borrow(&tree_images(4)), &tile_png);
    assert!(clean(&ds), "{ds:?}");
    assert_eq!(count(&ds, Severity::Info, "image-ok"), 20);
}

#[test]
fn missing_age_image_is_detected() {
    let mut v = tree_images(1);
    v.retain(|(k, _)| k != "image[3][0]");
    let ds = run(check_tree, &borrow(&v), &tile_png);
    assert!(has(&ds, Severity::Error, "missing-age-season-image"));
}

#[test]
fn tree_lint_missing_season_image_is_detected() {
    let mut v = tree_images(2);
    v.retain(|(k, _)| k != "image[1][1]");
    let ds = run(check_tree, &borrow(&v), &tile_png);
    let d = ds.iter().find(|d| d.code.as_str() == "missing-age-season-image").expect("an error");
    assert_eq!(d.args, vec!["image[1][1]".to_string(), "1".to_string(), "1".to_string()]);
}

#[test]
fn seasons_zero_requires_no_images() {
    let d = dat(&[("obj", "tree"), ("seasons", "0")]);
    assert_eq!(seasons_exec(&d), 0);
    let ds = settle(check_tree(&d), &d, &tile_png);
    assert!(!ds.iter().any(|x| x.severity == Severity::Error), "{ds:?}");
}

#[test]
fn seasons_overflow_wraps_to_uint8() {
    let d = dat(&[("obj", "tree"), ("seasons", "257")]);
    assert_eq!(seasons_exec(&d), 1);
    let ds = settle(check_tree(&d), &d, &tile_png);
    assert_eq!(count(&ds, Severity::Error, "missing-age-season-image"), 5);
}

#[test]
fn tree_lint_missing_image_file_is_detected() {
    assert!(has(&run(check_tree, &borrow(&tree_images(1)), &no_file), Severity::Error, "missing-image-file"));
}

#[test]
fn tree_lint_bad_image_size_is_detected() {
    assert!(has(&run(check_tree, &borrow(&tree_images(1)), &odd_png), Severity::Error, "image-size-not-multiple-of-128"));
}

#[test]
fn tree_lint_missing_image_file_diagnostic_has_correct_line_number() {
    let lines = [
        ("obj", "tree"),
        ("name", "oak"),
        ("copyright", "someone"),
        ("seasons", "1"),
        ("climates", "temperate"),
        ("distributionweight", "3"),
        ("image[0][0]", "tree.0.0"),
        ("image[1][0]", "tree.1.0"),
        ("image[2][0]", "tree.2.0"),
        ("image[3][0]", "tree.3.0"),
        ("intro_year", "1900"),
        ("image[4][0]", "nonexistent_tree.png.0.0"),
    ];
    let d = dat(&lines);
    let ds = settle(check_tree(&d), &d, &|f: &str| {
        if f == "nonexistent_tree.png" {
            FileProbe::Missing
        } else {
            tile_png(f)
        }
    });
    let x = ds.iter().find(|x| x.code.as_str() == "missing-image-file").expect("missing-image-file");
    let loc = x.location.as_ref().expect("a location");
    assert_eq!(loc.line, 12);
    assert_eq!(loc.key, "image[4][0]");
}

#[test]
fn good_lint_name_forbidden_filename_character_is_detected() {
    let ds = run(check_good, &[("obj", "good"), ("name", "Passagiere.")], &tile_png);
    assert!(has(&ds, Severity::Error, "name-forbidden-filename-character"));
}

#[test]
fn good_lint_embedded_nul_in_name_is_detected() {
    let ds = run(check_good, &[("obj", "good"), ("name", "Passagiere\0Extra")], &tile_png);
    assert!(has(&ds, Severity::Warning, "embedded-nul-in-string-field"));
}

#[test]
fn ground_and_tree_check_their_names() {
    let ds = run(check_ground, &[("obj", "ground"), ("name", "a|b")], &tile_png);
    assert!(has(&ds, Severity::Error, "name-forbidden-filename-character"));
    let ds = run(check_tree, &[("obj", "tree"), ("name", "Oak"), ("copyright", "x\0y"), ("seasons", "0")], &tile_png);
    assert!(has(&ds, Severity::Warning, "embedded-nul-in-string-field"));
}

#[test]
fn seasons_that_are_not_decimal_count_as_one() {
    assert_eq!(seasons_exec(&dat(&[("obj", "tree"), ("seasons", "abc")])), 1);
    assert_eq!(seasons_exec(&dat(&[("obj", "tree"), ("seasons", "0x2")])), 1);
    assert_eq!(seasons_exec(&dat(&[("obj", "tree"), ("seasons", " 3 ")])), 3);
    assert_eq!(seasons_exec(&dat(&[("obj", "tree")])), 1);
}
