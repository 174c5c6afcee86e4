use dat_linter::images::resolve_image_filename;

#[test]
fn no_directory_prefix_resolves_as_before() {
    assert_eq!(resolve_image_filename("foo.png.0.0"), "foo.png");
    assert_eq!(resolve_image_filename("foo.0.0"), "foo.png");
}

#[test]
fn relative_path_with_double_dot_resolves_correctly() {
    assert_eq!(
        resolve_image_filename("../../icon_way3.1.0"),
        "../../icon_way3.png"
    );
}

#[test]
fn single_level_relative_path_resolves_correctly() {
    assert_eq!(resolve_image_filename("../icon.1.0"), "../icon.png");
}

#[test]
fn subdirectory_path_resolves_correctly() {
    assert_eq!(
        resolve_image_filename("icons/station_icon.png.0.0"),
        "icons/station_icon.png"
    );
}

#[test]
fn backslash_is_not_treated_as_a_separator() {
    assert_eq!(resolve_image_filename("dir\\icon.1.0"), "dir\\icon.png");
}

use dat_linter::dat::DatFile;
use dat_linter::diagnostics::{Finding, Severity};
use dat_linter::images::{
    image_coords_exec,
    image_diagnostics, image_ref, settle_findings, strip_zoomable_prefix_and_trim, FileProbe,
};
use std::io::Cursor;

fn png_bytes(w: u32, h: u32) -> Vec<u8> {
    let img = image::RgbaImage::new(w, h);
    let mut out = Cursor::new(Vec::new());
    img.write_to(&mut out, image::ImageFormat::Png).unwrap();
    out.into_inner()
}

#[test]
fn zoom_flag_is_removed_and_reference_trimmed() {
    assert_eq!(strip_zoomable_prefix_and_trim("> skins.0.4"), "skins.0.4");
    assert_eq!(strip_zoomable_prefix_and_trim(" station_icon.png.0.0 "), "station_icon.png.0.0");
    assert_eq!(strip_zoomable_prefix_and_trim("plain.0.0"), "plain.0.0");
    assert_eq!(strip_zoomable_prefix_and_trim(">>x"), ">x");
}

#[test]
fn reference_without_dot_is_returned_unchanged() {
    assert_eq!(resolve_image_filename("nodots"), "nodots");
    assert_eq!(resolve_image_filename("a.b/c"), "a.b/c");
}

#[test]
fn resolving_a_resolved_name_changes_nothing() {
    let once = resolve_image_filename("../dir/icon.3.4");
    assert_eq!(once, "../dir/icon.png");
    assert_eq!(resolve_image_filename(&once), once);
}

#[test]
fn dash_sentinel_is_noted_not_requested() {
    match image_ref("-", "image[3]") {
        Finding::Diag(d) => {
            assert_eq!(d.severity, Severity::Info);
            assert_eq!(d.code.as_str(), "image-ref-empty-sentinel");
            assert_eq!(d.args, vec!["image[3]".to_string()]);
        }
        Finding::Image(_) => panic!("the sentinel must not ask for a file"),
    }
    assert!(matches!(image_ref("> - ", "icon"), Finding::Diag(_)));
}

#[test]
fn reference_becomes_a_file_request() {
    match image_ref("> ../../icon_way3.1.0", "icon") {
        Finding::Image(r) => {
            assert_eq!(r.context, "icon");
            assert_eq!(r.value, "../../icon_way3.1.0");
            assert_eq!(r.filename, "../../icon_way3.png");
        }
        Finding::Diag(_) => panic!("expected a file request"),
    }
}

fn request() -> dat_linter::diagnostics::ImageRequest {
    match image_ref("foo.0.0", "image[0]") {
        Finding::Image(r) => r,
        Finding::Diag(_) => unreachable!(),
    }
}

#[test]
fn missing_file_is_an_error() {
    let ds = image_diagnostics(&request(), &FileProbe::Missing);
    assert_eq!(ds.len(), 2);
    assert_eq!(ds[0].code.as_str(), "image-ref-resolved");
    assert_eq!(ds[0].severity, Severity::Debug);
    assert_eq!(ds[1].code.as_str(), "missing-image-file");
    assert_eq!(ds[1].severity, Severity::Error);
    assert_eq!(ds[1].args, vec!["image[0]".to_string(), "foo.png".to_string()]);
}

#[test]
fn tile_sized_png_is_fine() {
    let ds = image_diagnostics(&request(), &FileProbe::Contents(png_bytes(256, 128)));
    assert_eq!(ds[1].code.as_str(), "image-ok");
    assert_eq!(ds[1].args[2], "256");
    assert_eq!(ds[1].args[3], "128");
}

#[test]
fn png_not_multiple_of_tile_is_an_error() {
    let ds = image_diagnostics(&request(), &FileProbe::Contents(png_bytes(100, 128)));
    assert_eq!(ds[1].code.as_str(), "image-size-not-multiple-of-128");
    assert_eq!(ds[1].severity, Severity::Error);
    assert_eq!(ds[1].args[2], "100");
}

#[test]
fn garbage_bytes_are_unreadable() {
    let ds = image_diagnostics(&request(), &FileProbe::Contents(b"not a png at all".to_vec()));
    assert_eq!(ds[1].code.as_str(), "unreadable-image");
    assert_eq!(ds[1].args.len(), 3);
    assert!(!ds[1].args[2].is_empty());
}

#[test]
fn settling_replaces_each_request_by_two_findings() {
    let findings = vec![image_ref("-", "a"), image_ref("x.0.0", "b"), image_ref("y.0.0", "c")];
    let probes = vec![FileProbe::Missing, FileProbe::Contents(png_bytes(128, 128))];
    let mut dat = DatFile::new();
    dat.insert("c", "y.0.0", 7);
    let ds = settle_findings(findings, &probes, &dat);
    assert!(ds[2].location.is_none());
    let loc = ds[4].location.as_ref().expect("the key c is on line 7");
    assert_eq!((loc.line, loc.key.as_str()), (7, "c"));
    let codes: Vec<&str> = ds.iter().map(|d| d.code.as_str()).collect();
    assert_eq!(
        codes,
        vec![
            "image-ref-empty-sentinel",
            "image-ref-resolved",
            "missing-image-file",
            "image-ref-resolved",
            "image-ok"
        ]
    );
}

#[test]
fn reference_picks_row_and_column() {
    assert_eq!(image_coords_exec("station_cube.334.0"), (334, 0));
    assert_eq!(image_coords_exec("station_icon.png.2.5"), (2, 5));
    assert_eq!(image_coords_exec("dir.v2/icon.PNG.1.3,10,-5"), (1, 3));
    assert_eq!(image_coords_exec("plain"), (0, 0));
    assert_eq!(image_coords_exec("only_row.7"), (7, 0));
    assert_eq!(image_coords_exec("bird.s.0"), (0, 0));
}

#[test]
fn tile_outside_the_image_is_an_error() {
    let req = match image_ref("sheet.2.1", "icon") {
        Finding::Image(r) => r,
        Finding::Diag(_) => unreachable!(),
    };
    let inside = image_diagnostics(&req, &FileProbe::Contents(png_bytes(256, 384)));
    assert_eq!(inside[1].code.as_str(), "image-ok");
    let outside = image_diagnostics(&req, &FileProbe::Contents(png_bytes(256, 256)));
    assert_eq!(outside[1].code.as_str(), "image-coordinate-out-of-bounds");
    assert_eq!(outside[1].args, vec!["icon".to_string(), "sheet.2.1".to_string(), "2".to_string(), "2".to_string()]);
}

#[test]
fn literal_png_in_the_reference_changes_nothing() {
    assert_eq!(resolve_image_filename("station_icon.4.0"), "station_icon.png");
    assert_eq!(resolve_image_filename("station_icon.png.0.0"), "station_icon.png");
    assert_eq!(resolve_image_filename("station_icon.4.0,10,-5"), "station_icon.png");
}

#[test]
fn file_that_cannot_be_read_is_unreadable() {
    let ds = image_diagnostics(&request(), &FileProbe::Unreadable("permission denied".to_string()));
    assert_eq!(ds.len(), 2);
    assert_eq!(ds[1].code.as_str(), "unreadable-image");
    assert_eq!(ds[1].severity, Severity::Error);
    assert_eq!(
        ds[1].args,
        vec!["image[0]".to_string(), "foo.png".to_string(), "permission denied".to_string()]
    );
}

#[test]
fn file_name_without_extension_cannot_be_decoded() {
    for (value, file) in [("nodots", "nodots"), ("dir.v2/icon", "dir.v2/icon"), (".1.0", ".png")] {
        let req = match image_ref(value, "icon") {
            Finding::Image(r) => r,
            Finding::Diag(_) => unreachable!(),
        };
        assert_eq!(req.filename, file);
        let ds = image_diagnostics(&req, &FileProbe::Contents(png_bytes(128, 128)));
        assert_eq!(ds[1].code.as_str(), "unreadable-image", "{value}");
        assert_eq!(
            ds[1].args,
            vec!["icon".to_string(), file.to_string(), "The image format could not be determined".to_string()]
        );
    }
}
