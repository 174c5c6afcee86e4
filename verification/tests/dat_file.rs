use dat_linter::common::check_duplicate_keys;
use dat_linter::dat::DatFile;
use dat_linter::diagnostics::Severity;

fn sample() -> DatFile {
    let mut d = DatFile::new();
    d.insert("Obj", "way", 1);
    d.insert("name", "FirstName", 2);
    d.insert("NAME", "SecondName", 3);
    d
}

#[test]
fn duplicate_key_keeps_first_value_and_is_recorded() {
    let d = sample();
    assert_eq!(d.get("name"), Some("FirstName"));
    assert_eq!(d.duplicates.len(), 1);
    assert_eq!(d.duplicates[0].key, "name");
    assert_eq!(d.duplicates[0].first_line, 2);
    assert_eq!(d.duplicates[0].duplicate_line, 3);
    assert_eq!(d.pairs.len(), 2);
}

#[test]
fn keys_are_lowered_and_lines_remembered() {
    let d = sample();
    assert_eq!(d.get("obj"), Some("way"));
    assert_eq!(d.get("Obj"), None);
    assert_eq!(d.line_of("obj"), Some(1));
    assert_eq!(d.line_of("name"), Some(2));
    assert_eq!(d.line_of("nonexistent-key"), None);
    assert_eq!(d.value("nonexistent-key"), "");
    assert_eq!(d.get_lower("obj"), "way");
}

#[test]
fn duplicate_keys_are_warned_at_the_ignored_line() {
    let d = sample();
    let diags = check_duplicate_keys(&d);
    assert_eq!(diags.len(), 1);
    assert_eq!(diags[0].severity, Severity::Warning);
    assert_eq!(diags[0].code.as_str(), "duplicate-key");
    let loc = diags[0].location.as_ref().expect("a location");
    assert_eq!(loc.line, 3);
    assert_eq!(loc.key, "name");
    assert_eq!(diags[0].args, vec!["name".to_string(), "2".to_string(), "3".to_string()]);
}

#[test]
fn clean_definition_has_no_duplicate_warning() {
    let mut d = DatFile::new();
    d.insert("a", "1", 1);
    d.insert("b", "2", 2);
    assert!(check_duplicate_keys(&d).is_empty());
}

#[test]
fn duplicate_key_keeps_first_value() {
    assert_eq!(sample().get("name"), Some("FirstName"));
}

#[test]
fn duplicate_key_is_recorded() {
    let d = sample();
    assert_eq!(d.duplicates.len(), 1);
    let dup = &d.duplicates[0];
    assert_eq!(dup.key, "name");
    assert_eq!(dup.first_line, 2);
    assert_eq!(dup.duplicate_line, 3);
}

#[test]
fn line_of_reports_first_occurrence() {
    let d = sample();
    assert_eq!(d.line_of("obj"), Some(1));
    assert_eq!(d.line_of("name"), Some(2));
    assert_eq!(d.line_of("nonexistent-key"), None);
}

#[test]
fn no_duplicates_in_clean_file() {
    let mut d = DatFile::new();
    d.insert("obj", "building", 1);
    d.insert("name", "station_cube", 2);
    d.insert("type", "stop", 3);
    assert!(d.duplicates.is_empty());
}
