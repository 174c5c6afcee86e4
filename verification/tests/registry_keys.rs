use dat_linter::common::{DIR_CODES, KNOWN_WAYTYPES};
use dat_linter::dat::DatFile;
use dat_linter::diagnostics::Finding;
use dat_linter::keys::{keys_for, known_values};
use dat_linter::registry::{check_obj, check_via_dispatch, rules_for, ObjType};
use dat_linter::way::check_way;
use std::collections::BTreeSet;

const NAMES: [(&str, ObjType); 22] = [
    ("building", ObjType::Building),
    ("vehicle", ObjType::Vehicle),
    ("way", ObjType::Way),
    ("good", ObjType::Good),
    ("bridge", ObjType::Bridge),
    ("tunnel", ObjType::Tunnel),
    ("roadsign", ObjType::Roadsign),
    ("crossing", ObjType::Crossing),
    ("way-object", ObjType::WayObject),
    ("ground_obj", ObjType::GroundObj),
    ("tree", ObjType::Tree),
    ("citycar", ObjType::Citycar),
    ("pedestrian", ObjType::Pedestrian),
    ("factory", ObjType::Factory),
    ("sound", ObjType::Sound),
    ("ground", ObjType::Ground),
    ("menu", ObjType::Menu),
    ("cursor", ObjType::Cursor),
    ("symbol", ObjType::Symbol),
    ("smoke", ObjType::Smoke),
    ("field", ObjType::Field),
    ("misc", ObjType::Misc),
];

fn codes(f: &[Finding]) -> Vec<String> {
    f.iter()
        .map(|x| match x {
            Finding::Diag(d) => d.code.as_str().to_string(),
            Finding::Image(r) => format!("image:{}", r.filename),
        })
        .collect()
}

#[test]
fn every_supported_name_resolves_to_its_type() {
    for (name, t) in NAMES {
        assert_eq!(ObjType::from_name(name), Some(t));
    }
    assert_eq!(ObjType::from_name("Building"), None);
    assert_eq!(ObjType::from_name("wayobject"), None);
    assert_eq!(ObjType::from_name(""), None);
}

#[test]
fn dispatch_runs_the_rules_of_the_named_type() {
    let mut d = DatFile::new();
    d.insert("obj", "way", 1);
    d.insert("waytype", "road", 2);
    d.insert("image[-]", "road.0.0", 3);
    let via = check_via_dispatch("way", &d).expect("way is an object type");
    assert_eq!(codes(&via), codes(&check_way(&d)));
    assert_eq!(codes(&via), vec!["waytype-ok", "base-image-ok", "image:road.png"]);
    assert!(check_via_dispatch("spaceship", &d).is_none());
}

#[test]
fn every_type_has_a_rule_set() {
    let d = DatFile::new();
    for (_, t) in NAMES {
        let rules = rules_for(t);
        let _ = check_obj(t, &d);
        assert!(!rules.is_empty(), "{t:?}");
    }
}

#[test]
fn keys_for_all_obj_types_are_well_formed() {
    for (name, t) in NAMES {
        let keys = keys_for(t);
        assert!(!keys.is_empty(), "{name}");
        assert_eq!(&keys[..3], &["obj", "name", "copyright"]);
        assert!(keys.contains(&"obj"), "{name}");
        let unique: BTreeSet<&str> = keys.iter().copied().collect();
        assert_eq!(unique.len(), keys.len(), "{name}: {keys:?}");
    }
}

#[test]
fn known_values_offer_waytypes_and_directions() {
    let v = known_values();
    assert_eq!(v.len(), 2);
    assert_eq!(v[0].0, "waytype");
    assert_eq!(v[0].1, &KNOWN_WAYTYPES[..]);
    assert!(v[0].1.contains(&"schiene_tram"));
    assert_eq!(v[1].0, "direction");
    assert_eq!(v[1].1, &DIR_CODES[..]);
    assert_eq!(v[1].1.len(), 8);
}
