//! The keys each object type's writer reads, and the value lists that
//! editors can offer for completion.
use vstd::prelude::*;
use crate::registry::ObjType;
use crate::common::{KNOWN_WAYTYPES, DIR_CODES};

verus! {
/// The keys every object type has: the type itself, name and copyright.
pub const COMMON_KEYS: [&'static str; 3] = [
    "obj",
    "name",
    "copyright",
];
/// The keys of the type's writer (besides obj, name and copyright).
pub const BUILDING_KEYS: [&'static str; 31] = [
    "type",
    "extension_building",
    "waytype",
    "enables_pax",
    "enables_post",
    "enables_ware",
    "level",
    "noinfo",
    "noconstruction",
    "needs_ground",
    "climates",
    "dims",
    "chance",
    "animation_time",
    "intro_year",
    "intro_month",
    "retire_year",
    "retire_month",
    "preservation_year",
    "preservation_month",
    "capacity",
    "station_capacity",
    "maintenance",
    "station_maintenance",
    "cost",
    "station_price",
    "allow_underground",
    "cursor",
    "icon",
    "frontimage",
    "backimage",
];
/// The keys of the type's writer (besides obj, name and copyright).
pub const VEHICLE_KEYS: [&'static str; 25] = [
    "cost",
    "payload",
    "loading_time",
    "speed",
    "weight",
    "axle_load",
    "power",
    "runningcost",
    "fixed_cost",
    "maintenance",
    "intro_year",
    "intro_month",
    "retire_year",
    "retire_month",
    "gear",
    "waytype",
    "sound",
    "engine_type",
    "length",
    "freight",
    "smoke",
    "constraint",
    "emptyimage",
    "freightimage",
    "freightimagetype",
];
/// The keys of the type's writer (besides obj, name and copyright).
pub const WAY_KEYS: [&'static str; 21] = [
    "cost",
    "maintenance",
    "topspeed",
    "max_weight",
    "axle_load",
    "clip_below",
    "intro_year",
    "intro_month",
    "retire_year",
    "retire_month",
    "waytype",
    "system_type",
    "draw_as_ding",
    "cursor",
    "icon",
    "image",
    "frontimage",
    "imageup",
    "frontimageup",
    "diagonal",
    "frontdiagonal",
];
/// The keys of the type's writer (besides obj, name and copyright).
pub const GOOD_KEYS: [&'static str; 6] = [
    "metric",
    "value",
    "catg",
    "speed_bonus",
    "weight_per_unit",
    "mapcolor",
];
/// The keys of the type's writer (besides obj, name and copyright).
pub const BRIDGE_KEYS: [&'static str; 33] = [
    "waytype",
    "topspeed",
    "cost",
    "maintenance",
    "pillar_distance",
    "pillar_asymmetric",
    "max_lenght",
    "max_length",
    "max_height",
    "axle_load",
    "clip_below",
    "intro_year",
    "intro_month",
    "retire_year",
    "retire_month",
    "cursor",
    "icon",
    "backimage",
    "frontimage",
    "backstart",
    "frontstart",
    "backramp",
    "frontramp",
    "backpillar",
    "frontpillar",
    "backimage2",
    "frontimage2",
    "backstart2",
    "frontstart2",
    "backramp2",
    "frontramp2",
    "backpillar2",
    "frontpillar2",
];
/// The keys of the type's writer (besides obj, name and copyright).
pub const TUNNEL_KEYS: [&'static str; 13] = [
    "topspeed",
    "cost",
    "maintenance",
    "waytype",
    "intro_year",
    "intro_month",
    "retire_year",
    "retire_month",
    "axle_load",
    "cursor",
    "icon",
    "frontimage",
    "backimage",
];
/// The keys of the type's writer (besides obj, name and copyright).
pub const ROADSIGN_KEYS: [&'static str; 21] = [
    "cost",
    "maintenance",
    "min_speed",
    "offset_left",
    "waytype",
    "is_signal",
    "free_route",
    "is_presignal",
    "is_prioritysignal",
    "is_longblocksignal",
    "single_way",
    "is_private",
    "no_foreground",
    "end_of_choose",
    "intro_year",
    "intro_month",
    "retire_year",
    "retire_month",
    "image",
    "cursor",
    "icon",
];
/// The keys of the type's writer (besides obj, name and copyright).
pub const CROSSING_KEYS: [&'static str; 13] = [
    "waytype",
    "speed",
    "animation_time_open",
    "animation_time_closed",
    "sound",
    "intro_year",
    "intro_month",
    "retire_year",
    "retire_month",
    "openimage",
    "front_openimage",
    "closedimage",
    "front_closedimage",
];
/// The keys of the type's writer (besides obj, name and copyright).
pub const WAY_OBJECT_KEYS: [&'static str; 19] = [
    "cost",
    "maintenance",
    "topspeed",
    "intro_year",
    "intro_month",
    "retire_year",
    "retire_month",
    "waytype",
    "own_waytype",
    "frontimage",
    "backimage",
    "frontimageup",
    "backimageup",
    "frontimageup2",
    "backimageup2",
    "frontdiagonal",
    "backdiagonal",
    "cursor",
    "icon",
];
/// The keys of the type's writer (besides obj, name and copyright).
pub const GROUND_OBJ_KEYS: [&'static str; 8] = [
    "climates",
    "seasons",
    "distributionweight",
    "cost",
    "speed",
    "trees_on_top",
    "waytype",
    "image",
];
/// The keys of the type's writer (besides obj, name and copyright).
pub const TREE_KEYS: [&'static str; 4] = [
    "climates",
    "seasons",
    "distributionweight",
    "image",
];
/// The keys of the type's writer (besides obj, name and copyright).
pub const CITYCAR_KEYS: [&'static str; 7] = [
    "distributionweight",
    "intro_year",
    "intro_month",
    "retire_year",
    "retire_month",
    "speed",
    "image",
];
/// The keys of the type's writer (besides obj, name and copyright).
pub const PEDESTRIAN_KEYS: [&'static str; 8] = [
    "distributionweight",
    "steps_per_frame",
    "offset",
    "intro_year",
    "intro_month",
    "retire_year",
    "retire_month",
    "image",
];
/// The keys of the type's writer (besides obj, name and copyright).
pub const FACTORY_KEYS: [&'static str; 67] = [
    "location",
    "productivity",
    "range",
    "distributionweight",
    "mapcolor",
    "pax_level",
    "expand_probability",
    "expand_minimum",
    "expand_range",
    "expand_times",
    "electricity_boost",
    "passenger_boost",
    "mail_boost",
    "electricity_amount",
    "electricity_demand",
    "passenger_demand",
    "mail_demand",
    "sound_interval",
    "sound",
    "type",
    "waytype",
    "enables_pax",
    "enables_post",
    "enables_ware",
    "level",
    "noinfo",
    "noconstruction",
    "needs_ground",
    "climates",
    "dims",
    "chance",
    "animation_time",
    "intro_year",
    "intro_month",
    "retire_year",
    "retire_month",
    "preservation_year",
    "preservation_month",
    "capacity",
    "maintenance",
    "cost",
    "allow_underground",
    "cursor",
    "icon",
    "smoke",
    "probability_to_spawn",
    "max_fields",
    "min_fields",
    "start_fields",
    "fields",
    "smokeuplift",
    "smokelifetime",
    "frontimage",
    "backimage",
    "inputgood",
    "inputsupplier",
    "inputcapacity",
    "inputfactor",
    "outputgood",
    "outputcapacity",
    "outputfactor",
    "has_snow",
    "production_per_field",
    "storage_capacity",
    "spawn_weight",
    "smoketile",
    "smokeoffset",
];
/// The keys of the type's writer (besides obj, name and copyright).
pub const SOUND_KEYS: [&'static str; 2] = [
    "sound_nr",
    "sound_name",
];
/// The keys of the type's writer (besides obj, name and copyright).
pub const GROUND_KEYS: [&'static str; 1] = [
    "image",
];
/// The keys of the type's writer (besides obj, name and copyright).
pub const SKIN_STYLE_KEYS: [&'static str; 1] = [
    "image",
];

/// The type-specific keys of `obj`.
pub open spec fn specific_keys(obj: ObjType) -> Seq<&'static str> {
    match obj {
        ObjType::Building => BUILDING_KEYS@,
        ObjType::Vehicle => VEHICLE_KEYS@,
        ObjType::Way => WAY_KEYS@,
        ObjType::Good => GOOD_KEYS@,
        ObjType::Bridge => BRIDGE_KEYS@,
        ObjType::Tunnel => TUNNEL_KEYS@,
        ObjType::Roadsign => ROADSIGN_KEYS@,
        ObjType::Crossing => CROSSING_KEYS@,
        ObjType::WayObject => WAY_OBJECT_KEYS@,
        ObjType::GroundObj => GROUND_OBJ_KEYS@,
        ObjType::Tree => TREE_KEYS@,
        ObjType::Citycar => CITYCAR_KEYS@,
        ObjType::Pedestrian => PEDESTRIAN_KEYS@,
        ObjType::Factory => FACTORY_KEYS@,
        ObjType::Sound => SOUND_KEYS@,
        ObjType::Ground => GROUND_KEYS@,
        ObjType::Menu => SKIN_STYLE_KEYS@,
        ObjType::Cursor => SKIN_STYLE_KEYS@,
        ObjType::Symbol => SKIN_STYLE_KEYS@,
        ObjType::Smoke => SKIN_STYLE_KEYS@,
        ObjType::Field => SKIN_STYLE_KEYS@,
        ObjType::Misc => SKIN_STYLE_KEYS@,
    }
}

/// The keys of `obj`: `obj`, name and copyright, then the writer's own keys.
pub open spec fn keys_of(obj: ObjType) -> Seq<&'static str> {
    COMMON_KEYS@ + specific_keys(obj)
}

fn specific(obj: ObjType) -> (res: &'static [&'static str])
    ensures
        res@ == specific_keys(obj),
{
    match obj {
        ObjType::Building => &BUILDING_KEYS,
        ObjType::Vehicle => &VEHICLE_KEYS,
        ObjType::Way => &WAY_KEYS,
        ObjType::Good => &GOOD_KEYS,
        ObjType::Bridge => &BRIDGE_KEYS,
        ObjType::Tunnel => &TUNNEL_KEYS,
        ObjType::Roadsign => &ROADSIGN_KEYS,
        ObjType::Crossing => &CROSSING_KEYS,
        ObjType::WayObject => &WAY_OBJECT_KEYS,
        ObjType::GroundObj => &GROUND_OBJ_KEYS,
        ObjType::Tree => &TREE_KEYS,
        ObjType::Citycar => &CITYCAR_KEYS,
        ObjType::Pedestrian => &PEDESTRIAN_KEYS,
        ObjType::Factory => &FACTORY_KEYS,
        ObjType::Sound => &SOUND_KEYS,
        ObjType::Ground => &GROUND_KEYS,
        ObjType::Menu => &SKIN_STYLE_KEYS,
        ObjType::Cursor => &SKIN_STYLE_KEYS,
        ObjType::Symbol => &SKIN_STYLE_KEYS,
        ObjType::Smoke => &SKIN_STYLE_KEYS,
        ObjType::Field => &SKIN_STYLE_KEYS,
        ObjType::Misc => &SKIN_STYLE_KEYS,
    }
}

/// Every key of `obj`'s definitions: `obj`, name and copyright first, then
/// the keys its writer reads.
pub fn keys_for(obj: ObjType) -> (res: Vec<&'static str>)
    ensures
        res@ == keys_of(obj),
{
    let mut v: Vec<&'static str> = Vec::new();
    v.push(COMMON_KEYS[0]);
    v.push(COMMON_KEYS[1]);
    v.push(COMMON_KEYS[2]);
    assert(v@ =~= COMMON_KEYS@);
    let s = specific(obj);
    let mut i: usize = 0;
    while i < s.len()
        invariant
            i <= s@.len(),
            s@ == specific_keys(obj),
            v@ == COMMON_KEYS@ + s@.take(i as int),
        decreases s.len() - i,
    {
        v.push(s[i]);
        i = i + 1;
        assert(v@ =~= COMMON_KEYS@ + s@.take(i as int));
    }
    assert(s@.take(s.len() as int) =~= s@);
    v
}

/// The value lists offered for completion: the waytype names and the
/// direction codes.
pub fn known_values() -> (res: Vec<(&'static str, &'static [&'static str])>)
    ensures
        res@.len() == 2,
        res@[0].0 == "waytype" && res@[0].1@ == KNOWN_WAYTYPES@,
        res@[1].0 == "direction" && res@[1].1@ == DIR_CODES@,
{
    let mut v: Vec<(&'static str, &'static [&'static str])> = Vec::new();
    v.push(("waytype", &KNOWN_WAYTYPES));
    v.push(("direction", &DIR_CODES));
    v
}

} // verus!
