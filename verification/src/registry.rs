//! Every rule of every object type, and the object types themselves.
use vstd::prelude::*;
use crate::dat::{DatFile, DatView};
use crate::diagnostics::{Finding, FindingView, fviews, append_findings};
use crate::way;
use crate::names;
use crate::house;
use crate::factory;
use crate::vehicle;
use crate::building;
use crate::common;
use crate::roadsign;
use crate::groundobj;
use crate::ground;
use crate::tree;
use crate::good;
use crate::pedestrian;
use crate::citycar;
use crate::crossing;
use crate::way_obj;
use crate::tunnel;
use crate::bridge;
use crate::{sound, menu, cursor, symbol, smoke, field, misc};
use crate::text::str_eq;
use crate::common::check_duplicate_keys;

verus! {

/// The object types (`obj=`) this crate checks.
#[derive(Clone, Copy, PartialEq, Eq, Debug, Structural)]
pub enum ObjType {
    Building,
    Vehicle,
    Way,
    Good,
    Bridge,
    Tunnel,
    Roadsign,
    Crossing,
    WayObject,
    GroundObj,
    Tree,
    Citycar,
    Pedestrian,
    Factory,
    Sound,
    Ground,
    Menu,
    Cursor,
    Symbol,
    Smoke,
    Field,
    Misc,
}

/// One check of one object type.
#[derive(Clone, Copy, PartialEq, Eq, Debug, Structural)]
pub enum Rule {
    WayWaytypeRequired,
    WayBaseImageRequired,
    WayClipBelowRange,
    BridgeWaytypeRequired,
    BridgeClampedRange,
    BridgeFrontImageWarning,
    FactoryTypeOverride,
    FactoryMapColor,
    FactoryOutputCapacity,
    FactorySmokeOffset,
    FactoryProbabilityClamp,
    FactoryProductivityZero,
    VehicleWaytypeRequired,
    VehicleEngineType,
    VehicleDirectionImage,
    VehicleFreightImageType,
    VehiclePowerGearMismatch,
    VehicleDateIndexOverflow,
    VehicleNarrowIntFields,
    BuildingPreludeDebug,
    BuildingTypeWaytype,
    BuildingObsoleteKeyword,
    BuildingDateIndexOverflow,
    BuildingBooleanStyleField,
    BuildingCapacityNarrowInt,
    BuildingChanceNarrowInt,
    BuildingAnimationTimeNarrowInt,
    BuildingAllowUndergroundNarrowInt,
    BuildingLevelNarrowInt,
    AllImages,
    RoadsignWaytypeRequired,
    RoadsignImage,
    GroundObjWaytypeIfPresentValid,
    GroundObjSeasonImage,
    GroundSlopeImageRef,
    TreeAgeSeasonImage,
    GoodNarrowIntOverflow,
    PedestrianDirectionImageRef,
    PedestrianDateIndexOverflow,
    CitycarDirectionImageRef,
    CitycarDateIndexOverflow,
    CitycarDistributionWeightNarrowInt,
    CrossingWaytypesRequired,
    CrossingIdenticalWaytypes,
    CrossingSpeedRequired,
    CrossingOpenImageRequired,
    CrossingImageRef,
    WayObjWaytypeRequired,
    WayObjOwnWaytypeRequired,
    WayObjImageRef,
    WayObjDateIndexOverflow,
    TunnelWaytypeRequired,
    TunnelImageRef,
    TunnelDateIndexOverflow,
    NameAndCopyright,
    MiscUnknownSkinName,
    WayDateIndexOverflow,
    WayNarrowInt,
    TunnelNarrowInt,
    CrossingDateIndexOverflow,
    CrossingNarrowInt,
    PedestrianNarrowInt,
    SoundNarrowInt,
    ZeroSize,
    BuildingCursorIcon,
    FactoryCursorIcon,
    SymbolUnknownSkinName,
}

/// What a rule reports for a definition.
pub open spec fn rule_findings(r: Rule, d: DatView) -> Seq<FindingView> {
    match r {
        Rule::WayWaytypeRequired => way::waytype_required(d),
        Rule::WayBaseImageRequired => way::base_image_required(d),
        Rule::WayClipBelowRange => way::clip_below_range(d),
        Rule::BridgeWaytypeRequired => bridge::waytype_required(d),
        Rule::BridgeClampedRange => bridge::clamped_range(d),
        Rule::BridgeFrontImageWarning => bridge::front_image_warning(d),
        Rule::FactoryTypeOverride => factory::type_override(d),
        Rule::FactoryMapColor => factory::map_color(d),
        Rule::FactoryOutputCapacity => factory::output_capacity(d),
        Rule::FactorySmokeOffset => factory::smoke_offset(d),
        Rule::FactoryProbabilityClamp => factory::probability_clamp(d),
        Rule::FactoryProductivityZero => factory::productivity_zero(d),
        Rule::VehicleWaytypeRequired => vehicle::waytype_required(d),
        Rule::VehicleEngineType => vehicle::engine_type(d),
        Rule::VehicleDirectionImage => vehicle::direction_image(d),
        Rule::VehicleFreightImageType => vehicle::freight_image_type_rule_spec(d),
        Rule::VehiclePowerGearMismatch => vehicle::power_gear_mismatch(d),
        Rule::VehicleDateIndexOverflow => vehicle::date_index_overflow(d),
        Rule::VehicleNarrowIntFields => vehicle::narrow_int_fields(d),
        Rule::BuildingPreludeDebug => building::prelude_debug(d),
        Rule::BuildingTypeWaytype => building::type_waytype(d),
        Rule::BuildingObsoleteKeyword => building::obsolete_keyword(d),
        Rule::BuildingDateIndexOverflow => building::date_index(d),
        Rule::BuildingBooleanStyleField => building::boolean_style_field(d),
        Rule::BuildingCapacityNarrowInt => building::capacity_narrow_int(d),
        Rule::BuildingChanceNarrowInt => building::chance_narrow_int(d),
        Rule::BuildingAnimationTimeNarrowInt => building::animation_time_narrow_int(d),
        Rule::BuildingAllowUndergroundNarrowInt => building::allow_underground_narrow_int(d),
        Rule::BuildingLevelNarrowInt => building::level_narrow_int(d),
        Rule::AllImages => common::all_images_findings(d),
        Rule::RoadsignWaytypeRequired => roadsign::waytype_required(d),
        Rule::RoadsignImage => roadsign::image(d),
        Rule::GroundObjWaytypeIfPresentValid => groundobj::waytype_if_present_valid(d),
        Rule::GroundObjSeasonImage => groundobj::season_image(d),
        Rule::GroundSlopeImageRef => ground::slope_image_ref(d),
        Rule::TreeAgeSeasonImage => tree::age_season_image(d),
        Rule::GoodNarrowIntOverflow => good::narrow_int(d),
        Rule::PedestrianDirectionImageRef => pedestrian::direction_image_ref(d),
        Rule::PedestrianDateIndexOverflow => pedestrian::date_index_overflow(d),
        Rule::CitycarDirectionImageRef => citycar::direction_image_ref(d),
        Rule::CitycarDateIndexOverflow => citycar::date_index_overflow(d),
        Rule::CitycarDistributionWeightNarrowInt => citycar::distribution_weight_narrow_int(d),
        Rule::CrossingWaytypesRequired => crossing::waytypes_required(d),
        Rule::CrossingIdenticalWaytypes => crossing::identical_waytypes(d),
        Rule::CrossingSpeedRequired => crossing::speed_required(d),
        Rule::CrossingOpenImageRequired => crossing::open_image_required(d),
        Rule::CrossingImageRef => crossing::image_ref(d),
        Rule::WayObjWaytypeRequired => way_obj::waytype_required(d),
        Rule::WayObjOwnWaytypeRequired => way_obj::own_waytype_required(d),
        Rule::WayObjImageRef => way_obj::image_ref(d),
        Rule::WayObjDateIndexOverflow => way_obj::date_index_overflow(d),
        Rule::TunnelWaytypeRequired => tunnel::waytype_required(d),
        Rule::TunnelImageRef => tunnel::image_ref(d),
        Rule::TunnelDateIndexOverflow => tunnel::date_index_overflow(d),
        Rule::NameAndCopyright => names::name_and_copyright(d),
        Rule::MiscUnknownSkinName => misc::unknown_skin_name(d),
        Rule::WayDateIndexOverflow => way::date_index_overflow(d),
        Rule::WayNarrowInt => way::narrow_int(d),
        Rule::TunnelNarrowInt => tunnel::narrow_int(d),
        Rule::CrossingDateIndexOverflow => crossing::date_index_overflow(d),
        Rule::CrossingNarrowInt => crossing::narrow_int(d),
        Rule::PedestrianNarrowInt => pedestrian::narrow_int(d),
        Rule::SoundNarrowInt => sound::narrow_int(d),
        Rule::ZeroSize => house::zero_size(d),
        Rule::BuildingCursorIcon => house::cursor_icon(d, false),
        Rule::FactoryCursorIcon => house::cursor_icon(d, true),
        Rule::SymbolUnknownSkinName => symbol::unknown_skin_name(d),
    }
}

impl Rule {
    /// Runs the rule on a definition.
    pub fn check(&self, dat: &DatFile) -> (res: Vec<Finding>)
        ensures
            fviews(res@) == rule_findings(*self, dat@),
    {
        match self {
            Rule::WayWaytypeRequired => way::waytype_required_rule(dat),
            Rule::WayBaseImageRequired => way::base_image_required_rule(dat),
            Rule::WayClipBelowRange => way::clip_below_range_rule(dat),
            Rule::BridgeWaytypeRequired => bridge::waytype_required_rule(dat),
            Rule::BridgeClampedRange => bridge::clamped_range_rule(dat),
            Rule::BridgeFrontImageWarning => bridge::front_image_warning_rule(dat),
            Rule::FactoryTypeOverride => factory::type_override_rule(dat),
            Rule::FactoryMapColor => factory::map_color_rule(dat),
            Rule::FactoryOutputCapacity => factory::output_capacity_rule(dat),
            Rule::FactorySmokeOffset => factory::smoke_offset_rule(dat),
            Rule::FactoryProbabilityClamp => factory::probability_clamp_rule(dat),
            Rule::FactoryProductivityZero => factory::productivity_zero_rule(dat),
            Rule::VehicleWaytypeRequired => vehicle::waytype_required_rule(dat),
            Rule::VehicleEngineType => vehicle::engine_type_rule(dat),
            Rule::VehicleDirectionImage => vehicle::direction_image_rule(dat),
            Rule::VehicleFreightImageType => vehicle::freight_image_type_rule(dat),
            Rule::VehiclePowerGearMismatch => vehicle::power_gear_mismatch_rule(dat),
            Rule::VehicleDateIndexOverflow => vehicle::date_index_overflow_rule(dat),
            Rule::VehicleNarrowIntFields => vehicle::narrow_int_fields_rule(dat),
            Rule::BuildingPreludeDebug => building::prelude_debug_rule(dat),
            Rule::BuildingTypeWaytype => building::type_waytype_rule(dat),
            Rule::BuildingObsoleteKeyword => building::obsolete_keyword_rule(dat),
            Rule::BuildingDateIndexOverflow => building::date_index_rule(dat),
            Rule::BuildingBooleanStyleField => building::boolean_style_field_rule(dat),
            Rule::BuildingCapacityNarrowInt => building::capacity_narrow_int_rule(dat),
            Rule::BuildingChanceNarrowInt => building::chance_narrow_int_rule(dat),
            Rule::BuildingAnimationTimeNarrowInt => building::animation_time_narrow_int_rule(dat),
            Rule::BuildingAllowUndergroundNarrowInt => building::allow_underground_narrow_int_rule(dat),
            Rule::BuildingLevelNarrowInt => building::level_narrow_int_rule(dat),
            Rule::AllImages => common::all_images(dat),
            Rule::RoadsignWaytypeRequired => roadsign::waytype_required_rule(dat),
            Rule::RoadsignImage => roadsign::image_rule(dat),
            Rule::GroundObjWaytypeIfPresentValid => groundobj::waytype_if_present_valid_rule(dat),
            Rule::GroundObjSeasonImage => groundobj::season_image_rule(dat),
            Rule::GroundSlopeImageRef => ground::slope_image_ref_rule(dat),
            Rule::TreeAgeSeasonImage => tree::age_season_image_rule(dat),
            Rule::GoodNarrowIntOverflow => good::narrow_int_rule(dat),
            Rule::PedestrianDirectionImageRef => pedestrian::direction_image_ref_rule(dat),
            Rule::PedestrianDateIndexOverflow => pedestrian::date_index_overflow_rule(dat),
            Rule::CitycarDirectionImageRef => citycar::direction_image_ref_rule(dat),
            Rule::CitycarDateIndexOverflow => citycar::date_index_overflow_rule(dat),
            Rule::CitycarDistributionWeightNarrowInt => citycar::distribution_weight_narrow_int_rule(dat),
            Rule::CrossingWaytypesRequired => crossing::waytypes_required_rule(dat),
            Rule::CrossingIdenticalWaytypes => crossing::identical_waytypes_rule(dat),
            Rule::CrossingSpeedRequired => crossing::speed_required_rule(dat),
            Rule::CrossingOpenImageRequired => crossing::open_image_required_rule(dat),
            Rule::CrossingImageRef => crossing::image_ref_rule(dat),
            Rule::WayObjWaytypeRequired => way_obj::waytype_required_rule(dat),
            Rule::WayObjOwnWaytypeRequired => way_obj::own_waytype_required_rule(dat),
            Rule::WayObjImageRef => way_obj::image_ref_rule(dat),
            Rule::WayObjDateIndexOverflow => way_obj::date_index_overflow_rule(dat),
            Rule::TunnelWaytypeRequired => tunnel::waytype_required_rule(dat),
            Rule::TunnelImageRef => tunnel::image_ref_rule(dat),
            Rule::TunnelDateIndexOverflow => tunnel::date_index_overflow_rule(dat),
            Rule::NameAndCopyright => names::name_and_copyright_rule(dat),
            Rule::MiscUnknownSkinName => misc::unknown_skin_name_rule(dat),
            Rule::WayDateIndexOverflow => way::date_index_overflow_rule(dat),
            Rule::WayNarrowInt => way::narrow_int_rule(dat),
            Rule::TunnelNarrowInt => tunnel::narrow_int_rule(dat),
            Rule::CrossingDateIndexOverflow => crossing::date_index_overflow_rule(dat),
            Rule::CrossingNarrowInt => crossing::narrow_int_rule(dat),
            Rule::PedestrianNarrowInt => pedestrian::narrow_int_rule(dat),
            Rule::SoundNarrowInt => sound::narrow_int_rule(dat),
            Rule::ZeroSize => house::zero_size_rule(dat),
            Rule::BuildingCursorIcon => house::cursor_icon_rule(dat, false),
            Rule::FactoryCursorIcon => house::cursor_icon_rule(dat, true),
            Rule::SymbolUnknownSkinName => symbol::unknown_skin_name_rule(dat),
        }
    }
}

/// The findings of `rules`, one rule after the other.
pub open spec fn rules_findings(rules: Seq<Rule>, d: DatView) -> Seq<FindingView>
    decreases rules.len(),
{
    if rules.len() == 0 {
        seq![]
    } else {
        rules_findings(rules.drop_last(), d) + rule_findings(rules.last(), d)
    }
}

/// Runs `rules` in order and concatenates what they report.
pub fn run_rules(rules: &Vec<Rule>, dat: &DatFile) -> (res: Vec<Finding>)
    ensures
        fviews(res@) == rules_findings(rules@, dat@),
{
    let mut out: Vec<Finding> = Vec::new();
    let mut i: usize = 0;
    while i < rules.len()
        invariant
            i <= rules.len(),
            fviews(out@) == rules_findings(rules@.take(i as int), dat@),
        decreases rules.len() - i,
    {
        assert(rules@.take(i + 1).drop_last() =~= rules@.take(i as int));
        let more = rules[i].check(dat);
        append_findings(&mut out, more);
        i = i + 1;
    }
    assert(rules@.take(rules.len() as int) =~= rules@);
    out
}

impl ObjType {
    /// The `obj=` name of the type.
    pub open spec fn name(self) -> &'static str {
        match self {
        ObjType::Building => "building",
        ObjType::Vehicle => "vehicle",
        ObjType::Way => "way",
        ObjType::Good => "good",
        ObjType::Bridge => "bridge",
        ObjType::Tunnel => "tunnel",
        ObjType::Roadsign => "roadsign",
        ObjType::Crossing => "crossing",
        ObjType::WayObject => "way-object",
        ObjType::GroundObj => "ground_obj",
        ObjType::Tree => "tree",
        ObjType::Citycar => "citycar",
        ObjType::Pedestrian => "pedestrian",
        ObjType::Factory => "factory",
        ObjType::Sound => "sound",
        ObjType::Ground => "ground",
        ObjType::Menu => "menu",
        ObjType::Cursor => "cursor",
        ObjType::Symbol => "symbol",
        ObjType::Smoke => "smoke",
        ObjType::Field => "field",
        ObjType::Misc => "misc",
        }
    }

    /// The type whose `obj=` name is `name`.
    pub fn from_name(name: &str) -> (res: Option<ObjType>)
        ensures
            match res {
                Some(t) => t.name()@ == name@,
                None => forall|t: ObjType| #[trigger] t.name()@ != name@,
            },
    {
        if str_eq(name, "building") {
        Some(ObjType::Building)
    } else if str_eq(name, "vehicle") {
        Some(ObjType::Vehicle)
    } else if str_eq(name, "way") {
        Some(ObjType::Way)
    } else if str_eq(name, "good") {
        Some(ObjType::Good)
    } else if str_eq(name, "bridge") {
        Some(ObjType::Bridge)
    } else if str_eq(name, "tunnel") {
        Some(ObjType::Tunnel)
    } else if str_eq(name, "roadsign") {
        Some(ObjType::Roadsign)
    } else if str_eq(name, "crossing") {
        Some(ObjType::Crossing)
    } else if str_eq(name, "way-object") {
        Some(ObjType::WayObject)
    } else if str_eq(name, "ground_obj") {
        Some(ObjType::GroundObj)
    } else if str_eq(name, "tree") {
        Some(ObjType::Tree)
    } else if str_eq(name, "citycar") {
        Some(ObjType::Citycar)
    } else if str_eq(name, "pedestrian") {
        Some(ObjType::Pedestrian)
    } else if str_eq(name, "factory") {
        Some(ObjType::Factory)
    } else if str_eq(name, "sound") {
        Some(ObjType::Sound)
    } else if str_eq(name, "ground") {
        Some(ObjType::Ground)
    } else if str_eq(name, "menu") {
        Some(ObjType::Menu)
    } else if str_eq(name, "cursor") {
        Some(ObjType::Cursor)
    } else if str_eq(name, "symbol") {
        Some(ObjType::Symbol)
    } else if str_eq(name, "smoke") {
        Some(ObjType::Smoke)
    } else if str_eq(name, "field") {
        Some(ObjType::Field)
    } else if str_eq(name, "misc") {
        Some(ObjType::Misc)
        } else {
            proof {
                assert forall|t: ObjType| #[trigger] t.name()@ != name@ by {
                    match t {
                        ObjType::Building => {}
                        ObjType::Vehicle => {}
                        ObjType::Way => {}
                        ObjType::Good => {}
                        ObjType::Bridge => {}
                        ObjType::Tunnel => {}
                        ObjType::Roadsign => {}
                        ObjType::Crossing => {}
                        ObjType::WayObject => {}
                        ObjType::GroundObj => {}
                        ObjType::Tree => {}
                        ObjType::Citycar => {}
                        ObjType::Pedestrian => {}
                        ObjType::Factory => {}
                        ObjType::Sound => {}
                        ObjType::Ground => {}
                        ObjType::Menu => {}
                        ObjType::Cursor => {}
                        ObjType::Symbol => {}
                        ObjType::Smoke => {}
                        ObjType::Field => {}
                        ObjType::Misc => {}
                    }
                }
            }
            None
        }
    }
}

/// The rules of an object type, in the order they report.
pub open spec fn rules_of(obj: ObjType) -> Seq<Rule> {
    match obj {
        ObjType::Building => building::all_rules(),
        ObjType::Vehicle => vehicle::all_rules(),
        ObjType::Way => way::all_rules(),
        ObjType::Good => good::all_rules(),
        ObjType::Bridge => bridge::all_rules(),
        ObjType::Tunnel => tunnel::all_rules(),
        ObjType::Roadsign => roadsign::all_rules(),
        ObjType::Crossing => crossing::all_rules(),
        ObjType::WayObject => way_obj::all_rules(),
        ObjType::GroundObj => groundobj::all_rules(),
        ObjType::Tree => tree::all_rules(),
        ObjType::Citycar => citycar::all_rules(),
        ObjType::Pedestrian => pedestrian::all_rules(),
        ObjType::Factory => factory::all_rules(),
        ObjType::Sound => sound::all_rules(),
        ObjType::Ground => ground::all_rules(),
        ObjType::Menu => menu::all_rules(),
        ObjType::Cursor => cursor::all_rules(),
        ObjType::Symbol => symbol::all_rules(),
        ObjType::Smoke => smoke::all_rules(),
        ObjType::Field => field::all_rules(),
        ObjType::Misc => misc::all_rules(),
    }
}

/// The rules of an object type (what the type's `all()` lists).
pub fn rules_for(obj: ObjType) -> (res: Vec<Rule>)
    ensures
        res@ == rules_of(obj),
{
    match obj {
        ObjType::Building => building::all(),
        ObjType::Vehicle => vehicle::all(),
        ObjType::Way => way::all(),
        ObjType::Good => good::all(),
        ObjType::Bridge => bridge::all(),
        ObjType::Tunnel => tunnel::all(),
        ObjType::Roadsign => roadsign::all(),
        ObjType::Crossing => crossing::all(),
        ObjType::WayObject => way_obj::all(),
        ObjType::GroundObj => groundobj::all(),
        ObjType::Tree => tree::all(),
        ObjType::Citycar => citycar::all(),
        ObjType::Pedestrian => pedestrian::all(),
        ObjType::Factory => factory::all(),
        ObjType::Sound => sound::all(),
        ObjType::Ground => ground::all(),
        ObjType::Menu => menu::all(),
        ObjType::Cursor => cursor::all(),
        ObjType::Symbol => symbol::all(),
        ObjType::Smoke => smoke::all(),
        ObjType::Field => field::all(),
        ObjType::Misc => misc::all(),
    }
}

/// Every finding of the rules of `obj` on a definition.
pub fn check_obj(obj: ObjType, dat: &DatFile) -> (res: Vec<Finding>)
    ensures
        fviews(res@) == rules_findings(rules_of(obj), dat@),
{
    run_rules(&rules_for(obj), dat)
}

/// The rules of the type named `name`, run on a definition; `None` for a
/// name that is not an object type.
pub fn check_via_dispatch(name: &str, dat: &DatFile) -> (res: Option<Vec<Finding>>)
    ensures
        match res {
            Some(f) => exists|t: ObjType| t.name()@ == name@ && fviews(f@) == rules_findings(rules_of(t), dat@),
            None => forall|t: ObjType| #[trigger] t.name()@ != name@,
        },
{
    match ObjType::from_name(name) {
        Some(t) => Some(check_obj(t, dat)),
        None => None,
    }
}

} // verus!
