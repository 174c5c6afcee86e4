//! `obj=way-object` (way_obj_writer.cc): the two waytypes, every image it
//! reads and the date indexes.
use vstd::prelude::*;
use crate::common::{warns_date, law_intro_retire_dates, get_int, waytype_field, check_waytype_field, extend_diags,
    intro_retire_overflow, intro_retire_overflow_rule, images_if_present, push_images_if_present};
use crate::dat::{DatFile, DatView};
use crate::diagnostics::{Finding, FindingView, fviews, as_findings};
use crate::registry::{Rule, rules_findings, run_rules};

verus! {

pub open spec fn all_rules() -> Seq<Rule> {
    seq![
        Rule::WayObjWaytypeRequired,
        Rule::WayObjOwnWaytypeRequired,
        Rule::WayObjImageRef,
        Rule::WayObjDateIndexOverflow,
    ]
}

/// The rules of `obj=way-object`, in the order they report.
pub fn all() -> (res: Vec<Rule>)
    ensures
        res@ == all_rules(),
{
    let v = vec![
        Rule::WayObjWaytypeRequired,
        Rule::WayObjOwnWaytypeRequired,
        Rule::WayObjImageRef,
        Rule::WayObjDateIndexOverflow,
    ];
    assert(v@ =~= all_rules());
    v
}

/// Every finding of the `obj=way-object` rules.
pub fn check_way_obj(dat: &DatFile) -> (res: Vec<Finding>)
    ensures
        fviews(res@) == rules_findings(all_rules(), dat@),
{
    run_rules(&all(), dat)
}

/// way_obj_writer.cc reads `get_waytype(obj.get("waytype"))` unconditionally.
pub open spec fn waytype_required(d: DatView) -> Seq<FindingView> {
    as_findings(waytype_field(d, "waytype"@))
}

pub fn waytype_required_rule(dat: &DatFile) -> (res: Vec<Finding>)
    ensures
        fviews(res@) == waytype_required(dat@),
{
    let mut out: Vec<Finding> = Vec::new();
    extend_diags(&mut out, check_waytype_field(dat, "waytype"));
    assert(fviews(out@) =~= waytype_required(dat@));
    out
}

/// way_obj_writer.cc reads `get_waytype(obj.get("own_waytype"))` unconditionally.
pub open spec fn own_waytype_required(d: DatView) -> Seq<FindingView> {
    as_findings(waytype_field(d, "own_waytype"@))
}

pub fn own_waytype_required_rule(dat: &DatFile) -> (res: Vec<Finding>)
    ensures
        fviews(res@) == own_waytype_required(dat@),
{
    let mut out: Vec<Finding> = Vec::new();
    extend_diags(&mut out, check_waytype_field(dat, "own_waytype"));
    assert(fviews(out@) =~= own_waytype_required(dat@));
    out
}

/// The image keys way_obj_writer.cc reads, in its order: front/back images of
/// the 26 ribi codes, front/back slope images (`up`, `up2`) of slopes 3, 6, 9,
/// 12, front/back diagonals of ribis ne, se, nw, sw, then cursor and icon.
pub open spec fn image_keys() -> Seq<&'static str> {
    seq![
        "frontimage[-]",
        "backimage[-]",
        "frontimage[n]",
        "backimage[n]",
        "frontimage[e]",
        "backimage[e]",
        "frontimage[ne]",
        "backimage[ne]",
        "frontimage[s]",
        "backimage[s]",
        "frontimage[ns]",
        "backimage[ns]",
        "frontimage[se]",
        "backimage[se]",
        "frontimage[nse]",
        "backimage[nse]",
        "frontimage[w]",
        "backimage[w]",
        "frontimage[nw]",
        "backimage[nw]",
        "frontimage[ew]",
        "backimage[ew]",
        "frontimage[new]",
        "backimage[new]",
        "frontimage[sw]",
        "backimage[sw]",
        "frontimage[nsw]",
        "backimage[nsw]",
        "frontimage[sew]",
        "backimage[sew]",
        "frontimage[nsew]",
        "backimage[nsew]",
        "frontimage[nse1]",
        "backimage[nse1]",
        "frontimage[new1]",
        "backimage[new1]",
        "frontimage[nsw1]",
        "backimage[nsw1]",
        "frontimage[sew1]",
        "backimage[sew1]",
        "frontimage[nsew1]",
        "backimage[nsew1]",
        "frontimage[nse2]",
        "backimage[nse2]",
        "frontimage[new2]",
        "backimage[new2]",
        "frontimage[nsw2]",
        "backimage[nsw2]",
        "frontimage[sew2]",
        "backimage[sew2]",
        "frontimage[nsew2]",
        "backimage[nsew2]",
        "frontimageup[3]",
        "backimageup[3]",
        "frontimageup[6]",
        "backimageup[6]",
        "frontimageup[9]",
        "backimageup[9]",
        "frontimageup[12]",
        "backimageup[12]",
        "frontimageup2[3]",
        "backimageup2[3]",
        "frontimageup2[6]",
        "backimageup2[6]",
        "frontimageup2[9]",
        "backimageup2[9]",
        "frontimageup2[12]",
        "backimageup2[12]",
        "frontdiagonal[ne]",
        "backdiagonal[ne]",
        "frontdiagonal[se]",
        "backdiagonal[se]",
        "frontdiagonal[nw]",
        "backdiagonal[nw]",
        "frontdiagonal[sw]",
        "backdiagonal[sw]",
        "cursor",
        "icon"
    ]
}

/// Every image key that has a value is an image reference.
pub open spec fn image_ref(d: DatView) -> Seq<FindingView> {
    images_if_present(d, image_keys())
}

pub fn image_ref_rule(dat: &DatFile) -> (res: Vec<Finding>)
    ensures
        fviews(res@) == image_ref(dat@),
{
    let keys: [&'static str; 78] = [
        "frontimage[-]",
        "backimage[-]",
        "frontimage[n]",
        "backimage[n]",
        "frontimage[e]",
        "backimage[e]",
        "frontimage[ne]",
        "backimage[ne]",
        "frontimage[s]",
        "backimage[s]",
        "frontimage[ns]",
        "backimage[ns]",
        "frontimage[se]",
        "backimage[se]",
        "frontimage[nse]",
        "backimage[nse]",
        "frontimage[w]",
        "backimage[w]",
        "frontimage[nw]",
        "backimage[nw]",
        "frontimage[ew]",
        "backimage[ew]",
        "frontimage[new]",
        "backimage[new]",
        "frontimage[sw]",
        "backimage[sw]",
        "frontimage[nsw]",
        "backimage[nsw]",
        "frontimage[sew]",
        "backimage[sew]",
        "frontimage[nsew]",
        "backimage[nsew]",
        "frontimage[nse1]",
        "backimage[nse1]",
        "frontimage[new1]",
        "backimage[new1]",
        "frontimage[nsw1]",
        "backimage[nsw1]",
        "frontimage[sew1]",
        "backimage[sew1]",
        "frontimage[nsew1]",
        "backimage[nsew1]",
        "frontimage[nse2]",
        "backimage[nse2]",
        "frontimage[new2]",
        "backimage[new2]",
        "frontimage[nsw2]",
        "backimage[nsw2]",
        "frontimage[sew2]",
        "backimage[sew2]",
        "frontimage[nsew2]",
        "backimage[nsew2]",
        "frontimageup[3]",
        "backimageup[3]",
        "frontimageup[6]",
        "backimageup[6]",
        "frontimageup[9]",
        "backimageup[9]",
        "frontimageup[12]",
        "backimageup[12]",
        "frontimageup2[3]",
        "backimageup2[3]",
        "frontimageup2[6]",
        "backimageup2[6]",
        "frontimageup2[9]",
        "backimageup2[9]",
        "frontimageup2[12]",
        "backimageup2[12]",
        "frontdiagonal[ne]",
        "backdiagonal[ne]",
        "frontdiagonal[se]",
        "backdiagonal[se]",
        "frontdiagonal[nw]",
        "backdiagonal[nw]",
        "frontdiagonal[sw]",
        "backdiagonal[sw]",
        "cursor",
        "icon"
    ];
    assert(keys@ =~= image_keys());
    let mut out: Vec<Finding> = Vec::new();
    push_images_if_present(&mut out, dat, &keys);
    assert(fviews(out@) =~= image_ref(dat@));
    out
}

/// way_obj_writer.cc writes the intro and retire date indexes into `uint16`s.
pub open spec fn date_index_overflow(d: DatView) -> Seq<FindingView> {
    intro_retire_overflow(d, 1900)
}

pub fn date_index_overflow_rule(dat: &DatFile) -> (res: Vec<Finding>)
    ensures
        fviews(res@) == date_index_overflow(dat@),
{
    intro_retire_overflow_rule(dat, 1900)
}


/// way_obj_writer.cc stores the intro date (year defaulting to 1900) and the retire date
/// (year defaulting to 2999) as `year*12 + month - 1` in a `uint16`, months
/// defaulting to 1: the rule warns about each exactly when that index
/// leaves `0..=65535`.
pub proof fn law_way_obj_date_indexes(d: DatView)
    ensures
        warns_date(date_index_overflow(d), "intro_year"@) <==> !(0 <= get_int(d, "intro_year"@, 1900) * 12 + get_int(
            d,
            "intro_month"@,
            1,
        ) - 1 <= 65535),
        warns_date(date_index_overflow(d), "retire_year"@) <==> !(0 <= get_int(d, "retire_year"@, 2999) * 12
            + get_int(d, "retire_month"@, 1) - 1 <= 65535),
{
    law_intro_retire_dates(d, 1900);
}

} // verus!
