//! `obj=bridge` (bridge_writer.cc): the waytype, the clamped integer fields
//! and the front images of every season.
use vstd::prelude::*;
use crate::text::{trim, parse_i64, parse_trimmed_i64, owned, decimal, decimal_string, signed_decimal,
    signed_decimal_string, utf8_len, byte_len};
use crate::dat::{DatFile, DatView, get, value_of};
use crate::diagnostics::{Severity, DiagnosticCode, Diagnostic, Finding, FindingView, diag, args1, vec1,
    string_views, fviews, as_findings, push_diag};
use crate::common::{locate, locate_at, waytype_field, check_waytype_field, extend_diags};
use crate::images::{image_ref_finding, push_image_ref};
use crate::registry::{Rule, rules_findings, run_rules};

verus! {

pub open spec fn all_rules() -> Seq<Rule> {
    seq![
        Rule::BridgeWaytypeRequired,
        Rule::BridgeClampedRange,
        Rule::BridgeFrontImageWarning,
        Rule::NameAndCopyright,
    ]
}

/// The rules of `obj=bridge`, in the order they report.
pub fn all() -> (res: Vec<Rule>)
    ensures
        res@ == all_rules(),
{
    let v = vec![
        Rule::BridgeWaytypeRequired,
        Rule::BridgeClampedRange,
        Rule::BridgeFrontImageWarning,
        Rule::NameAndCopyright,
    ];
    assert(v@ =~= all_rules());
    v
}

/// Every finding of the `obj=bridge` rules.
pub fn check_bridge(dat: &DatFile) -> (res: Vec<Finding>)
    ensures
        fviews(res@) == rules_findings(all_rules(), dat@),
{
    run_rules(&all(), dat)
}

/// bridge_writer.cc reads `get_waytype(obj.get("waytype"))` unconditionally.
pub open spec fn waytype_required(d: DatView) -> Seq<FindingView> {
    as_findings(waytype_field(d, "waytype"@))
}

pub fn waytype_required_rule(dat: &DatFile) -> (res: Vec<Finding>)
    ensures
        fviews(res@) == waytype_required(dat@),
{
    let mut out: Vec<Finding> = Vec::new();
    extend_diags(&mut out, check_waytype_field(dat, "waytype"));
    assert(fviews(out@) =~= waytype_required(dat@));
    out
}

/// The fields that bridge_writer.cc reads with `get_int_clamped(key, def,
/// min, max)`, with their ranges.
pub open spec fn clamped_fields() -> Seq<(&'static str, i64, i64)> {
    seq![
        ("pillar_distance", 0i64, 255i64),
        ("pillar_asymmetric", 0i64, 1i64),
        ("max_lenght", 0i64, 255i64),
        ("max_length", 0i64, 255i64),
        ("max_height", 0i64, 255i64),
        ("axle_load", 0i64, 65535i64),
        ("clip_below", 0i64, 1i64),
        ("intro_year", 0i64, 2147483647i64),
        ("intro_month", 1i64, 12i64),
        ("retire_year", 0i64, 2147483647i64),
        ("retire_month", 1i64, 12i64),
    ]
}

/// The warning for one clamped field whose decimal value is out of range.
pub open spec fn clamped_warning(d: DatView, key: Seq<char>, min: i64, max: i64) -> Seq<FindingView> {
    match get(d, key) {
        None => seq![],
        Some(raw) => match parse_i64(trim(raw)) {
            None => seq![],
            Some(v) => if v < min || v > max {
                seq![
                    FindingView::Diag(
                        locate(
                            d,
                            diag(
                                Severity::Warning,
                                DiagnosticCode::ClampedValueOutOfRange,
                                seq![key, signed_decimal(v as int), signed_decimal(min as int), signed_decimal(max as int)],
                            ),
                            key,
                        ),
                    ),
                ]
            } else {
                seq![]
            },
        },
    }
}

pub open spec fn clamped_warnings(d: DatView, fields: Seq<(&'static str, i64, i64)>) -> Seq<FindingView>
    decreases fields.len(),
{
    if fields.len() == 0 {
        seq![]
    } else {
        let f = fields.last();
        clamped_warnings(d, fields.drop_last()) + clamped_warning(d, f.0@, f.1, f.2)
    }
}

/// `get_int_clamped` warns and clamps a value outside its range; a value
/// that does not read as a decimal number is left alone.
pub open spec fn clamped_range(d: DatView) -> Seq<FindingView> {
    clamped_warnings(d, clamped_fields())
}

fn push_clamped_warning(out: &mut Vec<Finding>, dat: &DatFile, key: &str, min: i64, max: i64)
    ensures
        fviews(final(out)@) == fviews(old(out)@) + clamped_warning(dat@, key@, min, max),
{
    let ghost before = fviews(out@);
    match dat.get(key) {
        None => {},
        Some(raw) => match parse_trimmed_i64(raw) {
            None => {},
            Some(v) => {
                if v < min || v > max {
                    let mut args: Vec<String> = Vec::new();
                    args.push(owned(key));
                    args.push(signed_decimal_string(v as i128));
                    args.push(signed_decimal_string(min as i128));
                    args.push(signed_decimal_string(max as i128));
                    assert(string_views(args@) =~= seq![key@, signed_decimal(v as int), signed_decimal(min as int),
                        signed_decimal(max as int)]);
                    let x = Diagnostic::new(Severity::Warning, DiagnosticCode::ClampedValueOutOfRange, args);
                    push_diag(out, locate_at(dat, x, key));
                }
            },
        },
    }
    assert(fviews(out@) =~= before + clamped_warning(dat@, key@, min, max));
}

pub fn clamped_range_rule(dat: &DatFile) -> (res: Vec<Finding>)
    ensures
        fviews(res@) == clamped_range(dat@),
{
    let fields: [(&'static str, i64, i64); 11] = [
        ("pillar_distance", 0i64, 255i64),
        ("pillar_asymmetric", 0i64, 1i64),
        ("max_lenght", 0i64, 255i64),
        ("max_length", 0i64, 255i64),
        ("max_height", 0i64, 255i64),
        ("axle_load", 0i64, 65535i64),
        ("clip_below", 0i64, 1i64),
        ("intro_year", 0i64, 2147483647i64),
        ("intro_month", 1i64, 12i64),
        ("retire_year", 0i64, 2147483647i64),
        ("retire_month", 1i64, 12i64),
    ];
    assert(fields@ =~= clamped_fields());
    let mut out: Vec<Finding> = Vec::new();
    let mut i: usize = 0;
    while i < 11
        invariant
            i <= 11,
            fields@ == clamped_fields(),
            fviews(out@) == clamped_warnings(dat@, clamped_fields().take(i as int)),
        decreases 11 - i,
    {
        let (key, min, max) = fields[i];
        assert(clamped_fields().take(i + 1).drop_last() =~= clamped_fields().take(i as int));
        push_clamped_warning(&mut out, dat, key, min, max);
        i = i + 1;
    }
    assert(clamped_fields().take(11) =~= clamped_fields());
    out
}

// ---------------------------------------------------------------------------
// Front images
// ---------------------------------------------------------------------------

/// The image groups (name, directions) whose front images bridge_writer.cc
/// reads, flattened in its order.
pub open spec fn image_groups() -> Seq<(&'static str, &'static str)> {
    seq![
        ("image", "ns"), ("image", "ew"),
        ("start", "n"), ("start", "s"), ("start", "e"), ("start", "w"),
        ("ramp", "n"), ("ramp", "s"), ("ramp", "e"), ("ramp", "w"),
        ("pillar", "s"), ("pillar", "w"),
        ("image2", "ns"), ("image2", "ew"),
        ("start2", "n"), ("start2", "s"), ("start2", "e"), ("start2", "w"),
        ("ramp2", "n"), ("ramp2", "s"), ("ramp2", "e"), ("ramp2", "w"),
        ("pillar2", "s"), ("pillar2", "w"),
    ]
}

/// Whether `backimage[ns][i]` has a value.
pub open spec fn back_ns_present(d: DatView, i: nat) -> bool {
    value_of(d, "backimage[ns]["@ + decimal(i) + "]"@).len() != 0
}

/// The seasons bridge_writer.cc writes: without `backimage[ns][0]` a single
/// set without season index; otherwise seasons 0.. up to the last of
/// `backimage[ns][1]`, `backimage[ns][2]` present in a row.
pub open spec fn season_range(d: DatView) -> Seq<Option<nat>> {
    if !back_ns_present(d, 0) {
        seq![None]
    } else if !back_ns_present(d, 1) {
        seq![Some(0nat)]
    } else if !back_ns_present(d, 2) {
        seq![Some(0nat), Some(1nat)]
    } else {
        seq![Some(0nat), Some(1nat), Some(2nat)]
    }
}

/// `front{name}[{dir}]` or `front{name}[{dir}][{season}]`.
pub open spec fn front_key(name: Seq<char>, dir: Seq<char>, season: Option<nat>) -> Seq<char> {
    let base = "front"@ + name + "["@ + dir + "]"@;
    match season {
        Some(s) => base + "["@ + decimal(s) + "]"@,
        None => base,
    }
}

/// bridge_writer.cc: a front image whose value is at most two bytes long
/// draws "No ... specified (might still work)"; a longer one is an image
/// reference.
pub open spec fn front_image_finding(d: DatView, key: Seq<char>) -> FindingView {
    let v = value_of(d, key);
    if utf8_len(v) <= 2 {
        FindingView::Diag(diag(Severity::Warning, DiagnosticCode::NoBridgeImageSpecified, args1(key)))
    } else {
        image_ref_finding(v, key)
    }
}

pub open spec fn group_findings(d: DatView, season: Option<nat>, groups: Seq<(&'static str, &'static str)>) -> Seq<FindingView>
    decreases groups.len(),
{
    if groups.len() == 0 {
        seq![]
    } else {
        let g = groups.last();
        group_findings(d, season, groups.drop_last()).push(front_image_finding(d, front_key(g.0@, g.1@, season)))
    }
}

pub open spec fn seasons_findings(d: DatView, seasons: Seq<Option<nat>>) -> Seq<FindingView>
    decreases seasons.len(),
{
    if seasons.len() == 0 {
        seq![]
    } else {
        seasons_findings(d, seasons.drop_last()) + group_findings(d, seasons.last(), image_groups())
    }
}

/// Every front image of every season written.
pub open spec fn front_image_warning(d: DatView) -> Seq<FindingView> {
    seasons_findings(d, season_range(d))
}

fn back_ns_present_exec(dat: &DatFile, i: u64) -> (res: bool)
    ensures
        res == back_ns_present(dat@, i as nat),
{
    let d = decimal_string(i);
    let mut key = owned("backimage[ns][");
    key.append(d.as_str());
    key.append("]");
    let v = dat.value(key.as_str());
    !v.as_str().is_empty()
}

/// The seasons bridge_writer.cc writes.
pub fn season_range_exec(dat: &DatFile) -> (res: Vec<Option<u8>>)
    ensures
        res@.map_values(|s: Option<u8>| match s {
            Some(x) => Some(x as nat),
            None => None,
        }) == season_range(dat@),
{
    let mut v: Vec<Option<u8>> = Vec::new();
    if !back_ns_present_exec(dat, 0) {
        v.push(None);
    } else if !back_ns_present_exec(dat, 1) {
        v.push(Some(0));
    } else if !back_ns_present_exec(dat, 2) {
        v.push(Some(0));
        v.push(Some(1));
    } else {
        v.push(Some(0));
        v.push(Some(1));
        v.push(Some(2));
    }
    assert(v@.map_values(|s: Option<u8>| match s {
        Some(x) => Some(x as nat),
        None => None,
    }) =~= season_range(dat@));
    v
}

fn front_key_exec(name: &str, dir: &str, season: Option<u8>) -> (res: String)
    ensures
        res@ == front_key(
            name@,
            dir@,
            match season {
                Some(x) => Some(x as nat),
                None => None,
            },
        ),
{
    let mut key = owned("front");
    key.append(name);
    key.append("[");
    key.append(dir);
    key.append("]");
    match season {
        Some(s) => {
            let d = decimal_string(s as u64);
            key.append("[");
            key.append(d.as_str());
            key.append("]");
        },
        None => {},
    }
    key
}

fn push_season_findings(out: &mut Vec<Finding>, dat: &DatFile, season: Option<u8>)
    ensures
        fviews(final(out)@) == fviews(old(out)@) + group_findings(
            dat@,
            match season {
                Some(x) => Some(x as nat),
                None => None,
            },
            image_groups(),
        ),
{
    let ghost s = match season {
        Some(x) => Some(x as nat),
        None => None,
    };
    let groups: [(&'static str, &'static str); 24] = [
        ("image", "ns"), ("image", "ew"),
        ("start", "n"), ("start", "s"), ("start", "e"), ("start", "w"),
        ("ramp", "n"), ("ramp", "s"), ("ramp", "e"), ("ramp", "w"),
        ("pillar", "s"), ("pillar", "w"),
        ("image2", "ns"), ("image2", "ew"),
        ("start2", "n"), ("start2", "s"), ("start2", "e"), ("start2", "w"),
        ("ramp2", "n"), ("ramp2", "s"), ("ramp2", "e"), ("ramp2", "w"),
        ("pillar2", "s"), ("pillar2", "w"),
    ];
    assert(groups@ =~= image_groups());
    let ghost start = fviews(out@);
    let mut i: usize = 0;
    while i < 24
        invariant
            i <= 24,
            groups@ == image_groups(),
            s == match season {
                Some(x) => Some(x as nat),
                None => None,
            },
            fviews(out@) == start + group_findings(dat@, s, image_groups().take(i as int)),
        decreases 24 - i,
    {
        let (name, dir) = groups[i];
        assert(image_groups().take(i + 1).drop_last() =~= image_groups().take(i as int));
        assert(image_groups().take(i + 1).last() == (name, dir));
        let key = front_key_exec(name, dir, season);
        let v = dat.value(key.as_str());
        let ghost before = fviews(out@);
        let ghost k = key@;
        assert(k == front_key(name@, dir@, s));
        assert(v@ == value_of(dat@, k));
        if byte_len(v.as_str()) <= 2 {
            push_diag(out, Diagnostic::new(Severity::Warning, DiagnosticCode::NoBridgeImageSpecified, vec1(key)));
            assert(fviews(out@) == before.push(front_image_finding(dat@, k)));
        } else {
            push_image_ref(out, v.as_str(), key.as_str());
            assert(fviews(out@) == before.push(front_image_finding(dat@, k)));
        }
        assert(fviews(out@) == before.push(front_image_finding(dat@, front_key(name@, dir@, s))));
        i = i + 1;
    }
    assert(image_groups().take(24) =~= image_groups());
}

pub fn front_image_warning_rule(dat: &DatFile) -> (res: Vec<Finding>)
    ensures
        fviews(res@) == front_image_warning(dat@),
{
    let seasons = season_range_exec(dat);
    let ghost sv = seasons@.map_values(|s: Option<u8>| match s {
        Some(x) => Some(x as nat),
        None => None,
    });
    let mut out: Vec<Finding> = Vec::new();
    let mut i: usize = 0;
    while i < seasons.len()
        invariant
            i <= seasons.len(),
            sv == seasons@.map_values(|s: Option<u8>| match s {
                Some(x) => Some(x as nat),
                None => None,
            }),
            fviews(out@) == seasons_findings(dat@, sv.take(i as int)),
        decreases seasons.len() - i,
    {
        assert(sv.take(i + 1).drop_last() =~= sv.take(i as int));
        push_season_findings(&mut out, dat, seasons[i]);
        i = i + 1;
    }
    assert(sv.take(seasons.len() as int) =~= sv);
    out
}

/// The decimal value of a clamped field, if it has one.
pub open spec fn clamped_value(d: DatView, key: Seq<char>) -> Option<i64> {
    match get(d, key) {
        None => None,
        Some(raw) => parse_i64(trim(raw)),
    }
}

/// Whether a clamped field (key, min, max) holds a decimal value outside
/// its range.
pub open spec fn out_of_range(d: DatView, f: (&'static str, i64, i64)) -> bool {
    match clamped_value(d, f.0@) {
        Some(v) => v < f.1 || v > f.2,
        None => false,
    }
}

/// The warning for a clamped field out of range.
pub open spec fn clamped_finding(d: DatView, f: (&'static str, i64, i64)) -> FindingView {
    FindingView::Diag(
        locate(
            d,
            diag(
                Severity::Warning,
                DiagnosticCode::ClampedValueOutOfRange,
                seq![f.0@, signed_decimal(clamped_value(d, f.0@).unwrap() as int), signed_decimal(f.1 as int),
                    signed_decimal(f.2 as int)],
            ),
            f.0@,
        ),
    )
}

proof fn lemma_clamped_warnings(d: DatView, fields: Seq<(&'static str, i64, i64)>)
    ensures
        clamped_warnings(d, fields) == fields.filter(|f: (&'static str, i64, i64)| out_of_range(d, f)).map_values(
            |f: (&'static str, i64, i64)| clamped_finding(d, f),
        ),
    decreases fields.len(),
{
    if fields.len() > 0 {
        lemma_clamped_warnings(d, fields.drop_last());
        let p = |f: (&'static str, i64, i64)| out_of_range(d, f);
        let m = |f: (&'static str, i64, i64)| clamped_finding(d, f);
        let rest = fields.drop_last().filter(p);
        assert(fields =~= fields.drop_last().push(fields.last()));
        fields.drop_last().lemma_filter_push(fields.last(), p);
        assert(fields.filter(p) == if p(fields.last()) {
            rest.push(fields.last())
        } else {
            rest
        });
        if p(fields.last()) {
            assert(rest.push(fields.last()).map_values(m) =~= rest.map_values(m).push(m(fields.last())));
            assert(clamped_warning(d, fields.last().0@, fields.last().1, fields.last().2) =~= seq![
                m(fields.last()),
            ]);
        } else {
            assert(clamped_warning(d, fields.last().0@, fields.last().1, fields.last().2) =~= Seq::<
                FindingView,
            >::empty());
        }
    }
}

/// bridge_writer.cc's clamped fields: one warning per field of
/// `clamped_fields()`, in that order, whose trimmed value reads as a decimal
/// number outside the field's range, and nothing else.
pub proof fn law_clamped_range(d: DatView)
    ensures
        clamped_range(d) == clamped_fields().filter(|f: (&'static str, i64, i64)| out_of_range(d, f)).map_values(
            |f: (&'static str, i64, i64)| clamped_finding(d, f),
        ),
{
    lemma_clamped_warnings(d, clamped_fields());
}


proof fn lemma_group_findings_len(d: DatView, season: Option<nat>, groups: Seq<(&'static str, &'static str)>)
    ensures
        group_findings(d, season, groups).len() == groups.len(),
    decreases groups.len(),
{
    if groups.len() > 0 {
        lemma_group_findings_len(d, season, groups.drop_last());
    }
}

proof fn lemma_seasons_findings_len(d: DatView, seasons: Seq<Option<nat>>)
    ensures
        seasons_findings(d, seasons).len() == 24 * seasons.len(),
    decreases seasons.len(),
{
    if seasons.len() > 0 {
        lemma_seasons_findings_len(d, seasons.drop_last());
        lemma_group_findings_len(d, seasons.last(), image_groups());
    }
}

/// bridge_writer.cc writes 24 front images (the plain, start, ramp and
/// pillar images and their second set) for each season: one set without a
/// season index where `backimage[ns][0]` is missing, else one per season up
/// to the last of `backimage[ns][1]`, `backimage[ns][2]` given in a row.
/// Each of them gets exactly one finding.
pub proof fn law_bridge_front_image_count(d: DatView)
    ensures
        front_image_warning(d).len() == 24 * if !back_ns_present(d, 0) || !back_ns_present(d, 1) {
            1int
        } else if !back_ns_present(d, 2) {
            2int
        } else {
            3int
        },
{
    lemma_seasons_findings_len(d, season_range(d));
}

} // verus!
