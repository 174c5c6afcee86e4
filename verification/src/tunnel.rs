//! `obj=tunnel` (tunnel_writer.cc): the waytype, the portal images of each
//! season, the date indexes, the axle load and the name and copyright text.
use vstd::prelude::*;
use crate::common::{warns_date, law_intro_retire_dates, narrow_fields, narrow_fields_rule, get_int,
    warns_narrowing, lemma_unsigned_ranges, lemma_narrow_fields_warns, field_overflows, waytype_field,
    check_waytype_field, extend_diags, intro_retire_overflow, intro_retire_overflow_rule};
use crate::dat::{get, DatFile, DatView, value_of};
use crate::text::{decimal, decimal_string, owned};
use crate::diagnostics::{Finding, FindingView, fviews, as_findings, append_findings};
use crate::images::{image_ref_finding, push_image_ref};
use crate::registry::{Rule, rules_findings, run_rules};

verus! {

pub open spec fn all_rules() -> Seq<Rule> {
    seq![
        Rule::TunnelWaytypeRequired,
        Rule::TunnelImageRef,
        Rule::TunnelDateIndexOverflow,
        Rule::TunnelNarrowInt,
        Rule::NameAndCopyright,
    ]
}

/// The rules of `obj=tunnel`, in the order they report.
pub fn all() -> (res: Vec<Rule>)
    ensures
        res@ == all_rules(),
{
    let v = vec![
        Rule::TunnelWaytypeRequired,
        Rule::TunnelImageRef,
        Rule::TunnelDateIndexOverflow,
        Rule::TunnelNarrowInt,
        Rule::NameAndCopyright,
    ];
    assert(v@ =~= all_rules());
    v
}

/// Every finding of the `obj=tunnel` rules.
pub fn check_tunnel(dat: &DatFile) -> (res: Vec<Finding>)
    ensures
        fviews(res@) == rules_findings(all_rules(), dat@),
{
    run_rules(&all(), dat)
}

/// tunnel_writer.cc reads `get_waytype(obj.get("waytype"))` unconditionally.
pub open spec fn waytype_required(d: DatView) -> Seq<FindingView> {
    as_findings(waytype_field(d, "waytype"@))
}

pub fn waytype_required_rule(dat: &DatFile) -> (res: Vec<Finding>)
    ensures
        fviews(res@) == waytype_required(dat@),
{
    let mut out: Vec<Finding> = Vec::new();
    extend_diags(&mut out, check_waytype_field(dat, "waytype"));
    assert(fviews(out@) =~= waytype_required(dat@));
    out
}

/// tunnel_writer.cc: a snow season is written where `frontimage[n][1]` is
/// given (1), otherwise none (0).
pub open spec fn number_of_seasons(d: DatView) -> nat {
    if value_of(d, "frontimage[n][1]"@).len() == 0 {
        0
    } else {
        1
    }
}

pub fn number_of_seasons_exec(dat: &DatFile) -> (res: u8)
    ensures
        res as nat == number_of_seasons(dat@),
{
    let v = dat.value("frontimage[n][1]");
    if v.as_str().is_empty() {
        0
    } else {
        1
    }
}

/// tunnel_writer.cc: four portal widths (plain, l, r, m) where
/// `frontimage[nl][0]` (or, without it, `frontimage[nl]`) is given, one
/// otherwise.
pub open spec fn number_portals(d: DatView) -> nat {
    let with_season = value_of(d, "frontimage[nl][0]"@);
    let probe = if with_season.len() != 0 {
        with_season
    } else {
        value_of(d, "frontimage[nl]"@)
    };
    if probe.len() == 0 {
        1
    } else {
        4
    }
}

pub fn number_portals_exec(dat: &DatFile) -> (res: u8)
    ensures
        res as nat == number_portals(dat@),
{
    let with_season = dat.value("frontimage[nl][0]");
    let probe = if !with_season.as_str().is_empty() {
        with_season
    } else {
        dat.value("frontimage[nl]")
    };
    if probe.as_str().is_empty() {
        1
    } else {
        4
    }
}

/// The (position, direction, width) triples of one season, in the writer's
/// order, for one portal width or four.
pub open spec fn combos(portals: nat) -> Seq<(&'static str, &'static str, &'static str)> {
    if portals == 1 {
        seq![("front", "n", ""), ("front", "s", ""), ("front", "e", ""), ("front", "w", ""), ("back", "n", ""), ("back", "s", ""), ("back", "e", ""), ("back", "w", "")]
    } else {
        seq![
        ("front", "n", ""),
        ("front", "s", ""),
        ("front", "e", ""),
        ("front", "w", ""),
        ("front", "n", "l"),
        ("front", "s", "l"),
        ("front", "e", "l"),
        ("front", "w", "l"),
        ("front", "n", "r"),
        ("front", "s", "r"),
        ("front", "e", "r"),
        ("front", "w", "r"),
        ("front", "n", "m"),
        ("front", "s", "m"),
        ("front", "e", "m"),
        ("front", "w", "m"),
        ("back", "n", ""),
        ("back", "s", ""),
        ("back", "e", ""),
        ("back", "w", ""),
        ("back", "n", "l"),
        ("back", "s", "l"),
        ("back", "e", "l"),
        ("back", "w", "l"),
        ("back", "n", "r"),
        ("back", "s", "r"),
        ("back", "e", "r"),
        ("back", "w", "r"),
        ("back", "n", "m"),
        ("back", "s", "m"),
        ("back", "e", "m"),
        ("back", "w", "m")
        ]
    }
}

/// `{pos}image[{dir}{width}][{season}]`.
pub open spec fn season_key(pos: Seq<char>, dir: Seq<char>, width: Seq<char>, season: nat) -> Seq<char> {
    pos + "image["@ + dir + width + "]["@ + decimal(season) + "]"@
}

/// `{pos}image[{dir}{width}]`.
pub open spec fn short_key(pos: Seq<char>, dir: Seq<char>, width: Seq<char>) -> Seq<char> {
    pos + "image["@ + dir + width + "]"@
}

/// One portal image: the key with the season index, or for season 0 the
/// key without it where the former is empty; an empty value is skipped.
pub open spec fn portal_finding(d: DatView, season: nat, c: (&'static str, &'static str, &'static str)) -> Seq<FindingView> {
    let k1 = season_key(c.0@, c.1@, c.2@, season);
    let v1 = value_of(d, k1);
    let (key, v) = if v1.len() == 0 && season == 0 {
        (short_key(c.0@, c.1@, c.2@), value_of(d, short_key(c.0@, c.1@, c.2@)))
    } else {
        (k1, v1)
    };
    if v.len() == 0 {
        seq![]
    } else {
        seq![image_ref_finding(v, key)]
    }
}

pub open spec fn combos_findings(d: DatView, season: nat, cs: Seq<(&'static str, &'static str, &'static str)>) -> Seq<FindingView>
    decreases cs.len(),
{
    if cs.len() == 0 {
        seq![]
    } else {
        combos_findings(d, season, cs.drop_last()) + portal_finding(d, season, cs.last())
    }
}

pub open spec fn seasons_findings(d: DatView, seasons: nat, portals: nat) -> Seq<FindingView>
    decreases seasons,
{
    if seasons == 0 {
        combos_findings(d, 0, combos(portals))
    } else {
        seasons_findings(d, (seasons - 1) as nat, portals) + combos_findings(d, seasons, combos(portals))
    }
}

/// Every portal image of every season, positions front then back.
pub open spec fn image_ref(d: DatView) -> Seq<FindingView> {
    seasons_findings(d, number_of_seasons(d), number_portals(d))
}

fn push_portal_finding(out: &mut Vec<Finding>, dat: &DatFile, season: u64, c: (&'static str, &'static str, &'static str))
    ensures
        fviews(final(out)@) == fviews(old(out)@) + portal_finding(dat@, season as nat, c),
{
    let (pos, dir, width) = c;
    let ds = decimal_string(season);
    let mut k1 = owned(pos);
    k1.append("image[");
    k1.append(dir);
    k1.append(width);
    k1.append("][");
    k1.append(ds.as_str());
    k1.append("]");
    assert(k1@ == season_key(pos@, dir@, width@, season as nat));
    let v1 = dat.value(k1.as_str());
    let ghost before = fviews(out@);
    if v1.as_str().is_empty() && season == 0 {
        let mut k2 = owned(pos);
        k2.append("image[");
        k2.append(dir);
        k2.append(width);
        k2.append("]");
        assert(k2@ == short_key(pos@, dir@, width@));
        let v2 = dat.value(k2.as_str());
        if !v2.as_str().is_empty() {
            push_image_ref(out, v2.as_str(), k2.as_str());
        }
    } else {
        if !v1.as_str().is_empty() {
            push_image_ref(out, v1.as_str(), k1.as_str());
        }
    }
    assert(fviews(out@) =~= before + portal_finding(dat@, season as nat, c));
}

fn push_season(out: &mut Vec<Finding>, dat: &DatFile, season: u64, portals: u8)
    requires
        portals == 1 || portals == 4,
    ensures
        fviews(final(out)@) == fviews(old(out)@) + combos_findings(dat@, season as nat, combos(portals as nat)),
{
    let one: [(&'static str, &'static str, &'static str); 8] = [("front", "n", ""), ("front", "s", ""), ("front", "e", ""), ("front", "w", ""), ("back", "n", ""), ("back", "s", ""), ("back", "e", ""), ("back", "w", "")];
    let four: [(&'static str, &'static str, &'static str); 32] = [
        ("front", "n", ""),
        ("front", "s", ""),
        ("front", "e", ""),
        ("front", "w", ""),
        ("front", "n", "l"),
        ("front", "s", "l"),
        ("front", "e", "l"),
        ("front", "w", "l"),
        ("front", "n", "r"),
        ("front", "s", "r"),
        ("front", "e", "r"),
        ("front", "w", "r"),
        ("front", "n", "m"),
        ("front", "s", "m"),
        ("front", "e", "m"),
        ("front", "w", "m"),
        ("back", "n", ""),
        ("back", "s", ""),
        ("back", "e", ""),
        ("back", "w", ""),
        ("back", "n", "l"),
        ("back", "s", "l"),
        ("back", "e", "l"),
        ("back", "w", "l"),
        ("back", "n", "r"),
        ("back", "s", "r"),
        ("back", "e", "r"),
        ("back", "w", "r"),
        ("back", "n", "m"),
        ("back", "s", "m"),
        ("back", "e", "m"),
        ("back", "w", "m")
    ];
    assert(one@ =~= combos(1));
    assert(four@ =~= combos(4));
    let cs: &[(&'static str, &'static str, &'static str)] = if portals == 1 {
        &one
    } else {
        &four
    };
    assert(cs@ == combos(portals as nat));
    let ghost start = fviews(out@);
    let mut i: usize = 0;
    while i < cs.len()
        invariant
            i <= cs@.len(),
            cs@ == combos(portals as nat),
            fviews(out@) == start + combos_findings(dat@, season as nat, cs@.take(i as int)),
        decreases cs.len() - i,
    {
        assert(cs@.take(i + 1).drop_last() =~= cs@.take(i as int));
        assert(cs@.take(i + 1).last() == cs@[i as int]);
        push_portal_finding(out, dat, season, cs[i]);
        i = i + 1;
    }
    assert(cs@.take(cs.len() as int) =~= cs@);
}

pub fn image_ref_rule(dat: &DatFile) -> (res: Vec<Finding>)
    ensures
        fviews(res@) == image_ref(dat@),
{
    let seasons = number_of_seasons_exec(dat);
    let portals = number_portals_exec(dat);
    let mut out: Vec<Finding> = Vec::new();
    push_season(&mut out, dat, 0, portals);
    assert(fviews(out@) =~= seasons_findings(dat@, 0, portals as nat));
    if seasons == 1 {
        push_season(&mut out, dat, 1, portals);
        assert(fviews(out@) =~= seasons_findings(dat@, 1, portals as nat));
    }
    out
}

/// tunnel_writer.cc writes the intro and retire date indexes into `uint16`s.
pub open spec fn date_index_overflow(d: DatView) -> Seq<FindingView> {
    intro_retire_overflow(d, 1900)
}

pub fn date_index_overflow_rule(dat: &DatFile) -> (res: Vec<Finding>)
    ensures
        fviews(res@) == date_index_overflow(dat@),
{
    intro_retire_overflow_rule(dat, 1900)
}

/// tunnel_writer.cc:26 keeps `axle_load` (default 9999) in a `uint16`.
pub open spec fn narrow_fields_of() -> Seq<(&'static str, i64, u32)> {
    seq![("axle_load", 9999i64, 16u32)]
}

pub open spec fn narrow_int(d: DatView) -> Seq<FindingView> {
    as_findings(narrow_fields(d, narrow_fields_of()))
}

pub fn narrow_int_rule(dat: &DatFile) -> (res: Vec<Finding>)
    ensures
        fviews(res@) == narrow_int(dat@),
{
    let fields: [(&'static str, i64, u32); 1] = [("axle_load", 9999, 16)];
    assert(fields@ =~= narrow_fields_of());
    narrow_fields_rule(dat, &fields)
}


/// tunnel_writer.cc writes `axle_load` (default 9999) as a `uint16`: the
/// rule warns about it exactly when it is given and its value lies outside
/// `0..=65535`.
pub proof fn law_tunnel_axle_load_is_a_uint16(d: DatView)
    ensures
        warns_narrowing(narrow_int(d), "axle_load"@) <==> (get(d, "axle_load"@) is Some && !(0 <= get_int(
            d,
            "axle_load"@,
            9999,
        ) <= 65535)),
{
    lemma_unsigned_ranges();
    let t = narrow_fields_of();
    lemma_narrow_fields_warns(d, t, "axle_load"@);
    assert(field_overflows(d, t[0], "axle_load"@) == (get(d, "axle_load"@) is Some && !(0 <= get_int(
        d,
        "axle_load"@,
        9999,
    ) <= 65535)));
}


/// tunnel_writer.cc stores the intro date (year defaulting to 1900) and the retire date
/// (year defaulting to 2999) as `year*12 + month - 1` in a `uint16`, months
/// defaulting to 1: the rule warns about each exactly when that index
/// leaves `0..=65535`.
pub proof fn law_tunnel_date_indexes(d: DatView)
    ensures
        warns_date(date_index_overflow(d), "intro_year"@) <==> !(0 <= get_int(d, "intro_year"@, 1900) * 12 + get_int(
            d,
            "intro_month"@,
            1,
        ) - 1 <= 65535),
        warns_date(date_index_overflow(d), "retire_year"@) <==> !(0 <= get_int(d, "retire_year"@, 2999) * 12
            + get_int(d, "retire_month"@, 1) - 1 <= 65535),
{
    law_intro_retire_dates(d, 1900);
}


/// tunnel_writer.cc writes four portal widths exactly when
/// `frontimage[nl][0]` or `frontimage[nl]` is given (one otherwise), and a
/// snow season exactly when `frontimage[n][1]` is given.
pub proof fn law_tunnel_portals_and_seasons(d: DatView)
    ensures
        number_portals(d) == 4 <==> (value_of(d, "frontimage[nl][0]"@).len() != 0 || value_of(
            d,
            "frontimage[nl]"@,
        ).len() != 0),
        number_portals(d) == 1 <==> (value_of(d, "frontimage[nl][0]"@).len() == 0 && value_of(
            d,
            "frontimage[nl]"@,
        ).len() == 0),
        number_of_seasons(d) == 1 <==> value_of(d, "frontimage[n][1]"@).len() != 0,
        number_of_seasons(d) == 0 <==> value_of(d, "frontimage[n][1]"@).len() == 0,
{
}

} // verus!
