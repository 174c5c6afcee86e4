//! `obj=crossing` (crossing_writer.cc): the two waytypes, the two speeds,
//! the open/closed images, the date indexes and the name and copyright text.
use vstd::prelude::*;
use crate::common::{warns_date, law_intro_retire_dates, narrow_fields, narrow_fields_rule, get_int,
    warns_narrowing, lemma_unsigned_ranges, lemma_narrow_fields_warns, field_overflows, intro_retire_overflow,
    intro_retire_overflow_rule, locate, locate_at, waytype_field, check_waytype_field, extend_diags,
    known_waytypes, is_known_waytype, decimal_or, read_decimal_or, ikey, index_key};
use crate::dat::{get, DatFile, DatView, value_of};
use crate::text::{lower, to_lower, str_eq, decimal, decimal_string, owned};
use crate::diagnostics::{Severity, DiagnosticCode, Diagnostic, Finding, FindingView, diag, args2, vec0, vec2,
    fviews, as_findings, dviews, push_diag};
use crate::images::{image_ref_finding, push_image_ref};
use crate::registry::{Rule, rules_findings, run_rules};

verus! {

/// The way kinds that `get_waytype()` maps the accepted names to.
#[derive(Clone, Copy, PartialEq, Eq, Debug, Structural)]
pub enum Waytype {
    Ignore,
    Road,
    Track,
    Overheadlines,
    Maglev,
    Monorail,
    Narrowgauge,
    Water,
    Air,
    Tram,
    Powerline,
    Decoration,
}

/// The way kind of a lowered waytype name (`schiene_tram` and `tram_track`
/// are both trams).
pub open spec fn waytype_of(w: Seq<char>) -> Option<Waytype> {
    if w == "none"@ {
        Some(Waytype::Ignore)
    } else if w == "road"@ {
        Some(Waytype::Road)
    } else if w == "track"@ {
        Some(Waytype::Track)
    } else if w == "electrified_track"@ {
        Some(Waytype::Overheadlines)
    } else if w == "maglev_track"@ {
        Some(Waytype::Maglev)
    } else if w == "monorail_track"@ {
        Some(Waytype::Monorail)
    } else if w == "narrowgauge_track"@ {
        Some(Waytype::Narrowgauge)
    } else if w == "water"@ {
        Some(Waytype::Water)
    } else if w == "air"@ {
        Some(Waytype::Air)
    } else if w == "schiene_tram"@ || w == "tram_track"@ {
        Some(Waytype::Tram)
    } else if w == "power"@ {
        Some(Waytype::Powerline)
    } else if w == "decoration"@ {
        Some(Waytype::Decoration)
    } else {
        None
    }
}

/// The way kind of a waytype name, case-insensitively.
pub fn resolve_waytype(raw: &str) -> (res: Option<Waytype>)
    ensures
        res == waytype_of(lower(raw@)),
{
    let l = to_lower(raw);
    let w = l.as_str();
    if str_eq(w, "none") {
        Some(Waytype::Ignore)
    } else if str_eq(w, "road") {
        Some(Waytype::Road)
    } else if str_eq(w, "track") {
        Some(Waytype::Track)
    } else if str_eq(w, "electrified_track") {
        Some(Waytype::Overheadlines)
    } else if str_eq(w, "maglev_track") {
        Some(Waytype::Maglev)
    } else if str_eq(w, "monorail_track") {
        Some(Waytype::Monorail)
    } else if str_eq(w, "narrowgauge_track") {
        Some(Waytype::Narrowgauge)
    } else if str_eq(w, "water") {
        Some(Waytype::Water)
    } else if str_eq(w, "air") {
        Some(Waytype::Air)
    } else if str_eq(w, "schiene_tram") || str_eq(w, "tram_track") {
        Some(Waytype::Tram)
    } else if str_eq(w, "power") {
        Some(Waytype::Powerline)
    } else if str_eq(w, "decoration") {
        Some(Waytype::Decoration)
    } else {
        None
    }
}

pub open spec fn all_rules() -> Seq<Rule> {
    seq![
        Rule::CrossingWaytypesRequired,
        Rule::CrossingIdenticalWaytypes,
        Rule::CrossingSpeedRequired,
        Rule::CrossingOpenImageRequired,
        Rule::CrossingImageRef,
        Rule::CrossingDateIndexOverflow,
        Rule::CrossingNarrowInt,
        Rule::NameAndCopyright,
    ]
}

/// The rules of `obj=crossing`, in the order they report.
pub fn all() -> (res: Vec<Rule>)
    ensures
        res@ == all_rules(),
{
    let v = vec![
        Rule::CrossingWaytypesRequired,
        Rule::CrossingIdenticalWaytypes,
        Rule::CrossingSpeedRequired,
        Rule::CrossingOpenImageRequired,
        Rule::CrossingImageRef,
        Rule::CrossingDateIndexOverflow,
        Rule::CrossingNarrowInt,
        Rule::NameAndCopyright,
    ];
    assert(v@ =~= all_rules());
    v
}

/// Every finding of the `obj=crossing` rules.
pub fn check_crossing(dat: &DatFile) -> (res: Vec<Finding>)
    ensures
        fviews(res@) == rules_findings(all_rules(), dat@),
{
    run_rules(&all(), dat)
}

/// crossing_writer.cc reads `waytype[0]` and `waytype[1]` through `get_waytype()`.
pub open spec fn waytypes_required(d: DatView) -> Seq<FindingView> {
    as_findings(waytype_field(d, "waytype[0]"@) + waytype_field(d, "waytype[1]"@))
}

pub fn waytypes_required_rule(dat: &DatFile) -> (res: Vec<Finding>)
    ensures
        fviews(res@) == waytypes_required(dat@),
{
    let mut out: Vec<Finding> = Vec::new();
    let a = check_waytype_field(dat, "waytype[0]");
    let ghost av = dviews(a@);
    extend_diags(&mut out, a);
    let b = check_waytype_field(dat, "waytype[1]");
    let ghost bv = dviews(b@);
    extend_diags(&mut out, b);
    assert(as_findings(av + bv) =~= as_findings(av) + as_findings(bv));
    assert(fviews(out@) =~= waytypes_required(dat@));
    out
}

/// crossing_writer.cc: two known waytypes of the same way kind cannot cross
/// ("Identical ways ... cannot cross"), a FATAL ERROR. Missing or unknown
/// waytypes are left to the waytype rule.
pub open spec fn identical_waytypes(d: DatView) -> Seq<FindingView> {
    let w0 = lower(value_of(d, "waytype[0]"@));
    let w1 = lower(value_of(d, "waytype[1]"@));
    if w0.len() == 0 || w1.len() == 0 || !known_waytypes().contains(w0) || !known_waytypes().contains(w1) {
        seq![]
    } else {
        match (waytype_of(lower(w0)), waytype_of(lower(w1))) {
            (Some(r0), Some(r1)) => if r0 == r1 {
                seq![
                    FindingView::Diag(
                        locate(
                            d,
                            diag(Severity::Error, DiagnosticCode::CrossingIdenticalWaytypes, args2(w0, w1)),
                            "waytype[0]"@,
                        ),
                    ),
                ]
            } else {
                seq![]
            },
            _ => seq![],
        }
    }
}

pub fn identical_waytypes_rule(dat: &DatFile) -> (res: Vec<Finding>)
    ensures
        fviews(res@) == identical_waytypes(dat@),
{
    let mut out: Vec<Finding> = Vec::new();
    let w0 = dat.get_lower("waytype[0]");
    let w1 = dat.get_lower("waytype[1]");
    if w0.as_str().is_empty() || w1.as_str().is_empty() || !is_known_waytype(w0.as_str()) || !is_known_waytype(
        w1.as_str(),
    ) {
        assert(fviews(out@) =~= identical_waytypes(dat@));
        return out;
    }
    match (resolve_waytype(w0.as_str()), resolve_waytype(w1.as_str())) {
        (Some(r0), Some(r1)) => {
            if r0 == r1 {
                let x = Diagnostic::new(Severity::Error, DiagnosticCode::CrossingIdenticalWaytypes, vec2(w0, w1));
                push_diag(&mut out, locate_at(dat, x, "waytype[0]"));
            }
        },
        _ => {},
    }
    assert(fviews(out@) =~= identical_waytypes(dat@));
    out
}

/// crossing_writer.cc: both `speed[0]` and `speed[1]` must be non-zero ("A
/// maxspeed MUST be given for both ways!"), a FATAL ERROR otherwise.
pub open spec fn speed_required(d: DatView) -> Seq<FindingView> {
    if decimal_or(d, "speed[0]"@, 0) == 0 || decimal_or(d, "speed[1]"@, 0) == 0 {
        seq![FindingView::Diag(diag(Severity::Error, DiagnosticCode::CrossingMissingSpeed, seq![]))]
    } else {
        seq![]
    }
}

pub fn speed_required_rule(dat: &DatFile) -> (res: Vec<Finding>)
    ensures
        fviews(res@) == speed_required(dat@),
{
    let mut out: Vec<Finding> = Vec::new();
    let s0 = read_decimal_or(dat, "speed[0]", 0);
    let s1 = read_decimal_or(dat, "speed[1]", 0);
    if s0 == 0 || s1 == 0 {
        push_diag(&mut out, Diagnostic::new(Severity::Error, DiagnosticCode::CrossingMissingSpeed, vec0()));
    }
    assert(fviews(out@) =~= speed_required(dat@));
    out
}

/// `{key}[i]`, `{key}[i+1]`, ... up to the first empty value, each with its
/// value (crossing_writer.cc's `make_list`).
pub open spec fn list_from(d: DatView, key: Seq<char>, i: nat) -> Seq<(Seq<char>, Seq<char>)>
    decreases u64::MAX - i,
{
    if i >= u64::MAX {
        seq![]
    } else {
        let fk = ikey(key + "["@, i, "]"@);
        let v = value_of(d, fk);
        if v.len() == 0 {
            seq![]
        } else {
            seq![(v, fk)] + list_from(d, key, i + 1)
        }
    }
}

/// The values of `{key}[0]`, `{key}[1]`, ... up to the first empty one,
/// with their keys.
pub fn make_list(dat: &DatFile, key: &str) -> (res: Vec<(String, String)>)
    ensures
        res@.map_values(|p: (String, String)| (p.0@, p.1@)) == list_from(dat@, key@, 0),
{
    let mut out: Vec<(String, String)> = Vec::new();
    let mut prefix = owned(key);
    prefix.append("[");
    let mut i: u64 = 0;
    loop
        invariant
            prefix@ == key@ + "["@,
            out@.map_values(|p: (String, String)| (p.0@, p.1@)) + list_from(dat@, key@, i as nat) == list_from(
                dat@,
                key@,
                0,
            ),
        ensures
            out@.map_values(|p: (String, String)| (p.0@, p.1@)) == list_from(dat@, key@, 0),
        decreases u64::MAX - i,
    {
        let ghost before = out@.map_values(|p: (String, String)| (p.0@, p.1@));
        if i == u64::MAX {
            assert(before + list_from(dat@, key@, i as nat) =~= before);
            break;
        }
        let full_key = index_key(prefix.as_str(), i, "]");
        let value = dat.value(full_key.as_str());
        if value.as_str().is_empty() {
            assert(before + list_from(dat@, key@, i as nat) =~= before);
            break;
        }
        let ghost pv = (value@, full_key@);
        out.push((value, full_key));
        assert(out@.map_values(|p: (String, String)| (p.0@, p.1@)) =~= before.push(pv));
        assert(before.push(pv) + list_from(dat@, key@, (i + 1) as nat) =~= before + list_from(dat@, key@, i as nat));
        i = i + 1;
    }
    out
}

/// crossing_writer.cc needs at least one `openimage[ns][...]` and one
/// `openimage[ew][...]` ("Missing images (at least one openimage! ...)"),
/// a FATAL ERROR otherwise; both counts are reported.
pub open spec fn open_image_required(d: DatView) -> Seq<FindingView> {
    let ns = list_from(d, "openimage[ns]"@, 0).len();
    let ew = list_from(d, "openimage[ew]"@, 0).len();
    if ns == 0 || ew == 0 {
        seq![
            FindingView::Diag(
                diag(Severity::Error, DiagnosticCode::CrossingMissingOpenimage, args2(decimal(ns), decimal(ew))),
            ),
        ]
    } else {
        seq![]
    }
}

pub fn open_image_required_rule(dat: &DatFile) -> (res: Vec<Finding>)
    ensures
        fviews(res@) == open_image_required(dat@),
{
    let mut out: Vec<Finding> = Vec::new();
    let ns = make_list(dat, "openimage[ns]");
    let ew = make_list(dat, "openimage[ew]");
    let ns_count = ns.len();
    let ew_count = ew.len();
    if ns_count == 0 || ew_count == 0 {
        push_diag(
            &mut out,
            Diagnostic::new(
                Severity::Error,
                DiagnosticCode::CrossingMissingOpenimage,
                vec2(decimal_string(ns_count as u64), decimal_string(ew_count as u64)),
            ),
        );
    }
    assert(fviews(out@) =~= open_image_required(dat@));
    out
}

/// The list keys whose entries are image references, in crossing_writer.cc's order.
pub open spec fn list_keys() -> Seq<&'static str> {
    seq![
        "openimage[ns]",
        "openimage[ew]",
        "front_openimage[ns]",
        "front_openimage[ew]",
        "closedimage[ns]",
        "closedimage[ew]",
        "front_closedimage[ns]",
        "front_closedimage[ew]",
    ]
}

pub open spec fn list_images(l: Seq<(Seq<char>, Seq<char>)>) -> Seq<FindingView> {
    l.map_values(|p: (Seq<char>, Seq<char>)| image_ref_finding(p.0, p.1))
}

pub open spec fn lists_images(d: DatView, keys: Seq<&'static str>) -> Seq<FindingView>
    decreases keys.len(),
{
    if keys.len() == 0 {
        seq![]
    } else {
        lists_images(d, keys.drop_last()) + list_images(list_from(d, keys.last()@, 0))
    }
}

/// Every entry of every image list is an image reference.
pub open spec fn image_ref(d: DatView) -> Seq<FindingView> {
    lists_images(d, list_keys())
}

fn push_list_images(out: &mut Vec<Finding>, dat: &DatFile, key: &str)
    ensures
        fviews(final(out)@) == fviews(old(out)@) + list_images(list_from(dat@, key@, 0)),
{
    let list = make_list(dat, key);
    let ghost l = list@.map_values(|p: (String, String)| (p.0@, p.1@));
    let ghost start = fviews(out@);
    let mut i: usize = 0;
    while i < list.len()
        invariant
            i <= list@.len(),
            l == list@.map_values(|p: (String, String)| (p.0@, p.1@)),
            fviews(out@) == start + list_images(l.take(i as int)),
        decreases list.len() - i,
    {
        let (v, k) = &list[i];
        assert(l[i as int] == (v@, k@));
        push_image_ref(out, v.as_str(), k.as_str());
        assert(list_images(l.take(i + 1)) =~= list_images(l.take(i as int)).push(image_ref_finding(v@, k@)));
        i = i + 1;
    }
    assert(l.take(list.len() as int) =~= l);
}

pub fn image_ref_rule(dat: &DatFile) -> (res: Vec<Finding>)
    ensures
        fviews(res@) == image_ref(dat@),
{
    let keys: [&'static str; 8] = [
        "openimage[ns]",
        "openimage[ew]",
        "front_openimage[ns]",
        "front_openimage[ew]",
        "closedimage[ns]",
        "closedimage[ew]",
        "front_closedimage[ns]",
        "front_closedimage[ew]",
    ];
    assert(keys@ =~= list_keys());
    let mut out: Vec<Finding> = Vec::new();
    let mut i: usize = 0;
    while i < 8
        invariant
            i <= 8,
            keys@ == list_keys(),
            fviews(out@) == lists_images(dat@, list_keys().take(i as int)),
        decreases 8 - i,
    {
        assert(list_keys().take(i + 1).drop_last() =~= list_keys().take(i as int));
        assert(list_keys().take(i + 1).last() == keys@[i as int]);
        push_list_images(&mut out, dat, keys[i]);
        i = i + 1;
    }
    assert(list_keys().take(8) =~= list_keys());
    out
}

/// crossing_writer.cc:110-114 write the intro and retire date indexes into `uint16`s.
pub open spec fn date_index_overflow(d: DatView) -> Seq<FindingView> {
    intro_retire_overflow(d, 1900)
}

pub fn date_index_overflow_rule(dat: &DatFile) -> (res: Vec<Finding>)
    ensures
        fviews(res@) == date_index_overflow(dat@),
{
    intro_retire_overflow_rule(dat, 1900)
}

/// crossing_writer.cc:87,93 write `speed[0]` and `speed[1]` as `uint16`s.
pub open spec fn narrow_fields_of() -> Seq<(&'static str, i64, u32)> {
    seq![("speed[0]", 0i64, 16u32), ("speed[1]", 0i64, 16u32)]
}

pub open spec fn narrow_int(d: DatView) -> Seq<FindingView> {
    as_findings(narrow_fields(d, narrow_fields_of()))
}

pub fn narrow_int_rule(dat: &DatFile) -> (res: Vec<Finding>)
    ensures
        fviews(res@) == narrow_int(dat@),
{
    let fields: [(&'static str, i64, u32); 2] = [("speed[0]", 0, 16), ("speed[1]", 0, 16)];
    assert(fields@ =~= narrow_fields_of());
    narrow_fields_rule(dat, &fields)
}


/// crossing_writer.cc writes both `speed[0]` and `speed[1]` as `uint16`:
/// the rule warns about each exactly when it is given and its value lies
/// outside `0..=65535`.
pub proof fn law_crossing_speeds_are_uint16(d: DatView)
    ensures
        warns_narrowing(narrow_int(d), "speed[0]"@) <==> (get(d, "speed[0]"@) is Some && !(0 <= get_int(
            d,
            "speed[0]"@,
            0,
        ) <= 65535)),
        warns_narrowing(narrow_int(d), "speed[1]"@) <==> (get(d, "speed[1]"@) is Some && !(0 <= get_int(
            d,
            "speed[1]"@,
            0,
        ) <= 65535)),
{
    lemma_unsigned_ranges();
    reveal_strlit("speed[0]");
    reveal_strlit("speed[1]");
    assert("speed[0]"@[6] == '0' && "speed[1]"@[6] == '1');
    let t = narrow_fields_of();
    lemma_narrow_fields_warns(d, t, "speed[0]"@);
    lemma_narrow_fields_warns(d, t, "speed[1]"@);
    assert(field_overflows(d, t[0], "speed[0]"@) == (get(d, "speed[0]"@) is Some && !(0 <= get_int(
        d,
        "speed[0]"@,
        0,
    ) <= 65535)));
    assert(!field_overflows(d, t[1], "speed[0]"@));
    assert(!field_overflows(d, t[0], "speed[1]"@));
    assert(field_overflows(d, t[1], "speed[1]"@) == (get(d, "speed[1]"@) is Some && !(0 <= get_int(
        d,
        "speed[1]"@,
        0,
    ) <= 65535)));
}


/// crossing_writer.cc stores the intro date (year defaulting to 1900) and the retire date
/// (year defaulting to 2999) as `year*12 + month - 1` in a `uint16`, months
/// defaulting to 1: the rule warns about each exactly when that index
/// leaves `0..=65535`.
pub proof fn law_crossing_date_indexes(d: DatView)
    ensures
        warns_date(date_index_overflow(d), "intro_year"@) <==> !(0 <= get_int(d, "intro_year"@, 1900) * 12 + get_int(
            d,
            "intro_month"@,
            1,
        ) - 1 <= 65535),
        warns_date(date_index_overflow(d), "retire_year"@) <==> !(0 <= get_int(d, "retire_year"@, 2999) * 12
            + get_int(d, "retire_month"@, 1) - 1 <= 65535),
{
    law_intro_retire_dates(d, 1900);
}

} // verus!
