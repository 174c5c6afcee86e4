//! `obj=way` (way_writer.cc): the waytype, the straight image,
//! `clip_below`, the date indexes, the narrowed integers and the name and
//! copyright text.
use vstd::prelude::*;
use crate::common::{warns_date, law_intro_retire_dates, narrow_fields, narrow_fields_rule, get_int,
    warns_narrowing, lemma_unsigned_ranges, lemma_narrow_fields_warns, field_overflows, intro_retire_overflow,
    intro_retire_overflow_rule, waytype_field, check_waytype_field, extend_diags};
use crate::text::{trim, parse_i64, parse_trimmed_i64, owned, signed_decimal, signed_decimal_string};
use crate::dat::{DatFile, DatView, get, value_of};
use crate::diagnostics::{Severity, DiagnosticCode, Diagnostic, Finding, FindingView, diag, args1, vec1, vec0,
    fviews, as_findings, push_diag};
use crate::images::{image_ref_finding, push_image_ref};
use crate::registry::{Rule, rules_findings, run_rules};

verus! {

pub open spec fn all_rules() -> Seq<Rule> {
    seq![
        Rule::WayWaytypeRequired,
        Rule::WayBaseImageRequired,
        Rule::WayClipBelowRange,
        Rule::WayDateIndexOverflow,
        Rule::WayNarrowInt,
        Rule::NameAndCopyright,
    ]
}

/// The rules of `obj=way`, in the order they report.
pub fn all() -> (res: Vec<Rule>)
    ensures
        res@ == all_rules(),
{
    let v = vec![
        Rule::WayWaytypeRequired,
        Rule::WayBaseImageRequired,
        Rule::WayClipBelowRange,
        Rule::WayDateIndexOverflow,
        Rule::WayNarrowInt,
        Rule::NameAndCopyright,
    ];
    assert(v@ =~= all_rules());
    v
}

/// Every finding of the `obj=way` rules.
pub fn check_way(dat: &DatFile) -> (res: Vec<Finding>)
    ensures
        fviews(res@) == rules_findings(all_rules(), dat@),
{
    run_rules(&all(), dat)
}

/// way_writer.cc reads `get_waytype(obj.get("waytype"))` unconditionally.
pub open spec fn waytype_required(d: DatView) -> Seq<FindingView> {
    as_findings(waytype_field(d, "waytype"@))
}

pub fn waytype_required_rule(dat: &DatFile) -> (res: Vec<Finding>)
    ensures
        fviews(res@) == waytype_required(dat@),
{
    let mut out: Vec<Finding> = Vec::new();
    extend_diags(&mut out, check_waytype_field(dat, "waytype"));
    assert(fviews(out@) =~= waytype_required(dat@));
    out
}

/// way_writer.cc:84-96: `image[-][0]` (winter set, season 0) is read first;
/// only when it is empty is `image[-]` read, and only when that is empty too
/// is it a FATAL ERROR. In the branch without winter images `image[-]` is the
/// image actually used, so its file is checked.
pub open spec fn base_image_required(d: DatView) -> Seq<FindingView> {
    let no_season = value_of(d, "image[-]"@);
    let season0 = value_of(d, "image[-][0]"@);
    if no_season.len() == 0 && season0.len() == 0 {
        seq![FindingView::Diag(diag(Severity::Error, DiagnosticCode::MissingBaseImage, seq![]))]
    } else {
        seq![
            FindingView::Diag(
                diag(
                    Severity::Info,
                    DiagnosticCode::BaseImageOk,
                    args1(
                        if season0.len() != 0 {
                            "image[-][0]"@
                        } else {
                            "image[-]"@
                        },
                    ),
                ),
            ),
        ] + if season0.len() == 0 {
            seq![image_ref_finding(no_season, "image[-]"@)]
        } else {
            seq![]
        }
    }
}

pub fn base_image_required_rule(dat: &DatFile) -> (res: Vec<Finding>)
    ensures
        fviews(res@) == base_image_required(dat@),
{
    let no_season = dat.value("image[-]");
    let season0 = dat.value("image[-][0]");
    let mut out: Vec<Finding> = Vec::new();
    if no_season.as_str().is_empty() && season0.as_str().is_empty() {
        push_diag(&mut out, Diagnostic::new(Severity::Error, DiagnosticCode::MissingBaseImage, vec0()));
        assert(fviews(out@) =~= base_image_required(dat@));
        return out;
    }
    let which = if !season0.as_str().is_empty() {
        owned("image[-][0]")
    } else {
        owned("image[-]")
    };
    push_diag(&mut out, Diagnostic::new(Severity::Info, DiagnosticCode::BaseImageOk, vec1(which)));
    if season0.as_str().is_empty() {
        push_image_ref(&mut out, no_season.as_str(), "image[-]");
    }
    assert(fviews(out@) =~= base_image_required(dat@));
    out
}

/// way_writer.cc:42 reads `get_int_clamped("clip_below", 1, 0, 1)`: a value
/// outside `0..=1` draws makeobj's warning and is clamped. A value that does
/// not read as a decimal number is left alone.
pub open spec fn clip_below_range(d: DatView) -> Seq<FindingView> {
    match get(d, "clip_below"@) {
        None => seq![],
        Some(raw) => match parse_i64(trim(raw)) {
            None => seq![],
            Some(v) => if 0 <= v && v <= 1 {
                seq![]
            } else {
                seq![
                    FindingView::Diag(
                        diag(Severity::Warning, DiagnosticCode::ClipBelowOutOfRange, args1(signed_decimal(v as int))),
                    ),
                ]
            },
        },
    }
}

pub fn clip_below_range_rule(dat: &DatFile) -> (res: Vec<Finding>)
    ensures
        fviews(res@) == clip_below_range(dat@),
{
    let mut out: Vec<Finding> = Vec::new();
    match dat.get("clip_below") {
        None => {},
        Some(raw) => match parse_trimmed_i64(raw) {
            None => {},
            Some(v) => {
                if !(0 <= v && v <= 1) {
                    push_diag(
                        &mut out,
                        Diagnostic::new(
                            Severity::Warning,
                            DiagnosticCode::ClipBelowOutOfRange,
                            vec1(signed_decimal_string(v as i128)),
                        ),
                    );
                }
            },
        },
    }
    assert(fviews(out@) =~= clip_below_range(dat@));
    out
}

/// way_writer.cc:45-49 write the intro and retire date indexes into `uint16`s.
pub open spec fn date_index_overflow(d: DatView) -> Seq<FindingView> {
    intro_retire_overflow(d, 1900)
}

pub fn date_index_overflow_rule(dat: &DatFile) -> (res: Vec<Finding>)
    ensures
        fviews(res@) == date_index_overflow(dat@),
{
    intro_retire_overflow_rule(dat, 1900)
}

/// way_writer.cc:41,52 write `axle_load` (default 9999) as a `uint16` and
/// `system_type` as a `uint8`.
pub open spec fn narrow_fields_of() -> Seq<(&'static str, i64, u32)> {
    seq![("axle_load", 9999i64, 16u32), ("system_type", 0i64, 8u32)]
}

pub open spec fn narrow_int(d: DatView) -> Seq<FindingView> {
    as_findings(narrow_fields(d, narrow_fields_of()))
}

pub fn narrow_int_rule(dat: &DatFile) -> (res: Vec<Finding>)
    ensures
        fviews(res@) == narrow_int(dat@),
{
    let fields: [(&'static str, i64, u32); 2] = [("axle_load", 9999, 16), ("system_type", 0, 8)];
    assert(fields@ =~= narrow_fields_of());
    narrow_fields_rule(dat, &fields)
}


/// way_writer.cc writes `axle_load` (default 9999) as a `uint16` and
/// `system_type` as a `uint8`: the rule warns about each exactly when it is
/// given and its value lies outside that type's range.
pub proof fn law_way_narrowed_fields(d: DatView)
    ensures
        warns_narrowing(narrow_int(d), "axle_load"@) <==> (get(d, "axle_load"@) is Some && !(0 <= get_int(
            d,
            "axle_load"@,
            9999,
        ) <= 65535)),
        warns_narrowing(narrow_int(d), "system_type"@) <==> (get(d, "system_type"@) is Some && !(0 <= get_int(
            d,
            "system_type"@,
            0,
        ) <= 255)),
{
    lemma_unsigned_ranges();
    reveal_strlit("axle_load");
    reveal_strlit("system_type");
    assert("axle_load"@[0] == 'a' && "system_type"@[0] == 's');
    let t = narrow_fields_of();
    lemma_narrow_fields_warns(d, t, "axle_load"@);
    lemma_narrow_fields_warns(d, t, "system_type"@);
    assert(field_overflows(d, t[0], "axle_load"@) == (get(d, "axle_load"@) is Some && !(0 <= get_int(
        d,
        "axle_load"@,
        9999,
    ) <= 65535)));
    assert(!field_overflows(d, t[1], "axle_load"@));
    assert(!field_overflows(d, t[0], "system_type"@));
    assert(field_overflows(d, t[1], "system_type"@) == (get(d, "system_type"@) is Some && !(0 <= get_int(
        d,
        "system_type"@,
        0,
    ) <= 255)));
}


/// way_writer.cc stores the intro date (year defaulting to 1900) and the retire date
/// (year defaulting to 2999) as `year*12 + month - 1` in a `uint16`, months
/// defaulting to 1: the rule warns about each exactly when that index
/// leaves `0..=65535`.
pub proof fn law_way_date_indexes(d: DatView)
    ensures
        warns_date(date_index_overflow(d), "intro_year"@) <==> !(0 <= get_int(d, "intro_year"@, 1900) * 12 + get_int(
            d,
            "intro_month"@,
            1,
        ) - 1 <= 65535),
        warns_date(date_index_overflow(d), "retire_year"@) <==> !(0 <= get_int(d, "retire_year"@, 2999) * 12
            + get_int(d, "retire_month"@, 1) - 1 <= 65535),
{
    law_intro_retire_dates(d, 1900);
}


/// makeobj accepts `clip_below` of 0 or 1 alone: the rule gives exactly one
/// warning for any other decimal value and nothing for 0, 1, an absent key
/// or a value that is not decimal.
pub proof fn law_clip_below_zero_or_one(d: DatView)
    ensures
        clip_below_range(d).len() <= 1,
        clip_below_range(d).len() == 1 <==> (get(d, "clip_below"@) matches Some(raw) && parse_i64(trim(raw)) matches Some(
            v,
        ) && v != 0 && v != 1),
{
}


/// way_writer.cc needs a straight image: with neither `image[-][0]` nor
/// `image[-]` given it is exactly the missing-image error; with
/// `image[-][0]` given that one is noted and `image[-]` is not read; with
/// only `image[-]` given it is noted and referenced.
pub proof fn law_way_base_image(d: DatView)
    ensures
        value_of(d, "image[-][0]"@).len() == 0 && value_of(d, "image[-]"@).len() == 0 ==> base_image_required(d)
            == seq![FindingView::Diag(diag(Severity::Error, DiagnosticCode::MissingBaseImage, seq![]))],
        value_of(d, "image[-][0]"@).len() != 0 ==> base_image_required(d) == seq![
            FindingView::Diag(diag(Severity::Info, DiagnosticCode::BaseImageOk, seq!["image[-][0]"@])),
        ],
        value_of(d, "image[-][0]"@).len() == 0 && value_of(d, "image[-]"@).len() != 0 ==> base_image_required(d)
            == seq![
            FindingView::Diag(diag(Severity::Info, DiagnosticCode::BaseImageOk, seq!["image[-]"@])),
            image_ref_finding(value_of(d, "image[-]"@), "image[-]"@),
        ],
{
    let a = seq![FindingView::Diag(diag(Severity::Info, DiagnosticCode::BaseImageOk, seq!["image[-]"@]))];
    assert(a + seq![image_ref_finding(value_of(d, "image[-]"@), "image[-]"@)] =~= seq![
        FindingView::Diag(diag(Severity::Info, DiagnosticCode::BaseImageOk, seq!["image[-]"@])),
        image_ref_finding(value_of(d, "image[-]"@), "image[-]"@),
    ]);
}

} // verus!
