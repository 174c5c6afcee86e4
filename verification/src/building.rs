//! `obj=building` (building_writer.cc): the `type`/`waytype` pair, obsolete
//! keywords, the footprint and build tool (see `house`), date indexes,
//! flag-style fields, the name and copyright text and integers written
//! narrower than they are read.
use vstd::prelude::*;
use crate::text::{lower, trim, parse_i64, parse_trimmed_i64, str_in, str_eq, views, owned, decimal, decimal_string,
    signed_decimal, signed_decimal_string};
use crate::dat::{DatFile, DatView, get, value_of};
use crate::diagnostics::{Severity, DiagnosticCode, Diagnostic, DiagView, Finding, FindingView, diag, args1, args2,
    vec0, vec1, vec2, string_views, fviews, dviews, as_findings, push_diag};
use crate::common::{known_waytypes, is_known_waytype, locate, locate_at, date_index_overflow,
    check_date_index_overflow_field, narrow_int_overflow, check_narrow_int_overflow_field, diags_as_findings,
    extend_diags, get_int, warns_narrowing, lemma_unsigned_ranges, lemma_narrowing_of_key, warns_date,
    lemma_date_of_key, lemma_date_concat};
use crate::registry::{Rule, rules_findings, run_rules};

verus! {

/// The `type=` values that building_writer.cc's if-else chain accepts
/// (case-insensitively); `""` (no type) is accepted like `any`.
pub const KNOWN_TYPES: [&'static str; 16] = [
    "res",
    "com",
    "ind",
    "cur",
    "mon",
    "tow",
    "hq",
    "habour",
    "harbour",
    "dock",
    "fac",
    "stop",
    "extension",
    "depot",
    "any",
    "",
];

/// The obsolete `type=` values that building_writer.cc recognizes and
/// rejects with a FATAL ERROR.
pub const OBSOLETE_TYPES: [&'static str; 10] = [
    "station",
    "railstop",
    "monorailstop",
    "busstop",
    "carstop",
    "airport",
    "wharf",
    "hall",
    "post",
    "shed",
];

/// The flag fields that building_writer.cc reads as `get_int(key, 0) > 0`.
pub const BOOLEAN_STYLE_FIELDS: [&'static str; 6] = [
    "noinfo",
    "noconstruction",
    "needs_ground",
    "enables_pax",
    "enables_post",
    "enables_ware",
];

pub open spec fn known_types() -> Seq<Seq<char>> {
    views(KNOWN_TYPES@)
}

pub open spec fn obsolete_types() -> Seq<Seq<char>> {
    views(OBSOLETE_TYPES@)
}

pub open spec fn all_rules() -> Seq<Rule> {
    seq![
        Rule::BuildingPreludeDebug,
        Rule::BuildingTypeWaytype,
        Rule::BuildingObsoleteKeyword,
        Rule::ZeroSize,
        Rule::BuildingCursorIcon,
        Rule::BuildingDateIndexOverflow,
        Rule::BuildingBooleanStyleField,
        Rule::NameAndCopyright,
        Rule::BuildingCapacityNarrowInt,
        Rule::BuildingChanceNarrowInt,
        Rule::BuildingAnimationTimeNarrowInt,
        Rule::BuildingAllowUndergroundNarrowInt,
        Rule::BuildingLevelNarrowInt,
    ]
}

/// The rules of `obj=building`, in the order they report.
pub fn all() -> (res: Vec<Rule>)
    ensures
        res@ == all_rules(),
{
    let v = vec![
        Rule::BuildingPreludeDebug,
        Rule::BuildingTypeWaytype,
        Rule::BuildingObsoleteKeyword,
        Rule::ZeroSize,
        Rule::BuildingCursorIcon,
        Rule::BuildingDateIndexOverflow,
        Rule::BuildingBooleanStyleField,
        Rule::NameAndCopyright,
        Rule::BuildingCapacityNarrowInt,
        Rule::BuildingChanceNarrowInt,
        Rule::BuildingAnimationTimeNarrowInt,
        Rule::BuildingAllowUndergroundNarrowInt,
        Rule::BuildingLevelNarrowInt,
    ];
    assert(v@ =~= all_rules());
    v
}

/// Every finding of the `obj=building` rules.
pub fn check_building(dat: &DatFile) -> (res: Vec<Finding>)
    ensures
        fviews(res@) == rules_findings(all_rules(), dat@),
{
    run_rules(&all(), dat)
}

fn in_list(s: &str, list: &[&'static str], Ghost(spec_list): Ghost<Seq<Seq<char>>>) -> (res: bool)
    requires
        spec_list == views(list@),
    ensures
        res == spec_list.contains(s@),
{
    let r = str_in(s, list);
    proof {
        if r {
            let i = choose|i: int| 0 <= i < list@.len() && list@[i]@ == s@;
            assert(spec_list[i] == s@);
        } else if spec_list.contains(s@) {
            let i = choose|i: int| 0 <= i < spec_list.len() && spec_list[i] == s@;
            assert(list@[i]@ == s@);
        }
    }
    r
}

/// The number of pairs read and the raw type/waytype, for tracing.
pub open spec fn prelude_debug(d: DatView) -> Seq<FindingView> {
    seq![
        FindingView::Diag(diag(Severity::Debug, DiagnosticCode::ParsedPairs, args1(decimal(d.pairs.len())))),
        FindingView::Diag(
            diag(
                Severity::Debug,
                DiagnosticCode::RawTypeWaytype,
                args2(lower(value_of(d, "type"@)), lower(value_of(d, "waytype"@))),
            ),
        ),
    ]
}

pub fn prelude_debug_rule(dat: &DatFile) -> (res: Vec<Finding>)
    ensures
        fviews(res@) == prelude_debug(dat@),
{
    let mut out: Vec<Finding> = Vec::new();
    let n = dat.pairs.len();
    push_diag(
        &mut out,
        Diagnostic::new(Severity::Debug, DiagnosticCode::ParsedPairs, vec1(decimal_string(n as u64))),
    );
    push_diag(
        &mut out,
        Diagnostic::new(
            Severity::Debug,
            DiagnosticCode::RawTypeWaytype,
            vec2(dat.get_lower("type"), dat.get_lower("waytype")),
        ),
    );
    assert(fviews(out@) =~= prelude_debug(dat@));
    out
}

/// building_writer.cc:119-201 and the waytype a type needs: an obsolete
/// type, an unknown type, a `stop`/`depot` without or with an unknown
/// waytype are FATAL ERRORs; `extension` without a waytype is a generic
/// extension (warned), with an unknown one a FATAL ERROR. Findings about a
/// present value point at its line.
pub open spec fn type_and_waytype(d: DatView, t: Seq<char>, w: Seq<char>) -> Seq<DiagView> {
    if obsolete_types().contains(t) {
        seq![locate(d, diag(Severity::Error, DiagnosticCode::ObsoleteType, args1(t)), "type"@)]
    } else if !known_types().contains(t) {
        seq![locate(d, diag(Severity::Error, DiagnosticCode::UnknownType, args1(t)), "type"@)]
    } else if t == "stop"@ || t == "depot"@ {
        if w.len() == 0 {
            seq![diag(Severity::Error, DiagnosticCode::MissingWaytype, args2("waytype"@, t))]
        } else if !known_waytypes().contains(w) {
            seq![locate(d, diag(Severity::Error, DiagnosticCode::UnknownWaytype, args2("waytype"@, w)), "waytype"@)]
        } else {
            seq![diag(Severity::Info, DiagnosticCode::TypeWaytypeOk, args2(t, w))]
        }
    } else if t == "extension"@ {
        if w.len() == 0 {
            seq![diag(Severity::Warning, DiagnosticCode::GenericExtension, seq![])]
        } else if !known_waytypes().contains(w) {
            seq![locate(d, diag(Severity::Error, DiagnosticCode::UnknownWaytype, args2("waytype"@, w)), "waytype"@)]
        } else {
            seq![diag(Severity::Info, DiagnosticCode::TypeWaytypeOk, args2(t, w))]
        }
    } else {
        seq![diag(Severity::Info, DiagnosticCode::TypeWaytypeOk, args1(t))]
    }
}

/// Checks the (lowered) type and waytype of a building.
pub fn check_type_and_waytype(dat: &DatFile, kind: &str, waytype: &str) -> (res: Vec<Diagnostic>)
    ensures
        dviews(res@) == type_and_waytype(dat@, kind@, waytype@),
{
    let mut out: Vec<Diagnostic> = Vec::new();
    if in_list(kind, &OBSOLETE_TYPES, Ghost(obsolete_types())) {
        let d = Diagnostic::new(Severity::Error, DiagnosticCode::ObsoleteType, vec1(owned(kind)));
        out.push(locate_at(dat, d, "type"));
    } else if !in_list(kind, &KNOWN_TYPES, Ghost(known_types())) {
        let d = Diagnostic::new(Severity::Error, DiagnosticCode::UnknownType, vec1(owned(kind)));
        out.push(locate_at(dat, d, "type"));
    } else if str_eq(kind, "stop") || str_eq(kind, "depot") {
        if waytype.is_empty() {
            out.push(
                Diagnostic::new(Severity::Error, DiagnosticCode::MissingWaytype, vec2(owned("waytype"), owned(kind))),
            );
        } else if !is_known_waytype(waytype) {
            let d = Diagnostic::new(Severity::Error, DiagnosticCode::UnknownWaytype, vec2(owned("waytype"), owned(waytype)));
            out.push(locate_at(dat, d, "waytype"));
        } else {
            out.push(
                Diagnostic::new(Severity::Info, DiagnosticCode::TypeWaytypeOk, vec2(owned(kind), owned(waytype))),
            );
        }
    } else if str_eq(kind, "extension") {
        if waytype.is_empty() {
            out.push(Diagnostic::new(Severity::Warning, DiagnosticCode::GenericExtension, vec0()));
        } else if !is_known_waytype(waytype) {
            let d = Diagnostic::new(Severity::Error, DiagnosticCode::UnknownWaytype, vec2(owned("waytype"), owned(waytype)));
            out.push(locate_at(dat, d, "waytype"));
        } else {
            out.push(
                Diagnostic::new(Severity::Info, DiagnosticCode::TypeWaytypeOk, vec2(owned(kind), owned(waytype))),
            );
        }
    } else {
        out.push(Diagnostic::new(Severity::Info, DiagnosticCode::TypeWaytypeOk, vec1(owned(kind))));
    }
    assert(dviews(out@) =~= type_and_waytype(dat@, kind@, waytype@));
    out
}

/// The type/waytype check on the lowered values of the definition.
pub open spec fn type_waytype(d: DatView) -> Seq<FindingView> {
    as_findings(type_and_waytype(d, lower(value_of(d, "type"@)), lower(value_of(d, "waytype"@))))
}

pub fn type_waytype_rule(dat: &DatFile) -> (res: Vec<Finding>)
    ensures
        fviews(res@) == type_waytype(dat@),
{
    let t = dat.get_lower("type");
    let w = dat.get_lower("waytype");
    diags_as_findings(check_type_and_waytype(dat, t.as_str(), w.as_str()))
}

/// building_writer.cc:203-205: `extension_building` is only fatal when its
/// `get_int` value is greater than 0 (a value that is not decimal counts as 0).
pub open spec fn obsolete_keyword(d: DatView) -> Seq<FindingView> {
    match get(d, "extension_building"@) {
        None => seq![],
        Some(raw) => {
            let v = match parse_i64(trim(raw)) {
                Some(n) => n,
                None => 0,
            };
            if v <= 0 {
                seq![]
            } else {
                seq![
                    FindingView::Diag(
                        locate(d, diag(Severity::Error, DiagnosticCode::ObsoleteKeyword, seq![]), "extension_building"@),
                    ),
                ]
            }
        },
    }
}

pub fn obsolete_keyword_rule(dat: &DatFile) -> (res: Vec<Finding>)
    ensures
        fviews(res@) == obsolete_keyword(dat@),
{
    let mut out: Vec<Finding> = Vec::new();
    match dat.get("extension_building") {
        None => {},
        Some(raw) => {
            let v = match parse_trimmed_i64(raw) {
                Some(n) => n,
                None => 0,
            };
            if v > 0 {
                let d = Diagnostic::new(Severity::Error, DiagnosticCode::ObsoleteKeyword, vec0());
                push_diag(&mut out, locate_at(dat, d, "extension_building"));
            }
        },
    }
    assert(fviews(out@) =~= obsolete_keyword(dat@));
    out
}

/// building_writer.cc:227-236: intro, retire and preservation date indexes.
pub open spec fn date_index(d: DatView) -> Seq<FindingView> {
    as_findings(
        date_index_overflow(d, "intro_year"@, 1900, "intro_month"@) + date_index_overflow(
            d,
            "retire_year"@,
            2999,
            "retire_month"@,
        ) + date_index_overflow(d, "preservation_year"@, 2999, "preservation_month"@),
    )
}

pub fn date_index_rule(dat: &DatFile) -> (res: Vec<Finding>)
    ensures
        fviews(res@) == date_index(dat@),
{
    let mut all: Vec<Diagnostic> = Vec::new();
    let mut a = check_date_index_overflow_field(dat, "intro_year", 1900, "intro_month");
    let mut b = check_date_index_overflow_field(dat, "retire_year", 2999, "retire_month");
    let mut c = check_date_index_overflow_field(dat, "preservation_year", 2999, "preservation_month");
    let ghost av = dviews(a@);
    let ghost bv = dviews(b@);
    let ghost cv = dviews(c@);
    all.append(&mut a);
    all.append(&mut b);
    all.append(&mut c);
    assert(dviews(all@) =~= av + bv + cv);
    diags_as_findings(all)
}

/// A flag field whose decimal value is neither 0 nor 1 (it acts like 1):
/// a style warning at its line.
pub open spec fn boolean_style_warning(d: DatView, key: Seq<char>) -> Seq<DiagView> {
    match get(d, key) {
        None => seq![],
        Some(raw) => match parse_i64(trim(raw)) {
            None => seq![],
            Some(v) => if v != 0 && v != 1 {
                seq![
                    locate(
                        d,
                        diag(
                            Severity::Warning,
                            DiagnosticCode::BooleanStyleFieldNotZeroOrOne,
                            args2(key, signed_decimal(v as int)),
                        ),
                        key,
                    ),
                ]
            } else {
                seq![]
            },
        },
    }
}

pub open spec fn boolean_style_warnings(d: DatView, keys: Seq<&'static str>) -> Seq<DiagView>
    decreases keys.len(),
{
    if keys.len() == 0 {
        seq![]
    } else {
        boolean_style_warnings(d, keys.drop_last()) + boolean_style_warning(d, keys.last()@)
    }
}

/// building_writer.cc:112-114,207,210,213 read the flag fields as
/// `get_int(key, 0) > 0`.
pub open spec fn boolean_style_field(d: DatView) -> Seq<FindingView> {
    as_findings(boolean_style_warnings(d, BOOLEAN_STYLE_FIELDS@))
}

fn boolean_style_warning_exec(dat: &DatFile, key: &str) -> (res: Vec<Diagnostic>)
    ensures
        dviews(res@) == boolean_style_warning(dat@, key@),
{
    let mut out: Vec<Diagnostic> = Vec::new();
    match dat.get(key) {
        None => {},
        Some(raw) => match parse_trimmed_i64(raw) {
            None => {},
            Some(v) => {
                if v != 0 && v != 1 {
                    let d = Diagnostic::new(
                        Severity::Warning,
                        DiagnosticCode::BooleanStyleFieldNotZeroOrOne,
                        vec2(owned(key), signed_decimal_string(v as i128)),
                    );
                    out.push(locate_at(dat, d, key));
                }
            },
        },
    }
    assert(dviews(out@) =~= boolean_style_warning(dat@, key@));
    out
}

pub fn boolean_style_field_rule(dat: &DatFile) -> (res: Vec<Finding>)
    ensures
        fviews(res@) == boolean_style_field(dat@),
{
    let mut all: Vec<Diagnostic> = Vec::new();
    let mut i: usize = 0;
    while i < 6
        invariant
            i <= 6,
            dviews(all@) == boolean_style_warnings(dat@, BOOLEAN_STYLE_FIELDS@.take(i as int)),
        decreases 6 - i,
    {
        assert(BOOLEAN_STYLE_FIELDS@.take(i + 1).drop_last() =~= BOOLEAN_STYLE_FIELDS@.take(i as int));
        let mut more = boolean_style_warning_exec(dat, BOOLEAN_STYLE_FIELDS[i]);
        let ghost before = dviews(all@);
        let ghost m = dviews(more@);
        all.append(&mut more);
        assert(dviews(all@) =~= before + m);
        i = i + 1;
    }
    assert(BOOLEAN_STYLE_FIELDS@.take(6) =~= BOOLEAN_STYLE_FIELDS@);
    diags_as_findings(all)
}

/// building_writer.cc:244,365: `capacity` is written as a `uint16`.
pub open spec fn capacity_narrow_int(d: DatView) -> Seq<FindingView> {
    as_findings(narrow_int_overflow(d, "capacity"@, 0, 16, false))
}

pub fn capacity_narrow_int_rule(dat: &DatFile) -> (res: Vec<Finding>)
    ensures
        fviews(res@) == capacity_narrow_int(dat@),
{
    diags_as_findings(check_narrow_int_overflow_field(dat, "capacity", 0, 16, false))
}

/// building_writer.cc:223,361: `chance` (default 100) is a `uint8`.
pub open spec fn chance_narrow_int(d: DatView) -> Seq<FindingView> {
    as_findings(narrow_int_overflow(d, "chance"@, 100, 8, false))
}

pub fn chance_narrow_int_rule(dat: &DatFile) -> (res: Vec<Finding>)
    ensures
        fviews(res@) == chance_narrow_int(dat@),
{
    diags_as_findings(check_narrow_int_overflow_field(dat, "chance", 100, 8, false))
}

/// building_writer.cc:116,364: `animation_time` (default 300) is a `uint16`.
pub open spec fn animation_time_narrow_int(d: DatView) -> Seq<FindingView> {
    as_findings(narrow_int_overflow(d, "animation_time"@, 300, 16, false))
}

pub fn animation_time_narrow_int_rule(dat: &DatFile) -> (res: Vec<Finding>)
    ensures
        fviews(res@) == animation_time_narrow_int(dat@),
{
    diags_as_findings(check_narrow_int_overflow_field(dat, "animation_time", 300, 16, false))
}

/// building_writer.cc:259,368: `allow_underground` (default 2) is a `uint8`.
pub open spec fn allow_underground_narrow_int(d: DatView) -> Seq<FindingView> {
    as_findings(narrow_int_overflow(d, "allow_underground"@, 2, 8, false))
}

pub fn allow_underground_narrow_int_rule(dat: &DatFile) -> (res: Vec<Finding>)
    ensures
        fviews(res@) == allow_underground_narrow_int(dat@),
{
    diags_as_findings(check_narrow_int_overflow_field(dat, "allow_underground", 2, 8, false))
}

/// building_writer.cc:102: `uint16 level = obj.get_int("level", 1) - 1`: a
/// given `level` whose decimal value (0 where it is not decimal) minus one
/// leaves `0..=65535` wraps (e.g. `level=0` becomes 65535).
pub open spec fn level_narrow_int(d: DatView) -> Seq<FindingView> {
    match get(d, "level"@) {
        None => seq![],
        Some(raw) => {
            let level_raw = match parse_i64(trim(raw)) {
                Some(n) => n as int,
                None => 0,
            };
            let value = level_raw - 1;
            if 0 <= value && value <= 65535 {
                seq![]
            } else {
                seq![
                    FindingView::Diag(
                        locate(
                            d,
                            diag(
                                Severity::Warning,
                                DiagnosticCode::NarrowIntOverflow,
                                seq!["level"@, signed_decimal(value), "0"@, "65535"@, signed_decimal(level_raw)],
                            ),
                            "level"@,
                        ),
                    ),
                ]
            }
        },
    }
}

pub fn level_narrow_int_rule(dat: &DatFile) -> (res: Vec<Finding>)
    ensures
        fviews(res@) == level_narrow_int(dat@),
{
    let mut out: Vec<Finding> = Vec::new();
    match dat.get("level") {
        None => {},
        Some(raw) => {
            let level_raw: i64 = match parse_trimmed_i64(raw) {
                Some(n) => n,
                None => 0,
            };
            let value: i128 = level_raw as i128 - 1;
            if !(0 <= value && value <= 65535) {
                let mut args: Vec<String> = Vec::new();
                args.push(owned("level"));
                args.push(signed_decimal_string(value));
                args.push(owned("0"));
                args.push(owned("65535"));
                args.push(signed_decimal_string(level_raw as i128));
                assert(string_views(args@) =~= seq!["level"@, signed_decimal(value as int), "0"@, "65535"@,
                    signed_decimal(level_raw as int)]);
                let d = Diagnostic::new(Severity::Warning, DiagnosticCode::NarrowIntOverflow, args);
                push_diag(&mut out, locate_at(dat, d, "level"));
            }
        },
    }
    assert(fviews(out@) =~= level_narrow_int(dat@));
    out
}

proof fn lemma_stop_depot_known(t: Seq<char>)
    requires
        t == "stop"@ || t == "depot"@,
    ensures
        !obsolete_types().contains(t),
        known_types().contains(t),
{
    reveal_strlit("station");
    reveal_strlit("railstop");
    reveal_strlit("monorailstop");
    reveal_strlit("busstop");
    reveal_strlit("carstop");
    reveal_strlit("airport");
    reveal_strlit("wharf");
    reveal_strlit("hall");
    reveal_strlit("post");
    reveal_strlit("shed");
    reveal_strlit("stop");
    reveal_strlit("depot");
    assert("station"@.len() == 7 && "station"@[0] == 's' && "station"@[1] == 't' && "railstop"@.len() == 8 && "railstop"@[0] == 'r' && "railstop"@[1] == 'a' && "monorailstop"@.len() == 12 && "monorailstop"@[0] == 'm' && "monorailstop"@[1] == 'o' && "busstop"@.len() == 7 && "busstop"@[0] == 'b' && "busstop"@[1] == 'u' && "carstop"@.len() == 7 && "carstop"@[0] == 'c' && "carstop"@[1] == 'a' && "airport"@.len() == 7 && "airport"@[0] == 'a' && "airport"@[1] == 'i' && "wharf"@.len() == 5 && "wharf"@[0] == 'w' && "wharf"@[1] == 'h' && "hall"@.len() == 4 && "hall"@[0] == 'h' && "hall"@[1] == 'a' && "post"@.len() == 4 && "post"@[0] == 'p' && "post"@[1] == 'o' && "shed"@.len() == 4 && "shed"@[0] == 's' && "shed"@[1] == 'h' && "stop"@.len() == 4 && "stop"@[0] == 's' && "stop"@[1] == 't' && "depot"@.len() == 5 && "depot"@[0] == 'd' && "depot"@[1] == 'e');
    assert forall|k: int| 0 <= k < obsolete_types().len() implies #[trigger] obsolete_types()[k] != t by {
        assert(obsolete_types()[k] == OBSOLETE_TYPES@[k]@);
    }
    if t == "stop"@ {
        assert(known_types()[11] == t);
    } else {
        assert(known_types()[13] == t);
    }
}

/// building_writer.cc needs a waytype for a station stop and for a depot
/// alike: without one the type/waytype check is exactly the
/// missing-waytype error naming the type; with an unknown one it is exactly
/// an unknown-waytype error; with a known one it is noted.
pub proof fn law_stop_and_depot_need_a_waytype(d: DatView, t: Seq<char>, w: Seq<char>)
    requires
        t == "stop"@ || t == "depot"@,
    ensures
        w.len() == 0 ==> type_and_waytype(d, t, w) == seq![
            diag(Severity::Error, DiagnosticCode::MissingWaytype, seq!["waytype"@, t]),
        ],
        w.len() != 0 && !known_waytypes().contains(w) ==> type_and_waytype(d, t, w).len() == 1 && type_and_waytype(
            d,
            t,
            w,
        )[0].severity == Severity::Error && type_and_waytype(d, t, w)[0].code == DiagnosticCode::UnknownWaytype,
        w.len() != 0 && known_waytypes().contains(w) ==> type_and_waytype(d, t, w) == seq![
            diag(Severity::Info, DiagnosticCode::TypeWaytypeOk, seq![t, w]),
        ],
{
    lemma_stop_depot_known(t);
}


/// building_writer.cc writes `capacity` and `animation_time` as `uint16`
/// and `chance` and `allow_underground` as `uint8`: each rule warns about
/// its field exactly when it is given and its value lies outside that
/// type's range.
pub proof fn law_building_narrowed_fields(d: DatView)
    ensures
        warns_narrowing(capacity_narrow_int(d), "capacity"@) <==> (get(d, "capacity"@) is Some && !(0 <= get_int(
            d,
            "capacity"@,
            0,
        ) <= 65535)),
        warns_narrowing(chance_narrow_int(d), "chance"@) <==> (get(d, "chance"@) is Some && !(0 <= get_int(
            d,
            "chance"@,
            100,
        ) <= 255)),
        warns_narrowing(animation_time_narrow_int(d), "animation_time"@) <==> (get(d, "animation_time"@) is Some
            && !(0 <= get_int(d, "animation_time"@, 300) <= 65535)),
        warns_narrowing(allow_underground_narrow_int(d), "allow_underground"@) <==> (get(d, "allow_underground"@) is Some
            && !(0 <= get_int(d, "allow_underground"@, 2) <= 255)),
{
    lemma_unsigned_ranges();
    lemma_narrowing_of_key(d, "capacity"@, 0, 16, false, "capacity"@);
    lemma_narrowing_of_key(d, "chance"@, 100, 8, false, "chance"@);
    lemma_narrowing_of_key(d, "animation_time"@, 300, 16, false, "animation_time"@);
    lemma_narrowing_of_key(d, "allow_underground"@, 2, 8, false, "allow_underground"@);
}


proof fn lemma_building_dates(d: DatView, key: Seq<char>)
    ensures
        warns_date(date_index(d), key) <==> (key == "intro_year"@ && !(0 <= get_int(d, key, 1900) * 12 + get_int(
            d,
            "intro_month"@,
            1,
        ) - 1 <= 65535)) || (key == "retire_year"@ && !(0 <= get_int(d, key, 2999) * 12 + get_int(
            d,
            "retire_month"@,
            1,
        ) - 1 <= 65535)) || (key == "preservation_year"@ && !(0 <= get_int(d, key, 2999) * 12 + get_int(
            d,
            "preservation_month"@,
            1,
        ) - 1 <= 65535)),
{
    let intro = "intro_year"@;
    let retire = "retire_year"@;
    let preservation = "preservation_year"@;
    let a = date_index_overflow(d, intro, 1900, "intro_month"@);
    let b = date_index_overflow(d, retire, 2999, "retire_month"@);
    let c = date_index_overflow(d, preservation, 2999, "preservation_month"@);
    lemma_date_concat(a + b, c, key);
    lemma_date_concat(a, b, key);
    lemma_date_of_key(d, intro, 1900, "intro_month"@, key);
    lemma_date_of_key(d, retire, 2999, "retire_month"@, key);
    lemma_date_of_key(d, preservation, 2999, "preservation_month"@, key);
}

/// building_writer.cc stores the intro date (year defaulting to 1900), the
/// retire date and the preservation date (years defaulting to 2999) as
/// `year*12 + month - 1` in a `uint16`, months defaulting to 1: the rule
/// warns about each exactly when that index leaves `0..=65535`.
pub proof fn law_building_date_indexes(d: DatView)
    ensures
        warns_date(date_index(d), "intro_year"@) <==> !(0 <= get_int(d, "intro_year"@, 1900) * 12 + get_int(
            d,
            "intro_month"@,
            1,
        ) - 1 <= 65535),
        warns_date(date_index(d), "retire_year"@) <==> !(0 <= get_int(d, "retire_year"@, 2999) * 12 + get_int(
            d,
            "retire_month"@,
            1,
        ) - 1 <= 65535),
        warns_date(date_index(d), "preservation_year"@) <==> !(0 <= get_int(d, "preservation_year"@, 2999) * 12
            + get_int(d, "preservation_month"@, 1) - 1 <= 65535),
{
    reveal_strlit("intro_year");
    reveal_strlit("retire_year");
    reveal_strlit("preservation_year");
    assert("intro_year"@[0] == 'i' && "retire_year"@[0] == 'r' && "preservation_year"@[0] == 'p');
    lemma_building_dates(d, "intro_year"@);
    lemma_building_dates(d, "retire_year"@);
    lemma_building_dates(d, "preservation_year"@);
}


/// building_writer.cc stores `level - 1` (level defaulting to 1) in a
/// `uint16`: a given `level` is warned about exactly when its decimal value
/// (0 where it is not decimal) lies outside `1..=65536`, so `level=0` is
/// warned about and `level=1` is not.
pub proof fn law_building_level(d: DatView)
    ensures
        level_narrow_int(d).len() <= 1,
        level_narrow_int(d).len() == 1 <==> (get(d, "level"@) matches Some(raw) && !(1 <= (match parse_i64(
            trim(raw),
        ) {
            Some(n) => n as int,
            None => 0,
        }) <= 65536)),
{
}


/// building_writer.cc accepts exactly the types `res`, `com`, `ind`, `cur`,
/// `mon`, `tow`, `hq`, `habour`, `harbour`, `dock`, `fac`, `stop`,
/// `extension`, `depot`, `any` and the empty one, and rejects the old
/// station types `station`, `railstop`, `monorailstop`, `busstop`,
/// `carstop`, `airport`, `wharf`, `hall`, `post` and `shed` as obsolete.
pub proof fn law_building_type_names(t: Seq<char>)
    ensures
        known_types().contains(t) <==> (t == "res"@ || t == "com"@ || t == "ind"@ || t == "cur"@ || t == "mon"@ || t
            == "tow"@ || t == "hq"@ || t == "habour"@ || t == "harbour"@ || t == "dock"@ || t == "fac"@ || t
            == "stop"@ || t == "extension"@ || t == "depot"@ || t == "any"@ || t == ""@),
        obsolete_types().contains(t) <==> (t == "station"@ || t == "railstop"@ || t == "monorailstop"@ || t
            == "busstop"@ || t == "carstop"@ || t == "airport"@ || t == "wharf"@ || t == "hall"@ || t == "post"@
            || t == "shed"@),
{
    let v = known_types();
    assert(v[0] == "res"@ && v[1] == "com"@ && v[2] == "ind"@ && v[3] == "cur"@ && v[4] == "mon"@ && v[5]
        == "tow"@ && v[6] == "hq"@ && v[7] == "habour"@ && v[8] == "harbour"@ && v[9] == "dock"@ && v[10]
        == "fac"@ && v[11] == "stop"@ && v[12] == "extension"@ && v[13] == "depot"@ && v[14] == "any"@ && v[15]
        == ""@);
    if v.contains(t) {
        let k = choose|k: int| 0 <= k < v.len() && v[k] == t;
        assert(0 <= k < 16);
    }
    let o = obsolete_types();
    assert(o[0] == "station"@ && o[1] == "railstop"@ && o[2] == "monorailstop"@ && o[3] == "busstop"@ && o[4]
        == "carstop"@ && o[5] == "airport"@ && o[6] == "wharf"@ && o[7] == "hall"@ && o[8] == "post"@ && o[9]
        == "shed"@);
    if o.contains(t) {
        let k = choose|k: int| 0 <= k < o.len() && o[k] == t;
        assert(0 <= k < 10);
    }
}


/// building_writer.cc rejects `extension_building` when it reads as a
/// positive number (a value that is not decimal reads as 0): exactly one
/// error then, nothing otherwise.
pub proof fn law_extension_building_obsolete(d: DatView)
    ensures
        obsolete_keyword(d).len() <= 1,
        obsolete_keyword(d).len() == 1 <==> (get(d, "extension_building"@) matches Some(raw) && parse_i64(
            trim(raw),
        ) matches Some(n) && n > 0),
{
}

/// Whether the flag `key` is given as a decimal other than 0 and 1.
pub open spec fn flag_not_zero_or_one(d: DatView, key: Seq<char>) -> bool {
    get(d, key) matches Some(raw) && parse_i64(trim(raw)) matches Some(v) && v != 0 && v != 1
}

/// Whether a finding is a not-0-or-1 warning about the flag `key`.
pub open spec fn flags(f: FindingView, key: Seq<char>) -> bool {
    f matches FindingView::Diag(x) && x.code == DiagnosticCode::BooleanStyleFieldNotZeroOrOne && x.args.len() > 0
        && x.args[0] == key
}

/// Whether some finding of `v` is a not-0-or-1 warning about `key`.
pub open spec fn warns_flag(v: Seq<FindingView>, key: Seq<char>) -> bool {
    exists|k: int| 0 <= k < v.len() && #[trigger] flags(v[k], key)
}

proof fn lemma_flags_table(d: DatView, keys: Seq<&'static str>, key: Seq<char>)
    ensures
        warns_flag(as_findings(boolean_style_warnings(d, keys)), key) <==> ((exists|i: int|
            0 <= i < keys.len() && (#[trigger] keys[i])@ == key) && flag_not_zero_or_one(d, key)),
    decreases keys.len(),
{
    if keys.len() > 0 {
        let init = keys.drop_last();
        let last = keys.last();
        lemma_flags_table(d, init, key);
        let x = boolean_style_warnings(d, init);
        let y = boolean_style_warning(d, last@);
        let fx = as_findings(x);
        let fy = as_findings(y);
        let f = as_findings(x + y);
        assert(f =~= fx + fy);
        if warns_flag(fx, key) {
            let k = choose|k: int| 0 <= k < fx.len() && #[trigger] flags(fx[k], key);
            assert(f[k] == fx[k]);
            let i = choose|i: int| 0 <= i < init.len() && (#[trigger] init[i])@ == key;
            assert(keys[i] == init[i]);
        }
        if warns_flag(fy, key) {
            let k = choose|k: int| 0 <= k < fy.len() && #[trigger] flags(fy[k], key);
            assert(f[fx.len() + k] == fy[k]);
            assert(keys[keys.len() - 1] == last);
        }
        if warns_flag(f, key) {
            let k = choose|k: int| 0 <= k < f.len() && #[trigger] flags(f[k], key);
            if k < fx.len() {
                assert(f[k] == fx[k]);
            } else {
                assert(f[k] == fy[k - fx.len()]);
                assert(keys[keys.len() - 1] == last);
            }
        }
        if (exists|i: int| 0 <= i < keys.len() && (#[trigger] keys[i])@ == key) && flag_not_zero_or_one(d, key) {
            let i = choose|i: int| 0 <= i < keys.len() && (#[trigger] keys[i])@ == key;
            if i < init.len() {
                assert(init[i] == keys[i]);
            } else {
                assert(flags(fy[0], key));
                assert(f[fx.len() as int] == fy[0]);
            }
        }
    }
}

/// building_writer.cc reads `noinfo`, `noconstruction`, `needs_ground`,
/// `enables_pax`, `enables_post` and `enables_ware` as `get_int(key, 0) > 0`:
/// the rule warns about a key exactly when it is one of these six, given,
/// and decimal with a value other than 0 and 1.
pub proof fn law_building_flag_fields(d: DatView, key: Seq<char>)
    ensures
        warns_flag(boolean_style_field(d), key) <==> ((key == "noinfo"@ || key == "noconstruction"@ || key
            == "needs_ground"@ || key == "enables_pax"@ || key == "enables_post"@ || key == "enables_ware"@) && flag_not_zero_or_one(d, key)),
{
    let keys = BOOLEAN_STYLE_FIELDS@;
    lemma_flags_table(d, keys, key);
    assert(keys[0]@ == "noinfo"@ && keys[1]@ == "noconstruction"@ && keys[2]@ == "needs_ground"@ && keys[3]@
        == "enables_pax"@ && keys[4]@ == "enables_post"@ && keys[5]@ == "enables_ware"@);
    if exists|i: int| 0 <= i < keys.len() && (#[trigger] keys[i])@ == key {
        let i = choose|i: int| 0 <= i < keys.len() && (#[trigger] keys[i])@ == key;
        assert(0 <= i < 6);
    }
}

} // verus!
