//! `obj=vehicle` (vehicle_writer.cc): the waytype, the engine type, the
//! direction and freight images, the gear/power pair, the date indexes and
//! integers written narrower than they are read.
use vstd::prelude::*;
use crate::common::{warns_date, law_intro_retire_dates, DIR_CODES, dir_codes, waytype_field, check_waytype_field,
    extend_diags, locate, locate_at, intro_retire_overflow, intro_retire_overflow_rule, narrow_int_overflow,
    check_narrow_int_overflow_field, diags_as_findings, ikey, index_key, get_int, warns_narrowing,
    lemma_unsigned_ranges, lemma_narrowing_of_key, lemma_narrowing_concat};
use crate::text::{lower, strtol, parse_strtol_like, str_eq, str_in, views, owned, decimal, decimal_string,
    signed_decimal, signed_decimal_string};
use crate::dat::{DatFile, DatView, get, value_of, line_of};
use crate::diagnostics::{Severity, DiagnosticCode, Diagnostic, DiagView, Finding, FindingView, diag, args1, args2,
    vec0, vec1, vec2, string_views, fviews, dviews, as_findings, push_diag};
use crate::registry::{Rule, rules_findings, run_rules};
pub use crate::common::narrows;

verus! {

/// The engine types that vehicle_writer.cc's `get_engine_type()` accepts;
/// anything else silently becomes diesel.
pub const KNOWN_ENGINE_TYPES: [&'static str; 9] = [
    "diesel",
    "electric",
    "steam",
    "bio",
    "sail",
    "fuel_cell",
    "hydrogene",
    "battery",
    "unknown",
];

pub open spec fn all_rules() -> Seq<Rule> {
    seq![
        Rule::VehicleWaytypeRequired,
        Rule::VehicleEngineType,
        Rule::VehicleDirectionImage,
        Rule::VehicleFreightImageType,
        Rule::VehiclePowerGearMismatch,
        Rule::VehicleDateIndexOverflow,
        Rule::NameAndCopyright,
        Rule::VehicleNarrowIntFields,
    ]
}

/// The rules of `obj=vehicle`, in the order they report.
pub fn all() -> (res: Vec<Rule>)
    ensures
        res@ == all_rules(),
{
    let v = vec![
        Rule::VehicleWaytypeRequired,
        Rule::VehicleEngineType,
        Rule::VehicleDirectionImage,
        Rule::VehicleFreightImageType,
        Rule::VehiclePowerGearMismatch,
        Rule::VehicleDateIndexOverflow,
        Rule::NameAndCopyright,
        Rule::VehicleNarrowIntFields,
    ];
    assert(v@ =~= all_rules());
    v
}

/// Every finding of the `obj=vehicle` rules.
pub fn check_vehicle(dat: &DatFile) -> (res: Vec<Finding>)
    ensures
        fviews(res@) == rules_findings(all_rules(), dat@),
{
    run_rules(&all(), dat)
}

/// vehicle_writer.cc reads `get_waytype(obj.get("waytype"))` unconditionally.
pub open spec fn waytype_required(d: DatView) -> Seq<FindingView> {
    as_findings(waytype_field(d, "waytype"@))
}

pub fn waytype_required_rule(dat: &DatFile) -> (res: Vec<Finding>)
    ensures
        fviews(res@) == waytype_required(dat@),
{
    let mut out: Vec<Finding> = Vec::new();
    extend_diags(&mut out, check_waytype_field(dat, "waytype"));
    assert(fviews(out@) =~= waytype_required(dat@));
    out
}

/// For `waytype=electrified_track` the engine type is not read (always
/// electric, noted); otherwise a given engine type that is not known falls
/// back to diesel silently: a warning at its line.
pub open spec fn engine_type(d: DatView) -> Seq<FindingView> {
    if lower(value_of(d, "waytype"@)) == "electrified_track"@ {
        seq![FindingView::Diag(diag(Severity::Debug, DiagnosticCode::EngineTypeSkipped, seq![]))]
    } else {
        let e = lower(value_of(d, "engine_type"@));
        if e.len() != 0 && !views(KNOWN_ENGINE_TYPES@).contains(e) {
            seq![
                FindingView::Diag(
                    locate(d, diag(Severity::Warning, DiagnosticCode::UnknownEngineType, args1(e)), "engine_type"@),
                ),
            ]
        } else {
            seq![]
        }
    }
}

pub fn engine_type_rule(dat: &DatFile) -> (res: Vec<Finding>)
    ensures
        fviews(res@) == engine_type(dat@),
{
    let mut out: Vec<Finding> = Vec::new();
    let w = dat.get_lower("waytype");
    if str_eq(w.as_str(), "electrified_track") {
        push_diag(&mut out, Diagnostic::new(Severity::Debug, DiagnosticCode::EngineTypeSkipped, vec0()));
        assert(fviews(out@) =~= engine_type(dat@));
        return out;
    }
    let e = dat.get_lower("engine_type");
    let known = str_in(e.as_str(), &KNOWN_ENGINE_TYPES);
    proof {
        let l = views(KNOWN_ENGINE_TYPES@);
        if known {
            let i = choose|i: int| 0 <= i < KNOWN_ENGINE_TYPES@.len() && KNOWN_ENGINE_TYPES@[i]@ == e@;
            assert(l[i] == e@);
        } else if l.contains(e@) {
            let i = choose|i: int| 0 <= i < l.len() && l[i] == e@;
            assert(KNOWN_ENGINE_TYPES@[i]@ == e@);
        }
    }
    if !e.as_str().is_empty() && !known {
        let d = Diagnostic::new(Severity::Warning, DiagnosticCode::UnknownEngineType, vec1(e));
        push_diag(&mut out, locate_at(dat, d, "engine_type"));
    }
    assert(fviews(out@) =~= engine_type(dat@));
    out
}

/// Whether `key` has a value.
pub open spec fn present(d: DatView, key: Seq<char>) -> bool {
    value_of(d, key).len() != 0
}

pub open spec fn freight_key(i: nat) -> Seq<char> {
    ikey("freightimage["@, i, "][s]"@)
}

/// The first `i` from `i` on (below 127) without `freightimage[i][s]`, or 0
/// where there is none.
pub open spec fn freight_type_from(d: DatView, i: nat) -> nat
    decreases 127 - i,
{
    if i >= 127 {
        0
    } else if !present(d, freight_key(i)) {
        i
    } else {
        freight_type_from(d, i + 1)
    }
}

/// The number of indexed freight images (`freightimage[i][s]` given for
/// `i` below it), as vehicle_writer.cc counts them.
pub open spec fn freight_image_type(d: DatView) -> nat {
    freight_type_from(d, 0)
}

/// The number of indexed freight images.
pub fn freight_image_type_exec(dat: &DatFile) -> (res: u64)
    ensures
        res as nat == freight_image_type(dat@),
        res < 127,
{
    let mut i: u64 = 0;
    while i < 127
        invariant
            i <= 127,
            freight_type_from(dat@, i as nat) == freight_type_from(dat@, 0),
        decreases 127 - i,
    {
        let key = index_key("freightimage[", i, "][s]");
        let v = dat.value(key.as_str());
        if v.as_str().is_empty() {
            return i;
        }
        i = i + 1;
    }
    0
}

pub open spec fn empty_key(dir: Seq<char>) -> Seq<char> {
    "emptyimage["@ + dir + "]"@
}

/// The number of directions, in the writer's order from the `i`-th on,
/// that have an `emptyimage` before the first one that does not.
pub open spec fn leading_from(d: DatView, i: nat) -> nat
    decreases 8 - i,
{
    if i >= 8 {
        0
    } else if present(d, empty_key(dir_codes()[i as int])) {
        1 + leading_from(d, i + 1)
    } else {
        0
    }
}

/// How many directions have an empty image in a row, and whether one of the
/// last four directions (n, e, ne, nw) is among them.
pub open spec fn empty_image_state(d: DatView) -> (nat, bool) {
    (leading_from(d, 0), leading_from(d, 0) > 4)
}

/// The empty-image count and whether eight directions are used.
pub fn empty_image_state_exec(dat: &DatFile) -> (res: (u64, bool))
    ensures
        (res.0 as nat, res.1) == empty_image_state(dat@),
        res.0 <= 8,
{
    let mut i: usize = 0;
    while i < 8
        invariant
            i <= 8,
            i + leading_from(dat@, i as nat) == leading_from(dat@, 0),
        decreases 8 - i,
    {
        let mut key = owned("emptyimage[");
        key.append(DIR_CODES[i]);
        key.append("]");
        assert(key@ == empty_key(dir_codes()[i as int]));
        let v = dat.value(key.as_str());
        if v.as_str().is_empty() {
            let count = i as u64;
            return (count, count > 4);
        }
        i = i + 1;
    }
    (8, true)
}

pub open spec fn old_freight_key(dir: Seq<char>) -> Seq<char> {
    "freightimage["@ + dir + "]"@
}

/// How many of the first `k` directions have a non-indexed freight image.
pub open spec fn old_style_count(d: DatView, k: nat) -> nat
    decreases k,
{
    if k == 0 {
        0
    } else {
        old_style_count(d, (k - 1) as nat) + if present(d, old_freight_key(dir_codes()[k - 1])) {
            1nat
        } else {
            0nat
        }
    }
}

pub open spec fn indexed_key(n: nat, dir: Seq<char>) -> Seq<char> {
    ikey("freightimage["@, n, "]["@) + dir + "]"@
}

/// The missing indexed freight images of one direction, `n` below `ft`.
pub open spec fn indexed_missing_dir(d: DatView, dir: Seq<char>, ft: nat) -> Seq<DiagView>
    decreases ft,
{
    if ft == 0 {
        seq![]
    } else {
        let key = indexed_key((ft - 1) as nat, dir);
        indexed_missing_dir(d, dir, (ft - 1) as nat) + if present(d, key) {
            seq![]
        } else {
            seq![diag(Severity::Error, DiagnosticCode::MissingIndexedFreightimage, args1(key))]
        }
    }
}

/// The missing indexed freight images of the first `k` directions.
pub open spec fn indexed_missing(d: DatView, k: nat, ft: nat) -> Seq<DiagView>
    decreases k,
{
    if k == 0 {
        seq![]
    } else {
        indexed_missing(d, (k - 1) as nat, ft) + indexed_missing_dir(d, dir_codes()[k - 1], ft)
    }
}

/// vehicle_writer.cc: empty images of directions beyond the fourth need all
/// eight; non-indexed freight images must match the empty images one for
/// one; with indexed freight images every direction needs every index. Each
/// is a FATAL ERROR.
pub open spec fn direction_image(d: DatView) -> Seq<FindingView> {
    let (count, has8) = empty_image_state(d);
    let first = if has8 && count < 8 {
        seq![diag(Severity::Error, DiagnosticCode::Incomplete8DirectionImages, args1(decimal(count)))]
    } else {
        seq![]
    };
    let ft = freight_image_type(d);
    let second = if ft == 0 {
        let old = old_style_count(d, count);
        if old > 0 && old != count {
            seq![diag(Severity::Error, DiagnosticCode::FreightimageCountMismatch, args2(decimal(old), decimal(count)))]
        } else {
            seq![]
        }
    } else {
        indexed_missing(d, count, ft)
    };
    as_findings(first + second)
}

fn old_style_count_exec(dat: &DatFile, k: u64) -> (res: u64)
    requires
        k <= 8,
    ensures
        res as nat == old_style_count(dat@, k as nat),
        res <= k,
{
    let mut c: u64 = 0;
    let mut i: u64 = 0;
    while i < k
        invariant
            i <= k <= 8,
            c as nat == old_style_count(dat@, i as nat),
            c <= i,
        decreases k - i,
    {
        let mut key = owned("freightimage[");
        key.append(DIR_CODES[i as usize]);
        key.append("]");
        assert(key@ == old_freight_key(dir_codes()[i as int]));
        let v = dat.value(key.as_str());
        if !v.as_str().is_empty() {
            c = c + 1;
        }
        i = i + 1;
    }
    c
}

fn indexed_missing_dir_exec(out: &mut Vec<Diagnostic>, dat: &DatFile, dir: &str, ft: u64)
    ensures
        dviews(final(out)@) == dviews(old(out)@) + indexed_missing_dir(dat@, dir@, ft as nat),
{
    let ghost start = dviews(out@);
    let mut n: u64 = 0;
    while n < ft
        invariant
            n <= ft,
            dviews(out@) == start + indexed_missing_dir(dat@, dir@, n as nat),
        decreases ft - n,
    {
        let mut key = index_key("freightimage[", n, "][");
        key.append(dir);
        key.append("]");
        assert(key@ == indexed_key(n as nat, dir@));
        let v = dat.value(key.as_str());
        let ghost before = dviews(out@);
        if v.as_str().is_empty() {
            let d = Diagnostic::new(Severity::Error, DiagnosticCode::MissingIndexedFreightimage, vec1(key));
            let ghost dv = d@;
            out.push(d);
            assert(dviews(out@) =~= before.push(dv));
        }
        assert(dviews(out@) =~= start + indexed_missing_dir(dat@, dir@, (n + 1) as nat));
        n = n + 1;
    }
}

pub fn direction_image_rule(dat: &DatFile) -> (res: Vec<Finding>)
    ensures
        fviews(res@) == direction_image(dat@),
{
    let (count, has8) = empty_image_state_exec(dat);
    let mut all: Vec<Diagnostic> = Vec::new();
    if has8 && count < 8 {
        all.push(
            Diagnostic::new(Severity::Error, DiagnosticCode::Incomplete8DirectionImages, vec1(decimal_string(count))),
        );
    }
    let ghost first = dviews(all@);
    let ft = freight_image_type_exec(dat);
    if ft == 0 {
        let old = old_style_count_exec(dat, count);
        if old > 0 && old != count {
            all.push(
                Diagnostic::new(
                    Severity::Error,
                    DiagnosticCode::FreightimageCountMismatch,
                    vec2(decimal_string(old), decimal_string(count)),
                ),
            );
        }
    } else {
        let mut i: u64 = 0;
        while i < count
            invariant
                i <= count <= 8,
                dviews(all@) == first + indexed_missing(dat@, i as nat, ft as nat),
            decreases count - i,
        {
            assert(dir_codes()[i as int] == DIR_CODES@[i as int]@);
            indexed_missing_dir_exec(&mut all, dat, DIR_CODES[i as usize], ft);
            i = i + 1;
        }
    }
    let res = diags_as_findings(all);
    assert(fviews(res@) =~= direction_image(dat@));
    res
}

pub open spec fn freightimagetype_key(i: nat) -> Seq<char> {
    ikey("freightimagetype["@, i, "]"@)
}

/// The missing `freightimagetype[i]` for `i` below `k`.
pub open spec fn missing_types(d: DatView, k: nat, ft: nat) -> Seq<DiagView>
    decreases k,
{
    if k == 0 {
        seq![]
    } else {
        let key = freightimagetype_key((k - 1) as nat);
        missing_types(d, (k - 1) as nat, ft) + if present(d, key) {
            seq![]
        } else {
            seq![diag(Severity::Error, DiagnosticCode::MissingFreightimagetype, args2(key, decimal(ft)))]
        }
    }
}

/// vehicle_writer.cc: every indexed freight image needs its
/// `freightimagetype[i]` (a FATAL ERROR otherwise); one more than used is
/// warned about at its line.
pub open spec fn freight_image_type_rule_spec(d: DatView) -> Seq<FindingView> {
    let ft = freight_image_type(d);
    let extra = freightimagetype_key(ft);
    as_findings(
        missing_types(d, ft, ft) + if present(d, extra) {
            seq![
                locate(
                    d,
                    diag(Severity::Warning, DiagnosticCode::ExtraFreightimagetype, args2(extra, decimal(ft))),
                    extra,
                ),
            ]
        } else {
            seq![]
        },
    )
}

pub fn freight_image_type_rule(dat: &DatFile) -> (res: Vec<Finding>)
    ensures
        fviews(res@) == freight_image_type_rule_spec(dat@),
{
    let ft = freight_image_type_exec(dat);
    let mut all: Vec<Diagnostic> = Vec::new();
    let mut i: u64 = 0;
    while i < ft
        invariant
            i <= ft < 127,
            ft as nat == freight_image_type(dat@),
            dviews(all@) == missing_types(dat@, i as nat, ft as nat),
        decreases ft - i,
    {
        let key = index_key("freightimagetype[", i, "]");
        let v = dat.value(key.as_str());
        let ghost before = dviews(all@);
        if v.as_str().is_empty() {
            let d = Diagnostic::new(
                Severity::Error,
                DiagnosticCode::MissingFreightimagetype,
                vec2(key, decimal_string(ft)),
            );
            let ghost dv = d@;
            all.push(d);
            assert(dviews(all@) =~= before.push(dv));
        }
        assert(dviews(all@) =~= missing_types(dat@, (i + 1) as nat, ft as nat));
        i = i + 1;
    }
    let extra = index_key("freightimagetype[", ft, "]");
    let v = dat.value(extra.as_str());
    let ghost before = dviews(all@);
    if !v.as_str().is_empty() {
        let d = Diagnostic::new(
            Severity::Warning,
            DiagnosticCode::ExtraFreightimagetype,
            vec2(extra.clone(), decimal_string(ft)),
        );
        let l = locate_at(dat, d, extra.as_str());
        let ghost lv = l@;
        all.push(l);
        assert(dviews(all@) =~= before.push(lv));
    }
    let res = diags_as_findings(all);
    assert(fviews(res@) =~= freight_image_type_rule_spec(dat@));
    res
}

/// vehicle_writer.cc:142 reads `obj.get_int("gear", 100)`: 100 without the
/// key, `strtol` of the value otherwise; the flag tells a value that has no
/// digits (read as 0).
pub open spec fn resolve_gear(d: DatView) -> (i64, bool) {
    match get(d, "gear"@) {
        None => (100, false),
        Some(raw) => match strtol(raw) {
            Some(v) => (v, false),
            None => (0, true),
        },
    }
}

/// The gear as read, and whether its value had no digits.
pub fn resolve_gear_exec(dat: &DatFile) -> (res: (i64, bool))
    ensures
        res == resolve_gear(dat@),
{
    match dat.get("gear") {
        None => (100, false),
        Some(raw) => match parse_strtol_like(raw) {
            Some(v) => (v, false),
            None => (0, true),
        },
    }
}

/// `raw * 64 / 100` with C's division (truncating toward zero).
pub open spec fn gear_scaled(raw: int) -> int {
    let x = raw * 64;
    if x >= 0 {
        x / 100
    } else {
        -((-x) / 100)
    }
}

/// What vehicle_writer.cc stores for a gear: `raw * 64 / 100` before and
/// after the truncation to `uint16`.
pub open spec fn gear_transformed(raw: int) -> (int, int) {
    (gear_scaled(raw), gear_scaled(raw) % 65536)
}

/// `raw * 64 / 100` and its `uint16` truncation.
pub fn gear_transformed_exec(raw: i64) -> (res: (i128, i128))
    ensures
        (res.0 as int, res.1 as int) == gear_transformed(raw as int),
{
    let x: i128 = (raw as i128) * 64;
    let t: i128 = match x.checked_div(100) {
        Some(q) => q,
        None => 0,
    };
    assert(t == gear_scaled(raw as int));
    let m: i128 = match t.checked_rem_euclid(65536) {
        Some(r) => r,
        None => 0,
    };
    (t, m)
}

/// vehicle_writer.cc:142 and simconvoi.cc: a gear value without digits is
/// read as 0 (warned); `gear*64/100` outside `uint16` wraps (warned); a
/// positive power with a stored gear of 0 contributes nothing to the convoy
/// (warned). All point at the gear's line.
pub open spec fn power_gear_mismatch(d: DatView) -> Seq<FindingView> {
    let (raw, failed) = resolve_gear(d);
    let (t, m) = gear_transformed(raw as int);
    let first = if failed {
        seq![locate(d, diag(Severity::Warning, DiagnosticCode::GearParseFailure, seq![]), "gear"@)]
    } else {
        seq![]
    };
    let second = if !(0 <= t && t <= 65535) {
        seq![
            locate(
                d,
                diag(
                    Severity::Warning,
                    DiagnosticCode::NarrowIntOverflow,
                    seq!["gear"@, signed_decimal(t), "0"@, "65535"@, signed_decimal(raw as int), signed_decimal(m)],
                ),
                "gear"@,
            ),
        ]
    } else {
        seq![]
    };
    let third = match get(d, "power"@) {
        None => seq![],
        Some(p) => match strtol(p) {
            None => seq![],
            Some(power) => if power > 0 && m == 0 {
                seq![
                    locate(
                        d,
                        diag(
                            Severity::Warning,
                            DiagnosticCode::PowerGearMismatch,
                            seq![signed_decimal(power as int), signed_decimal(raw as int), signed_decimal(m)],
                        ),
                        "gear"@,
                    ),
                ]
            } else {
                seq![]
            },
        },
    };
    as_findings(first + second + third)
}

pub fn power_gear_mismatch_rule(dat: &DatFile) -> (res: Vec<Finding>)
    ensures
        fviews(res@) == power_gear_mismatch(dat@),
{
    let mut all: Vec<Diagnostic> = Vec::new();
    let (raw, failed) = resolve_gear_exec(dat);
    if failed {
        let d = Diagnostic::new(Severity::Warning, DiagnosticCode::GearParseFailure, vec0());
        all.push(locate_at(dat, d, "gear"));
    }
    let ghost first = dviews(all@);
    let (t, m) = gear_transformed_exec(raw);
    if !(0 <= t && t <= 65535) {
        let mut args: Vec<String> = Vec::new();
        args.push(owned("gear"));
        args.push(signed_decimal_string(t));
        args.push(owned("0"));
        args.push(owned("65535"));
        args.push(signed_decimal_string(raw as i128));
        args.push(signed_decimal_string(m));
        assert(string_views(args@) =~= seq!["gear"@, signed_decimal(t as int), "0"@, "65535"@,
            signed_decimal(raw as int), signed_decimal(m as int)]);
        let d = Diagnostic::new(Severity::Warning, DiagnosticCode::NarrowIntOverflow, args);
        all.push(locate_at(dat, d, "gear"));
    }
    let ghost second_end = dviews(all@);
    match dat.get("power") {
        None => {},
        Some(p) => match parse_strtol_like(p) {
            None => {},
            Some(power) => {
                if power > 0 && m == 0 {
                    let mut args: Vec<String> = Vec::new();
                    args.push(signed_decimal_string(power as i128));
                    args.push(signed_decimal_string(raw as i128));
                    args.push(signed_decimal_string(m));
                    assert(string_views(args@) =~= seq![signed_decimal(power as int), signed_decimal(raw as int),
                        signed_decimal(m as int)]);
                    let d = Diagnostic::new(Severity::Warning, DiagnosticCode::PowerGearMismatch, args);
                    all.push(locate_at(dat, d, "gear"));
                }
            },
        },
    }
    let res = diags_as_findings(all);
    assert(fviews(res@) =~= power_gear_mismatch(dat@));
    res
}

/// vehicle_writer.cc:134,138 write the intro and retire date indexes into `uint16`s.
pub open spec fn date_index_overflow(d: DatView) -> Seq<FindingView> {
    intro_retire_overflow(d, 1900)
}

pub fn date_index_overflow_rule(dat: &DatFile) -> (res: Vec<Finding>)
    ensures
        fviews(res@) == date_index_overflow(dat@),
{
    intro_retire_overflow_rule(dat, 1900)
}

/// vehicle_writer.cc writes `payload`, `speed`, `axle_load` as `uint16`,
/// `power` as `uint32` and `length` (default 8) as `uint8`.
pub open spec fn narrow_int_fields(d: DatView) -> Seq<FindingView> {
    as_findings(
        narrow_int_overflow(d, "payload"@, 0, 16, false) + narrow_int_overflow(d, "speed"@, 0, 16, false)
            + narrow_int_overflow(d, "axle_load"@, 0, 16, false) + narrow_int_overflow(d, "power"@, 0, 32, false)
            + narrow_int_overflow(d, "length"@, 8, 8, false),
    )
}

pub fn narrow_int_fields_rule(dat: &DatFile) -> (res: Vec<Finding>)
    ensures
        fviews(res@) == narrow_int_fields(dat@),
{
    let mut all: Vec<Diagnostic> = Vec::new();
    let mut a = check_narrow_int_overflow_field(dat, "payload", 0, 16, false);
    let mut b = check_narrow_int_overflow_field(dat, "speed", 0, 16, false);
    let mut c = check_narrow_int_overflow_field(dat, "axle_load", 0, 16, false);
    let mut e = check_narrow_int_overflow_field(dat, "power", 0, 32, false);
    let mut f = check_narrow_int_overflow_field(dat, "length", 8, 8, false);
    let ghost av = dviews(a@);
    let ghost bv = dviews(b@);
    let ghost cv = dviews(c@);
    let ghost ev = dviews(e@);
    let ghost fv = dviews(f@);
    all.append(&mut a);
    all.append(&mut b);
    all.append(&mut c);
    all.append(&mut e);
    all.append(&mut f);
    assert(dviews(all@) =~= av + bv + cv + ev + fv);
    diags_as_findings(all)
}

/// Whether a finding is an unknown-engine-type warning.
pub open spec fn is_unknown_engine(f: FindingView) -> bool {
    f matches FindingView::Diag(x) && x.severity == Severity::Warning && x.code == DiagnosticCode::UnknownEngineType
}

/// The engine type is read without regard to ASCII case: a vehicle that is
/// not for electrified track is warned about its engine type exactly when
/// the lowered engine type is given and is none of the known names, and the
/// warning names the lowered value.
pub proof fn law_engine_type_ignores_case(d: DatView)
    requires
        lower(value_of(d, "waytype"@)) != "electrified_track"@,
    ensures
        (exists|k: int| 0 <= k < engine_type(d).len() && #[trigger] is_unknown_engine(engine_type(d)[k]))
            <==> (lower(value_of(d, "engine_type"@)).len() != 0 && !views(KNOWN_ENGINE_TYPES@).contains(
            lower(value_of(d, "engine_type"@)),
        )),
        forall|k: int| 0 <= k < engine_type(d).len() && #[trigger] is_unknown_engine(engine_type(d)[k]) ==> (
        engine_type(d)[k] matches FindingView::Diag(x) && x.args == seq![lower(value_of(d, "engine_type"@))]),
{
    let e = lower(value_of(d, "engine_type"@));
    if e.len() != 0 && !views(KNOWN_ENGINE_TYPES@).contains(e) {
        assert(is_unknown_engine(engine_type(d)[0]));
    }
}

/// Two definitions whose engine types differ only in ASCII case, given on
/// the same line and for the same way, get the same engine-type findings.
pub proof fn law_engine_type_same_up_to_case(d1: DatView, d2: DatView)
    requires
        lower(value_of(d1, "waytype"@)) == lower(value_of(d2, "waytype"@)),
        lower(value_of(d1, "engine_type"@)) == lower(value_of(d2, "engine_type"@)),
        line_of(d1, "engine_type"@) == line_of(d2, "engine_type"@),
    ensures
        engine_type(d1) == engine_type(d2),
{
}

/// vehicle_writer.cc writes `speed` as a `uint16`: the vehicle rule warns
/// about `speed` exactly when it is given and its value (as `get_int` reads
/// it) lies outside `0..=65535`.
pub proof fn law_speed_is_a_uint16(d: DatView)
    ensures
        (exists|k: int| 0 <= k < narrow_int_fields(d).len() && #[trigger] narrows(narrow_int_fields(d)[k], "speed"@))
            <==> (get(d, "speed"@) is Some && !(0 <= get_int(d, "speed"@, 0) <= 65535)),
{
    reveal_strlit("speed");
    reveal_strlit("payload");
    reveal_strlit("axle_load");
    reveal_strlit("power");
    reveal_strlit("length");
    assert("speed"@[0] == 's' && "payload"@[0] == 'p' && "axle_load"@[0] == 'a' && "power"@[0] == 'p'
        && "length"@[0] == 'l');
    lemma_vehicle_narrowing(d, "speed"@);
    assert(warns_narrowing(narrow_int_fields(d), "speed"@) == (exists|k: int|
        0 <= k < narrow_int_fields(d).len() && #[trigger] narrows(narrow_int_fields(d)[k], "speed"@)));
}

proof fn lemma_vehicle_narrowing(d: DatView, key: Seq<char>)
    ensures
        warns_narrowing(narrow_int_fields(d), key) <==> (key == "payload"@ && get(d, key) is Some && !(0 <= get_int(
            d,
            key,
            0,
        ) <= 65535)) || (key == "speed"@ && get(d, key) is Some && !(0 <= get_int(d, key, 0) <= 65535)) || (key
            == "axle_load"@ && get(d, key) is Some && !(0 <= get_int(d, key, 0) <= 65535)) || (key == "power"@ && get(
            d,
            key,
        ) is Some && !(0 <= get_int(d, key, 0) <= 4294967295)) || (key == "length"@ && get(d, key) is Some && !(0
            <= get_int(d, key, 8) <= 255)),
{
    let payload_key = "payload"@;
    let axle_load_key = "axle_load"@;
    let power_key = "power"@;
    let length_key = "length"@;
    let speed_key = "speed"@;
    lemma_unsigned_ranges();
    let a = narrow_int_overflow(d, payload_key, 0, 16, false);
    let b = narrow_int_overflow(d, speed_key, 0, 16, false);
    let c = narrow_int_overflow(d, axle_load_key, 0, 16, false);
    let p = narrow_int_overflow(d, power_key, 0, 32, false);
    let l = narrow_int_overflow(d, length_key, 8, 8, false);
    lemma_narrowing_concat(a + b + c + p, l, key);
    lemma_narrowing_concat(a + b + c, p, key);
    lemma_narrowing_concat(a + b, c, key);
    lemma_narrowing_concat(a, b, key);
    lemma_narrowing_of_key(d, "payload"@, 0, 16, false, key);
    lemma_narrowing_of_key(d, "speed"@, 0, 16, false, key);
    lemma_narrowing_of_key(d, "axle_load"@, 0, 16, false, key);
    lemma_narrowing_of_key(d, "power"@, 0, 32, false, key);
    lemma_narrowing_of_key(d, "length"@, 8, 8, false, key);
}

/// vehicle_writer.cc writes `payload`, `speed` and `axle_load` as `uint16`,
/// `power` as `uint32` and `length` as `uint8`: the vehicle rule warns about
/// each of them exactly when it is given and its value (as `get_int` reads
/// it) lies outside that type's range.
pub proof fn law_vehicle_narrowed_fields(d: DatView)
    ensures
        warns_narrowing(narrow_int_fields(d), "payload"@) <==> (get(d, "payload"@) is Some && !(0 <= get_int(
            d,
            "payload"@,
            0,
        ) <= 65535)),
        warns_narrowing(narrow_int_fields(d), "speed"@) <==> (get(d, "speed"@) is Some && !(0 <= get_int(
            d,
            "speed"@,
            0,
        ) <= 65535)),
        warns_narrowing(narrow_int_fields(d), "axle_load"@) <==> (get(d, "axle_load"@) is Some && !(0 <= get_int(
            d,
            "axle_load"@,
            0,
        ) <= 65535)),
        warns_narrowing(narrow_int_fields(d), "power"@) <==> (get(d, "power"@) is Some && !(0 <= get_int(
            d,
            "power"@,
            0,
        ) <= 4294967295)),
        warns_narrowing(narrow_int_fields(d), "length"@) <==> (get(d, "length"@) is Some && !(0 <= get_int(
            d,
            "length"@,
            8,
        ) <= 255)),
{
    reveal_strlit("speed");
    reveal_strlit("payload");
    reveal_strlit("axle_load");
    reveal_strlit("power");
    reveal_strlit("length");
    assert("speed"@[0] == 's' && "payload"@[0] == 'p' && "axle_load"@[0] == 'a' && "power"@[0] == 'p'
        && "length"@[0] == 'l' && "payload"@[1] == 'a' && "power"@[1] == 'o');
    lemma_vehicle_narrowing(d, "payload"@);
    lemma_vehicle_narrowing(d, "speed"@);
    lemma_vehicle_narrowing(d, "axle_load"@);
    lemma_vehicle_narrowing(d, "power"@);
    lemma_vehicle_narrowing(d, "length"@);
}


/// vehicle_writer.cc stores the intro date (year defaulting to 1900) and the retire date
/// (year defaulting to 2999) as `year*12 + month - 1` in a `uint16`, months
/// defaulting to 1: the rule warns about each exactly when that index
/// leaves `0..=65535`.
pub proof fn law_vehicle_date_indexes(d: DatView)
    ensures
        warns_date(date_index_overflow(d), "intro_year"@) <==> !(0 <= get_int(d, "intro_year"@, 1900) * 12 + get_int(
            d,
            "intro_month"@,
            1,
        ) - 1 <= 65535),
        warns_date(date_index_overflow(d), "retire_year"@) <==> !(0 <= get_int(d, "retire_year"@, 2999) * 12
            + get_int(d, "retire_month"@, 1) - 1 <= 65535),
{
    law_intro_retire_dates(d, 1900);
}


/// Whether some finding of `v` is a diagnostic with `code`.
pub open spec fn reports(v: Seq<FindingView>, code: DiagnosticCode) -> bool {
    exists|k: int| 0 <= k < v.len() && (#[trigger] v[k] matches FindingView::Diag(x) && x.code == code)
}

proof fn lemma_gear_scaled(g: int)
    ensures
        (0 <= gear_scaled(g) <= 65535) <==> (-1 <= g <= 102399),
        -1 <= g <= 1 ==> gear_scaled(g) == 0,
        2 <= g <= 102399 ==> 1 <= gear_scaled(g),
{
}

/// vehicle_writer.cc reads `gear` with `get_int("gear", 100)` and stores
/// `gear*64/100` (C division) in a `uint16`; simconvoi.cc gets no force from
/// a powered vehicle whose stored gear is 0. So: without `gear` the rule is
/// silent; a value without digits is reported; the overflow warning comes
/// exactly for a gear below -1 or above 102399; a gear of -1, 0 or 1 on a
/// vehicle with positive power is a power/gear mismatch.
pub proof fn law_vehicle_gear(d: DatView)
    ensures
        get(d, "gear"@) is None ==> power_gear_mismatch(d).len() == 0,
        get(d, "gear"@) matches Some(raw) ==> (strtol(raw) is None ==> reports(
            power_gear_mismatch(d),
            DiagnosticCode::GearParseFailure,
        )),
        get(d, "gear"@) matches Some(raw) ==> (strtol(raw) matches Some(g) ==> (reports(
            power_gear_mismatch(d),
            DiagnosticCode::NarrowIntOverflow,
        ) <==> (g < -1 || g > 102399))),
        get(d, "gear"@) matches Some(raw) ==> (strtol(raw) matches Some(g) ==> (get(d, "power"@) matches Some(p)
            ==> (strtol(p) matches Some(power) ==> (-1 <= g <= 1 && power > 0 ==> reports(
            power_gear_mismatch(d),
            DiagnosticCode::PowerGearMismatch,
        ))))),
{
    let (raw, failed) = resolve_gear(d);
    lemma_gear_scaled(raw as int);
    lemma_gear_scaled(100);
    let f = power_gear_mismatch(d);
    let (t, m) = gear_transformed(raw as int);
    let first: Seq<DiagView> = if failed {
        seq![locate(d, diag(Severity::Warning, DiagnosticCode::GearParseFailure, seq![]), "gear"@)]
    } else {
        seq![]
    };
    let second: Seq<DiagView> = if !(0 <= t && t <= 65535) {
        seq![
            locate(
                d,
                diag(
                    Severity::Warning,
                    DiagnosticCode::NarrowIntOverflow,
                    seq!["gear"@, signed_decimal(t), "0"@, "65535"@, signed_decimal(raw as int), signed_decimal(m)],
                ),
                "gear"@,
            ),
        ]
    } else {
        seq![]
    };
    let rest = f.skip((first.len() + second.len()) as int);
    assert(f =~= as_findings(first) + as_findings(second) + rest);
    if failed {
        assert(f[0] matches FindingView::Diag(x) && x.code == DiagnosticCode::GearParseFailure);
    }
    if !(0 <= t && t <= 65535) {
        assert(f[first.len() as int] matches FindingView::Diag(x) && x.code == DiagnosticCode::NarrowIntOverflow);
    }
    assert forall|k: int| first.len() + second.len() <= k < f.len() implies !(#[trigger] f[k] matches FindingView::Diag(
        x,
    ) && x.code == DiagnosticCode::NarrowIntOverflow) by {
        assert(f[k] == rest[k - first.len() - second.len()]);
    }
    if !failed && 0 <= t <= 65535 && m == 0 {
        if let Some(p) = get(d, "power"@) {
            if let Some(power) = strtol(p) {
                if power > 0 {
                    assert(f[0] matches FindingView::Diag(x) && x.code == DiagnosticCode::PowerGearMismatch);
                }
            }
        }
    }
}


/// The engine types simutrans knows are exactly `diesel`, `electric`,
/// `steam`, `bio`, `sail`, `fuel_cell`, `hydrogene`, `battery` and
/// `unknown`.
pub proof fn law_known_engine_types(e: Seq<char>)
    ensures
        views(KNOWN_ENGINE_TYPES@).contains(e) <==> (e == "diesel"@ || e == "electric"@ || e == "steam"@ || e
            == "bio"@ || e == "sail"@ || e == "fuel_cell"@ || e == "hydrogene"@ || e == "battery"@ || e
            == "unknown"@),
{
    let v = views(KNOWN_ENGINE_TYPES@);
    assert(v[0] == "diesel"@ && v[1] == "electric"@ && v[2] == "steam"@ && v[3] == "bio"@ && v[4] == "sail"@
        && v[5] == "fuel_cell"@ && v[6] == "hydrogene"@ && v[7] == "battery"@ && v[8] == "unknown"@);
    if v.contains(e) {
        let k = choose|k: int| 0 <= k < v.len() && v[k] == e;
        assert(0 <= k < 9);
    }
}


proof fn lemma_freight_type_from(d: DatView, i: nat, n: nat)
    requires
        i <= n <= 127,
        forall|j: nat| i <= j < n ==> #[trigger] present(d, freight_key(j)),
        n < 127 ==> !present(d, freight_key(n)),
    ensures
        freight_type_from(d, i) == if n < 127 {
            n
        } else {
            0
        },
    decreases n - i,
{
    if i < n {
        assert(present(d, freight_key(i)));
        lemma_freight_type_from(d, i + 1, n);
    }
}

/// vehicle_writer.cc counts the indexed freight images
/// `freightimage[0][s]`, `freightimage[1][s]`, ... up to the first one not
/// given: with the first `n` given (`n` below 127) and the next not, the
/// count is `n`; with all 127 given it is 0.
pub proof fn law_freight_image_count(d: DatView, n: nat)
    requires
        n <= 127,
        forall|j: nat| j < n ==> #[trigger] present(d, freight_key(j)),
        n < 127 ==> !present(d, freight_key(n)),
    ensures
        freight_image_type(d) == if n < 127 {
            n
        } else {
            0
        },
{
    lemma_freight_type_from(d, 0, n);
}

} // verus!
