//! Tables and checks shared by several object types: the waytype names
//! `get_waytype()` accepts, the eight direction codes, repeated keys, the
//! `tabfileobj_t::get_int` reading of a value, and the silent narrowing of
//! integers into the fields makeobj writes.
use vstd::prelude::*;
use crate::text::{lower, decimal, signed_decimal, strtol, to_lower, str_in, views, owned, concat3,
    decimal_string, signed_decimal_string, parse_strtol_like};
use crate::dat::{DatFile, DatView, DupView, value_of, get, line_of};
use crate::diagnostics::{Severity, DiagnosticCode, Diagnostic, DiagView, Finding, FindingView, diag, at,
    args1, args2, args3, vec1, vec2, vec3, string_views, fviews, dviews, as_findings, push_diag};
use crate::images::{image_ref_finding, push_image_ref};

verus! {

/// The waytypes that `get_waytype()` (get_waytype.cc) accepts; anything else,
/// and a missing value, is a FATAL ERROR there.
pub const KNOWN_WAYTYPES: [&'static str; 13] = [
    "none",
    "road",
    "track",
    "electrified_track",
    "maglev_track",
    "monorail_track",
    "narrowgauge_track",
    "water",
    "air",
    "schiene_tram",
    "tram_track",
    "power",
    "decoration",
];

/// The eight direction codes that index vehicle, citycar and pedestrian
/// images (`dir_codes` of the writers).
pub const DIR_CODES: [&'static str; 8] = ["s", "w", "sw", "se", "n", "e", "ne", "nw"];

pub open spec fn known_waytypes() -> Seq<Seq<char>> {
    views(KNOWN_WAYTYPES@)
}

pub open spec fn dir_codes() -> Seq<Seq<char>> {
    views(DIR_CODES@)
}

/// Whether `w` is a waytype name that `get_waytype()` accepts.
pub fn is_known_waytype(w: &str) -> (res: bool)
    ensures
        res == known_waytypes().contains(w@),
{
    let r = str_in(w, &KNOWN_WAYTYPES);
    proof {
        if r {
            let i = choose|i: int| 0 <= i < KNOWN_WAYTYPES@.len() && KNOWN_WAYTYPES@[i]@ == w@;
            assert(known_waytypes()[i] == w@);
        } else {
            if known_waytypes().contains(w@) {
                let i = choose|i: int| 0 <= i < known_waytypes().len() && known_waytypes()[i] == w@;
                assert(KNOWN_WAYTYPES@[i]@ == w@);
            }
        }
    }
    r
}

// ---------------------------------------------------------------------------
// Keys with an index
// ---------------------------------------------------------------------------

/// `format!("{prefix}{i}{suffix}")`.
pub open spec fn ikey(prefix: Seq<char>, i: nat, suffix: Seq<char>) -> Seq<char> {
    prefix + decimal(i) + suffix
}

/// `format!("{prefix}{i}{suffix}")`.
pub fn index_key(prefix: &str, i: u64, suffix: &str) -> (res: String)
    ensures
        res@ == ikey(prefix@, i as nat, suffix@),
{
    let d = decimal_string(i);
    concat3(prefix, d.as_str(), suffix)
}

/// `format!("{a}{i}{b}{j}{c}")`.
pub open spec fn ikey2(a: Seq<char>, i: nat, b: Seq<char>, j: nat, c: Seq<char>) -> Seq<char> {
    a + decimal(i) + b + decimal(j) + c
}

/// `format!("{a}{i}{b}{j}{c}")`.
pub fn index_key2(a: &str, i: u64, b: &str, j: u64, c: &str) -> (res: String)
    ensures
        res@ == ikey2(a@, i as nat, b@, j as nat, c@),
{
    let di = decimal_string(i);
    let dj = decimal_string(j);
    let mut s = concat3(a, di.as_str(), b);
    s.append(dj.as_str());
    s.append(c);
    s
}

// ---------------------------------------------------------------------------
// Duplicate keys
// ---------------------------------------------------------------------------

/// The warning for one dropped repetition of a key.
pub open spec fn duplicate_warning(dup: DupView) -> DiagView {
    at(
        diag(
            Severity::Warning,
            DiagnosticCode::DuplicateKey,
            args3(dup.key, decimal(dup.first_line), decimal(dup.duplicate_line)),
        ),
        dup.duplicate_line,
        dup.key,
    )
}

/// makeobj's `tabfileobj_t::put()` keeps the first value of a key and
/// silently ignores later ones: every repetition is a warning at the line of
/// the ignored value.
pub fn check_duplicate_keys(dat: &DatFile) -> (res: Vec<Diagnostic>)
    ensures
        dviews(res@) == dat@.duplicates.map_values(|d: DupView| duplicate_warning(d)),
{
    let mut out: Vec<Diagnostic> = Vec::new();
    let n = dat.duplicates.len();
    let mut i: usize = 0;
    while i < n
        invariant
            i <= n == dat.duplicates@.len(),
            dviews(out@) == dat@.duplicates.take(i as int).map_values(|d: DupView| duplicate_warning(d)),
        decreases n - i,
    {
        let dup = &dat.duplicates[i];
        let d = Diagnostic::new(
            Severity::Warning,
            DiagnosticCode::DuplicateKey,
            vec3(dup.key.clone(), decimal_string(dup.first_line as u64), decimal_string(dup.duplicate_line as u64)),
        ).at(dup.duplicate_line, dup.key.clone());
        let ghost dv = d@;
        let ghost before = dviews(out@);
        out.push(d);
        assert(dat@.duplicates[i as int] == dup@);
        assert(dv == duplicate_warning(dup@));
        assert(dviews(out@) =~= before.push(dv));
        assert(dat@.duplicates.take(i + 1) =~= dat@.duplicates.take(i as int).push(dup@));
        assert(dat@.duplicates.take(i + 1).map_values(|d: DupView| duplicate_warning(d)) =~= dat@.duplicates.take(
            i as int,
        ).map_values(|d: DupView| duplicate_warning(d)).push(dv));
        i = i + 1;
    }
    assert(dat@.duplicates.take(n as int) =~= dat@.duplicates);
    out
}

/// Reading a key a second time adds exactly one duplicate-key warning, at
/// the line of the ignored value, naming the line of the kept one.
pub proof fn law_repeated_key_is_warned(d: DatView, key: Seq<char>, value: Seq<char>, line: nat)
    requires
        get(d, lower(key)) is Some,
    ensures
        crate::dat::insert(d, key, value, line).duplicates.map_values(|x: DupView| duplicate_warning(x))
            == d.duplicates.map_values(|x: DupView| duplicate_warning(x)).push(
            at(
                diag(
                    Severity::Warning,
                    DiagnosticCode::DuplicateKey,
                    args3(lower(key), decimal(line_of(d, lower(key)).unwrap()), decimal(line)),
                ),
                line,
                lower(key),
            ),
        ),
{
    crate::dat::law_first_write_wins(d, key, value, line);
    let d2 = crate::dat::insert(d, key, value, line);
    assert(d2.duplicates.map_values(|x: DupView| duplicate_warning(x)) =~= d.duplicates.map_values(
        |x: DupView| duplicate_warning(x),
    ).push(duplicate_warning(d2.duplicates.last())));
}

/// Reading a key for the first time adds no duplicate-key warning.
pub proof fn law_new_key_is_not_warned(d: DatView, key: Seq<char>, value: Seq<char>, line: nat)
    requires
        get(d, lower(key)) is None,
    ensures
        crate::dat::insert(d, key, value, line).duplicates == d.duplicates,
{
    crate::dat::law_read_after_first_insert(d, key, value, line);
}

// ---------------------------------------------------------------------------
// Waytype fields
// ---------------------------------------------------------------------------

/// The waytype check of a field that `get_waytype()` always reads: missing
/// or empty is an error, an unknown name is an error at the key's line, a
/// known one is noted.
pub open spec fn waytype_field(d: DatView, key: Seq<char>) -> Seq<DiagView> {
    let w = lower(value_of(d, key));
    if w.len() == 0 {
        seq![diag(Severity::Error, DiagnosticCode::MissingWaytype, args1(key))]
    } else if !known_waytypes().contains(w) {
        seq![locate(d, diag(Severity::Error, DiagnosticCode::UnknownWaytype, args2(key, w)), key)]
    } else {
        seq![diag(Severity::Info, DiagnosticCode::WaytypeOk, args2(key, w))]
    }
}

/// Checks a field that makeobj passes to `get_waytype()` unconditionally.
pub fn check_waytype_field(dat: &DatFile, key: &str) -> (res: Vec<Diagnostic>)
    ensures
        dviews(res@) == waytype_field(dat@, key@),
{
    let w = dat.get_lower(key);
    let mut out: Vec<Diagnostic> = Vec::new();
    if w.as_str().is_empty() {
        out.push(Diagnostic::new(Severity::Error, DiagnosticCode::MissingWaytype, vec1(owned(key))));
    } else if !is_known_waytype(w.as_str()) {
        let x = Diagnostic::new(Severity::Error, DiagnosticCode::UnknownWaytype, vec2(owned(key), w));
        out.push(locate_at(dat, x, key));
    } else {
        out.push(Diagnostic::new(Severity::Info, DiagnosticCode::WaytypeOk, vec2(owned(key), w)));
    }
    assert(dviews(out@) =~= waytype_field(dat@, key@));
    out
}

/// Appends diagnostics to a list of findings.
pub fn extend_diags(out: &mut Vec<Finding>, ds: Vec<Diagnostic>)
    ensures
        fviews(final(out)@) == fviews(old(out)@) + as_findings(dviews(ds@)),
{
    let n = ds.len();
    let ghost start = fviews(out@);
    let ghost dv = dviews(ds@);
    for d in it: ds
        invariant
            it.seq() == ds@,
            dv == dviews(ds@),
            fviews(out@) == start + as_findings(dv.take(it.index() as int)),
    {
        let ghost i = it.index();
        assert(d@ == dv[i as int]);
        push_diag(out, d);
        assert(as_findings(dv.take(i + 1)) =~= as_findings(dv.take(i as int)).push(FindingView::Diag(dv[i as int])));
    }
    assert(dv.take(dv.len() as int) =~= dv);
}

// ---------------------------------------------------------------------------
// `tabfileobj_t::get_int`
// ---------------------------------------------------------------------------

/// `obj.get_int(key, def)`: `def` when the key is absent, otherwise
/// `strtol(value, NULL, 0)`, which is 0 for a value without digits.
pub open spec fn get_int(d: DatView, key: Seq<char>, def: i64) -> i64 {
    match get(d, key) {
        None => def,
        Some(v) => match strtol(v) {
            Some(n) => n,
            None => 0,
        },
    }
}

/// `obj.get_int(key, def)`.
pub fn read_int(dat: &DatFile, key: &str, def: i64) -> (res: i64)
    ensures
        res == get_int(dat@, key@, def),
{
    match dat.get(key) {
        None => def,
        Some(v) => match parse_strtol_like(v) {
            Some(n) => n,
            None => 0,
        },
    }
}

/// `dat.get(key).and_then(|v| v.trim().parse::<i64>().ok()).unwrap_or(def)`:
/// the decimal value of `key`, or `def` where it is absent or not decimal.
pub open spec fn decimal_or(d: DatView, key: Seq<char>, def: i64) -> i64 {
    match get(d, key) {
        Some(v) => match crate::text::parse_i64(crate::text::trim(v)) {
            Some(n) => n,
            None => def,
        },
        None => def,
    }
}

/// The decimal value of `key`, or `def`.
pub fn read_decimal_or(dat: &DatFile, key: &str, def: i64) -> (res: i64)
    ensures
        res == decimal_or(dat@, key@, def),
{
    match dat.get(key) {
        Some(v) => match crate::text::parse_trimmed_i64(v) {
            Some(n) => n,
            None => def,
        },
        None => def,
    }
}

/// `d` pointed at the first line of `key`, where the key is present.
pub open spec fn locate(d: DatView, x: DiagView, key: Seq<char>) -> DiagView {
    match line_of(d, key) {
        Some(l) => at(x, l, key),
        None => x,
    }
}

/// `match dat.line_of(key) { Some(line) => diag.at(line, key), None => diag }`.
pub fn locate_at(dat: &DatFile, x: Diagnostic, key: &str) -> (res: Diagnostic)
    ensures
        res@ == locate(dat@, x@, key@),
{
    match dat.line_of(key) {
        Some(line) => x.at(line, owned(key)),
        None => x,
    }
}

/// A finding pointed at a key names that key and the line where the key was
/// first given, and says nothing else differently; where the key is absent
/// the finding stays as it was.
pub proof fn law_locate(d: DatView, x: DiagView, key: Seq<char>)
    ensures
        match line_of(d, key) {
            Some(l) => locate(d, x, key) == (DiagView { location: Some((l, key)), ..x }),
            None => locate(d, x, key) == x,
        },
{
}

/// Each of `ds` pointed at the first line of `key`, where the key is present.
pub fn locate_all(dat: &DatFile, ds: Vec<Diagnostic>, key: &str) -> (res: Vec<Diagnostic>)
    ensures
        dviews(res@) == dviews(ds@).map_values(|x: DiagView| locate(dat@, x, key@)),
{
    let mut out: Vec<Diagnostic> = Vec::new();
    let ghost src = dviews(ds@);
    for x in it: ds
        invariant
            it.seq() == ds@,
            src == dviews(ds@),
            dviews(out@) == src.take(it.index() as int).map_values(|y: DiagView| locate(dat@, y, key@)),
    {
        let ghost i = it.index();
        let ghost before = out@;
        let y = locate_at(dat, x, key);
        out.push(y);
        assert(src[i] == x@);
        assert(out@ == before.push(y));
        assert(dviews(out@) =~= dviews(before).push(y@));
        assert(src.take(i + 1) =~= src.take(i as int).push(src[i]));
        assert(dviews(out@) =~= src.take(i + 1).map_values(|y: DiagView| locate(dat@, y, key@)));
    }
    assert(src.take(ds@.len() as int) =~= src);
    out
}

// ---------------------------------------------------------------------------
// Silent narrowing into the written integer types
// ---------------------------------------------------------------------------

/// The smallest value of a `bits`-wide integer.
pub open spec fn int_min(bits: nat, signed: bool) -> int {
    if signed {
        -(two_pow((bits - 1) as nat) as int)
    } else {
        0
    }
}

/// The largest value of a `bits`-wide integer.
pub open spec fn int_max(bits: nat, signed: bool) -> int {
    if signed {
        two_pow((bits - 1) as nat) - 1
    } else {
        two_pow(bits) - 1
    }
}

/// makeobj reads many fields with `get_int` and assigns the result to a
/// narrower integer (`uint8`, `uint16`, ...) without a range check, so a
/// value out of that type's range silently wraps to an unrelated one. Only
/// a key that is present is judged (the default is in range).
pub open spec fn narrow_int_overflow(d: DatView, key: Seq<char>, def: i64, bits: nat, signed: bool) -> Seq<DiagView> {
    if get(d, key) is None {
        seq![]
    } else {
        let v = get_int(d, key, def);
        if int_min(bits, signed) <= v && v <= int_max(bits, signed) {
            seq![]
        } else {
            seq![
                locate(
                    d,
                    diag(
                        Severity::Warning,
                        DiagnosticCode::NarrowIntOverflow,
                        seq![key, signed_decimal(v as int), signed_decimal(int_min(bits, signed)),
                            signed_decimal(int_max(bits, signed))],
                    ),
                    key,
                ),
            ]
        }
    }
}

fn int_bounds(bits: u32, signed: bool) -> (res: (i128, i128))
    requires
        bits == 8 || bits == 16 || bits == 32,
    ensures
        res.0 == int_min(bits as nat, signed),
        res.1 == int_max(bits as nat, signed),
{
    proof {
        reveal_with_fuel(two_pow, 33);
    }
    let p: i128 = if bits == 8 {
        256
    } else if bits == 16 {
        65536
    } else {
        0x1_0000_0000
    };
    assert(p == two_pow(bits as nat));
    assert(p == 2 * two_pow((bits - 1) as nat));
    if signed {
        (-(p / 2), p / 2 - 1)
    } else {
        (0, p - 1)
    }
}

/// `2` to the power `n`.
pub open spec fn two_pow(n: nat) -> int
    decreases n,
{
    if n == 0 {
        1
    } else {
        2 * two_pow((n - 1) as nat)
    }
}

proof fn lemma_two_pow_pos(n: nat)
    ensures
        two_pow(n) >= 1,
    decreases n,
{
    if n > 0 {
        lemma_two_pow_pos((n - 1) as nat);
    }
}

/// Warns where `key`'s value does not fit the `bits`-wide integer makeobj
/// stores it in.
pub fn check_narrow_int_overflow_field(dat: &DatFile, key: &str, def: i64, bits: u32, signed: bool) -> (res: Vec<Diagnostic>)
    requires
        bits == 8 || bits == 16 || bits == 32,
    ensures
        dviews(res@) == narrow_int_overflow(dat@, key@, def, bits as nat, signed),
{
    let mut out: Vec<Diagnostic> = Vec::new();
    if dat.get(key).is_none() {
        assert(dviews(out@) =~= Seq::<DiagView>::empty());
        return out;
    }
    let v = read_int(dat, key, def);
    let (lo, hi) = int_bounds(bits, signed);
    if lo <= v as i128 && v as i128 <= hi {
        assert(dviews(out@) =~= Seq::<DiagView>::empty());
        return out;
    }
    let mut args: Vec<String> = Vec::new();
    args.push(owned(key));
    args.push(signed_decimal_string(v as i128));
    args.push(signed_decimal_string(lo));
    args.push(signed_decimal_string(hi));
    let ghost a = string_views(args@);
    assert(a =~= seq![key@, signed_decimal(v as int), signed_decimal(int_min(bits as nat, signed)),
        signed_decimal(int_max(bits as nat, signed))]);
    let x = Diagnostic::new(Severity::Warning, DiagnosticCode::NarrowIntOverflow, args);
    out.push(locate_at(dat, x, key));
    assert(dviews(out@) =~= narrow_int_overflow(dat@, key@, def, bits as nat, signed));
    out
}

/// The date index `year*12 + month - 1` that makeobj writes into a `uint16`
/// (intro/retire/preservation dates), both parts read with `get_int`
/// (month default 1). Out of `0..=65535` it wraps silently: a warning at the
/// year's line (or the month's, where only the month is given).
pub open spec fn date_index_overflow(d: DatView, year_key: Seq<char>, def_year: i64, month_key: Seq<char>) -> Seq<DiagView> {
    let y = get_int(d, year_key, def_year) as int;
    let m = get_int(d, month_key, 1) as int;
    let idx = y * 12 + m - 1;
    if 0 <= idx && idx <= 65535 {
        seq![]
    } else {
        let x = diag(
            Severity::Warning,
            DiagnosticCode::DateIndexOverflow,
            seq![year_key, signed_decimal(y), signed_decimal(m), signed_decimal(idx)],
        );
        seq![
            if get(d, year_key) is Some {
                locate(d, x, year_key)
            } else {
                locate(d, x, month_key)
            },
        ]
    }
}

/// Warns where a date index computed from `year_key`/`month_key` leaves
/// the `uint16` makeobj stores it in.
pub fn check_date_index_overflow_field(dat: &DatFile, year_key: &str, def_year: i64, month_key: &str) -> (res: Vec<Diagnostic>)
    ensures
        dviews(res@) == date_index_overflow(dat@, year_key@, def_year, month_key@),
{
    let mut out: Vec<Diagnostic> = Vec::new();
    let y = read_int(dat, year_key, def_year);
    let m = read_int(dat, month_key, 1);
    let idx: i128 = (y as i128) * 12 + (m as i128) - 1;
    if 0 <= idx && idx <= 65535 {
        assert(dviews(out@) =~= Seq::<DiagView>::empty());
        return out;
    }
    let mut args: Vec<String> = Vec::new();
    args.push(owned(year_key));
    args.push(signed_decimal_string(y as i128));
    args.push(signed_decimal_string(m as i128));
    args.push(signed_decimal_string(idx));
    let ghost a = string_views(args@);
    assert(a =~= seq![year_key@, signed_decimal(y as int), signed_decimal(m as int), signed_decimal(idx as int)]);
    let x = Diagnostic::new(Severity::Warning, DiagnosticCode::DateIndexOverflow, args);
    let located = if dat.get(year_key).is_some() {
        locate_at(dat, x, year_key)
    } else {
        locate_at(dat, x, month_key)
    };
    out.push(located);
    assert(dviews(out@) =~= date_index_overflow(dat@, year_key@, def_year, month_key@));
    out
}

/// The narrowing warnings of unsigned fields, each given as (key, default,
/// width in bits), in order.
pub open spec fn narrow_fields(d: DatView, fields: Seq<(&'static str, i64, u32)>) -> Seq<DiagView>
    decreases fields.len(),
{
    if fields.len() == 0 {
        seq![]
    } else {
        let f = fields.last();
        narrow_fields(d, fields.drop_last()) + narrow_int_overflow(d, f.0@, f.1, f.2 as nat, false)
    }
}

/// Checks unsigned fields for values that do not fit their width.
pub fn narrow_fields_rule(dat: &DatFile, fields: &[(&'static str, i64, u32)]) -> (res: Vec<Finding>)
    requires
        forall|i: int| 0 <= i < fields@.len() ==> (#[trigger] fields@[i]).2 == 8 || fields@[i].2 == 16
            || fields@[i].2 == 32,
    ensures
        fviews(res@) == as_findings(narrow_fields(dat@, fields@)),
{
    let mut ds: Vec<Diagnostic> = Vec::new();
    let mut i: usize = 0;
    while i < fields.len()
        invariant
            i <= fields@.len(),
            forall|j: int| 0 <= j < fields@.len() ==> (#[trigger] fields@[j]).2 == 8 || fields@[j].2 == 16
                || fields@[j].2 == 32,
            dviews(ds@) == narrow_fields(dat@, fields@.take(i as int)),
        decreases fields.len() - i,
    {
        let (key, def, bits) = fields[i];
        assert(fields@.take(i + 1).drop_last() =~= fields@.take(i as int));
        assert(fields@.take(i + 1).last() == fields@[i as int]);
        let mut more = check_narrow_int_overflow_field(dat, key, def, bits, false);
        let ghost before = dviews(ds@);
        let ghost m = dviews(more@);
        ds.append(&mut more);
        assert(dviews(ds@) =~= before + m);
        i = i + 1;
    }
    assert(fields@.take(fields.len() as int) =~= fields@);
    diags_as_findings(ds)
}

/// The intro and retire date indexes (intro year default `intro_default`,
/// retire year default 2999), as most writers compute them.
pub open spec fn intro_retire_overflow(d: DatView, intro_default: i64) -> Seq<FindingView> {
    as_findings(
        date_index_overflow(d, "intro_year"@, intro_default, "intro_month"@) + date_index_overflow(
            d,
            "retire_year"@,
            2999,
            "retire_month"@,
        ),
    )
}

/// Checks the intro and retire date indexes.
pub fn intro_retire_overflow_rule(dat: &DatFile, intro_default: i64) -> (res: Vec<Finding>)
    ensures
        fviews(res@) == intro_retire_overflow(dat@, intro_default),
{
    let mut out: Vec<Finding> = Vec::new();
    let a = check_date_index_overflow_field(dat, "intro_year", intro_default, "intro_month");
    let ghost av = dviews(a@);
    extend_diags(&mut out, a);
    let b = check_date_index_overflow_field(dat, "retire_year", 2999, "retire_month");
    let ghost bv = dviews(b@);
    extend_diags(&mut out, b);
    assert(as_findings(av + bv) =~= as_findings(av) + as_findings(bv));
    assert(fviews(out@) =~= intro_retire_overflow(dat@, intro_default));
    out
}

/// The findings of a check that reports diagnostics only.
pub fn diags_as_findings(ds: Vec<Diagnostic>) -> (res: Vec<Finding>)
    ensures
        fviews(res@) == as_findings(dviews(ds@)),
{
    let mut out: Vec<Finding> = Vec::new();
    extend_diags(&mut out, ds);
    assert(fviews(out@) =~= as_findings(dviews(ds@)));
    out
}

// ---------------------------------------------------------------------------
// Image references by key
// ---------------------------------------------------------------------------

/// The image finding of `key` where its value is not empty.
pub open spec fn image_if_present(d: DatView, key: Seq<char>) -> Seq<FindingView> {
    let v = value_of(d, key);
    if v.len() == 0 {
        seq![]
    } else {
        seq![image_ref_finding(v, key)]
    }
}

/// Appends the image finding of `key` where its value is not empty.
pub fn push_image_if_present(out: &mut Vec<Finding>, dat: &DatFile, key: &str)
    ensures
        fviews(final(out)@) == fviews(old(out)@) + image_if_present(dat@, key@),
{
    let v = dat.value(key);
    if v.as_str().is_empty() {
        assert(fviews(out@) =~= fviews(old(out)@) + image_if_present(dat@, key@));
    } else {
        push_image_ref(out, v.as_str(), key);
        assert(fviews(out@) =~= fviews(old(out)@) + image_if_present(dat@, key@));
    }
}

/// The image findings of `keys`, each where its value is not empty.
pub open spec fn images_if_present(d: DatView, keys: Seq<&'static str>) -> Seq<FindingView>
    decreases keys.len(),
{
    if keys.len() == 0 {
        seq![]
    } else {
        images_if_present(d, keys.drop_last()) + image_if_present(d, keys.last()@)
    }
}

/// Appends the image findings of `keys`.
pub fn push_images_if_present(out: &mut Vec<Finding>, dat: &DatFile, keys: &[&'static str])
    ensures
        fviews(final(out)@) == fviews(old(out)@) + images_if_present(dat@, keys@),
{
    let ghost start = fviews(out@);
    let mut i: usize = 0;
    while i < keys.len()
        invariant
            i <= keys@.len(),
            fviews(out@) == start + images_if_present(dat@, keys@.take(i as int)),
        decreases keys.len() - i,
    {
        assert(keys@.take(i + 1).drop_last() =~= keys@.take(i as int));
        assert(keys@.take(i + 1).last() == keys@[i as int]);
        push_image_if_present(out, dat, keys[i]);
        i = i + 1;
    }
    assert(keys@.take(keys.len() as int) =~= keys@);
}

// ---------------------------------------------------------------------------
// `skin_writer_t`: image[0], image[1], ... up to the first missing one
// ---------------------------------------------------------------------------

/// `image[i]`, `image[i+1]`, ... up to the first empty value (at most up
/// to `image[4096]`); each is an image reference, the `"-"` sentinel
/// included (it does not end the scan, and is noted rather than looked up).
pub open spec fn all_images_from(d: DatView, i: nat) -> Seq<FindingView>
    decreases 4097 - i,
{
    if i > 4096 {
        seq![]
    } else {
        let key = ikey("image["@, i, "]"@);
        let v = value_of(d, key);
        if v.len() == 0 {
            seq![]
        } else {
            seq![image_ref_finding(v, key)] + all_images_from(d, i + 1)
        }
    }
}

/// What the `skin_writer_t` image rule reports.
pub open spec fn all_images_findings(d: DatView) -> Seq<FindingView> {
    all_images_from(d, 0)
}

/// The rule of every `skin_writer_t` type (menu, cursor, symbol, smoke,
/// field, misc): every image up to the first missing index is checked.
pub fn all_images(dat: &DatFile) -> (res: Vec<Finding>)
    ensures
        fviews(res@) == all_images_from(dat@, 0),
{
    let mut out: Vec<Finding> = Vec::new();
    let mut i: u64 = 0;
    loop
        invariant
            i <= 4097,
            fviews(out@) + all_images_from(dat@, i as nat) == all_images_from(dat@, 0),
        ensures
            fviews(out@) == all_images_from(dat@, 0),
        decreases 4097 - i,
    {
        if i > 4096 {
            assert(fviews(out@) =~= fviews(out@) + all_images_from(dat@, i as nat));
            break;
        }
        let key = index_key("image[", i, "]");
        let v = dat.value(key.as_str());
        if v.as_str().is_empty() {
            assert(fviews(out@) =~= fviews(out@) + all_images_from(dat@, i as nat));
            break;
        }
        let ghost before = fviews(out@);
        push_image_ref(&mut out, v.as_str(), key.as_str());
        assert(fviews(out@) + all_images_from(dat@, (i + 1) as nat) =~= before + all_images_from(dat@, i as nat));
        i = i + 1;
    }
    out
}


/// Whether a finding is a narrowing warning about `key`.
pub open spec fn narrows(f: FindingView, key: Seq<char>) -> bool {
    f matches FindingView::Diag(x) && x.code == DiagnosticCode::NarrowIntOverflow && x.args.len() > 0 && x.args[0]
        == key
}

/// Whether some finding of `v` is a narrowing warning about `key`.
pub open spec fn warns_narrowing(v: Seq<FindingView>, key: Seq<char>) -> bool {
    exists|k: int| 0 <= k < v.len() && #[trigger] narrows(v[k], key)
}

/// The unsigned ranges makeobj narrows into: `0..=255`, `0..=65535` and
/// `0..=4294967295`.
pub proof fn lemma_unsigned_ranges()
    ensures
        int_min(8, false) == 0 && int_max(8, false) == 255,
        int_min(16, false) == 0 && int_max(16, false) == 65535,
        int_min(32, false) == 0 && int_max(32, false) == 4294967295,
{
    reveal_with_fuel(two_pow, 33);
}

/// A narrowing check on `key` warns about `other` exactly when `other` is
/// `key`, the key is given and its value lies outside the range.
pub proof fn lemma_narrowing_of_key(d: DatView, key: Seq<char>, def: i64, bits: nat, signed: bool, other: Seq<char>)
    ensures
        warns_narrowing(as_findings(narrow_int_overflow(d, key, def, bits, signed)), other) <==> (other == key && get(
            d,
            key,
        ) is Some && !(int_min(bits, signed) <= get_int(d, key, def) <= int_max(bits, signed))),
{
    let f = as_findings(narrow_int_overflow(d, key, def, bits, signed));
    if other == key && get(d, key) is Some && !(int_min(bits, signed) <= get_int(d, key, def) <= int_max(
        bits,
        signed,
    )) {
        assert(narrows(f[0], other));
    }
}

/// Narrowing warnings about `key` in two runs of findings put together are
/// those of either run.
pub proof fn lemma_narrowing_concat(x: Seq<DiagView>, y: Seq<DiagView>, key: Seq<char>)
    ensures
        warns_narrowing(as_findings(x + y), key) <==> (warns_narrowing(as_findings(x), key) || warns_narrowing(
            as_findings(y),
            key,
        )),
{
    let fx = as_findings(x);
    let fy = as_findings(y);
    let f = as_findings(x + y);
    assert(f =~= fx + fy);
    if warns_narrowing(fx, key) {
        let k = choose|k: int| 0 <= k < fx.len() && #[trigger] narrows(fx[k], key);
        assert(f[k] == fx[k]);
    }
    if warns_narrowing(fy, key) {
        let k = choose|k: int| 0 <= k < fy.len() && #[trigger] narrows(fy[k], key);
        assert(f[fx.len() + k] == fy[k]);
    }
    if warns_narrowing(f, key) {
        let k = choose|k: int| 0 <= k < f.len() && #[trigger] narrows(f[k], key);
        if k < fx.len() {
            assert(f[k] == fx[k]);
        } else {
            assert(f[k] == fy[k - fx.len()]);
        }
    }
}


/// Whether the unsigned field `f` (key, default, width) is `key`, given,
/// and out of its range.
pub open spec fn field_overflows(d: DatView, f: (&'static str, i64, u32), key: Seq<char>) -> bool {
    f.0@ == key && get(d, key) is Some && !(int_min(f.2 as nat, false) <= get_int(d, key, f.1) <= int_max(
        f.2 as nat,
        false,
    ))
}

/// A table of unsigned fields warns about `key` exactly when one of its
/// entries is `key`, given and out of range.
pub proof fn lemma_narrow_fields_warns(d: DatView, fields: Seq<(&'static str, i64, u32)>, key: Seq<char>)
    ensures
        warns_narrowing(as_findings(narrow_fields(d, fields)), key) <==> exists|i: int|
            0 <= i < fields.len() && field_overflows(d, #[trigger] fields[i], key),
    decreases fields.len(),
{
    if fields.len() > 0 {
        let init = fields.drop_last();
        let f = fields.last();
        lemma_narrow_fields_warns(d, init, key);
        lemma_narrowing_concat(narrow_fields(d, init), narrow_int_overflow(d, f.0@, f.1, f.2 as nat, false), key);
        lemma_narrowing_of_key(d, f.0@, f.1, f.2 as nat, false, key);
        if exists|i: int| 0 <= i < fields.len() && field_overflows(d, #[trigger] fields[i], key) {
            let i = choose|i: int| 0 <= i < fields.len() && field_overflows(d, #[trigger] fields[i], key);
            if i < init.len() {
                assert(init[i] == fields[i]);
            }
        }
        if exists|i: int| 0 <= i < init.len() && field_overflows(d, #[trigger] init[i], key) {
            let i = choose|i: int| 0 <= i < init.len() && field_overflows(d, #[trigger] init[i], key);
            assert(init[i] == fields[i]);
        }
        if field_overflows(d, f, key) {
            assert(fields[fields.len() - 1] == f);
        }
    }
}


/// Whether a finding is a date-index warning about `year_key`.
pub open spec fn dates(f: FindingView, year_key: Seq<char>) -> bool {
    f matches FindingView::Diag(x) && x.code == DiagnosticCode::DateIndexOverflow && x.args.len() > 0 && x.args[0]
        == year_key
}

/// Whether some finding of `v` is a date-index warning about `year_key`.
pub open spec fn warns_date(v: Seq<FindingView>, year_key: Seq<char>) -> bool {
    exists|k: int| 0 <= k < v.len() && #[trigger] dates(v[k], year_key)
}

/// A date-index check on `year_key` warns about `other` exactly when
/// `other` is `year_key` and `year*12 + month - 1` leaves `0..=65535`.
pub proof fn lemma_date_of_key(d: DatView, year_key: Seq<char>, def_year: i64, month_key: Seq<char>, other: Seq<char>)
    ensures
        warns_date(as_findings(date_index_overflow(d, year_key, def_year, month_key)), other) <==> (other == year_key
            && !(0 <= get_int(d, year_key, def_year) * 12 + get_int(d, month_key, 1) - 1 <= 65535)),
{
    let f = as_findings(date_index_overflow(d, year_key, def_year, month_key));
    if other == year_key && !(0 <= get_int(d, year_key, def_year) * 12 + get_int(d, month_key, 1) - 1 <= 65535) {
        assert(dates(f[0], other));
    }
}

/// Date-index warnings about `key` in two runs of findings put together are
/// those of either run.
pub proof fn lemma_date_concat(x: Seq<DiagView>, y: Seq<DiagView>, key: Seq<char>)
    ensures
        warns_date(as_findings(x + y), key) <==> (warns_date(as_findings(x), key) || warns_date(as_findings(y), key)),
{
    let fx = as_findings(x);
    let fy = as_findings(y);
    let f = as_findings(x + y);
    assert(f =~= fx + fy);
    if warns_date(fx, key) {
        let k = choose|k: int| 0 <= k < fx.len() && #[trigger] dates(fx[k], key);
        assert(f[k] == fx[k]);
    }
    if warns_date(fy, key) {
        let k = choose|k: int| 0 <= k < fy.len() && #[trigger] dates(fy[k], key);
        assert(f[fx.len() + k] == fy[k]);
    }
    if warns_date(f, key) {
        let k = choose|k: int| 0 <= k < f.len() && #[trigger] dates(f[k], key);
        if k < fx.len() {
            assert(f[k] == fx[k]);
        } else {
            assert(f[k] == fy[k - fx.len()]);
        }
    }
}

/// makeobj stores the intro date (year defaulting to `intro_default`) and
/// the retire date (year defaulting to 2999) as `year*12 + month - 1` in a
/// `uint16`, months defaulting to 1: each is warned about exactly when that
/// index leaves `0..=65535`.
pub proof fn law_intro_retire_dates(d: DatView, intro_default: i64)
    ensures
        warns_date(intro_retire_overflow(d, intro_default), "intro_year"@) <==> !(0 <= get_int(
            d,
            "intro_year"@,
            intro_default,
        ) * 12 + get_int(d, "intro_month"@, 1) - 1 <= 65535),
        warns_date(intro_retire_overflow(d, intro_default), "retire_year"@) <==> !(0 <= get_int(
            d,
            "retire_year"@,
            2999,
        ) * 12 + get_int(d, "retire_month"@, 1) - 1 <= 65535),
{
    reveal_strlit("intro_year");
    reveal_strlit("retire_year");
    assert("intro_year"@[0] == 'i' && "retire_year"@[0] == 'r');
    let intro_key = "intro_year"@;
    let retire_key = "retire_year"@;
    let a = date_index_overflow(d, intro_key, intro_default, "intro_month"@);
    let b = date_index_overflow(d, retire_key, 2999, "retire_month"@);
    lemma_date_concat(a, b, "intro_year"@);
    lemma_date_concat(a, b, "retire_year"@);
    lemma_date_of_key(d, intro_key, intro_default, "intro_month"@, "intro_year"@);
    lemma_date_of_key(d, intro_key, intro_default, "intro_month"@, "retire_year"@);
    lemma_date_of_key(d, retire_key, 2999, "retire_month"@, "intro_year"@);
    lemma_date_of_key(d, retire_key, 2999, "retire_month"@, "retire_year"@);
}


/// The names `get_waytype()` accepts are exactly `none`, `road`, `track`,
/// `electrified_track`, `maglev_track`, `monorail_track`,
/// `narrowgauge_track`, `water`, `air`, `schiene_tram`, `tram_track`,
/// `power` and `decoration`.
pub proof fn law_known_waytypes(w: Seq<char>)
    ensures
        known_waytypes().contains(w) <==> (w == "none"@ || w == "road"@ || w == "track"@ || w == "electrified_track"@
            || w == "maglev_track"@ || w == "monorail_track"@ || w == "narrowgauge_track"@ || w == "water"@ || w
            == "air"@ || w == "schiene_tram"@ || w == "tram_track"@ || w == "power"@ || w == "decoration"@),
{
    let v = known_waytypes();
    assert(v[0] == "none"@ && v[1] == "road"@ && v[2] == "track"@ && v[3] == "electrified_track"@ && v[4]
        == "maglev_track"@ && v[5] == "monorail_track"@ && v[6] == "narrowgauge_track"@ && v[7] == "water"@ && v[8]
        == "air"@ && v[9] == "schiene_tram"@ && v[10] == "tram_track"@ && v[11] == "power"@ && v[12]
        == "decoration"@);
    if v.contains(w) {
        let k = choose|k: int| 0 <= k < v.len() && v[k] == w;
        assert(0 <= k < 13);
    }
}

/// A waytype field is read without regard to ASCII case: missing or empty
/// is exactly the missing-waytype error naming the key, a known name is
/// noted with its lower-case form, and any other value is exactly one
/// unknown-waytype error.
pub proof fn law_waytype_field(d: DatView, key: Seq<char>)
    ensures
        ({
            let w = lower(value_of(d, key));
            &&& w.len() == 0 ==> waytype_field(d, key) == seq![
                diag(Severity::Error, DiagnosticCode::MissingWaytype, seq![key]),
            ]
            &&& w.len() != 0 && known_waytypes().contains(w) ==> waytype_field(d, key) == seq![
                diag(Severity::Info, DiagnosticCode::WaytypeOk, seq![key, w]),
            ]
            &&& w.len() != 0 && !known_waytypes().contains(w) ==> waytype_field(d, key).len() == 1 && waytype_field(
                d,
                key,
            )[0].severity == Severity::Error && waytype_field(d, key)[0].code == DiagnosticCode::UnknownWaytype
        }),
{
}


/// The writers' direction codes, in their order: `s`, `w`, `sw`, `se`, `n`,
/// `e`, `ne`, `nw`.
pub proof fn law_dir_codes()
    ensures
        dir_codes() == seq!["s"@, "w"@, "sw"@, "se"@, "n"@, "e"@, "ne"@, "nw"@],
{
    assert(dir_codes() =~= seq!["s"@, "w"@, "sw"@, "se"@, "n"@, "e"@, "ne"@, "nw"@]);
}

} // verus!
