//! `obj=factory` (factory_writer.cc): the forced `type`, the map color, the
//! footprint and build tool it shares with buildings (see `house`), output
//! capacities, smoke tiles, clamped probabilities, productivity and the name
//! and copyright text.
use vstd::prelude::*;
use crate::text::{lower, trim, parse_i64, parse_trimmed_i64, str_eq, owned, decimal, decimal_string, signed_decimal,
    signed_decimal_string};
use crate::dat::{DatFile, DatView, value_of, get};
use crate::diagnostics::{Severity, DiagnosticCode, Diagnostic, DiagView, Finding, FindingView, diag, args1, args2,
    args3, vec0, vec1, vec2, vec3, fviews, dviews, as_findings, push_diag};
use crate::common::{locate, locate_at, decimal_or, read_decimal_or, ikey, index_key, diags_as_findings};
use crate::registry::{Rule, rules_findings, run_rules};

verus! {

pub open spec fn all_rules() -> Seq<Rule> {
    seq![
        Rule::FactoryTypeOverride,
        Rule::FactoryMapColor,
        Rule::ZeroSize,
        Rule::FactoryCursorIcon,
        Rule::FactoryOutputCapacity,
        Rule::FactorySmokeOffset,
        Rule::FactoryProbabilityClamp,
        Rule::FactoryProductivityZero,
        Rule::NameAndCopyright,
    ]
}

/// The rules of `obj=factory`, in the order they report.
pub fn all() -> (res: Vec<Rule>)
    ensures
        res@ == all_rules(),
{
    let v = vec![
        Rule::FactoryTypeOverride,
        Rule::FactoryMapColor,
        Rule::ZeroSize,
        Rule::FactoryCursorIcon,
        Rule::FactoryOutputCapacity,
        Rule::FactorySmokeOffset,
        Rule::FactoryProbabilityClamp,
        Rule::FactoryProductivityZero,
        Rule::NameAndCopyright,
    ];
    assert(v@ =~= all_rules());
    v
}

/// Every finding of the `obj=factory` rules.
pub fn check_factory(dat: &DatFile) -> (res: Vec<Finding>)
    ensures
        fviews(res@) == rules_findings(all_rules(), dat@),
{
    run_rules(&all(), dat)
}

/// factory_writer.cc:220's `obj.put("type", "fac")` cannot override a
/// `type=` already given (first write wins), so any explicit type other than
/// `fac` is an error at its line.
pub open spec fn type_override(d: DatView) -> Seq<FindingView> {
    let t = lower(value_of(d, "type"@));
    if t.len() == 0 || t == "fac"@ {
        seq![]
    } else {
        seq![FindingView::Diag(locate(d, diag(Severity::Error, DiagnosticCode::FactoryTypeOverride, args1(t)), "type"@))]
    }
}

pub fn type_override_rule(dat: &DatFile) -> (res: Vec<Finding>)
    ensures
        fviews(res@) == type_override(dat@),
{
    let mut out: Vec<Finding> = Vec::new();
    let t = dat.get_lower("type");
    if !(t.as_str().is_empty() || str_eq(t.as_str(), "fac")) {
        let d = Diagnostic::new(Severity::Error, DiagnosticCode::FactoryTypeOverride, vec1(t));
        push_diag(&mut out, locate_at(dat, d, "type"));
    }
    assert(fviews(out@) =~= type_override(dat@));
    out
}

/// The map color as factory_writer.cc ends up with it: the decimal value in
/// `0..=255`, anything else 255.
pub open spec fn resolved_mapcolor(d: DatView) -> i64 {
    match parse_i64(trim(value_of(d, "mapcolor"@))) {
        Some(v) => if 0 <= v && v <= 255 {
            v
        } else {
            255
        },
        None => 255,
    }
}

/// factory_writer.cc: a map color still at 255 is a FATAL ERROR ("missing an
/// identification color!"); otherwise it is noted.
pub open spec fn map_color(d: DatView) -> Seq<FindingView> {
    let c = resolved_mapcolor(d);
    if c == 255 {
        seq![FindingView::Diag(locate(d, diag(Severity::Error, DiagnosticCode::FactoryMissingMapcolor, seq![]), "mapcolor"@))]
    } else {
        seq![FindingView::Diag(diag(Severity::Info, DiagnosticCode::FactoryMapcolorOk, args1(decimal(c as nat))))]
    }
}

pub fn map_color_rule(dat: &DatFile) -> (res: Vec<Finding>)
    ensures
        fviews(res@) == map_color(dat@),
{
    let mut out: Vec<Finding> = Vec::new();
    let raw = dat.value("mapcolor");
    let c: i64 = match parse_trimmed_i64(raw.as_str()) {
        Some(v) => if 0 <= v && v <= 255 {
            v
        } else {
            255
        },
        None => 255,
    };
    if c == 255 {
        let d = Diagnostic::new(Severity::Error, DiagnosticCode::FactoryMissingMapcolor, vec0());
        push_diag(&mut out, locate_at(dat, d, "mapcolor"));
    } else {
        push_diag(
            &mut out,
            Diagnostic::new(Severity::Info, DiagnosticCode::FactoryMapcolorOk, vec1(decimal_string(c as u64))),
        );
    }
    assert(fviews(out@) =~= map_color(dat@));
    out
}

/// The output capacities from `i` on, while `outputgood[i]` is given: one
/// below 11 draws factory_writer.cc's error log ("must be larger than 10"),
/// a warning at its line.
pub open spec fn capacities_from(d: DatView, i: nat) -> Seq<DiagView>
    decreases u64::MAX - i,
{
    if i >= u64::MAX {
        seq![]
    } else if value_of(d, ikey("outputgood["@, i, "]"@)).len() == 0 {
        seq![]
    } else {
        let cap_key = ikey("outputcapacity["@, i, "]"@);
        let cap = decimal_or(d, cap_key, 0);
        (if cap < 11 {
            seq![
                locate(
                    d,
                    diag(
                        Severity::Warning,
                        DiagnosticCode::FactoryOutputCapacityTooSmall,
                        args2(cap_key, signed_decimal(cap as int)),
                    ),
                    cap_key,
                ),
            ]
        } else {
            seq![]
        }) + capacities_from(d, i + 1)
    }
}

pub open spec fn output_capacity(d: DatView) -> Seq<FindingView> {
    as_findings(capacities_from(d, 0))
}

pub fn output_capacity_rule(dat: &DatFile) -> (res: Vec<Finding>)
    ensures
        fviews(res@) == output_capacity(dat@),
{
    let mut all: Vec<Diagnostic> = Vec::new();
    let mut i: u64 = 0;
    loop
        invariant
            dviews(all@) + capacities_from(dat@, i as nat) == capacities_from(dat@, 0),
        ensures
            dviews(all@) == capacities_from(dat@, 0),
        decreases u64::MAX - i,
    {
        let ghost before = dviews(all@);
        if i == u64::MAX {
            assert(before =~= before + capacities_from(dat@, i as nat));
            break;
        }
        let good_key = index_key("outputgood[", i, "]");
        if dat.value(good_key.as_str()).as_str().is_empty() {
            assert(before =~= before + capacities_from(dat@, i as nat));
            break;
        }
        let cap_key = index_key("outputcapacity[", i, "]");
        let cap = read_decimal_or(dat, cap_key.as_str(), 0);
        if cap < 11 {
            let d = Diagnostic::new(
                Severity::Warning,
                DiagnosticCode::FactoryOutputCapacityTooSmall,
                vec2(cap_key.clone(), signed_decimal_string(cap as i128)),
            );
            let l = locate_at(dat, d, cap_key.as_str());
            let ghost lv = l@;
            all.push(l);
            assert(dviews(all@) =~= before.push(lv));
        }
        assert(dviews(all@) + capacities_from(dat@, (i + 1) as nat) =~= before + capacities_from(dat@, i as nat));
        i = i + 1;
    }
    diags_as_findings(all)
}

/// The smoke tiles from `i` on (below 4), while `smoketile[i]` is given:
/// one without its `smokeoffset[i]` draws an error log, a warning.
pub open spec fn smoke_from(d: DatView, i: nat) -> Seq<DiagView>
    decreases 4 - i,
{
    if i >= 4 {
        seq![]
    } else {
        let tile_key = ikey("smoketile["@, i, "]"@);
        if value_of(d, tile_key).len() == 0 {
            seq![]
        } else {
            let offset_key = ikey("smokeoffset["@, i, "]"@);
            (if value_of(d, offset_key).len() == 0 {
                seq![diag(Severity::Warning, DiagnosticCode::FactorySmoketileWithoutOffset, args2(tile_key, offset_key))]
            } else {
                seq![]
            }) + smoke_from(d, i + 1)
        }
    }
}

/// factory_writer.cc reads smoke tiles only where `smoketile[0]` is given.
pub open spec fn smoke_offset(d: DatView) -> Seq<FindingView> {
    if value_of(d, "smoketile[0]"@).len() == 0 {
        seq![]
    } else {
        as_findings(smoke_from(d, 0))
    }
}

pub fn smoke_offset_rule(dat: &DatFile) -> (res: Vec<Finding>)
    ensures
        fviews(res@) == smoke_offset(dat@),
{
    let mut all: Vec<Diagnostic> = Vec::new();
    if dat.value("smoketile[0]").as_str().is_empty() {
        let res = diags_as_findings(all);
        assert(fviews(res@) =~= smoke_offset(dat@));
        return res;
    }
    let mut i: u64 = 0;
    while i < 4
        invariant
            i <= 4,
            value_of(dat@, "smoketile[0]"@).len() != 0,
            dviews(all@) + smoke_from(dat@, i as nat) == smoke_from(dat@, 0),
        decreases 4 - i,
    {
        let ghost before = dviews(all@);
        let tile_key = index_key("smoketile[", i, "]");
        if dat.value(tile_key.as_str()).as_str().is_empty() {
            assert(before =~= before + smoke_from(dat@, i as nat));
            let res = diags_as_findings(all);
            assert(fviews(res@) =~= smoke_offset(dat@));
            return res;
        }
        let offset_key = index_key("smokeoffset[", i, "]");
        if dat.value(offset_key.as_str()).as_str().is_empty() {
            let d = Diagnostic::new(
                Severity::Warning,
                DiagnosticCode::FactorySmoketileWithoutOffset,
                vec2(tile_key, offset_key),
            );
            let ghost dv = d@;
            all.push(d);
            assert(dviews(all@) =~= before.push(dv));
        }
        assert(dviews(all@) + smoke_from(dat@, (i + 1) as nat) =~= before + smoke_from(dat@, i as nat));
        i = i + 1;
    }
    assert(dviews(all@) =~= dviews(all@) + smoke_from(dat@, i as nat));
    let res = diags_as_findings(all);
    assert(fviews(res@) =~= smoke_offset(dat@));
    res
}

/// factory_writer.cc silently clamps a probability of 10000 or more to
/// 10000 (`message` is its comment): a warning at the key's line.
pub open spec fn probability_field(d: DatView, key: Seq<char>, def: i64, message: Seq<char>) -> Seq<DiagView> {
    let v = decimal_or(d, key, def);
    if v >= 10000 {
        seq![
            locate(
                d,
                diag(
                    Severity::Warning,
                    DiagnosticCode::FactoryProbabilityClamped,
                    args3(key, signed_decimal(v as int), message),
                ),
                key,
            ),
        ]
    } else {
        seq![]
    }
}

/// Checks one clamped probability field.
pub fn check_probability_field(dat: &DatFile, key: &str, def: i64, message: &str) -> (res: Vec<Diagnostic>)
    ensures
        dviews(res@) == probability_field(dat@, key@, def, message@),
{
    let mut out: Vec<Diagnostic> = Vec::new();
    let v = read_decimal_or(dat, key, def);
    if v >= 10000 {
        let d = Diagnostic::new(
            Severity::Warning,
            DiagnosticCode::FactoryProbabilityClamped,
            vec3(owned(key), signed_decimal_string(v as i128), owned(message)),
        );
        out.push(locate_at(dat, d, key));
    }
    assert(dviews(out@) =~= probability_field(dat@, key@, def, message@));
    out
}

/// `probability_to_spawn` (default 10) and `expand_probability` (default 0).
pub open spec fn probability_clamp(d: DatView) -> Seq<FindingView> {
    as_findings(
        probability_field(d, "probability_to_spawn"@, 10, "probability_to_spawn too large, set to 10,000"@)
            + probability_field(d, "expand_probability"@, 0, "expand_probability too large, set to 10,000"@),
    )
}

pub fn probability_clamp_rule(dat: &DatFile) -> (res: Vec<Finding>)
    ensures
        fviews(res@) == probability_clamp(dat@),
{
    let mut all: Vec<Diagnostic> = Vec::new();
    let mut a = check_probability_field(dat, "probability_to_spawn", 10, "probability_to_spawn too large, set to 10,000");
    let mut b = check_probability_field(dat, "expand_probability", 0, "expand_probability too large, set to 10,000");
    let ghost av = dviews(a@);
    let ghost bv = dviews(b@);
    all.append(&mut a);
    all.append(&mut b);
    assert(dviews(all@) =~= av + bv);
    diags_as_findings(all)
}

/// simfab.cc divides by `productivity` (default 10): 0 is an error at its line.
pub open spec fn productivity_zero(d: DatView) -> Seq<FindingView> {
    if decimal_or(d, "productivity"@, 10) == 0 {
        seq![
            FindingView::Diag(
                locate(d, diag(Severity::Error, DiagnosticCode::FactoryProductivityZero, seq![]), "productivity"@),
            ),
        ]
    } else {
        seq![]
    }
}

pub fn productivity_zero_rule(dat: &DatFile) -> (res: Vec<Finding>)
    ensures
        fviews(res@) == productivity_zero(dat@),
{
    let mut out: Vec<Finding> = Vec::new();
    if read_decimal_or(dat, "productivity", 10) == 0 {
        let d = Diagnostic::new(Severity::Error, DiagnosticCode::FactoryProductivityZero, vec0());
        push_diag(&mut out, locate_at(dat, d, "productivity"));
    }
    assert(fviews(out@) =~= productivity_zero(dat@));
    out
}

/// Whether `outputgood[i]` is given.
pub open spec fn has_output(d: DatView, i: nat) -> bool {
    value_of(d, ikey("outputgood["@, i, "]"@)).len() != 0
}

/// The index of the first output from `i` on that is not given (below
/// `u64::MAX`): the outputs are `0..output_end(d, 0)`.
pub open spec fn output_end(d: DatView, i: nat) -> nat
    decreases u64::MAX - i,
{
    if i >= u64::MAX || !has_output(d, i) {
        i
    } else {
        output_end(d, i + 1)
    }
}

/// The capacity of output `i`: the decimal value of `outputcapacity[i]`, 0
/// where it is absent or not decimal.
pub open spec fn capacity(d: DatView, i: nat) -> i64 {
    decimal_or(d, ikey("outputcapacity["@, i, "]"@), 0)
}

/// The warning for output `i`, at the line of its capacity where given.
pub open spec fn capacity_warning(d: DatView, i: nat) -> DiagView {
    locate(
        d,
        diag(
            Severity::Warning,
            DiagnosticCode::FactoryOutputCapacityTooSmall,
            args2(ikey("outputcapacity["@, i, "]"@), signed_decimal(capacity(d, i) as int)),
        ),
        ikey("outputcapacity["@, i, "]"@),
    )
}

/// The output indexes `s..e`.
pub open spec fn indexes(s: nat, e: nat) -> Seq<nat> {
    Seq::new((e - s) as nat, |j: int| (s + j) as nat)
}

proof fn lemma_capacities_from(d: DatView, s: nat)
    ensures
        output_end(d, s) >= s,
        capacities_from(d, s) == indexes(s, output_end(d, s)).filter(|i: nat| capacity(d, i) < 11).map_values(
            |i: nat| capacity_warning(d, i),
        ),
    decreases u64::MAX - s,
{
    let p = |i: nat| capacity(d, i) < 11;
    let w = |i: nat| capacity_warning(d, i);
    if s >= u64::MAX || !has_output(d, s) {
        assert(indexes(s, output_end(d, s)) =~= Seq::<nat>::empty());
        reveal(Seq::filter);
        assert(indexes(s, output_end(d, s)).filter(p) =~= Seq::<nat>::empty());
    } else {
        lemma_capacities_from(d, s + 1);
        let e = output_end(d, s);
        let rest = indexes(s + 1, e);
        assert(indexes(s, e) =~= seq![s] + rest);
        rest.lemma_filter_prepend(s, p);
        let head: Seq<nat> = if p(s) {
            seq![s]
        } else {
            Seq::empty()
        };
        assert((head + rest.filter(p)).map_values(w) =~= head.map_values(w) + rest.filter(p).map_values(w));
        if p(s) {
            assert(head.map_values(w) =~= seq![capacity_warning(d, s)]);
        } else {
            assert(head.map_values(w) =~= Seq::<DiagView>::empty());
        }
    }
}

/// factory_writer.cc's output capacities: one warning per output
/// `outputgood[i]` (given for every index up to `i`) whose capacity is below
/// 11, in increasing `i`, at the line of `outputcapacity[i]` where it is
/// given; nothing else.
pub proof fn law_output_capacity(d: DatView)
    ensures
        output_capacity(d) == indexes(0, output_end(d, 0)).filter(|i: nat| capacity(d, i) < 11).map_values(
            |i: nat| FindingView::Diag(capacity_warning(d, i)),
        ),
{
    lemma_capacities_from(d, 0);
    let f = indexes(0, output_end(d, 0)).filter(|i: nat| capacity(d, i) < 11);
    assert(as_findings(f.map_values(|i: nat| capacity_warning(d, i))) =~= f.map_values(
        |i: nat| FindingView::Diag(capacity_warning(d, i)),
    ));
}


/// The warning for a smoke tile `smoketile[i]` given without its
/// `smokeoffset[i]`.
pub open spec fn smoke_warning(i: nat) -> DiagView {
    diag(
        Severity::Warning,
        DiagnosticCode::FactorySmoketileWithoutOffset,
        args2(ikey("smoketile["@, i, "]"@), ikey("smokeoffset["@, i, "]"@)),
    )
}

proof fn lemma_smoke_from(d: DatView, s: nat, i: nat)
    requires
        s <= i < 4,
        forall|j: nat| s <= j <= i ==> #[trigger] value_of(d, ikey("smoketile["@, j, "]"@)).len() != 0,
        value_of(d, ikey("smokeoffset["@, i, "]"@)).len() == 0,
    ensures
        smoke_from(d, s).contains(smoke_warning(i)),
    decreases i - s,
{
    assert(value_of(d, ikey("smoketile["@, s, "]"@)).len() != 0);
    if s == i {
        assert(smoke_from(d, s)[0] == smoke_warning(i));
    } else {
        lemma_smoke_from(d, s + 1, i);
        let rest = smoke_from(d, s + 1);
        let k = choose|k: int| 0 <= k < rest.len() && rest[k] == smoke_warning(i);
        let head = smoke_from(d, s).len() - rest.len();
        assert(smoke_from(d, s)[head + k] == rest[k]);
    }
}

proof fn lemma_smoke_from_sound(d: DatView, s: nat, k: int)
    requires
        0 <= k < smoke_from(d, s).len(),
    ensures
        exists|i: nat|
            s <= i < 4 && value_of(d, ikey("smoketile["@, i, "]"@)).len() != 0 && value_of(
                d,
                ikey("smokeoffset["@, i, "]"@),
            ).len() == 0 && smoke_from(d, s)[k] == #[trigger] smoke_warning(i),
    decreases 4 - s,
{
    let rest = smoke_from(d, s + 1);
    let head = smoke_from(d, s).len() - rest.len();
    if k < head {
        assert(smoke_from(d, s)[k] == smoke_warning(s));
    } else {
        assert(smoke_from(d, s)[k] == rest[k - head]);
        lemma_smoke_from_sound(d, s + 1, k - head);
    }
}

proof fn lemma_first_smoke_tile_key()
    ensures
        ikey("smoketile["@, 0, "]"@) == "smoketile[0]"@,
{
    reveal_strlit("smoketile[");
    reveal_strlit("]");
    reveal_strlit("smoketile[0]");
    assert(decimal(0) =~= seq!['0']);
    assert(ikey("smoketile["@, 0, "]"@) =~= "smoketile[0]"@);
}

/// factory_writer.cc reads the smoke tiles `smoketile[0..4]` in order and
/// stops at the first one not given: every tile `smoketile[i]` reached that
/// way (all of `smoketile[0..=i]` given) and without its `smokeoffset[i]`
/// draws the warning naming both keys.
pub proof fn law_smoke_tile_needs_offset(d: DatView, i: nat)
    requires
        i < 4,
        forall|j: nat| j <= i ==> #[trigger] value_of(d, ikey("smoketile["@, j, "]"@)).len() != 0,
        value_of(d, ikey("smokeoffset["@, i, "]"@)).len() == 0,
    ensures
        smoke_offset(d).contains(FindingView::Diag(smoke_warning(i))),
{
    lemma_first_smoke_tile_key();
    assert(value_of(d, ikey("smoketile["@, 0, "]"@)).len() != 0);
    lemma_smoke_from(d, 0, i);
    let v = smoke_from(d, 0);
    let k = choose|k: int| 0 <= k < v.len() && v[k] == smoke_warning(i);
    assert(smoke_offset(d)[k] == FindingView::Diag(smoke_warning(i)));
}

/// And nothing else: each smoke finding is the warning for some tile
/// `smoketile[i]` (`i` below 4) that is given while `smokeoffset[i]` is not.
pub proof fn law_smoke_findings_name_missing_offsets(d: DatView, k: int)
    requires
        0 <= k < smoke_offset(d).len(),
    ensures
        exists|i: nat|
            i < 4 && value_of(d, ikey("smoketile["@, i, "]"@)).len() != 0 && value_of(
                d,
                ikey("smokeoffset["@, i, "]"@),
            ).len() == 0 && smoke_offset(d)[k] == FindingView::Diag(#[trigger] smoke_warning(i)),
{
    lemma_smoke_from_sound(d, 0, k);
    assert(smoke_offset(d)[k] == FindingView::Diag(smoke_from(d, 0)[k]));
}


/// Whether a finding is a clamped-probability warning about `key`.
pub open spec fn clamps(f: FindingView, key: Seq<char>) -> bool {
    f matches FindingView::Diag(x) && x.code == DiagnosticCode::FactoryProbabilityClamped && x.args.len() > 0
        && x.args[0] == key
}

proof fn lemma_probability_clamps(x: Seq<DiagView>, y: Seq<DiagView>, key: Seq<char>)
    ensures
        (exists|k: int| 0 <= k < as_findings(x + y).len() && #[trigger] clamps(as_findings(x + y)[k], key)) <==> (
        (exists|k: int| 0 <= k < as_findings(x).len() && #[trigger] clamps(as_findings(x)[k], key)) || (exists|k: int|
            0 <= k < as_findings(y).len() && #[trigger] clamps(as_findings(y)[k], key))),
{
    let fx = as_findings(x);
    let fy = as_findings(y);
    let f = as_findings(x + y);
    assert(f =~= fx + fy);
    if exists|k: int| 0 <= k < fx.len() && #[trigger] clamps(fx[k], key) {
        let k = choose|k: int| 0 <= k < fx.len() && #[trigger] clamps(fx[k], key);
        assert(f[k] == fx[k]);
    }
    if exists|k: int| 0 <= k < fy.len() && #[trigger] clamps(fy[k], key) {
        let k = choose|k: int| 0 <= k < fy.len() && #[trigger] clamps(fy[k], key);
        assert(f[fx.len() + k] == fy[k]);
    }
    if exists|k: int| 0 <= k < f.len() && #[trigger] clamps(f[k], key) {
        let k = choose|k: int| 0 <= k < f.len() && #[trigger] clamps(f[k], key);
        if k < fx.len() {
            assert(f[k] == fx[k]);
        } else {
            assert(f[k] == fy[k - fx.len()]);
        }
    }
}

proof fn lemma_probability_field_clamps(d: DatView, key: Seq<char>, def: i64, message: Seq<char>, other: Seq<char>)
    ensures
        (exists|k: int|
            0 <= k < as_findings(probability_field(d, key, def, message)).len() && #[trigger] clamps(
                as_findings(probability_field(d, key, def, message))[k],
                other,
            )) <==> (other == key && decimal_or(d, key, def) >= 10000),
{
    let f = as_findings(probability_field(d, key, def, message));
    if other == key && decimal_or(d, key, def) >= 10000 {
        assert(clamps(f[0], other));
    }
}

/// factory_writer.cc clamps `probability_to_spawn` (default 10) and
/// `expand_probability` (default 0) to 10000: the rule warns about each
/// exactly when its decimal value is 10000 or more.
pub proof fn law_probabilities_clamp_at_10000(d: DatView)
    ensures
        (exists|k: int| 0 <= k < probability_clamp(d).len() && #[trigger] clamps(
            probability_clamp(d)[k],
            "probability_to_spawn"@,
        )) <==> decimal_or(d, "probability_to_spawn"@, 10) >= 10000,
        (exists|k: int| 0 <= k < probability_clamp(d).len() && #[trigger] clamps(
            probability_clamp(d)[k],
            "expand_probability"@,
        )) <==> decimal_or(d, "expand_probability"@, 0) >= 10000,
{
    reveal_strlit("probability_to_spawn");
    reveal_strlit("expand_probability");
    assert("probability_to_spawn"@[0] == 'p' && "expand_probability"@[0] == 'e');
    let spawn = "probability_to_spawn"@;
    let expand = "expand_probability"@;
    let m1 = "probability_to_spawn too large, set to 10,000"@;
    let m2 = "expand_probability too large, set to 10,000"@;
    let a = probability_field(d, spawn, 10, m1);
    let b = probability_field(d, expand, 0, m2);
    lemma_probability_clamps(a, b, spawn);
    lemma_probability_clamps(a, b, expand);
    lemma_probability_field_clamps(d, spawn, 10, m1, spawn);
    lemma_probability_field_clamps(d, spawn, 10, m1, expand);
    lemma_probability_field_clamps(d, expand, 0, m2, spawn);
    lemma_probability_field_clamps(d, expand, 0, m2, expand);
}

/// simfab.cc divides by `productivity`, which defaults to 10: the rule
/// reports exactly one error when its decimal value is 0 and nothing
/// otherwise; a factory without `productivity` is never reported.
pub proof fn law_productivity_zero(d: DatView)
    ensures
        decimal_or(d, "productivity"@, 10) == 0 ==> productivity_zero(d).len() == 1 && (productivity_zero(
            d,
        )[0] matches FindingView::Diag(x) && x.severity == Severity::Error && x.code
            == DiagnosticCode::FactoryProductivityZero),
        decimal_or(d, "productivity"@, 10) != 0 ==> productivity_zero(d).len() == 0,
        get(d, "productivity"@) is None ==> productivity_zero(d).len() == 0,
{
}

/// factory_writer.cc insists on an identification color: a `mapcolor` that
/// is a decimal in `0..=254` is noted with its value; anything else (absent,
/// not decimal, out of range, or 255) is exactly the missing-color error.
pub proof fn law_factory_map_color(d: DatView)
    ensures
        match parse_i64(trim(value_of(d, "mapcolor"@))) {
            Some(v) => 0 <= v <= 254 ==> map_color(d) == seq![
                FindingView::Diag(diag(Severity::Info, DiagnosticCode::FactoryMapcolorOk, seq![decimal(v as nat)])),
            ],
            None => true,
        },
        !(parse_i64(trim(value_of(d, "mapcolor"@))) matches Some(v) && 0 <= v <= 254) ==> map_color(d).len() == 1
            && (map_color(d)[0] matches FindingView::Diag(x) && x.severity == Severity::Error && x.code
            == DiagnosticCode::FactoryMissingMapcolor),
{
}

} // verus!
