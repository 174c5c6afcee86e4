//! `obj=good` (good_writer.cc): the integer fields written narrower than
//! they are read.
use vstd::prelude::*;
use crate::dat::{DatFile, DatView, get};
use crate::diagnostics::{Diagnostic, DiagView, Finding, FindingView, fviews, as_findings, dviews};
use crate::common::{narrow_int_overflow, check_narrow_int_overflow_field, diags_as_findings, get_int,
    warns_narrowing, lemma_unsigned_ranges, lemma_narrowing_of_key, lemma_narrowing_concat};
use crate::registry::{Rule, rules_findings, run_rules};

verus! {

pub open spec fn all_rules() -> Seq<Rule> {
    seq![
        Rule::NameAndCopyright,
        Rule::GoodNarrowIntOverflow,
    ]
}

/// The rules of `obj=good`, in the order they report.
pub fn all() -> (res: Vec<Rule>)
    ensures
        res@ == all_rules(),
{
    let v = vec![
        Rule::NameAndCopyright,
        Rule::GoodNarrowIntOverflow,
    ];
    assert(v@ =~= all_rules());
    v
}

/// Every finding of the `obj=good` rules.
pub fn check_good(dat: &DatFile) -> (res: Vec<Finding>)
    ensures
        fviews(res@) == rules_findings(all_rules(), dat@),
{
    run_rules(&all(), dat)
}

/// good_writer.cc:25-28 writes `catg` (uint8, default 0), `speed_bonus`
/// (uint16, default 0) and `mapcolor` (uint8, default 255) without a range check.
pub open spec fn narrow_int(d: DatView) -> Seq<FindingView> {
    as_findings(
        narrow_int_overflow(d, "catg"@, 0, 8, false) + narrow_int_overflow(d, "speed_bonus"@, 0, 16, false)
            + narrow_int_overflow(d, "mapcolor"@, 255, 8, false),
    )
}

pub fn narrow_int_rule(dat: &DatFile) -> (res: Vec<Finding>)
    ensures
        fviews(res@) == narrow_int(dat@),
{
    let mut all: Vec<Diagnostic> = Vec::new();
    let mut a = check_narrow_int_overflow_field(dat, "catg", 0, 8, false);
    let mut b = check_narrow_int_overflow_field(dat, "speed_bonus", 0, 16, false);
    let mut c = check_narrow_int_overflow_field(dat, "mapcolor", 255, 8, false);
    let ghost av = dviews(a@);
    let ghost bv = dviews(b@);
    let ghost cv = dviews(c@);
    all.append(&mut a);
    all.append(&mut b);
    all.append(&mut c);
    assert(dviews(all@) =~= av + bv + cv);
    diags_as_findings(all)
}


proof fn lemma_good_narrowing(d: DatView, key: Seq<char>)
    ensures
        warns_narrowing(narrow_int(d), key) <==> (key == "catg"@ && get(d, key) is Some && !(0 <= get_int(d, key, 0)
            <= 255)) || (key == "speed_bonus"@ && get(d, key) is Some && !(0 <= get_int(d, key, 0) <= 65535)) || (key
            == "mapcolor"@ && get(d, key) is Some && !(0 <= get_int(d, key, 255) <= 255)),
{
    let catg_key = "catg"@;
    let speed_bonus_key = "speed_bonus"@;
    let mapcolor_key = "mapcolor"@;
    lemma_unsigned_ranges();
    let a = narrow_int_overflow(d, catg_key, 0, 8, false);
    let b = narrow_int_overflow(d, speed_bonus_key, 0, 16, false);
    let c = narrow_int_overflow(d, mapcolor_key, 255, 8, false);
    lemma_narrowing_concat(a + b, c, key);
    lemma_narrowing_concat(a, b, key);
    lemma_narrowing_of_key(d, "catg"@, 0, 8, false, key);
    lemma_narrowing_of_key(d, "speed_bonus"@, 0, 16, false, key);
    lemma_narrowing_of_key(d, "mapcolor"@, 255, 8, false, key);
}

/// good_writer.cc writes `catg` and `mapcolor` as `uint8` and `speed_bonus`
/// as `uint16`: the rule warns about each exactly when it is given and its
/// value lies outside that type's range.
pub proof fn law_good_narrowed_fields(d: DatView)
    ensures
        warns_narrowing(narrow_int(d), "catg"@) <==> (get(d, "catg"@) is Some && !(0 <= get_int(d, "catg"@, 0)
            <= 255)),
        warns_narrowing(narrow_int(d), "speed_bonus"@) <==> (get(d, "speed_bonus"@) is Some && !(0 <= get_int(
            d,
            "speed_bonus"@,
            0,
        ) <= 65535)),
        warns_narrowing(narrow_int(d), "mapcolor"@) <==> (get(d, "mapcolor"@) is Some && !(0 <= get_int(
            d,
            "mapcolor"@,
            255,
        ) <= 255)),
{
    reveal_strlit("catg");
    reveal_strlit("speed_bonus");
    reveal_strlit("mapcolor");
    assert("catg"@[0] == 'c' && "speed_bonus"@[0] == 's' && "mapcolor"@[0] == 'm');
    lemma_good_narrowing(d, "catg"@);
    lemma_good_narrowing(d, "speed_bonus"@);
    lemma_good_narrowing(d, "mapcolor"@);
}

} // verus!
