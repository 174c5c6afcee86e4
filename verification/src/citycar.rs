//! `obj=citycar` (citycar_writer.cc): the eight direction images, the date
//! indexes and the distribution weight.
use vstd::prelude::*;
use crate::common::{warns_date, law_intro_retire_dates, law_dir_codes, DIR_CODES, dir_codes, intro_retire_overflow,
    intro_retire_overflow_rule, narrow_int_overflow, check_narrow_int_overflow_field, diags_as_findings, get_int,
    warns_narrowing, lemma_unsigned_ranges, lemma_narrowing_of_key};
use crate::text::owned;
use crate::dat::{DatFile, DatView, value_of, get};
use crate::diagnostics::{Severity, DiagnosticCode, Diagnostic, Finding, FindingView, diag, args1, vec1, fviews,
    as_findings, push_diag};
use crate::images::{image_ref_finding, push_image_ref};
use crate::registry::{Rule, rules_findings, run_rules};

verus! {

pub open spec fn all_rules() -> Seq<Rule> {
    seq![
        Rule::CitycarDirectionImageRef,
        Rule::CitycarDateIndexOverflow,
        Rule::NameAndCopyright,
        Rule::CitycarDistributionWeightNarrowInt,
    ]
}

/// The rules of `obj=citycar`, in the order they report.
pub fn all() -> (res: Vec<Rule>)
    ensures
        res@ == all_rules(),
{
    let v = vec![
        Rule::CitycarDirectionImageRef,
        Rule::CitycarDateIndexOverflow,
        Rule::NameAndCopyright,
        Rule::CitycarDistributionWeightNarrowInt,
    ];
    assert(v@ =~= all_rules());
    v
}

/// Every finding of the `obj=citycar` rules.
pub fn check_citycar(dat: &DatFile) -> (res: Vec<Finding>)
    ensures
        fviews(res@) == rules_findings(all_rules(), dat@),
{
    run_rules(&all(), dat)
}

/// `image[{dir}]`.
pub open spec fn dir_key(dir: Seq<char>) -> Seq<char> {
    "image["@ + dir + "]"@
}

/// One direction image: may be omitted (noted), otherwise a reference.
pub open spec fn dir_image(d: DatView, dir: Seq<char>) -> FindingView {
    let key = dir_key(dir);
    let v = value_of(d, key);
    if v.len() == 0 {
        FindingView::Diag(diag(Severity::Debug, DiagnosticCode::ImageOmitted, args1(key)))
    } else {
        image_ref_finding(v, key)
    }
}

pub open spec fn dir_images(d: DatView, dirs: Seq<Seq<char>>) -> Seq<FindingView>
    decreases dirs.len(),
{
    if dirs.len() == 0 {
        seq![]
    } else {
        dir_images(d, dirs.drop_last()).push(dir_image(d, dirs.last()))
    }
}

/// citycar_writer.cc reads `image[{dir}]` for the eight directions; each can
/// be omitted without error.
pub open spec fn direction_image_ref(d: DatView) -> Seq<FindingView> {
    dir_images(d, dir_codes())
}

/// Appends the findings of the eight static direction images.
pub fn push_dir_images(out: &mut Vec<Finding>, dat: &DatFile)
    ensures
        fviews(final(out)@) == fviews(old(out)@) + dir_images(dat@, dir_codes()),
{
    let ghost start = fviews(out@);
    let mut i: usize = 0;
    while i < 8
        invariant
            i <= 8,
            fviews(out@) == start + dir_images(dat@, dir_codes().take(i as int)),
        decreases 8 - i,
    {
        let dir = DIR_CODES[i];
        assert(dir_codes().take(i + 1).drop_last() =~= dir_codes().take(i as int));
        assert(dir_codes().take(i + 1).last() == dir@);
        let mut key = owned("image[");
        key.append(dir);
        key.append("]");
        let v = dat.value(key.as_str());
        let ghost before = fviews(out@);
        let ghost kv = key@;
        if v.as_str().is_empty() {
            push_diag(out, Diagnostic::new(Severity::Debug, DiagnosticCode::ImageOmitted, vec1(key)));
        } else {
            push_image_ref(out, v.as_str(), key.as_str());
        }
        assert(fviews(out@) == before.push(dir_image(dat@, dir@)));
        i = i + 1;
    }
    assert(dir_codes().take(8) =~= dir_codes());
}

pub fn direction_image_ref_rule(dat: &DatFile) -> (res: Vec<Finding>)
    ensures
        fviews(res@) == direction_image_ref(dat@),
{
    let mut out: Vec<Finding> = Vec::new();
    push_dir_images(&mut out, dat);
    assert(fviews(out@) =~= direction_image_ref(dat@));
    out
}

/// citycar_writer.cc writes the intro and retire date indexes into `uint16`s.
pub open spec fn date_index_overflow(d: DatView) -> Seq<FindingView> {
    intro_retire_overflow(d, 1900)
}

pub fn date_index_overflow_rule(dat: &DatFile) -> (res: Vec<Finding>)
    ensures
        fviews(res@) == date_index_overflow(dat@),
{
    intro_retire_overflow_rule(dat, 1900)
}

/// citycar_writer.cc writes `distributionweight` (default 1) as a `uint16`.
pub open spec fn distribution_weight_narrow_int(d: DatView) -> Seq<FindingView> {
    as_findings(narrow_int_overflow(d, "distributionweight"@, 1, 16, false))
}

pub fn distribution_weight_narrow_int_rule(dat: &DatFile) -> (res: Vec<Finding>)
    ensures
        fviews(res@) == distribution_weight_narrow_int(dat@),
{
    diags_as_findings(check_narrow_int_overflow_field(dat, "distributionweight", 1, 16, false))
}


/// citycar_writer.cc writes `distributionweight` as a `uint16`: the rule
/// warns about it exactly when it is given and its value lies outside
/// `0..=65535`.
pub proof fn law_distribution_weight_is_a_uint16(d: DatView)
    ensures
        warns_narrowing(distribution_weight_narrow_int(d), "distributionweight"@) <==> (get(
            d,
            "distributionweight"@,
        ) is Some && !(0 <= get_int(d, "distributionweight"@, 1) <= 65535)),
{
    lemma_unsigned_ranges();
    lemma_narrowing_of_key(d, "distributionweight"@, 1, 16, false, "distributionweight"@);
}


/// citycar_writer.cc stores the intro date (year defaulting to 1900) and the retire date
/// (year defaulting to 2999) as `year*12 + month - 1` in a `uint16`, months
/// defaulting to 1: the rule warns about each exactly when that index
/// leaves `0..=65535`.
pub proof fn law_citycar_date_indexes(d: DatView)
    ensures
        warns_date(date_index_overflow(d), "intro_year"@) <==> !(0 <= get_int(d, "intro_year"@, 1900) * 12 + get_int(
            d,
            "intro_month"@,
            1,
        ) - 1 <= 65535),
        warns_date(date_index_overflow(d), "retire_year"@) <==> !(0 <= get_int(d, "retire_year"@, 2999) * 12
            + get_int(d, "retire_month"@, 1) - 1 <= 65535),
{
    law_intro_retire_dates(d, 1900);
}


proof fn lemma_dir_images(d: DatView, dirs: Seq<Seq<char>>)
    ensures
        dir_images(d, dirs) == dirs.map_values(|dir: Seq<char>| dir_image(d, dir)),
    decreases dirs.len(),
{
    if dirs.len() > 0 {
        lemma_dir_images(d, dirs.drop_last());
        assert(dirs.map_values(|dir: Seq<char>| dir_image(d, dir)) =~= dirs.drop_last().map_values(
            |dir: Seq<char>| dir_image(d, dir),
        ).push(dir_image(d, dirs.last())));
    } else {
        assert(dirs.map_values(|dir: Seq<char>| dir_image(d, dir)) =~= Seq::<FindingView>::empty());
    }
}

/// citycar_writer.cc reads `image[s]`, `image[w]`, `image[sw]`, `image[se]`,
/// `image[n]`, `image[e]`, `image[ne]`, `image[nw]` in that order: one
/// finding each, an omitted image only noted, a given one referenced.
pub proof fn law_citycar_direction_images(d: DatView)
    ensures
        direction_image_ref(d).len() == 8,
        forall|k: int|
            0 <= k < 8 ==> #[trigger] direction_image_ref(d)[k] == (if value_of(
                d,
                "image["@ + dir_codes()[k] + "]"@,
            ).len() == 0 {
                FindingView::Diag(
                    diag(Severity::Debug, DiagnosticCode::ImageOmitted, seq!["image["@ + dir_codes()[k] + "]"@]),
                )
            } else {
                image_ref_finding(
                    value_of(d, "image["@ + dir_codes()[k] + "]"@),
                    "image["@ + dir_codes()[k] + "]"@,
                )
            }),
        dir_codes() == seq!["s"@, "w"@, "sw"@, "se"@, "n"@, "e"@, "ne"@, "nw"@],
{
    lemma_dir_images(d, dir_codes());
    law_dir_codes();
}

} // verus!
