//! `obj=tree` (tree_writer.cc): one image for every age and season.
use vstd::prelude::*;
use crate::text::{decimal, decimal_string};
use crate::dat::{DatFile, DatView, value_of};
use crate::diagnostics::{Severity, DiagnosticCode, Diagnostic, Finding, FindingView, diag, args3, vec3,
    fviews, push_diag};
use crate::common::{ikey2, index_key2, decimal_or, read_decimal_or};
use crate::images::{image_ref_finding, push_image_ref};
use crate::registry::{Rule, rules_findings, run_rules};

verus! {

/// The five growth stages of a tree.
pub const AGE_COUNT: u64 = 5;

pub open spec fn all_rules() -> Seq<Rule> {
    seq![
        Rule::TreeAgeSeasonImage,
        Rule::NameAndCopyright,
    ]
}

/// The rules of `obj=tree`, in the order they report.
pub fn all() -> (res: Vec<Rule>)
    ensures
        res@ == all_rules(),
{
    let v = vec![
        Rule::TreeAgeSeasonImage,
        Rule::NameAndCopyright,
    ];
    assert(v@ =~= all_rules());
    v
}

/// Every finding of the `obj=tree` rules.
pub fn check_tree(dat: &DatFile) -> (res: Vec<Finding>)
    ensures
        fviews(res@) == rules_findings(all_rules(), dat@),
{
    run_rules(&all(), dat)
}

/// The number of seasons: the decimal value of `seasons` (1 where it is
/// absent or not decimal), narrowed as tree_writer.cc's `uint8
/// number_of_seasons` narrows it to `0..=255` (`0` asks for no image at
/// all, `257` for one season).
pub open spec fn seasons(d: DatView) -> int {
    decimal_or(d, "seasons"@, 1) as int % 256
}

pub fn seasons_exec(dat: &DatFile) -> (res: i64)
    ensures
        res == seasons(dat@),
        0 <= res < 256,
{
    let s = read_decimal_or(dat, "seasons", 1);
    match s.checked_rem_euclid(256) {
        Some(r) => r,
        None => 0,
    }
}

/// `image[{age}][{season}]`: missing is a FATAL ERROR ("Missing ...!").
pub open spec fn age_season_finding(d: DatView, age: nat, season: nat) -> FindingView {
    let key = ikey2("image["@, age, "]["@, season, "]"@);
    let v = value_of(d, key);
    if v.len() == 0 {
        FindingView::Diag(
            diag(Severity::Error, DiagnosticCode::MissingAgeSeasonImage, args3(key, decimal(age), decimal(season))),
        )
    } else {
        image_ref_finding(v, key)
    }
}

pub open spec fn seasons_from(d: DatView, age: nat, season: nat, count: int) -> Seq<FindingView>
    decreases count - season,
{
    if season >= count {
        seq![]
    } else {
        seq![age_season_finding(d, age, season)] + seasons_from(d, age, season + 1, count)
    }
}

pub open spec fn ages_from(d: DatView, age: nat, count: int) -> Seq<FindingView>
    decreases 5 - age,
{
    if age >= 5 {
        seq![]
    } else {
        seasons_from(d, age, 0, count) + ages_from(d, age + 1, count)
    }
}

/// tree_writer.cc reads `image[{age}][{season}]` for the five ages and every
/// season.
pub open spec fn age_season_image(d: DatView) -> Seq<FindingView> {
    ages_from(d, 0, seasons(d))
}

fn push_age(out: &mut Vec<Finding>, dat: &DatFile, age: u64, count: i64)
    requires
        count >= 0,
    ensures
        fviews(final(out)@) == fviews(old(out)@) + seasons_from(dat@, age as nat, 0, count as int),
{
    let ghost start = fviews(out@);
    let mut season: u64 = 0;
    while (season as i64) < count
        invariant
            season <= count <= i64::MAX,
            fviews(out@) + seasons_from(dat@, age as nat, season as nat, count as int) == start + seasons_from(
                dat@,
                age as nat,
                0,
                count as int,
            ),
        decreases count - season,
    {
        let key = index_key2("image[", age, "][", season, "]");
        let v = dat.value(key.as_str());
        let ghost before = fviews(out@);
        if v.as_str().is_empty() {
            push_diag(
                out,
                Diagnostic::new(
                    Severity::Error,
                    DiagnosticCode::MissingAgeSeasonImage,
                    vec3(key, decimal_string(age), decimal_string(season)),
                ),
            );
        } else {
            push_image_ref(out, v.as_str(), key.as_str());
        }
        assert(fviews(out@) + seasons_from(dat@, age as nat, (season + 1) as nat, count as int) =~= before
            + seasons_from(dat@, age as nat, season as nat, count as int));
        season = season + 1;
    }
    assert(fviews(out@) =~= fviews(out@) + seasons_from(dat@, age as nat, season as nat, count as int));
}

pub fn age_season_image_rule(dat: &DatFile) -> (res: Vec<Finding>)
    ensures
        fviews(res@) == age_season_image(dat@),
{
    let count = seasons_exec(dat);
    let mut out: Vec<Finding> = Vec::new();
    let mut age: u64 = 0;
    while age < AGE_COUNT
        invariant
            age <= 5,
            count == seasons(dat@),
            count >= 0,
            fviews(out@) + ages_from(dat@, age as nat, count as int) == ages_from(dat@, 0, count as int),
        decreases 5 - age,
    {
        let ghost before = fviews(out@);
        push_age(&mut out, dat, age, count);
        assert(fviews(out@) + ages_from(dat@, (age + 1) as nat, count as int) =~= before + ages_from(
            dat@,
            age as nat,
            count as int,
        ));
        age = age + 1;
    }
    assert(fviews(out@) =~= fviews(out@) + ages_from(dat@, age as nat, count as int));
    out
}

/// The findings of one age: `image[age][season]` for every season in order.
pub open spec fn age_row(d: DatView, age: nat, n: int) -> Seq<FindingView> {
    Seq::new(if n < 0 {
        0
    } else {
        n as nat
    }, |s: int| age_season_finding(d, age, s as nat))
}

proof fn lemma_seasons_from(d: DatView, age: nat, season: nat, n: int)
    requires
        season <= n,
    ensures
        seasons_from(d, age, season, n) == Seq::new((n - season) as nat, |j: int| age_season_finding(d, age, (season + j) as nat)),
    decreases n - season,
{
    if season < n {
        lemma_seasons_from(d, age, season + 1, n);
        assert(seasons_from(d, age, season, n) =~= Seq::new((n - season) as nat, |j: int| age_season_finding(d, age, (season + j) as nat)));
    } else {
        assert(seasons_from(d, age, season, n) =~= Seq::new((n - season) as nat, |j: int| age_season_finding(d, age, (season + j) as nat)));
    }
}

/// The tree rule's seasons are the decimal value of `seasons` (1 where it is
/// absent or not decimal) wrapped into `0..256`, and the rule
/// reports, age by age (0 to 4) and season by season, a FATAL "Missing"
/// error for each empty `image[age][season]` and an image reference for each
/// given one; nothing else.
pub proof fn law_tree_seasons(d: DatView)
    ensures
        0 <= seasons(d) < 256,
        seasons(d) == decimal_or(d, "seasons"@, 1) as int % 256,
        age_season_image(d) == age_row(d, 0, seasons(d)) + age_row(d, 1, seasons(d)) + age_row(d, 2, seasons(d))
            + age_row(d, 3, seasons(d)) + age_row(d, 4, seasons(d)),
{
    let n = seasons(d);
    reveal_with_fuel(ages_from, 6);
    assert forall|a: nat| a < 5 implies #[trigger] seasons_from(d, a, 0, n) == age_row(d, a, n) by {
        lemma_seasons_from(d, a, 0, n);
        assert(seasons_from(d, a, 0, n) =~= age_row(d, a, n));
    }
    assert(ages_from(d, 5, n) =~= Seq::<FindingView>::empty());
    assert(seasons_from(d, 0, 0, n) == age_row(d, 0, n));
    assert(seasons_from(d, 1, 0, n) == age_row(d, 1, n));
    assert(seasons_from(d, 2, 0, n) == age_row(d, 2, n));
    assert(seasons_from(d, 3, 0, n) == age_row(d, 3, n));
    assert(seasons_from(d, 4, 0, n) == age_row(d, 4, n));
    assert(age_season_image(d) =~= age_row(d, 0, n) + age_row(d, 1, n) + age_row(d, 2, n) + age_row(d, 3, n)
        + age_row(d, 4, n));
}

} // verus!
