//! `obj=smoke` (a `skin_writer_t`): every image up to the first missing index.
use vstd::prelude::*;
use crate::dat::DatFile;
use crate::diagnostics::{Finding, fviews};
use crate::registry::{Rule, rules_findings, run_rules};

verus! {

pub open spec fn all_rules() -> Seq<Rule> {
    seq![
        Rule::AllImages,
        Rule::NameAndCopyright,
    ]
}

/// The rules of `obj=smoke`, in the order they report.
pub fn all() -> (res: Vec<Rule>)
    ensures
        res@ == all_rules(),
{
    let v = vec![
        Rule::AllImages,
        Rule::NameAndCopyright,
    ];
    assert(v@ =~= all_rules());
    v
}

/// Every finding of the `obj=smoke` rules.
pub fn check_smoke(dat: &DatFile) -> (res: Vec<Finding>)
    ensures
        fviews(res@) == rules_findings(all_rules(), dat@),
{
    run_rules(&all(), dat)
}

} // verus!
