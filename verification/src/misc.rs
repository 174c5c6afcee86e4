//! `obj=misc` (a `skin_writer_t`): every image up to the first missing index.
use vstd::prelude::*;
use crate::text::{views, str_in, owned};
use crate::dat::{DatFile, DatView, value_of};
use crate::diagnostics::{Severity, DiagnosticCode, Diagnostic, Finding, FindingView, diag, args2, vec2, fviews,
    push_diag};
use crate::common::{locate, locate_at};
use crate::registry::{Rule, rules_findings, run_rules};

verus! {

/// The `name=` values of `obj=misc` images that the game looks up.
pub const KNOWN_MISC_NAMES: [&'static str; 5] = ["PowerDest", "PowerSource", "Construction", "Sidewalk", "TunnelTexture"];

pub open spec fn all_rules() -> Seq<Rule> {
    seq![
        Rule::AllImages,
        Rule::NameAndCopyright,
        Rule::MiscUnknownSkinName,
    ]
}

/// The rules of `obj=misc`, in the order they report.
pub fn all() -> (res: Vec<Rule>)
    ensures
        res@ == all_rules(),
{
    let v = vec![
        Rule::AllImages,
        Rule::NameAndCopyright,
        Rule::MiscUnknownSkinName,
    ];
    assert(v@ =~= all_rules());
    v
}

/// Every finding of the `obj=misc` rules.
pub fn check_misc(dat: &DatFile) -> (res: Vec<Finding>)
    ensures
        fviews(res@) == rules_findings(all_rules(), dat@),
{
    run_rules(&all(), dat)
}

/// simskin.cc's `register_desc()` matches a misc image's name against
/// `KNOWN_MISC_NAMES` (case-sensitively) and warns "Spurious object ...
/// loaded" for any other name: a warning at the name's line.
pub open spec fn unknown_skin_name(d: DatView) -> Seq<FindingView> {
    let n = value_of(d, "name"@);
    if views(KNOWN_MISC_NAMES@).contains(n) {
        seq![]
    } else {
        seq![
            FindingView::Diag(
                locate(d, diag(Severity::Warning, DiagnosticCode::UnknownSkinName, args2("misc"@, n)), "name"@),
            ),
        ]
    }
}

pub fn unknown_skin_name_rule(dat: &DatFile) -> (res: Vec<Finding>)
    ensures
        fviews(res@) == unknown_skin_name(dat@),
{
    let n = dat.value("name");
    let known = str_in(n.as_str(), &KNOWN_MISC_NAMES);
    let mut out: Vec<Finding> = Vec::new();
    proof {
        let names = views(KNOWN_MISC_NAMES@);
        if known {
            let k = choose|k: int| 0 <= k < KNOWN_MISC_NAMES@.len() && KNOWN_MISC_NAMES@[k]@ == n@;
            assert(names[k] == n@);
        } else if names.contains(n@) {
            let k = choose|k: int| 0 <= k < names.len() && names[k] == n@;
            assert(KNOWN_MISC_NAMES@[k]@ == n@);
        }
    }
    if !known {
        let x = Diagnostic::new(Severity::Warning, DiagnosticCode::UnknownSkinName, vec2(owned("misc"), n));
        push_diag(&mut out, locate_at(dat, x, "name"));
    }
    assert(fviews(out@) =~= unknown_skin_name(dat@));
    out
}

} // verus!
