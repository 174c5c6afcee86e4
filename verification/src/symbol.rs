//! `obj=symbol` (a `skin_writer_t`): every image up to the first missing
//! index, and whether the game looks the symbol's name up at all.
use vstd::prelude::*;
use crate::text::{views, str_in, owned};
use crate::dat::{DatFile, DatView, value_of};
use crate::diagnostics::{Severity, DiagnosticCode, Diagnostic, Finding, FindingView, diag, args2, vec2, fviews,
    push_diag};
use crate::common::{locate, locate_at};
use crate::registry::{Rule, rules_findings, run_rules};

verus! {

/// The names of simskin.cc's `symbol_objekte`: symbols only `obj=symbol`
/// provides.
pub const KNOWN_SYMBOL_OWN_NAMES: [&'static str; 13] = [
    "NewYear",
    "NewTime",
    "Flags",
    "Message",
    "Questionmark",
    "Electricity",
    "InTown",
    "InputOutput",
    "Passagiere",
    "Post",
    "Waren",
    "Logo",
    "StationType",
];

/// The names of simskin.cc's `fakultative_objekte`, which `obj=cursor` and
/// `obj=symbol` images may both provide.
pub const FAKULTATIVE_SKIN_NAMES: [&'static str; 21] = [
    "BigLogo",
    "Mouse",
    "Zoom",
    "MessageOptions",
    "ColorOptions",
    "CompassIso",
    "CompassMap",
    "PassengersEvaluation",
    "Alerts",
    "OpenWindow",
    "Seasons",
    "Search",
    "TrainStop",
    "CarStop",
    "ShipStop",
    "AirStop",
    "MonorailStop",
    "MaglevStop",
    "NarrowgaugeStop",
    "BusStop",
    "TramStop",
];

pub open spec fn all_rules() -> Seq<Rule> {
    seq![Rule::AllImages, Rule::SymbolUnknownSkinName]
}

/// The rules of `obj=symbol`, in the order they report.
pub fn all() -> (res: Vec<Rule>)
    ensures
        res@ == all_rules(),
{
    let v = vec![Rule::AllImages, Rule::SymbolUnknownSkinName];
    assert(v@ =~= all_rules());
    v
}

/// Every finding of the `obj=symbol` rules.
pub fn check_symbol(dat: &DatFile) -> (res: Vec<Finding>)
    ensures
        fviews(res@) == rules_findings(all_rules(), dat@),
{
    run_rules(&all(), dat)
}

/// The names a symbol image can have for the game to use it.
pub open spec fn known_symbol_names() -> Seq<Seq<char>> {
    views(KNOWN_SYMBOL_OWN_NAMES@) + views(FAKULTATIVE_SKIN_NAMES@)
}

/// simskin.cc's `register_desc()` matches a symbol's name (case-sensitively)
/// against its own symbols and the shared optional ones, and warns
/// "Spurious object ... loaded" for any other name: a warning at the name's
/// line.
pub open spec fn unknown_skin_name(d: DatView) -> Seq<FindingView> {
    let n = value_of(d, "name"@);
    if known_symbol_names().contains(n) {
        seq![]
    } else {
        seq![
            FindingView::Diag(
                locate(d, diag(Severity::Warning, DiagnosticCode::UnknownSkinName, args2("symbol"@, n)), "name"@),
            ),
        ]
    }
}

/// Whether `n` is one of `list`, as a property of the list's views.
fn listed(n: &str, list: &[&'static str]) -> (res: bool)
    ensures
        res == views(list@).contains(n@),
{
    let r = str_in(n, list);
    proof {
        let names = views(list@);
        if r {
            let k = choose|k: int| 0 <= k < list@.len() && list@[k]@ == n@;
            assert(names[k] == n@);
        } else if names.contains(n@) {
            let k = choose|k: int| 0 <= k < names.len() && names[k] == n@;
            assert(list@[k]@ == n@);
        }
    }
    r
}

pub fn unknown_skin_name_rule(dat: &DatFile) -> (res: Vec<Finding>)
    ensures
        fviews(res@) == unknown_skin_name(dat@),
{
    let n = dat.value("name");
    let own = listed(n.as_str(), &KNOWN_SYMBOL_OWN_NAMES);
    let shared = listed(n.as_str(), &FAKULTATIVE_SKIN_NAMES);
    proof {
        let a = views(KNOWN_SYMBOL_OWN_NAMES@);
        let b = views(FAKULTATIVE_SKIN_NAMES@);
        if own {
            let k = choose|k: int| 0 <= k < a.len() && a[k] == n@;
            assert(known_symbol_names()[k] == n@);
        } else if shared {
            let k = choose|k: int| 0 <= k < b.len() && b[k] == n@;
            assert(known_symbol_names()[a.len() + k] == n@);
        } else if known_symbol_names().contains(n@) {
            let k = choose|k: int| 0 <= k < known_symbol_names().len() && known_symbol_names()[k] == n@;
            if k < a.len() {
                assert(a[k] == n@);
            } else {
                assert(b[k - a.len()] == n@);
            }
        }
    }
    let mut out: Vec<Finding> = Vec::new();
    if !own && !shared {
        let x = Diagnostic::new(Severity::Warning, DiagnosticCode::UnknownSkinName, vec2(owned("symbol"), n));
        push_diag(&mut out, locate_at(dat, x, "name"));
    }
    assert(fviews(out@) =~= unknown_skin_name(dat@));
    out
}

} // verus!
