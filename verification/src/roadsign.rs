//! `obj=roadsign` (roadsign_writer.cc): the waytype and the sign images in
//! either the numbered or the two-dimensional syntax.
use vstd::prelude::*;
use crate::text::{decimal, decimal_string, owned};
use crate::dat::{DatFile, DatView, value_of};
use crate::diagnostics::{Severity, DiagnosticCode, Diagnostic, Finding, FindingView, diag, args1, vec1, fviews,
    as_findings, push_diag};
use crate::common::{waytype_field, check_waytype_field, extend_diags, ikey, index_key, decimal_or, read_decimal_or};
use crate::images::{image_ref_finding, push_image_ref};
use crate::registry::{Rule, rules_findings, run_rules};

verus! {

pub open spec fn all_rules() -> Seq<Rule> {
    seq![Rule::RoadsignWaytypeRequired, Rule::RoadsignImage]
}

/// The rules of `obj=roadsign`, in the order they report.
pub fn all() -> (res: Vec<Rule>)
    ensures
        res@ == all_rules(),
{
    let v = vec![Rule::RoadsignWaytypeRequired, Rule::RoadsignImage];
    assert(v@ =~= all_rules());
    v
}

/// Every finding of the `obj=roadsign` rules.
pub fn check_roadsign(dat: &DatFile) -> (res: Vec<Finding>)
    ensures
        fviews(res@) == rules_findings(all_rules(), dat@),
{
    run_rules(&all(), dat)
}

/// roadsign_writer.cc reads `get_waytype(obj.get("waytype"))` unconditionally.
pub open spec fn waytype_required(d: DatView) -> Seq<FindingView> {
    as_findings(waytype_field(d, "waytype"@))
}

pub fn waytype_required_rule(dat: &DatFile) -> (res: Vec<Finding>)
    ensures
        fviews(res@) == waytype_required(dat@),
{
    let mut out: Vec<Finding> = Vec::new();
    extend_diags(&mut out, check_waytype_field(dat, "waytype"));
    assert(fviews(out@) =~= waytype_required(dat@));
    out
}

/// A private-road sign: `is_private > 0` and none of the signal flags set.
pub open spec fn is_private_road(d: DatView) -> bool {
    let signal = decimal_or(d, "is_signal"@, 0) > 0 || decimal_or(d, "is_presignal"@, 0) > 0 || decimal_or(
        d,
        "is_prioritysignal"@,
        0,
    ) > 0 || decimal_or(d, "is_longblocksignal"@, 0) > 0;
    !signal && decimal_or(d, "is_private"@, 0) > 0
}

pub fn is_private_road_exec(dat: &DatFile) -> (res: bool)
    ensures
        res == is_private_road(dat@),
{
    let signal = read_decimal_or(dat, "is_signal", 0) > 0 || read_decimal_or(dat, "is_presignal", 0) > 0
        || read_decimal_or(dat, "is_prioritysignal", 0) > 0 || read_decimal_or(dat, "is_longblocksignal", 0) > 0;
    if signal {
        return false;
    }
    read_decimal_or(dat, "is_private", 0) > 0
}

/// The numbered syntax: `image[i]` from `i` on up to the first empty one (at
/// most `image[31]`); stopping at a count that is not a multiple of 4 is a
/// FATAL ERROR.
pub open spec fn numbered_from(d: DatView, i: nat) -> Seq<FindingView>
    decreases 32 - i,
{
    if i >= 32 {
        seq![]
    } else {
        let key = ikey("image["@, i, "]"@);
        let v = value_of(d, key);
        if v.len() == 0 {
            if i % 4 != 0 {
                seq![
                    FindingView::Diag(
                        diag(Severity::Error, DiagnosticCode::RoadsignImageCountNotMultipleOf4, args1(decimal(i))),
                    ),
                ]
            } else {
                seq![]
            }
        } else {
            seq![image_ref_finding(v, key)] + numbered_from(d, i + 1)
        }
    }
}

pub open spec fn private_dirs() -> Seq<&'static str> {
    seq!["ns", "ew"]
}

pub open spec fn traffic_light_dirs() -> Seq<&'static str> {
    seq!["n", "s", "w", "e", "nw", "se", "sw", "ne"]
}

pub open spec fn general_dirs() -> Seq<&'static str> {
    seq!["n", "s", "w", "e"]
}

/// The directions of the two-dimensional syntax and the last state that
/// must be complete: private-road signs use ns/ew (two states), traffic
/// lights (with `image[ne][0]`) eight directions, other signs four.
pub open spec fn directions(d: DatView) -> (Seq<&'static str>, nat) {
    if is_private_road(d) {
        (private_dirs(), 1)
    } else if value_of(d, "image[ne][0]"@).len() != 0 {
        (traffic_light_dirs(), 0)
    } else {
        (general_dirs(), 0)
    }
}

pub open spec fn dir_key(dir: Seq<char>, state: nat) -> Seq<char> {
    ikey("image["@ + dir + "]["@, state, "]"@)
}

/// One image of the two-dimensional syntax: missing is a FATAL ERROR.
pub open spec fn state_finding(d: DatView, dir: Seq<char>, state: nat) -> FindingView {
    let key = dir_key(dir, state);
    let v = value_of(d, key);
    if v.len() == 0 {
        FindingView::Diag(diag(Severity::Error, DiagnosticCode::RoadsignImageMissing, args1(key)))
    } else {
        image_ref_finding(v, key)
    }
}

pub open spec fn state_findings(d: DatView, dirs: Seq<&'static str>, state: nat) -> Seq<FindingView>
    decreases dirs.len(),
{
    if dirs.len() == 0 {
        seq![]
    } else {
        state_findings(d, dirs.drop_last(), state).push(state_finding(d, dirs.last()@, state))
    }
}

/// The states from `state` on (at most 8): a state past `threshold` whose
/// first direction is empty ends the signal's states.
pub open spec fn states_from(d: DatView, dirs: Seq<&'static str>, threshold: nat, state: nat) -> Seq<FindingView>
    decreases 8 - state,
{
    if state >= 8 || dirs.len() == 0 {
        seq![]
    } else if value_of(d, dir_key(dirs[0]@, state)).len() == 0 && state > threshold {
        seq![]
    } else {
        state_findings(d, dirs, state) + states_from(d, dirs, threshold, state + 1)
    }
}

/// roadsign_writer.cc uses the numbered syntax where `image[0]` is given and
/// the two-dimensional one otherwise.
pub open spec fn image(d: DatView) -> Seq<FindingView> {
    if value_of(d, "image[0]"@).len() != 0 {
        numbered_from(d, 0)
    } else {
        states_from(d, directions(d).0, directions(d).1, 0)
    }
}

fn check_numbered(dat: &DatFile) -> (res: Vec<Finding>)
    ensures
        fviews(res@) == numbered_from(dat@, 0),
{
    let mut out: Vec<Finding> = Vec::new();
    let mut i: u64 = 0;
    while i < 32
        invariant
            i <= 32,
            fviews(out@) + numbered_from(dat@, i as nat) == numbered_from(dat@, 0),
        decreases 32 - i,
    {
        let key = index_key("image[", i, "]");
        let v = dat.value(key.as_str());
        let ghost before = fviews(out@);
        if v.as_str().is_empty() {
            if i % 4 != 0 {
                push_diag(
                    &mut out,
                    Diagnostic::new(Severity::Error, DiagnosticCode::RoadsignImageCountNotMultipleOf4, vec1(decimal_string(i))),
                );
            }
            assert(fviews(out@) =~= before + numbered_from(dat@, i as nat));
            return out;
        }
        push_image_ref(&mut out, v.as_str(), key.as_str());
        assert(fviews(out@) + numbered_from(dat@, (i + 1) as nat) =~= before + numbered_from(dat@, i as nat));
        i = i + 1;
    }
    assert(fviews(out@) =~= fviews(out@) + numbered_from(dat@, i as nat));
    out
}

fn dir_key_exec(dir: &str, state: u64) -> (res: String)
    ensures
        res@ == dir_key(dir@, state as nat),
{
    let mut p = owned("image[");
    p.append(dir);
    p.append("][");
    index_key(p.as_str(), state, "]")
}

fn push_state(out: &mut Vec<Finding>, dat: &DatFile, dirs: &[&'static str], state: u64)
    ensures
        fviews(final(out)@) == fviews(old(out)@) + state_findings(dat@, dirs@, state as nat),
{
    let ghost start = fviews(out@);
    let mut i: usize = 0;
    while i < dirs.len()
        invariant
            i <= dirs@.len(),
            fviews(out@) == start + state_findings(dat@, dirs@.take(i as int), state as nat),
        decreases dirs.len() - i,
    {
        assert(dirs@.take(i + 1).drop_last() =~= dirs@.take(i as int));
        assert(dirs@.take(i + 1).last() == dirs@[i as int]);
        let key = dir_key_exec(dirs[i], state);
        let v = dat.value(key.as_str());
        let ghost before = fviews(out@);
        if v.as_str().is_empty() {
            push_diag(out, Diagnostic::new(Severity::Error, DiagnosticCode::RoadsignImageMissing, vec1(key)));
        } else {
            push_image_ref(out, v.as_str(), key.as_str());
        }
        assert(fviews(out@) == before.push(state_finding(dat@, dirs@[i as int]@, state as nat)));
        i = i + 1;
    }
    assert(dirs@.take(dirs.len() as int) =~= dirs@);
}

fn check_2d(dat: &DatFile) -> (res: Vec<Finding>)
    ensures
        fviews(res@) == states_from(dat@, directions(dat@).0, directions(dat@).1, 0),
{
    let private_dirs_a: [&'static str; 2] = ["ns", "ew"];
    let traffic_a: [&'static str; 8] = ["n", "s", "w", "e", "nw", "se", "sw", "ne"];
    let general_a: [&'static str; 4] = ["n", "s", "w", "e"];
    assert(private_dirs_a@ =~= private_dirs());
    assert(traffic_a@ =~= traffic_light_dirs());
    assert(general_a@ =~= general_dirs());
    let (dirs, threshold): (&[&'static str], u64) = if is_private_road_exec(dat) {
        (&private_dirs_a, 1)
    } else if !dat.value("image[ne][0]").as_str().is_empty() {
        (&traffic_a, 0)
    } else {
        (&general_a, 0)
    };
    assert(dirs@ == directions(dat@).0 && threshold as nat == directions(dat@).1);
    let mut out: Vec<Finding> = Vec::new();
    let mut state: u64 = 0;
    while state < 8
        invariant
            state <= 8,
            dirs@.len() > 0,
            dirs@ == directions(dat@).0,
            threshold as nat == directions(dat@).1,
            fviews(out@) + states_from(dat@, dirs@, threshold as nat, state as nat) == states_from(
                dat@,
                dirs@,
                threshold as nat,
                0,
            ),
        decreases 8 - state,
    {
        let key0 = dir_key_exec(dirs[0], state);
        let v0 = dat.value(key0.as_str());
        if v0.as_str().is_empty() && state > threshold {
            assert(fviews(out@) =~= fviews(out@) + states_from(dat@, dirs@, threshold as nat, state as nat));
            return out;
        }
        let ghost before = fviews(out@);
        push_state(&mut out, dat, dirs, state);
        assert(fviews(out@) + states_from(dat@, dirs@, threshold as nat, (state + 1) as nat) =~= before
            + states_from(dat@, dirs@, threshold as nat, state as nat));
        state = state + 1;
    }
    assert(fviews(out@) =~= fviews(out@) + states_from(dat@, dirs@, threshold as nat, state as nat));
    out
}

pub fn image_rule(dat: &DatFile) -> (res: Vec<Finding>)
    ensures
        fviews(res@) == image(dat@),
{
    if !dat.value("image[0]").as_str().is_empty() {
        check_numbered(dat)
    } else {
        check_2d(dat)
    }
}


/// The image reference of the numbered image `image[j]`.
pub open spec fn numbered_ref(d: DatView, j: nat) -> FindingView {
    image_ref_finding(value_of(d, ikey("image["@, j, "]"@)), ikey("image["@, j, "]"@))
}

proof fn lemma_numbered_from(d: DatView, i: nat, n: nat)
    requires
        i <= n <= 32,
        forall|j: nat| i <= j < n ==> #[trigger] value_of(d, ikey("image["@, j, "]"@)).len() != 0,
        n < 32 ==> value_of(d, ikey("image["@, n, "]"@)).len() == 0,
    ensures
        numbered_from(d, i) == Seq::new((n - i) as nat, |k: int| numbered_ref(d, (i + k) as nat)) + (if n % 4 != 0 {
            seq![
                FindingView::Diag(
                    diag(Severity::Error, DiagnosticCode::RoadsignImageCountNotMultipleOf4, seq![decimal(n)]),
                ),
            ]
        } else {
            seq![]
        }),
    decreases n - i,
{
    if i < n {
        assert(value_of(d, ikey("image["@, i, "]"@)).len() != 0);
        lemma_numbered_from(d, i + 1, n);
        let tail = if n % 4 != 0 {
            seq![
                FindingView::Diag(
                    diag(Severity::Error, DiagnosticCode::RoadsignImageCountNotMultipleOf4, seq![decimal(n)]),
                ),
            ]
        } else {
            seq![]
        };
        let rest = Seq::new((n - (i + 1)) as nat, |k: int| numbered_ref(d, (i + 1 + k) as nat));
        let all = Seq::new((n - i) as nat, |k: int| numbered_ref(d, (i + k) as nat));
        assert(all =~= seq![numbered_ref(d, i)] + rest);
        assert(numbered_from(d, i) == seq![numbered_ref(d, i)] + (rest + tail));
        assert(seq![numbered_ref(d, i)] + (rest + tail) =~= all + tail);
    } else {
        assert(Seq::new(0nat, |k: int| numbered_ref(d, (i + k) as nat)) =~= Seq::<FindingView>::empty());
    }
}

proof fn lemma_first_image_key()
    ensures
        ikey("image["@, 0, "]"@) == "image[0]"@,
{
    reveal_strlit("image[");
    reveal_strlit("]");
    reveal_strlit("image[0]");
    assert(decimal(0) =~= seq!['0']);
    assert(ikey("image["@, 0, "]"@) =~= "image[0]"@);
}

/// roadsign_writer.cc's numbered syntax reads `image[0]`, `image[1]`, ...
/// up to the first empty one (at most 32): with `n` images given that way,
/// the sign's image findings are their `n` references in order, followed by
/// the count error exactly when `n` is not a multiple of 4.
pub proof fn law_roadsign_numbered_images(d: DatView, n: nat)
    requires
        1 <= n <= 32,
        forall|j: nat| j < n ==> #[trigger] value_of(d, ikey("image["@, j, "]"@)).len() != 0,
        n < 32 ==> value_of(d, ikey("image["@, n, "]"@)).len() == 0,
    ensures
        image(d) == Seq::new(n, |k: int| numbered_ref(d, k as nat)) + (if n % 4 != 0 {
            seq![
                FindingView::Diag(
                    diag(Severity::Error, DiagnosticCode::RoadsignImageCountNotMultipleOf4, seq![decimal(n)]),
                ),
            ]
        } else {
            seq![]
        }),
{
    lemma_first_image_key();
    assert(value_of(d, ikey("image["@, 0, "]"@)).len() != 0);
    lemma_numbered_from(d, 0, n);
    assert(Seq::new((n - 0) as nat, |k: int| numbered_ref(d, (0 + k) as nat)) =~= Seq::new(
        n,
        |k: int| numbered_ref(d, k as nat),
    ));
}

} // verus!
