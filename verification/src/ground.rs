//! `obj=ground` (ground_writer.cc): the images of every slope and phase.
use vstd::prelude::*;
use crate::dat::{DatFile, DatView, value_of};
use crate::diagnostics::{Finding, FindingView, fviews};
use crate::common::{ikey2, index_key2};
use crate::images::{image_ref_finding, push_image_ref};
use crate::registry::{Rule, rules_findings, run_rules};

verus! {

/// The number of slopes ground_writer.cc reads.
pub const MAX_SLOPES: u64 = 128;

pub open spec fn all_rules() -> Seq<Rule> {
    seq![
        Rule::GroundSlopeImageRef,
        Rule::NameAndCopyright,
    ]
}

/// The rules of `obj=ground`, in the order they report.
pub fn all() -> (res: Vec<Rule>)
    ensures
        res@ == all_rules(),
{
    let v = vec![
        Rule::GroundSlopeImageRef,
        Rule::NameAndCopyright,
    ];
    assert(v@ =~= all_rules());
    v
}

/// Every finding of the `obj=ground` rules.
pub fn check_ground(dat: &DatFile) -> (res: Vec<Finding>)
    ensures
        fviews(res@) == rules_findings(all_rules(), dat@),
{
    run_rules(&all(), dat)
}

pub open spec fn slope_key(slope: nat, phase: nat) -> Seq<char> {
    ikey2("image["@, slope, "]["@, phase, "]"@)
}

/// The phases of one slope from `phase` on, up to the first empty one (at
/// most phase 4096).
pub open spec fn phases_from(d: DatView, slope: nat, phase: nat) -> Seq<FindingView>
    decreases 4097 - phase,
{
    if phase > 4096 {
        seq![]
    } else {
        let key = slope_key(slope, phase);
        let v = value_of(d, key);
        if v.len() == 0 {
            seq![]
        } else {
            seq![image_ref_finding(v, key)] + phases_from(d, slope, phase + 1)
        }
    }
}

/// The slopes from `slope` on, up to the first without phase 0.
pub open spec fn slopes_from(d: DatView, slope: nat) -> Seq<FindingView>
    decreases 128 - slope,
{
    if slope >= 128 {
        seq![]
    } else if value_of(d, slope_key(slope, 0)).len() == 0 {
        seq![]
    } else {
        phases_from(d, slope, 0) + slopes_from(d, slope + 1)
    }
}

/// ground_writer.cc reads `image[{slope}][{phase}]` phase by phase and slope
/// by slope, stopping at the first slope without images.
pub open spec fn slope_image_ref(d: DatView) -> Seq<FindingView> {
    slopes_from(d, 0)
}

fn push_phases(out: &mut Vec<Finding>, dat: &DatFile, slope: u64)
    ensures
        fviews(final(out)@) == fviews(old(out)@) + phases_from(dat@, slope as nat, 0),
{
    let ghost start = fviews(out@);
    let mut phase: u64 = 0;
    loop
        invariant
            phase <= 4097,
            start == fviews(old(out)@),
            fviews(out@) + phases_from(dat@, slope as nat, phase as nat) == start + phases_from(dat@, slope as nat, 0),
        decreases 4097 - phase,
    {
        if phase > 4096 {
            assert(fviews(out@) =~= fviews(out@) + phases_from(dat@, slope as nat, phase as nat));
            return;
        }
        let key = index_key2("image[", slope, "][", phase, "]");
        let v = dat.value(key.as_str());
        if v.as_str().is_empty() {
            assert(fviews(out@) =~= fviews(out@) + phases_from(dat@, slope as nat, phase as nat));
            return;
        }
        let ghost before = fviews(out@);
        push_image_ref(out, v.as_str(), key.as_str());
        assert(fviews(out@) + phases_from(dat@, slope as nat, (phase + 1) as nat) =~= before + phases_from(
            dat@,
            slope as nat,
            phase as nat,
        ));
        phase = phase + 1;
    }
}

pub fn slope_image_ref_rule(dat: &DatFile) -> (res: Vec<Finding>)
    ensures
        fviews(res@) == slope_image_ref(dat@),
{
    let mut out: Vec<Finding> = Vec::new();
    let mut slope: u64 = 0;
    while slope < MAX_SLOPES
        invariant
            slope <= 128,
            fviews(out@) + slopes_from(dat@, slope as nat) == slopes_from(dat@, 0),
        decreases 128 - slope,
    {
        let key0 = index_key2("image[", slope, "][", 0, "]");
        let v0 = dat.value(key0.as_str());
        if v0.as_str().is_empty() {
            assert(fviews(out@) =~= fviews(out@) + slopes_from(dat@, slope as nat));
            return out;
        }
        let ghost before = fviews(out@);
        push_phases(&mut out, dat, slope);
        assert(fviews(out@) + slopes_from(dat@, (slope + 1) as nat) =~= before + slopes_from(dat@, slope as nat));
        slope = slope + 1;
    }
    assert(fviews(out@) =~= fviews(out@) + slopes_from(dat@, slope as nat));
    out
}


/// The image reference of phase `k` of slope `slope`.
pub open spec fn phase_ref(d: DatView, slope: nat, k: nat) -> FindingView {
    image_ref_finding(value_of(d, slope_key(slope, k)), slope_key(slope, k))
}

proof fn lemma_phases_from(d: DatView, slope: nat, i: nat, n: nat)
    requires
        i <= n <= 4097,
        forall|j: nat| i <= j < n ==> #[trigger] value_of(d, slope_key(slope, j)).len() != 0,
        n < 4097 ==> value_of(d, slope_key(slope, n)).len() == 0,
    ensures
        phases_from(d, slope, i) == Seq::new((n - i) as nat, |k: int| phase_ref(d, slope, (i + k) as nat)),
    decreases n - i,
{
    if i < n {
        assert(value_of(d, slope_key(slope, i)).len() != 0);
        lemma_phases_from(d, slope, i + 1, n);
        let rest = Seq::new((n - (i + 1)) as nat, |k: int| phase_ref(d, slope, (i + 1 + k) as nat));
        assert(Seq::new((n - i) as nat, |k: int| phase_ref(d, slope, (i + k) as nat)) =~= seq![
            phase_ref(d, slope, i),
        ] + rest);
    } else {
        assert(Seq::new(0nat, |k: int| phase_ref(d, slope, (i + k) as nat)) =~= Seq::<FindingView>::empty());
    }
}

/// ground_writer.cc reads the phases `image[slope][0]`, `image[slope][1]`,
/// ... of a slope up to the first empty one (at most phase 4096): with the
/// first `n` given and the next not, the slope's findings are exactly their
/// `n` references in order. Without `image[0][0]` no slope is read at all.
pub proof fn law_ground_phases(d: DatView, slope: nat, n: nat)
    requires
        n <= 4097,
        forall|j: nat| j < n ==> #[trigger] value_of(d, slope_key(slope, j)).len() != 0,
        n < 4097 ==> value_of(d, slope_key(slope, n)).len() == 0,
    ensures
        phases_from(d, slope, 0) == Seq::new(n, |k: int| phase_ref(d, slope, k as nat)),
        value_of(d, slope_key(0, 0)).len() == 0 ==> slope_image_ref(d).len() == 0,
{
    lemma_phases_from(d, slope, 0, n);
    assert(Seq::new((n - 0) as nat, |k: int| phase_ref(d, slope, (0 + k) as nat)) =~= Seq::new(
        n,
        |k: int| phase_ref(d, slope, k as nat),
    ));
}

} // verus!
