//! `obj=pedestrian` (pedestrian_writer.cc): static or animated direction
//! images, the date indexes, the narrowed integers and the name and
//! copyright text.
use vstd::prelude::*;
use crate::common::{warns_date, law_intro_retire_dates, narrow_fields, narrow_fields_rule, get_int,
    warns_narrowing, lemma_unsigned_ranges, lemma_narrow_fields_warns, field_overflows, DIR_CODES, dir_codes,
    intro_retire_overflow, intro_retire_overflow_rule, ikey, index_key};
use crate::dat::{get, DatFile, DatView, value_of};
use crate::text::{owned, decimal};
use crate::diagnostics::{as_findings, Severity, DiagnosticCode, Diagnostic, Finding, FindingView, diag, args2,
    vec2, fviews, push_diag};
use crate::images::{image_ref_finding, push_image_ref};
use crate::citycar::{dir_images, push_dir_images};
use crate::registry::{Rule, rules_findings, run_rules};

verus! {

/// pedestrian_writer.cc's bound on the frames of one direction.
pub const MAX_ANIMATION_FRAMES: u64 = 500;

pub open spec fn all_rules() -> Seq<Rule> {
    seq![
        Rule::PedestrianDirectionImageRef,
        Rule::PedestrianDateIndexOverflow,
        Rule::PedestrianNarrowInt,
        Rule::NameAndCopyright,
    ]
}

/// The rules of `obj=pedestrian`, in the order they report.
pub fn all() -> (res: Vec<Rule>)
    ensures
        res@ == all_rules(),
{
    let v = vec![
        Rule::PedestrianDirectionImageRef,
        Rule::PedestrianDateIndexOverflow,
        Rule::PedestrianNarrowInt,
        Rule::NameAndCopyright,
    ];
    assert(v@ =~= all_rules());
    v
}

/// Every finding of the `obj=pedestrian` rules.
pub fn check_pedestrian(dat: &DatFile) -> (res: Vec<Finding>)
    ensures
        fviews(res@) == rules_findings(all_rules(), dat@),
{
    run_rules(&all(), dat)
}

/// `image[{dir}][{frame}]`.
pub open spec fn frame_key(dir: Seq<char>, frame: nat) -> Seq<char> {
    ikey("image["@ + dir + "]["@, frame, "]"@)
}

/// pedestrian_writer.cc takes the animated branch when any direction has
/// `image[{dir}][0]`.
pub open spec fn is_animated(d: DatView) -> bool {
    exists|i: int| 0 <= i < 8 && value_of(d, frame_key(#[trigger] dir_codes()[i], 0)).len() != 0
}

/// The frames of one direction from `frame` on, up to the first empty one
/// (at most 500); a direction without frame 0 is noted.
pub open spec fn frames_from(d: DatView, dir: Seq<char>, frame: nat) -> Seq<FindingView>
    decreases 500 - frame,
{
    if frame >= 500 {
        seq![]
    } else {
        let key = frame_key(dir, frame);
        let v = value_of(d, key);
        if v.len() == 0 {
            if frame == 0 {
                seq![FindingView::Diag(diag(Severity::Debug, DiagnosticCode::ImageOmitted, args2(key, dir)))]
            } else {
                seq![]
            }
        } else {
            seq![image_ref_finding(v, key)] + frames_from(d, dir, frame + 1)
        }
    }
}

pub open spec fn animated_images(d: DatView, dirs: Seq<Seq<char>>) -> Seq<FindingView>
    decreases dirs.len(),
{
    if dirs.len() == 0 {
        seq![]
    } else {
        animated_images(d, dirs.drop_last()) + frames_from(d, dirs.last(), 0)
    }
}

/// Animated pedestrians: every frame of every direction; static ones: the
/// eight direction images, each of which may be omitted.
pub open spec fn direction_image_ref(d: DatView) -> Seq<FindingView> {
    if is_animated(d) {
        animated_images(d, dir_codes())
    } else {
        dir_images(d, dir_codes())
    }
}

fn frame_key_exec(dir: &str, frame: u64) -> (res: String)
    ensures
        res@ == frame_key(dir@, frame as nat),
{
    let mut p = owned("image[");
    p.append(dir);
    p.append("][");
    index_key(p.as_str(), frame, "]")
}

/// Whether any direction has frame 0.
pub fn is_animated_exec(dat: &DatFile) -> (res: bool)
    ensures
        res == is_animated(dat@),
{
    let mut i: usize = 0;
    while i < 8
        invariant
            i <= 8,
            forall|j: int| 0 <= j < i ==> value_of(dat@, frame_key(#[trigger] dir_codes()[j], 0)).len() == 0,
        decreases 8 - i,
    {
        let key = frame_key_exec(DIR_CODES[i], 0);
        assert(dir_codes()[i as int] == DIR_CODES@[i as int]@);
        let v = dat.value(key.as_str());
        if !v.as_str().is_empty() {
            return true;
        }
        i = i + 1;
    }
    false
}

fn push_frames(out: &mut Vec<Finding>, dat: &DatFile, dir: &str)
    ensures
        fviews(final(out)@) == fviews(old(out)@) + frames_from(dat@, dir@, 0),
{
    let ghost start = fviews(out@);
    let mut frame: u64 = 0;
    while frame < MAX_ANIMATION_FRAMES
        invariant
            frame <= 500,
            start == fviews(old(out)@),
            fviews(out@) + frames_from(dat@, dir@, frame as nat) == start + frames_from(dat@, dir@, 0),
        decreases 500 - frame,
    {
        let key = frame_key_exec(dir, frame);
        let v = dat.value(key.as_str());
        let ghost before = fviews(out@);
        if v.as_str().is_empty() {
            if frame == 0 {
                push_diag(out, Diagnostic::new(Severity::Debug, DiagnosticCode::ImageOmitted, vec2(key, owned(dir))));
            }
            assert(fviews(out@) =~= before + frames_from(dat@, dir@, frame as nat));
            return;
        }
        push_image_ref(out, v.as_str(), key.as_str());
        assert(fviews(out@) + frames_from(dat@, dir@, (frame + 1) as nat) =~= before + frames_from(
            dat@,
            dir@,
            frame as nat,
        ));
        frame = frame + 1;
    }
    assert(fviews(out@) =~= fviews(out@) + frames_from(dat@, dir@, frame as nat));
}

pub fn direction_image_ref_rule(dat: &DatFile) -> (res: Vec<Finding>)
    ensures
        fviews(res@) == direction_image_ref(dat@),
{
    let mut out: Vec<Finding> = Vec::new();
    if is_animated_exec(dat) {
        let mut i: usize = 0;
        while i < 8
            invariant
                i <= 8,
                fviews(out@) == animated_images(dat@, dir_codes().take(i as int)),
            decreases 8 - i,
        {
            assert(dir_codes().take(i + 1).drop_last() =~= dir_codes().take(i as int));
            assert(dir_codes().take(i + 1).last() == DIR_CODES@[i as int]@);
            push_frames(&mut out, dat, DIR_CODES[i]);
            i = i + 1;
        }
        assert(dir_codes().take(8) =~= dir_codes());
    } else {
        push_dir_images(&mut out, dat);
        assert(fviews(out@) =~= dir_images(dat@, dir_codes()));
    }
    out
}

/// pedestrian_writer.cc writes the intro (default year 1) and retire date
/// indexes into `uint16`s.
pub open spec fn date_index_overflow(d: DatView) -> Seq<FindingView> {
    intro_retire_overflow(d, 1)
}

pub fn date_index_overflow_rule(dat: &DatFile) -> (res: Vec<Finding>)
    ensures
        fviews(res@) == date_index_overflow(dat@),
{
    intro_retire_overflow_rule(dat, 1)
}

/// pedestrian_writer.cc writes `distributionweight` (default 1) and `offset` as
/// `uint16`s.
pub open spec fn narrow_fields_of() -> Seq<(&'static str, i64, u32)> {
    seq![("distributionweight", 1i64, 16u32), ("offset", 0i64, 16u32)]
}

pub open spec fn narrow_int(d: DatView) -> Seq<FindingView> {
    as_findings(narrow_fields(d, narrow_fields_of()))
}

pub fn narrow_int_rule(dat: &DatFile) -> (res: Vec<Finding>)
    ensures
        fviews(res@) == narrow_int(dat@),
{
    let fields: [(&'static str, i64, u32); 2] = [("distributionweight", 1, 16), ("offset", 0, 16)];
    assert(fields@ =~= narrow_fields_of());
    narrow_fields_rule(dat, &fields)
}


/// pedestrian_writer.cc writes `distributionweight` (default 1) and
/// `offset` as `uint16`: the rule warns about each exactly when it is given
/// and its value lies outside `0..=65535`.
pub proof fn law_pedestrian_narrowed_fields(d: DatView)
    ensures
        warns_narrowing(narrow_int(d), "distributionweight"@) <==> (get(d, "distributionweight"@) is Some && !(0
            <= get_int(d, "distributionweight"@, 1) <= 65535)),
        warns_narrowing(narrow_int(d), "offset"@) <==> (get(d, "offset"@) is Some && !(0 <= get_int(
            d,
            "offset"@,
            0,
        ) <= 65535)),
{
    lemma_unsigned_ranges();
    reveal_strlit("distributionweight");
    reveal_strlit("offset");
    assert("distributionweight"@[0] == 'd' && "offset"@[0] == 'o');
    let t = narrow_fields_of();
    lemma_narrow_fields_warns(d, t, "distributionweight"@);
    lemma_narrow_fields_warns(d, t, "offset"@);
    assert(field_overflows(d, t[0], "distributionweight"@) == (get(d, "distributionweight"@) is Some && !(0
        <= get_int(d, "distributionweight"@, 1) <= 65535)));
    assert(!field_overflows(d, t[1], "distributionweight"@));
    assert(!field_overflows(d, t[0], "offset"@));
    assert(field_overflows(d, t[1], "offset"@) == (get(d, "offset"@) is Some && !(0 <= get_int(
        d,
        "offset"@,
        0,
    ) <= 65535)));
}


/// pedestrian_writer.cc stores the intro date (year defaulting to 1) and the retire date
/// (year defaulting to 2999) as `year*12 + month - 1` in a `uint16`, months
/// defaulting to 1: the rule warns about each exactly when that index
/// leaves `0..=65535`.
pub proof fn law_pedestrian_date_indexes(d: DatView)
    ensures
        warns_date(date_index_overflow(d), "intro_year"@) <==> !(0 <= get_int(d, "intro_year"@, 1) * 12 + get_int(
            d,
            "intro_month"@,
            1,
        ) - 1 <= 65535),
        warns_date(date_index_overflow(d), "retire_year"@) <==> !(0 <= get_int(d, "retire_year"@, 2999) * 12
            + get_int(d, "retire_month"@, 1) - 1 <= 65535),
{
    law_intro_retire_dates(d, 1);
}


/// The image reference of frame `k` of direction `dir`.
pub open spec fn frame_ref(d: DatView, dir: Seq<char>, k: nat) -> FindingView {
    image_ref_finding(value_of(d, frame_key(dir, k)), frame_key(dir, k))
}

proof fn lemma_frames_from(d: DatView, dir: Seq<char>, i: nat, n: nat)
    requires
        i <= n <= 500,
        forall|j: nat| i <= j < n ==> #[trigger] value_of(d, frame_key(dir, j)).len() != 0,
        n < 500 ==> value_of(d, frame_key(dir, n)).len() == 0,
        n > 0,
    ensures
        frames_from(d, dir, i) == Seq::new((n - i) as nat, |k: int| frame_ref(d, dir, (i + k) as nat)),
    decreases n - i,
{
    if i < n {
        assert(value_of(d, frame_key(dir, i)).len() != 0);
        lemma_frames_from(d, dir, i + 1, n);
        let rest = Seq::new((n - (i + 1)) as nat, |k: int| frame_ref(d, dir, (i + 1 + k) as nat));
        assert(Seq::new((n - i) as nat, |k: int| frame_ref(d, dir, (i + k) as nat)) =~= seq![frame_ref(d, dir, i)]
            + rest);
    } else {
        assert(Seq::new(0nat, |k: int| frame_ref(d, dir, (i + k) as nat)) =~= Seq::<FindingView>::empty());
    }
}

/// pedestrian_writer.cc reads the frames `image[dir][0]`, `image[dir][1]`,
/// ... of a direction up to the first empty one (at most 500): with the
/// first `n` given (`n` at least 1) and the next not, the direction's
/// findings are exactly their `n` references in order; a direction without
/// frame 0 is only noted.
pub proof fn law_pedestrian_frames(d: DatView, dir: Seq<char>, n: nat)
    requires
        n <= 500,
        forall|j: nat| j < n ==> #[trigger] value_of(d, frame_key(dir, j)).len() != 0,
        n < 500 ==> value_of(d, frame_key(dir, n)).len() == 0,
    ensures
        n > 0 ==> frames_from(d, dir, 0) == Seq::new(n, |k: int| frame_ref(d, dir, k as nat)),
        n == 0 ==> frames_from(d, dir, 0) == seq![
            FindingView::Diag(diag(Severity::Debug, DiagnosticCode::ImageOmitted, seq![frame_key(dir, 0), dir])),
        ],
{
    if n > 0 {
        lemma_frames_from(d, dir, 0, n);
        assert(Seq::new((n - 0) as nat, |k: int| frame_ref(d, dir, (0 + k) as nat)) =~= Seq::new(
            n,
            |k: int| frame_ref(d, dir, k as nat),
        ));
    }
}

} // verus!
