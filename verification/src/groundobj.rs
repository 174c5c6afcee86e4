//! `obj=ground_obj` (groundobj_writer.cc): an optional waytype, and season
//! images for fixed or moving objects.
use vstd::prelude::*;
use crate::text::{lower, decimal, decimal_string, owned};
use crate::dat::{DatFile, DatView, value_of, get};
use crate::diagnostics::{Severity, DiagnosticCode, Diagnostic, Finding, FindingView, diag, args2, args3, vec0,
    vec2, vec3, fviews, push_diag};
use crate::common::{locate, locate_at, DIR_CODES, dir_codes, known_waytypes, is_known_waytype, ikey, ikey2,
    index_key, index_key2, get_int, read_int, decimal_or, read_decimal_or};
use crate::images::{image_ref_finding, push_image_ref};
use crate::registry::{Rule, rules_findings, run_rules};

verus! {

pub open spec fn all_rules() -> Seq<Rule> {
    seq![Rule::GroundObjWaytypeIfPresentValid, Rule::GroundObjSeasonImage]
}

/// The rules of `obj=ground_obj`, in the order they report.
pub fn all() -> (res: Vec<Rule>)
    ensures
        res@ == all_rules(),
{
    let v = vec![Rule::GroundObjWaytypeIfPresentValid, Rule::GroundObjSeasonImage];
    assert(v@ =~= all_rules());
    v
}

/// Every finding of the `obj=ground_obj` rules.
pub fn check_groundobj(dat: &DatFile) -> (res: Vec<Finding>)
    ensures
        fviews(res@) == rules_findings(all_rules(), dat@),
{
    run_rules(&all(), dat)
}

/// groundobj_writer.cc only calls `get_waytype()` for a non-empty waytype:
/// omitting it is fine (noted), an unknown name is a FATAL ERROR.
pub open spec fn waytype_if_present_valid(d: DatView) -> Seq<FindingView> {
    let w = lower(value_of(d, "waytype"@));
    if w.len() == 0 {
        seq![FindingView::Diag(diag(Severity::Info, DiagnosticCode::WaytypeOmitted, seq![]))]
    } else if !known_waytypes().contains(w) {
        seq![FindingView::Diag(locate(d, diag(Severity::Error, DiagnosticCode::UnknownWaytype, args2("waytype"@, w)), "waytype"@))]
    } else {
        seq![FindingView::Diag(diag(Severity::Info, DiagnosticCode::WaytypeOk, args2("waytype"@, w)))]
    }
}

pub fn waytype_if_present_valid_rule(dat: &DatFile) -> (res: Vec<Finding>)
    ensures
        fviews(res@) == waytype_if_present_valid(dat@),
{
    let mut out: Vec<Finding> = Vec::new();
    let w = dat.get_lower("waytype");
    if w.as_str().is_empty() {
        push_diag(&mut out, Diagnostic::new(Severity::Info, DiagnosticCode::WaytypeOmitted, vec0()));
    } else if !is_known_waytype(w.as_str()) {
        let x = Diagnostic::new(Severity::Error, DiagnosticCode::UnknownWaytype, vec2(owned("waytype"), w));
        push_diag(&mut out, locate_at(dat, x, "waytype"));
    } else {
        push_diag(&mut out, Diagnostic::new(Severity::Info, DiagnosticCode::WaytypeOk, vec2(owned("waytype"), w)));
    }
    assert(fviews(out@) =~= waytype_if_present_valid(dat@));
    out
}

/// The number of seasons of a ground object: the decimal value of
/// `seasons` (1 where it is absent or not decimal), at least 1.
pub open spec fn seasons(d: DatView) -> int {
    let s = decimal_or(d, "seasons"@, 1);
    if s < 1 {
        1
    } else {
        s as int
    }
}

pub fn seasons_exec(dat: &DatFile) -> (res: i64)
    ensures
        res == seasons(dat@),
        res >= 1,
{
    let s = read_decimal_or(dat, "seasons", 1);
    if s < 1 {
        1
    } else {
        s
    }
}

pub open spec fn phase_key(phase: nat, season: nat) -> Seq<char> {
    ikey2("image["@, phase, "]["@, season, "]"@)
}

/// Seasons `season..count` of a fixed object's phase: each missing one is a
/// FATAL ERROR ("Season image for season ... missing!").
pub open spec fn fixed_seasons(d: DatView, phase: nat, season: nat, count: int) -> Seq<FindingView>
    decreases count - season,
{
    if season >= count {
        seq![]
    } else {
        let key = phase_key(phase, season);
        let v = value_of(d, key);
        seq![
            if v.len() == 0 {
                FindingView::Diag(
                    diag(Severity::Error, DiagnosticCode::MissingSeasonImage, args3(key, decimal(phase), decimal(season))),
                )
            } else {
                image_ref_finding(v, key)
            },
        ] + fixed_seasons(d, phase, season + 1, count)
    }
}

/// The phases of a fixed object from `phase` on, up to the first without a
/// season 0 image (at most phase 4096).
pub open spec fn fixed_from(d: DatView, phase: nat, count: int) -> Seq<FindingView>
    decreases 4097 - phase,
{
    if phase > 4096 {
        seq![]
    } else {
        let key0 = phase_key(phase, 0);
        let v0 = value_of(d, key0);
        if v0.len() == 0 {
            seq![]
        } else {
            seq![image_ref_finding(v0, key0)] + fixed_seasons(d, phase, 1, count) + fixed_from(d, phase + 1, count)
        }
    }
}

/// A fixed object (`speed=0`): phases of season images; none at all is
/// allowed but noted.
pub open spec fn fixed_images(d: DatView, count: int) -> Seq<FindingView> {
    fixed_from(d, 0, count) + if value_of(d, phase_key(0, 0)).len() == 0 {
        seq![FindingView::Diag(diag(Severity::Info, DiagnosticCode::NoImages, seq![]))]
    } else {
        seq![]
    }
}

pub open spec fn moving_key(dir: Seq<char>, season: nat) -> Seq<char> {
    ikey("image["@ + dir + "]["@, season, "]"@)
}

/// Seasons `season..count` of one direction of a moving object: all required.
pub open spec fn moving_seasons(d: DatView, dir: Seq<char>, season: nat, count: int) -> Seq<FindingView>
    decreases count - season,
{
    if season >= count {
        seq![]
    } else {
        let key = moving_key(dir, season);
        let v = value_of(d, key);
        seq![
            if v.len() == 0 {
                FindingView::Diag(diag(Severity::Error, DiagnosticCode::MissingSeasonImage, args2(key, decimal(season))))
            } else {
                image_ref_finding(v, key)
            },
        ] + moving_seasons(d, dir, season + 1, count)
    }
}

pub open spec fn moving_dirs(d: DatView, dirs: Seq<Seq<char>>, count: int) -> Seq<FindingView>
    decreases dirs.len(),
{
    if dirs.len() == 0 {
        seq![]
    } else {
        moving_dirs(d, dirs.drop_last(), count) + moving_seasons(d, dirs.last(), 0, count)
    }
}

/// The speed groundobj_writer.cc branches on: `uint16 const speed =
/// obj.get_int("speed", 0)`, so the value read narrowed to `0..=65535`.
pub open spec fn speed(d: DatView) -> int {
    get_int(d, "speed"@, 0) as int % 65536
}

/// groundobj_writer.cc: with `speed=0` (after narrowing) the object is fixed
/// (phases of season images), otherwise it moves and needs eight directions
/// times every season.
pub open spec fn season_image(d: DatView) -> Seq<FindingView> {
    if speed(d) == 0 {
        fixed_images(d, seasons(d))
    } else {
        moving_dirs(d, dir_codes(), seasons(d))
    }
}

fn push_fixed_seasons(out: &mut Vec<Finding>, dat: &DatFile, phase: u64, count: i64)
    requires
        count >= 0,
    ensures
        fviews(final(out)@) == fviews(old(out)@) + fixed_seasons(dat@, phase as nat, 1, count as int),
{
    let ghost start = fviews(out@);
    let mut season: u64 = 1;
    while (season as i64) < count
        invariant
            1 <= season,
            season <= count || season == 1,
            0 <= count <= i64::MAX,
            fviews(out@) + fixed_seasons(dat@, phase as nat, season as nat, count as int) == start + fixed_seasons(
                dat@,
                phase as nat,
                1,
                count as int,
            ),
        decreases count - season,
    {
        let key = index_key2("image[", phase, "][", season, "]");
        let v = dat.value(key.as_str());
        let ghost before = fviews(out@);
        if v.as_str().is_empty() {
            push_diag(
                out,
                Diagnostic::new(
                    Severity::Error,
                    DiagnosticCode::MissingSeasonImage,
                    vec3(key, decimal_string(phase), decimal_string(season)),
                ),
            );
        } else {
            push_image_ref(out, v.as_str(), key.as_str());
        }
        assert(fviews(out@) + fixed_seasons(dat@, phase as nat, (season + 1) as nat, count as int) =~= before
            + fixed_seasons(dat@, phase as nat, season as nat, count as int));
        season = season + 1;
    }
    assert(fviews(out@) =~= fviews(out@) + fixed_seasons(dat@, phase as nat, season as nat, count as int));
}

fn push_fixed(out: &mut Vec<Finding>, dat: &DatFile, count: i64)
    requires
        count >= 0,
    ensures
        fviews(final(out)@) == fviews(old(out)@) + fixed_images(dat@, count as int),
{
    let ghost start = fviews(out@);
    let mut phase: u64 = 0;
    loop
        invariant
            phase <= 4097,
            count >= 0,
            fviews(out@) + fixed_from(dat@, phase as nat, count as int) == start + fixed_from(dat@, 0, count as int),
        ensures
            fviews(out@) == start + fixed_from(dat@, 0, count as int),
        decreases 4097 - phase,
    {
        if phase > 4096 {
            assert(fviews(out@) =~= fviews(out@) + fixed_from(dat@, phase as nat, count as int));
            break;
        }
        let key0 = index_key2("image[", phase, "][", 0, "]");
        let v0 = dat.value(key0.as_str());
        if v0.as_str().is_empty() {
            assert(fviews(out@) =~= fviews(out@) + fixed_from(dat@, phase as nat, count as int));
            break;
        }
        let ghost before = fviews(out@);
        push_image_ref(out, v0.as_str(), key0.as_str());
        push_fixed_seasons(out, dat, phase, count);
        assert(fviews(out@) + fixed_from(dat@, (phase + 1) as nat, count as int) =~= before + fixed_from(
            dat@,
            phase as nat,
            count as int,
        ));
        phase = phase + 1;
    }
    let key00 = index_key2("image[", 0, "][", 0, "]");
    let v00 = dat.value(key00.as_str());
    let ghost mid = fviews(out@);
    if v00.as_str().is_empty() {
        push_diag(out, Diagnostic::new(Severity::Info, DiagnosticCode::NoImages, vec0()));
    }
    assert(fviews(out@) =~= start + fixed_images(dat@, count as int));
}

fn push_moving_seasons(out: &mut Vec<Finding>, dat: &DatFile, dir: &str, count: i64)
    requires
        count >= 0,
    ensures
        fviews(final(out)@) == fviews(old(out)@) + moving_seasons(dat@, dir@, 0, count as int),
{
    let ghost start = fviews(out@);
    let mut prefix = owned("image[");
    prefix.append(dir);
    prefix.append("][");
    let mut season: u64 = 0;
    while (season as i64) < count
        invariant
            season <= count <= i64::MAX,
            prefix@ == "image["@ + dir@ + "]["@,
            fviews(out@) + moving_seasons(dat@, dir@, season as nat, count as int) == start + moving_seasons(
                dat@,
                dir@,
                0,
                count as int,
            ),
        decreases count - season,
    {
        let key = index_key(prefix.as_str(), season, "]");
        let v = dat.value(key.as_str());
        let ghost before = fviews(out@);
        if v.as_str().is_empty() {
            push_diag(
                out,
                Diagnostic::new(Severity::Error, DiagnosticCode::MissingSeasonImage, vec2(key, decimal_string(season))),
            );
        } else {
            push_image_ref(out, v.as_str(), key.as_str());
        }
        assert(fviews(out@) + moving_seasons(dat@, dir@, (season + 1) as nat, count as int) =~= before
            + moving_seasons(dat@, dir@, season as nat, count as int));
        season = season + 1;
    }
    assert(fviews(out@) =~= fviews(out@) + moving_seasons(dat@, dir@, season as nat, count as int));
}

pub fn season_image_rule(dat: &DatFile) -> (res: Vec<Finding>)
    ensures
        fviews(res@) == season_image(dat@),
{
    let raw_speed = read_int(dat, "speed", 0);
    let speed: i64 = match raw_speed.checked_rem_euclid(65536) {
        Some(r) => r,
        None => 0,
    };
    let count = seasons_exec(dat);
    let mut out: Vec<Finding> = Vec::new();
    if speed == 0 {
        push_fixed(&mut out, dat, count);
        assert(fviews(out@) =~= season_image(dat@));
    } else {
        let mut i: usize = 0;
        while i < 8
            invariant
                i <= 8,
                count >= 0,
                fviews(out@) == moving_dirs(dat@, dir_codes().take(i as int), count as int),
            decreases 8 - i,
        {
            assert(dir_codes().take(i + 1).drop_last() =~= dir_codes().take(i as int));
            assert(dir_codes().take(i + 1).last() == DIR_CODES@[i as int]@);
            push_moving_seasons(&mut out, dat, DIR_CODES[i], count);
            i = i + 1;
        }
        assert(dir_codes().take(8) =~= dir_codes());
    }
    out
}


/// A ground object's `waytype` is optional and read without regard to
/// ASCII case: empty is only noted, a known name is noted with its
/// lower-case form, anything else is exactly one unknown-waytype error.
pub proof fn law_groundobj_waytype(d: DatView)
    ensures
        ({
            let w = lower(value_of(d, "waytype"@));
            &&& w.len() == 0 ==> waytype_if_present_valid(d) == seq![
                FindingView::Diag(diag(Severity::Info, DiagnosticCode::WaytypeOmitted, seq![])),
            ]
            &&& w.len() != 0 && known_waytypes().contains(w) ==> waytype_if_present_valid(d) == seq![
                FindingView::Diag(diag(Severity::Info, DiagnosticCode::WaytypeOk, seq!["waytype"@, w])),
            ]
            &&& w.len() != 0 && !known_waytypes().contains(w) ==> waytype_if_present_valid(d).len() == 1 && (
            waytype_if_present_valid(d)[0] matches FindingView::Diag(x) && x.severity == Severity::Error && x.code
                == DiagnosticCode::UnknownWaytype)
        }),
{
}

/// groundobj_writer.cc has at least one season: `seasons` read as a
/// decimal (1 where absent or not decimal), raised to 1 where lower.
pub proof fn law_groundobj_seasons(d: DatView)
    ensures
        seasons(d) >= 1,
        get(d, "seasons"@) is None ==> seasons(d) == 1,
        decimal_or(d, "seasons"@, 1) >= 1 ==> seasons(d) == decimal_or(d, "seasons"@, 1),
{
}

/// groundobj_writer.cc keeps `speed` in a `uint16`: an object whose speed
/// is 0 modulo 65536 (so also `speed=65536`) is a fixed object with season
/// phases; any other speed makes it a moving one with eight directions.
pub proof fn law_groundobj_fixed_or_moving(d: DatView)
    ensures
        get_int(d, "speed"@, 0) % 65536 == 0 ==> season_image(d) == fixed_images(d, seasons(d)),
        get_int(d, "speed"@, 0) % 65536 != 0 ==> season_image(d) == moving_dirs(d, dir_codes(), seasons(d)),
{
}

} // verus!
