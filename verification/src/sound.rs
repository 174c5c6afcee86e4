//! `obj=sound` (sound_writer.cc): makeobj reads `sound_nr` and
//! `sound_name` without any FATAL or warning branch; what can still go
//! wrong is a `sound_nr` that does not fit its `uint16`, and the name and
//! copyright text.
use vstd::prelude::*;
use crate::common::{narrow_fields, narrow_fields_rule, get_int, warns_narrowing, lemma_unsigned_ranges,
    lemma_narrow_fields_warns, field_overflows};
use crate::dat::{get, DatView, DatFile};
use crate::diagnostics::{FindingView, as_findings, Finding, fviews};
use crate::registry::{Rule, rules_findings, run_rules};

verus! {

pub open spec fn all_rules() -> Seq<Rule> {
    seq![
        Rule::SoundNarrowInt,
        Rule::NameAndCopyright,
    ]
}

/// The rules of `obj=sound`, in the order they report.
pub fn all() -> (res: Vec<Rule>)
    ensures
        res@ == all_rules(),
{
    let v = vec![
        Rule::SoundNarrowInt,
        Rule::NameAndCopyright,
    ];
    assert(v@ =~= all_rules());
    v
}

/// Every finding of the `obj=sound` rules.
pub fn check_sound(dat: &DatFile) -> (res: Vec<Finding>)
    ensures
        fviews(res@) == rules_findings(all_rules(), dat@),
{
    run_rules(&all(), dat)
}

/// sound_writer.cc:29 casts `sound_nr` (default `NO_SOUND`, -1) to `uint16`.
pub open spec fn narrow_fields_of() -> Seq<(&'static str, i64, u32)> {
    seq![("sound_nr", -1i64, 16u32)]
}

pub open spec fn narrow_int(d: DatView) -> Seq<FindingView> {
    as_findings(narrow_fields(d, narrow_fields_of()))
}

pub fn narrow_int_rule(dat: &DatFile) -> (res: Vec<Finding>)
    ensures
        fviews(res@) == narrow_int(dat@),
{
    let fields: [(&'static str, i64, u32); 1] = [("sound_nr", -1, 16)];
    assert(fields@ =~= narrow_fields_of());
    narrow_fields_rule(dat, &fields)
}


/// sound_writer.cc writes `sound_nr` as a `uint16`: the rule warns about it
/// exactly when it is given and its value lies outside `0..=65535`.
pub proof fn law_sound_nr_is_a_uint16(d: DatView)
    ensures
        warns_narrowing(narrow_int(d), "sound_nr"@) <==> (get(d, "sound_nr"@) is Some && !(0 <= get_int(
            d,
            "sound_nr"@,
            -1i64,
        ) <= 65535)),
{
    lemma_unsigned_ranges();
    let t = narrow_fields_of();
    lemma_narrow_fields_warns(d, t, "sound_nr"@);
    assert(field_overflows(d, t[0], "sound_nr"@) == (get(d, "sound_nr"@) is Some && !(0 <= get_int(
        d,
        "sound_nr"@,
        -1i64,
    ) <= 65535)));
}

} // verus!
