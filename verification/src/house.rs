//! What building_writer.cc checks of every building, factories included
//! (factory_writer.cc hands its definition to the building writer): the
//! footprint `dims`, and the `cursor`/`icon` of the build tool.
use vstd::prelude::*;
use crate::text::{chars_of, string_of, lower, views, str_in, to_lower, strtol, parse_strtol_like, signed_decimal,
    signed_decimal_string};
use crate::dat::{DatFile, DatView, value_of};
use crate::diagnostics::{Severity, DiagnosticCode, Diagnostic, Finding, FindingView, diag, args1, args2, vec1, vec2,
    fviews, push_diag};
use crate::common::{locate, locate_at};
use crate::images::{first_index_of, image_ref_finding, push_image_ref};
use crate::names::find_char;

verus! {

/// The `type=` values whose buildings never appear in the player's build
/// menu (city buildings, curiosities, monuments, town halls), so that a
/// missing cursor and icon hide nothing.
pub const TYPES_WITHOUT_BUILD_MENU: [&'static str; 6] = ["res", "com", "ind", "cur", "mon", "tow"];

/// What `strtol` reads from `v`, 0 where it reads no digit.
pub open spec fn int_or_zero(v: Seq<char>) -> i64 {
    match strtol(v) {
        Some(n) => n,
        None => 0,
    }
}

/// What follows the first `,` of `v`, if it has one.
pub open spec fn after_comma(v: Seq<char>) -> Option<Seq<char>> {
    match first_index_of(v, ',') {
        Some(i) => Some(v.skip(i + 1)),
        None => None,
    }
}

/// The footprint (x, y) as `get_ints("dims")` gives it: the numbers before
/// and after the first comma, each 1 where it is not given.
pub open spec fn dims(d: DatView) -> (i64, i64) {
    let v = value_of(d, "dims"@);
    if v.len() == 0 {
        (1, 1)
    } else {
        (
            int_or_zero(v),
            match after_comma(v) {
                Some(r) => int_or_zero(r),
                None => 1,
            },
        )
    }
}

/// building_writer.cc: a footprint with a zero side is a FATAL ERROR
/// ("Cannot create a building with zero size"), at the `dims` line.
pub open spec fn zero_size(d: DatView) -> Seq<FindingView> {
    let (x, y) = dims(d);
    if x == 0 || y == 0 {
        seq![
            FindingView::Diag(
                locate(
                    d,
                    diag(
                        Severity::Error,
                        DiagnosticCode::ZeroSize,
                        args2(signed_decimal(x as int), signed_decimal(y as int)),
                    ),
                    "dims"@,
                ),
            ),
        ]
    } else {
        seq![]
    }
}

/// `v` after its index `i`.
fn tail_after(v: &Vec<char>, i: usize) -> (res: Vec<char>)
    requires
        i < v@.len(),
    ensures
        res@ == v@.skip(i + 1),
{
    let mut out: Vec<char> = Vec::new();
    let n = v.len();
    assert(i < n);
    let mut k: usize = i + 1;
    while k < v.len()
        invariant
            i + 1 <= k <= v@.len(),
            out@ == v@.subrange(i + 1, k as int),
        decreases v.len() - k,
    {
        out.push(v[k]);
        k = k + 1;
        assert(out@ =~= v@.subrange(i + 1, k as int));
    }
    assert(v@.subrange(i + 1, v@.len() as int) =~= v@.skip(i + 1));
    out
}

fn int_or_zero_exec(v: &Vec<char>) -> (res: i64)
    ensures
        res == int_or_zero(v@),
{
    let s = string_of(v);
    match parse_strtol_like(s.as_str()) {
        Some(n) => n,
        None => 0,
    }
}

/// The footprint (x, y) of a definition.
pub fn dims_exec(dat: &DatFile) -> (res: (i64, i64))
    ensures
        res == dims(dat@),
{
    let value = dat.value("dims");
    let v = chars_of(value.as_str());
    if v.len() == 0 {
        return (1, 1);
    }
    let x = int_or_zero_exec(&v);
    let c = find_char(&v, ',');
    if c == v.len() {
        return (x, 1);
    }
    let rest = tail_after(&v, c);
    (x, int_or_zero_exec(&rest))
}

pub fn zero_size_rule(dat: &DatFile) -> (res: Vec<Finding>)
    ensures
        fviews(res@) == zero_size(dat@),
{
    let (x, y) = dims_exec(dat);
    let mut out: Vec<Finding> = Vec::new();
    if x == 0 || y == 0 {
        let d = Diagnostic::new(
            Severity::Error,
            DiagnosticCode::ZeroSize,
            vec2(signed_decimal_string(x as i128), signed_decimal_string(y as i128)),
        );
        push_diag(&mut out, locate_at(dat, d, "dims"));
    }
    assert(fviews(out@) =~= zero_size(dat@));
    out
}

/// The build tool's `cursor` and `icon`. Without either, a building that
/// appears in the build menu gets no tool (an error); for one that never
/// appears there, and for every factory (`always_not_applicable`), this is
/// only noted. A given cursor or icon is an image reference.
pub open spec fn cursor_icon(d: DatView, always_not_applicable: bool) -> Seq<FindingView> {
    let c = value_of(d, "cursor"@);
    let i = value_of(d, "icon"@);
    let t = lower(value_of(d, "type"@));
    if c.len() == 0 && i.len() == 0 {
        if always_not_applicable || views(TYPES_WITHOUT_BUILD_MENU@).contains(t) {
            seq![FindingView::Diag(diag(Severity::Info, DiagnosticCode::CursorIconNotApplicable, args1(t)))]
        } else {
            seq![FindingView::Diag(diag(Severity::Error, DiagnosticCode::MissingCursorIcon, args1(t)))]
        }
    } else {
        (if c.len() != 0 {
            seq![image_ref_finding(c, "cursor"@)]
        } else {
            seq![]
        }) + (if i.len() != 0 {
            seq![image_ref_finding(i, "icon"@)]
        } else {
            seq![]
        })
    }
}

pub fn cursor_icon_rule(dat: &DatFile, always_not_applicable: bool) -> (res: Vec<Finding>)
    ensures
        fviews(res@) == cursor_icon(dat@, always_not_applicable),
{
    let c = dat.value("cursor");
    let i = dat.value("icon");
    let t = to_lower(dat.value("type").as_str());
    let mut out: Vec<Finding> = Vec::new();
    if c.as_str().is_empty() && i.as_str().is_empty() {
        let listed = str_in(t.as_str(), &TYPES_WITHOUT_BUILD_MENU);
        proof {
            let names = views(TYPES_WITHOUT_BUILD_MENU@);
            if listed {
                let k = choose|k: int| 0 <= k < TYPES_WITHOUT_BUILD_MENU@.len() && TYPES_WITHOUT_BUILD_MENU@[k]@ == t@;
                assert(names[k] == t@);
            } else if names.contains(t@) {
                let k = choose|k: int| 0 <= k < names.len() && names[k] == t@;
                assert(TYPES_WITHOUT_BUILD_MENU@[k]@ == t@);
            }
        }
        if always_not_applicable || listed {
            push_diag(&mut out, Diagnostic::new(Severity::Info, DiagnosticCode::CursorIconNotApplicable, vec1(t)));
        } else {
            push_diag(&mut out, Diagnostic::new(Severity::Error, DiagnosticCode::MissingCursorIcon, vec1(t)));
        }
    } else {
        if !c.as_str().is_empty() {
            push_image_ref(&mut out, c.as_str(), "cursor");
        }
        if !i.as_str().is_empty() {
            push_image_ref(&mut out, i.as_str(), "icon");
        }
    }
    assert(fviews(out@) =~= cursor_icon(dat@, always_not_applicable));
    out
}


/// building_writer.cc reads the footprint with `get_ints("dims")`: without
/// `dims` it is 1x1 and never reported; otherwise exactly one error comes
/// when the number before the first comma, or the one after it where there
/// is a comma, reads as 0 (no digits also reads as 0).
pub proof fn law_zero_size(d: DatView)
    ensures
        value_of(d, "dims"@).len() == 0 ==> zero_size(d).len() == 0,
        zero_size(d).len() <= 1,
        value_of(d, "dims"@).len() != 0 ==> (zero_size(d).len() == 1 <==> (strtol(value_of(d, "dims"@)) is None
            || strtol(value_of(d, "dims"@)) == Some(0i64) || (after_comma(value_of(d, "dims"@)) matches Some(r)
            && (strtol(r) is None || strtol(r) == Some(0i64))))),
{
}

proof fn lemma_types_without_build_menu(t: Seq<char>)
    ensures
        views(TYPES_WITHOUT_BUILD_MENU@).contains(t) <==> (t == "res"@ || t == "com"@ || t == "ind"@ || t == "cur"@
            || t == "mon"@ || t == "tow"@),
{
    let v = views(TYPES_WITHOUT_BUILD_MENU@);
    assert(v[0] == "res"@ && v[1] == "com"@ && v[2] == "ind"@ && v[3] == "cur"@ && v[4] == "mon"@ && v[5]
        == "tow"@);
    if v.contains(t) {
        let k = choose|k: int| 0 <= k < v.len() && v[k] == t;
        assert(0 <= k < 6);
    }
}

/// A building with neither `cursor` nor `icon` has no build tool: that is
/// only noted for the types that never appear in the build menu (`res`,
/// `com`, `ind`, `cur`, `mon`, `tow`) and for factories, and an error for
/// every other type.
pub proof fn law_missing_build_tool(d: DatView, always_not_applicable: bool)
    ensures
        ({
            let t = lower(value_of(d, "type"@));
            value_of(d, "cursor"@).len() == 0 && value_of(d, "icon"@).len() == 0 ==> (cursor_icon(
                d,
                always_not_applicable,
            ) == if always_not_applicable || t == "res"@ || t == "com"@ || t == "ind"@ || t == "cur"@ || t == "mon"@
                || t == "tow"@ {
                seq![FindingView::Diag(diag(Severity::Info, DiagnosticCode::CursorIconNotApplicable, seq![t]))]
            } else {
                seq![FindingView::Diag(diag(Severity::Error, DiagnosticCode::MissingCursorIcon, seq![t]))]
            })
        }),
{
    lemma_types_without_build_menu(lower(value_of(d, "type"@)));
}

} // verus!
