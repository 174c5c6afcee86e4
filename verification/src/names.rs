//! The `name` and `copyright` text fields. makeobj's `text_writer_t` writes
//! them with `strlen()`, so everything from an embedded NUL on is silently
//! lost; and `name` becomes part of a file name when makeobj writes objects
//! separately or `uncopy` restores them, so it must be a valid Windows file
//! name.
use vstd::prelude::*;
use crate::text::{chars_of, string_of, lower, views, str_in, to_lower, owned};
use crate::dat::{DatFile, DatView, get};
use crate::diagnostics::{Severity, DiagnosticCode, Diagnostic, DiagView, Finding, FindingView, diag, args1, args2,
    vec1, vec2, fviews, dviews, as_findings};
use crate::common::{locate, locate_at, extend_diags};
use crate::images::{first_index_of, lemma_first_index_of};

verus! {

/// The device names that Windows reserves whatever extension follows them
/// (compared without regard to ASCII case).
pub const RESERVED_DEVICE_NAMES: [&'static str; 22] = [
    "con",
    "prn",
    "aux",
    "nul",
    "com1",
    "com2",
    "com3",
    "com4",
    "com5",
    "com6",
    "com7",
    "com8",
    "com9",
    "lpt1",
    "lpt2",
    "lpt3",
    "lpt4",
    "lpt5",
    "lpt6",
    "lpt7",
    "lpt8",
    "lpt9",
];

/// A character that a Windows file name cannot hold: a control character or
/// one of `< > : " / \ | ? *`.
pub open spec fn forbidden_char(c: char) -> bool {
    c < ' ' || c == '<' || c == '>' || c == ':' || c == '"' || c == '/' || c == '\\' || c == '|' || c == '?'
        || c == '*'
}

/// `s` up to its first `c` (all of it without one).
pub open spec fn before(s: Seq<char>, c: char) -> Seq<char> {
    match first_index_of(s, c) {
        Some(i) => s.take(i),
        None => s,
    }
}

/// The text that makeobj's `strlen()` sees: up to the first NUL.
pub open spec fn until_nul(s: Seq<char>) -> Seq<char> {
    before(s, '\0')
}

/// Why a name cannot be a Windows file name, if it cannot: a forbidden
/// character, a trailing dot or space, or a reserved device name before the
/// first dot. The empty name is left to makeobj.
pub open spec fn forbidden_filename(s: Seq<char>) -> bool {
    &&& s.len() > 0
    &&& {
        ||| exists|i: int| 0 <= i < s.len() && #[trigger] forbidden_char(s[i])
        ||| s.last() == '.'
        ||| s.last() == ' '
        ||| views(RESERVED_DEVICE_NAMES@).contains(lower(before(s, '.')))
    }
}

/// The warning for a text field with an embedded NUL, at the key's line.
pub open spec fn nul_warning(d: DatView, key: Seq<char>) -> Seq<DiagView> {
    match get(d, key) {
        Some(v) => if v.contains('\0') {
            seq![locate(d, diag(Severity::Warning, DiagnosticCode::EmbeddedNulInStringField, args1(key)), key)]
        } else {
            seq![]
        },
        None => seq![],
    }
}

/// The error for a `name` that cannot be a file name (as far as `strlen()`
/// reads it), at the key's line.
pub open spec fn name_filename_error(d: DatView) -> Seq<DiagView> {
    match get(d, "name"@) {
        Some(v) => if forbidden_filename(until_nul(v)) {
            seq![
                locate(
                    d,
                    diag(Severity::Error, DiagnosticCode::NameForbiddenFilenameCharacter, args2("name"@, until_nul(v))),
                    "name"@,
                ),
            ]
        } else {
            seq![]
        },
        None => seq![],
    }
}

/// What the text-field rule reports: the file-name error of `name`, then
/// the embedded-NUL warnings of `name` and `copyright`.
pub open spec fn name_and_copyright(d: DatView) -> Seq<FindingView> {
    as_findings(name_filename_error(d) + nul_warning(d, "name"@) + nul_warning(d, "copyright"@))
}

/// The index of the first `c` in `v`, or its length.
pub fn find_char(v: &Vec<char>, c: char) -> (res: usize)
    ensures
        res <= v@.len(),
        res < v@.len() ==> v@[res as int] == c,
        forall|j: int| 0 <= j < res ==> #[trigger] v@[j] != c,
        res == v@.len() ==> first_index_of(v@, c) is None,
        res < v@.len() ==> first_index_of(v@, c) == Some(res as int),
{
    let mut i: usize = 0;
    while i < v.len()
        invariant
            i <= v.len(),
            forall|j: int| 0 <= j < i ==> #[trigger] v@[j] != c,
        decreases v.len() - i,
    {
        if v[i] == c {
            proof {
                lemma_first_index_of(v@, c, i as int);
            }
            return i;
        }
        i = i + 1;
    }
    proof {
        lemma_first_index_of(v@, c, i as int);
    }
    i
}

/// `v` up to its first `c`.
fn before_exec(v: &Vec<char>, c: char) -> (res: Vec<char>)
    ensures
        res@ == before(v@, c),
{
    let n = find_char(v, c);
    let mut out: Vec<char> = Vec::new();
    let mut i: usize = 0;
    while i < n
        invariant
            i <= n <= v.len(),
            out@ == v@.take(i as int),
        decreases n - i,
    {
        out.push(v[i]);
        i = i + 1;
        assert(out@ =~= v@.take(i as int));
    }
    assert(v@.take(v.len() as int) =~= v@);
    out
}

fn forbidden_char_exec(c: char) -> (res: bool)
    ensures
        res == forbidden_char(c),
{
    c < ' ' || c == '<' || c == '>' || c == ':' || c == '"' || c == '/' || c == '\\' || c == '|' || c == '?'
        || c == '*'
}

/// Whether a name cannot be a Windows file name.
pub fn is_forbidden_filename(s: &str) -> (res: bool)
    ensures
        res == forbidden_filename(s@),
{
    let v = chars_of(s);
    if v.len() == 0 {
        return false;
    }
    let mut i: usize = 0;
    while i < v.len()
        invariant
            i <= v.len(),
            v@ == s@,
            forall|j: int| 0 <= j < i ==> !#[trigger] forbidden_char(v@[j]),
        decreases v.len() - i,
    {
        if forbidden_char_exec(v[i]) {
            assert(forbidden_char(s@[i as int]));
            return true;
        }
        i = i + 1;
    }
    let last = v[v.len() - 1];
    if last == '.' || last == ' ' {
        return true;
    }
    let stem = string_of(&before_exec(&v, '.'));
    let lowered = to_lower(stem.as_str());
    let r = str_in(lowered.as_str(), &RESERVED_DEVICE_NAMES);
    proof {
        let names = views(RESERVED_DEVICE_NAMES@);
        if r {
            let k = choose|k: int| 0 <= k < RESERVED_DEVICE_NAMES@.len() && RESERVED_DEVICE_NAMES@[k]@ == lowered@;
            assert(names[k] == lowered@);
        } else if names.contains(lowered@) {
            let k = choose|k: int| 0 <= k < names.len() && names[k] == lowered@;
            assert(RESERVED_DEVICE_NAMES@[k]@ == lowered@);
        }
    }
    r
}

fn push_nul_warning(out: &mut Vec<Diagnostic>, dat: &DatFile, key: &str)
    ensures
        dviews(final(out)@) == dviews(old(out)@) + nul_warning(dat@, key@),
{
    let ghost before_out = dviews(out@);
    match dat.get(key) {
        Some(v) => {
            let cs = chars_of(v);
            let n = find_char(&cs, '\0');
            if n < cs.len() {
                assert(cs@[n as int] == '\0');
                assert(v@.contains('\0'));
                let x = Diagnostic::new(Severity::Warning, DiagnosticCode::EmbeddedNulInStringField, vec1(owned(key)));
                out.push(locate_at(dat, x, key));
            } else {
                assert(!v@.contains('\0')) by {
                    if v@.contains('\0') {
                        let j = choose|j: int| 0 <= j < v@.len() && v@[j] == '\0';
                        assert(cs@[j] == '\0');
                    }
                }
            }
        },
        None => {},
    }
    assert(dviews(out@) =~= before_out + nul_warning(dat@, key@));
}

/// The text-field checks of `name` and `copyright`.
pub fn name_and_copyright_rule(dat: &DatFile) -> (res: Vec<Finding>)
    ensures
        fviews(res@) == name_and_copyright(dat@),
{
    let mut ds: Vec<Diagnostic> = Vec::new();
    match dat.get("name") {
        Some(v) => {
            let shown = string_of(&before_exec(&chars_of(v), '\0'));
            if is_forbidden_filename(shown.as_str()) {
                let x = Diagnostic::new(
                    Severity::Error,
                    DiagnosticCode::NameForbiddenFilenameCharacter,
                    vec2(owned("name"), shown),
                );
                ds.push(locate_at(dat, x, "name"));
            }
        },
        None => {},
    }
    assert(dviews(ds@) =~= name_filename_error(dat@));
    push_nul_warning(&mut ds, dat, "name");
    push_nul_warning(&mut ds, dat, "copyright");
    let mut out: Vec<Finding> = Vec::new();
    extend_diags(&mut out, ds);
    assert(fviews(out@) =~= name_and_copyright(dat@));
    out
}


/// The reserved Windows device names are exactly `con`, `prn`, `aux`,
/// `nul`, `com1` to `com9` and `lpt1` to `lpt9`.
pub proof fn law_reserved_device_names(n: Seq<char>)
    ensures
        views(RESERVED_DEVICE_NAMES@).contains(n) <==> (n == "con"@ || n == "prn"@ || n == "aux"@ || n == "nul"@
            || n == "com1"@ || n == "com2"@ || n == "com3"@ || n == "com4"@ || n == "com5"@ || n == "com6"@ || n
            == "com7"@ || n == "com8"@ || n == "com9"@ || n == "lpt1"@ || n == "lpt2"@ || n == "lpt3"@ || n
            == "lpt4"@ || n == "lpt5"@ || n == "lpt6"@ || n == "lpt7"@ || n == "lpt8"@ || n == "lpt9"@),
{
    let v = views(RESERVED_DEVICE_NAMES@);
    assert(v[0] == "con"@ && v[1] == "prn"@ && v[2] == "aux"@ && v[3] == "nul"@ && v[4] == "com1"@ && v[5]
        == "com2"@ && v[6] == "com3"@ && v[7] == "com4"@ && v[8] == "com5"@ && v[9] == "com6"@ && v[10] == "com7"@
        && v[11] == "com8"@ && v[12] == "com9"@ && v[13] == "lpt1"@ && v[14] == "lpt2"@ && v[15] == "lpt3"@ && v[16]
        == "lpt4"@ && v[17] == "lpt5"@ && v[18] == "lpt6"@ && v[19] == "lpt7"@ && v[20] == "lpt8"@ && v[21]
        == "lpt9"@);
    if v.contains(n) {
        let k = choose|k: int| 0 <= k < v.len() && v[k] == n;
        assert(0 <= k < 22);
    }
}

/// A file name is refused when any of its characters is a control
/// character or one of `<`, `>`, `:`, `"`, `/`, `\`, `|`, `?`, `*`; when it
/// ends in `.` or a space; or when its part before the first `.` is a
/// reserved device name in any ASCII case.
pub proof fn law_forbidden_filenames(s: Seq<char>, i: int)
    requires
        0 <= i < s.len(),
    ensures
        (s[i] < ' ' || s[i] == '<' || s[i] == '>' || s[i] == ':' || s[i] == '"' || s[i] == '/' || s[i] == '\\'
            || s[i] == '|' || s[i] == '?' || s[i] == '*') ==> forbidden_filename(s),
        (s.last() == '.' || s.last() == ' ') ==> forbidden_filename(s),
        views(RESERVED_DEVICE_NAMES@).contains(lower(before(s, '.'))) ==> forbidden_filename(s),
{
    if s[i] < ' ' || s[i] == '<' || s[i] == '>' || s[i] == ':' || s[i] == '"' || s[i] == '/' || s[i] == '\\'
        || s[i] == '|' || s[i] == '?' || s[i] == '*' {
        assert(forbidden_char(s[i]));
    }
}

} // verus!
