//! Image references (`icon=`, `image[...]=`, ...): how makeobj's
//! `image_writer_t::write_obj` turns a reference into a file name, and what
//! the file found there is judged.
use vstd::prelude::*;
use crate::text::{chars_of, string_of, trim, trim_chars, str_eq, concat2, owned, capped, value_in, run_len, digit_in,
    read_run};
use crate::dat::{DatFile, DatView};
use crate::common::{locate, locate_all};
use crate::diagnostics::{Severity, DiagnosticCode, Diagnostic, DiagView, Finding, FindingView, ImageRequest, ImageRequestView, diag, args1, args2, args3, vec2, vec3, vec1, string_views, fviews, dviews};

verus! {

/// makeobj's pak128 tile size: image dimensions must be multiples of it.
pub const PAK_TILE_SIZE: u32 = 128;

/// A leading `>` (the "not zoomable" flag) is dropped, then the reference is
/// trimmed, whether or not the flag was there.
pub open spec fn strip_zoom_trim(s: Seq<char>) -> Seq<char> {
    if s.len() > 0 && s[0] == '>' {
        trim(s.drop_first())
    } else {
        trim(s)
    }
}

/// `image_writer_t::write_obj`'s syntax `[> ]name[.row[.col]]`: the `>` flag
/// removed, then the whole reference trimmed.
pub fn strip_zoomable_prefix_and_trim(value: &str) -> (res: String)
    ensures
        res@ == strip_zoom_trim(value@),
{
    let v = chars_of(value);
    if v.len() > 0 && v[0] == '>' {
        let rest = string_of(v.as_slice().split_at(1).1);
        assert(v@.subrange(1, v@.len() as int) =~= v@.drop_first());
        let t = trim_chars(rest.as_str());
        string_of(&t)
    } else {
        let t = trim_chars(value);
        string_of(&t)
    }
}

/// The index of the last `c` in `s`.
pub open spec fn last_index_of(s: Seq<char>, c: char) -> Option<int>
    decreases s.len(),
{
    if s.len() == 0 {
        None
    } else if s.last() == c {
        Some(s.len() - 1)
    } else {
        last_index_of(s.drop_last(), c)
    }
}

/// The index of the first `c` in `s`.
pub open spec fn first_index_of(s: Seq<char>, c: char) -> Option<int>
    decreases s.len(),
{
    if s.len() == 0 {
        None
    } else if s[0] == c {
        Some(0)
    } else {
        match first_index_of(s.drop_first(), c) {
            Some(i) => Some(i + 1),
            None => None,
        }
    }
}

pub open spec fn png_ext() -> Seq<char> {
    seq!['.', 'p', 'n', 'g']
}

/// The file that a reference names (`image_writer.cc`): `numkey` is the part
/// after the last `/` (only `/` separates directories); the reference is cut
/// before the first `.` of `numkey` and `.png` appended. Without a `.` in
/// `numkey` the reference is returned as it is.
pub open spec fn image_filename(v: Seq<char>) -> Seq<char> {
    let start = match last_index_of(v, '/') {
        Some(i) => i + 1,
        None => 0,
    };
    match first_index_of(v.skip(start), '.') {
        Some(d) => v.take(start + d) + png_ext(),
        None => v,
    }
}

proof fn lemma_last_index_of(s: Seq<char>, c: char, i: int)
    requires
        -1 <= i < s.len(),
        i == -1 || s[i] == c,
        forall|j: int| i < j < s.len() ==> #[trigger] s[j] != c,
    ensures
        last_index_of(s, c) == (if i == -1 {
            None
        } else {
            Some(i)
        }),
    decreases s.len(),
{
    if s.len() > 0 && i < s.len() - 1 {
        assert(s.last() == s[s.len() - 1]);
        lemma_last_index_of(s.drop_last(), c, i);
    }
}

pub proof fn lemma_first_index_of(s: Seq<char>, c: char, i: int)
    requires
        0 <= i <= s.len(),
        i == s.len() || s[i] == c,
        forall|j: int| 0 <= j < i ==> #[trigger] s[j] != c,
    ensures
        first_index_of(s, c) == (if i == s.len() {
            None
        } else {
            Some(i)
        }),
    decreases i,
{
    if i > 0 {
        assert(s[0] != c);
        assert forall|j: int| 0 <= j < i - 1 implies #[trigger] s.drop_first()[j] != c by {
            assert(s.drop_first()[j] == s[j + 1]);
        }
        lemma_first_index_of(s.drop_first(), c, i - 1);
    }
}

/// The file name that makeobj derives from an image reference.
pub fn resolve_image_filename(value: &str) -> (res: String)
    ensures
        res@ == image_filename(value@),
{
    let v = chars_of(value);
    let n = v.len();
    // the last '/'
    let mut k: usize = n;
    while k > 0 && v[k - 1] != '/'
        invariant
            k <= n == v@.len(),
            forall|j: int| k <= j < n ==> #[trigger] v@[j] != '/',
        decreases k,
    {
        k = k - 1;
    }
    proof {
        lemma_last_index_of(v@, '/', k - 1);
    }
    let start = k;
    // the first '.' after it
    let mut d: usize = start;
    while d < n && v[d] != '.'
        invariant
            start <= d <= n == v@.len(),
            forall|j: int| start <= j < d ==> #[trigger] v@[j] != '.',
        decreases n - d,
    {
        d = d + 1;
    }
    proof {
        let numkey = v@.skip(start as int);
        assert forall|j: int| 0 <= j < d - start implies #[trigger] numkey[j] != '.' by {
            assert(numkey[j] == v@[j + start]);
        }
        if d < n {
            assert(numkey[d - start] == v@[d as int]);
        }
        lemma_first_index_of(numkey, '.', d - start);
    }
    if d == n {
        return string_of(&v);
    }
    let mut out: Vec<char> = Vec::new();
    let mut i: usize = 0;
    while i < d
        invariant
            i <= d <= n == v@.len(),
            out@ == v@.take(i as int),
        decreases d - i,
    {
        out.push(v[i]);
        i = i + 1;
        assert(out@ =~= v@.take(i as int));
    }
    out.push('.');
    out.push('p');
    out.push('n');
    out.push('g');
    assert(out@ =~= v@.take(d as int) + png_ext());
    string_of(&out)
}

pub open spec fn is_sentinel(s: Seq<char>) -> bool {
    s == seq!['-']
}

/// What a rule reports for one image reference before any file is looked
/// at: the `"-"` sentinel (an intentionally empty image) is noted, anything
/// else becomes a request for the file it names.
pub open spec fn image_ref_finding(value: Seq<char>, context: Seq<char>) -> FindingView {
    let s = strip_zoom_trim(value);
    if is_sentinel(s) {
        FindingView::Diag(diag(Severity::Info, DiagnosticCode::ImageRefEmptySentinel, args1(context)))
    } else {
        FindingView::Image(ImageRequestView { context, value: s, filename: image_filename(s) })
    }
}

/// The reference part of makeobj-style image checking (`check_image_ref`).
pub fn image_ref(value: &str, context: &str) -> (res: Finding)
    ensures
        res@ == image_ref_finding(value@, context@),
{
    let s = strip_zoomable_prefix_and_trim(value);
    let dash = owned("-");
    proof {
        reveal_strlit("-");
        assert("-"@ =~= seq!['-']);
    }
    if s == dash {
        Finding::Diag(Diagnostic::new(Severity::Info, DiagnosticCode::ImageRefEmptySentinel, vec1(owned(context))))
    } else {
        assert(!is_sentinel(s@));
        let filename = resolve_image_filename(s.as_str());
        Finding::Image(ImageRequest { context: owned(context), value: s, filename })
    }
}

/// Appends the finding for the image reference `value` of key `context`.
pub fn push_image_ref(out: &mut Vec<Finding>, value: &str, context: &str)
    ensures
        fviews(final(out)@) == fviews(old(out)@).push(image_ref_finding(value@, context@)),
{
    let f = image_ref(value, context);
    let ghost fv = f@;
    out.push(f);
    assert(fviews(out@) =~= fviews(old(out)@).push(fv));
}

// ---------------------------------------------------------------------------
// The tile a reference picks
// ---------------------------------------------------------------------------

/// Where the part after the last `/` starts.
pub open spec fn name_start(v: Seq<char>) -> int {
    match last_index_of(v, '/') {
        Some(i) => i + 1,
        None => 0,
    }
}

/// The index of the first `.` after the last `/`, if there is one.
pub open spec fn name_dot(v: Seq<char>) -> Option<int> {
    match first_index_of(v.skip(name_start(v)), '.') {
        Some(d) => Some(name_start(v) + d),
        None => None,
    }
}

/// What follows the file name's first `.`; a `png.` there still belongs to
/// the file name.
pub open spec fn tile_part(v: Seq<char>) -> Seq<char> {
    let r = match name_dot(v) {
        Some(p) => v.skip(p + 1),
        None => seq![],
    };
    if r.len() >= 4 && (r[0] == 'p' || r[0] == 'P') && (r[1] == 'n' || r[1] == 'N') && (r[2] == 'g' || r[2] == 'G')
        && r[3] == '.' {
        r.skip(4)
    } else {
        r
    }
}

/// The decimal number that starts `r` (0 without digits; capped).
pub open spec fn leading_number(r: Seq<char>) -> int {
    capped(value_in(r.take(run_len(r, 10) as int), 10))
}

/// The tile (row, column) that a reference `name.row.col` picks; a missing
/// number is 0.
pub open spec fn image_coords(v: Seq<char>) -> (int, int) {
    let r = tile_part(v);
    let t = r.skip(run_len(r, 10) as int);
    (leading_number(r), if t.len() > 0 && t[0] == '.' {
        leading_number(t.drop_first())
    } else {
        0
    })
}

proof fn lemma_run_len(r: Seq<char>, k: int)
    requires
        0 <= k <= r.len(),
        forall|j: int| 0 <= j < k ==> (#[trigger] digit_in(r[j], 10)) is Some,
        k == r.len() || digit_in(r[k], 10) is None,
    ensures
        run_len(r, 10) == k,
    decreases k,
{
    if k > 0 {
        assert forall|j: int| 0 <= j < k - 1 implies (#[trigger] digit_in(r.drop_first()[j], 10)) is Some by {
            assert(r.drop_first()[j] == r[j + 1]);
        }
        if k < r.len() {
            assert(r.drop_first()[k - 1] == r[k]);
        }
        lemma_run_len(r.drop_first(), k - 1);
    }
}

/// The number starting at `start` of `v` and where it ends.
fn number_at(v: &Vec<char>, start: usize) -> (res: (usize, u128))
    requires
        start <= v@.len(),
    ensures
        start <= res.0 <= v@.len(),
        res.0 - start == run_len(v@.skip(start as int), 10),
        res.1 as int == leading_number(v@.skip(start as int)),
{
    let (e, n) = read_run(v, start, 10);
    proof {
        let r = v@.skip(start as int);
        assert forall|j: int| 0 <= j < e - start implies (#[trigger] digit_in(r[j], 10)) is Some by {
            assert(r[j] == v@[start + j]);
        }
        if e < v@.len() {
            assert(r[e - start] == v@[e as int]);
        }
        lemma_run_len(r, e - start);
        assert(r.take(e - start) =~= v@.subrange(start as int, e as int));
    }
    (e, n)
}

/// The tile (row, column) that the reference `value` picks.
pub fn image_coords_exec(value: &str) -> (res: (u128, u128))
    ensures
        (res.0 as int, res.1 as int) == image_coords(value@),
{
    let v = chars_of(value);
    let n = v.len();
    let mut k: usize = n;
    while k > 0 && v[k - 1] != '/'
        invariant
            k <= n == v@.len(),
            forall|j: int| k <= j < n ==> #[trigger] v@[j] != '/',
        decreases k,
    {
        k = k - 1;
    }
    proof {
        lemma_last_index_of(v@, '/', k - 1);
    }
    let mut d: usize = k;
    while d < n && v[d] != '.'
        invariant
            k <= d <= n == v@.len(),
            forall|j: int| k <= j < d ==> #[trigger] v@[j] != '.',
        decreases n - d,
    {
        d = d + 1;
    }
    proof {
        let numkey = v@.skip(k as int);
        assert forall|j: int| 0 <= j < d - k implies #[trigger] numkey[j] != '.' by {
            assert(numkey[j] == v@[j + k]);
        }
        if d < n {
            assert(numkey[d - k] == v@[d as int]);
        }
        lemma_first_index_of(numkey, '.', d - k);
    }
    let mut s: usize = if d < n {
        d + 1
    } else {
        n
    };
    assert(v@.skip(s as int) =~= match name_dot(v@) {
        Some(p) => v@.skip(p + 1),
        None => Seq::<char>::empty(),
    });
    if n - s >= 4 && (v[s] == 'p' || v[s] == 'P') && (v[s + 1] == 'n' || v[s + 1] == 'N') && (v[s + 2] == 'g'
        || v[s + 2] == 'G') && v[s + 3] == '.' {
        assert(v@.skip(s as int).skip(4) =~= v@.skip(s + 4));
        s = s + 4;
    }
    assert(v@.skip(s as int) =~= tile_part(v@));
    let (e, row) = number_at(&v, s);
    let ghost r = v@.skip(s as int);
    assert(r.skip(run_len(r, 10) as int) =~= v@.skip(e as int));
    let col: u128 = if e < n && v[e] == '.' {
        assert(v@.skip(e as int).drop_first() =~= v@.skip(e + 1));
        number_at(&v, e + 1).1
    } else {
        0
    };
    (row, col)
}

// ---------------------------------------------------------------------------
// Judging the file
// ---------------------------------------------------------------------------

/// What the file system holds at a requested file name.
pub enum FileProbe {
    /// No regular file there.
    Missing,
    /// A regular file that could not be read, with the reason.
    Unreadable(String),
    /// The file's bytes.
    Contents(Vec<u8>),
}

pub enum ProbeView {
    Missing,
    Unreadable(Seq<char>),
    Contents(Seq<u8>),
}

impl View for FileProbe {
    type V = ProbeView;

    open spec fn view(&self) -> ProbeView {
        match self {
            FileProbe::Missing => ProbeView::Missing,
            FileProbe::Unreadable(m) => ProbeView::Unreadable(m@),
            FileProbe::Contents(b) => ProbeView::Contents(b@),
        }
    }
}

/// What decoding `bytes` as PNG gives (the `image` crate): the image's width
/// and height, or the decoder's error message.
pub uninterp spec fn decode_png(bytes: Seq<u8>) -> Result<(u32, u32), Seq<char>>;

/// `image::load_from_memory_with_format(bytes, ImageFormat::Png)`, then
/// `width()`/`height()` of the decoded image, or the error's text. The
/// contract claims only that the result is the named decoding of the bytes.
#[verifier::external_body]
fn png_dimensions(bytes: &[u8]) -> (res: Result<(u32, u32), String>)
    ensures
        match res {
            Ok(d) => decode_png(bytes@) == Ok::<(u32, u32), Seq<char>>(d),
            Err(m) => decode_png(bytes@) == Err::<(u32, u32), Seq<char>>(m@),
        },
{
    match image::load_from_memory_with_format(bytes, image::ImageFormat::Png) {
        Ok(img) => Ok((img.width(), img.height())),
        Err(e) => Err(e.to_string()),
    }
}

/// The findings for a decoded (or undecodable) image, from the decoding
/// result: a size that is not a multiple of the tile size is an error, a
/// tile (`name.row.col`) outside the image is an error ("invalid image
/// number"), a decoding failure is an error, anything else is fine.
pub open spec fn decoded_findings(req: ImageRequestView, decoded: Result<(u32, u32), Seq<char>>) -> DiagView {
    match decoded {
        Ok((w, h)) => if w % 128 != 0 || h % 128 != 0 {
            diag(
                Severity::Error,
                DiagnosticCode::ImageSizeNotMultipleOf128,
                seq![req.context, req.filename, crate::text::decimal(w as nat), crate::text::decimal(h as nat)],
            )
        } else if image_coords(req.value).0 >= h / 128 || image_coords(req.value).1 >= w / 128 {
            diag(
                Severity::Error,
                DiagnosticCode::ImageCoordinateOutOfBounds,
                seq![
                    req.context,
                    req.value,
                    crate::text::decimal((w / 128) as nat),
                    crate::text::decimal((h / 128) as nat),
                ],
            )
        } else {
            diag(
                Severity::Info,
                DiagnosticCode::ImageOk,
                seq![req.context, req.filename, crate::text::decimal(w as nat), crate::text::decimal(h as nat)],
            )
        },
        Err(m) => diag(Severity::Error, DiagnosticCode::UnreadableImage, args3(req.context, req.filename, m)),
    }
}

/// Judges a decoding result; the rules behind `check_image_ref`'s last step.
pub fn judge_decoded(req: &ImageRequest, decoded: Result<(u32, u32), String>) -> (res: Diagnostic)
    ensures
        res@ == decoded_findings(
            req@,
            match decoded {
                Ok(d) => Ok(d),
                Err(m) => Err(m@),
            },
        ),
{
    match decoded {
        Ok((w, h)) => {
            let mut args: Vec<String> = Vec::new();
            args.push(req.context.clone());
            args.push(req.filename.clone());
            args.push(crate::text::decimal_string(w as u64));
            args.push(crate::text::decimal_string(h as u64));
            let ghost a = string_views(args@);
            assert(a =~= seq![req.context@, req.filename@, crate::text::decimal(w as nat), crate::text::decimal(h as nat)]);
            if w % PAK_TILE_SIZE != 0 || h % PAK_TILE_SIZE != 0 {
                return Diagnostic::new(Severity::Error, DiagnosticCode::ImageSizeNotMultipleOf128, args);
            }
            let (row, col) = image_coords_exec(req.value.as_str());
            let cols = w / PAK_TILE_SIZE;
            let rows = h / PAK_TILE_SIZE;
            if row >= rows as u128 || col >= cols as u128 {
                let mut out_args: Vec<String> = Vec::new();
                out_args.push(req.context.clone());
                out_args.push(req.value.clone());
                out_args.push(crate::text::decimal_string(cols as u64));
                out_args.push(crate::text::decimal_string(rows as u64));
                assert(string_views(out_args@) =~= seq![req.context@, req.value@, crate::text::decimal((w / 128) as nat),
                    crate::text::decimal((h / 128) as nat)]);
                Diagnostic::new(Severity::Error, DiagnosticCode::ImageCoordinateOutOfBounds, out_args)
            } else {
                Diagnostic::new(Severity::Info, DiagnosticCode::ImageOk, args)
            }
        },
        Err(m) => Diagnostic::new(
            Severity::Error,
            DiagnosticCode::UnreadableImage,
            vec3(req.context.clone(), req.filename.clone(), m),
        ),
    }
}

/// The last part of a file name (after its last `/`).
pub open spec fn file_part(f: Seq<char>) -> Seq<char> {
    f.skip(name_start(f))
}

/// Whether a file name has an extension as `Path::extension` reads it: a
/// `.` in its last part that neither starts nor ends it. `image::open`
/// chooses the format by that extension and cannot tell one without it.
pub open spec fn has_extension(f: Seq<char>) -> bool {
    match last_index_of(file_part(f), '.') {
        Some(i) => 0 < i && i < file_part(f).len() - 1,
        None => false,
    }
}

/// What the `image` crate reports for a file whose format it cannot tell.
pub open spec fn unknown_format_text() -> Seq<char> {
    "The image format could not be determined"@
}

/// The text of `image::ImageError::Unsupported` with an unknown format
/// hint, which `image::open` returns for a path without an extension
/// (`ImageReader::require_format`); the contract gives that error's
/// `Display` text as the crate writes it.
#[verifier::external_body]
fn unknown_format_message() -> (res: String)
    ensures
        res@ == unknown_format_text(),
{
    image::ImageError::Unsupported(
        image::error::UnsupportedError::from_format_and_kind(
            image::error::ImageFormatHint::Unknown,
            image::error::UnsupportedErrorKind::Format(image::error::ImageFormatHint::Unknown),
        ),
    ).to_string()
}

/// Whether the file name `f` has an extension.
pub fn has_extension_exec(f: &str) -> (res: bool)
    ensures
        res == has_extension(f@),
{
    let v = chars_of(f);
    let n = v.len();
    let mut k: usize = n;
    while k > 0 && v[k - 1] != '/'
        invariant
            k <= n == v@.len(),
            forall|j: int| k <= j < n ==> #[trigger] v@[j] != '/',
        decreases k,
    {
        k = k - 1;
    }
    proof {
        lemma_last_index_of(v@, '/', k - 1);
    }
    let mut e: usize = n;
    while e > k && v[e - 1] != '.'
        invariant
            k <= e <= n == v@.len(),
            forall|j: int| e <= j < n ==> #[trigger] v@[j] != '.',
        decreases e,
    {
        e = e - 1;
    }
    proof {
        let part = v@.skip(k as int);
        assert(part =~= file_part(v@));
        assert forall|j: int| e - k <= j < part.len() implies #[trigger] part[j] != '.' by {
            assert(part[j] == v@[j + k]);
        }
        if e > k {
            assert(part[e - 1 - k] == v@[e - 1]);
        }
        lemma_last_index_of(part, '.', e - 1 - k);
    }
    e > k && e - 1 > k && e < n
}

/// The findings for an image request once the file system has been asked:
/// how the reference was resolved, then whether the file is missing, cannot
/// be read or decoded, or has a size that is not a multiple of 128.
pub open spec fn probe_findings(req: ImageRequestView, probe: ProbeView) -> Seq<DiagView> {
    let resolved = diag(Severity::Debug, DiagnosticCode::ImageRefResolved, args3(req.context, req.value, req.filename));
    match probe {
        ProbeView::Missing => seq![
            resolved,
            diag(Severity::Error, DiagnosticCode::MissingImageFile, args2(req.context, req.filename)),
        ],
        ProbeView::Unreadable(m) => seq![
            resolved,
            diag(Severity::Error, DiagnosticCode::UnreadableImage, args3(req.context, req.filename, m)),
        ],
        ProbeView::Contents(b) => seq![
            resolved,
            if has_extension(req.filename) {
                decoded_findings(req, decode_png(b))
            } else {
                diag(Severity::Error, DiagnosticCode::UnreadableImage, args3(req.context, req.filename, unknown_format_text()))
            },
        ],
    }
}

/// The findings for one image request and what the file system holds there.
pub fn image_diagnostics(req: &ImageRequest, probe: &FileProbe) -> (res: Vec<Diagnostic>)
    ensures
        dviews(res@) == probe_findings(req@, probe@),
{
    let mut out: Vec<Diagnostic> = Vec::new();
    out.push(Diagnostic::new(
        Severity::Debug,
        DiagnosticCode::ImageRefResolved,
        vec3(req.context.clone(), req.value.clone(), req.filename.clone()),
    ));
    match probe {
        FileProbe::Missing => {
            out.push(Diagnostic::new(
                Severity::Error,
                DiagnosticCode::MissingImageFile,
                vec2(req.context.clone(), req.filename.clone()),
            ));
        },
        FileProbe::Unreadable(m) => {
            out.push(Diagnostic::new(
                Severity::Error,
                DiagnosticCode::UnreadableImage,
                vec3(req.context.clone(), req.filename.clone(), m.clone()),
            ));
        },
        FileProbe::Contents(bytes) => {
            if has_extension_exec(req.filename.as_str()) {
                let decoded = png_dimensions(bytes.as_slice());
                out.push(judge_decoded(req, decoded));
            } else {
                out.push(Diagnostic::new(
                    Severity::Error,
                    DiagnosticCode::UnreadableImage,
                    vec3(req.context.clone(), req.filename.clone(), unknown_format_message()),
                ));
            }
        },
    }
    assert(dviews(out@) =~= probe_findings(req@, probe@));
    out
}

/// The findings of one image request, each pointed at the line of the key
/// the reference came from.
pub open spec fn located_findings(d: DatView, req: ImageRequestView, probe: ProbeView) -> Seq<DiagView> {
    probe_findings(req, probe).map_values(|x: DiagView| locate(d, x, req.context))
}

/// The number of image requests among `f`.
pub open spec fn image_count(f: Seq<FindingView>) -> nat
    decreases f.len(),
{
    if f.len() == 0 {
        0
    } else {
        image_count(f.drop_last()) + if f.last() is Image {
            1nat
        } else {
            0nat
        }
    }
}

/// The diagnostics of `f` once its image requests are settled by `probes`,
/// which answer them in order; those of a request point at the line of its
/// key in `d`.
pub open spec fn settle(f: Seq<FindingView>, probes: Seq<ProbeView>, d: DatView) -> Seq<DiagView>
    decreases f.len(),
{
    if f.len() == 0 {
        seq![]
    } else {
        let k = image_count(f.drop_last());
        settle(f.drop_last(), probes, d) + match f.last() {
            FindingView::Diag(x) => seq![x],
            FindingView::Image(r) => located_findings(d, r, probes[k as int]),
        }
    }
}

/// Replaces each image request of `findings` by what its probe (the probes
/// answer the requests in order) shows.
pub fn settle_findings(findings: Vec<Finding>, probes: &Vec<FileProbe>, dat: &DatFile) -> (res: Vec<Diagnostic>)
    requires
        probes@.len() == image_count(fviews(findings@)),
    ensures
        dviews(res@) == settle(fviews(findings@), probes@.map_values(|p: FileProbe| p@), dat@),
{
    let ghost f = fviews(findings@);
    let ghost pv = probes@.map_values(|p: FileProbe| p@);
    let mut out: Vec<Diagnostic> = Vec::new();
    let mut k: usize = 0;
    let mut i: usize = 0;
    let n = findings.len();
    assert(f.take(0) =~= Seq::<FindingView>::empty());
    for item in it: findings
        invariant
            n == findings@.len(),
            it.seq() == findings@,
            f == fviews(findings@),
            pv == probes@.map_values(|p: FileProbe| p@),
            probes@.len() == image_count(f),
            k == image_count(f.take(it.index() as int)),
            dviews(out@) == settle(f.take(it.index() as int), pv, dat@),
    {
        let ghost idx = it.index();
        proof {
            assert(f.take(idx + 1).drop_last() =~= f.take(idx as int));
            assert(f.take(idx + 1).last() == item@);
            lemma_image_count_prefix(f, idx + 1);
        }
        match item {
            Finding::Diag(d) => {
                let ghost dv = d@;
                out.push(d);
                assert(dviews(out@) =~= settle(f.take(idx as int), pv, dat@).push(dv));
                assert(settle(f.take(idx + 1), pv, dat@) =~= settle(f.take(idx as int), pv, dat@) + seq![dv]);
            },
            Finding::Image(r) => {
                assert(image_count(f.take(idx + 1)) == k + 1);
                assert(k + 1 <= probes.len());
                let more = locate_all(dat, image_diagnostics(&r, &probes[k]), r.context.as_str());
                let ghost before = dviews(out@);
                let mut more = more;
                let ghost m = dviews(more@);
                out.append(&mut more);
                assert(dviews(out@) =~= before + m);
                k = k + 1;
            },
        }
    }
    assert(f.take(n as int) =~= f);
    out
}

proof fn lemma_image_count_prefix(f: Seq<FindingView>, i: int)
    requires
        0 <= i <= f.len(),
    ensures
        image_count(f.take(i)) <= image_count(f),
    decreases f.len() - i,
{
    if i < f.len() {
        lemma_image_count_prefix(f, i + 1);
        assert(f.take(i + 1).drop_last() =~= f.take(i));
    } else {
        assert(f.take(i) =~= f);
    }
}


// ---------------------------------------------------------------------------
// Laws
// ---------------------------------------------------------------------------

proof fn lemma_last_index_of_spec(s: Seq<char>, c: char)
    ensures
        match last_index_of(s, c) {
            Some(i) => 0 <= i < s.len() && s[i] == c && forall|j: int| i < j < s.len() ==> #[trigger] s[j] != c,
            None => forall|j: int| 0 <= j < s.len() ==> #[trigger] s[j] != c,
        },
    decreases s.len(),
{
    if s.len() > 0 && s.last() != c {
        let t = s.drop_last();
        lemma_last_index_of_spec(t, c);
        match last_index_of(t, c) {
            Some(i) => {
                assert(s[i] == t[i]);
                assert forall|j: int| i < j < s.len() implies #[trigger] s[j] != c by {
                    if j < s.len() - 1 {
                        assert(s[j] == t[j]);
                    }
                }
            },
            None => {
                assert forall|j: int| 0 <= j < s.len() implies #[trigger] s[j] != c by {
                    if j < s.len() - 1 {
                        assert(s[j] == t[j]);
                    }
                }
            },
        }
    }
}

proof fn lemma_first_index_of_spec(s: Seq<char>, c: char)
    ensures
        match first_index_of(s, c) {
            Some(i) => 0 <= i < s.len() && s[i] == c && forall|j: int| 0 <= j < i ==> #[trigger] s[j] != c,
            None => forall|j: int| 0 <= j < s.len() ==> #[trigger] s[j] != c,
        },
    decreases s.len(),
{
    if s.len() > 0 && s[0] != c {
        let t = s.drop_first();
        lemma_first_index_of_spec(t, c);
        match first_index_of(t, c) {
            Some(i) => {
                assert(s[i + 1] == t[i]);
                assert forall|j: int| 0 <= j < i + 1 implies #[trigger] s[j] != c by {
                    if j > 0 {
                        assert(s[j] == t[j - 1]);
                    }
                }
            },
            None => {
                assert forall|j: int| 0 <= j < s.len() implies #[trigger] s[j] != c by {
                    if j > 0 {
                        assert(s[j] == t[j - 1]);
                    }
                }
            },
        }
    }
}

/// A reference names a `.png` file whose directory part (everything up to
/// the last `/`) is the reference's own: where the part after the last `/`
/// has a `.`, the file name is the reference cut at that `.` plus `.png`.
pub proof fn law_filename_keeps_directory(v: Seq<char>)
    ensures
        ({
            let start = match last_index_of(v, '/') {
                Some(i) => i + 1,
                None => 0,
            };
            let r = image_filename(v);
            &&& r.take(start) == v.take(start)
            &&& first_index_of(v.skip(start), '.') is Some ==> r.len() >= start + 4 && r.skip(r.len() - 4)
                == png_ext()
        }),
{
    lemma_last_index_of_spec(v, '/');
    let start = match last_index_of(v, '/') {
        Some(i) => i + 1,
        None => 0,
    };
    lemma_first_index_of_spec(v.skip(start), '.');
    let r = image_filename(v);
    match first_index_of(v.skip(start), '.') {
        Some(d) => {
            assert(r.take(start) =~= v.take(start));
            assert(r.skip(r.len() - 4) =~= png_ext());
        },
        None => {},
    }
}

/// Whatever follows the first `.` of a plain file name (no `/` in the
/// reference), the file is that name plus `.png`: `station_icon.4.0` and
/// `station_icon.png.0.0` name the same `station_icon.png`.
pub proof fn law_filename_is_stem_plus_png(stem: Seq<char>, rest: Seq<char>)
    requires
        forall|i: int| 0 <= i < stem.len() ==> stem[i] != '.' && stem[i] != '/',
        forall|i: int| 0 <= i < rest.len() ==> rest[i] != '/',
    ensures
        image_filename(stem + seq!['.'] + rest) == stem + png_ext(),
{
    let v = stem + seq!['.'] + rest;
    assert forall|j: int| -1 < j < v.len() implies #[trigger] v[j] != '/' by {
        if j < stem.len() {
            assert(v[j] == stem[j]);
        } else if j > stem.len() {
            assert(v[j] == rest[j - stem.len() - 1]);
        }
    }
    lemma_last_index_of(v, '/', -1);
    assert(v.skip(0) =~= v);
    assert forall|j: int| 0 <= j < stem.len() implies #[trigger] v[j] != '.' by {
        assert(v[j] == stem[j]);
    }
    lemma_first_index_of(v, '.', stem.len() as int);
    assert(v.take(stem.len() as int) =~= stem);
}

/// Resolving the file name of a resolved reference gives the same name.
pub proof fn law_filename_idempotent(v: Seq<char>)
    ensures
        image_filename(image_filename(v)) == image_filename(v),
{
    lemma_last_index_of_spec(v, '/');
    let start = match last_index_of(v, '/') {
        Some(i) => i + 1,
        None => 0,
    };
    let numkey = v.skip(start);
    lemma_first_index_of_spec(numkey, '.');
    match first_index_of(numkey, '.') {
        None => {},
        Some(d) => {
            let r = v.take(start + d) + png_ext();
            // the last '/' of r is the one of v
            assert forall|j: int| start <= j < r.len() implies #[trigger] r[j] != '/' by {
                if j < start + d {
                    assert(r[j] == v[j]);
                    assert(v[j] == numkey[j - start]);
                }
            }
            if start > 0 {
                assert(r[start - 1] == v[start - 1]);
                lemma_last_index_of(r, '/', start - 1);
            } else {
                lemma_last_index_of(r, '/', -1);
            }
            // the first '.' after it is at the same place
            let nk = r.skip(start);
            assert forall|j: int| 0 <= j < d implies #[trigger] nk[j] != '.' by {
                assert(nk[j] == r[j + start]);
                assert(r[j + start] == v[j + start]);
                assert(v[j + start] == numkey[j]);
            }
            assert(nk[d] == '.');
            lemma_first_index_of(nk, '.', d);
            assert(r.take(start + d) =~= v.take(start + d));
        },
    }
}

/// The `"-"` sentinel (after the `>` flag and trimming) never asks for a
/// file; every other reference does.
pub proof fn law_sentinel_never_requests_a_file(value: Seq<char>, context: Seq<char>)
    ensures
        (image_ref_finding(value, context) is Image) <==> !is_sentinel(strip_zoom_trim(value)),
{
}

/// Settling image requests keeps every diagnostic and turns each image
/// request into two findings (how it resolved, and the verdict on the file).
pub proof fn law_settle_length(f: Seq<FindingView>, probes: Seq<ProbeView>, d: DatView)
    ensures
        settle(f, probes, d).len() == f.len() + image_count(f),
    decreases f.len(),
{
    if f.len() > 0 {
        law_settle_length(f.drop_last(), probes, d);
    }
}

} // verus!
