//! What a check reports: a severity, a code, an optional `.dat` location and
//! the values the message is built from.
use vstd::prelude::*;

verus! {

/// How bad a finding is.
#[derive(Clone, Copy, PartialEq, Eq, Debug, Structural)]
pub enum Severity {
    /// makeobj stops (FATAL ERROR) or the object cannot work.
    Error,
    /// makeobj goes on, but the result differs from what was written.
    Warning,
    /// A confirmation that a checked item is fine.
    Info,
    /// Details of how a value was read.
    Debug,
}

/// Every code that a rule of this crate reports.
#[derive(Clone, Copy, PartialEq, Eq, Debug, Structural)]
pub enum DiagnosticCode {
    DuplicateKey,
    MissingWaytype,
    UnknownWaytype,
    WaytypeOk,
    WaytypeOmitted,
    ImageRefEmptySentinel,
    ImageRefResolved,
    MissingImageFile,
    ImageSizeNotMultipleOf128,
    ImageCoordinateOutOfBounds,
    ImageOk,
    UnreadableImage,
    MissingBaseImage,
    BaseImageOk,
    ClipBelowOutOfRange,
    ClampedValueOutOfRange,
    NoBridgeImageSpecified,
    DateIndexOverflow,
    NarrowIntOverflow,
    ParsedPairs,
    RawTypeWaytype,
    ObsoleteType,
    UnknownType,
    TypeWaytypeOk,
    GenericExtension,
    ObsoleteKeyword,
    BooleanStyleFieldNotZeroOrOne,
    MissingAgeSeasonImage,
    ImageOmitted,
    RoadsignImageCountNotMultipleOf4,
    RoadsignImageMissing,
    CrossingIdenticalWaytypes,
    CrossingMissingSpeed,
    CrossingMissingOpenimage,
    MissingSeasonImage,
    NoImages,
    FactoryTypeOverride,
    FactoryMissingMapcolor,
    FactoryMapcolorOk,
    FactoryOutputCapacityTooSmall,
    FactorySmoketileWithoutOffset,
    FactoryProbabilityClamped,
    FactoryProductivityZero,
    EngineTypeSkipped,
    UnknownEngineType,
    Incomplete8DirectionImages,
    FreightimageCountMismatch,
    MissingIndexedFreightimage,
    MissingFreightimagetype,
    ExtraFreightimagetype,
    GearParseFailure,
    PowerGearMismatch,
    EmbeddedNulInStringField,
    NameForbiddenFilenameCharacter,
    UnknownSkinName,
    ZeroSize,
    MissingCursorIcon,
    CursorIconNotApplicable,
}

impl DiagnosticCode {
    /// The code's name as reports and configuration files write it.
    pub open spec fn name(self) -> &'static str {
        match self {
            DiagnosticCode::DuplicateKey => "duplicate-key",
            DiagnosticCode::MissingWaytype => "missing-waytype",
            DiagnosticCode::UnknownWaytype => "unknown-waytype",
            DiagnosticCode::WaytypeOk => "waytype-ok",
            DiagnosticCode::WaytypeOmitted => "waytype-omitted",
            DiagnosticCode::ImageRefEmptySentinel => "image-ref-empty-sentinel",
            DiagnosticCode::ImageRefResolved => "image-ref-resolved",
            DiagnosticCode::MissingImageFile => "missing-image-file",
            DiagnosticCode::ImageSizeNotMultipleOf128 => "image-size-not-multiple-of-128",
            DiagnosticCode::ImageCoordinateOutOfBounds => "image-coordinate-out-of-bounds",
            DiagnosticCode::ImageOk => "image-ok",
            DiagnosticCode::UnreadableImage => "unreadable-image",
            DiagnosticCode::MissingBaseImage => "missing-base-image",
            DiagnosticCode::BaseImageOk => "base-image-ok",
            DiagnosticCode::ClipBelowOutOfRange => "clip-below-out-of-range",
            DiagnosticCode::ClampedValueOutOfRange => "clamped-value-out-of-range",
            DiagnosticCode::NoBridgeImageSpecified => "no-bridge-image-specified",
            DiagnosticCode::DateIndexOverflow => "date-index-overflow",
            DiagnosticCode::NarrowIntOverflow => "narrow-int-overflow",
            DiagnosticCode::ParsedPairs => "parsed-pairs",
            DiagnosticCode::RawTypeWaytype => "raw-type-waytype",
            DiagnosticCode::ObsoleteType => "obsolete-type",
            DiagnosticCode::UnknownType => "unknown-type",
            DiagnosticCode::TypeWaytypeOk => "type-waytype-ok",
            DiagnosticCode::GenericExtension => "generic-extension",
            DiagnosticCode::ObsoleteKeyword => "obsolete-keyword",
            DiagnosticCode::BooleanStyleFieldNotZeroOrOne => "boolean-style-field-not-zero-or-one",
            DiagnosticCode::MissingAgeSeasonImage => "missing-age-season-image",
            DiagnosticCode::ImageOmitted => "image-omitted",
            DiagnosticCode::RoadsignImageCountNotMultipleOf4 => "roadsign-image-count-not-multiple-of-4",
            DiagnosticCode::RoadsignImageMissing => "roadsign-image-missing",
            DiagnosticCode::CrossingIdenticalWaytypes => "crossing-identical-waytypes",
            DiagnosticCode::CrossingMissingSpeed => "crossing-missing-speed",
            DiagnosticCode::CrossingMissingOpenimage => "crossing-missing-openimage",
            DiagnosticCode::MissingSeasonImage => "missing-season-image",
            DiagnosticCode::NoImages => "no-images",
            DiagnosticCode::FactoryTypeOverride => "factory-type-override",
            DiagnosticCode::FactoryMissingMapcolor => "factory-missing-mapcolor",
            DiagnosticCode::FactoryMapcolorOk => "factory-mapcolor-ok",
            DiagnosticCode::FactoryOutputCapacityTooSmall => "factory-output-capacity-too-small",
            DiagnosticCode::FactorySmoketileWithoutOffset => "factory-smoketile-without-offset",
            DiagnosticCode::FactoryProbabilityClamped => "factory-probability-clamped",
            DiagnosticCode::FactoryProductivityZero => "factory-productivity-zero",
            DiagnosticCode::EngineTypeSkipped => "engine-type-skipped",
            DiagnosticCode::UnknownEngineType => "unknown-engine-type",
            DiagnosticCode::Incomplete8DirectionImages => "incomplete-8-direction-images",
            DiagnosticCode::FreightimageCountMismatch => "freightimage-count-mismatch",
            DiagnosticCode::MissingIndexedFreightimage => "missing-indexed-freightimage",
            DiagnosticCode::MissingFreightimagetype => "missing-freightimagetype",
            DiagnosticCode::ExtraFreightimagetype => "extra-freightimagetype",
            DiagnosticCode::GearParseFailure => "gear-parse-failure",
            DiagnosticCode::PowerGearMismatch => "power-gear-mismatch",
            DiagnosticCode::EmbeddedNulInStringField => "embedded-nul-in-string-field",
            DiagnosticCode::NameForbiddenFilenameCharacter => "name-forbidden-filename-character",
            DiagnosticCode::UnknownSkinName => "unknown-skin-name",
            DiagnosticCode::ZeroSize => "zero-size",
            DiagnosticCode::MissingCursorIcon => "missing-cursor-icon",
            DiagnosticCode::CursorIconNotApplicable => "cursor-icon-not-applicable",
        }
    }

    /// The code's name, e.g. `"missing-waytype"`.
    pub fn as_str(&self) -> (res: &'static str)
        ensures
            res == self.name(),
    {
        match self {
            DiagnosticCode::DuplicateKey => "duplicate-key",
            DiagnosticCode::MissingWaytype => "missing-waytype",
            DiagnosticCode::UnknownWaytype => "unknown-waytype",
            DiagnosticCode::WaytypeOk => "waytype-ok",
            DiagnosticCode::WaytypeOmitted => "waytype-omitted",
            DiagnosticCode::ImageRefEmptySentinel => "image-ref-empty-sentinel",
            DiagnosticCode::ImageRefResolved => "image-ref-resolved",
            DiagnosticCode::MissingImageFile => "missing-image-file",
            DiagnosticCode::ImageSizeNotMultipleOf128 => "image-size-not-multiple-of-128",
            DiagnosticCode::ImageCoordinateOutOfBounds => "image-coordinate-out-of-bounds",
            DiagnosticCode::ImageOk => "image-ok",
            DiagnosticCode::UnreadableImage => "unreadable-image",
            DiagnosticCode::MissingBaseImage => "missing-base-image",
            DiagnosticCode::BaseImageOk => "base-image-ok",
            DiagnosticCode::ClipBelowOutOfRange => "clip-below-out-of-range",
            DiagnosticCode::ClampedValueOutOfRange => "clamped-value-out-of-range",
            DiagnosticCode::NoBridgeImageSpecified => "no-bridge-image-specified",
            DiagnosticCode::DateIndexOverflow => "date-index-overflow",
            DiagnosticCode::NarrowIntOverflow => "narrow-int-overflow",
            DiagnosticCode::ParsedPairs => "parsed-pairs",
            DiagnosticCode::RawTypeWaytype => "raw-type-waytype",
            DiagnosticCode::ObsoleteType => "obsolete-type",
            DiagnosticCode::UnknownType => "unknown-type",
            DiagnosticCode::TypeWaytypeOk => "type-waytype-ok",
            DiagnosticCode::GenericExtension => "generic-extension",
            DiagnosticCode::ObsoleteKeyword => "obsolete-keyword",
            DiagnosticCode::BooleanStyleFieldNotZeroOrOne => "boolean-style-field-not-zero-or-one",
            DiagnosticCode::MissingAgeSeasonImage => "missing-age-season-image",
            DiagnosticCode::ImageOmitted => "image-omitted",
            DiagnosticCode::RoadsignImageCountNotMultipleOf4 => "roadsign-image-count-not-multiple-of-4",
            DiagnosticCode::RoadsignImageMissing => "roadsign-image-missing",
            DiagnosticCode::CrossingIdenticalWaytypes => "crossing-identical-waytypes",
            DiagnosticCode::CrossingMissingSpeed => "crossing-missing-speed",
            DiagnosticCode::CrossingMissingOpenimage => "crossing-missing-openimage",
            DiagnosticCode::MissingSeasonImage => "missing-season-image",
            DiagnosticCode::NoImages => "no-images",
            DiagnosticCode::FactoryTypeOverride => "factory-type-override",
            DiagnosticCode::FactoryMissingMapcolor => "factory-missing-mapcolor",
            DiagnosticCode::FactoryMapcolorOk => "factory-mapcolor-ok",
            DiagnosticCode::FactoryOutputCapacityTooSmall => "factory-output-capacity-too-small",
            DiagnosticCode::FactorySmoketileWithoutOffset => "factory-smoketile-without-offset",
            DiagnosticCode::FactoryProbabilityClamped => "factory-probability-clamped",
            DiagnosticCode::FactoryProductivityZero => "factory-productivity-zero",
            DiagnosticCode::EngineTypeSkipped => "engine-type-skipped",
            DiagnosticCode::UnknownEngineType => "unknown-engine-type",
            DiagnosticCode::Incomplete8DirectionImages => "incomplete-8-direction-images",
            DiagnosticCode::FreightimageCountMismatch => "freightimage-count-mismatch",
            DiagnosticCode::MissingIndexedFreightimage => "missing-indexed-freightimage",
            DiagnosticCode::MissingFreightimagetype => "missing-freightimagetype",
            DiagnosticCode::ExtraFreightimagetype => "extra-freightimagetype",
            DiagnosticCode::GearParseFailure => "gear-parse-failure",
            DiagnosticCode::PowerGearMismatch => "power-gear-mismatch",
            DiagnosticCode::EmbeddedNulInStringField => "embedded-nul-in-string-field",
            DiagnosticCode::NameForbiddenFilenameCharacter => "name-forbidden-filename-character",
            DiagnosticCode::UnknownSkinName => "unknown-skin-name",
            DiagnosticCode::ZeroSize => "zero-size",
            DiagnosticCode::MissingCursorIcon => "missing-cursor-icon",
            DiagnosticCode::CursorIconNotApplicable => "cursor-icon-not-applicable",
        }
    }
}

/// Where in the `.dat` text a finding points: a line and the key on it.
#[derive(Debug)]
pub struct Location {
    pub line: usize,
    pub key: String,
}

/// One finding: its severity, code, location if known, and the values that
/// the message is built from (keys, raw values, computed numbers), in the
/// order the message names them.
#[derive(Debug)]
pub struct Diagnostic {
    pub severity: Severity,
    pub code: DiagnosticCode,
    pub location: Option<Location>,
    pub args: Vec<String>,
}

/// The mathematical value of a [`Diagnostic`].
pub struct DiagView {
    pub severity: Severity,
    pub code: DiagnosticCode,
    pub location: Option<(nat, Seq<char>)>,
    pub args: Seq<Seq<char>>,
}

pub open spec fn string_views(v: Seq<String>) -> Seq<Seq<char>> {
    v.map_values(|s: String| s@)
}

impl View for Diagnostic {
    type V = DiagView;

    open spec fn view(&self) -> DiagView {
        DiagView {
            severity: self.severity,
            code: self.code,
            location: match self.location {
                Some(l) => Some((l.line as nat, l.key@)),
                None => None,
            },
            args: string_views(self.args@),
        }
    }
}

/// A finding without a location.
pub open spec fn diag(severity: Severity, code: DiagnosticCode, args: Seq<Seq<char>>) -> DiagView {
    DiagView { severity, code, location: None, args }
}

/// `d` pointed at `key` on `line`.
pub open spec fn at(d: DiagView, line: nat, key: Seq<char>) -> DiagView {
    DiagView { location: Some((line, key)), ..d }
}

impl Diagnostic {
    /// A finding without a location.
    pub fn new(severity: Severity, code: DiagnosticCode, args: Vec<String>) -> (res: Diagnostic)
        ensures
            res@ == diag(severity, code, string_views(args@)),
    {
        Diagnostic { severity, code, location: None, args }
    }

    /// The same finding pointed at `key` on `line`.
    pub fn at(self, line: usize, key: String) -> (res: Diagnostic)
        ensures
            res@ == at(self@, line as nat, key@),
    {
        Diagnostic { location: Some(Location { line, key }), ..self }
    }
}

/// An image reference that a rule found and that only the file system can
/// settle: the key it came from, the reference as makeobj reads it and the
/// file name it resolves to.
#[derive(Debug)]
pub struct ImageRequest {
    pub context: String,
    pub value: String,
    pub filename: String,
}

pub struct ImageRequestView {
    pub context: Seq<char>,
    pub value: Seq<char>,
    pub filename: Seq<char>,
}

impl View for ImageRequest {
    type V = ImageRequestView;

    open spec fn view(&self) -> ImageRequestView {
        ImageRequestView { context: self.context@, value: self.value@, filename: self.filename@ }
    }
}

/// What a rule produces: a finding, or an image file to look at.
#[derive(Debug)]
pub enum Finding {
    Diag(Diagnostic),
    Image(ImageRequest),
}

pub enum FindingView {
    Diag(DiagView),
    Image(ImageRequestView),
}

impl View for Finding {
    type V = FindingView;

    open spec fn view(&self) -> FindingView {
        match self {
            Finding::Diag(d) => FindingView::Diag(d@),
            Finding::Image(r) => FindingView::Image(r@),
        }
    }
}

pub open spec fn fviews(v: Seq<Finding>) -> Seq<FindingView> {
    v.map_values(|f: Finding| f@)
}

pub open spec fn dviews(v: Seq<Diagnostic>) -> Seq<DiagView> {
    v.map_values(|d: Diagnostic| d@)
}

/// The findings as they stand for a diagnostic-only list.
pub open spec fn as_findings(v: Seq<DiagView>) -> Seq<FindingView> {
    v.map_values(|d: DiagView| FindingView::Diag(d))
}

/// Appends a finding.
pub fn push_diag(out: &mut Vec<Finding>, d: Diagnostic)
    ensures
        fviews(final(out)@) == fviews(old(out)@).push(FindingView::Diag(d@)),
{
    let ghost dv = d@;
    out.push(Finding::Diag(d));
    assert(fviews(out@) =~= fviews(old(out)@).push(FindingView::Diag(dv)));
}

/// Moves the findings of `more` to the end of `out`.
pub fn append_findings(out: &mut Vec<Finding>, more: Vec<Finding>)
    ensures
        fviews(final(out)@) == fviews(old(out)@) + fviews(more@),
{
    let mut more = more;
    let ghost m = fviews(more@);
    out.append(&mut more);
    assert(fviews(out@) =~= fviews(old(out)@) + m);
}

/// A list of string arguments from views, for the specs.
pub open spec fn args1(a: Seq<char>) -> Seq<Seq<char>> {
    seq![a]
}

pub open spec fn args2(a: Seq<char>, b: Seq<char>) -> Seq<Seq<char>> {
    seq![a, b]
}

pub open spec fn args3(a: Seq<char>, b: Seq<char>, c: Seq<char>) -> Seq<Seq<char>> {
    seq![a, b, c]
}

pub fn vec1(a: String) -> (res: Vec<String>)
    ensures
        string_views(res@) == args1(a@),
{
    let ghost av = a@;
    let mut v: Vec<String> = Vec::new();
    v.push(a);
    assert(string_views(v@) =~= args1(av));
    v
}

pub fn vec2(a: String, b: String) -> (res: Vec<String>)
    ensures
        string_views(res@) == args2(a@, b@),
{
    let ghost av = a@;
    let ghost bv = b@;
    let mut v: Vec<String> = Vec::new();
    v.push(a);
    v.push(b);
    assert(string_views(v@) =~= args2(av, bv));
    v
}

pub fn vec3(a: String, b: String, c: String) -> (res: Vec<String>)
    ensures
        string_views(res@) == args3(a@, b@, c@),
{
    let ghost av = a@;
    let ghost bv = b@;
    let ghost cv = c@;
    let mut v: Vec<String> = Vec::new();
    v.push(a);
    v.push(b);
    v.push(c);
    assert(string_views(v@) =~= args3(av, bv, cv));
    v
}

pub fn vec0() -> (res: Vec<String>)
    ensures
        string_views(res@) == Seq::<Seq<char>>::empty(),
{
    let v: Vec<String> = Vec::new();
    assert(string_views(v@) =~= Seq::<Seq<char>>::empty());
    v
}

} // verus!
