//! Feature definitions, and the observations that are emitted under them.

use vstd::prelude::*;
use vstd::string::StringExecFns;

use crate::decimal::{digits_ascii, FixedDecimal};
use crate::digest::{same_digest, utf8};
use crate::domain::{
    DurationNanos, FeatureEntity, FinalityState, FiniteF64, MissingnessReason, QualityScore,
    SourceCoverage, SourceHealthState, UnixNanos,
};
use crate::window::{WindowDefinition, WindowKind, WindowParameter};

verus! {

/// A released version: no pre-release and no build metadata.
#[derive(Clone, Copy, Debug, PartialEq, Eq, Structural)]
pub struct FeatureVersion {
    pub major: u64,
    pub minor: u64,
    pub patch: u64,
}

/// The text of a released version.
pub open spec fn version_ascii(version: FeatureVersion) -> Seq<u8> {
    digits_ascii(version.major as nat) + seq![46u8] + digits_ascii(version.minor as nat)
        + seq![46u8] + digits_ascii(version.patch as nat)
}

impl FeatureVersion {
    pub fn new(major: u64, minor: u64, patch: u64) -> (version: Self)
        ensures
            version == (FeatureVersion { major, minor, patch }),
    {
        FeatureVersion { major, minor, patch }
    }

    /// The text of the version.
    pub fn text(self) -> (text: String)
        ensures
            utf8(text@) == version_ascii(self),
            is_release(version_parts(text@)) == (self.major > 0),
    {
        release_text(self.major, self.minor, self.patch)
    }
}

/// Major, minor and patch numbers, pre-release and build metadata of the version that
/// `semver::Version::parse` reads from a text, if it reads one.
pub uninterp spec fn version_parts(text: Seq<char>) -> Option<
    (u64, u64, u64, Seq<char>, Seq<char>),
>;

/// A version as it was read, with its pre-release and build metadata.
#[derive(Debug)]
pub struct ParsedVersion {
    pub release: FeatureVersion,
    pub pre_release: String,
    pub build: String,
}

/// Calls `semver::Version::parse`. Which texts are versions is not stated, but for the texts of
/// released versions.
#[verifier::external_body]
pub(crate) fn parse_version(text: &str) -> (version: Option<ParsedVersion>)
    ensures
        match version {
            Some(version) => version_parts(text@) == Some(
                (
                    version.release.major,
                    version.release.minor,
                    version.release.patch,
                    version.pre_release@,
                    version.build@,
                ),
            ),
            None => version_parts(text@) is None,
        },
{
    let version = semver::Version::parse(text).ok()?;
    Some(ParsedVersion {
        release: FeatureVersion { major: version.major, minor: version.minor, patch: version.patch },
        pre_release: version.pre.as_str().to_owned(),
        build: version.build.as_str().to_owned(),
    })
}

/// A version with neither a pre-release nor build metadata, of which the first is out.
pub open spec fn is_release(parts: Option<(u64, u64, u64, Seq<char>, Seq<char>)>) -> bool {
    match parts {
        Some((major, _, _, pre_release, build)) => major > 0 && pre_release.len() == 0
            && build.len() == 0,
        None => false,
    }
}

/// Whether a version that was read is a release.
pub fn is_released(version: &Option<ParsedVersion>) -> (answer: bool)
    ensures
        answer == is_release(parsed_parts(*version)),
{
    match version {
        Some(version) => version.release.major > 0 && version.pre_release.as_str().is_empty()
            && version.build.as_str().is_empty(),
        None => false,
    }
}

/// The parts of a version that was read.
pub open spec fn parsed_parts(version: Option<ParsedVersion>) -> Option<
    (u64, u64, u64, Seq<char>, Seq<char>),
> {
    match version {
        Some(version) => Some(
            (
                version.release.major,
                version.release.minor,
                version.release.patch,
                version.pre_release@,
                version.build@,
            ),
        ),
        None => None,
    }
}

/// Whether a text is the version of a release.
pub fn valid_release_version(text: &str) -> (answer: bool)
    ensures
        answer == is_release(version_parts(text@)),
{
    let version = parse_version(text);
    is_released(&version)
}

/// Formats `semver::Version::new(major, minor, patch)` with its `Display`: the three numbers in
/// decimal, with points between them, and nothing else, as such a version has neither a
/// pre-release nor build metadata. `semver::Version::parse` reads the same numbers back.
#[verifier::external_body]
fn release_text(major: u64, minor: u64, patch: u64) -> (text: String)
    ensures
        utf8(text@) == version_ascii(FeatureVersion { major, minor, patch }),
        version_parts(text@) == Some((major, minor, patch, Seq::<char>::empty(), Seq::<char>::empty())),
{
    semver::Version::new(major, minor, patch).to_string()
}

#[derive(Clone, Copy, Debug, PartialEq, Eq, Structural)]
pub enum FeatureStatus {
    Required,
    Optional,
    Experimental,
}

#[derive(Clone, Copy, Debug, PartialEq, Eq, Structural)]
pub enum FeatureConsumptionRole {
    ModelEligible,
    GatingOnly,
    UncertaintyOnly,
}

#[derive(Clone, Copy, Debug, PartialEq, Eq, Structural)]
pub enum EntityScope {
    Instrument,
    Asset,
    AssetPair,
    AssetSource,
    AssetSourcePair,
    Venue,
    Source,
    Global,
}

#[derive(Clone, Copy, Debug, PartialEq, Eq, Structural)]
pub enum FeatureValueType {
    FixedDecimal,
    FixedDecimalMap,
    Float64,
    Integer,
    Boolean,
}

#[derive(Clone, Copy, Debug, PartialEq, Eq, Structural)]
pub enum NormalizationKind {
    Unnormalized,
    RobustRolling,
    ExpandingQuantile,
    TrainingFoldZScore,
    Log,
    SignedLog,
    VolatilityScaled,
    AssetRelative,
    CrossSectionalRank,
    TimeOfWeekSeasonal,
    LiquidityBucket,
}

/// What an observation must reach to be used.
#[derive(Debug)]
pub struct QualityGate {
    pub minimum_quality: QualityScore,
    pub minimum_coverage: QualityScore,
    pub allowed_health: Vec<SourceHealthState>,
}

/// A feature as it is registered. Its events are timed by their sources, and absence is explicit.
#[derive(Debug)]
pub struct FeatureDefinition {
    pub id: &'static str,
    pub version: FeatureVersion,
    pub status: FeatureStatus,
    pub consumption_role: FeatureConsumptionRole,
    pub value_type: FeatureValueType,
    pub entities: EntityScope,
    pub required_inputs: Vec<&'static str>,
    pub windows: Vec<WindowDefinition>,
    pub output_resolution: DurationNanos,
    pub allowed_lateness: DurationNanos,
    pub time_to_live: DurationNanos,
    pub normalization: NormalizationKind,
    pub normalization_version: FeatureVersion,
    pub quality_gate: QualityGate,
    pub formula_hash: [u8; 32],
    pub documentation: String,
}

/// A registered window by its identifier, kind and parameter.
pub type WindowView = (Seq<char>, WindowKind, WindowParameter);

/// What a [`FeatureDefinition`] says.
pub struct DefinitionView {
    pub id: Seq<char>,
    pub version: FeatureVersion,
    pub status: FeatureStatus,
    pub consumption_role: FeatureConsumptionRole,
    pub value_type: FeatureValueType,
    pub entities: EntityScope,
    pub required_inputs: Seq<Seq<char>>,
    pub windows: Seq<WindowView>,
    pub output_resolution: u64,
    pub allowed_lateness: u64,
    pub time_to_live: u64,
    pub normalization: NormalizationKind,
    pub normalization_version: FeatureVersion,
    pub minimum_quality: u32,
    pub minimum_coverage: u32,
    pub allowed_health: Seq<SourceHealthState>,
    pub formula_hash: Seq<u8>,
    pub documentation: Seq<char>,
}

pub open spec fn window_views(windows: Seq<WindowDefinition>) -> Seq<WindowView> {
    Seq::new(windows.len(), |i: int| (windows[i].id@, windows[i].kind, windows[i].parameter))
}

pub open spec fn text_views(texts: Seq<&'static str>) -> Seq<Seq<char>> {
    Seq::new(texts.len(), |i: int| texts[i]@)
}

impl View for FeatureDefinition {
    type V = DefinitionView;

    open spec fn view(&self) -> DefinitionView {
        DefinitionView {
            id: self.id@,
            version: self.version,
            status: self.status,
            consumption_role: self.consumption_role,
            value_type: self.value_type,
            entities: self.entities,
            required_inputs: text_views(self.required_inputs@),
            windows: window_views(self.windows@),
            output_resolution: self.output_resolution.nanos,
            allowed_lateness: self.allowed_lateness.nanos,
            time_to_live: self.time_to_live.nanos,
            normalization: self.normalization,
            normalization_version: self.normalization_version,
            minimum_quality: self.quality_gate.minimum_quality.millionths,
            minimum_coverage: self.quality_gate.minimum_coverage.millionths,
            allowed_health: self.quality_gate.allowed_health@,
            formula_hash: self.formula_hash@,
            documentation: self.documentation@,
        }
    }
}

fn same_texts(left: &Vec<&'static str>, right: &Vec<&'static str>) -> (answer: bool)
    ensures
        answer == (text_views(left@) == text_views(right@)),
{
    let ghost a = text_views(left@);
    let ghost b = text_views(right@);
    if left.len() != right.len() {
        proof {
            assert(a.len() != b.len());
        }
        return false;
    }
    let mut i: usize = 0;
    while i < left.len()
        invariant
            i <= left@.len() == right@.len(),
            a == text_views(left@),
            b == text_views(right@),
            forall|k: int| 0 <= k < i ==> a[k] == b[k],
        decreases left.len() - i,
    {
        proof {
            assert(a[i as int] == left@[i as int]@);
            assert(b[i as int] == right@[i as int]@);
        }
        if !same_text(left[i], right[i]) {
            return false;
        }
        i += 1;
    }
    proof {
        assert(a =~= b);
    }
    true
}

fn same_windows(left: &Vec<WindowDefinition>, right: &Vec<WindowDefinition>) -> (answer: bool)
    ensures
        answer == (window_views(left@) == window_views(right@)),
{
    let ghost a = window_views(left@);
    let ghost b = window_views(right@);
    if left.len() != right.len() {
        return false;
    }
    let mut i: usize = 0;
    while i < left.len()
        invariant
            i <= left@.len() == right@.len(),
            a == window_views(left@),
            b == window_views(right@),
            forall|k: int| 0 <= k < i ==> a[k] == b[k],
        decreases left.len() - i,
    {
        proof {
            assert(a[i as int] == (
                left@[i as int].id@,
                left@[i as int].kind,
                left@[i as int].parameter,
            ));
            assert(b[i as int] == (
                right@[i as int].id@,
                right@[i as int].kind,
                right@[i as int].parameter,
            ));
        }
        if left[i].id != right[i].id || left[i].kind != right[i].kind || left[i].parameter
            != right[i].parameter {
            return false;
        }
        i += 1;
    }
    proof {
        assert(a =~= b);
    }
    true
}

fn same_states(left: &Vec<SourceHealthState>, right: &Vec<SourceHealthState>) -> (answer: bool)
    ensures
        answer == (left@ == right@),
{
    if left.len() != right.len() {
        return false;
    }
    let mut i: usize = 0;
    while i < left.len()
        invariant
            i <= left@.len() == right@.len(),
            forall|k: int| 0 <= k < i ==> left@[k] == right@[k],
        decreases left.len() - i,
    {
        if left[i] != right[i] {
            return false;
        }
        i += 1;
    }
    proof {
        assert(left@ =~= right@);
    }
    true
}

impl FeatureDefinition {
    /// Whether both define the same feature in the same way.
    pub fn same(&self, other: &Self) -> (answer: bool)
        ensures
            answer == (self@ == other@),
    {
        same_text(self.id, other.id) && self.version == other.version && self.status
            == other.status && self.consumption_role == other.consumption_role && self.value_type
            == other.value_type && self.entities == other.entities && same_texts(
            &self.required_inputs,
            &other.required_inputs,
        ) && same_windows(&self.windows, &other.windows) && self.output_resolution.value()
            == other.output_resolution.value() && self.allowed_lateness.value()
            == other.allowed_lateness.value() && self.time_to_live.value()
            == other.time_to_live.value() && self.normalization == other.normalization
            && self.normalization_version == other.normalization_version
            && self.quality_gate.minimum_quality.millionths
            == other.quality_gate.minimum_quality.millionths
            && self.quality_gate.minimum_coverage.millionths
            == other.quality_gate.minimum_coverage.millionths && same_states(
            &self.quality_gate.allowed_health,
            &other.quality_gate.allowed_health,
        ) && same_digest(&self.formula_hash, &other.formula_hash) && self.documentation
            == other.documentation
    }
}

/// The position of a definition, or the number of definitions where there is none.
pub open spec fn definition_position(
    definitions: Seq<FeatureDefinition>,
    id: Seq<char>,
    version: FeatureVersion,
) -> int
    decreases definitions.len(),
{
    if definitions.len() == 0 {
        0
    } else if definitions[0].id@ == id && definitions[0].version == version {
        0
    } else {
        1 + definition_position(definitions.drop_first(), id, version)
    }
}

/// The position of a window in a definition, or the number of windows where it has none.
pub open spec fn window_position(windows: Seq<WindowDefinition>, id: Seq<char>) -> int
    decreases windows.len(),
{
    if windows.len() == 0 {
        0
    } else if windows[0].id@ == id {
        0
    } else {
        1 + window_position(windows.drop_first(), id)
    }
}

/// Whether two texts are the same.
pub(crate) fn same_text(left: &str, right: &str) -> (answer: bool)
    ensures
        answer == (left@ == right@),
{
    left.to_owned() == right.to_owned()
}

/// Finds the definition of a feature.
pub fn find_definition(
    definitions: &Vec<FeatureDefinition>,
    id: &str,
    version: FeatureVersion,
) -> (position: usize)
    ensures
        position == definition_position(definitions@, id@, version),
        position <= definitions@.len(),
{
    let mut i: usize = 0;
    proof {
        assert(definitions@.skip(0) =~= definitions@);
    }
    while i < definitions.len()
        invariant
            i <= definitions@.len(),
            definition_position(definitions@, id@, version) == i + definition_position(
                definitions@.skip(i as int),
                id@,
                version,
            ),
        decreases definitions.len() - i,
    {
        proof {
            assert(definitions@.skip(i as int)[0] == definitions@[i as int]);
            assert(definitions@.skip(i as int).drop_first() =~= definitions@.skip(i + 1));
        }
        if same_text(definitions[i].id, id) && definitions[i].version == version {
            return i;
        }
        i += 1;
    }
    i
}

/// Finds a window of a definition.
pub fn find_window(windows: &Vec<WindowDefinition>, id: &str) -> (position: usize)
    ensures
        position == window_position(windows@, id@),
        position <= windows@.len(),
{
    let mut i: usize = 0;
    proof {
        assert(windows@.skip(0) =~= windows@);
    }
    while i < windows.len()
        invariant
            i <= windows@.len(),
            window_position(windows@, id@) == i + window_position(windows@.skip(i as int), id@),
        decreases windows.len() - i,
    {
        proof {
            assert(windows@.skip(i as int)[0] == windows@[i as int]);
            assert(windows@.skip(i as int).drop_first() =~= windows@.skip(i + 1));
        }
        if same_text(windows[i].id.as_str(), id) {
            return i;
        }
        i += 1;
    }
    i
}

/// The page that documents a feature.
pub open spec fn documentation_of(id: Seq<char>) -> Seq<char> {
    "docs/data-dictionary/features.md#"@ + id.map_values(
        |c: char|
            if c == '_' {
                '-'
            } else {
                c
            },
    )
}

pub(crate) fn documentation_for(id: &str) -> (page: String)
    ensures
        page@ == documentation_of(id@),
{
    let mut page: String = "docs/data-dictionary/features.md#".to_owned();
    let ghost dashed = id@.map_values(
        |c: char|
            if c == '_' {
                '-'
            } else {
                c
            },
    );
    let length: usize = id.unicode_len();
    let mut i: usize = 0;
    proof {
        assert(page@ =~= "docs/data-dictionary/features.md#"@ + dashed.take(0));
    }
    while i < length
        invariant
            i <= length == id@.len(),
            dashed == id@.map_values(
                |c: char|
                    if c == '_' {
                        '-'
                    } else {
                        c
                    },
            ),
            page@ == "docs/data-dictionary/features.md#"@ + dashed.take(i as int),
        decreases length - i,
    {
        if id.get_char(i) == '_' {
            page.append("-");
            proof {
                reveal_strlit("-");
            }
        } else {
            page.append(id.substring_char(i, i + 1));
        }
        proof {
            assert(page@ =~= "docs/data-dictionary/features.md#"@ + dashed.take(i + 1));
        }
        i += 1;
    }
    proof {
        assert(dashed.take(length as int) =~= dashed);
    }
    page
}

/// A feature's value.
#[derive(Debug)]
pub enum FeatureValue {
    FixedDecimal(FixedDecimal),
    FixedDecimalMap(Vec<(FixedDecimal, FixedDecimal)>),
    Float64(FiniteF64),
    Integer(i64),
    Boolean(bool),
}

/// A feature's value, or why it has none.
#[derive(Debug)]
pub enum FeatureDatum {
    Present(FeatureValue),
    Missing(MissingnessReason),
}

/// The contents of a [`FeatureDatum`].
pub enum DatumView {
    FixedDecimal(FixedDecimal),
    FixedDecimalMap(Seq<(FixedDecimal, FixedDecimal)>),
    Float64(FiniteF64),
    Integer(i64),
    Boolean(bool),
    Missing(MissingnessReason),
}

impl DatumView {
    /// The type of the value, where there is one.
    pub open spec fn value_type(self) -> Option<FeatureValueType> {
        match self {
            DatumView::FixedDecimal(_) => Some(FeatureValueType::FixedDecimal),
            DatumView::FixedDecimalMap(_) => Some(FeatureValueType::FixedDecimalMap),
            DatumView::Float64(_) => Some(FeatureValueType::Float64),
            DatumView::Integer(_) => Some(FeatureValueType::Integer),
            DatumView::Boolean(_) => Some(FeatureValueType::Boolean),
            DatumView::Missing(_) => None,
        }
    }
}

impl View for FeatureDatum {
    type V = DatumView;

    open spec fn view(&self) -> DatumView {
        match *self {
            FeatureDatum::Present(value) => match value {
                FeatureValue::FixedDecimal(value) => DatumView::FixedDecimal(value),
                FeatureValue::FixedDecimalMap(values) => DatumView::FixedDecimalMap(values@),
                FeatureValue::Float64(value) => DatumView::Float64(value),
                FeatureValue::Integer(value) => DatumView::Integer(value),
                FeatureValue::Boolean(value) => DatumView::Boolean(value),
            },
            FeatureDatum::Missing(reason) => DatumView::Missing(reason),
        }
    }
}

impl Clone for FeatureDatum {
    fn clone(&self) -> (copy: Self)
        ensures
            copy@ == self@,
    {
        match self {
            FeatureDatum::Present(value) => FeatureDatum::Present(
                match value {
                    FeatureValue::FixedDecimal(value) => FeatureValue::FixedDecimal(*value),
                    FeatureValue::FixedDecimalMap(values) => FeatureValue::FixedDecimalMap(
                        copy_pairs(values),
                    ),
                    FeatureValue::Float64(value) => FeatureValue::Float64(*value),
                    FeatureValue::Integer(value) => FeatureValue::Integer(*value),
                    FeatureValue::Boolean(value) => FeatureValue::Boolean(*value),
                },
            ),
            FeatureDatum::Missing(reason) => FeatureDatum::Missing(*reason),
        }
    }
}

fn copy_pairs(pairs: &Vec<(FixedDecimal, FixedDecimal)>) -> (copy: Vec<
    (FixedDecimal, FixedDecimal),
>)
    ensures
        copy@ == pairs@,
{
    let mut copy: Vec<(FixedDecimal, FixedDecimal)> = Vec::new();
    let mut i: usize = 0;
    while i < pairs.len()
        invariant
            i <= pairs@.len(),
            copy@ == pairs@.take(i as int),
        decreases pairs.len() - i,
    {
        copy.push(pairs[i]);
        proof {
            assert(copy@ =~= pairs@.take(i + 1));
        }
        i += 1;
    }
    proof {
        assert(copy@ =~= pairs@);
    }
    copy
}

impl FeatureDatum {
    /// The type of the value, where there is one.
    pub fn value_type(&self) -> (value_type: Option<FeatureValueType>)
        ensures
            value_type == self@.value_type(),
    {
        match self {
            FeatureDatum::Present(value) => Some(
                match value {
                    FeatureValue::FixedDecimal(_) => FeatureValueType::FixedDecimal,
                    FeatureValue::FixedDecimalMap(_) => FeatureValueType::FixedDecimalMap,
                    FeatureValue::Float64(_) => FeatureValueType::Float64,
                    FeatureValue::Integer(_) => FeatureValueType::Integer,
                    FeatureValue::Boolean(_) => FeatureValueType::Boolean,
                },
            ),
            FeatureDatum::Missing(_) => None,
        }
    }
}

/// One observation of a feature, bound to its definition, evidence and lineage.
#[derive(Debug)]
pub struct FeatureObservation {
    pub feature_id: String,
    pub feature_version: FeatureVersion,
    pub entity: FeatureEntity,
    pub window_id: String,
    pub resolution: DurationNanos,
    pub datum: FeatureDatum,
    pub value_type: FeatureValueType,
    pub event_time_start: UnixNanos,
    pub event_time_end: UnixNanos,
    pub as_known_at: UnixNanos,
    pub computed_at: UnixNanos,
    pub watermark: Option<UnixNanos>,
    pub finality_as_known_at: UnixNanos,
    pub finality_state: FinalityState,
    pub revision: u32,
    pub source_coverage: SourceCoverage,
    pub quality_score: QualityScore,
    pub normalization_version: FeatureVersion,
    pub formula_hash: [u8; 32],
    pub code_commit: String,
    pub lineage_hash: [u8; 32],
}

/// A lookup finds the first definition of its name and version, and counts past the end only
/// where there is none.
pub proof fn lemma_definitions_are_found(
    definitions: Seq<FeatureDefinition>,
    id: Seq<char>,
    version: FeatureVersion,
)
    ensures
        ({
            let position = definition_position(definitions, id, version);
            &&& 0 <= position <= definitions.len()
            &&& position < definitions.len() ==> definitions[position].id@ == id
                && definitions[position].version == version
            &&& forall|i: int|
                #![trigger definitions[i]]
                0 <= i < position ==> !(definitions[i].id@ == id && definitions[i].version
                    == version)
        }),
    decreases definitions.len(),
{
    if definitions.len() > 0 && !(definitions[0].id@ == id && definitions[0].version == version) {
        let rest = definitions.drop_first();
        lemma_definitions_are_found(rest, id, version);
        let position = definition_position(definitions, id, version);
        assert(position < definitions.len() ==> rest[position - 1] == definitions[position]);
        assert forall|i: int| #![trigger definitions[i]] 0 <= i < position implies !(
        definitions[i].id@ == id && definitions[i].version == version) by {
            if i > 0 {
                assert(rest[i - 1] == definitions[i]);
            }
        }
    }
}

/// A lookup finds the first window of its name, and counts past the end only where there is none.
pub proof fn lemma_windows_are_found(windows: Seq<WindowDefinition>, id: Seq<char>)
    ensures
        ({
            let position = window_position(windows, id);
            &&& 0 <= position <= windows.len()
            &&& position < windows.len() ==> windows[position].id@ == id
            &&& forall|i: int|
                #![trigger windows[i]]
                0 <= i < position ==> windows[i].id@ != id
        }),
    decreases windows.len(),
{
    if windows.len() > 0 && windows[0].id@ != id {
        let rest = windows.drop_first();
        lemma_windows_are_found(rest, id);
        let position = window_position(windows, id);
        assert(position < windows.len() ==> rest[position - 1] == windows[position]);
        assert forall|i: int| #![trigger windows[i]] 0 <= i < position implies windows[i].id@
            != id by {
            if i > 0 {
                assert(rest[i - 1] == windows[i]);
            }
        }
    }
}

/// A version is a release where its first number is not zero and neither a pre-release nor build
/// metadata follows.
pub proof fn lemma_releases_have_three_numbers(
    major: u64,
    minor: u64,
    patch: u64,
    pre_release: Seq<char>,
    build: Seq<char>,
)
    ensures
        is_release(Some((major, minor, patch, pre_release, build))) <==> major >= 1
            && pre_release.len() == 0 && build.len() == 0,
        !is_release(None),
{
}

} // verus!
