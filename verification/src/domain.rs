//! Identities, times and classifications that every computation speaks of.

use vstd::prelude::*;

use crate::digest::{encoded_u32, framed, put_framed, put_u32, utf8};
use crate::ordering::{
    byte_rank, bytes_precede, lemma_byte_rank_concat, lemma_rank_concat, lemma_rank_irreflexive,
    lemma_rank_order_is_total, rank_precedes, Ranked,
};

verus! {

/// The contents of a [`SourceId`]: kind, name, generation and label.
pub type SourceView = (SourceKind, Seq<char>, u32, Seq<char>);

/// The identity of an [`AssetId`]: namespace, chain, contract, symbol and generation.
pub type AssetView = (AssetNamespace, Seq<char>, Seq<char>, Seq<char>, u32);

/// The identity of an [`InstrumentId`]: venue, symbol, product and generation.
pub type InstrumentView = (Seq<char>, Seq<char>, ProductType, u32);

/// The contents of a [`SourceCoverage`]: the expected sources, and the observed ones with their
/// health.
pub type CoverageView = (Seq<SourceView>, Seq<(SourceView, SourceHealthState)>);

/// Nanoseconds since the Unix epoch.
#[derive(Clone, Copy, Debug, PartialEq, Eq, Structural)]
pub struct UnixNanos {
    pub nanos: i64,
}

impl UnixNanos {
    pub fn new(nanos: i64) -> (time: Self)
        ensures
            time.nanos == nanos,
    {
        UnixNanos { nanos }
    }

    pub fn value(self) -> (nanos: i64)
        ensures
            nanos == self.nanos,
    {
        self.nanos
    }

    /// The later of two times.
    pub open spec fn later(self, other: Self) -> Self {
        if self.nanos < other.nanos {
            other
        } else {
            self
        }
    }

    /// The earlier of two times.
    pub open spec fn earlier(self, other: Self) -> Self {
        if other.nanos < self.nanos {
            other
        } else {
            self
        }
    }

    pub fn max_of(self, other: Self) -> (time: Self)
        ensures
            time == self.later(other),
    {
        if self.nanos < other.nanos {
            other
        } else {
            self
        }
    }

    pub fn min_of(self, other: Self) -> (time: Self)
        ensures
            time == self.earlier(other),
    {
        if other.nanos < self.nanos {
            other
        } else {
            self
        }
    }
}

/// A span of nanoseconds.
#[derive(Clone, Copy, Debug, PartialEq, Eq, Structural)]
pub struct DurationNanos {
    pub nanos: u64,
}

impl DurationNanos {
    pub fn new(nanos: u64) -> (duration: Self)
        ensures
            duration.nanos == nanos,
    {
        DurationNanos { nanos }
    }

    pub fn value(self) -> (nanos: u64)
        ensures
            nanos == self.nanos,
    {
        self.nanos
    }
}

/// What kind of party publishes a source.
#[derive(Clone, Copy, Debug, PartialEq, Eq, Structural)]
pub enum SourceKind {
    Exchange,
    Chain,
    Macro,
    News,
    Derived,
    System,
}

impl SourceKind {
    /// The number of the kind in a digest and in the order of sources. It stands for the
    /// discriminant of `domain::SourceKind`, which counts the kinds in the order of their
    /// declaration; it is written down here, not read from there.
    pub open spec fn spec_code(self) -> u8 {
        match self {
            SourceKind::Exchange => 0,
            SourceKind::Chain => 1,
            SourceKind::Macro => 2,
            SourceKind::News => 3,
            SourceKind::Derived => 4,
            SourceKind::System => 5,
        }
    }

    #[verifier::when_used_as_spec(spec_code)]
    pub fn code(self) -> (code: u8)
        ensures
            code == self.spec_code(),
    {
        match self {
            SourceKind::Exchange => 0,
            SourceKind::Chain => 1,
            SourceKind::Macro => 2,
            SourceKind::News => 3,
            SourceKind::Derived => 4,
            SourceKind::System => 5,
        }
    }
}

/// How far a source can be trusted at a point in time.
#[derive(Clone, Copy, Debug, PartialEq, Eq, Structural)]
pub enum SourceHealthState {
    Healthy,
    Degraded,
    Unhealthy,
    Quarantined,
    Recovering,
}

impl SourceHealthState {
    pub open spec fn spec_as_str(self) -> Seq<char> {
        match self {
            SourceHealthState::Healthy => "healthy"@,
            SourceHealthState::Degraded => "degraded"@,
            SourceHealthState::Unhealthy => "unhealthy"@,
            SourceHealthState::Quarantined => "quarantined"@,
            SourceHealthState::Recovering => "recovering"@,
        }
    }

    pub fn as_str(self) -> (name: &'static str)
        ensures
            name@ == self.spec_as_str(),
    {
        match self {
            SourceHealthState::Healthy => "healthy",
            SourceHealthState::Degraded => "degraded",
            SourceHealthState::Unhealthy => "unhealthy",
            SourceHealthState::Quarantined => "quarantined",
            SourceHealthState::Recovering => "recovering",
        }
    }
}

/// How settled a feature observation is.
#[derive(Clone, Copy, Debug, PartialEq, Eq, Structural)]
pub enum FinalityState {
    Provisional,
    Final,
    Corrected,
    Invalid,
}

/// Why a feature has no value.
#[derive(Clone, Copy, Debug, PartialEq, Eq, Structural)]
pub enum MissingnessReason {
    NotListed,
    SourceNotSupported,
    SourceDisconnected,
    SequenceGap,
    Stale,
    InsufficientHistory,
    WindowNotFinal,
    BelowLiquidityThreshold,
    VendorRevisionPending,
    ModelNotApplicable,
    PrivacyOrLicenseRestriction,
    Unknown,
}

/// One generation of a named source.
///
/// The label is the text that a `domain::SourceId` displays as. There it is a function of the kind,
/// the name and the generation. How it is made is not known here: the caller gives the label, and
/// it takes part in the source's identity. Two sources that agree in the other fields are the same
/// only where the caller labels them alike.
#[derive(Debug)]
pub struct SourceId {
    pub kind: SourceKind,
    pub name: String,
    pub generation: u32,
    pub label: String,
}

impl View for SourceId {
    type V = SourceView;

    open spec fn view(&self) -> SourceView {
        (self.kind, self.name@, self.generation, self.label@)
    }
}

impl Clone for SourceId {
    fn clone(&self) -> (copy: Self)
        ensures
            copy == *self,
    {
        SourceId {
            kind: self.kind,
            name: self.name.clone(),
            generation: self.generation,
            label: self.label.clone(),
        }
    }
}

/// The bytes by which a source enters a digest.
pub open spec fn source_encoding(source: SourceView) -> Seq<u8> {
    seq![source.0.spec_code()] + framed(utf8(source.1)) + encoded_u32(source.2)
}

/// The order of sources: by kind, then by name, then by generation, then by label.
pub open spec fn source_rank(source: SourceView) -> Seq<int> {
    seq![source.0.spec_code() as int] + (byte_rank(utf8(source.1)) + source_tail(source))
}

/// What decides between sources of one kind and name.
pub open spec fn source_tail(source: SourceView) -> Seq<int> {
    seq![source.2 as int] + byte_rank(utf8(source.3))
}

impl SourceId {
    pub fn new(kind: SourceKind, name: String, generation: u32, label: String) -> (source: Self)
        ensures
            source.kind == kind,
            source.name == name,
            source.generation == generation,
            source.label == label,
    {
        SourceId { kind, name, generation, label }
    }

    /// Whether both name the same generation of the same source.
    pub fn same(&self, other: &Self) -> (answer: bool)
        ensures
            answer == (self@ == other@),
    {
        self.kind == other.kind && self.name == other.name && self.generation == other.generation
            && self.label == other.label
    }

    pub(crate) fn put(&self, buffer: &mut Vec<u8>)
        ensures
            final(buffer)@ == old(buffer)@ + source_encoding(self@),
    {
        buffer.push(self.kind.code());
        put_framed(buffer, self.name.as_str().as_bytes());
        put_u32(buffer, self.generation);
        proof {
            assert(buffer@ =~= old(buffer)@ + source_encoding(self@));
        }
    }
}

/// The label of a source, as bytes.
pub open spec fn source_label(source: SourceView) -> Seq<u8> {
    utf8(source.3)
}

impl SourceId {
    /// The label of the source.
    pub fn label(&self) -> (label: &str)
        ensures
            utf8(label@) == source_label(self@),
    {
        self.label.as_str()
    }
}

/// Two texts with the same bytes are the same text.
pub proof fn lemma_utf8_injective(a: Seq<char>, b: Seq<char>)
    requires
        utf8(a) == utf8(b),
    ensures
        a == b,
{
    vstd::utf8::encode_utf8_decode_utf8(a);
    vstd::utf8::encode_utf8_decode_utf8(b);
}

proof fn lemma_single_rank(a: int, b: int)
    ensures
        rank_precedes(seq![a], seq![b]) == (a < b),
        seq![a] == seq![b] <==> a == b,
{
    reveal_with_fuel(rank_precedes, 2);
    assert(seq![a][0] == a);
    assert(seq![b][0] == b);
}

/// Ranks that lead with an integer, then a text, then a tail compare field by field.
pub(crate) proof fn lemma_rank_fields(
    i: int,
    a: Seq<char>,
    x: Seq<int>,
    j: int,
    b: Seq<char>,
    y: Seq<int>,
)
    ensures
        rank_precedes(seq![i] + (byte_rank(utf8(a)) + x), seq![j] + (byte_rank(utf8(b)) + y)) == (if i
            != j {
            i < j
        } else if a != b {
            rank_precedes(byte_rank(utf8(a)), byte_rank(utf8(b)))
        } else {
            rank_precedes(x, y)
        }),
        a != b ==> (rank_precedes(byte_rank(utf8(a)), byte_rank(utf8(b))) || rank_precedes(
            byte_rank(utf8(b)),
            byte_rank(utf8(a)),
        )),
{
    lemma_rank_concat(seq![i], seq![j], byte_rank(utf8(a)) + x, byte_rank(utf8(b)) + y);
    lemma_single_rank(i, j);
    lemma_byte_rank_concat(utf8(a), utf8(b), x, y);
    if utf8(a) == utf8(b) {
        lemma_utf8_injective(a, b);
    }
    lemma_rank_order_is_total(byte_rank(utf8(a)), byte_rank(utf8(b)));
}

/// Sources of one rank are one source.
pub proof fn lemma_source_rank_injective(
    a: SourceView,
    b: SourceView,
)
    ensures
        source_rank(a) == source_rank(b) <==> a == b,
{
    lemma_rank_fields(
        a.0.spec_code() as int,
        a.1,
        source_tail(a),
        b.0.spec_code() as int,
        b.1,
        source_tail(b),
    );
    lemma_rank_fields(
        b.0.spec_code() as int,
        b.1,
        source_tail(b),
        a.0.spec_code() as int,
        a.1,
        source_tail(a),
    );
    lemma_source_tail(a, b);
    lemma_source_tail(b, a);
    lemma_rank_order_is_total(source_tail(a), source_tail(b));
    lemma_rank_order_is_total(source_rank(a), source_rank(b));
}

pub(crate) proof fn lemma_source_tail(a: SourceView, b: SourceView)
    ensures
        rank_precedes(source_tail(a), source_tail(b)) == (if a.2 != b.2 {
            a.2 < b.2
        } else {
            rank_precedes(byte_rank(utf8(a.3)), byte_rank(utf8(b.3)))
        }),
        source_tail(a) == source_tail(b) <==> a.2 == b.2 && a.3 == b.3,
{
    let x = byte_rank(utf8(a.3));
    let y = byte_rank(utf8(b.3));
    lemma_rank_concat(seq![a.2 as int], seq![b.2 as int], x, y);
    lemma_single_rank(a.2 as int, b.2 as int);
    lemma_byte_rank_concat(utf8(a.3), utf8(b.3), Seq::empty(), Seq::empty());
    if utf8(a.3) == utf8(b.3) {
        lemma_utf8_injective(a.3, b.3);
    }
    if source_tail(a) == source_tail(b) {
        assert(source_tail(a)[0] == a.2 as int);
        assert(source_tail(b)[0] == b.2 as int);
        assert(source_tail(a).skip(1) =~= x);
        assert(source_tail(b).skip(1) =~= y);
    }
}

impl Ranked for SourceId {
    open spec fn rank(&self) -> Seq<int> {
        source_rank(self@)
    }

    fn precedes(&self, other: &Self) -> (before: bool) {
        proof {
            lemma_rank_fields(
                self.kind.spec_code() as int,
                self.name@,
                source_tail(self@),
                other.kind.spec_code() as int,
                other.name@,
                source_tail(other@),
            );
            lemma_source_tail(self@, other@);
        }
        if self.kind.code() != other.kind.code() {
            self.kind.code() < other.kind.code()
        } else if self.name != other.name {
            bytes_precede(self.name.as_str().as_bytes(), other.name.as_str().as_bytes())
        } else if self.generation != other.generation {
            self.generation < other.generation
        } else {
            bytes_precede(self.label.as_str().as_bytes(), other.label.as_str().as_bytes())
        }
    }
}

/// A trading venue.
#[derive(Debug)]
pub struct VenueId {
    pub name: String,
}

impl View for VenueId {
    type V = Seq<char>;

    open spec fn view(&self) -> Seq<char> {
        self.name@
    }
}

impl Clone for VenueId {
    fn clone(&self) -> (copy: Self)
        ensures
            copy == *self,
    {
        VenueId { name: self.name.clone() }
    }
}

/// The contract form of an instrument.
#[derive(Clone, Copy, Debug, PartialEq, Eq, Structural)]
pub enum ProductType {
    Spot,
    Perpetual,
    DatedFuture,
    OptionContract,
}

impl ProductType {
    /// The number of the contract form in a digest. It stands for the discriminant of
    /// `domain::ProductType`, which counts the forms in the order of their declaration; it is
    /// written down here, not read from there.
    pub open spec fn spec_code(self) -> u8 {
        match self {
            ProductType::Spot => 0,
            ProductType::Perpetual => 1,
            ProductType::DatedFuture => 2,
            ProductType::OptionContract => 3,
        }
    }

    pub fn code(self) -> (code: u8)
        ensures
            code == self.spec_code(),
    {
        match self {
            ProductType::Spot => 0,
            ProductType::Perpetual => 1,
            ProductType::DatedFuture => 2,
            ProductType::OptionContract => 3,
        }
    }
}

/// One generation of an instrument listed on a venue.
#[derive(Debug)]
pub struct InstrumentId {
    pub venue: VenueId,
    pub venue_symbol: String,
    pub product_type: ProductType,
    pub generation: u32,
}

impl View for InstrumentId {
    type V = InstrumentView;

    open spec fn view(&self) -> InstrumentView {
        (self.venue@, self.venue_symbol@, self.product_type, self.generation)
    }
}

impl Clone for InstrumentId {
    fn clone(&self) -> (copy: Self)
        ensures
            copy == *self,
    {
        InstrumentId {
            venue: self.venue.clone(),
            venue_symbol: self.venue_symbol.clone(),
            product_type: self.product_type,
            generation: self.generation,
        }
    }
}

/// The bytes by which an instrument enters a digest.
pub open spec fn instrument_encoding(
    instrument: InstrumentView,
) -> Seq<u8> {
    framed(utf8(instrument.0)) + framed(utf8(instrument.1)) + seq![instrument.2.spec_code()]
        + encoded_u32(instrument.3)
}

impl InstrumentId {
    /// Whether both name the same generation of the same instrument.
    pub fn same(&self, other: &Self) -> (answer: bool)
        ensures
            answer == (self@ == other@),
    {
        self.venue.name == other.venue.name && self.venue_symbol == other.venue_symbol
            && self.product_type == other.product_type && self.generation == other.generation
    }

    pub(crate) fn put(&self, buffer: &mut Vec<u8>)
        ensures
            final(buffer)@ == old(buffer)@ + instrument_encoding(self@),
    {
        put_framed(buffer, self.venue.name.as_str().as_bytes());
        put_framed(buffer, self.venue_symbol.as_str().as_bytes());
        buffer.push(self.product_type.code());
        put_u32(buffer, self.generation);
        proof {
            assert(buffer@ =~= old(buffer)@ + instrument_encoding(self@));
        }
    }
}

/// Where an asset is issued.
#[derive(Clone, Copy, Debug, PartialEq, Eq, Structural)]
pub enum AssetNamespace {
    Native,
    Evm,
    Solana,
    Fiat,
    Synthetic,
}

impl AssetNamespace {
    /// The number of the namespace in a digest. It stands for the discriminant of
    /// `domain::AssetNamespace`, which counts the namespaces in the order of their declaration; it
    /// is written down here, not read from there.
    pub open spec fn spec_code(self) -> u8 {
        match self {
            AssetNamespace::Native => 0,
            AssetNamespace::Evm => 1,
            AssetNamespace::Solana => 2,
            AssetNamespace::Fiat => 3,
            AssetNamespace::Synthetic => 4,
        }
    }

    pub fn code(self) -> (code: u8)
        ensures
            code == self.spec_code(),
    {
        match self {
            AssetNamespace::Native => 0,
            AssetNamespace::Evm => 1,
            AssetNamespace::Solana => 2,
            AssetNamespace::Fiat => 3,
            AssetNamespace::Synthetic => 4,
        }
    }
}

/// One generation of an asset.
#[derive(Debug)]
pub struct AssetId {
    pub namespace: AssetNamespace,
    pub chain_id: String,
    pub contract_or_mint: String,
    pub canonical_symbol: String,
    pub generation: u32,
}

impl View for AssetId {
    type V = AssetView;

    open spec fn view(&self) -> AssetView {
        (
            self.namespace,
            self.chain_id@,
            self.contract_or_mint@,
            self.canonical_symbol@,
            self.generation,
        )
    }
}

impl Clone for AssetId {
    fn clone(&self) -> (copy: Self)
        ensures
            copy == *self,
    {
        AssetId {
            namespace: self.namespace,
            chain_id: self.chain_id.clone(),
            contract_or_mint: self.contract_or_mint.clone(),
            canonical_symbol: self.canonical_symbol.clone(),
            generation: self.generation,
        }
    }
}

/// The bytes by which an asset enters a digest.
pub open spec fn asset_encoding(
    asset: AssetView,
) -> Seq<u8> {
    seq![asset.0.spec_code()] + framed(utf8(asset.1)) + framed(utf8(asset.2)) + framed(
        utf8(asset.3),
    ) + encoded_u32(asset.4)
}

/// The order of assets: by namespace, chain, contract, symbol and generation.
pub open spec fn asset_rank(
    asset: AssetView,
) -> Seq<int> {
    seq![asset.0.spec_code() as int] + (byte_rank(utf8(asset.1)) + (seq![0int] + (byte_rank(
        utf8(asset.2),
    ) + (seq![0int] + (byte_rank(utf8(asset.3)) + seq![asset.4 as int])))))
}

impl AssetId {
    /// Whether both name the same generation of the same asset.
    pub fn same(&self, other: &Self) -> (answer: bool)
        ensures
            answer == (self@ == other@),
    {
        self.namespace == other.namespace && self.chain_id == other.chain_id
            && self.contract_or_mint == other.contract_or_mint && self.canonical_symbol
            == other.canonical_symbol && self.generation == other.generation
    }

    pub(crate) fn put(&self, buffer: &mut Vec<u8>)
        ensures
            final(buffer)@ == old(buffer)@ + asset_encoding(self@),
    {
        buffer.push(self.namespace.code());
        put_framed(buffer, self.chain_id.as_str().as_bytes());
        put_framed(buffer, self.contract_or_mint.as_str().as_bytes());
        put_framed(buffer, self.canonical_symbol.as_str().as_bytes());
        put_u32(buffer, self.generation);
        proof {
            assert(buffer@ =~= old(buffer)@ + asset_encoding(self@));
        }
    }
}

proof fn lemma_asset_rank_fields(
    a: AssetView,
    b: AssetView,
)
    ensures
        rank_precedes(asset_rank(a), asset_rank(b)) == (if a.0 != b.0 {
            a.0.spec_code() < b.0.spec_code()
        } else if a.1 != b.1 {
            rank_precedes(byte_rank(utf8(a.1)), byte_rank(utf8(b.1)))
        } else if a.2 != b.2 {
            rank_precedes(byte_rank(utf8(a.2)), byte_rank(utf8(b.2)))
        } else if a.3 != b.3 {
            rank_precedes(byte_rank(utf8(a.3)), byte_rank(utf8(b.3)))
        } else {
            a.4 < b.4
        }),
{
    let a3 = byte_rank(utf8(a.3)) + seq![a.4 as int];
    let b3 = byte_rank(utf8(b.3)) + seq![b.4 as int];
    let a2 = byte_rank(utf8(a.2)) + (seq![0int] + a3);
    let b2 = byte_rank(utf8(b.2)) + (seq![0int] + b3);
    lemma_rank_fields(
        a.0.spec_code() as int,
        a.1,
        seq![0int] + a2,
        b.0.spec_code() as int,
        b.1,
        seq![0int] + b2,
    );
    lemma_rank_fields(0, a.2, seq![0int] + a3, 0, b.2, seq![0int] + b3);
    lemma_rank_fields(0, a.3, seq![a.4 as int], 0, b.3, seq![b.4 as int]);
    lemma_single_rank(a.4 as int, b.4 as int);
}

/// Two different assets are ordered one way, and never both ways.
pub proof fn lemma_asset_view_order_is_total(a: AssetView, b: AssetView)
    ensures
        a != b <==> (rank_precedes(asset_rank(a), asset_rank(b)) || rank_precedes(
            asset_rank(b),
            asset_rank(a),
        )),
        !(rank_precedes(asset_rank(a), asset_rank(b)) && rank_precedes(
            asset_rank(b),
            asset_rank(a),
        )),
{
    lemma_asset_rank_fields(a, b);
    lemma_asset_rank_fields(b, a);
    lemma_rank_order_is_total(byte_rank(utf8(a.1)), byte_rank(utf8(b.1)));
    lemma_rank_order_is_total(byte_rank(utf8(a.2)), byte_rank(utf8(b.2)));
    lemma_rank_order_is_total(byte_rank(utf8(a.3)), byte_rank(utf8(b.3)));
    lemma_rank_fields(0, a.1, Seq::empty(), 0, b.1, Seq::empty());
    lemma_rank_fields(0, a.2, Seq::empty(), 0, b.2, Seq::empty());
    lemma_rank_fields(0, a.3, Seq::empty(), 0, b.3, Seq::empty());
}

impl Ranked for AssetId {
    open spec fn rank(&self) -> Seq<int> {
        asset_rank(self@)
    }

    fn precedes(&self, other: &Self) -> (before: bool) {
        proof {
            lemma_asset_rank_fields(self@, other@);
        }
        if self.namespace != other.namespace {
            self.namespace.code() < other.namespace.code()
        } else if self.chain_id != other.chain_id {
            bytes_precede(self.chain_id.as_str().as_bytes(), other.chain_id.as_str().as_bytes())
        } else if self.contract_or_mint != other.contract_or_mint {
            bytes_precede(
                self.contract_or_mint.as_str().as_bytes(),
                other.contract_or_mint.as_str().as_bytes(),
            )
        } else if self.canonical_symbol != other.canonical_symbol {
            bytes_precede(
                self.canonical_symbol.as_str().as_bytes(),
                other.canonical_symbol.as_str().as_bytes(),
            )
        } else {
            self.generation < other.generation
        }
    }
}

/// What a feature describes.
#[derive(Debug)]
pub enum FeatureEntity {
    Instrument(InstrumentId),
    Asset(AssetId),
    AssetPair(AssetId, AssetId),
    AssetSource(AssetId, SourceId),
    Venue(VenueId),
    Source(SourceId),
    Global,
}

/// The identity of a [`FeatureEntity`].
pub enum EntityView {
    Instrument(InstrumentView),
    Asset(AssetView),
    AssetPair(
        AssetView,
        AssetView,
    ),
    AssetSource(
        AssetView,
        SourceView,
    ),
    Venue(Seq<char>),
    Source(SourceView),
    Global,
}

impl View for FeatureEntity {
    type V = EntityView;

    open spec fn view(&self) -> EntityView {
        match *self {
            FeatureEntity::Instrument(instrument) => EntityView::Instrument(instrument@),
            FeatureEntity::Asset(asset) => EntityView::Asset(asset@),
            FeatureEntity::AssetPair(left, right) => EntityView::AssetPair(left@, right@),
            FeatureEntity::AssetSource(asset, source) => EntityView::AssetSource(asset@, source@),
            FeatureEntity::Venue(venue) => EntityView::Venue(venue@),
            FeatureEntity::Source(source) => EntityView::Source(source@),
            FeatureEntity::Global => EntityView::Global,
        }
    }
}

impl Clone for FeatureEntity {
    fn clone(&self) -> (copy: Self)
        ensures
            copy == *self,
    {
        match self {
            FeatureEntity::Instrument(instrument) => FeatureEntity::Instrument(instrument.clone()),
            FeatureEntity::Asset(asset) => FeatureEntity::Asset(asset.clone()),
            FeatureEntity::AssetPair(left, right) => FeatureEntity::AssetPair(
                left.clone(),
                right.clone(),
            ),
            FeatureEntity::AssetSource(asset, source) => FeatureEntity::AssetSource(
                asset.clone(),
                source.clone(),
            ),
            FeatureEntity::Venue(venue) => FeatureEntity::Venue(venue.clone()),
            FeatureEntity::Source(source) => FeatureEntity::Source(source.clone()),
            FeatureEntity::Global => FeatureEntity::Global,
        }
    }
}

/// The bytes by which an entity enters a digest: a tag, then its identity.
pub open spec fn entity_encoding(entity: EntityView) -> Seq<u8> {
    match entity {
        EntityView::Instrument(instrument) => seq![1u8] + instrument_encoding(instrument),
        EntityView::Asset(asset) => seq![2u8] + asset_encoding(asset),
        EntityView::AssetPair(left, right) => seq![6u8] + asset_encoding(left) + asset_encoding(
            right,
        ),
        EntityView::AssetSource(asset, source) => seq![7u8] + asset_encoding(asset)
            + source_encoding(source),
        EntityView::Venue(venue) => seq![3u8] + framed(utf8(venue)),
        EntityView::Source(source) => seq![4u8] + source_encoding(source),
        EntityView::Global => seq![5u8],
    }
}

impl FeatureEntity {
    /// Whether both describe the same entity.
    pub fn same(&self, other: &Self) -> (answer: bool)
        ensures
            answer == (self@ == other@),
    {
        match (self, other) {
            (FeatureEntity::Instrument(a), FeatureEntity::Instrument(b)) => a.same(b),
            (FeatureEntity::Asset(a), FeatureEntity::Asset(b)) => a.same(b),
            (FeatureEntity::AssetPair(a, c), FeatureEntity::AssetPair(b, d)) => a.same(b)
                && c.same(d),
            (FeatureEntity::AssetSource(a, c), FeatureEntity::AssetSource(b, d)) => a.same(b)
                && c.same(d),
            (FeatureEntity::Venue(a), FeatureEntity::Venue(b)) => a.name == b.name,
            (FeatureEntity::Source(a), FeatureEntity::Source(b)) => a.same(b),
            (FeatureEntity::Global, FeatureEntity::Global) => true,
            _ => false,
        }
    }

    pub(crate) fn put(&self, buffer: &mut Vec<u8>)
        ensures
            final(buffer)@ == old(buffer)@ + entity_encoding(self@),
    {
        match self {
            FeatureEntity::Instrument(instrument) => {
                buffer.push(1);
                instrument.put(buffer);
            },
            FeatureEntity::Asset(asset) => {
                buffer.push(2);
                asset.put(buffer);
            },
            FeatureEntity::AssetPair(left, right) => {
                buffer.push(6);
                left.put(buffer);
                right.put(buffer);
            },
            FeatureEntity::AssetSource(asset, source) => {
                buffer.push(7);
                asset.put(buffer);
                source.put(buffer);
            },
            FeatureEntity::Venue(venue) => {
                buffer.push(3);
                put_framed(buffer, venue.name.as_str().as_bytes());
            },
            FeatureEntity::Source(source) => {
                buffer.push(4);
                source.put(buffer);
            },
            FeatureEntity::Global => {
                buffer.push(5);
            },
        }
        proof {
            assert(buffer@ =~= old(buffer)@ + entity_encoding(self@));
        }
    }
}

/// Why the contents of the registry's values, or an observation, are refused.
#[derive(Clone, Copy, Debug, PartialEq, Eq, Structural)]
pub enum RegistryError {
    InvalidSourceCoverage,
    DuplicateSource,
    UnexpectedSource,
    InvalidQualityScore,
    NonFiniteValue,
    ZeroHash,
    /// The registry refuses the name of a feature, of a window or of a code revision.
    InvalidIdentity,
    /// The registry refuses the number of a revision.
    InvalidRevision,
    /// The registry refuses an observation: it is not sound in itself.
    UnsoundObservation,
    /// The registry refuses an observation: it does not lie within its registered definition.
    UnregisteredObservation,
}

/// An observed source and its health.
#[derive(Debug)]
pub struct SourceCoverageEntry {
    pub source: SourceId,
    pub health: SourceHealthState,
}

impl View for SourceCoverageEntry {
    type V = (SourceView, SourceHealthState);

    open spec fn view(&self) -> (SourceView, SourceHealthState) {
        (self.source@, self.health)
    }
}

impl Clone for SourceCoverageEntry {
    fn clone(&self) -> (copy: Self)
        ensures
            copy == *self,
    {
        SourceCoverageEntry { source: self.source.clone(), health: self.health }
    }
}

impl SourceCoverageEntry {
    pub fn new(source: SourceId, health: SourceHealthState) -> (entry: Self)
        ensures
            entry.source == source,
            entry.health == health,
    {
        SourceCoverageEntry { source, health }
    }
}

/// Most sources that one coverage record can expect. This stands for the bound that the
/// `feature_registry` crate sets on its `SourceCoverage`; it is written down here, not read from
/// there, and has to follow it.
pub const MAX_COVERAGE_SOURCES: usize = 128;

/// The identities of a list of sources.
pub open spec fn source_views(sources: Seq<SourceId>) -> Seq<SourceView> {
    Seq::new(sources.len(), |i: int| sources[i]@)
}

/// The contents of a list of coverage entries.
pub open spec fn entry_views(
    entries: Seq<SourceCoverageEntry>,
) -> Seq<(SourceView, SourceHealthState)> {
    Seq::new(entries.len(), |i: int| entries[i]@)
}

/// The sources of a list of coverage entries.
pub open spec fn entry_sources(
    entries: Seq<SourceCoverageEntry>,
) -> Seq<SourceView> {
    Seq::new(entries.len(), |i: int| entries[i].source@)
}

/// The sources that an observation needs, and those of them that were observed.
#[derive(Debug)]
pub struct SourceCoverage {
    pub expected: Vec<SourceId>,
    pub entries: Vec<SourceCoverageEntry>,
}

impl View for SourceCoverage {
    type V = CoverageView;

    open spec fn view(&self) -> CoverageView {
        (source_views(self.expected@), entry_views(self.entries@))
    }
}

/// Why a coverage record with these sources is refused, if it is.
pub open spec fn coverage_refusal(
    expected: Seq<SourceView>,
    observed: Seq<SourceView>,
) -> Option<RegistryError> {
    if expected.len() == 0 || expected.len() > MAX_COVERAGE_SOURCES {
        Some(RegistryError::InvalidSourceCoverage)
    } else if !expected.no_duplicates() || !observed.no_duplicates() {
        Some(RegistryError::DuplicateSource)
    } else if exists|i: int| 0 <= i < observed.len() && !expected.contains(#[trigger] observed[i]) {
        Some(RegistryError::UnexpectedSource)
    } else {
        None
    }
}

/// Whether a list holds a source.
pub(crate) fn holds_source(sources: &Vec<SourceId>, wanted: &SourceId) -> (answer: bool)
    ensures
        answer == source_views(sources@).contains(wanted@),
{
    let mut i: usize = 0;
    while i < sources.len()
        invariant
            i <= sources.len(),
            forall|k: int| 0 <= k < i ==> sources@[k]@ != wanted@,
        decreases sources.len() - i,
    {
        if sources[i].same(wanted) {
            proof {
                assert(source_views(sources@)[i as int] == wanted@);
            }
            return true;
        }
        i += 1;
    }
    proof {
        assert forall|k: int| 0 <= k < sources.len() implies source_views(sources@)[k] != wanted@ by {
        }
    }
    false
}

fn distinct_sources(sources: &Vec<SourceId>) -> (answer: bool)
    ensures
        answer == source_views(sources@).no_duplicates(),
{
    let mut i: usize = 0;
    while i < sources.len()
        invariant
            i <= sources.len(),
            forall|a: int, b: int| 0 <= a < b < i ==> sources@[a]@ != sources@[b]@,
        decreases sources.len() - i,
    {
        let mut j: usize = 0;
        while j < i
            invariant
                j <= i < sources.len(),
                forall|a: int| 0 <= a < j ==> sources@[a]@ != sources@[i as int]@,
            decreases i - j,
        {
            if sources[j].same(&sources[i]) {
                proof {
                    assert(source_views(sources@)[j as int] == source_views(sources@)[i as int]);
                }
                return false;
            }
            j += 1;
        }
        i += 1;
    }
    true
}

fn distinct_entries(entries: &Vec<SourceCoverageEntry>) -> (answer: bool)
    ensures
        answer == entry_sources(entries@).no_duplicates(),
{
    let mut i: usize = 0;
    while i < entries.len()
        invariant
            i <= entries.len(),
            forall|a: int, b: int|
                0 <= a < b < i ==> entries@[a].source@ != entries@[b].source@,
        decreases entries.len() - i,
    {
        let mut j: usize = 0;
        while j < i
            invariant
                j <= i < entries.len(),
                forall|a: int| 0 <= a < j ==> entries@[a].source@ != entries@[i as int].source@,
            decreases i - j,
        {
            if entries[j].source.same(&entries[i].source) {
                proof {
                    assert(entry_sources(entries@)[j as int] == entry_sources(entries@)[i as int]);
                }
                return false;
            }
            j += 1;
        }
        i += 1;
    }
    true
}

impl SourceCoverage {
    /// Records the observed part of the expected sources.
    pub fn try_new_partial(
        expected: Vec<SourceId>,
        entries: Vec<SourceCoverageEntry>,
    ) -> (result: Result<Self, RegistryError>)
        ensures
            match coverage_refusal(source_views(expected@), entry_sources(entries@)) {
                Some(error) => result == Err::<Self, RegistryError>(error),
                None => result is Ok && result->Ok_0.expected == expected
                    && result->Ok_0.entries == entries,
            },
    {
        if expected.len() == 0 || expected.len() > MAX_COVERAGE_SOURCES {
            return Err(RegistryError::InvalidSourceCoverage);
        }
        if !distinct_sources(&expected) || !distinct_entries(&entries) {
            return Err(RegistryError::DuplicateSource);
        }
        let mut i: usize = 0;
        while i < entries.len()
            invariant
                i <= entries.len(),
                0 < expected.len() <= MAX_COVERAGE_SOURCES,
                source_views(expected@).no_duplicates(),
                entry_sources(entries@).no_duplicates(),
                forall|k: int|
                    0 <= k < i ==> source_views(expected@).contains(
                        #[trigger] entry_sources(entries@)[k],
                    ),
            decreases entries.len() - i,
        {
            if !holds_source(&expected, &entries[i].source) {
                proof {
                    assert(!source_views(expected@).contains(entry_sources(entries@)[i as int]));
                }
                return Err(RegistryError::UnexpectedSource);
            }
            i += 1;
        }
        Ok(SourceCoverage { expected, entries })
    }

    /// Whether both records have the same contents.
    pub fn same(&self, other: &Self) -> (answer: bool)
        ensures
            answer == (self@ == other@),
    {
        if self.expected.len() != other.expected.len() || self.entries.len()
            != other.entries.len() {
            proof {
                assert(self@.0.len() == self.expected@.len());
                assert(other@.0.len() == other.expected@.len());
                assert(self@.1.len() == self.entries@.len());
                assert(other@.1.len() == other.entries@.len());
            }
            return false;
        }
        let mut i: usize = 0;
        while i < self.expected.len()
            invariant
                i <= self.expected@.len(),
                self.expected@.len() == other.expected@.len(),
                forall|k: int| 0 <= k < i ==> self.expected@[k]@ == other.expected@[k]@,
            decreases self.expected.len() - i,
        {
            if !self.expected[i].same(&other.expected[i]) {
                proof {
                    assert(self@.0[i as int] != other@.0[i as int]);
                }
                return false;
            }
            i += 1;
        }
        let mut j: usize = 0;
        while j < self.entries.len()
            invariant
                j <= self.entries@.len(),
                self.entries@.len() == other.entries@.len(),
                forall|k: int| 0 <= k < j ==> self.entries@[k]@ == other.entries@[k]@,
            decreases self.entries.len() - j,
        {
            if !self.entries[j].source.same(&other.entries[j].source) || self.entries[j].health
                != other.entries[j].health {
                proof {
                    assert(self@.1[j as int] != other@.1[j as int]);
                }
                return false;
            }
            j += 1;
        }
        proof {
            assert(self@.0 =~= other@.0);
            assert(self@.1 =~= other@.1);
        }
        true
    }

    /// Whether every expected source was observed.
    pub open spec fn is_complete(self) -> bool {
        self.entries@.len() >= self.expected@.len()
    }

    /// The health under which a source was observed, if it was.
    pub fn health_of(&self, source: &SourceId) -> (health: Option<SourceHealthState>)
        ensures
            health == observed_health(self@.1, source@),
    {
        let ghost views = entry_views(self.entries@);
        let mut i: usize = 0;
        proof {
            assert(views.skip(0) =~= views);
        }
        while i < self.entries.len()
            invariant
                i <= self.entries.len(),
                views == entry_views(self.entries@),
                observed_health(views, source@) == observed_health(
                    views.skip(i as int),
                    source@,
                ),
            decreases self.entries.len() - i,
        {
            let ghost rest = views.skip(i as int);
            proof {
                assert(rest[0] == self.entries@[i as int]@);
                assert(rest.drop_first() =~= views.skip(i + 1));
            }
            if self.entries[i].source.same(source) {
                return Some(self.entries[i].health);
            }
            i += 1;
        }
        None
    }
}

impl Clone for SourceCoverage {
    fn clone(&self) -> (copy: Self)
        ensures
            copy@ == self@,
    {
        let expected = copy_sources(&self.expected);
        let mut entries: Vec<SourceCoverageEntry> = Vec::new();
        let mut i: usize = 0;
        while i < self.entries.len()
            invariant
                i <= self.entries@.len(),
                entries@.len() == i,
                forall|k: int| 0 <= k < i ==> entries@[k] == self.entries@[k],
            decreases self.entries.len() - i,
        {
            entries.push(self.entries[i].clone());
            i += 1;
        }
        let copy = SourceCoverage { expected, entries };
        proof {
            assert(copy@.0 =~= self@.0);
            assert(copy@.1 =~= self@.1);
        }
        copy
    }
}

/// A copy of a list of sources.
pub(crate) fn copy_sources(sources: &Vec<SourceId>) -> (copy: Vec<SourceId>)
    ensures
        copy@ == sources@,
{
    let mut copy: Vec<SourceId> = Vec::new();
    let mut i: usize = 0;
    while i < sources.len()
        invariant
            i <= sources@.len(),
            copy@.len() == i,
            forall|k: int| 0 <= k < i ==> copy@[k] == sources@[k],
        decreases sources.len() - i,
    {
        copy.push(sources[i].clone());
        i += 1;
    }
    proof {
        assert(copy@ =~= sources@);
    }
    copy
}

/// The health of the first entry for a source.
pub open spec fn observed_health(
    entries: Seq<(SourceView, SourceHealthState)>,
    source: SourceView,
) -> Option<SourceHealthState>
    decreases entries.len(),
{
    if entries.len() == 0 {
        None
    } else if entries[0].0 == source {
        Some(entries[0].1)
    } else {
        observed_health(entries.drop_first(), source)
    }
}

/// A score from zero to one, counted in millionths.
#[derive(Clone, Copy, Debug, PartialEq, Eq, Structural)]
pub struct QualityScore {
    pub millionths: u32,
}

impl QualityScore {
    pub fn from_millionths(millionths: u32) -> (result: Result<Self, RegistryError>)
        ensures
            millionths <= 1_000_000 ==> result == Ok::<Self, RegistryError>(
                (QualityScore { millionths }),
            ),
            millionths > 1_000_000 ==> result == Err::<Self, RegistryError>(
                RegistryError::InvalidQualityScore,
            ),
    {
        if millionths <= 1_000_000 {
            Ok(QualityScore { millionths })
        } else {
            Err(RegistryError::InvalidQualityScore)
        }
    }

    /// The lower of two scores.
    pub open spec fn lower(self, other: Self) -> Self {
        if other.millionths < self.millionths {
            other
        } else {
            self
        }
    }

    pub fn min_of(self, other: Self) -> (score: Self)
        ensures
            score == self.lower(other),
    {
        if other.millionths < self.millionths {
            other
        } else {
            self
        }
    }
}

/// A finite double-precision value, held by its bit pattern.
#[derive(Clone, Copy, Debug, PartialEq, Eq, Structural)]
pub struct FiniteF64 {
    bits: u64,
}

/// The eleven exponent bits of a double-precision bit pattern are not all ones.
pub open spec fn finite_bits(bits: u64) -> bool {
    (bits / 0x10_0000_0000_0000) % 0x800 != 0x7ff
}

impl FiniteF64 {
    #[verifier::type_invariant]
    spec fn finite(self) -> bool {
        finite_bits(self.bits)
    }

    pub closed spec fn pattern(self) -> u64 {
        self.bits
    }

    /// The value with a bit pattern.
    pub closed spec fn of_pattern(bits: u64) -> Self {
        FiniteF64 { bits }
    }

    /// Accepts every bit pattern but those of the infinities and of the values that are not
    /// numbers.
    pub fn from_bits(bits: u64) -> (result: Result<Self, RegistryError>)
        ensures
            result is Ok <==> finite_bits(bits),
            result is Ok ==> result->Ok_0 == Self::of_pattern(bits) && result->Ok_0.pattern()
                == bits,
            result is Err ==> result->Err_0 == RegistryError::NonFiniteValue,
    {
        if (bits / 0x10_0000_0000_0000) % 0x800 != 0x7ff {
            Ok(FiniteF64 { bits })
        } else {
            Err(RegistryError::NonFiniteValue)
        }
    }

    /// The value is below zero; minus zero is not.
    pub open spec fn below_zero(self) -> bool {
        self.pattern() > 0x8000_0000_0000_0000
    }

    pub fn is_negative(self) -> (answer: bool)
        ensures
            answer == self.below_zero(),
    {
        self.bits > 0x8000_0000_0000_0000
    }

    pub fn bits(self) -> (bits: u64)
        ensures
            bits == self.pattern(),
            finite_bits(bits),
    {
        proof {
            use_type_invariant(&self);
        }
        self.bits
    }
}

/// The later of two times is no earlier than either and is one of them, the earlier is no later
/// than either and is one of them, and the lower of two scores is no higher than either.
pub proof fn lemma_choices_bound_what_they_choose_from(
    a: UnixNanos,
    b: UnixNanos,
    x: QualityScore,
    y: QualityScore,
)
    ensures
        a.later(b).nanos >= a.nanos && a.later(b).nanos >= b.nanos,
        a.later(b) == a || a.later(b) == b,
        a.earlier(b).nanos <= a.nanos && a.earlier(b).nanos <= b.nanos,
        a.earlier(b) == a || a.earlier(b) == b,
        x.lower(y).millionths <= x.millionths && x.lower(y).millionths <= y.millionths,
        x.lower(y) == x || x.lower(y) == y,
{
}

/// A coverage record expects at least one source and at most as many as it may, each once. It
/// observes only expected ones, each once. Every such record is taken, and no other.
pub proof fn lemma_coverage_records_observe_what_they_expect(
    expected: Seq<SourceView>,
    observed: Seq<SourceView>,
)
    ensures
        coverage_refusal(expected, observed) is None <==> {
            &&& 1 <= expected.len() <= 128
            &&& expected.no_duplicates()
            &&& observed.no_duplicates()
            &&& forall|i: int|
                0 <= i < observed.len() ==> expected.contains(#[trigger] observed[i])
        },
{
}

/// The health of a source is that of its first entry; a source without an entry has none.
pub proof fn lemma_health_is_that_of_the_first_entry(
    entries: Seq<(SourceView, SourceHealthState)>,
    source: SourceView,
)
    ensures
        match observed_health(entries, source) {
            Some(health) => exists|i: int|
                #![trigger entries[i]]
                0 <= i < entries.len() && entries[i] == (source, health) && forall|k: int|
                    0 <= k < i ==> (#[trigger] entries[k]).0 != source,
            None => forall|i: int| 0 <= i < entries.len() ==> (#[trigger] entries[i]).0 != source,
        },
    decreases entries.len(),
{
    if entries.len() > 0 {
        if entries[0].0 == source {
            assert(entries[0] == (source, entries[0].1));
        } else {
            let rest = entries.drop_first();
            lemma_health_is_that_of_the_first_entry(rest, source);
            match observed_health(rest, source) {
                Some(health) => {
                    let i = choose|i: int|
                        #![trigger rest[i]]
                        0 <= i < rest.len() && rest[i] == (source, health) && forall|k: int|
                            0 <= k < i ==> (#[trigger] rest[k]).0 != source;
                    assert(entries[i + 1] == (source, health));
                    assert forall|k: int| 0 <= k < i + 1 implies (#[trigger] entries[k]).0
                        != source by {
                        if k > 0 {
                            assert(rest[k - 1] == entries[k]);
                        }
                    }
                },
                None => {
                    assert forall|i: int| 0 <= i < entries.len() implies (#[trigger] entries[i]).0
                        != source by {
                        if i > 0 {
                            assert(rest[i - 1] == entries[i]);
                        }
                    }
                },
            }
        }
    }
}

/// Sources are ordered by kind; sources of one kind and name by generation.
pub proof fn lemma_sources_are_ordered_by_kind_and_generation(a: SourceView, b: SourceView)
    ensures
        a.0.spec_code() < b.0.spec_code() ==> rank_precedes(source_rank(a), source_rank(b)),
        a.0 == b.0 && a.1 == b.1 && a.2 < b.2 ==> rank_precedes(source_rank(a), source_rank(b)),
        a == b ==> !rank_precedes(source_rank(a), source_rank(b)),
{
    lemma_rank_fields(
        a.0.spec_code() as int,
        a.1,
        source_tail(a),
        b.0.spec_code() as int,
        b.1,
        source_tail(b),
    );
    lemma_source_tail(a, b);
    lemma_rank_irreflexive(byte_rank(utf8(a.3)));
}

/// Assets are ordered by namespace; assets that agree in all else by generation.
pub proof fn lemma_assets_are_ordered_by_namespace_and_generation(a: AssetView, b: AssetView)
    ensures
        a.0.spec_code() < b.0.spec_code() ==> rank_precedes(asset_rank(a), asset_rank(b)),
        a.0 == b.0 && a.1 == b.1 && a.2 == b.2 && a.3 == b.3 && a.4 < b.4 ==> rank_precedes(
            asset_rank(a),
            asset_rank(b),
        ),
{
    lemma_asset_rank_fields(a, b);
}

/// Kinds, contract forms and namespaces are counted from zero in the order in which they are
/// declared.
pub proof fn lemma_kinds_are_counted_in_order(
    kind: SourceKind,
    form: ProductType,
    namespace: AssetNamespace,
)
    ensures
        kind.spec_code() == 0 <==> kind == SourceKind::Exchange,
        kind.spec_code() == 1 <==> kind == SourceKind::Chain,
        kind.spec_code() == 2 <==> kind == SourceKind::Macro,
        kind.spec_code() == 3 <==> kind == SourceKind::News,
        kind.spec_code() == 4 <==> kind == SourceKind::Derived,
        kind.spec_code() == 5 <==> kind == SourceKind::System,
        form.spec_code() == 0 <==> form == ProductType::Spot,
        form.spec_code() == 1 <==> form == ProductType::Perpetual,
        form.spec_code() == 2 <==> form == ProductType::DatedFuture,
        form.spec_code() == 3 <==> form == ProductType::OptionContract,
        namespace.spec_code() == 0 <==> namespace == AssetNamespace::Native,
        namespace.spec_code() == 1 <==> namespace == AssetNamespace::Evm,
        namespace.spec_code() == 2 <==> namespace == AssetNamespace::Solana,
        namespace.spec_code() == 3 <==> namespace == AssetNamespace::Fiat,
        namespace.spec_code() == 4 <==> namespace == AssetNamespace::Synthetic,
{
}

/// A bit pattern is finite unless its exponent is all ones, whatever its sign and fraction. A
/// value is below zero where its sign is set and the rest is not zero.
pub proof fn lemma_patterns_are_finite_by_their_exponent(
    negative: bool,
    exponent: int,
    fraction: int,
    bits: u64,
)
    requires
        0 <= exponent < 2_048,
        0 <= fraction < 0x10_0000_0000_0000,
        bits == (if negative {
            0x8000_0000_0000_0000int
        } else {
            0
        }) + exponent * 0x10_0000_0000_0000 + fraction,
    ensures
        finite_bits(bits) <==> exponent != 2_047,
        FiniteF64::of_pattern(bits).below_zero() <==> negative && (exponent != 0 || fraction != 0),
        FiniteF64::of_pattern(bits).pattern() == bits,
{
    let high = (if negative {
        2_048int
    } else {
        0
    }) + exponent;
    assert(bits == high * 0x10_0000_0000_0000 + fraction);
    vstd::arithmetic::div_mod::lemma_fundamental_div_mod_converse(
        bits as int,
        0x10_0000_0000_0000,
        high,
        fraction,
    );
    assert(high % 2_048 == exponent);
}

} // verus!
