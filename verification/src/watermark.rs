//! Deterministic, generation-aware event-time watermark tracking.

use vstd::prelude::*;

use crate::digest::{
    blake3_digest, blake3_hash, encoded_i64, encoded_u64, framed, put_bytes,
    put_framed, put_i64, put_u64, same_digest, utf8,
};
use crate::domain::{
    coverage_refusal, entity_encoding, entry_sources, entry_views, lemma_rank_fields,
    lemma_source_rank_injective, lemma_source_tail, source_encoding, source_rank, source_tail,
    source_views, CoverageView, DurationNanos, EntityView, FeatureEntity, SourceCoverage,
    SourceCoverageEntry, SourceHealthState, SourceId, SourceView, UnixNanos,
};
use crate::ordering::{
    byte_rank, bytes_precede, distinct_ranks, lemma_rank_irreflexive, lemma_rank_order_is_total,
    lemma_rank_transitive, lemma_sorted_distinct, rank_precedes, sort_by_rank, sorted_by_rank,
    strictly_sorted_by_rank, Ranked,
};
use crate::window::TimeWindow;

verus! {

pub const MAX_PARTITION_ID_LENGTH: usize = 96;

pub const MAX_PARTITIONS: usize = 128;

/// A lowercase letter, a digit, or one of `.`, `_` and `-`.
pub open spec fn partition_byte(byte: u8) -> bool {
    97 <= byte <= 122 || 48 <= byte <= 57 || byte == 46 || byte == 95 || byte == 45
}

/// A lowercase label of at most `limit` bytes.
pub open spec fn valid_label(bytes: Seq<u8>, limit: int) -> bool {
    0 < bytes.len() <= limit && forall|i: int|
        0 <= i < bytes.len() ==> partition_byte(#[trigger] bytes[i])
}

pub open spec fn valid_partition_id(bytes: Seq<u8>) -> bool {
    valid_label(bytes, MAX_PARTITION_ID_LENGTH as int)
}

/// Whether bytes are a lowercase label of at most `limit` bytes.
pub(crate) fn valid_label_bytes(bytes: &[u8], limit: usize) -> (answer: bool)
    ensures
        answer == valid_label(bytes@, limit as int),
{
    if bytes.len() == 0 || bytes.len() > limit {
        return false;
    }
    let mut i: usize = 0;
    while i < bytes.len()
        invariant
            i <= bytes.len(),
            forall|k: int| 0 <= k < i ==> partition_byte(#[trigger] bytes@[k]),
        decreases bytes.len() - i,
    {
        let byte: u8 = bytes[i];
        if !((97 <= byte && byte <= 122) || (48 <= byte && byte <= 57) || byte == 46 || byte == 95
            || byte == 45) {
            return false;
        }
        i += 1;
    }
    true
}

/// A bounded lowercase partition identifier.
#[derive(Debug)]
pub struct PartitionId {
    value: String,
}

impl View for PartitionId {
    type V = Seq<char>;

    closed spec fn view(&self) -> Seq<char> {
        self.value@
    }
}

impl PartitionId {
    #[verifier::type_invariant]
    spec fn valid(self) -> bool {
        valid_partition_id(utf8(self.value@))
    }

    pub fn new(value: &str) -> (result: Result<Self, WatermarkError>)
        ensures
            result is Ok <==> valid_partition_id(utf8(value@)),
            result is Ok ==> result->Ok_0@ == value@,
            result is Err ==> result->Err_0 == WatermarkError::InvalidPartitionId,
    {
        if !valid_label_bytes(value.as_bytes(), MAX_PARTITION_ID_LENGTH) {
            return Err(WatermarkError::InvalidPartitionId);
        }
        Ok(PartitionId { value: value.to_owned() })
    }

    pub fn as_str(&self) -> (text: &str)
        ensures
            text@ == self@,
            valid_partition_id(utf8(text@)),
    {
        proof {
            use_type_invariant(self);
        }
        self.value.as_str()
    }
}

impl Clone for PartitionId {
    fn clone(&self) -> (copy: Self)
        ensures
            copy == *self,
    {
        proof {
            use_type_invariant(self);
        }
        PartitionId { value: self.value.clone() }
    }
}

/// The identity of a [`WatermarkKey`]: its source and its partition.
pub type KeyView = (SourceView, Seq<char>);

/// One partition of one source.
#[derive(Debug)]
pub struct WatermarkKey {
    source: SourceId,
    partition: PartitionId,
}

impl View for WatermarkKey {
    type V = KeyView;

    closed spec fn view(&self) -> KeyView {
        (self.source@, self.partition@)
    }
}

/// The order of partitions: by source kind, name and generation, then by partition.
pub open spec fn key_rank(key: KeyView) -> Seq<int> {
    seq![key.0.0.spec_code() as int] + (byte_rank(utf8(key.0.1)) + (seq![key.0.2 as int] + (
    byte_rank(utf8(key.0.3)) + byte_rank(utf8(key.1)))))
}

impl WatermarkKey {
    pub fn new(source: SourceId, partition: PartitionId) -> (key: Self)
        ensures
            key@ == (source@, partition@),
    {
        WatermarkKey { source, partition }
    }

    pub fn source(&self) -> (source: &SourceId)
        ensures
            source@ == self@.0,
    {
        &self.source
    }

    pub fn partition(&self) -> (partition: &PartitionId)
        ensures
            partition@ == self@.1,
    {
        &self.partition
    }

    /// Whether both name the same partition.
    pub fn same(&self, other: &Self) -> (answer: bool)
        ensures
            answer == (self@ == other@),
    {
        self.source.same(&other.source) && self.partition.value == other.partition.value
    }
}

impl Clone for WatermarkKey {
    fn clone(&self) -> (copy: Self)
        ensures
            copy == *self,
    {
        WatermarkKey { source: self.source.clone(), partition: self.partition.clone() }
    }
}

proof fn lemma_key_rank_fields(
    a: KeyView,
    b: KeyView,
)
    ensures
        rank_precedes(key_rank(a), key_rank(b)) == (if a.0.0 != b.0.0 {
            a.0.0.spec_code() < b.0.0.spec_code()
        } else if a.0.1 != b.0.1 {
            rank_precedes(byte_rank(utf8(a.0.1)), byte_rank(utf8(b.0.1)))
        } else if a.0.2 != b.0.2 {
            a.0.2 < b.0.2
        } else if a.0.3 != b.0.3 {
            rank_precedes(byte_rank(utf8(a.0.3)), byte_rank(utf8(b.0.3)))
        } else {
            rank_precedes(byte_rank(utf8(a.1)), byte_rank(utf8(b.1)))
        }),
{
    let x = byte_rank(utf8(a.1));
    let y = byte_rank(utf8(b.1));
    lemma_rank_fields(
        a.0.0.spec_code() as int,
        a.0.1,
        seq![a.0.2 as int] + (byte_rank(utf8(a.0.3)) + x),
        b.0.0.spec_code() as int,
        b.0.1,
        seq![b.0.2 as int] + (byte_rank(utf8(b.0.3)) + y),
    );
    lemma_rank_fields(a.0.2 as int, a.0.3, x, b.0.2 as int, b.0.3, y);
}

/// Partitions of one rank are one partition.
pub proof fn lemma_key_rank_injective(
    a: KeyView,
    b: KeyView,
)
    ensures
        key_rank(a) == key_rank(b) <==> a == b,
{
    lemma_key_rank_fields(a, b);
    lemma_key_rank_fields(b, a);
    lemma_rank_fields(0, a.0.1, Seq::empty(), 0, b.0.1, Seq::empty());
    lemma_rank_fields(0, a.0.3, Seq::empty(), 0, b.0.3, Seq::empty());
    lemma_rank_fields(0, a.1, Seq::empty(), 0, b.1, Seq::empty());
    lemma_rank_order_is_total(key_rank(a), key_rank(b));
}

impl Ranked for WatermarkKey {
    open spec fn rank(&self) -> Seq<int> {
        key_rank(self@)
    }

    fn precedes(&self, other: &Self) -> (before: bool) {
        proof {
            lemma_key_rank_fields(self@, other@);
        }
        if self.source.kind != other.source.kind {
            self.source.kind.code() < other.source.kind.code()
        } else if self.source.name != other.source.name {
            bytes_precede(
                self.source.name.as_str().as_bytes(),
                other.source.name.as_str().as_bytes(),
            )
        } else if self.source.generation != other.source.generation {
            self.source.generation < other.source.generation
        } else if self.source.label != other.source.label {
            bytes_precede(
                self.source.label.as_str().as_bytes(),
                other.source.label.as_str().as_bytes(),
            )
        } else {
            bytes_precede(
                self.partition.value.as_str().as_bytes(),
                other.partition.value.as_str().as_bytes(),
            )
        }
    }
}

/// Whether a partition gates finality.
#[derive(Clone, Copy, Debug, PartialEq, Eq, Structural)]
pub enum PartitionRole {
    Required,
    Optional,
}

/// A partition and its role.
#[derive(Debug)]
pub struct PartitionConfig {
    key: WatermarkKey,
    role: PartitionRole,
}

impl View for PartitionConfig {
    type V = (KeyView, PartitionRole);

    closed spec fn view(&self) -> (KeyView, PartitionRole) {
        (self.key@, self.role)
    }
}

impl PartitionConfig {
    pub fn required(key: WatermarkKey) -> (config: Self)
        ensures
            config@ == (key@, PartitionRole::Required),
    {
        PartitionConfig { key, role: PartitionRole::Required }
    }

    pub fn optional(key: WatermarkKey) -> (config: Self)
        ensures
            config@ == (key@, PartitionRole::Optional),
    {
        PartitionConfig { key, role: PartitionRole::Optional }
    }
}

/// A partition's progress: its event time, when that was known, and its health.
#[derive(Clone, Copy, Debug, PartialEq, Eq, Structural)]
pub struct WatermarkUpdate {
    pub event_time: UnixNanos,
    pub as_known_at: UnixNanos,
    pub health: SourceHealthState,
}

impl WatermarkUpdate {
    pub fn new(
        event_time: UnixNanos,
        as_known_at: UnixNanos,
        health: SourceHealthState,
    ) -> (update: Self)
        ensures
            update == (WatermarkUpdate { event_time, as_known_at, health }),
    {
        WatermarkUpdate { event_time, as_known_at, health }
    }
}

#[derive(Clone, Copy, Debug, PartialEq, Eq, Structural)]
pub enum Finalization {
    Provisional,
    Final,
    Invalid,
}

/// Why a tracker refuses a request.
#[derive(Clone, Copy, Debug, PartialEq, Eq, Structural)]
pub enum WatermarkError {
    /// Invalid partition identifier.
    InvalidPartitionId,
    /// Invalid watermark tracker configuration.
    InvalidTracker,
    /// Duplicate partition configuration.
    DuplicatePartition,
    /// Unknown watermark partition.
    UnknownPartition,
    /// Watermark timestamp must be positive.
    InvalidWatermark,
    /// Watermark update sequence overflow.
    ArithmeticOverflow,
    /// Corrected event time is outside the exact target window.
    InvalidCorrectionTime,
    /// Correction source or current watermark state is not eligible.
    InvalidCorrectionState,
    /// The watermark regressed.
    Regression { current: UnixNanos, attempted: UnixNanos },
}

/// What a [`FinalizationDecision`] attests.
pub struct DecisionView {
    pub window: TimeWindow,
    pub state: Finalization,
    pub watermark: Option<UnixNanos>,
    pub as_known_at: UnixNanos,
    pub entity: Option<Seq<u8>>,
    pub required_count: nat,
    pub required_digest: Seq<u8>,
    pub sequence: u64,
    pub policy: Seq<u8>,
}

/// Window-bound evidence produced by the watermark and source-health gate.
///
/// Fields are private so a caller cannot fabricate permission to emit a final or invalid revision
/// without evaluating the configured tracker.
#[derive(Clone, Copy, Debug)]
pub struct FinalizationDecision {
    window: TimeWindow,
    state: Finalization,
    watermark: Option<UnixNanos>,
    as_known_at: UnixNanos,
    entity_digest: Option<[u8; 32]>,
    required_source_count: usize,
    required_source_digest: [u8; 32],
    evaluation_sequence: u64,
    policy_id: [u8; 32],
}

/// The bytes of a digest that may be absent.
pub open spec fn digest_view(digest: Option<[u8; 32]>) -> Option<Seq<u8>> {
    match digest {
        Some(bytes) => Some(bytes@),
        None => None,
    }
}

impl View for FinalizationDecision {
    type V = DecisionView;

    closed spec fn view(&self) -> DecisionView {
        DecisionView {
            window: self.window,
            state: self.state,
            watermark: self.watermark,
            as_known_at: self.as_known_at,
            entity: digest_view(self.entity_digest),
            required_count: self.required_source_count as nat,
            required_digest: self.required_source_digest@,
            sequence: self.evaluation_sequence,
            policy: self.policy_id@,
        }
    }
}

/// A presence byte, then the time if there is one.
pub open spec fn optional_time_encoding(time: Option<UnixNanos>) -> Seq<u8> {
    match time {
        Some(time) => seq![1u8] + encoded_i64(time.nanos),
        None => seq![0u8],
    }
}

/// A presence byte, then the digest if there is one.
pub open spec fn optional_digest_encoding(digest: Option<Seq<u8>>) -> Seq<u8> {
    match digest {
        Some(digest) => seq![1u8] + digest,
        None => seq![0u8],
    }
}

pub(crate) fn put_optional_time(buffer: &mut Vec<u8>, time: Option<UnixNanos>)
    ensures
        final(buffer)@ == old(buffer)@ + optional_time_encoding(time),
{
    match time {
        Some(time) => {
            buffer.push(1);
            put_i64(buffer, time.value());
        },
        None => {
            buffer.push(0);
        },
    }
    proof {
        assert(buffer@ =~= old(buffer)@ + optional_time_encoding(time));
    }
}

pub open spec fn finalization_code(state: Finalization) -> u8 {
    match state {
        Finalization::Provisional => 1,
        Finalization::Final => 2,
        Finalization::Invalid => 3,
    }
}

/// Every field of a decision, in order.
pub open spec fn decision_encoding(decision: DecisionView) -> Seq<u8> {
    utf8("crypto-intelligence/finalization-decision/v1"@) + encoded_i64(decision.window.lower())
        + encoded_i64(decision.window.upper()) + seq![finalization_code(decision.state)]
        + optional_time_encoding(decision.watermark) + encoded_i64(decision.as_known_at.nanos)
        + optional_digest_encoding(decision.entity) + encoded_u64(decision.required_count as u64)
        + decision.required_digest + encoded_u64(decision.sequence) + decision.policy
}

/// The digest that stands for an entity inside a policy and its decisions.
pub open spec fn entity_fingerprint(entity: EntityView) -> Seq<u8> {
    blake3_digest(utf8("crypto-intelligence/watermark-entity/v1"@) + entity_encoding(entity))
}

/// The encodings of sources, one behind the other.
pub open spec fn sources_encoding(sources: Seq<SourceView>) -> Seq<u8>
    decreases sources.len(),
{
    if sources.len() == 0 {
        Seq::empty()
    } else {
        sources_encoding(sources.drop_last()) + source_encoding(sources.last())
    }
}

/// The digest that stands for a list of required sources.
pub open spec fn sources_fingerprint(sources: Seq<SourceView>) -> Seq<u8> {
    blake3_digest(
        utf8("crypto-intelligence/watermark-required-sources/v1"@) + sources_encoding(sources),
    )
}

impl FinalizationDecision {
    pub fn window(self) -> (window: TimeWindow)
        ensures
            window == self@.window,
    {
        self.window
    }

    pub fn state(self) -> (state: Finalization)
        ensures
            state == self@.state,
    {
        self.state
    }

    /// Lowest raw watermark among the required partitions at evaluation time.
    pub fn watermark(self) -> (watermark: Option<UnixNanos>)
        ensures
            watermark == self@.watermark,
    {
        self.watermark
    }

    /// Earliest point in processing time at which this exact decision existed.
    pub fn as_known_at(self) -> (time: UnixNanos)
        ensures
            time == self@.as_known_at,
    {
        self.as_known_at
    }

    pub fn evaluation_sequence(self) -> (sequence: u64)
        ensures
            sequence == self@.sequence,
    {
        self.evaluation_sequence
    }

    /// Whether these are the sources that the decision required, in canonical order.
    pub fn matches_required_sources(self, sources: &Vec<SourceId>) -> (answer: bool)
        ensures
            answer == (self@.required_count == sources@.len() && self@.required_digest
                == sources_fingerprint(source_views(sources@))),
    {
        let digest = fingerprint_sources(sources);
        self.required_source_count == sources.len() && same_digest(
            &self.required_source_digest,
            &digest,
        )
    }

    /// Whether the decision is scoped to this entity.
    pub fn matches_entity(self, entity: &FeatureEntity) -> (answer: bool)
        ensures
            answer == (self@.entity == Some(entity_fingerprint(entity@))),
    {
        match self.entity_digest {
            Some(digest) => {
                let wanted = fingerprint_entity(entity);
                same_digest(&digest, &wanted)
            },
            None => false,
        }
    }

    /// A digest of everything that the decision attests.
    pub fn evidence_digest(self) -> (digest: [u8; 32])
        ensures
            digest@ == blake3_digest(decision_encoding(self@)),
    {
        let mut buffer: Vec<u8> = Vec::new();
        put_bytes(&mut buffer, "crypto-intelligence/finalization-decision/v1".as_bytes());
        put_i64(&mut buffer, self.window.start().value());
        put_i64(&mut buffer, self.window.end().value());
        buffer.push(
            match self.state {
                Finalization::Provisional => 1,
                Finalization::Final => 2,
                Finalization::Invalid => 3,
            },
        );
        put_optional_time(&mut buffer, self.watermark);
        put_i64(&mut buffer, self.as_known_at.value());
        match self.entity_digest {
            Some(digest) => {
                buffer.push(1);
                put_bytes(&mut buffer, digest.as_slice());
            },
            None => {
                buffer.push(0);
            },
        }
        put_u64(&mut buffer, self.required_source_count as u64);
        put_bytes(&mut buffer, self.required_source_digest.as_slice());
        put_u64(&mut buffer, self.evaluation_sequence);
        put_bytes(&mut buffer, self.policy_id.as_slice());
        proof {
            assert(buffer@ =~= decision_encoding(self@));
        }
        blake3_hash(buffer.as_slice())
    }

    /// The policy of the tracker that made the decision.
    pub fn policy_id(self) -> (policy: [u8; 32])
        ensures
            policy@ == self@.policy,
    {
        self.policy_id
    }
}

/// What a [`CorrectionDecision`] attests.
pub struct CorrectionView {
    pub window: TimeWindow,
    pub source: KeyView,
    pub corrected_event_time: UnixNanos,
    pub sequence: u64,
    pub policy: Seq<u8>,
}

/// Evidence that a source corrected an event inside a final window.
#[derive(Debug)]
pub struct CorrectionDecision {
    window: TimeWindow,
    source: WatermarkKey,
    corrected_event_time: UnixNanos,
    evaluation_sequence: u64,
    policy_id: [u8; 32],
}

impl View for CorrectionDecision {
    type V = CorrectionView;

    closed spec fn view(&self) -> CorrectionView {
        CorrectionView {
            window: self.window,
            source: self.source@,
            corrected_event_time: self.corrected_event_time,
            sequence: self.evaluation_sequence,
            policy: self.policy_id@,
        }
    }
}

impl CorrectionDecision {
    pub fn window(&self) -> (window: TimeWindow)
        ensures
            window == self@.window,
    {
        self.window
    }

    pub fn source(&self) -> (source: &WatermarkKey)
        ensures
            source@ == self@.source,
    {
        &self.source
    }

    pub fn corrected_event_time(&self) -> (time: UnixNanos)
        ensures
            time == self@.corrected_event_time,
    {
        self.corrected_event_time
    }

    pub fn evaluation_sequence(&self) -> (sequence: u64)
        ensures
            sequence == self@.sequence,
    {
        self.evaluation_sequence
    }

    /// The policy of the tracker that made the decision.
    pub fn policy_id(&self) -> (policy: [u8; 32])
        ensures
            policy@ == self@.policy,
    {
        self.policy_id
    }
}

/// What a tracker knows of one partition.
pub struct SlotView {
    pub key: KeyView,
    pub role: PartitionRole,
    pub watermark: Option<UnixNanos>,
    pub as_known_at: Option<UnixNanos>,
    pub health: Option<SourceHealthState>,
}

#[derive(Debug)]
struct PartitionState {
    key: WatermarkKey,
    role: PartitionRole,
    watermark: Option<UnixNanos>,
    as_known_at: Option<UnixNanos>,
    health: Option<SourceHealthState>,
}

impl View for PartitionState {
    type V = SlotView;

    closed spec fn view(&self) -> SlotView {
        SlotView {
            key: self.key@,
            role: self.role,
            watermark: self.watermark,
            as_known_at: self.as_known_at,
            health: self.health,
        }
    }
}

impl Ranked for PartitionState {
    closed spec fn rank(&self) -> Seq<int> {
        key_rank(self.key@)
    }

    fn precedes(&self, other: &Self) -> (before: bool) {
        self.key.precedes(&other.key)
    }
}

impl Ranked for SourceHealthState {
    open spec fn rank(&self) -> Seq<int> {
        seq![health_code(*self) as int]
    }

    fn precedes(&self, other: &Self) -> (before: bool) {
        proof {
            reveal_with_fuel(rank_precedes, 2);
        }
        health_rank(*self) < health_rank(*other)
    }
}

/// The place of a health state in a policy.
pub open spec fn health_code(state: SourceHealthState) -> u8 {
    match state {
        SourceHealthState::Healthy => 0,
        SourceHealthState::Degraded => 1,
        SourceHealthState::Unhealthy => 2,
        SourceHealthState::Quarantined => 3,
        SourceHealthState::Recovering => 4,
    }
}

pub fn health_rank(state: SourceHealthState) -> (rank: u8)
    ensures
        rank == health_code(state),
{
    match state {
        SourceHealthState::Healthy => 0,
        SourceHealthState::Degraded => 1,
        SourceHealthState::Unhealthy => 2,
        SourceHealthState::Quarantined => 3,
        SourceHealthState::Recovering => 4,
    }
}

/// How bad a health state is.
pub open spec fn severity(state: SourceHealthState) -> u8 {
    match state {
        SourceHealthState::Healthy => 0,
        SourceHealthState::Recovering => 1,
        SourceHealthState::Degraded => 2,
        SourceHealthState::Unhealthy => 3,
        SourceHealthState::Quarantined => 4,
    }
}

pub fn health_severity(state: SourceHealthState) -> (rank: u8)
    ensures
        rank == severity(state),
{
    match state {
        SourceHealthState::Healthy => 0,
        SourceHealthState::Recovering => 1,
        SourceHealthState::Degraded => 2,
        SourceHealthState::Unhealthy => 3,
        SourceHealthState::Quarantined => 4,
    }
}

/// The more severe of two health states.
pub open spec fn worse(left: SourceHealthState, right: SourceHealthState) -> SourceHealthState {
    if severity(left) >= severity(right) {
        left
    } else {
        right
    }
}

pub fn worse_health(left: SourceHealthState, right: SourceHealthState) -> (state: SourceHealthState)
    ensures
        state == worse(left, right),
{
    if health_severity(left) >= health_severity(right) {
        left
    } else {
        right
    }
}

fn fingerprint_entity(entity: &FeatureEntity) -> (digest: [u8; 32])
    ensures
        digest@ == entity_fingerprint(entity@),
{
    let mut buffer: Vec<u8> = Vec::new();
    put_bytes(&mut buffer, "crypto-intelligence/watermark-entity/v1".as_bytes());
    entity.put(&mut buffer);
    proof {
        assert(buffer@ =~= utf8("crypto-intelligence/watermark-entity/v1"@) + entity_encoding(
            entity@,
        ));
    }
    blake3_hash(buffer.as_slice())
}

fn fingerprint_sources(sources: &Vec<SourceId>) -> (digest: [u8; 32])
    ensures
        digest@ == sources_fingerprint(source_views(sources@)),
{
    let mut buffer: Vec<u8> = Vec::new();
    let ghost views = source_views(sources@);
    let ghost head = utf8("crypto-intelligence/watermark-required-sources/v1"@);
    put_bytes(&mut buffer, "crypto-intelligence/watermark-required-sources/v1".as_bytes());
    let mut i: usize = 0;
    proof {
        assert(views.take(0) =~= Seq::empty());
        assert(buffer@ =~= head + sources_encoding(views.take(0)));
    }
    while i < sources.len()
        invariant
            i <= sources.len(),
            views == source_views(sources@),
            buffer@ == head + sources_encoding(views.take(i as int)),
        decreases sources.len() - i,
    {
        sources[i].put(&mut buffer);
        proof {
            assert(views.take(i + 1).drop_last() =~= views.take(i as int));
            assert(views.take(i + 1).last() == sources@[i as int]@);
            assert(buffer@ =~= head + sources_encoding(views.take(i + 1)));
        }
        i += 1;
    }
    proof {
        assert(views.take(sources.len() as int) =~= views);
    }
    blake3_hash(buffer.as_slice())
}

/// A partition of which nothing is known yet.
pub open spec fn fresh_slot(
    config: (KeyView, PartitionRole),
) -> SlotView {
    SlotView {
        key: config.0,
        role: config.1,
        watermark: None,
        as_known_at: None,
        health: None,
    }
}

/// The partitions are in canonical order, each once.
pub open spec fn canonical_slots(slots: Seq<SlotView>) -> bool {
    forall|i: int, j: int|
        0 <= i < j < slots.len() ==> rank_precedes(
            key_rank((#[trigger] slots[i]).key),
            key_rank((#[trigger] slots[j]).key),
        )
}

pub open spec fn some_required(slots: Seq<SlotView>) -> bool {
    exists|i: int| 0 <= i < slots.len() && (#[trigger] slots[i]).role == PartitionRole::Required
}

/// What a policy says of one partition.
pub open spec fn slot_encoding(slot: SlotView) -> Seq<u8> {
    source_encoding(slot.key.0) + framed(utf8(slot.key.1)) + seq![
        match slot.role {
            PartitionRole::Required => 1u8,
            PartitionRole::Optional => 2u8,
        },
    ]
}

pub open spec fn slots_encoding(slots: Seq<SlotView>) -> Seq<u8>
    decreases slots.len(),
{
    if slots.len() == 0 {
        Seq::empty()
    } else {
        slots_encoding(slots.drop_last()) + slot_encoding(slots.last())
    }
}

pub open spec fn health_codes(states: Seq<SourceHealthState>) -> Seq<u8> {
    Seq::new(states.len(), |i: int| health_code(states[i]))
}

/// The identity of a policy: its lateness, partitions and roles, tolerated health, and entity.
pub open spec fn policy_fingerprint(
    slots: Seq<SlotView>,
    lateness: u64,
    allowed_health: Seq<SourceHealthState>,
    entity: Option<Seq<u8>>,
) -> Seq<u8> {
    blake3_digest(
        utf8("crypto-intelligence/watermark-policy/v1"@) + encoded_u64(lateness) + slots_encoding(
            slots,
        ) + health_codes(allowed_health) + optional_digest_encoding(entity),
    )
}

/// The sources of the required partitions, each once where the partitions are in canonical order.
pub open spec fn required_sources(slots: Seq<SlotView>) -> Seq<SourceView>
    decreases slots.len(),
{
    if slots.len() == 0 {
        Seq::empty()
    } else {
        let before = required_sources(slots.drop_last());
        let slot = slots.last();
        if slot.role == PartitionRole::Required && (before.len() == 0 || before.last()
            != slot.key.0) {
            before.push(slot.key.0)
        } else {
            before
        }
    }
}

/// Every required partition of a source has reported its health.
pub open spec fn fully_reported(
    slots: Seq<SlotView>,
    source: SourceView,
) -> bool {
    forall|i: int|
        0 <= i < slots.len() && (#[trigger] slots[i]).role == PartitionRole::Required
            && slots[i].key.0 == source ==> slots[i].health is Some
}

/// The worst health that a source's required partitions have reported.
pub open spec fn worst_health(
    slots: Seq<SlotView>,
    source: SourceView,
) -> Option<SourceHealthState>
    decreases slots.len(),
{
    if slots.len() == 0 {
        None
    } else {
        let before = worst_health(slots.drop_last(), source);
        let slot = slots.last();
        if slot.role == PartitionRole::Required && slot.key.0 == source {
            match (before, slot.health) {
                (Some(current), Some(health)) => Some(worse(current, health)),
                (None, health) => health,
                (before, None) => before,
            }
        } else {
            before
        }
    }
}

/// The coverage of the required sources at a decision, where the decision is still current.
pub open spec fn decision_coverage(tracker: TrackerView, decision: DecisionView) -> Option<
    CoverageView,
> {
    let expected = required_sources(tracker.slots);
    let reported = reported_sources(tracker.slots, expected);
    if tracker.vouches_for(decision) && decision.required_count == expected.len()
        && decision.required_digest == sources_fingerprint(expected) && coverage_refusal(
        expected,
        Seq::new(reported.len(), |i: int| reported[i].0),
    ) is None {
        Some((expected, reported))
    } else {
        None
    }
}

/// The fully reported sources of a list, with the worst health of each.
pub open spec fn reported_sources(
    slots: Seq<SlotView>,
    sources: Seq<SourceView>,
) -> Seq<(SourceView, SourceHealthState)>
    decreases sources.len(),
{
    if sources.len() == 0 {
        Seq::empty()
    } else {
        let before = reported_sources(slots, sources.drop_last());
        let source = sources.last();
        if fully_reported(slots, source) && worst_health(slots, source) is Some {
            before.push((source, worst_health(slots, source)->Some_0))
        } else {
            before
        }
    }
}

pub open spec fn required_marked(slots: Seq<SlotView>) -> bool {
    forall|i: int|
        0 <= i < slots.len() && (#[trigger] slots[i]).role == PartitionRole::Required
            ==> slots[i].watermark is Some
}

/// The lowest watermark among the required partitions that have one.
pub open spec fn least_mark(slots: Seq<SlotView>) -> Option<UnixNanos>
    decreases slots.len(),
{
    if slots.len() == 0 {
        None
    } else {
        let before = least_mark(slots.drop_last());
        let slot = slots.last();
        if slot.role == PartitionRole::Required {
            match (before, slot.watermark) {
                (Some(current), Some(mark)) => Some(current.earlier(mark)),
                (None, mark) => mark,
                (before, None) => before,
            }
        } else {
            before
        }
    }
}

/// The lowest watermark of the required partitions, once all of them have one.
pub open spec fn required_watermark(slots: Seq<SlotView>) -> Option<UnixNanos> {
    if required_marked(slots) {
        least_mark(slots)
    } else {
        None
    }
}

/// The latest time at which any partition's progress was known.
pub open spec fn latest_known(slots: Seq<SlotView>) -> Option<UnixNanos>
    decreases slots.len(),
{
    if slots.len() == 0 {
        None
    } else {
        match (latest_known(slots.drop_last()), slots.last().as_known_at) {
            (Some(current), Some(time)) => Some(current.later(time)),
            (None, time) => time,
            (before, None) => before,
        }
    }
}

/// A required partition reports a health state that the policy does not tolerate.
pub open spec fn intolerable(slots: Seq<SlotView>, allowed: Seq<SourceHealthState>) -> bool {
    exists|i: int|
        0 <= i < slots.len() && (#[trigger] slots[i]).role == PartitionRole::Required
            && slots[i].health is Some && !allowed.contains(slots[i].health->Some_0)
}

/// Every required partition has reported and passed a point in event time.
pub open spec fn required_passed(slots: Seq<SlotView>, threshold: int) -> bool {
    forall|i: int|
        0 <= i < slots.len() && (#[trigger] slots[i]).role == PartitionRole::Required
            ==> slots[i].health is Some && slots[i].watermark is Some
            && slots[i].watermark->Some_0.nanos >= threshold
}

/// Whether a window that ends at `end` is final: every required partition has passed it by the
/// allowed lateness, in tolerable health.
pub open spec fn evaluation(
    slots: Seq<SlotView>,
    lateness: u64,
    allowed: Seq<SourceHealthState>,
    end: i64,
) -> Finalization {
    if lateness > i64::MAX || end + lateness > i64::MAX || intolerable(slots, allowed) {
        Finalization::Invalid
    } else if required_passed(slots, end + lateness) {
        Finalization::Final
    } else {
        Finalization::Provisional
    }
}

/// The event time up to which no valid event can still arrive, where it is known.
pub open spec fn frontier(
    slots: Seq<SlotView>,
    lateness: u64,
    allowed: Seq<SourceHealthState>,
) -> Option<UnixNanos> {
    if lateness > i64::MAX || !required_marked(slots) || intolerable(slots, allowed) || (exists|
        i: int,
    |
        0 <= i < slots.len() && (#[trigger] slots[i]).role == PartitionRole::Required
            && slots[i].health is None) {
        None
    } else {
        match least_mark(slots) {
            None => None,
            Some(mark) => if mark.nanos - lateness < i64::MIN {
                None
            } else if mark.nanos - lateness < 0 {
                Some(UnixNanos { nanos: 0 })
            } else {
                Some(UnixNanos { nanos: (mark.nanos - lateness) as i64 })
            },
        }
    }
}

/// The position of a partition, or the number of partitions where it is unknown.
pub open spec fn slot_position(
    slots: Seq<SlotView>,
    key: KeyView,
) -> int
    decreases slots.len(),
{
    if slots.len() == 0 {
        0
    } else if slots[0].key == key {
        0
    } else {
        1 + slot_position(slots.drop_first(), key)
    }
}

/// What a tracker holds.
pub struct TrackerView {
    pub slots: Seq<SlotView>,
    pub lateness: u64,
    pub allowed_health: Seq<SourceHealthState>,
    pub sequence: u64,
    pub policy: Seq<u8>,
    pub entity: Option<Seq<u8>>,
    pub required_count: nat,
    pub required_digest: Seq<u8>,
}

impl TrackerView {
    /// The partitions are canonical and one of them is required; the tolerated health states are
    /// distinct and in order; the digests are those of the policy.
    pub open spec fn well_formed(self) -> bool {
        &&& canonical_slots(self.slots)
        &&& some_required(self.slots)
        &&& self.slots.len() <= MAX_PARTITIONS
        &&& self.lateness <= i64::MAX
        &&& strictly_sorted_by_rank(self.allowed_health)
        &&& self.policy == policy_fingerprint(
            self.slots,
            self.lateness,
            self.allowed_health,
            self.entity,
        )
        &&& self.required_count == required_sources(self.slots).len()
        &&& self.required_digest == sources_fingerprint(required_sources(self.slots))
    }

    /// The decision for a window in this state.
    pub open spec fn decision(self, window: TimeWindow) -> DecisionView {
        let end = UnixNanos { nanos: window.upper() };
        DecisionView {
            window,
            state: evaluation(self.slots, self.lateness, self.allowed_health, window.upper()),
            watermark: required_watermark(self.slots),
            as_known_at: match latest_known(self.slots) {
                Some(latest) => latest.later(end),
                None => end,
            },
            entity: self.entity,
            required_count: self.required_count,
            required_digest: self.required_digest,
            sequence: self.sequence,
            policy: self.policy,
        }
    }

    /// The decision was made by this tracker in its present state.
    pub open spec fn vouches_for(self, decision: DecisionView) -> bool {
        decision.policy == self.policy && decision.sequence == self.sequence
    }

    /// Why an update is refused, if it is.
    pub open spec fn update_refusal(
        self,
        key: KeyView,
        update: WatermarkUpdate,
    ) -> Option<WatermarkError> {
        let position = slot_position(self.slots, key);
        let slot = self.slots[position];
        if update.event_time.nanos <= 0 || update.as_known_at.nanos < update.event_time.nanos {
            Some(WatermarkError::InvalidWatermark)
        } else if position == self.slots.len() {
            Some(WatermarkError::UnknownPartition)
        } else if slot.watermark is Some && update.event_time.nanos
            < slot.watermark->Some_0.nanos {
            Some(
                WatermarkError::Regression {
                    current: slot.watermark->Some_0,
                    attempted: update.event_time,
                },
            )
        } else if slot.as_known_at is Some && update.as_known_at.nanos
            < slot.as_known_at->Some_0.nanos {
            Some(WatermarkError::InvalidWatermark)
        } else if self.sequence == u64::MAX {
            Some(WatermarkError::ArithmeticOverflow)
        } else {
            None
        }
    }

    /// The state behind an accepted update.
    pub open spec fn updated(
        self,
        key: KeyView,
        update: WatermarkUpdate,
    ) -> Self {
        let position = slot_position(self.slots, key);
        TrackerView {
            slots: self.slots.update(
                position,
                SlotView {
                    watermark: Some(update.event_time),
                    as_known_at: Some(update.as_known_at),
                    health: Some(update.health),
                    ..self.slots[position]
                },
            ),
            sequence: (self.sequence + 1) as u64,
            ..self
        }
    }

    /// Why a correction is refused, if it is.
    pub open spec fn correction_refusal(
        self,
        key: KeyView,
        window: TimeWindow,
        corrected: UnixNanos,
    ) -> Option<WatermarkError> {
        let position = slot_position(self.slots, key);
        let slot = self.slots[position];
        if !window.contains(corrected.nanos) {
            Some(WatermarkError::InvalidCorrectionTime)
        } else if position == self.slots.len() {
            Some(WatermarkError::UnknownPartition)
        } else if slot.health is None || !self.allowed_health.contains(slot.health->Some_0)
            || evaluation(self.slots, self.lateness, self.allowed_health, window.upper())
            != Finalization::Final {
            Some(WatermarkError::InvalidCorrectionState)
        } else if self.sequence == u64::MAX {
            Some(WatermarkError::ArithmeticOverflow)
        } else {
            None
        }
    }
}

/// Why a tracker cannot be made of these parts, if it cannot.
pub open spec fn tracker_refusal(
    configs: Seq<PartitionConfig>,
    lateness: DurationNanos,
    allowed_health: Seq<SourceHealthState>,
) -> Option<WatermarkError> {
    if configs.len() == 0 || configs.len() > MAX_PARTITIONS || allowed_health.len() == 0
        || allowed_health.len() > 5 || lateness.nanos > i64::MAX || !(exists|i: int|
        0 <= i < configs.len() && (#[trigger] configs[i])@.1 == PartitionRole::Required)
        || !allowed_health.no_duplicates() {
        Some(WatermarkError::InvalidTracker)
    } else if exists|i: int, j: int|
        0 <= i < j < configs.len() && (#[trigger] configs[i])@.0 == (#[trigger] configs[j])@.0 {
        Some(WatermarkError::DuplicatePartition)
    } else {
        None
    }
}

/// The new state of a tracker: every configured partition once, in canonical order, with nothing
/// known of it.
pub open spec fn fresh_tracker(
    tracker: TrackerView,
    configs: Seq<PartitionConfig>,
    lateness: DurationNanos,
    allowed_health: Seq<SourceHealthState>,
    entity: Option<Seq<u8>>,
) -> bool {
    &&& tracker.well_formed()
    &&& tracker.slots.len() == configs.len()
    &&& forall|i: int|
        0 <= i < configs.len() ==> tracker.slots.contains(fresh_slot((#[trigger] configs[i])@))
    &&& tracker.lateness == lateness.nanos
    &&& tracker.allowed_health.to_multiset() == allowed_health.to_multiset()
    &&& tracker.sequence == 0
    &&& tracker.entity == entity
}

/// Tracks how far the partitions of a policy have come.
#[derive(Debug)]
pub struct WatermarkTracker {
    partitions: Vec<PartitionState>,
    allowed_lateness: DurationNanos,
    allowed_health: Vec<SourceHealthState>,
    update_sequence: u64,
    policy_id: [u8; 32],
    entity_digest: Option<[u8; 32]>,
    required_source_count: usize,
    required_source_digest: [u8; 32],
}

closed spec fn slot_views(partitions: Seq<PartitionState>) -> Seq<SlotView> {
    Seq::new(partitions.len(), |i: int| partitions[i]@)
}

impl View for WatermarkTracker {
    type V = TrackerView;

    closed spec fn view(&self) -> TrackerView {
        TrackerView {
            slots: slot_views(self.partitions@),
            lateness: self.allowed_lateness.nanos,
            allowed_health: self.allowed_health@,
            sequence: self.update_sequence,
            policy: self.policy_id@,
            entity: digest_view(self.entity_digest),
            required_count: self.required_source_count as nat,
            required_digest: self.required_source_digest@,
        }
    }
}

fn holds_health(states: &Vec<SourceHealthState>, wanted: SourceHealthState) -> (answer: bool)
    ensures
        answer == states@.contains(wanted),
{
    let mut i: usize = 0;
    while i < states.len()
        invariant
            i <= states.len(),
            forall|k: int| 0 <= k < i ==> states@[k] != wanted,
        decreases states.len() - i,
    {
        if states[i] == wanted {
            proof {
                assert(states@[i as int] == wanted);
            }
            return true;
        }
        i += 1;
    }
    false
}

fn distinct_health(states: &Vec<SourceHealthState>) -> (answer: bool)
    ensures
        answer == states@.no_duplicates(),
{
    let mut i: usize = 0;
    while i < states.len()
        invariant
            i <= states.len(),
            forall|a: int, b: int| 0 <= a < b < i ==> states@[a] != states@[b],
        decreases states.len() - i,
    {
        let mut j: usize = 0;
        while j < i
            invariant
                j <= i < states.len(),
                forall|a: int| 0 <= a < j ==> states@[a] != states@[i as int],
            decreases i - j,
        {
            if states[j] == states[i] {
                return false;
            }
            j += 1;
        }
        i += 1;
    }
    true
}

fn some_required_config(configs: &Vec<PartitionConfig>) -> (answer: bool)
    ensures
        answer == exists|i: int|
            0 <= i < configs@.len() && (#[trigger] configs@[i])@.1 == PartitionRole::Required,
{
    let mut i: usize = 0;
    while i < configs.len()
        invariant
            i <= configs.len(),
            forall|k: int| 0 <= k < i ==> (#[trigger] configs@[k])@.1 != PartitionRole::Required,
        decreases configs.len() - i,
    {
        if configs[i].role == PartitionRole::Required {
            proof {
                assert(configs@[i as int]@.1 == PartitionRole::Required);
            }
            return true;
        }
        i += 1;
    }
    false
}

fn distinct_configs(configs: &Vec<PartitionConfig>) -> (answer: bool)
    ensures
        answer == !(exists|i: int, j: int|
            0 <= i < j < configs@.len() && (#[trigger] configs@[i])@.0 == (
            #[trigger] configs@[j])@.0),
{
    let mut i: usize = 0;
    while i < configs.len()
        invariant
            i <= configs.len(),
            forall|a: int, b: int|
                0 <= a < b < i ==> (#[trigger] configs@[a])@.0 != (#[trigger] configs@[b])@.0,
        decreases configs.len() - i,
    {
        let mut j: usize = 0;
        while j < i
            invariant
                j <= i < configs.len(),
                forall|a: int|
                    0 <= a < j ==> (#[trigger] configs@[a])@.0 != configs@[i as int]@.0,
            decreases i - j,
        {
            if configs[j].key.same(&configs[i].key) {
                proof {
                    assert(configs@[j as int]@.0 == configs@[i as int]@.0);
                }
                return false;
            }
            j += 1;
        }
        i += 1;
    }
    true
}

fn fingerprint_policy(
    partitions: &Vec<PartitionState>,
    allowed_lateness: DurationNanos,
    allowed_health: &Vec<SourceHealthState>,
    entity: Option<[u8; 32]>,
) -> (digest: [u8; 32])
    ensures
        digest@ == policy_fingerprint(
            slot_views(partitions@),
            allowed_lateness.nanos,
            allowed_health@,
            digest_view(entity),
        ),
{
    let mut buffer: Vec<u8> = Vec::new();
    let ghost slots = slot_views(partitions@);
    put_bytes(&mut buffer, "crypto-intelligence/watermark-policy/v1".as_bytes());
    put_u64(&mut buffer, allowed_lateness.value());
    let ghost head = utf8("crypto-intelligence/watermark-policy/v1"@) + encoded_u64(
        allowed_lateness.nanos,
    );
    let mut i: usize = 0;
    proof {
        assert(slots.take(0) =~= Seq::empty());
        assert(buffer@ =~= head + slots_encoding(slots.take(0)));
    }
    while i < partitions.len()
        invariant
            i <= partitions.len(),
            slots == slot_views(partitions@),
            buffer@ == head + slots_encoding(slots.take(i as int)),
        decreases partitions.len() - i,
    {
        partitions[i].key.source.put(&mut buffer);
        put_framed(&mut buffer, partitions[i].key.partition.value.as_str().as_bytes());
        buffer.push(
            match partitions[i].role {
                PartitionRole::Required => 1,
                PartitionRole::Optional => 2,
            },
        );
        proof {
            assert(slots.take(i + 1).drop_last() =~= slots.take(i as int));
            assert(slots.take(i + 1).last() == partitions@[i as int]@);
            assert(buffer@ =~= head + slots_encoding(slots.take(i + 1)));
        }
        i += 1;
    }
    proof {
        assert(slots.take(partitions.len() as int) =~= slots);
    }
    let ghost with_slots = buffer@;
    let mut k: usize = 0;
    proof {
        assert(buffer@ =~= with_slots + health_codes(allowed_health@.take(0)));
    }
    while k < allowed_health.len()
        invariant
            k <= allowed_health.len(),
            buffer@ == with_slots + health_codes(allowed_health@.take(k as int)),
        decreases allowed_health.len() - k,
    {
        buffer.push(health_rank(allowed_health[k]));
        proof {
            assert(buffer@ =~= with_slots + health_codes(allowed_health@.take(k + 1)));
        }
        k += 1;
    }
    proof {
        assert(allowed_health@.take(allowed_health.len() as int) =~= allowed_health@);
    }
    match entity {
        Some(digest) => {
            buffer.push(1);
            put_bytes(&mut buffer, digest.as_slice());
        },
        None => {
            buffer.push(0);
        },
    }
    proof {
        assert(buffer@ =~= head + slots_encoding(slots) + health_codes(allowed_health@)
            + optional_digest_encoding(digest_view(entity)));
    }
    blake3_hash(buffer.as_slice())
}

fn canonical_required_sources(partitions: &Vec<PartitionState>) -> (sources: Vec<SourceId>)
    ensures
        source_views(sources@) == required_sources(slot_views(partitions@)),
{
    let ghost slots = slot_views(partitions@);
    let mut sources: Vec<SourceId> = Vec::new();
    let mut i: usize = 0;
    proof {
        assert(slots.take(0) =~= Seq::empty());
        assert(source_views(sources@) =~= Seq::empty());
    }
    while i < partitions.len()
        invariant
            i <= partitions.len(),
            slots == slot_views(partitions@),
            source_views(sources@) == required_sources(slots.take(i as int)),
        decreases partitions.len() - i,
    {
        proof {
            assert(slots.take(i + 1).drop_last() =~= slots.take(i as int));
            assert(slots.take(i + 1).last() == partitions@[i as int]@);
        }
        let ghost before = sources@;
        if partitions[i].role == PartitionRole::Required && (sources.len() == 0 || !sources[sources.len()
            - 1].same(&partitions[i].key.source)) {
            sources.push(partitions[i].key.source.clone());
            proof {
                assert(source_views(sources@) =~= source_views(before).push(
                    partitions@[i as int]@.key.0,
                ));
                if before.len() > 0 {
                    assert(source_views(before).last() == before.last()@);
                }
            }
        } else {
            proof {
                if before.len() > 0 {
                    assert(source_views(before).last() == before.last()@);
                }
            }
        }
        i += 1;
    }
    proof {
        assert(slots.take(partitions.len() as int) =~= slots);
    }
    sources
}

impl WatermarkTracker {
    pub fn try_new(
        configs: Vec<PartitionConfig>,
        allowed_lateness: DurationNanos,
        allowed_health: Vec<SourceHealthState>,
    ) -> (result: Result<Self, WatermarkError>)
        ensures
            match tracker_refusal(configs@, allowed_lateness, allowed_health@) {
                Some(error) => result is Err && result->Err_0 == error,
                None => result is Ok && fresh_tracker(
                    result->Ok_0@,
                    configs@,
                    allowed_lateness,
                    allowed_health@,
                    None,
                ),
            },
    {
        Self::build(configs, allowed_lateness, allowed_health, None)
    }

    /// Creates a tracker whose decisions are scoped to one canonical entity.
    pub fn try_new_for_entity(
        configs: Vec<PartitionConfig>,
        allowed_lateness: DurationNanos,
        allowed_health: Vec<SourceHealthState>,
        entity: FeatureEntity,
    ) -> (result: Result<Self, WatermarkError>)
        ensures
            match tracker_refusal(configs@, allowed_lateness, allowed_health@) {
                Some(error) => result is Err && result->Err_0 == error,
                None => result is Ok && fresh_tracker(
                    result->Ok_0@,
                    configs@,
                    allowed_lateness,
                    allowed_health@,
                    Some(entity_fingerprint(entity@)),
                ),
            },
    {
        let digest = fingerprint_entity(&entity);
        Self::build(configs, allowed_lateness, allowed_health, Some(digest))
    }

    fn build(
        configs: Vec<PartitionConfig>,
        allowed_lateness: DurationNanos,
        allowed_health: Vec<SourceHealthState>,
        entity_digest: Option<[u8; 32]>,
    ) -> (result: Result<Self, WatermarkError>)
        ensures
            match tracker_refusal(configs@, allowed_lateness, allowed_health@) {
                Some(error) => result is Err && result->Err_0 == error,
                None => result is Ok && fresh_tracker(
                    result->Ok_0@,
                    configs@,
                    allowed_lateness,
                    allowed_health@,
                    digest_view(entity_digest),
                ),
            },
    {
        if configs.len() == 0 || configs.len() > MAX_PARTITIONS || allowed_health.len() == 0
            || allowed_health.len() > 5 || allowed_lateness.value() > i64::MAX as u64 {
            return Err(WatermarkError::InvalidTracker);
        }
        if !some_required_config(&configs) || !distinct_health(&allowed_health) {
            return Err(WatermarkError::InvalidTracker);
        }
        if !distinct_configs(&configs) {
            return Err(WatermarkError::DuplicatePartition);
        }
        let ghost requested_health = allowed_health@;
        let allowed_health: Vec<SourceHealthState> = sort_by_rank(allowed_health);
        proof {
            assert(distinct_ranks(requested_health)) by {
                assert forall|i: int, j: int| 0 <= i < j < requested_health.len() implies (
                #[trigger] requested_health[i].rank()) != (#[trigger] requested_health[j].rank()) by {
                    assert(requested_health[i] != requested_health[j]);
                    assert(requested_health[i].rank()[0] != requested_health[j].rank()[0]);
                }
            }
            lemma_sorted_distinct(requested_health, allowed_health@);
        }
        let partitions = fresh_partitions(configs);
        let ghost slots = slot_views(partitions@);
        let policy_id = fingerprint_policy(
            &partitions,
            allowed_lateness,
            &allowed_health,
            entity_digest,
        );
        let sources = canonical_required_sources(&partitions);
        let required_source_digest = fingerprint_sources(&sources);
        let required_source_count: usize = sources.len();
        let tracker = WatermarkTracker {
            partitions,
            allowed_lateness,
            allowed_health,
            update_sequence: 0,
            policy_id,
            entity_digest,
            required_source_count,
            required_source_digest,
        };
        proof {
            assert(some_required(slots)) by {
                let i = choose|i: int|
                    0 <= i < configs@.len() && (#[trigger] configs@[i])@.1
                        == PartitionRole::Required;
                assert(slots.contains(fresh_slot(configs@[i]@)));
                let k = slots.index_of(fresh_slot(configs@[i]@));
                assert(slots[k].role == PartitionRole::Required);
            }
            assert(source_views(sources@).len() == sources@.len());
        }
        Ok(tracker)
    }

    /// Records the progress of one partition.
    pub fn advance(&mut self, key: &WatermarkKey, update: WatermarkUpdate) -> (result: Result<
        (),
        WatermarkError,
    >)
        ensures
            match old(self)@.update_refusal(key@, update) {
                Some(error) => result == Err::<(), WatermarkError>(error) && final(self)@ == old(
                    self,
                )@,
                None => result == Ok::<(), WatermarkError>(()) && final(self)@ == old(
                    self,
                )@.updated(key@, update),
            },
    {
        if update.event_time.value() <= 0 || update.as_known_at.value() < update.event_time.value() {
            return Err(WatermarkError::InvalidWatermark);
        }
        let position: usize = self.position(key);
        if position == self.partitions.len() {
            return Err(WatermarkError::UnknownPartition);
        }
        if let Some(current) = self.partitions[position].watermark {
            if update.event_time.value() < current.value() {
                return Err(
                    WatermarkError::Regression { current, attempted: update.event_time },
                );
            }
        }
        if let Some(current) = self.partitions[position].as_known_at {
            if update.as_known_at.value() < current.value() {
                return Err(WatermarkError::InvalidWatermark);
            }
        }
        if self.update_sequence == u64::MAX {
            return Err(WatermarkError::ArithmeticOverflow);
        }
        let ghost before = self.partitions@;
        let state = PartitionState {
            key: self.partitions[position].key.clone(),
            role: self.partitions[position].role,
            watermark: Some(update.event_time),
            as_known_at: Some(update.as_known_at),
            health: Some(update.health),
        };
        self.partitions.set(position, state);
        self.update_sequence += 1;
        proof {
            assert(slot_views(self.partitions@) =~= slot_views(before).update(
                position as int,
                state@,
            ));
        }
        Ok(())
    }

    /// The position of a partition, or the number of partitions.
    fn position(&self, key: &WatermarkKey) -> (position: usize)
        ensures
            position == slot_position(self@.slots, key@),
            position <= self.partitions@.len(),
            position < self.partitions@.len() ==> self@.slots[position as int].key == key@,
    {
        let ghost slots = slot_views(self.partitions@);
        let mut i: usize = 0;
        proof {
            assert(slots.skip(0) =~= slots);
        }
        while i < self.partitions.len()
            invariant
                i <= self.partitions.len(),
                slots == slot_views(self.partitions@),
                slot_position(slots, key@) == i + slot_position(slots.skip(i as int), key@),
            decreases self.partitions.len() - i,
        {
            proof {
                assert(slots.skip(i as int)[0] == self.partitions@[i as int]@);
                assert(slots.skip(i as int).drop_first() =~= slots.skip(i + 1));
            }
            if self.partitions[i].key.same(key) {
                return i;
            }
            i += 1;
        }
        i
    }

    pub fn watermark(&self, key: &WatermarkKey) -> (watermark: Option<UnixNanos>)
        ensures
            watermark == if slot_position(self@.slots, key@) < self@.slots.len() {
                self@.slots[slot_position(self@.slots, key@)].watermark
            } else {
                None
            },
    {
        let position: usize = self.position(key);
        if position < self.partitions.len() {
            self.partitions[position].watermark
        } else {
            None
        }
    }

    /// The coverage of the required sources at the time of a decision that is still current.
    pub fn coverage_for_decision(&self, decision: FinalizationDecision) -> (coverage: Option<
        SourceCoverage,
    >)
        ensures
            match coverage {
                Some(coverage) => decision_coverage(self@, decision@) == Some(coverage@),
                None => decision_coverage(self@, decision@) is None,
            },
    {
        if !same_digest(&decision.policy_id, &self.policy_id) || decision.evaluation_sequence
            != self.update_sequence {
            return None;
        }
        let expected = canonical_required_sources(&self.partitions);
        if !decision.matches_required_sources(&expected) {
            return None;
        }
        let ghost slots = slot_views(self.partitions@);
        let ghost views = source_views(expected@);
        let mut observed: Vec<SourceCoverageEntry> = Vec::new();
        let mut i: usize = 0;
        proof {
            assert(entry_views(observed@) =~= reported_sources(slots, views.take(0)));
        }
        while i < expected.len()
            invariant
                i <= expected.len(),
                slots == slot_views(self.partitions@),
                views == source_views(expected@),
                entry_views(observed@) == reported_sources(slots, views.take(i as int)),
            decreases expected.len() - i,
        {
            let health = self.source_health(&expected[i]);
            let ghost before = observed@;
            proof {
                assert(views.take(i + 1).drop_last() =~= views.take(i as int));
                assert(views.take(i + 1).last() == expected@[i as int]@);
            }
            if let Some(health) = health {
                observed.push(SourceCoverageEntry::new(expected[i].clone(), health));
                proof {
                    assert(entry_views(observed@) =~= entry_views(before).push(
                        (expected@[i as int]@, health),
                    ));
                }
            }
            i += 1;
        }
        proof {
            assert(views.take(expected.len() as int) =~= views);
            let reported = reported_sources(slots, views);
            assert(entry_sources(observed@) =~= Seq::new(reported.len(), |k: int| reported[k].0)) by {
                assert forall|k: int| 0 <= k < observed@.len() implies entry_sources(observed@)[k]
                    == reported[k].0 by {
                    assert(entry_views(observed@)[k] == observed@[k]@);
                }
            }
        }
        match SourceCoverage::try_new_partial(expected, observed) {
            Ok(coverage) => Some(coverage),
            Err(_) => None,
        }
    }

    /// The worst health of a source, once all its required partitions have reported.
    fn source_health(&self, source: &SourceId) -> (health: Option<SourceHealthState>)
        ensures
            health == if fully_reported(self@.slots, source@) {
                worst_health(self@.slots, source@)
            } else {
                None
            },
    {
        let ghost slots = slot_views(self.partitions@);
        let mut health: Option<SourceHealthState> = None;
        let mut i: usize = 0;
        while i < self.partitions.len()
            invariant
                i <= self.partitions.len(),
                slots == slot_views(self.partitions@),
                fully_reported(slots.take(i as int), source@),
                health == worst_health(slots.take(i as int), source@),
            decreases self.partitions.len() - i,
        {
            proof {
                assert(slots.take(i + 1).drop_last() =~= slots.take(i as int));
                assert(slots.take(i + 1).last() == self.partitions@[i as int]@);
                assert(slots[i as int] == self.partitions@[i as int]@);
            }
            if self.partitions[i].role == PartitionRole::Required
                && self.partitions[i].key.source.same(source) {
                match self.partitions[i].health {
                    None => {
                        proof {
                            assert(!fully_reported(slots, source@));
                        }
                        return None;
                    },
                    Some(reported) => {
                        health = match health {
                            None => Some(reported),
                            Some(current) => Some(worse_health(current, reported)),
                        };
                    },
                }
            }
            proof {
                assert forall|k: int|
                    0 <= k < slots.take(i + 1).len() && (#[trigger] slots.take(i + 1)[k]).role
                        == PartitionRole::Required && slots.take(i + 1)[k].key.0
                        == source@ implies slots.take(i + 1)[k].health is Some by {
                    if k < i {
                        assert(slots.take(i + 1)[k] == slots.take(i as int)[k]);
                    }
                }
            }
            i += 1;
        }
        proof {
            assert(slots.take(self.partitions.len() as int) =~= slots);
        }
        health
    }

    /// Whether the decision was made by this tracker, in its present state, for this entity.
    pub fn validates_decision(&self, decision: FinalizationDecision, entity: &FeatureEntity) -> (
    answer: bool)
        ensures
            answer == (self@.vouches_for(decision@) && decision@.entity == Some(
                entity_fingerprint(entity@),
            )),
    {
        same_digest(&decision.policy_id, &self.policy_id) && decision.evaluation_sequence
            == self.update_sequence && decision.matches_entity(entity)
    }

    /// Evaluates a window.
    pub fn decision(&self, window: TimeWindow) -> (decision: FinalizationDecision)
        ensures
            decision@ == self@.decision(window),
    {
        let end = window.end();
        let as_known_at = match self.latest_as_known_at() {
            Some(latest) => latest.max_of(end),
            None => end,
        };
        FinalizationDecision {
            window,
            state: self.evaluate(window),
            watermark: self.minimum_required_watermark(),
            as_known_at,
            entity_digest: self.entity_digest,
            required_source_count: self.required_source_count,
            required_source_digest: self.required_source_digest,
            evaluation_sequence: self.update_sequence,
            policy_id: self.policy_id,
        }
    }

    /// Records fresh, exact-window evidence that a source corrected an event.
    pub fn correction(
        &mut self,
        source: &WatermarkKey,
        window: TimeWindow,
        corrected_event_time: UnixNanos,
    ) -> (result: Result<CorrectionDecision, WatermarkError>)
        ensures
            match old(self)@.correction_refusal(source@, window, corrected_event_time) {
                Some(error) => result is Err && result->Err_0 == error && final(self)@ == old(
                    self,
                )@,
                None => {
                    let sequence = (old(self)@.sequence + 1) as u64;
                    &&& final(self)@ == TrackerView { sequence, ..old(self)@ }
                    &&& result is Ok
                    &&& result->Ok_0@ == CorrectionView {
                        window,
                        source: source@,
                        corrected_event_time,
                        sequence,
                        policy: old(self)@.policy,
                    }
                },
            },
    {
        if corrected_event_time.value() < window.start().value() || corrected_event_time.value()
            >= window.end().value() {
            return Err(WatermarkError::InvalidCorrectionTime);
        }
        let position: usize = self.position(source);
        if position == self.partitions.len() {
            return Err(WatermarkError::UnknownPartition);
        }
        let tolerable: bool = match self.partitions[position].health {
            None => false,
            Some(health) => holds_health(&self.allowed_health, health),
        };
        if !tolerable || self.evaluate(window) != Finalization::Final {
            return Err(WatermarkError::InvalidCorrectionState);
        }
        if self.update_sequence == u64::MAX {
            return Err(WatermarkError::ArithmeticOverflow);
        }
        self.update_sequence += 1;
        Ok(
            CorrectionDecision {
                window,
                source: source.clone(),
                corrected_event_time,
                evaluation_sequence: self.update_sequence,
                policy_id: self.policy_id,
            },
        )
    }

    /// The identity of the tracker's policy.
    pub fn policy_id(&self) -> (policy: [u8; 32])
        ensures
            policy@ == self@.policy,
    {
        self.policy_id
    }

    /// The event time up to which no valid event can still arrive, where it is known.
    pub fn effective_frontier(&self) -> (time: Option<UnixNanos>)
        ensures
            time == frontier(self@.slots, self@.lateness, self@.allowed_health),
    {
        if self.allowed_lateness.value() > i64::MAX as u64 {
            return None;
        }
        let lateness: i64 = self.allowed_lateness.value() as i64;
        let ghost slots = slot_views(self.partitions@);
        let mut minimum: Option<UnixNanos> = None;
        let mut i: usize = 0;
        while i < self.partitions.len()
            invariant
                i <= self.partitions.len(),
                slots == slot_views(self.partitions@),
                lateness == self.allowed_lateness.nanos,
                minimum == least_mark(slots.take(i as int)),
                forall|k: int|
                    0 <= k < i && (#[trigger] slots[k]).role == PartitionRole::Required
                        ==> slots[k].watermark is Some && slots[k].health is Some
                        && self.allowed_health@.contains(slots[k].health->Some_0),
            decreases self.partitions.len() - i,
        {
            proof {
                assert(slots.take(i + 1).drop_last() =~= slots.take(i as int));
                assert(slots.take(i + 1).last() == self.partitions@[i as int]@);
                assert(slots[i as int] == self.partitions@[i as int]@);
            }
            if self.partitions[i].role == PartitionRole::Required {
                let watermark = match self.partitions[i].watermark {
                    None => {
                        return None;
                    },
                    Some(watermark) => watermark,
                };
                match self.partitions[i].health {
                    None => {
                        return None;
                    },
                    Some(health) => {
                        if !holds_health(&self.allowed_health, health) {
                            return None;
                        }
                    },
                }
                minimum = match minimum {
                    None => Some(watermark),
                    Some(current) => Some(current.min_of(watermark)),
                };
            }
            i += 1;
        }
        proof {
            assert(slots.take(self.partitions.len() as int) =~= slots);
        }
        match minimum {
            None => None,
            Some(mark) => match mark.value().checked_sub(lateness) {
                None => None,
                Some(time) => if time < 0 {
                    Some(UnixNanos::new(0))
                } else {
                    Some(UnixNanos::new(time))
                },
            },
        }
    }

    fn minimum_required_watermark(&self) -> (watermark: Option<UnixNanos>)
        ensures
            watermark == required_watermark(self@.slots),
    {
        let ghost slots = slot_views(self.partitions@);
        let mut minimum: Option<UnixNanos> = None;
        let mut i: usize = 0;
        while i < self.partitions.len()
            invariant
                i <= self.partitions.len(),
                slots == slot_views(self.partitions@),
                minimum == least_mark(slots.take(i as int)),
                forall|k: int|
                    0 <= k < i && (#[trigger] slots[k]).role == PartitionRole::Required
                        ==> slots[k].watermark is Some,
            decreases self.partitions.len() - i,
        {
            proof {
                assert(slots.take(i + 1).drop_last() =~= slots.take(i as int));
                assert(slots.take(i + 1).last() == self.partitions@[i as int]@);
                assert(slots[i as int] == self.partitions@[i as int]@);
            }
            if self.partitions[i].role == PartitionRole::Required {
                match self.partitions[i].watermark {
                    None => {
                        return None;
                    },
                    Some(watermark) => {
                        minimum = match minimum {
                            None => Some(watermark),
                            Some(current) => Some(current.min_of(watermark)),
                        };
                    },
                }
            }
            i += 1;
        }
        proof {
            assert(slots.take(self.partitions.len() as int) =~= slots);
        }
        minimum
    }

    fn latest_as_known_at(&self) -> (time: Option<UnixNanos>)
        ensures
            time == latest_known(self@.slots),
    {
        let ghost slots = slot_views(self.partitions@);
        let mut latest: Option<UnixNanos> = None;
        let mut i: usize = 0;
        while i < self.partitions.len()
            invariant
                i <= self.partitions.len(),
                slots == slot_views(self.partitions@),
                latest == latest_known(slots.take(i as int)),
            decreases self.partitions.len() - i,
        {
            proof {
                assert(slots.take(i + 1).drop_last() =~= slots.take(i as int));
                assert(slots.take(i + 1).last() == self.partitions@[i as int]@);
            }
            latest = match (latest, self.partitions[i].as_known_at) {
                (Some(current), Some(time)) => Some(current.max_of(time)),
                (None, time) => time,
                (before, None) => before,
            };
            i += 1;
        }
        proof {
            assert(slots.take(self.partitions.len() as int) =~= slots);
        }
        latest
    }

    fn evaluate(&self, window: TimeWindow) -> (state: Finalization)
        ensures
            state == evaluation(
                self@.slots,
                self@.lateness,
                self@.allowed_health,
                window.upper(),
            ),
    {
        if self.allowed_lateness.value() > i64::MAX as u64 {
            return Finalization::Invalid;
        }
        let lateness: i64 = self.allowed_lateness.value() as i64;
        let threshold: i64 = match window.end().value().checked_add(lateness) {
            None => {
                return Finalization::Invalid;
            },
            Some(threshold) => threshold,
        };
        let ghost slots = slot_views(self.partitions@);
        let mut complete: bool = true;
        let mut i: usize = 0;
        while i < self.partitions.len()
            invariant
                i <= self.partitions.len(),
                slots == slot_views(self.partitions@),
                threshold == window.upper() + self.allowed_lateness.nanos,
                forall|k: int|
                    0 <= k < i && (#[trigger] slots[k]).role == PartitionRole::Required
                        && slots[k].health is Some ==> self.allowed_health@.contains(
                        slots[k].health->Some_0,
                    ),
                complete == required_passed(slots.take(i as int), threshold as int),
            decreases self.partitions.len() - i,
        {
            let ghost was_complete = complete;
            proof {
                assert(slots[i as int] == self.partitions@[i as int]@);
            }
            if self.partitions[i].role == PartitionRole::Required {
                match (self.partitions[i].watermark, self.partitions[i].health) {
                    (_, Some(health)) if !holds_health(&self.allowed_health, health) => {
                        return Finalization::Invalid;
                    },
                    (Some(watermark), Some(_)) if watermark.value() >= threshold => {},
                    _ => {
                        complete = false;
                    },
                }
            }
            proof {
                let shorter = slots.take(i as int);
                let longer = slots.take(i + 1);
                assert(longer[i as int] == slots[i as int]);
                assert forall|k: int| 0 <= k < i implies longer[k] == shorter[k] by {
                }
                if was_complete && complete {
                    assert(required_passed(longer, threshold as int)) by {
                        assert forall|k: int|
                            0 <= k < longer.len() && (#[trigger] longer[k]).role
                                == PartitionRole::Required implies longer[k].health is Some
                            && longer[k].watermark is Some && longer[k].watermark->Some_0.nanos
                            >= threshold by {
                            if k < i {
                                assert(shorter[k].role == PartitionRole::Required);
                            }
                        }
                    }
                }
                if !was_complete {
                    let k = choose|k: int|
                        0 <= k < shorter.len() && (#[trigger] shorter[k]).role
                            == PartitionRole::Required && !(shorter[k].health is Some
                            && shorter[k].watermark is Some && shorter[k].watermark->Some_0.nanos
                            >= threshold);
                    assert(longer[k].role == PartitionRole::Required);
                }
            }
            i += 1;
        }
        proof {
            assert(slots.take(self.partitions.len() as int) =~= slots);
        }
        if complete {
            Finalization::Final
        } else {
            Finalization::Provisional
        }
    }
}

/// One fresh state per configured partition, in canonical order.
fn fresh_partitions(configs: Vec<PartitionConfig>) -> (partitions: Vec<PartitionState>)
    requires
        forall|i: int, j: int|
            0 <= i < j < configs@.len() ==> (#[trigger] configs@[i])@.0 != (
            #[trigger] configs@[j])@.0,
    ensures
        canonical_slots(slot_views(partitions@)),
        partitions@.len() == configs@.len(),
        forall|i: int|
            0 <= i < configs@.len() ==> slot_views(partitions@).contains(
                fresh_slot((#[trigger] configs@[i])@),
            ),
{
    let mut states: Vec<PartitionState> = Vec::new();
    let mut i: usize = 0;
    while i < configs.len()
        invariant
            i <= configs.len(),
            states@.len() == i,
            forall|k: int| 0 <= k < i ==> (#[trigger] states@[k])@ == fresh_slot(configs@[k]@),
        decreases configs.len() - i,
    {
        states.push(
            PartitionState {
                key: configs[i].key.clone(),
                role: configs[i].role,
                watermark: None,
                as_known_at: None,
                health: None,
            },
        );
        i += 1;
    }
    let ghost unsorted = states@;
    let partitions = sort_by_rank(states);
    proof {
        assert(distinct_ranks(unsorted)) by {
            assert forall|a: int, b: int| 0 <= a < b < unsorted.len() implies (
            #[trigger] unsorted[a].rank()) != (#[trigger] unsorted[b].rank()) by {
                lemma_key_rank_injective(unsorted[a]@.key, unsorted[b]@.key);
                assert(configs@[a]@.0 != configs@[b]@.0);
            }
        }
        lemma_sorted_distinct(unsorted, partitions@);
        let slots = slot_views(partitions@);
        assert forall|a: int, b: int| 0 <= a < b < slots.len() implies rank_precedes(
            key_rank((#[trigger] slots[a]).key),
            key_rank((#[trigger] slots[b]).key),
        ) by {
            assert(rank_precedes(partitions@[a].rank(), partitions@[b].rank()));
        }
        assert forall|k: int| 0 <= k < configs@.len() implies slots.contains(
            fresh_slot((#[trigger] configs@[k])@),
        ) by {
            assert(partitions@.contains(unsorted[k]));
            let at = partitions@.index_of(unsorted[k]);
            assert(slots[at] == unsorted[k]@);
        }
    }
    partitions
}

/// A final decision attests that every required partition had passed the window's end by the
/// allowed lateness, in tolerable health.
pub proof fn lemma_final_means_every_required_partition_passed(
    tracker: TrackerView,
    window: TimeWindow,
    i: int,
)
    requires
        tracker.decision(window).state == Finalization::Final,
        0 <= i < tracker.slots.len(),
        tracker.slots[i].role == PartitionRole::Required,
    ensures
        tracker.slots[i].watermark is Some,
        tracker.slots[i].watermark->Some_0.nanos >= window.upper() + tracker.lateness,
        tracker.slots[i].health is Some,
        tracker.allowed_health.contains(tracker.slots[i].health->Some_0),
{
    assert(tracker.slots[i].role == PartitionRole::Required);
}

/// A window that is final makes every window that ends no later final.
pub proof fn lemma_earlier_windows_are_final(
    tracker: TrackerView,
    window: TimeWindow,
    earlier: TimeWindow,
)
    requires
        tracker.decision(window).state == Finalization::Final,
        earlier.upper() <= window.upper(),
    ensures
        tracker.decision(earlier).state == Finalization::Final,
{
    assert(required_passed(tracker.slots, window.upper() + tracker.lateness));
    assert forall|i: int|
        0 <= i < tracker.slots.len() && (#[trigger] tracker.slots[i]).role
            == PartitionRole::Required implies tracker.slots[i].health is Some
        && tracker.slots[i].watermark is Some && tracker.slots[i].watermark->Some_0.nanos
        >= earlier.upper() + tracker.lateness by {
    }
}

/// A watermark never moves back: behind an accepted update every partition's watermark is at
/// least what it was.
pub proof fn lemma_watermarks_never_regress(
    tracker: TrackerView,
    key: KeyView,
    update: WatermarkUpdate,
    i: int,
)
    requires
        tracker.update_refusal(key, update) is None,
        0 <= i < tracker.slots.len(),
        tracker.slots[i].watermark is Some,
    ensures
        tracker.updated(key, update).slots[i].watermark is Some,
        tracker.updated(key, update).slots[i].watermark->Some_0.nanos
            >= tracker.slots[i].watermark->Some_0.nanos,
{
    lemma_slot_position_bounds(tracker.slots, key);
}

proof fn lemma_slot_position_bounds(
    slots: Seq<SlotView>,
    key: KeyView,
)
    ensures
        0 <= slot_position(slots, key) <= slots.len(),
        slot_position(slots, key) < slots.len() ==> slots[slot_position(slots, key)].key == key,
    decreases slots.len(),
{
    if slots.len() > 0 && slots[0].key != key {
        lemma_slot_position_bounds(slots.drop_first(), key);
    }
}

/// A window that is final stays final under every further update in tolerable health.
pub proof fn lemma_finality_survives_healthy_updates(
    tracker: TrackerView,
    window: TimeWindow,
    key: KeyView,
    update: WatermarkUpdate,
)
    requires
        tracker.decision(window).state == Finalization::Final,
        tracker.update_refusal(key, update) is None,
        tracker.allowed_health.contains(update.health),
    ensures
        tracker.updated(key, update).decision(window).state == Finalization::Final,
{
    lemma_slot_position_bounds(tracker.slots, key);
    let after = tracker.updated(key, update);
    let position = slot_position(tracker.slots, key);
    assert forall|i: int|
        0 <= i < after.slots.len() && (#[trigger] after.slots[i]).role
            == PartitionRole::Required implies after.slots[i].health is Some
        && after.slots[i].watermark is Some && after.slots[i].watermark->Some_0.nanos
        >= window.upper() + tracker.lateness && after.allowed_health.contains(
        after.slots[i].health->Some_0,
    ) by {
        assert(tracker.slots[i].role == PartitionRole::Required);
    }
    assert(!intolerable(after.slots, after.allowed_health));
}

/// A decision stops being valid with the next accepted update.
pub proof fn lemma_decisions_expire(
    tracker: TrackerView,
    window: TimeWindow,
    key: KeyView,
    update: WatermarkUpdate,
)
    requires
        tracker.update_refusal(key, update) is None,
    ensures
        tracker.vouches_for(tracker.decision(window)),
        !tracker.updated(key, update).vouches_for(tracker.decision(window)),
{
}

/// An accepted update keeps a tracker well formed, and its policy the same.
pub proof fn lemma_update_keeps_policy(
    tracker: TrackerView,
    key: KeyView,
    update: WatermarkUpdate,
)
    requires
        tracker.well_formed(),
        tracker.update_refusal(key, update) is None,
    ensures
        tracker.updated(key, update).well_formed(),
        tracker.updated(key, update).policy == tracker.policy,
{
    lemma_slot_position_bounds(tracker.slots, key);
    let after = tracker.updated(key, update);
    assert forall|i: int| 0 <= i < after.slots.len() implies (#[trigger] after.slots[i]).key
        == tracker.slots[i].key && after.slots[i].role == tracker.slots[i].role by {
    }
    let k = choose|k: int|
        0 <= k < tracker.slots.len() && (#[trigger] tracker.slots[k]).role
            == PartitionRole::Required;
    assert(after.slots[k].role == PartitionRole::Required);
    assert forall|i: int, j: int| 0 <= i < j < after.slots.len() implies rank_precedes(
        key_rank((#[trigger] after.slots[i]).key),
        key_rank((#[trigger] after.slots[j]).key),
    ) by {
        assert(rank_precedes(key_rank(tracker.slots[i].key), key_rank(tracker.slots[j].key)));
    }
    lemma_encoding_ignores_progress(tracker.slots, after.slots);
}

/// Progress enters neither the policy nor the required sources.
proof fn lemma_encoding_ignores_progress(a: Seq<SlotView>, b: Seq<SlotView>)
    requires
        a.len() == b.len(),
        forall|i: int|
            0 <= i < a.len() ==> (#[trigger] b[i]).key == a[i].key && b[i].role == a[i].role,
    ensures
        slots_encoding(a) == slots_encoding(b),
        required_sources(a) == required_sources(b),
    decreases a.len(),
{
    if a.len() > 0 {
        assert(b.last().key == a.last().key && b.last().role == a.last().role);
        assert forall|i: int| 0 <= i < a.drop_last().len() implies (#[trigger] b.drop_last()[i]).key
            == a.drop_last()[i].key && b.drop_last()[i].role == a.drop_last()[i].role by {
            assert(b.drop_last()[i] == b[i]);
        }
        lemma_encoding_ignores_progress(a.drop_last(), b.drop_last());
    }
}

/// In canonical order, each required source is listed once.
pub proof fn lemma_required_sources_are_distinct(slots: Seq<SlotView>)
    requires
        canonical_slots(slots),
    ensures
        required_sources(slots).no_duplicates(),
        required_sources(slots).len() <= slots.len(),
{
    lemma_required_sources_ordered(slots);
    let sources = required_sources(slots);
    assert forall|i: int, j: int|
        0 <= i < sources.len() && 0 <= j < sources.len() && i != j implies sources[i]
        != sources[j] by {
        if i < j {
            lemma_rank_irreflexive(source_rank(sources[i]));
        } else {
            lemma_rank_irreflexive(source_rank(sources[j]));
        }
    }
}

proof fn lemma_required_sources_ordered(slots: Seq<SlotView>)
    requires
        canonical_slots(slots),
    ensures
        required_sources(slots).len() <= slots.len(),
        required_sources(slots).len() > 0 ==> slots.len() > 0 && !rank_precedes(
            source_rank(slots.last().key.0),
            source_rank(required_sources(slots).last()),
        ),
        forall|i: int, j: int|
            0 <= i < j < required_sources(slots).len() ==> rank_precedes(
                source_rank(#[trigger] required_sources(slots)[i]),
                source_rank(#[trigger] required_sources(slots)[j]),
            ),
    decreases slots.len(),
{
    if slots.len() > 0 {
        let head = slots.drop_last();
        let last = slots.last();
        let before = required_sources(head);
        assert forall|i: int, j: int| 0 <= i < j < head.len() implies rank_precedes(
            key_rank((#[trigger] head[i]).key),
            key_rank((#[trigger] head[j]).key),
        ) by {
            assert(head[i] == slots[i] && head[j] == slots[j]);
        }
        lemma_required_sources_ordered(head);
        lemma_rank_irreflexive(source_rank(last.key.0));
        if before.len() > 0 {
            assert(head.last() == slots[slots.len() - 2]);
            assert(rank_precedes(
                key_rank(slots[slots.len() - 2].key),
                key_rank(slots[slots.len() - 1].key),
            ));
            lemma_source_order_of_keys(head.last().key, last.key);
            crate::ordering::lemma_rank_not_after_transitive(
                source_rank(before.last()),
                source_rank(head.last().key.0),
                source_rank(last.key.0),
            );
            lemma_rank_order_is_total(source_rank(before.last()), source_rank(last.key.0));
            lemma_source_rank_injective(before.last(), last.key.0);
            let sources = required_sources(slots);
            assert forall|i: int, j: int| 0 <= i < j < sources.len() implies rank_precedes(
                source_rank(#[trigger] sources[i]),
                source_rank(#[trigger] sources[j]),
            ) by {
                if j == before.len() && i < before.len() - 1 {
                    lemma_rank_transitive(
                        source_rank(sources[i]),
                        source_rank(before.last()),
                        source_rank(last.key.0),
                    );
                }
            }
        }
    }
}

/// Keys in order have their sources in order.
proof fn lemma_source_order_of_keys(
    a: KeyView,
    b: KeyView,
)
    requires
        rank_precedes(key_rank(a), key_rank(b)),
    ensures
        !rank_precedes(source_rank(b.0), source_rank(a.0)),
{
    lemma_key_rank_fields(a, b);
    lemma_rank_fields(
        b.0.0.spec_code() as int,
        b.0.1,
        source_tail(b.0),
        a.0.0.spec_code() as int,
        a.0.1,
        source_tail(a.0),
    );
    lemma_source_tail(b.0, a.0);
    lemma_rank_order_is_total(byte_rank(utf8(a.0.1)), byte_rank(utf8(b.0.1)));
    lemma_rank_order_is_total(byte_rank(utf8(a.0.3)), byte_rank(utf8(b.0.3)));
}

/// A well-formed tracker can always state the coverage of its own current decision.
pub proof fn lemma_coverage_is_always_available(tracker: TrackerView)
    requires
        tracker.well_formed(),
    ensures
        ({
            let expected = required_sources(tracker.slots);
            let reported = reported_sources(tracker.slots, expected);
            coverage_refusal(expected, Seq::new(reported.len(), |i: int| reported[i].0)) is None
        }),
{
    let slots = tracker.slots;
    let expected = required_sources(slots);
    let reported = reported_sources(slots, expected);
    let observed = Seq::new(reported.len(), |i: int| reported[i].0);
    lemma_required_sources_are_distinct(slots);
    lemma_required_sources_not_empty(slots);
    lemma_reported_among(slots, expected);
    assert(observed.no_duplicates());
}

proof fn lemma_required_sources_not_empty(slots: Seq<SlotView>)
    requires
        some_required(slots),
    ensures
        required_sources(slots).len() > 0,
    decreases slots.len(),
{
    let k = choose|k: int|
        0 <= k < slots.len() && (#[trigger] slots[k]).role == PartitionRole::Required;
    if k < slots.len() - 1 {
        assert(slots.drop_last()[k].role == PartitionRole::Required);
        lemma_required_sources_not_empty(slots.drop_last());
    }
}

proof fn lemma_reported_among(slots: Seq<SlotView>, sources: Seq<SourceView>)
    requires
        sources.no_duplicates(),
    ensures
        forall|i: int|
            0 <= i < reported_sources(slots, sources).len() ==> sources.contains(
                (#[trigger] reported_sources(slots, sources)[i]).0,
            ),
        forall|i: int, j: int|
            0 <= i < j < reported_sources(slots, sources).len() ==> (
            #[trigger] reported_sources(slots, sources)[i]).0 != (
            #[trigger] reported_sources(slots, sources)[j]).0,
    decreases sources.len(),
{
    if sources.len() > 0 {
        let head = sources.drop_last();
        lemma_reported_among(slots, head);
        let before = reported_sources(slots, head);
        let all = reported_sources(slots, sources);
        assert forall|i: int| 0 <= i < all.len() implies sources.contains((#[trigger] all[i]).0) by {
            if i < before.len() {
                assert(head.contains(before[i].0));
                let at = head.index_of(before[i].0);
                assert(sources[at] == before[i].0);
            } else {
                assert(sources[sources.len() - 1] == all[i].0);
            }
        }
        assert forall|i: int, j: int| 0 <= i < j < all.len() implies (#[trigger] all[i]).0 != (
        #[trigger] all[j]).0 by {
            if j == before.len() {
                assert(head.contains(before[i].0));
                let at = head.index_of(before[i].0);
                assert(sources[at] == before[i].0);
                assert(sources[sources.len() - 1] == all[j].0);
            }
        }
    }
}

/// The order in which partitions are configured does not matter: the same partitions make the
/// same policy.
pub proof fn lemma_policy_ignores_configuration_order(
    a: TrackerView,
    b: TrackerView,
    configs: Seq<PartitionConfig>,
    permuted: Seq<PartitionConfig>,
    lateness: DurationNanos,
    health: Seq<SourceHealthState>,
    entity: Option<Seq<u8>>,
)
    requires
        fresh_tracker(a, configs, lateness, health, entity),
        fresh_tracker(b, permuted, lateness, health, entity),
        tracker_refusal(configs, lateness, health) is None,
        configs.len() == permuted.len(),
        forall|i: int|
            0 <= i < configs.len() ==> exists|j: int|
                0 <= j < permuted.len() && (#[trigger] permuted[j])@ == (#[trigger] configs[i])@,
    ensures
        a == b,
{
    assert(sorted_by_rank(b.allowed_health)) by {
        assert forall|i: int, j: int| 0 <= i < j < b.allowed_health.len() implies !rank_precedes(
            #[trigger] b.allowed_health[j].rank(),
            #[trigger] b.allowed_health[i].rank(),
        ) by {
            lemma_rank_order_is_total(b.allowed_health[i].rank(), b.allowed_health[j].rank());
        }
    }
    crate::ordering::lemma_sorted_arrangement_is_unique(a.allowed_health, b.allowed_health);
    assert forall|x: SlotView| a.slots.contains(x) implies b.slots.contains(x) by {
        lemma_slot_is_configured(a, configs, x);
        let i = choose|i: int| 0 <= i < configs.len() && fresh_slot((#[trigger] configs[i])@) == x;
        let j = choose|j: int|
            0 <= j < permuted.len() && (#[trigger] permuted[j])@ == configs[i]@;
        assert(b.slots.contains(fresh_slot(permuted[j]@)));
    }
    lemma_canonical_slots_unique(a.slots, b.slots);
}

/// Every partition of a fresh tracker was configured.
proof fn lemma_slot_is_configured(tracker: TrackerView, configs: Seq<PartitionConfig>, x: SlotView)
    requires
        canonical_slots(tracker.slots),
        tracker.slots.len() == configs.len(),
        forall|i: int|
            0 <= i < configs.len() ==> tracker.slots.contains(fresh_slot((#[trigger] configs[i])@)),
        forall|i: int, j: int|
            0 <= i < j < configs.len() ==> (#[trigger] configs[i])@.0 != (#[trigger] configs[j])@.0,
        tracker.slots.contains(x),
    ensures
        exists|i: int| 0 <= i < configs.len() && fresh_slot((#[trigger] configs[i])@) == x,
{
    let images = Seq::new(configs.len(), |i: int| fresh_slot(configs[i]@));
    assert(images.no_duplicates()) by {
        assert forall|i: int, j: int|
            0 <= i < images.len() && 0 <= j < images.len() && i != j implies images[i]
            != images[j] by {
            if i < j {
                assert(configs[i]@.0 != configs[j]@.0);
            } else {
                assert(configs[j]@.0 != configs[i]@.0);
            }
        }
    }
    assert(tracker.slots.no_duplicates()) by {
        assert forall|i: int, j: int|
            0 <= i < tracker.slots.len() && 0 <= j < tracker.slots.len() && i
                != j implies tracker.slots[i] != tracker.slots[j] by {
            lemma_rank_irreflexive(key_rank(tracker.slots[i].key));
            if i < j {
                assert(rank_precedes(key_rank(tracker.slots[i].key), key_rank(tracker.slots[j].key)));
            } else {
                assert(rank_precedes(key_rank(tracker.slots[j].key), key_rank(tracker.slots[i].key)));
            }
        }
    }
    images.unique_seq_to_set();
    tracker.slots.unique_seq_to_set();
    assert(images.to_set().subset_of(tracker.slots.to_set())) by {
        assert forall|y: SlotView| images.to_set().contains(y) implies #[trigger] tracker.slots.to_set().contains(
            y,
        ) by {
            let i = images.index_of(y);
            assert(images.contains(y));
            assert(y == fresh_slot(configs[i]@));
        }
    }
    vstd::set_lib::lemma_subset_equality(images.to_set(), tracker.slots.to_set());
    assert(images.to_set().contains(x));
    assert(images.contains(x));
    let i = images.index_of(x);
    assert(fresh_slot(configs[i]@) == x);
}

proof fn lemma_canonical_slots_unique(a: Seq<SlotView>, b: Seq<SlotView>)
    requires
        canonical_slots(a),
        canonical_slots(b),
        a.len() == b.len(),
        forall|x: SlotView| a.contains(x) ==> b.contains(x),
    ensures
        a == b,
    decreases a.len(),
{
    if a.len() == 0 {
        assert(a =~= b);
    } else {
        let n = a.len() - 1;
        let x = a[n];
        assert(a.contains(x));
        let j = b.index_of(x);
        assert(b[j] == x);
        // Every element of `a` but `x` comes before `x`, so it stands before position `j` in `b`.
        if j < n {
            let head = a.drop_last();
            let image = b.take(j);
            assert(head.no_duplicates()) by {
                assert forall|p: int, q: int|
                    0 <= p < head.len() && 0 <= q < head.len() && p != q implies head[p]
                    != head[q] by {
                    lemma_rank_irreflexive(key_rank(head[p].key));
                    if p < q {
                        assert(rank_precedes(key_rank(a[p].key), key_rank(a[q].key)));
                    } else {
                        assert(rank_precedes(key_rank(a[q].key), key_rank(a[p].key)));
                    }
                }
            }
            assert(forall|p: int| 0 <= p < head.len() ==> image.contains(#[trigger] head[p])) by {
                assert forall|p: int| 0 <= p < head.len() implies image.contains(
                    #[trigger] head[p],
                ) by {
                    assert(a.contains(a[p]));
                    let q = b.index_of(a[p]);
                    assert(rank_precedes(key_rank(a[p].key), key_rank(a[n].key)));
                    lemma_rank_order_is_total(key_rank(a[p].key), key_rank(a[n].key));
                    if q > j {
                        assert(rank_precedes(key_rank(b[j].key), key_rank(b[q].key)));
                    }
                    lemma_rank_irreflexive(key_rank(x.key));
                    assert(q < j);
                    assert(image[q] == a[p]);
                }
            }
            head.unique_seq_to_set();
            assert(head.to_set().subset_of(image.to_set())) by {
                assert forall|y: SlotView| head.to_set().contains(y) implies #[trigger] image.to_set().contains(
                    y,
                ) by {
                    assert(head.contains(y));
                    let p = head.index_of(y);
                    assert(image.contains(head[p]));
                }
            }
            image.lemma_cardinality_of_set();
            vstd::set_lib::lemma_len_subset(head.to_set(), image.to_set());
            assert(false);
        }
        let ha = a.drop_last();
        let hb = b.drop_last();
        assert forall|p: int, q: int| 0 <= p < q < ha.len() implies rank_precedes(
            key_rank((#[trigger] ha[p]).key),
            key_rank((#[trigger] ha[q]).key),
        ) by {
            assert(ha[p] == a[p] && ha[q] == a[q]);
        }
        assert forall|p: int, q: int| 0 <= p < q < hb.len() implies rank_precedes(
            key_rank((#[trigger] hb[p]).key),
            key_rank((#[trigger] hb[q]).key),
        ) by {
            assert(hb[p] == b[p] && hb[q] == b[q]);
        }
        assert forall|y: SlotView| ha.contains(y) implies hb.contains(y) by {
            let p = ha.index_of(y);
            assert(a.contains(a[p]));
            let q = b.index_of(a[p]);
            lemma_rank_irreflexive(key_rank(x.key));
            assert(rank_precedes(key_rank(a[p].key), key_rank(a[n].key)));
            assert(q != n);
            assert(hb[q] == y);
        }
        lemma_canonical_slots_unique(ha, hb);
        assert(a =~= ha.push(x));
        assert(b =~= hb.push(x));
    }
}

/// A window is final just where every required partition has reported tolerable health and a
/// watermark that lies behind the window's end by the lateness or more. A required partition in
/// intolerable health makes it invalid, whatever the others report, and optional ones do not count.
pub proof fn lemma_finality_rests_on_the_required_partitions(
    tracker: TrackerView,
    window: TimeWindow,
)
    requires
        tracker.lateness <= i64::MAX,
        window.upper() + tracker.lateness <= i64::MAX,
    ensures
        ({
            let slots = tracker.slots;
            let state = tracker.decision(window).state;
            &&& state == Finalization::Invalid <==> exists|i: int|
                0 <= i < slots.len() && (#[trigger] slots[i]).role == PartitionRole::Required
                    && slots[i].health is Some && !tracker.allowed_health.contains(
                    slots[i].health->Some_0,
                )
            &&& state == Finalization::Final <==> forall|i: int|
                0 <= i < slots.len() && (#[trigger] slots[i]).role == PartitionRole::Required ==> {
                    &&& slots[i].health is Some
                    &&& tracker.allowed_health.contains(slots[i].health->Some_0)
                    &&& slots[i].watermark is Some
                    &&& slots[i].watermark->Some_0.nanos - tracker.lateness >= window.upper()
                }
        }),
{
    let slots = tracker.slots;
    if tracker.decision(window).state == Finalization::Final {
        assert forall|i: int|
            0 <= i < slots.len() && (#[trigger] slots[i]).role
                == PartitionRole::Required implies slots[i].health is Some
            && tracker.allowed_health.contains(slots[i].health->Some_0) && slots[i].watermark is Some
            && slots[i].watermark->Some_0.nanos - tracker.lateness >= window.upper() by {
            lemma_final_means_every_required_partition_passed(tracker, window, i);
        }
    }
}

/// The watermark of required partitions is the lowest of theirs: none of them lies before it, and one
/// of them has it.
pub proof fn lemma_the_required_watermark_is_the_lowest(slots: Seq<SlotView>)
    ensures
        match least_mark(slots) {
            Some(mark) => {
                &&& forall|i: int|
                    0 <= i < slots.len() && (#[trigger] slots[i]).role == PartitionRole::Required
                        && slots[i].watermark is Some ==> mark.nanos
                        <= slots[i].watermark->Some_0.nanos
                &&& exists|i: int|
                    0 <= i < slots.len() && (#[trigger] slots[i]).role == PartitionRole::Required
                        && slots[i].watermark == Some(mark)
            },
            None => forall|i: int|
                0 <= i < slots.len() && (#[trigger] slots[i]).role == PartitionRole::Required
                    ==> slots[i].watermark is None,
        },
        required_watermark(slots) is Some ==> required_watermark(slots) == least_mark(slots)
            && forall|i: int|
            0 <= i < slots.len() && (#[trigger] slots[i]).role == PartitionRole::Required
                ==> slots[i].watermark is Some,
    decreases slots.len(),
{
    if slots.len() > 0 {
        let rest = slots.drop_last();
        let last = slots.len() - 1;
        lemma_the_required_watermark_is_the_lowest(rest);
        assert(slots[last] == slots.last());
        assert forall|i: int| 0 <= i < last implies (#[trigger] slots[i]) == rest[i] by {}
        if least_mark(rest) is Some {
            let i = choose|i: int|
                0 <= i < rest.len() && (#[trigger] rest[i]).role == PartitionRole::Required
                    && rest[i].watermark == least_mark(rest);
            assert(slots[i].watermark == least_mark(rest) && slots[i].role
                == PartitionRole::Required);
        }
    }
}

/// A decision is known when the last progress was, and never before its window ends.
pub proof fn lemma_decisions_are_known_with_the_last_progress(
    tracker: TrackerView,
    window: TimeWindow,
)
    ensures
        ({
            let known = tracker.decision(window).as_known_at.nanos;
            &&& known >= window.upper()
            &&& forall|i: int|
                0 <= i < tracker.slots.len() && (#[trigger] tracker.slots[i]).as_known_at is Some
                    ==> tracker.slots[i].as_known_at->Some_0.nanos <= known
            &&& known == window.upper() || exists|i: int|
                0 <= i < tracker.slots.len() && (#[trigger] tracker.slots[i]).as_known_at is Some
                    && tracker.slots[i].as_known_at->Some_0.nanos == known
        }),
        tracker.decision(window).window == window,
        tracker.decision(window).watermark == required_watermark(tracker.slots),
        tracker.decision(window).entity == tracker.entity,
        tracker.decision(window).policy == tracker.policy,
        tracker.decision(window).sequence == tracker.sequence,
        tracker.decision(window).required_count == tracker.required_count,
        tracker.decision(window).required_digest == tracker.required_digest,
{
    lemma_latest_known_is_latest(tracker.slots);
}

proof fn lemma_latest_known_is_latest(slots: Seq<SlotView>)
    ensures
        match latest_known(slots) {
            Some(time) => {
                &&& forall|i: int|
                    0 <= i < slots.len() && (#[trigger] slots[i]).as_known_at is Some
                        ==> slots[i].as_known_at->Some_0.nanos <= time.nanos
                &&& exists|i: int|
                    0 <= i < slots.len() && (#[trigger] slots[i]).as_known_at == Some(time)
            },
            None => forall|i: int|
                0 <= i < slots.len() ==> (#[trigger] slots[i]).as_known_at is None,
        },
    decreases slots.len(),
{
    if slots.len() > 0 {
        let rest = slots.drop_last();
        let last = slots.len() - 1;
        lemma_latest_known_is_latest(rest);
        assert(slots[last] == slots.last());
        assert forall|i: int| 0 <= i < last implies (#[trigger] slots[i]) == rest[i] by {}
        if latest_known(rest) is Some {
            let i = choose|i: int|
                0 <= i < rest.len() && (#[trigger] rest[i]).as_known_at == latest_known(rest);
            assert(slots[i].as_known_at == latest_known(rest));
        }
    }
}

/// The frontier lies behind the lowest required watermark by the lateness, but never before the
/// epoch. So a window that ends at the frontier is final, where the watermarks reach so far.
pub proof fn lemma_the_frontier_trails_the_lowest_watermark(tracker: TrackerView, window: TimeWindow)
    requires
        frontier(tracker.slots, tracker.lateness, tracker.allowed_health) is Some,
    ensures
        ({
            let reached = frontier(
                tracker.slots,
                tracker.lateness,
                tracker.allowed_health,
            )->Some_0.nanos;
            let mark = least_mark(tracker.slots);
            &&& mark is Some
            &&& reached >= 0
            &&& reached == 0 || reached + tracker.lateness == mark->Some_0.nanos
            &&& mark->Some_0.nanos - tracker.lateness <= reached
            &&& 0 < window.upper() <= reached ==> tracker.decision(window).state
                == Finalization::Final
        }),
{
    let slots = tracker.slots;
    lemma_the_required_watermark_is_the_lowest(slots);
    let reached = frontier(slots, tracker.lateness, tracker.allowed_health)->Some_0.nanos;
    if 0 < window.upper() <= reached {
        assert forall|i: int|
            0 <= i < slots.len() && (#[trigger] slots[i]).role
                == PartitionRole::Required implies slots[i].health is Some
            && slots[i].watermark is Some && slots[i].watermark->Some_0.nanos >= window.upper()
            + tracker.lateness by {}
    }
}

/// A source is as healthy as the worst of its required partitions: healthy is better than
/// recovering, which is better than degraded, unhealthy and quarantined, in that order.
pub proof fn lemma_sources_are_as_healthy_as_their_worst_partition(
    slots: Seq<SlotView>,
    source: SourceView,
)
    ensures
        match worst_health(slots, source) {
            Some(health) => {
                &&& forall|i: int|
                    0 <= i < slots.len() && (#[trigger] slots[i]).role == PartitionRole::Required
                        && slots[i].key.0 == source && slots[i].health is Some ==> no_better(
                        health,
                        slots[i].health->Some_0,
                    )
                &&& exists|i: int|
                    0 <= i < slots.len() && (#[trigger] slots[i]).role == PartitionRole::Required
                        && slots[i].key.0 == source && slots[i].health == Some(health)
            },
            None => forall|i: int|
                0 <= i < slots.len() && (#[trigger] slots[i]).role == PartitionRole::Required
                    && slots[i].key.0 == source ==> slots[i].health is None,
        },
    decreases slots.len(),
{
    if slots.len() > 0 {
        let rest = slots.drop_last();
        let last = slots.len() - 1;
        lemma_sources_are_as_healthy_as_their_worst_partition(rest, source);
        assert(slots[last] == slots.last());
        assert forall|i: int| 0 <= i < last implies (#[trigger] slots[i]) == rest[i] by {}
        if worst_health(rest, source) is Some {
            let i = choose|i: int|
                0 <= i < rest.len() && (#[trigger] rest[i]).role == PartitionRole::Required
                    && rest[i].key.0 == source && rest[i].health == worst_health(rest, source);
            assert(slots[i].health == worst_health(rest, source) && slots[i].role
                == PartitionRole::Required && slots[i].key.0 == source);
        }
    }
}

/// One health state is no better than another.
pub open spec fn no_better(health: SourceHealthState, other: SourceHealthState) -> bool {
    match other {
        SourceHealthState::Healthy => true,
        SourceHealthState::Recovering => health != SourceHealthState::Healthy,
        SourceHealthState::Degraded => health != SourceHealthState::Healthy && health
            != SourceHealthState::Recovering,
        SourceHealthState::Unhealthy => health == SourceHealthState::Unhealthy || health
            == SourceHealthState::Quarantined,
        SourceHealthState::Quarantined => health == SourceHealthState::Quarantined,
    }
}

/// An accepted update moves one partition to what it reports and leaves every other as it was. Time
/// runs forward in it: neither its watermark nor its knowledge falls back, and it is never known
/// before it happened.
pub proof fn lemma_updates_move_one_partition_forward(
    tracker: TrackerView,
    key: KeyView,
    update: WatermarkUpdate,
)
    requires
        tracker.update_refusal(key, update) is None,
    ensures
        ({
            let after = tracker.updated(key, update);
            let position = slot_position(tracker.slots, key);
            let slot = tracker.slots[position];
            let moved = after.slots[position];
            &&& 0 <= position < tracker.slots.len()
            &&& slot.key == key && moved.key == key && moved.role == slot.role
            &&& moved.watermark == Some(update.event_time)
            &&& moved.as_known_at == Some(update.as_known_at)
            &&& moved.health == Some(update.health)
            &&& 0 < update.event_time.nanos <= update.as_known_at.nanos
            &&& slot.watermark is Some ==> slot.watermark->Some_0.nanos <= update.event_time.nanos
            &&& slot.as_known_at is Some ==> slot.as_known_at->Some_0.nanos
                <= update.as_known_at.nanos
            &&& after.slots.len() == tracker.slots.len()
            &&& forall|i: int|
                0 <= i < tracker.slots.len() && i != position ==> (#[trigger] after.slots[i])
                    == tracker.slots[i]
            &&& after.sequence == tracker.sequence + 1
            &&& after.lateness == tracker.lateness && after.allowed_health
                == tracker.allowed_health && after.entity == tracker.entity
        }),
{
    lemma_slot_position_bounds(tracker.slots, key);
}

/// A correction is accepted only of a time inside a window that is final, from a known partition in
/// tolerable health.
pub proof fn lemma_corrections_are_of_final_windows(
    tracker: TrackerView,
    key: KeyView,
    window: TimeWindow,
    corrected: UnixNanos,
)
    requires
        tracker.correction_refusal(key, window, corrected) is None,
    ensures
        window.lower() <= corrected.nanos < window.upper(),
        tracker.decision(window).state == Finalization::Final,
        exists|i: int|
            0 <= i < tracker.slots.len() && (#[trigger] tracker.slots[i]).key == key
                && tracker.slots[i].health is Some && tracker.allowed_health.contains(
                tracker.slots[i].health->Some_0,
            ),
        tracker.sequence < u64::MAX,
{
    lemma_slot_position_bounds(tracker.slots, key);
    let position = slot_position(tracker.slots, key);
    assert(tracker.slots[position].key == key);
}

/// The sources of a decision's coverage are those of required partitions, and each reported one has
/// heard from all of its own, with the health of the worst of them.
pub proof fn lemma_coverage_is_of_the_required_sources(
    tracker: TrackerView,
    decision: DecisionView,
    i: int,
)
    requires
        decision_coverage(tracker, decision) is Some,
        0 <= i < decision_coverage(tracker, decision)->Some_0.1.len(),
    ensures
        ({
            let (expected, reported) = decision_coverage(tracker, decision)->Some_0;
            &&& expected == required_sources(tracker.slots)
            &&& expected.contains(reported[i].0)
            &&& Some(reported[i].1) == worst_health(tracker.slots, reported[i].0)
            &&& forall|k: int|
                0 <= k < tracker.slots.len() && (#[trigger] tracker.slots[k]).role
                    == PartitionRole::Required && tracker.slots[k].key.0 == reported[i].0
                    ==> tracker.slots[k].health is Some
        }),
        tracker.vouches_for(decision),
{
    lemma_reported_entry(tracker.slots, required_sources(tracker.slots), i);
}

proof fn lemma_reported_entry(slots: Seq<SlotView>, sources: Seq<SourceView>, i: int)
    requires
        0 <= i < reported_sources(slots, sources).len(),
    ensures
        sources.contains(reported_sources(slots, sources)[i].0),
        Some(reported_sources(slots, sources)[i].1) == worst_health(
            slots,
            reported_sources(slots, sources)[i].0,
        ),
        fully_reported(slots, reported_sources(slots, sources)[i].0),
    decreases sources.len(),
{
    if sources.len() > 0 {
        let rest = sources.drop_last();
        let before = reported_sources(slots, rest);
        if i < before.len() {
            lemma_reported_entry(slots, rest, i);
            let at = rest.index_of(before[i].0);
            assert(sources[at] == before[i].0);
        } else {
            assert(sources[sources.len() - 1] == sources.last());
        }
    }
}

} // verus!
