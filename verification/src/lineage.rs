//! Canonical lineage identity of materialized feature observations.

use vstd::prelude::*;

use crate::digest::{
    blake3_digest, blake3_hash, is_zero_digest, labelled, put_byte, put_bytes, utf8, zero_digest,
};
use crate::ordering::{
    digest_views, distinct_digests, lemma_distinct_digest_views, lemma_distinct_ranks_rearranged,
    lemma_sorted_arrangement_is_unique,
    lemma_sorted_distinct, lemma_stably_sorted, sort_stably, stably_sorted,
};
use crate::registry::{
    is_release, parsed_parts, version_ascii, FeatureVersion, ParsedVersion,
};
use crate::wire::{byte_list, digest_list, item_views, json_list, put_list};

verus! {

/// Most events that one observation can rest on.
pub const MAX_INPUT_EVENT_HASHES: usize = 4_096;

/// Fail-closed lineage construction error.
#[derive(Clone, Copy, Debug, PartialEq, Eq, Structural)]
pub enum LineageError {
    /// Feature lineage input is invalid or exceeds its bound.
    InvalidInput,
    /// Feature lineage contains a duplicate input event.
    DuplicateInputEvent,
    /// Feature lineage could not be serialized canonically.
    Serialization,
}

/// What one feature lineage rests on. The source coverage is given in its canonical JSON text.
#[derive(Debug)]
pub struct FeatureLineageInput {
    pub feature_id: String,
    pub feature_version: ParsedVersion,
    pub formula_hash: [u8; 32],
    pub input_event_hashes: Vec<[u8; 32]>,
    pub source_coverage_json: Vec<u8>,
    pub code_commit: String,
}

/// The contents of a [`FeatureLineage`].
pub struct LineageView {
    pub feature_id: Seq<char>,
    pub feature_version: FeatureVersion,
    pub formula_hash: Seq<u8>,
    pub input_event_hashes: Seq<Seq<u8>>,
    pub source_coverage_hash: Seq<u8>,
    pub code_commit: Seq<char>,
}

/// Canonically ordered, caller-independent feature lineage.
#[derive(Debug)]
pub struct FeatureLineage {
    feature_id: String,
    feature_version: FeatureVersion,
    formula_hash: [u8; 32],
    input_event_hashes: Vec<[u8; 32]>,
    source_coverage_hash: [u8; 32],
    code_commit: String,
}

impl View for FeatureLineage {
    type V = LineageView;

    closed spec fn view(&self) -> LineageView {
        LineageView {
            feature_id: self.feature_id@,
            feature_version: self.feature_version,
            formula_hash: self.formula_hash@,
            input_event_hashes: digest_views(self.input_event_hashes@),
            source_coverage_hash: self.source_coverage_hash@,
            code_commit: self.code_commit@,
        }
    }
}

/// A digest of a source coverage's JSON text.
pub open spec fn coverage_hash_of(json: Seq<u8>) -> Seq<u8> {
    blake3_digest(utf8("cmti:feature-source-coverage:v1"@) + seq![0u8] + json)
}

/// Why a version and events make no lineage, if they make none.
pub open spec fn lineage_refusal(
    version: Option<(u64, u64, u64, Seq<char>, Seq<char>)>,
    hashes: Seq<Seq<u8>>,
) -> Option<LineageError> {
    if !is_release(version) || hashes.len() == 0 || hashes.len() > MAX_INPUT_EVENT_HASHES
        || hashes.contains(zero_digest()) {
        Some(LineageError::InvalidInput)
    } else if !hashes.no_duplicates() {
        Some(LineageError::DuplicateInputEvent)
    } else {
        None
    }
}

/// The lineage of an input, or why it has none.
pub open spec fn lineage_of(input: FeatureLineageInput) -> Result<LineageView, LineageError> {
    let hashes = input.input_event_hashes@;
    match lineage_refusal(parsed_parts(Some(input.feature_version)), digest_views(hashes)) {
        Some(error) => Err(error),
        None => Ok(
            LineageView {
                feature_id: input.feature_id@,
                feature_version: input.feature_version.release,
                formula_hash: input.formula_hash@,
                input_event_hashes: digest_views(stably_sorted(hashes)),
                source_coverage_hash: coverage_hash_of(input.source_coverage_json@),
                code_commit: input.code_commit@,
            },
        ),
    }
}

fn holds_zero(hashes: &Vec<[u8; 32]>) -> (answer: bool)
    ensures
        answer == digest_views(hashes@).contains(zero_digest()),
{
    let ghost views = digest_views(hashes@);
    let mut i: usize = 0;
    while i < hashes.len()
        invariant
            i <= hashes@.len(),
            views == digest_views(hashes@),
            forall|k: int| 0 <= k < i ==> #[trigger] views[k] != zero_digest(),
        decreases hashes.len() - i,
    {
        proof {
            assert(views[i as int] == hashes@[i as int]@);
        }
        if is_zero_digest(&hashes[i]) {
            return true;
        }
        i += 1;
    }
    false
}

fn copy_hashes(hashes: &Vec<[u8; 32]>) -> (copy: Vec<[u8; 32]>)
    ensures
        copy@ == hashes@,
{
    let mut copy: Vec<[u8; 32]> = Vec::new();
    let mut i: usize = 0;
    while i < hashes.len()
        invariant
            i <= hashes@.len(),
            copy@ == hashes@.take(i as int),
        decreases hashes.len() - i,
    {
        copy.push(hashes[i]);
        proof {
            assert(copy@ =~= hashes@.take(i + 1));
        }
        i += 1;
    }
    proof {
        assert(copy@ =~= hashes@);
    }
    copy
}

impl FeatureLineage {
    pub fn try_new(input: FeatureLineageInput) -> (result: Result<Self, LineageError>)
        ensures
            match lineage_of(input) {
                Err(error) => result is Err && result->Err_0 == error,
                Ok(lineage) => result is Ok && result->Ok_0@ == lineage,
            },
    {
        let version = &input.feature_version;
        if version.release.major == 0 || !version.pre_release.as_str().is_empty()
            || !version.build.as_str().is_empty() || input.input_event_hashes.len() == 0
            || input.input_event_hashes.len() > MAX_INPUT_EVENT_HASHES || holds_zero(
            &input.input_event_hashes,
        ) {
            return Err(LineageError::InvalidInput);
        }
        if !distinct_digests(copy_hashes(&input.input_event_hashes)) {
            return Err(LineageError::DuplicateInputEvent);
        }
        let mut buffer = labelled("cmti:feature-source-coverage:v1");
        put_byte(&mut buffer, 0);
        put_bytes(&mut buffer, input.source_coverage_json.as_slice());
        let feature_version = input.feature_version.release;
        Ok(
            FeatureLineage {
                feature_id: input.feature_id,
                feature_version,
                formula_hash: input.formula_hash,
                input_event_hashes: sort_stably(input.input_event_hashes),
                source_coverage_hash: blake3_hash(buffer.as_slice()),
                code_commit: input.code_commit,
            },
        )
    }

    pub fn feature_id(&self) -> (id: &str)
        ensures
            id@ == self@.feature_id,
    {
        self.feature_id.as_str()
    }

    pub fn feature_version(&self) -> (version: FeatureVersion)
        ensures
            version == self@.feature_version,
    {
        self.feature_version
    }

    pub fn formula_hash(&self) -> (digest: [u8; 32])
        ensures
            digest@ == self@.formula_hash,
    {
        self.formula_hash
    }

    pub fn input_event_hashes(&self) -> (hashes: &Vec<[u8; 32]>)
        ensures
            digest_views(hashes@) == self@.input_event_hashes,
    {
        &self.input_event_hashes
    }

    pub fn source_coverage_hash(&self) -> (digest: [u8; 32])
        ensures
            digest@ == self@.source_coverage_hash,
    {
        self.source_coverage_hash
    }

    pub fn code_commit(&self) -> (commit: &str)
        ensures
            commit@ == self@.code_commit,
    {
        self.code_commit.as_str()
    }

    /// The lineage's own digest, over its canonical JSON text. The texts of the feature, of the
    /// formula hash and of the code revision are as the registry of identities encodes them.
    pub fn digest(
        &self,
        feature_id_json: &[u8],
        formula_hash_json: &[u8],
        code_commit_json: &[u8],
    ) -> (digest: [u8; 32])
        ensures
            digest@ == lineage_digest_of(
                lineage_json(self@, feature_id_json@, formula_hash_json@, code_commit_json@),
            ),
    {
        let mut buffer = labelled("cmti:feature-lineage:v1");
        put_byte(&mut buffer, 0);
        let ghost head = buffer@;
        put_bytes(&mut buffer, "{\"feature_id\":".as_bytes());
        put_bytes(&mut buffer, feature_id_json);
        put_bytes(&mut buffer, ",\"feature_version\":\"".as_bytes());
        let version = self.feature_version.text();
        put_bytes(&mut buffer, version.as_str().as_bytes());
        put_bytes(&mut buffer, "\",\"formula_hash\":".as_bytes());
        put_bytes(&mut buffer, formula_hash_json);
        put_bytes(&mut buffer, ",\"input_event_hashes\":".as_bytes());
        let events = self.event_lists();
        put_list(&mut buffer, &events);
        put_bytes(&mut buffer, ",\"source_coverage_hash\":".as_bytes());
        let coverage = digest_list(&self.source_coverage_hash);
        put_bytes(&mut buffer, coverage.as_slice());
        put_bytes(&mut buffer, ",\"code_commit\":".as_bytes());
        put_bytes(&mut buffer, code_commit_json);
        put_bytes(&mut buffer, "}".as_bytes());
        proof {
            assert(buffer@ =~= head + lineage_json(
                self@,
                feature_id_json@,
                formula_hash_json@,
                code_commit_json@,
            ));
        }
        blake3_hash(buffer.as_slice())
    }

    fn event_lists(&self) -> (lists: Vec<Vec<u8>>)
        ensures
            item_views(lists@) == byte_lists(self@.input_event_hashes),
    {
        let hashes = &self.input_event_hashes;
        let mut lists: Vec<Vec<u8>> = Vec::new();
        let mut i: usize = 0;
        while i < hashes.len()
            invariant
                i <= hashes@.len(),
                lists@.len() == i,
                forall|k: int| 0 <= k < i ==> (#[trigger] lists@[k])@ == byte_list(hashes@[k]@),
            decreases hashes.len() - i,
        {
            lists.push(digest_list(&hashes[i]));
            i += 1;
        }
        proof {
            assert(item_views(lists@) =~= byte_lists(digest_views(hashes@)));
        }
        lists
    }
}

/// Digests as JSON lists of their bytes.
pub open spec fn byte_lists(hashes: Seq<Seq<u8>>) -> Seq<Seq<u8>> {
    Seq::new(hashes.len(), |i: int| byte_list(hashes[i]))
}

/// The JSON object of a lineage. The texts of the feature, of the formula hash and of the code
/// revision are given; the version is a text, and a digest is a list of its bytes.
pub open spec fn lineage_json(
    lineage: LineageView,
    feature_id_json: Seq<u8>,
    formula_hash_json: Seq<u8>,
    code_commit_json: Seq<u8>,
) -> Seq<u8> {
    utf8("{\"feature_id\":"@) + feature_id_json + utf8(",\"feature_version\":\""@)
        + version_ascii(lineage.feature_version) + utf8("\",\"formula_hash\":"@)
        + formula_hash_json + utf8(",\"input_event_hashes\":"@) + json_list(
        byte_lists(lineage.input_event_hashes),
    ) + utf8(",\"source_coverage_hash\":"@) + byte_list(lineage.source_coverage_hash) + utf8(
        ",\"code_commit\":"@,
    ) + code_commit_json + utf8("}"@)
}

/// A digest of a lineage's JSON text.
pub open spec fn lineage_digest_of(encoded: Seq<u8>) -> Seq<u8> {
    blake3_digest(utf8("cmti:feature-lineage:v1"@) + seq![0u8] + encoded)
}

/// A lineage does not depend on the order in which its events were given: the same events are
/// refused alike in every order, and make the same lineage where they are not refused.
pub proof fn lemma_lineage_ignores_event_order(a: FeatureLineageInput, b: FeatureLineageInput)
    requires
        a.input_event_hashes@.to_multiset() == b.input_event_hashes@.to_multiset(),
        a.feature_id@ == b.feature_id@,
        parsed_parts(Some(a.feature_version)) == parsed_parts(Some(b.feature_version)),
        a.formula_hash@ == b.formula_hash@,
        a.source_coverage_json@ == b.source_coverage_json@,
        a.code_commit@ == b.code_commit@,
    ensures
        lineage_of(a) == lineage_of(b),
{
    let first = a.input_event_hashes@;
    let second = b.input_event_hashes@;
    lemma_refusals_ignore_order(first, second);
    lemma_refusals_ignore_order(second, first);
    if lineage_of(a) is Ok {
        lemma_distinct_digest_views(first);
        lemma_stably_sorted(first);
        lemma_stably_sorted(second);
        lemma_sorted_distinct(first, stably_sorted(first));
        lemma_sorted_arrangement_is_unique(stably_sorted(first), stably_sorted(second));
    }
}

proof fn lemma_refusals_ignore_order(a: Seq<[u8; 32]>, b: Seq<[u8; 32]>)
    requires
        a.to_multiset() == b.to_multiset(),
    ensures
        a.len() == b.len(),
        digest_views(a).contains(zero_digest()) ==> digest_views(b).contains(zero_digest()),
        digest_views(a).no_duplicates() ==> digest_views(b).no_duplicates(),
{
    a.to_multiset_ensures();
    b.to_multiset_ensures();
    if digest_views(a).contains(zero_digest()) {
        let i = digest_views(a).index_of(zero_digest());
        assert(a.contains(a[i]));
        assert(b.to_multiset().count(a[i]) > 0);
        let k = b.index_of(a[i]);
        assert(digest_views(b)[k] == zero_digest());
    }
    lemma_distinct_digest_views(a);
    lemma_distinct_digest_views(b);
    if digest_views(a).no_duplicates() {
        lemma_distinct_ranks_rearranged(a, b);
    }
}

/// A lineage holds just the events that it was given, each once and none of them zero, and no
/// more than it may.
pub proof fn lemma_lineages_hold_their_events(input: FeatureLineageInput)
    requires
        lineage_of(input) is Ok,
    ensures
        ({
            let lineage = lineage_of(input)->Ok_0;
            let hashes = digest_views(input.input_event_hashes@);
            &&& 1 <= lineage.input_event_hashes.len() <= 4_096
            &&& lineage.input_event_hashes.len() == hashes.len()
            &&& hashes.no_duplicates()
            &&& !hashes.contains(zero_digest())
            &&& forall|i: int|
                #![trigger lineage.input_event_hashes[i]]
                0 <= i < lineage.input_event_hashes.len() ==> hashes.contains(
                    lineage.input_event_hashes[i],
                )
            &&& lineage.feature_id == input.feature_id@
            &&& lineage.formula_hash == input.formula_hash@
            &&& lineage.code_commit == input.code_commit@
        }),
{
    let events = input.input_event_hashes@;
    let sorted = stably_sorted(events);
    lemma_stably_sorted(events);
    sorted.to_multiset_ensures();
    events.to_multiset_ensures();
    assert forall|i: int|
        #![trigger digest_views(sorted)[i]]
        0 <= i < sorted.len() implies digest_views(events).contains(digest_views(sorted)[i]) by {
        assert(sorted.to_multiset().count(sorted[i]) > 0);
        assert(events.contains(sorted[i]));
        let k = choose|k: int| 0 <= k < events.len() && events[k] == sorted[i];
        assert(digest_views(events)[k] == digest_views(sorted)[i]);
    }
}

} // verus!
