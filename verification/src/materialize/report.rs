//! Canonical parity and durable-publication evidence of materialized rows.

use vstd::prelude::*;

use super::row::{
    identity_before, lemma_identity_order, lemma_number_then, put_quoted, row_is_sound, row_json,
    row_views, MaterializedFeatureRow, RowFields, RowView,
};
use super::{MaterializationError, MAXIMUM_FEATURE_ROWS};
use crate::decimal::{digits_ascii, put_digits};
use crate::digest::{blake3_digest, blake3_hash, labelled, put_byte, put_bytes, utf8};
use crate::ordering::{
    byte_rank, lemma_images_keep_members, lemma_rank_order_is_total, lemma_stably_sorted,
    rank_precedes, sort_stably, stably_sorted, Ranked,
};
use crate::registry::same_text;
use crate::wire::{item_views, json_list, json_quoted, put_list};

verus! {

/// The rows that hold no floating-point value, as JSON objects.
pub open spec fn fixed_items(rows: Seq<RowView>) -> Seq<Seq<u8>>
    decreases rows.len(),
{
    if rows.len() == 0 {
        Seq::empty()
    } else {
        let before = fixed_items(rows.drop_last());
        if rows.last().value_type != "float64"@ {
            before.push(row_json(rows.last()))
        } else {
            before
        }
    }
}

/// The lineages of rows, as JSON texts.
pub open spec fn lineage_items(rows: Seq<RowView>) -> Seq<Seq<u8>> {
    Seq::new(rows.len(), |i: int| utf8(json_quoted(rows[i].lineage_hash)))
}

/// Feature, finality, revision and quality of a row, as a JSON list.
pub open spec fn finality_item(row: RowView) -> Seq<u8> {
    utf8("["@) + utf8(json_quoted(row.feature_id)) + utf8(","@) + utf8(
        json_quoted(row.finality_state),
    ) + utf8(","@) + digits_ascii(row.revision as nat) + utf8(","@) + digits_ascii(
        row.quality_millionths as nat,
    ) + utf8("]"@)
}

pub open spec fn finality_items(rows: Seq<RowView>) -> Seq<Seq<u8>> {
    Seq::new(rows.len(), |i: int| finality_item(rows[i]))
}

/// A digest of a JSON list under a domain, which a zero byte ends.
pub open spec fn digest_of_list(domain: Seq<char>, items: Seq<Seq<u8>>) -> Seq<u8> {
    blake3_digest(utf8(domain) + seq![0u8] + json_list(items))
}

fn digest_list(domain: &str, items: &Vec<Vec<u8>>) -> (digest: [u8; 32])
    ensures
        digest@ == digest_of_list(domain@, item_views(items@)),
{
    let mut buffer = labelled(domain);
    put_byte(&mut buffer, 0);
    put_list(&mut buffer, items);
    blake3_hash(buffer.as_slice())
}

fn collect_fixed(rows: &Vec<MaterializedFeatureRow>) -> (items: Vec<Vec<u8>>)
    ensures
        item_views(items@) == fixed_items(row_views(rows@)),
{
    let ghost views = row_views(rows@);
    let mut items: Vec<Vec<u8>> = Vec::new();
    let mut i: usize = 0;
    proof {
        assert(views.take(0) =~= Seq::empty());
        assert(item_views(items@) =~= fixed_items(views.take(0)));
    }
    while i < rows.len()
        invariant
            i <= rows@.len(),
            views == row_views(rows@),
            item_views(items@) == fixed_items(views.take(i as int)),
        decreases rows.len() - i,
    {
        let fields = rows[i].fields();
        proof {
            assert(views.take(i + 1).drop_last() =~= views.take(i as int));
            assert(views.take(i + 1).last() == rows@[i as int]@);
        }
        if !same_text(fields.value_type.as_str(), "float64") {
            let ghost before = items@;
            let item = fields.to_json();
            items.push(item);
            proof {
                assert(item_views(items@) =~= item_views(before).push(item@));
            }
        }
        i += 1;
    }
    proof {
        assert(views.take(i as int) =~= views);
    }
    items
}

fn collect_lineage(rows: &Vec<MaterializedFeatureRow>) -> (items: Vec<Vec<u8>>)
    ensures
        item_views(items@) == lineage_items(row_views(rows@)),
{
    let ghost views = row_views(rows@);
    let mut items: Vec<Vec<u8>> = Vec::new();
    let mut i: usize = 0;
    while i < rows.len()
        invariant
            i <= rows@.len(),
            views == row_views(rows@),
            items@.len() == i,
            forall|k: int|
                0 <= k < i ==> (#[trigger] items@[k])@ == utf8(json_quoted(views[k].lineage_hash)),
        decreases rows.len() - i,
    {
        let mut item: Vec<u8> = Vec::new();
        put_quoted(&mut item, rows[i].fields().lineage_hash.as_str());
        proof {
            assert(views[i as int] == rows@[i as int]@);
            assert(item@ =~= utf8(json_quoted(views[i as int].lineage_hash)));
        }
        items.push(item);
        i += 1;
    }
    proof {
        assert(item_views(items@) =~= lineage_items(views));
    }
    items
}

fn finality_bytes(row: &RowFields) -> (item: Vec<u8>)
    ensures
        item@ == finality_item(row@),
{
    let mut item = labelled("[");
    put_quoted(&mut item, row.feature_id.as_str());
    put_bytes(&mut item, ",".as_bytes());
    put_quoted(&mut item, row.finality_state.as_str());
    put_bytes(&mut item, ",".as_bytes());
    put_digits(&mut item, row.revision as u128);
    put_bytes(&mut item, ",".as_bytes());
    put_digits(&mut item, row.quality_millionths as u128);
    put_bytes(&mut item, "]".as_bytes());
    item
}

fn collect_finality(rows: &Vec<MaterializedFeatureRow>) -> (items: Vec<Vec<u8>>)
    ensures
        item_views(items@) == finality_items(row_views(rows@)),
        all_sound(row_views(rows@)),
{
    let ghost views = row_views(rows@);
    let mut items: Vec<Vec<u8>> = Vec::new();
    let mut i: usize = 0;
    while i < rows.len()
        invariant
            i <= rows@.len(),
            views == row_views(rows@),
            items@.len() == i,
            forall|k: int| 0 <= k < i ==> (#[trigger] items@[k])@ == finality_item(views[k]),
            forall|k: int| 0 <= k < i ==> row_is_sound(#[trigger] views[k]),
        decreases rows.len() - i,
    {
        proof {
            assert(views[i as int] == rows@[i as int]@);
        }
        items.push(finality_bytes(rows[i].fields()));
        i += 1;
    }
    proof {
        assert(item_views(items@) =~= finality_items(views));
    }
    items
}

/// The contents of a [`MaterializationReport`].
pub struct ReportView {
    pub rows: Seq<RowView>,
    pub fixed_point_digest: Seq<u8>,
    pub lineage_digest: Seq<u8>,
    pub finality_quality_digest: Seq<u8>,
    pub wal_segment_blake3: Option<Seq<u8>>,
    pub sealed_manifest_blake3: Option<Seq<u8>>,
}

/// What a run materialized, and what it published.
#[derive(Debug)]
pub struct MaterializationReport {
    rows: Vec<MaterializedFeatureRow>,
    fixed_point_digest: [u8; 32],
    lineage_digest: [u8; 32],
    finality_quality_digest: [u8; 32],
    wal_segment_blake3: Option<[u8; 32]>,
    sealed_manifest_blake3: Option<[u8; 32]>,
}

pub open spec fn optional_digest(digest: Option<[u8; 32]>) -> Option<Seq<u8>> {
    match digest {
        Some(digest) => Some(digest@),
        None => None,
    }
}

impl View for MaterializationReport {
    type V = ReportView;

    closed spec fn view(&self) -> ReportView {
        ReportView {
            rows: row_views(self.rows@),
            fixed_point_digest: self.fixed_point_digest@,
            lineage_digest: self.lineage_digest@,
            finality_quality_digest: self.finality_quality_digest@,
            wal_segment_blake3: optional_digest(self.wal_segment_blake3),
            sealed_manifest_blake3: optional_digest(self.sealed_manifest_blake3),
        }
    }
}

/// A row repeats the revision of the row before it.
pub open spec fn repeats_revision(rows: Seq<RowView>, i: int) -> bool {
    rows[i].identity() == rows[i + 1].identity() && rows[i].revision == rows[i + 1].revision
}

/// One row comes before another: by identity, and by revision where both observe the same.
pub open spec fn comes_before(a: RowView, b: RowView) -> bool {
    if a.identity() == b.identity() {
        a.revision < b.revision
    } else {
        identity_before(a, b)
    }
}

/// Each row comes before the rows that stand later, so none is the same revision as another.
pub open spec fn strictly_ascend(rows: Seq<RowView>) -> bool {
    forall|i: int, j: int|
        0 <= i < j < rows.len() ==> comes_before(#[trigger] rows[i], #[trigger] rows[j])
}

/// The row is final, or it corrects an earlier revision.
pub open spec fn is_sealed(row: RowView) -> bool {
    ||| row.finality_state == "final"@ && row.revision >= 1
    ||| row.finality_state == "corrected"@ && row.revision >= 2
}

/// What holds of the rows of every report.
pub open spec fn rows_are_reportable(rows: Seq<RowView>) -> bool {
    &&& 1 <= rows.len() <= MAXIMUM_FEATURE_ROWS
    &&& strictly_ascend(rows)
    &&& forall|i: int| 0 <= i < rows.len() ==> is_sealed(#[trigger] rows[i])
}

/// Every row is sound.
pub open spec fn all_sound(rows: Seq<RowView>) -> bool {
    forall|i: int| 0 <= i < rows.len() ==> row_is_sound(#[trigger] rows[i])
}

/// Rows in rank order are in the order of identities and revisions, but that both may be the same.
proof fn lemma_rank_orders_rows(a: MaterializedFeatureRow, b: MaterializedFeatureRow)
    requires
        !rank_precedes(b.rank(), a.rank()),
    ensures
        comes_before(a@, b@) || parity_key(a@) == parity_key(b@),
        !(comes_before(a@, b@) && comes_before(b@, a@)),
{
    let x = byte_rank(utf8(a@.lineage_hash));
    let y = byte_rank(utf8(b@.lineage_hash));
    lemma_identity_order(b@, a@, seq![b@.revision as int] + y, seq![a@.revision as int] + x);
    lemma_number_then(b@.revision as int, a@.revision as int, y, x);
    if a@.identity() != b@.identity() {
        super::row::lemma_identities_are_ordered(a@, b@);
        lemma_identity_order(a@, b@, Seq::empty(), Seq::empty());
        lemma_identity_order(b@, a@, Seq::empty(), Seq::empty());
        lemma_rank_order_is_total(a@.rank_with(Seq::empty()), b@.rank_with(Seq::empty()));
    }
}

proof fn lemma_rows_ascend(rows: Seq<MaterializedFeatureRow>)
    requires
        report_refusal(rows) is None,
    ensures
        strictly_ascend(row_views(stably_sorted(rows))),
        stably_sorted(rows).len() == rows.len(),
{
    let sorted = stably_sorted(rows);
    let views = row_views(sorted);
    lemma_stably_sorted(rows);
    assert forall|i: int, j: int| 0 <= i < j < views.len() implies comes_before(
        #[trigger] views[i],
        #[trigger] views[j],
    ) by {
        assert(!rank_precedes(sorted[j].rank(), sorted[i].rank()));
        assert(!rank_precedes(sorted[i + 1].rank(), sorted[i].rank()));
        lemma_rank_orders_rows(sorted[i], sorted[j]);
        lemma_rank_orders_rows(sorted[i], sorted[i + 1]);
        assert(!repeats_revision(views, i));
        if j > i + 1 {
            assert(!rank_precedes(sorted[j].rank(), sorted[i + 1].rank()));
            lemma_rank_orders_rows(sorted[i + 1], sorted[j]);
        }
    }
}

proof fn lemma_sorting_keeps_rows(rows: Seq<MaterializedFeatureRow>)
    ensures
        row_views(stably_sorted(rows)).to_multiset() == row_views(rows).to_multiset(),
{
    let sorted = stably_sorted(rows);
    let image = |row: MaterializedFeatureRow| row@;
    lemma_stably_sorted(rows);
    lemma_images_keep_members(sorted, rows, image);
    assert(sorted.map_values(image) =~= row_views(sorted));
    assert(rows.map_values(image) =~= row_views(rows));
}

/// The rows of a report are those that it was made of. They ascend strictly by identity and
/// revision, their number is bounded, and each of them is final or corrected.
pub proof fn lemma_report_rows(rows: Seq<MaterializedFeatureRow>)
    requires
        report_refusal(rows) is None,
        all_sound(row_views(rows)),
    ensures
        rows_are_reportable(row_views(stably_sorted(rows))),
        row_views(stably_sorted(rows)).to_multiset() == row_views(rows).to_multiset(),
{
    let sorted = stably_sorted(rows);
    let views = row_views(sorted);
    lemma_rows_ascend(rows);
    lemma_stably_sorted(rows);
    lemma_sorting_keeps_rows(rows);
    rows.to_multiset_ensures();
    sorted.to_multiset_ensures();
    assert forall|i: int| 0 <= i < views.len() implies is_sealed(#[trigger] views[i]) by {
        assert(sorted.contains(sorted[i]));
        assert(rows.to_multiset().count(sorted[i]) > 0);
        let k = rows.index_of(sorted[i]);
        assert(row_is_sound(row_views(rows)[k]));
    }
}

/// The report of rows in order, with what was published.
pub open spec fn report_of(
    rows: Seq<RowView>,
    wal_segment: Option<Seq<u8>>,
    manifest: Option<Seq<u8>>,
) -> ReportView {
    ReportView {
        rows,
        fixed_point_digest: digest_of_list(
            "cmti:materialized-fixed-features:v1"@,
            fixed_items(rows),
        ),
        lineage_digest: digest_of_list("cmti:materialized-lineage:v1"@, lineage_items(rows)),
        finality_quality_digest: digest_of_list(
            "cmti:materialized-finality-quality:v1"@,
            finality_items(rows),
        ),
        wal_segment_blake3: wal_segment,
        sealed_manifest_blake3: manifest,
    }
}

/// Why rows make no report, if they make none.
pub open spec fn report_refusal(rows: Seq<MaterializedFeatureRow>) -> Option<
    MaterializationError,
> {
    let sorted = row_views(stably_sorted(rows));
    if rows.len() == 0 || rows.len() > MAXIMUM_FEATURE_ROWS {
        Some(MaterializationError::CapacityExceeded)
    } else if exists|i: int| 0 <= i < sorted.len() - 1 && #[trigger] repeats_revision(sorted, i) {
        Some(MaterializationError::DuplicateObservation)
    } else {
        None
    }
}

fn has_repeats(rows: &Vec<MaterializedFeatureRow>) -> (answer: bool)
    ensures
        answer == exists|i: int|
            0 <= i < row_views(rows@).len() - 1 && #[trigger] repeats_revision(row_views(rows@), i),
{
    let mut i: usize = 0;
    while i < rows.len() && i + 1 < rows.len()
        invariant
            i <= rows@.len(),
            forall|k: int| 0 <= k < i ==> !#[trigger] repeats_revision(row_views(rows@), k),
        decreases rows.len() - i,
    {
        let row = rows[i].fields();
        let next = rows[i + 1].fields();
        if row.same_identity(next) && row.revision == next.revision {
            proof {
                assert(repeats_revision(row_views(rows@), i as int));
            }
            return true;
        }
        proof {
            assert(!repeats_revision(row_views(rows@), i as int));
        }
        i += 1;
    }
    false
}

/// The identity and revision of a row, by which floating-point values are matched.
pub open spec fn parity_key(row: RowView) -> (super::row::RowIdentity, u32) {
    (row.identity(), row.revision)
}

/// The rows that hold floating-point values.
pub open spec fn float_rows(rows: Seq<RowView>) -> Seq<RowView>
    decreases rows.len(),
{
    if rows.len() == 0 {
        Seq::empty()
    } else {
        let before = float_rows(rows.drop_last());
        if rows.last().float_bits is Some {
            before.push(rows.last())
        } else {
            before
        }
    }
}

/// Both lists of rows hold floating-point values of the same observations, in order.
pub open spec fn same_shape(left: Seq<RowView>, right: Seq<RowView>) -> bool {
    float_rows(left).len() == float_rows(right).len() && forall|i: int|
        0 <= i < float_rows(left).len() ==> parity_key(#[trigger] float_rows(left)[i])
            == parity_key(float_rows(right)[i])
}

/// Pairs of bit patterns of the same observations.
pub open spec fn float_pairs(left: Seq<RowView>, right: Seq<RowView>) -> Seq<(u64, u64)> {
    Seq::new(
        float_rows(left).len(),
        |i: int|
            (float_rows(left)[i].float_bits->Some_0, float_rows(right)[i].float_bits->Some_0),
    )
}

/// The places of the rows that hold floating-point values.
fn float_places(rows: &Vec<MaterializedFeatureRow>) -> (places: Vec<usize>)
    ensures
        places@.len() == float_rows(row_views(rows@)).len(),
        forall|i: int|
            0 <= i < places@.len() ==> (#[trigger] places@[i]) < rows@.len()
                && rows@[places@[i] as int]@ == float_rows(row_views(rows@))[i]
                && rows@[places@[i] as int]@.float_bits is Some,
{
    let ghost views = row_views(rows@);
    let mut places: Vec<usize> = Vec::new();
    let mut i: usize = 0;
    proof {
        assert(views.take(0) =~= Seq::empty());
    }
    while i < rows.len()
        invariant
            i <= rows@.len(),
            views == row_views(rows@),
            places@.len() == float_rows(views.take(i as int)).len(),
            forall|k: int|
                0 <= k < places@.len() ==> (#[trigger] places@[k]) < rows@.len()
                    && rows@[places@[k] as int]@ == float_rows(views.take(i as int))[k]
                    && rows@[places@[k] as int]@.float_bits is Some,
        decreases rows.len() - i,
    {
        proof {
            assert(views.take(i + 1).drop_last() =~= views.take(i as int));
            assert(views.take(i + 1).last() == rows@[i as int]@);
        }
        if rows[i].float_bits().is_some() {
            places.push(i);
        }
        i += 1;
    }
    proof {
        assert(views.take(i as int) =~= views);
    }
    places
}

impl MaterializationReport {
    #[verifier::type_invariant]
    spec fn lawful(self) -> bool {
        rows_are_reportable(row_views(self.rows@))
    }

    pub fn try_new(
        rows: Vec<MaterializedFeatureRow>,
        wal_segment_blake3: Option<[u8; 32]>,
        sealed_manifest_blake3: Option<[u8; 32]>,
    ) -> (result: Result<Self, MaterializationError>)
        ensures
            match report_refusal(rows@) {
                Some(error) => result is Err && result->Err_0 == error,
                None => result is Ok && result->Ok_0@ == report_of(
                    row_views(stably_sorted(rows@)),
                    optional_digest(wal_segment_blake3),
                    optional_digest(sealed_manifest_blake3),
                ),
            },
            result is Ok ==> rows_are_reportable(result->Ok_0@.rows)
                && result->Ok_0@.rows.to_multiset() == row_views(rows@).to_multiset(),
    {
        if rows.len() == 0 || rows.len() > MAXIMUM_FEATURE_ROWS {
            return Err(MaterializationError::CapacityExceeded);
        }
        let ghost given = rows@;
        let sorted = sort_stably(rows);
        if has_repeats(&sorted) {
            return Err(MaterializationError::DuplicateObservation);
        }
        let fixed = collect_fixed(&sorted);
        let lineage = collect_lineage(&sorted);
        let finality = collect_finality(&sorted);
        proof {
            lemma_rows_ascend(given);
            assert forall|i: int| 0 <= i < sorted@.len() implies is_sealed(
                #[trigger] row_views(sorted@)[i],
            ) by {
                assert(row_is_sound(row_views(sorted@)[i]));
            }
            lemma_sorting_keeps_rows(given);
        }
        Ok(
            MaterializationReport {
                fixed_point_digest: digest_list("cmti:materialized-fixed-features:v1", &fixed),
                lineage_digest: digest_list("cmti:materialized-lineage:v1", &lineage),
                finality_quality_digest: digest_list(
                    "cmti:materialized-finality-quality:v1",
                    &finality,
                ),
                rows: sorted,
                wal_segment_blake3,
                sealed_manifest_blake3,
            },
        )
    }

    pub fn rows(&self) -> (rows: &Vec<MaterializedFeatureRow>)
        ensures
            row_views(rows@) == self@.rows,
            rows_are_reportable(self@.rows),
    {
        proof {
            use_type_invariant(self);
        }
        &self.rows
    }

    pub fn fixed_point_digest(&self) -> (digest: [u8; 32])
        ensures
            digest@ == self@.fixed_point_digest,
    {
        self.fixed_point_digest
    }

    pub fn lineage_digest(&self) -> (digest: [u8; 32])
        ensures
            digest@ == self@.lineage_digest,
    {
        self.lineage_digest
    }

    pub fn finality_quality_digest(&self) -> (digest: [u8; 32])
        ensures
            digest@ == self@.finality_quality_digest,
    {
        self.finality_quality_digest
    }

    pub fn wal_segment_blake3(&self) -> (digest: Option<[u8; 32]>)
        ensures
            optional_digest(digest) == self@.wal_segment_blake3,
    {
        self.wal_segment_blake3
    }

    pub fn sealed_manifest_blake3(&self) -> (digest: Option<[u8; 32]>)
        ensures
            optional_digest(digest) == self@.sealed_manifest_blake3,
    {
        self.sealed_manifest_blake3
    }

    /// The bit patterns whose greatest distance is the error between two reports.
    pub fn float_pairs(&self, other: &Self) -> (result: Result<
        Vec<(u64, u64)>,
        MaterializationError,
    >)
        ensures
            if same_shape(self@.rows, other@.rows) {
                result is Ok && result->Ok_0@ == float_pairs(self@.rows, other@.rows)
            } else {
                result is Err && result->Err_0 == MaterializationError::ParityShapeMismatch
            },
    {
        let left = float_places(&self.rows);
        let right = float_places(&other.rows);
        if left.len() != right.len() {
            return Err(MaterializationError::ParityShapeMismatch);
        }
        let ghost own = float_rows(self@.rows);
        let ghost others = float_rows(other@.rows);
        let mut pairs: Vec<(u64, u64)> = Vec::new();
        let mut i: usize = 0;
        while i < left.len()
            invariant
                i <= left@.len() == right@.len(),
                own == float_rows(self@.rows),
                others == float_rows(other@.rows),
                left@.len() == own.len(),
                right@.len() == others.len(),
                pairs@.len() == i,
                forall|k: int|
                    0 <= k < left@.len() ==> (#[trigger] left@[k]) < self.rows@.len()
                        && self.rows@[left@[k] as int]@ == own[k] && own[k].float_bits is Some,
                forall|k: int|
                    0 <= k < right@.len() ==> (#[trigger] right@[k]) < other.rows@.len()
                        && other.rows@[right@[k] as int]@ == others[k] && others[k].float_bits
                        is Some,
                forall|k: int| 0 <= k < i ==> parity_key(#[trigger] own[k]) == parity_key(others[k]),
                forall|k: int|
                    0 <= k < i ==> #[trigger] pairs@[k] == (
                        own[k].float_bits->Some_0,
                        others[k].float_bits->Some_0,
                    ),
            decreases left.len() - i,
        {
            let first = &self.rows[left[i]];
            let second = &other.rows[right[i]];
            proof {
                assert(self.rows@[left@[i as int] as int]@ == own[i as int]);
                assert(other.rows@[right@[i as int] as int]@ == others[i as int]);
            }
            if !first.fields().same_identity(second.fields()) || first.revision()
                != second.revision() {
                proof {
                    assert(parity_key(own[i as int]) != parity_key(others[i as int]));
                }
                return Err(MaterializationError::ParityShapeMismatch);
            }
            match (first.float_bits(), second.float_bits()) {
                (Some(left_bits), Some(right_bits)) => {
                    pairs.push((left_bits, right_bits));
                },
                _ => {
                    proof {
                        assert(false);
                    }
                },
            }
            i += 1;
        }
        proof {
            assert(pairs@ =~= float_pairs(self@.rows, other@.rows));
        }
        Ok(pairs)
    }
}

/// A report does not depend on the order in which its rows were given: the same rows are refused
/// alike in every order, and reported alike where they are not refused.
pub proof fn lemma_reports_ignore_row_order(
    a: Seq<MaterializedFeatureRow>,
    b: Seq<MaterializedFeatureRow>,
)
    requires
        a.to_multiset() == b.to_multiset(),
    ensures
        report_refusal(a) == report_refusal(b),
        report_refusal(a) is None ==> stably_sorted(a) == stably_sorted(b),
{
    a.to_multiset_ensures();
    b.to_multiset_ensures();
    if report_refusal(a) is None {
        lemma_reportable_rows_have_one_order(a, b);
    } else if report_refusal(b) is None {
        lemma_reportable_rows_have_one_order(b, a);
    }
}

proof fn lemma_reportable_rows_have_one_order(
    a: Seq<MaterializedFeatureRow>,
    b: Seq<MaterializedFeatureRow>,
)
    requires
        a.to_multiset() == b.to_multiset(),
        a.len() == b.len(),
        report_refusal(a) is None,
    ensures
        stably_sorted(a) == stably_sorted(b),
        report_refusal(b) is None,
{
    let sorted = stably_sorted(a);
    let views = row_views(sorted);
    lemma_stably_sorted(a);
    lemma_stably_sorted(b);
    lemma_rows_ascend(a);
    assert forall|i: int, j: int| 0 <= i < j < sorted.len() implies rank_precedes(
        #[trigger] sorted[i].rank(),
        #[trigger] sorted[j].rank(),
    ) by {
        assert(!rank_precedes(sorted[j].rank(), sorted[i].rank()));
        assert(comes_before(views[i], views[j]));
        if !rank_precedes(sorted[i].rank(), sorted[j].rank()) {
            lemma_rank_orders_rows(sorted[i], sorted[j]);
            lemma_rank_orders_rows(sorted[j], sorted[i]);
        }
    }
    crate::ordering::lemma_sorted_arrangement_is_unique(sorted, stably_sorted(b));
}

/// The rows of another type than floats, in order.
pub open spec fn fixed_rows(rows: Seq<RowView>) -> Seq<RowView>
    decreases rows.len(),
{
    if rows.len() == 0 {
        Seq::empty()
    } else {
        let before = fixed_rows(rows.drop_last());
        if rows.last().value_type == "float64"@ {
            before
        } else {
            before.push(rows.last())
        }
    }
}

/// The fixed-point digest is of the JSON of each row of another type than floats, in order.
pub proof fn lemma_fixed_items_are_those_of_fixed_rows(rows: Seq<RowView>)
    ensures
        fixed_items(rows).len() == fixed_rows(rows).len(),
        forall|k: int|
            0 <= k < fixed_rows(rows).len() ==> #[trigger] fixed_items(rows)[k] == row_json(
                fixed_rows(rows)[k],
            ),
    decreases rows.len(),
{
    if rows.len() > 0 {
        lemma_fixed_items_are_those_of_fixed_rows(rows.drop_last());
        let count = fixed_rows(rows.drop_last()).len() as int;
        assert forall|k: int| 0 <= k < fixed_rows(rows).len() implies #[trigger] fixed_items(
            rows,
        )[k] == row_json(fixed_rows(rows)[k]) by {
            if k < count {
                assert(fixed_items(rows)[k] == fixed_items(rows.drop_last())[k]);
                assert(fixed_rows(rows)[k] == fixed_rows(rows.drop_last())[k]);
            } else {
                assert(fixed_rows(rows)[k] == rows.last());
            }
        }
    }
}

/// Every row of another type than floats is among those that the fixed-point digest covers, and
/// no row of floats is.
pub proof fn lemma_fixed_rows_leave_out_floats(rows: Seq<RowView>)
    ensures
        forall|i: int|
            #![trigger rows[i]]
            0 <= i < rows.len() && rows[i].value_type != "float64"@ ==> fixed_rows(
                rows,
            ).contains(rows[i]),
        forall|k: int|
            #![trigger fixed_rows(rows)[k]]
            0 <= k < fixed_rows(rows).len() ==> fixed_rows(rows)[k].value_type != "float64"@
                && rows.contains(fixed_rows(rows)[k]),
    decreases rows.len(),
{
    if rows.len() > 0 {
        let rest = rows.drop_last();
        let before = fixed_rows(rest);
        let found = fixed_rows(rows);
        lemma_fixed_rows_leave_out_floats(rest);
        assert(rows[rows.len() - 1] == rows.last());
        assert forall|i: int|
            #![trigger rows[i]]
            0 <= i < rows.len() && rows[i].value_type != "float64"@ implies found.contains(
            rows[i],
        ) by {
            if i < rest.len() {
                assert(rest[i] == rows[i]);
                let k = choose|k: int| 0 <= k < before.len() && before[k] == rows[i];
                assert(found[k] == rows[i]);
            } else {
                assert(found[before.len() as int] == rows[i]);
            }
        }
        assert forall|k: int|
            #![trigger found[k]]
            0 <= k < found.len() implies found[k].value_type != "float64"@ && rows.contains(
            found[k],
        ) by {
            if k < before.len() {
                assert(before[k] == found[k]);
                let i = choose|i: int| 0 <= i < rest.len() && rest[i] == before[k];
                assert(rows[i] == found[k]);
            }
        }
    }
}

/// Two lists of rows that differ only in rows of floats have the same fixed-point digest.
pub proof fn lemma_floats_leave_fixed_points_alone(a: Seq<RowView>, b: Seq<RowView>)
    requires
        a.len() == b.len(),
        forall|i: int|
            0 <= i < a.len() ==> #[trigger] a[i] == b[i] || (a[i].value_type == "float64"@
                && b[i].value_type == "float64"@),
    ensures
        fixed_items(a) == fixed_items(b),
        forall|wal: Option<Seq<u8>>, manifest: Option<Seq<u8>>|
            (#[trigger] report_of(a, wal, manifest)).fixed_point_digest == report_of(
                b,
                wal,
                manifest,
            ).fixed_point_digest,
    decreases a.len(),
{
    if a.len() > 0 {
        assert(a[a.len() - 1] == a.last() && b[b.len() - 1] == b.last());
        assert forall|i: int| 0 <= i < a.len() - 1 implies #[trigger] a.drop_last()[i]
            == b.drop_last()[i] || (a.drop_last()[i].value_type == "float64"@
            && b.drop_last()[i].value_type == "float64"@) by {
            assert(a[i] == a.drop_last()[i] && b[i] == b.drop_last()[i]);
        }
        lemma_floats_leave_fixed_points_alone(a.drop_last(), b.drop_last());
    }
}

proof fn lemma_float_rows_are_the_rows_with_floats(rows: Seq<RowView>)
    ensures
        forall|k: int|
            #![trigger float_rows(rows)[k]]
            0 <= k < float_rows(rows).len() ==> float_rows(rows)[k].float_bits is Some
                && rows.contains(float_rows(rows)[k]),
        forall|i: int|
            #![trigger rows[i]]
            0 <= i < rows.len() && rows[i].float_bits is Some ==> float_rows(rows).contains(
                rows[i],
            ),
    decreases rows.len(),
{
    if rows.len() > 0 {
        let rest = rows.drop_last();
        let before = float_rows(rest);
        let found = float_rows(rows);
        lemma_float_rows_are_the_rows_with_floats(rest);
        assert(rows[rows.len() - 1] == rows.last());
        assert forall|k: int|
            #![trigger found[k]]
            0 <= k < found.len() implies found[k].float_bits is Some && rows.contains(
            found[k],
        ) by {
            if k < before.len() {
                assert(before[k] == found[k]);
                let i = choose|i: int| 0 <= i < rest.len() && rest[i] == before[k];
                assert(rows[i] == found[k]);
            }
        }
        assert forall|i: int|
            #![trigger rows[i]]
            0 <= i < rows.len() && rows[i].float_bits is Some implies found.contains(rows[i]) by {
            if i < rest.len() {
                assert(rest[i] == rows[i]);
                let k = choose|k: int| 0 <= k < before.len() && before[k] == rows[i];
                assert(found[k] == rows[i]);
            } else {
                assert(found[before.len() as int] == rows[i]);
            }
        }
    }
}

/// The pair holds the floats of one observation at one revision, as the two lists have them.
pub open spec fn pairs_an_observation(
    left: Seq<RowView>,
    right: Seq<RowView>,
    pair: (u64, u64),
) -> bool {
    exists|i: int, j: int|
        #![trigger left[i], right[j]]
        {
            &&& 0 <= i < left.len() && 0 <= j < right.len()
            &&& left[i].identity() == right[j].identity()
            &&& left[i].revision == right[j].revision
            &&& left[i].float_bits == Some(pair.0)
            &&& right[j].float_bits == Some(pair.1)
        }
}

/// Each pair holds the floats of one observation at one revision, as the two lists have them, the
/// left one first, and every row that holds a float is in a pair.
pub proof fn lemma_float_pairs_match_observations(left: Seq<RowView>, right: Seq<RowView>)
    requires
        same_shape(left, right),
    ensures
        forall|k: int|
            #![trigger float_pairs(left, right)[k]]
            0 <= k < float_pairs(left, right).len() ==> pairs_an_observation(
                left,
                right,
                float_pairs(left, right)[k],
            ),
        forall|i: int|
            #![trigger left[i]]
            0 <= i < left.len() && left[i].float_bits is Some ==> exists|k: int|
                #![trigger float_pairs(left, right)[k]]
                0 <= k < float_pairs(left, right).len() && Some(float_pairs(left, right)[k].0)
                    == left[i].float_bits,
        forall|j: int|
            #![trigger right[j]]
            0 <= j < right.len() && right[j].float_bits is Some ==> exists|k: int|
                #![trigger float_pairs(left, right)[k]]
                0 <= k < float_pairs(left, right).len() && Some(float_pairs(left, right)[k].1)
                    == right[j].float_bits,
{
    lemma_float_rows_are_the_rows_with_floats(left);
    lemma_float_rows_are_the_rows_with_floats(right);
    let pairs = float_pairs(left, right);
    assert forall|k: int|
        #![trigger pairs[k]]
        0 <= k < pairs.len() implies pairs_an_observation(left, right, pairs[k]) by {
        let a = float_rows(left)[k];
        let b = float_rows(right)[k];
        assert(parity_key(a) == parity_key(b));
        assert(left.contains(a) && right.contains(b));
        let i = choose|i: int| 0 <= i < left.len() && left[i] == a;
        let j = choose|j: int| 0 <= j < right.len() && right[j] == b;
        assert(left[i].identity() == right[j].identity());
    }
    assert forall|i: int|
        #![trigger left[i]]
        0 <= i < left.len() && left[i].float_bits is Some implies exists|k: int|
        #![trigger pairs[k]]
        0 <= k < pairs.len() && Some(pairs[k].0) == left[i].float_bits by {
        let k = choose|k: int| 0 <= k < float_rows(left).len() && float_rows(left)[k] == left[i];
        assert(Some(pairs[k].0) == left[i].float_bits);
    }
    assert forall|j: int|
        #![trigger right[j]]
        0 <= j < right.len() && right[j].float_bits is Some implies exists|k: int|
        #![trigger pairs[k]]
        0 <= k < pairs.len() && Some(pairs[k].1) == right[j].float_bits by {
        let k = choose|k: int|
            0 <= k < float_rows(right).len() && float_rows(right)[k] == right[j];
        assert(Some(pairs[k].1) == right[j].float_bits);
    }
}

} // verus!
