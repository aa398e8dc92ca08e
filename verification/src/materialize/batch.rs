//! Rows as the columns of an Arrow record batch.

use vstd::pervasive::unreached;
use vstd::prelude::*;

use super::row::{row_views, MaterializedFeatureRow, RowFields, RowView};
use super::MaterializationError;
use crate::digest::utf8;
use crate::wire::text_view;

verus! {

/// An Arrow record batch, which is opaque here.
#[verifier::external_body]
#[derive(Debug)]
pub struct FeatureBatch {
    pub batch: arrow::record_batch::RecordBatch,
}

/// The values of one column, absent ones among them.
#[derive(Debug)]
pub enum ColumnValues {
    Int64(Vec<Option<i64>>),
    UInt32(Vec<Option<u32>>),
    UInt64(Vec<Option<u64>>),
    Text(Vec<Option<String>>),
}

/// One column of a batch.
#[derive(Debug)]
pub struct Column {
    pub name: &'static str,
    pub nullable: bool,
    pub values: ColumnValues,
}

/// The contents of [`ColumnValues`].
pub enum ColumnView {
    Int64(Seq<Option<i64>>),
    UInt32(Seq<Option<u32>>),
    UInt64(Seq<Option<u64>>),
    Text(Seq<Option<Seq<char>>>),
    /// So many values of another type.
    Other(nat),
}

pub open spec fn optional_texts(texts: Seq<Option<String>>) -> Seq<Option<Seq<char>>> {
    Seq::new(texts.len(), |i: int| text_view(texts[i]))
}

impl View for ColumnValues {
    type V = ColumnView;

    open spec fn view(&self) -> ColumnView {
        match *self {
            ColumnValues::Int64(values) => ColumnView::Int64(values@),
            ColumnValues::UInt32(values) => ColumnView::UInt32(values@),
            ColumnValues::UInt64(values) => ColumnView::UInt64(values@),
            ColumnValues::Text(values) => ColumnView::Text(optional_texts(values@)),
        }
    }
}

impl ColumnView {
    pub open spec fn len(self) -> nat {
        match self {
            ColumnView::Int64(values) => values.len(),
            ColumnView::UInt32(values) => values.len(),
            ColumnView::UInt64(values) => values.len(),
            ColumnView::Text(values) => values.len(),
            ColumnView::Other(count) => count,
        }
    }

    /// No value is absent.
    pub open spec fn is_full(self) -> bool {
        match self {
            ColumnView::Int64(values) => forall|i: int|
                0 <= i < values.len() ==> (#[trigger] values[i]) is Some,
            ColumnView::UInt32(values) => forall|i: int|
                0 <= i < values.len() ==> (#[trigger] values[i]) is Some,
            ColumnView::UInt64(values) => forall|i: int|
                0 <= i < values.len() ==> (#[trigger] values[i]) is Some,
            ColumnView::Text(values) => forall|i: int|
                0 <= i < values.len() ==> (#[trigger] values[i]) is Some,
            ColumnView::Other(_) => false,
        }
    }

    /// The bytes of the texts fit the offsets of a text column.
    pub open spec fn fits_offsets(self) -> bool {
        match self {
            ColumnView::Text(values) => text_bytes(values) <= i32::MAX,
            _ => true,
        }
    }
}

/// The bytes of texts, taken together.
pub open spec fn text_bytes(values: Seq<Option<Seq<char>>>) -> nat
    decreases values.len(),
{
    if values.len() == 0 {
        0
    } else {
        text_bytes(values.drop_last()) + match values.last() {
            Some(text) => utf8(text).len(),
            None => 0,
        }
    }
}

/// A column by its name, whether it may have absent values, and its values.
pub type NamedColumn = (Seq<char>, bool, ColumnView);

pub open spec fn column_views(columns: Seq<Column>) -> Seq<NamedColumn> {
    Seq::new(columns.len(), |i: int| (columns[i].name@, columns[i].nullable, columns[i].values@))
}

/// Columns that make a batch: there is one, all have one length, and none lacks a value that it
/// must have.
pub open spec fn make_a_batch(columns: Seq<NamedColumn>) -> bool {
    &&& columns.len() > 0
    &&& forall|i: int|
        0 <= i < columns.len() ==> (#[trigger] columns[i]).2.len() == columns[0].2.len() && (
        columns[i].1 || columns[i].2.is_full())
}

/// No two columns share a name.
pub open spec fn names_differ(columns: Seq<NamedColumn>) -> bool {
    forall|i: int, j: int|
        0 <= i < j < columns.len() ==> (#[trigger] columns[i]).0 != (#[trigger] columns[j]).0
}

/// The columns of a batch in the order of its schema: each with its name, whether it may have
/// absent values, and its values where it is one of signed, of 32-bit or of 64-bit unsigned
/// integers or of texts.
pub uninterp spec fn batch_columns(batch: FeatureBatch) -> Seq<NamedColumn>;

/// The first column of a name.
pub open spec fn named(columns: Seq<NamedColumn>, name: Seq<char>) -> Option<ColumnView>
    decreases columns.len(),
{
    if columns.len() == 0 {
        None
    } else if columns[0].0 == name {
        Some(columns[0].2)
    } else {
        named(columns.drop_first(), name)
    }
}

proof fn lemma_named(columns: Seq<NamedColumn>, i: int)
    requires
        names_differ(columns),
        0 <= i < columns.len(),
    ensures
        named(columns, columns[i].0) == Some(columns[i].2),
    decreases columns.len(),
{
    if i > 0 {
        let rest = columns.drop_first();
        assert(names_differ(rest)) by {
            assert forall|k: int, j: int| 0 <= k < j < rest.len() implies (#[trigger] rest[k]).0 != (
            #[trigger] rest[j]).0 by {
                assert(rest[k] == columns[k + 1] && rest[j] == columns[j + 1]);
            }
        }
        assert(columns[0].0 != columns[i].0);
        lemma_named(rest, i - 1);
    }
}

proof fn lemma_named_length(columns: Seq<NamedColumn>, count: nat, name: Seq<char>)
    requires
        forall|i: int| 0 <= i < columns.len() ==> (#[trigger] columns[i]).2.len() == count,
    ensures
        named(columns, name) is Some ==> named(columns, name)->Some_0.len() == count,
    decreases columns.len(),
{
    if columns.len() > 0 {
        assert(columns[0].2.len() == count);
        assert forall|i: int| 0 <= i < columns.drop_first().len() implies (
        #[trigger] columns.drop_first()[i]).2.len() == count by {
            assert(columns.drop_first()[i] == columns[i + 1]);
        }
        lemma_named_length(columns.drop_first(), count, name);
    }
}

/// Calls `arrow::record_batch::RecordBatch::try_from_iter_with_nullable` on arrays of the columns'
/// own types. It accepts columns of one length, of which there is at least one, and an absent
/// value only in a column that may have it. The batch holds the columns as they were given. A text
/// column's bytes must fit 32-bit offsets.
#[verifier::external_body]
fn record_batch(columns: Vec<Column>) -> (batch: Option<FeatureBatch>)
    requires
        forall|i: int|
            0 <= i < columns@.len() ==> (#[trigger] columns@[i]).values@.fits_offsets(),
    ensures
        batch is Some <==> make_a_batch(column_views(columns@)),
        batch is Some ==> batch_columns(batch->Some_0) == column_views(columns@),
{
    let arrays = columns.into_iter().map(|column| {
        let array: arrow::array::ArrayRef = match column.values {
            ColumnValues::Int64(values) => std::sync::Arc::new(arrow::array::Int64Array::from(values)),
            ColumnValues::UInt32(values) => std::sync::Arc::new(arrow::array::UInt32Array::from(values)),
            ColumnValues::UInt64(values) => std::sync::Arc::new(arrow::array::UInt64Array::from(values)),
            ColumnValues::Text(values) => std::sync::Arc::new(arrow::array::StringArray::from(values)),
        };
        (column.name, array, column.nullable)
    });
    let batch = arrow::record_batch::RecordBatch::try_from_iter_with_nullable(arrays).ok()?;
    Some(FeatureBatch { batch })
}

/// Calls `num_rows` of `arrow::record_batch::RecordBatch`: every column has that many values.
#[verifier::external_body]
fn batch_rows(batch: &FeatureBatch) -> (count: usize)
    ensures
        forall|i: int|
            0 <= i < batch_columns(*batch).len() ==> (#[trigger] batch_columns(*batch)[i]).2.len()
                == count,
{
    batch.batch.num_rows()
}

/// Calls `column_by_name` of `arrow::record_batch::RecordBatch`, which gives the first column of the
/// name, and reads the column where it is an `arrow::array::Int64Array`.
#[verifier::external_body]
fn int64_column(batch: &FeatureBatch, name: &str) -> (column: Option<
    Vec<Option<i64>>,
>)
    ensures
        match column {
            Some(values) => named(batch_columns(*batch), name@) == Some(
                ColumnView::Int64(values@),
            ),
            None => !(named(batch_columns(*batch), name@) is Some && named(
                batch_columns(*batch),
                name@,
            )->Some_0 is Int64),
        },
{
    let column = batch.batch.column_by_name(name)?;
    let array = column.as_any().downcast_ref::<arrow::array::Int64Array>()?;
    Some(array.iter().collect())
}

/// Calls `column_by_name` of `arrow::record_batch::RecordBatch`, which gives the first column of the
/// name, and reads the column where it is an `arrow::array::UInt32Array`.
#[verifier::external_body]
fn uint32_column(batch: &FeatureBatch, name: &str) -> (column: Option<
    Vec<Option<u32>>,
>)
    ensures
        match column {
            Some(values) => named(batch_columns(*batch), name@) == Some(
                ColumnView::UInt32(values@),
            ),
            None => !(named(batch_columns(*batch), name@) is Some && named(
                batch_columns(*batch),
                name@,
            )->Some_0 is UInt32),
        },
{
    let column = batch.batch.column_by_name(name)?;
    let array = column.as_any().downcast_ref::<arrow::array::UInt32Array>()?;
    Some(array.iter().collect())
}

/// Calls `column_by_name` of `arrow::record_batch::RecordBatch`, which gives the first column of the
/// name, and reads the column where it is an `arrow::array::UInt64Array`.
#[verifier::external_body]
fn uint64_column(batch: &FeatureBatch, name: &str) -> (column: Option<
    Vec<Option<u64>>,
>)
    ensures
        match column {
            Some(values) => named(batch_columns(*batch), name@) == Some(
                ColumnView::UInt64(values@),
            ),
            None => !(named(batch_columns(*batch), name@) is Some && named(
                batch_columns(*batch),
                name@,
            )->Some_0 is UInt64),
        },
{
    let column = batch.batch.column_by_name(name)?;
    let array = column.as_any().downcast_ref::<arrow::array::UInt64Array>()?;
    Some(array.iter().collect())
}

/// Calls `column_by_name` of `arrow::record_batch::RecordBatch`, which gives the first column of the
/// name, and reads the column where it is an `arrow::array::StringArray`.
#[verifier::external_body]
fn string_column(batch: &FeatureBatch, name: &str) -> (column: Option<
    Vec<Option<String>>,
>)
    ensures
        match column {
            Some(values) => named(batch_columns(*batch), name@) == Some(
                ColumnView::Text(optional_texts(values@)),
            ),
            None => !(named(batch_columns(*batch), name@) is Some && named(
                batch_columns(*batch),
                name@,
            )->Some_0 is Text),
        },
{
    let column = batch.batch.column_by_name(name)?;
    let array = column.as_any().downcast_ref::<arrow::array::StringArray>()?;
    Some(array.iter().map(|text| text.map(str::to_owned)).collect())
}

/// The columns of rows, in order.
pub open spec fn columns_of(rows: Seq<RowView>) -> Seq<NamedColumn> {
    seq![
        ("effective_event_time_ns"@, false, ColumnView::Int64(Seq::new(rows.len(), |i: int| Some(rows[i].effective_event_time_ns)))),
        ("exchange_event_time_ns"@, true, ColumnView::Int64(Seq::new(rows.len(), |i: int| rows[i].exchange_event_time_ns))),
        ("receive_wall_time_ns"@, false, ColumnView::Int64(Seq::new(rows.len(), |i: int| Some(rows[i].receive_wall_time_ns)))),
        ("event_type"@, false, ColumnView::Text(Seq::new(rows.len(), |i: int| Some(rows[i].event_type)))),
        ("venue"@, false, ColumnView::Text(Seq::new(rows.len(), |i: int| Some(rows[i].venue)))),
        ("instrument_generation"@, false, ColumnView::UInt32(Seq::new(rows.len(), |i: int| Some(rows[i].instrument_generation)))),
        ("connection_epoch"@, false, ColumnView::UInt64(Seq::new(rows.len(), |i: int| Some(rows[i].connection_epoch)))),
        ("subscription_epoch"@, false, ColumnView::UInt64(Seq::new(rows.len(), |i: int| Some(rows[i].subscription_epoch)))),
        ("wal_record_sequence"@, false, ColumnView::UInt64(Seq::new(rows.len(), |i: int| Some(rows[i].wal_record_sequence)))),
        ("feature_id"@, false, ColumnView::Text(Seq::new(rows.len(), |i: int| Some(rows[i].feature_id)))),
        ("feature_version"@, false, ColumnView::Text(Seq::new(rows.len(), |i: int| Some(rows[i].feature_version)))),
        ("entity_json"@, false, ColumnView::Text(Seq::new(rows.len(), |i: int| Some(rows[i].entity_json)))),
        ("window_id"@, false, ColumnView::Text(Seq::new(rows.len(), |i: int| Some(rows[i].window_id)))),
        ("resolution_ns"@, false, ColumnView::UInt64(Seq::new(rows.len(), |i: int| Some(rows[i].resolution_ns)))),
        ("datum_json"@, false, ColumnView::Text(Seq::new(rows.len(), |i: int| Some(rows[i].datum_json)))),
        ("value_type"@, false, ColumnView::Text(Seq::new(rows.len(), |i: int| Some(rows[i].value_type)))),
        ("event_time_start_ns"@, false, ColumnView::Int64(Seq::new(rows.len(), |i: int| Some(rows[i].event_time_start_ns)))),
        ("event_time_end_ns"@, false, ColumnView::Int64(Seq::new(rows.len(), |i: int| Some(rows[i].event_time_end_ns)))),
        ("as_known_at_ns"@, false, ColumnView::Int64(Seq::new(rows.len(), |i: int| Some(rows[i].as_known_at_ns)))),
        ("computed_at_ns"@, false, ColumnView::Int64(Seq::new(rows.len(), |i: int| Some(rows[i].computed_at_ns)))),
        ("watermark_ns"@, true, ColumnView::Int64(Seq::new(rows.len(), |i: int| rows[i].watermark_ns))),
        ("finality_as_known_at_ns"@, false, ColumnView::Int64(Seq::new(rows.len(), |i: int| Some(rows[i].finality_as_known_at_ns)))),
        ("finality_state"@, false, ColumnView::Text(Seq::new(rows.len(), |i: int| Some(rows[i].finality_state)))),
        ("revision"@, false, ColumnView::UInt32(Seq::new(rows.len(), |i: int| Some(rows[i].revision)))),
        ("source_coverage_json"@, false, ColumnView::Text(Seq::new(rows.len(), |i: int| Some(rows[i].source_coverage_json)))),
        ("quality_millionths"@, false, ColumnView::UInt32(Seq::new(rows.len(), |i: int| Some(rows[i].quality_millionths)))),
        ("normalization_version"@, false, ColumnView::Text(Seq::new(rows.len(), |i: int| Some(rows[i].normalization_version)))),
        ("formula_hash"@, false, ColumnView::Text(Seq::new(rows.len(), |i: int| Some(rows[i].formula_hash)))),
        ("code_commit"@, false, ColumnView::Text(Seq::new(rows.len(), |i: int| Some(rows[i].code_commit)))),
        ("lineage_hash"@, false, ColumnView::Text(Seq::new(rows.len(), |i: int| Some(rows[i].lineage_hash)))),
        ("float_bits"@, true, ColumnView::UInt64(Seq::new(rows.len(), |i: int| rows[i].float_bits))),
    ]
}

/// The columns of rows, as they are gathered or read.
struct BatchColumns {
    effective_event_time_ns: Vec<Option<i64>>,
    exchange_event_time_ns: Vec<Option<i64>>,
    receive_wall_time_ns: Vec<Option<i64>>,
    event_type: Vec<Option<String>>,
    venue: Vec<Option<String>>,
    instrument_generation: Vec<Option<u32>>,
    connection_epoch: Vec<Option<u64>>,
    subscription_epoch: Vec<Option<u64>>,
    wal_record_sequence: Vec<Option<u64>>,
    feature_id: Vec<Option<String>>,
    feature_version: Vec<Option<String>>,
    entity_json: Vec<Option<String>>,
    window_id: Vec<Option<String>>,
    resolution_ns: Vec<Option<u64>>,
    datum_json: Vec<Option<String>>,
    value_type: Vec<Option<String>>,
    event_time_start_ns: Vec<Option<i64>>,
    event_time_end_ns: Vec<Option<i64>>,
    as_known_at_ns: Vec<Option<i64>>,
    computed_at_ns: Vec<Option<i64>>,
    watermark_ns: Vec<Option<i64>>,
    finality_as_known_at_ns: Vec<Option<i64>>,
    finality_state: Vec<Option<String>>,
    revision: Vec<Option<u32>>,
    source_coverage_json: Vec<Option<String>>,
    quality_millionths: Vec<Option<u32>>,
    normalization_version: Vec<Option<String>>,
    formula_hash: Vec<Option<String>>,
    code_commit: Vec<Option<String>>,
    lineage_hash: Vec<Option<String>>,
    float_bits: Vec<Option<u64>>,
}

impl BatchColumns {
    /// The columns hold the values of the rows.
    spec fn gathers(self, rows: Seq<RowView>) -> bool {
        &&& self.effective_event_time_ns@ == Seq::new(rows.len(), |i: int| Some(rows[i].effective_event_time_ns))
        &&& self.exchange_event_time_ns@ == Seq::new(rows.len(), |i: int| rows[i].exchange_event_time_ns)
        &&& self.receive_wall_time_ns@ == Seq::new(rows.len(), |i: int| Some(rows[i].receive_wall_time_ns))
        &&& optional_texts(self.event_type@) == Seq::new(rows.len(), |i: int| Some(rows[i].event_type))
        &&& optional_texts(self.venue@) == Seq::new(rows.len(), |i: int| Some(rows[i].venue))
        &&& self.instrument_generation@ == Seq::new(rows.len(), |i: int| Some(rows[i].instrument_generation))
        &&& self.connection_epoch@ == Seq::new(rows.len(), |i: int| Some(rows[i].connection_epoch))
        &&& self.subscription_epoch@ == Seq::new(rows.len(), |i: int| Some(rows[i].subscription_epoch))
        &&& self.wal_record_sequence@ == Seq::new(rows.len(), |i: int| Some(rows[i].wal_record_sequence))
        &&& optional_texts(self.feature_id@) == Seq::new(rows.len(), |i: int| Some(rows[i].feature_id))
        &&& optional_texts(self.feature_version@) == Seq::new(rows.len(), |i: int| Some(rows[i].feature_version))
        &&& optional_texts(self.entity_json@) == Seq::new(rows.len(), |i: int| Some(rows[i].entity_json))
        &&& optional_texts(self.window_id@) == Seq::new(rows.len(), |i: int| Some(rows[i].window_id))
        &&& self.resolution_ns@ == Seq::new(rows.len(), |i: int| Some(rows[i].resolution_ns))
        &&& optional_texts(self.datum_json@) == Seq::new(rows.len(), |i: int| Some(rows[i].datum_json))
        &&& optional_texts(self.value_type@) == Seq::new(rows.len(), |i: int| Some(rows[i].value_type))
        &&& self.event_time_start_ns@ == Seq::new(rows.len(), |i: int| Some(rows[i].event_time_start_ns))
        &&& self.event_time_end_ns@ == Seq::new(rows.len(), |i: int| Some(rows[i].event_time_end_ns))
        &&& self.as_known_at_ns@ == Seq::new(rows.len(), |i: int| Some(rows[i].as_known_at_ns))
        &&& self.computed_at_ns@ == Seq::new(rows.len(), |i: int| Some(rows[i].computed_at_ns))
        &&& self.watermark_ns@ == Seq::new(rows.len(), |i: int| rows[i].watermark_ns)
        &&& self.finality_as_known_at_ns@ == Seq::new(rows.len(), |i: int| Some(rows[i].finality_as_known_at_ns))
        &&& optional_texts(self.finality_state@) == Seq::new(rows.len(), |i: int| Some(rows[i].finality_state))
        &&& self.revision@ == Seq::new(rows.len(), |i: int| Some(rows[i].revision))
        &&& optional_texts(self.source_coverage_json@) == Seq::new(rows.len(), |i: int| Some(rows[i].source_coverage_json))
        &&& self.quality_millionths@ == Seq::new(rows.len(), |i: int| Some(rows[i].quality_millionths))
        &&& optional_texts(self.normalization_version@) == Seq::new(rows.len(), |i: int| Some(rows[i].normalization_version))
        &&& optional_texts(self.formula_hash@) == Seq::new(rows.len(), |i: int| Some(rows[i].formula_hash))
        &&& optional_texts(self.code_commit@) == Seq::new(rows.len(), |i: int| Some(rows[i].code_commit))
        &&& optional_texts(self.lineage_hash@) == Seq::new(rows.len(), |i: int| Some(rows[i].lineage_hash))
        &&& self.float_bits@ == Seq::new(rows.len(), |i: int| rows[i].float_bits)
    }

    fn into_columns(self) -> (columns: Vec<Column>)
        ensures
            forall|rows: Seq<RowView>| #[trigger]
                self.gathers(rows) ==> column_views(columns@) == columns_of(rows),
    {
        let mut columns: Vec<Column> = Vec::new();
        columns.push(
            Column {
                name: "effective_event_time_ns",
                nullable: false,
                values: ColumnValues::Int64(self.effective_event_time_ns),
            },
        );
        columns.push(
            Column {
                name: "exchange_event_time_ns",
                nullable: true,
                values: ColumnValues::Int64(self.exchange_event_time_ns),
            },
        );
        columns.push(
            Column {
                name: "receive_wall_time_ns",
                nullable: false,
                values: ColumnValues::Int64(self.receive_wall_time_ns),
            },
        );
        columns.push(
            Column {
                name: "event_type",
                nullable: false,
                values: ColumnValues::Text(self.event_type),
            },
        );
        columns.push(
            Column {
                name: "venue",
                nullable: false,
                values: ColumnValues::Text(self.venue),
            },
        );
        columns.push(
            Column {
                name: "instrument_generation",
                nullable: false,
                values: ColumnValues::UInt32(self.instrument_generation),
            },
        );
        columns.push(
            Column {
                name: "connection_epoch",
                nullable: false,
                values: ColumnValues::UInt64(self.connection_epoch),
            },
        );
        columns.push(
            Column {
                name: "subscription_epoch",
                nullable: false,
                values: ColumnValues::UInt64(self.subscription_epoch),
            },
        );
        columns.push(
            Column {
                name: "wal_record_sequence",
                nullable: false,
                values: ColumnValues::UInt64(self.wal_record_sequence),
            },
        );
        columns.push(
            Column {
                name: "feature_id",
                nullable: false,
                values: ColumnValues::Text(self.feature_id),
            },
        );
        columns.push(
            Column {
                name: "feature_version",
                nullable: false,
                values: ColumnValues::Text(self.feature_version),
            },
        );
        columns.push(
            Column {
                name: "entity_json",
                nullable: false,
                values: ColumnValues::Text(self.entity_json),
            },
        );
        columns.push(
            Column {
                name: "window_id",
                nullable: false,
                values: ColumnValues::Text(self.window_id),
            },
        );
        columns.push(
            Column {
                name: "resolution_ns",
                nullable: false,
                values: ColumnValues::UInt64(self.resolution_ns),
            },
        );
        columns.push(
            Column {
                name: "datum_json",
                nullable: false,
                values: ColumnValues::Text(self.datum_json),
            },
        );
        columns.push(
            Column {
                name: "value_type",
                nullable: false,
                values: ColumnValues::Text(self.value_type),
            },
        );
        columns.push(
            Column {
                name: "event_time_start_ns",
                nullable: false,
                values: ColumnValues::Int64(self.event_time_start_ns),
            },
        );
        columns.push(
            Column {
                name: "event_time_end_ns",
                nullable: false,
                values: ColumnValues::Int64(self.event_time_end_ns),
            },
        );
        columns.push(
            Column {
                name: "as_known_at_ns",
                nullable: false,
                values: ColumnValues::Int64(self.as_known_at_ns),
            },
        );
        columns.push(
            Column {
                name: "computed_at_ns",
                nullable: false,
                values: ColumnValues::Int64(self.computed_at_ns),
            },
        );
        columns.push(
            Column {
                name: "watermark_ns",
                nullable: true,
                values: ColumnValues::Int64(self.watermark_ns),
            },
        );
        columns.push(
            Column {
                name: "finality_as_known_at_ns",
                nullable: false,
                values: ColumnValues::Int64(self.finality_as_known_at_ns),
            },
        );
        columns.push(
            Column {
                name: "finality_state",
                nullable: false,
                values: ColumnValues::Text(self.finality_state),
            },
        );
        columns.push(
            Column {
                name: "revision",
                nullable: false,
                values: ColumnValues::UInt32(self.revision),
            },
        );
        columns.push(
            Column {
                name: "source_coverage_json",
                nullable: false,
                values: ColumnValues::Text(self.source_coverage_json),
            },
        );
        columns.push(
            Column {
                name: "quality_millionths",
                nullable: false,
                values: ColumnValues::UInt32(self.quality_millionths),
            },
        );
        columns.push(
            Column {
                name: "normalization_version",
                nullable: false,
                values: ColumnValues::Text(self.normalization_version),
            },
        );
        columns.push(
            Column {
                name: "formula_hash",
                nullable: false,
                values: ColumnValues::Text(self.formula_hash),
            },
        );
        columns.push(
            Column {
                name: "code_commit",
                nullable: false,
                values: ColumnValues::Text(self.code_commit),
            },
        );
        columns.push(
            Column {
                name: "lineage_hash",
                nullable: false,
                values: ColumnValues::Text(self.lineage_hash),
            },
        );
        columns.push(
            Column {
                name: "float_bits",
                nullable: true,
                values: ColumnValues::UInt64(self.float_bits),
            },
        );
        proof {
            assert forall|rows: Seq<RowView>| #[trigger] self.gathers(rows) implies column_views(
                columns@,
            ) == columns_of(rows) by {
                assert(column_views(columns@) =~= columns_of(rows));
            }
        }
        columns
    }
}

fn gather(rows: &Vec<MaterializedFeatureRow>) -> (columns: BatchColumns)
    ensures
        columns.gathers(row_views(rows@)),
{
    let ghost views = row_views(rows@);
    let mut columns = BatchColumns {
        effective_event_time_ns: Vec::new(),
        exchange_event_time_ns: Vec::new(),
        receive_wall_time_ns: Vec::new(),
        event_type: Vec::new(),
        venue: Vec::new(),
        instrument_generation: Vec::new(),
        connection_epoch: Vec::new(),
        subscription_epoch: Vec::new(),
        wal_record_sequence: Vec::new(),
        feature_id: Vec::new(),
        feature_version: Vec::new(),
        entity_json: Vec::new(),
        window_id: Vec::new(),
        resolution_ns: Vec::new(),
        datum_json: Vec::new(),
        value_type: Vec::new(),
        event_time_start_ns: Vec::new(),
        event_time_end_ns: Vec::new(),
        as_known_at_ns: Vec::new(),
        computed_at_ns: Vec::new(),
        watermark_ns: Vec::new(),
        finality_as_known_at_ns: Vec::new(),
        finality_state: Vec::new(),
        revision: Vec::new(),
        source_coverage_json: Vec::new(),
        quality_millionths: Vec::new(),
        normalization_version: Vec::new(),
        formula_hash: Vec::new(),
        code_commit: Vec::new(),
        lineage_hash: Vec::new(),
        float_bits: Vec::new(),
    };
    let mut i: usize = 0;
    proof {
        let none = views.take(0);
        assert(columns.effective_event_time_ns@ =~= Seq::new(none.len(), |i: int| Some(none[i].effective_event_time_ns)));
        assert(columns.exchange_event_time_ns@ =~= Seq::new(none.len(), |i: int| none[i].exchange_event_time_ns));
        assert(columns.receive_wall_time_ns@ =~= Seq::new(none.len(), |i: int| Some(none[i].receive_wall_time_ns)));
        assert(optional_texts(columns.event_type@) =~= Seq::new(none.len(), |i: int| Some(none[i].event_type)));
        assert(optional_texts(columns.venue@) =~= Seq::new(none.len(), |i: int| Some(none[i].venue)));
        assert(columns.instrument_generation@ =~= Seq::new(none.len(), |i: int| Some(none[i].instrument_generation)));
        assert(columns.connection_epoch@ =~= Seq::new(none.len(), |i: int| Some(none[i].connection_epoch)));
        assert(columns.subscription_epoch@ =~= Seq::new(none.len(), |i: int| Some(none[i].subscription_epoch)));
        assert(columns.wal_record_sequence@ =~= Seq::new(none.len(), |i: int| Some(none[i].wal_record_sequence)));
        assert(optional_texts(columns.feature_id@) =~= Seq::new(none.len(), |i: int| Some(none[i].feature_id)));
        assert(optional_texts(columns.feature_version@) =~= Seq::new(none.len(), |i: int| Some(none[i].feature_version)));
        assert(optional_texts(columns.entity_json@) =~= Seq::new(none.len(), |i: int| Some(none[i].entity_json)));
        assert(optional_texts(columns.window_id@) =~= Seq::new(none.len(), |i: int| Some(none[i].window_id)));
        assert(columns.resolution_ns@ =~= Seq::new(none.len(), |i: int| Some(none[i].resolution_ns)));
        assert(optional_texts(columns.datum_json@) =~= Seq::new(none.len(), |i: int| Some(none[i].datum_json)));
        assert(optional_texts(columns.value_type@) =~= Seq::new(none.len(), |i: int| Some(none[i].value_type)));
        assert(columns.event_time_start_ns@ =~= Seq::new(none.len(), |i: int| Some(none[i].event_time_start_ns)));
        assert(columns.event_time_end_ns@ =~= Seq::new(none.len(), |i: int| Some(none[i].event_time_end_ns)));
        assert(columns.as_known_at_ns@ =~= Seq::new(none.len(), |i: int| Some(none[i].as_known_at_ns)));
        assert(columns.computed_at_ns@ =~= Seq::new(none.len(), |i: int| Some(none[i].computed_at_ns)));
        assert(columns.watermark_ns@ =~= Seq::new(none.len(), |i: int| none[i].watermark_ns));
        assert(columns.finality_as_known_at_ns@ =~= Seq::new(none.len(), |i: int| Some(none[i].finality_as_known_at_ns)));
        assert(optional_texts(columns.finality_state@) =~= Seq::new(none.len(), |i: int| Some(none[i].finality_state)));
        assert(columns.revision@ =~= Seq::new(none.len(), |i: int| Some(none[i].revision)));
        assert(optional_texts(columns.source_coverage_json@) =~= Seq::new(none.len(), |i: int| Some(none[i].source_coverage_json)));
        assert(columns.quality_millionths@ =~= Seq::new(none.len(), |i: int| Some(none[i].quality_millionths)));
        assert(optional_texts(columns.normalization_version@) =~= Seq::new(none.len(), |i: int| Some(none[i].normalization_version)));
        assert(optional_texts(columns.formula_hash@) =~= Seq::new(none.len(), |i: int| Some(none[i].formula_hash)));
        assert(optional_texts(columns.code_commit@) =~= Seq::new(none.len(), |i: int| Some(none[i].code_commit)));
        assert(optional_texts(columns.lineage_hash@) =~= Seq::new(none.len(), |i: int| Some(none[i].lineage_hash)));
        assert(columns.float_bits@ =~= Seq::new(none.len(), |i: int| none[i].float_bits));
    }
    while i < rows.len()
        invariant
            i <= rows@.len(),
            views == row_views(rows@),
            columns.gathers(views.take(i as int)),
        decreases rows.len() - i,
    {
        let row = rows[i].fields();
        let ghost before = columns;
        columns.effective_event_time_ns.push(Some(row.effective_event_time_ns));
        columns.exchange_event_time_ns.push(row.exchange_event_time_ns);
        columns.receive_wall_time_ns.push(Some(row.receive_wall_time_ns));
        columns.event_type.push(Some(row.event_type.clone()));
        columns.venue.push(Some(row.venue.clone()));
        columns.instrument_generation.push(Some(row.instrument_generation));
        columns.connection_epoch.push(Some(row.connection_epoch));
        columns.subscription_epoch.push(Some(row.subscription_epoch));
        columns.wal_record_sequence.push(Some(row.wal_record_sequence));
        columns.feature_id.push(Some(row.feature_id.clone()));
        columns.feature_version.push(Some(row.feature_version.clone()));
        columns.entity_json.push(Some(row.entity_json.clone()));
        columns.window_id.push(Some(row.window_id.clone()));
        columns.resolution_ns.push(Some(row.resolution_ns));
        columns.datum_json.push(Some(row.datum_json.clone()));
        columns.value_type.push(Some(row.value_type.clone()));
        columns.event_time_start_ns.push(Some(row.event_time_start_ns));
        columns.event_time_end_ns.push(Some(row.event_time_end_ns));
        columns.as_known_at_ns.push(Some(row.as_known_at_ns));
        columns.computed_at_ns.push(Some(row.computed_at_ns));
        columns.watermark_ns.push(row.watermark_ns);
        columns.finality_as_known_at_ns.push(Some(row.finality_as_known_at_ns));
        columns.finality_state.push(Some(row.finality_state.clone()));
        columns.revision.push(Some(row.revision));
        columns.source_coverage_json.push(Some(row.source_coverage_json.clone()));
        columns.quality_millionths.push(Some(row.quality_millionths));
        columns.normalization_version.push(Some(row.normalization_version.clone()));
        columns.formula_hash.push(Some(row.formula_hash.clone()));
        columns.code_commit.push(Some(row.code_commit.clone()));
        columns.lineage_hash.push(Some(row.lineage_hash.clone()));
        columns.float_bits.push(row.float_bits);
        proof {
            let part = views.take(i + 1);
            assert(part =~= views.take(i as int).push(row@));
            assert(columns.effective_event_time_ns@ =~= Seq::new(part.len(), |i: int| Some(part[i].effective_event_time_ns)));
            assert(columns.exchange_event_time_ns@ =~= Seq::new(part.len(), |i: int| part[i].exchange_event_time_ns));
            assert(columns.receive_wall_time_ns@ =~= Seq::new(part.len(), |i: int| Some(part[i].receive_wall_time_ns)));
            assert(optional_texts(columns.event_type@) =~= optional_texts(before.event_type@).push(Some(row@.event_type)));
            assert(Seq::new(part.len(), |i: int| Some(part[i].event_type)) =~= optional_texts(before.event_type@).push(Some(row@.event_type)));
            assert(optional_texts(columns.venue@) =~= optional_texts(before.venue@).push(Some(row@.venue)));
            assert(Seq::new(part.len(), |i: int| Some(part[i].venue)) =~= optional_texts(before.venue@).push(Some(row@.venue)));
            assert(columns.instrument_generation@ =~= Seq::new(part.len(), |i: int| Some(part[i].instrument_generation)));
            assert(columns.connection_epoch@ =~= Seq::new(part.len(), |i: int| Some(part[i].connection_epoch)));
            assert(columns.subscription_epoch@ =~= Seq::new(part.len(), |i: int| Some(part[i].subscription_epoch)));
            assert(columns.wal_record_sequence@ =~= Seq::new(part.len(), |i: int| Some(part[i].wal_record_sequence)));
            assert(optional_texts(columns.feature_id@) =~= optional_texts(before.feature_id@).push(Some(row@.feature_id)));
            assert(Seq::new(part.len(), |i: int| Some(part[i].feature_id)) =~= optional_texts(before.feature_id@).push(Some(row@.feature_id)));
            assert(optional_texts(columns.feature_version@) =~= optional_texts(before.feature_version@).push(Some(row@.feature_version)));
            assert(Seq::new(part.len(), |i: int| Some(part[i].feature_version)) =~= optional_texts(before.feature_version@).push(Some(row@.feature_version)));
            assert(optional_texts(columns.entity_json@) =~= optional_texts(before.entity_json@).push(Some(row@.entity_json)));
            assert(Seq::new(part.len(), |i: int| Some(part[i].entity_json)) =~= optional_texts(before.entity_json@).push(Some(row@.entity_json)));
            assert(optional_texts(columns.window_id@) =~= optional_texts(before.window_id@).push(Some(row@.window_id)));
            assert(Seq::new(part.len(), |i: int| Some(part[i].window_id)) =~= optional_texts(before.window_id@).push(Some(row@.window_id)));
            assert(columns.resolution_ns@ =~= Seq::new(part.len(), |i: int| Some(part[i].resolution_ns)));
            assert(optional_texts(columns.datum_json@) =~= optional_texts(before.datum_json@).push(Some(row@.datum_json)));
            assert(Seq::new(part.len(), |i: int| Some(part[i].datum_json)) =~= optional_texts(before.datum_json@).push(Some(row@.datum_json)));
            assert(optional_texts(columns.value_type@) =~= optional_texts(before.value_type@).push(Some(row@.value_type)));
            assert(Seq::new(part.len(), |i: int| Some(part[i].value_type)) =~= optional_texts(before.value_type@).push(Some(row@.value_type)));
            assert(columns.event_time_start_ns@ =~= Seq::new(part.len(), |i: int| Some(part[i].event_time_start_ns)));
            assert(columns.event_time_end_ns@ =~= Seq::new(part.len(), |i: int| Some(part[i].event_time_end_ns)));
            assert(columns.as_known_at_ns@ =~= Seq::new(part.len(), |i: int| Some(part[i].as_known_at_ns)));
            assert(columns.computed_at_ns@ =~= Seq::new(part.len(), |i: int| Some(part[i].computed_at_ns)));
            assert(columns.watermark_ns@ =~= Seq::new(part.len(), |i: int| part[i].watermark_ns));
            assert(columns.finality_as_known_at_ns@ =~= Seq::new(part.len(), |i: int| Some(part[i].finality_as_known_at_ns)));
            assert(optional_texts(columns.finality_state@) =~= optional_texts(before.finality_state@).push(Some(row@.finality_state)));
            assert(Seq::new(part.len(), |i: int| Some(part[i].finality_state)) =~= optional_texts(before.finality_state@).push(Some(row@.finality_state)));
            assert(columns.revision@ =~= Seq::new(part.len(), |i: int| Some(part[i].revision)));
            assert(optional_texts(columns.source_coverage_json@) =~= optional_texts(before.source_coverage_json@).push(Some(row@.source_coverage_json)));
            assert(Seq::new(part.len(), |i: int| Some(part[i].source_coverage_json)) =~= optional_texts(before.source_coverage_json@).push(Some(row@.source_coverage_json)));
            assert(columns.quality_millionths@ =~= Seq::new(part.len(), |i: int| Some(part[i].quality_millionths)));
            assert(optional_texts(columns.normalization_version@) =~= optional_texts(before.normalization_version@).push(Some(row@.normalization_version)));
            assert(Seq::new(part.len(), |i: int| Some(part[i].normalization_version)) =~= optional_texts(before.normalization_version@).push(Some(row@.normalization_version)));
            assert(optional_texts(columns.formula_hash@) =~= optional_texts(before.formula_hash@).push(Some(row@.formula_hash)));
            assert(Seq::new(part.len(), |i: int| Some(part[i].formula_hash)) =~= optional_texts(before.formula_hash@).push(Some(row@.formula_hash)));
            assert(optional_texts(columns.code_commit@) =~= optional_texts(before.code_commit@).push(Some(row@.code_commit)));
            assert(Seq::new(part.len(), |i: int| Some(part[i].code_commit)) =~= optional_texts(before.code_commit@).push(Some(row@.code_commit)));
            assert(optional_texts(columns.lineage_hash@) =~= optional_texts(before.lineage_hash@).push(Some(row@.lineage_hash)));
            assert(Seq::new(part.len(), |i: int| Some(part[i].lineage_hash)) =~= optional_texts(before.lineage_hash@).push(Some(row@.lineage_hash)));
            assert(columns.float_bits@ =~= Seq::new(part.len(), |i: int| part[i].float_bits));
        }
        i += 1;
    }
    proof {
        assert(views.take(i as int) =~= views);
    }
    columns
}

/// The letter at a place of a name, or zero behind its end.
spec fn letter(name: Seq<char>, place: int) -> int {
    if place < name.len() {
        name[place] as u32 as int
    } else {
        0
    }
}

/// A number that tells the names of columns apart.
spec fn name_mark(name: Seq<char>) -> int {
    (name.len()) * 1000 + letter(name, 2)
}

/// The place of the column whose name has a mark.
spec fn marked_place(mark: int) -> int {
    if mark == 23102 {
        0
    } else if mark == 22099 {
        1
    } else if mark == 20099 {
        2
    } else if mark == 10101 {
        3
    } else if mark == 5110 {
        4
    } else if mark == 21115 {
        5
    } else if mark == 16110 {
        6
    } else if mark == 18098 {
        7
    } else if mark == 19108 {
        8
    } else if mark == 10097 {
        9
    } else if mark == 15097 {
        10
    } else if mark == 11116 {
        11
    } else if mark == 9110 {
        12
    } else if mark == 13115 {
        13
    } else if mark == 10116 {
        14
    } else if mark == 10108 {
        15
    } else if mark == 19101 {
        16
    } else if mark == 17101 {
        17
    } else if mark == 14095 {
        18
    } else if mark == 14109 {
        19
    } else if mark == 12116 {
        20
    } else if mark == 23110 {
        21
    } else if mark == 14110 {
        22
    } else if mark == 8118 {
        23
    } else if mark == 20117 {
        24
    } else if mark == 18097 {
        25
    } else if mark == 21114 {
        26
    } else if mark == 12114 {
        27
    } else if mark == 11100 {
        28
    } else if mark == 12110 {
        29
    } else if mark == 10111 {
        30
    } else {
        -1
    }
}

proof fn lemma_column_places(rows: Seq<RowView>, i: int)
    requires
        0 <= i < columns_of(rows).len(),
    ensures
        marked_place(name_mark(columns_of(rows)[i].0)) == i,
{
    if i == 0 {
        reveal_strlit("effective_event_time_ns");
        assert(name_mark("effective_event_time_ns"@) == 23102);
    } else if i == 1 {
        reveal_strlit("exchange_event_time_ns");
        assert(name_mark("exchange_event_time_ns"@) == 22099);
    } else if i == 2 {
        reveal_strlit("receive_wall_time_ns");
        assert(name_mark("receive_wall_time_ns"@) == 20099);
    } else if i == 3 {
        reveal_strlit("event_type");
        assert(name_mark("event_type"@) == 10101);
    } else if i == 4 {
        reveal_strlit("venue");
        assert(name_mark("venue"@) == 5110);
    } else if i == 5 {
        reveal_strlit("instrument_generation");
        assert(name_mark("instrument_generation"@) == 21115);
    } else if i == 6 {
        reveal_strlit("connection_epoch");
        assert(name_mark("connection_epoch"@) == 16110);
    } else if i == 7 {
        reveal_strlit("subscription_epoch");
        assert(name_mark("subscription_epoch"@) == 18098);
    } else if i == 8 {
        reveal_strlit("wal_record_sequence");
        assert(name_mark("wal_record_sequence"@) == 19108);
    } else if i == 9 {
        reveal_strlit("feature_id");
        assert(name_mark("feature_id"@) == 10097);
    } else if i == 10 {
        reveal_strlit("feature_version");
        assert(name_mark("feature_version"@) == 15097);
    } else if i == 11 {
        reveal_strlit("entity_json");
        assert(name_mark("entity_json"@) == 11116);
    } else if i == 12 {
        reveal_strlit("window_id");
        assert(name_mark("window_id"@) == 9110);
    } else if i == 13 {
        reveal_strlit("resolution_ns");
        assert(name_mark("resolution_ns"@) == 13115);
    } else if i == 14 {
        reveal_strlit("datum_json");
        assert(name_mark("datum_json"@) == 10116);
    } else if i == 15 {
        reveal_strlit("value_type");
        assert(name_mark("value_type"@) == 10108);
    } else if i == 16 {
        reveal_strlit("event_time_start_ns");
        assert(name_mark("event_time_start_ns"@) == 19101);
    } else if i == 17 {
        reveal_strlit("event_time_end_ns");
        assert(name_mark("event_time_end_ns"@) == 17101);
    } else if i == 18 {
        reveal_strlit("as_known_at_ns");
        assert(name_mark("as_known_at_ns"@) == 14095);
    } else if i == 19 {
        reveal_strlit("computed_at_ns");
        assert(name_mark("computed_at_ns"@) == 14109);
    } else if i == 20 {
        reveal_strlit("watermark_ns");
        assert(name_mark("watermark_ns"@) == 12116);
    } else if i == 21 {
        reveal_strlit("finality_as_known_at_ns");
        assert(name_mark("finality_as_known_at_ns"@) == 23110);
    } else if i == 22 {
        reveal_strlit("finality_state");
        assert(name_mark("finality_state"@) == 14110);
    } else if i == 23 {
        reveal_strlit("revision");
        assert(name_mark("revision"@) == 8118);
    } else if i == 24 {
        reveal_strlit("source_coverage_json");
        assert(name_mark("source_coverage_json"@) == 20117);
    } else if i == 25 {
        reveal_strlit("quality_millionths");
        assert(name_mark("quality_millionths"@) == 18097);
    } else if i == 26 {
        reveal_strlit("normalization_version");
        assert(name_mark("normalization_version"@) == 21114);
    } else if i == 27 {
        reveal_strlit("formula_hash");
        assert(name_mark("formula_hash"@) == 12114);
    } else if i == 28 {
        reveal_strlit("code_commit");
        assert(name_mark("code_commit"@) == 11100);
    } else if i == 29 {
        reveal_strlit("lineage_hash");
        assert(name_mark("lineage_hash"@) == 12110);
    } else if i == 30 {
        reveal_strlit("float_bits");
        assert(name_mark("float_bits"@) == 10111);
    }
}

proof fn lemma_column_names_differ(rows: Seq<RowView>)
    ensures
        names_differ(columns_of(rows)),
{
    let columns = columns_of(rows);
    assert forall|i: int, j: int| 0 <= i < j < columns.len() implies (#[trigger] columns[i]).0 != (
    #[trigger] columns[j]).0 by {
        lemma_column_places(rows, i);
        lemma_column_places(rows, j);
    }
}

proof fn lemma_columns_make_a_batch(rows: Seq<RowView>)
    ensures
        make_a_batch(columns_of(rows)),
{
}

/// The texts of every column fit its offsets.
pub open spec fn texts_fit(rows: Seq<RowView>) -> bool {
    forall|i: int| 0 <= i < columns_of(rows).len() ==> (#[trigger] columns_of(rows)[i]).2.fits_offsets()
}

/// The batch holds the columns of the rows, in order, and no others.
pub open spec fn holds_rows(batch: FeatureBatch, rows: Seq<RowView>) -> bool {
    batch_columns(batch) == columns_of(rows)
}

/// The record batch of rows.
pub fn rows_to_batch(rows: &Vec<MaterializedFeatureRow>) -> (batch: FeatureBatch)
    requires
        texts_fit(row_views(rows@)),
    ensures
        holds_rows(batch, row_views(rows@)),
{
    let columns = gather(rows).into_columns();
    proof {
        let views = row_views(rows@);
        lemma_columns_make_a_batch(views);
        assert forall|i: int| 0 <= i < columns@.len() implies (
        #[trigger] columns@[i]).values@.fits_offsets() by {
            assert(column_views(columns@)[i] == columns_of(views)[i]);
        }
    }
    let batch = match record_batch(columns) {
        Some(batch) => batch,
        None => unreached(),
    };
    batch
}

fn fits_in_offsets(values: &ColumnValues) -> (answer: bool)
    ensures
        answer == values@.fits_offsets(),
{
    match values {
        ColumnValues::Text(texts) => {
            let ghost views = optional_texts(texts@);
            let mut size: usize = 0;
            let mut i: usize = 0;
            proof {
                assert(views.take(0) =~= Seq::empty());
            }
            while i < texts.len()
                invariant
                    i <= texts@.len(),
                    views == optional_texts(texts@),
                    values@ == ColumnView::Text(views),
                    size == text_bytes(views.take(i as int)),
                    size <= i32::MAX,
                decreases texts.len() - i,
            {
                proof {
                    assert(views.take(i + 1).drop_last() =~= views.take(i as int));
                    assert(views.take(i + 1).last() == text_view(texts@[i as int]));
                    lemma_texts_grow(views, i + 1);
                }
                let length: usize = match &texts[i] {
                    Some(text) => text.as_str().as_bytes().len(),
                    None => 0,
                };
                if length > 2_147_483_647 - size {
                    return false;
                }
                size += length;
                i += 1;
            }
            proof {
                assert(views.take(i as int) =~= views);
            }
            true
        },
        _ => true,
    }
}

proof fn lemma_texts_grow(values: Seq<Option<Seq<char>>>, count: int)
    requires
        0 <= count <= values.len(),
    ensures
        text_bytes(values.take(count)) <= text_bytes(values),
    decreases values.len() - count,
{
    if count < values.len() {
        assert(values.take(count + 1).drop_last() =~= values.take(count));
        lemma_texts_grow(values, count + 1);
    } else {
        assert(values.take(count) =~= values);
    }
}

/// The record batch of rows, where the texts of every column fit its offsets.
pub fn fitting_batch(rows: &Vec<MaterializedFeatureRow>) -> (batch: Option<FeatureBatch>)
    ensures
        match batch {
            Some(batch) => texts_fit(row_views(rows@)) && holds_rows(batch, row_views(rows@)),
            None => !texts_fit(row_views(rows@)),
        },
{
    let ghost views = row_views(rows@);
    let columns = gather(rows).into_columns();
    let mut i: usize = 0;
    while i < columns.len()
        invariant
            i <= columns@.len(),
            views == row_views(rows@),
            column_views(columns@) == columns_of(views),
            forall|k: int| 0 <= k < i ==> (#[trigger] columns_of(views)[k]).2.fits_offsets(),
        decreases columns.len() - i,
    {
        proof {
            assert(columns_of(views)[i as int] == column_views(columns@)[i as int]);
        }
        if !fits_in_offsets(&columns[i].values) {
            return None;
        }
        i += 1;
    }
    proof {
        assert(column_views(columns@).len() == columns@.len());
    }
    Some(rows_to_batch(rows))
}

/// The values of a column, if the batch holds it as such.
pub open spec fn int64_values(columns: Seq<NamedColumn>, name: Seq<char>) -> Option<
    Seq<Option<i64>>,
> {
    match named(columns, name) {
        Some(ColumnView::Int64(values)) => Some(values),
        _ => None,
    }
}

/// The values of a column, if the batch holds it as such.
pub open spec fn uint32_values(columns: Seq<NamedColumn>, name: Seq<char>) -> Option<
    Seq<Option<u32>>,
> {
    match named(columns, name) {
        Some(ColumnView::UInt32(values)) => Some(values),
        _ => None,
    }
}

/// The values of a column, if the batch holds it as such.
pub open spec fn uint64_values(columns: Seq<NamedColumn>, name: Seq<char>) -> Option<
    Seq<Option<u64>>,
> {
    match named(columns, name) {
        Some(ColumnView::UInt64(values)) => Some(values),
        _ => None,
    }
}

/// The values of a column, if the batch holds it as such.
pub open spec fn text_values(columns: Seq<NamedColumn>, name: Seq<char>) -> Option<
    Seq<Option<Seq<char>>>,
> {
    match named(columns, name) {
        Some(ColumnView::Text(values)) => Some(values),
        _ => None,
    }
}

/// Every column of rows is there.
pub open spec fn has_every_column(columns: Seq<NamedColumn>) -> bool {
    &&& int64_values(columns, "effective_event_time_ns"@) is Some
    &&& int64_values(columns, "exchange_event_time_ns"@) is Some
    &&& int64_values(columns, "receive_wall_time_ns"@) is Some
    &&& text_values(columns, "event_type"@) is Some
    &&& text_values(columns, "venue"@) is Some
    &&& uint32_values(columns, "instrument_generation"@) is Some
    &&& uint64_values(columns, "connection_epoch"@) is Some
    &&& uint64_values(columns, "subscription_epoch"@) is Some
    &&& uint64_values(columns, "wal_record_sequence"@) is Some
    &&& text_values(columns, "feature_id"@) is Some
    &&& text_values(columns, "feature_version"@) is Some
    &&& text_values(columns, "entity_json"@) is Some
    &&& text_values(columns, "window_id"@) is Some
    &&& uint64_values(columns, "resolution_ns"@) is Some
    &&& text_values(columns, "datum_json"@) is Some
    &&& text_values(columns, "value_type"@) is Some
    &&& int64_values(columns, "event_time_start_ns"@) is Some
    &&& int64_values(columns, "event_time_end_ns"@) is Some
    &&& int64_values(columns, "as_known_at_ns"@) is Some
    &&& int64_values(columns, "computed_at_ns"@) is Some
    &&& int64_values(columns, "watermark_ns"@) is Some
    &&& int64_values(columns, "finality_as_known_at_ns"@) is Some
    &&& text_values(columns, "finality_state"@) is Some
    &&& uint32_values(columns, "revision"@) is Some
    &&& text_values(columns, "source_coverage_json"@) is Some
    &&& uint32_values(columns, "quality_millionths"@) is Some
    &&& text_values(columns, "normalization_version"@) is Some
    &&& text_values(columns, "formula_hash"@) is Some
    &&& text_values(columns, "code_commit"@) is Some
    &&& text_values(columns, "lineage_hash"@) is Some
    &&& uint64_values(columns, "float_bits"@) is Some
}

/// The row at an index, where no value that it must have is absent.
pub open spec fn row_at(columns: Seq<NamedColumn>, i: int) -> Option<RowView> {
    if int64_values(columns, "effective_event_time_ns"@)->Some_0[i] is Some
        && int64_values(columns, "receive_wall_time_ns"@)->Some_0[i] is Some
        && text_values(columns, "event_type"@)->Some_0[i] is Some
        && text_values(columns, "venue"@)->Some_0[i] is Some
        && uint32_values(columns, "instrument_generation"@)->Some_0[i] is Some
        && uint64_values(columns, "connection_epoch"@)->Some_0[i] is Some
        && uint64_values(columns, "subscription_epoch"@)->Some_0[i] is Some
        && uint64_values(columns, "wal_record_sequence"@)->Some_0[i] is Some
        && text_values(columns, "feature_id"@)->Some_0[i] is Some
        && text_values(columns, "feature_version"@)->Some_0[i] is Some
        && text_values(columns, "entity_json"@)->Some_0[i] is Some
        && text_values(columns, "window_id"@)->Some_0[i] is Some
        && uint64_values(columns, "resolution_ns"@)->Some_0[i] is Some
        && text_values(columns, "datum_json"@)->Some_0[i] is Some
        && text_values(columns, "value_type"@)->Some_0[i] is Some
        && int64_values(columns, "event_time_start_ns"@)->Some_0[i] is Some
        && int64_values(columns, "event_time_end_ns"@)->Some_0[i] is Some
        && int64_values(columns, "as_known_at_ns"@)->Some_0[i] is Some
        && int64_values(columns, "computed_at_ns"@)->Some_0[i] is Some
        && int64_values(columns, "finality_as_known_at_ns"@)->Some_0[i] is Some
        && text_values(columns, "finality_state"@)->Some_0[i] is Some
        && uint32_values(columns, "revision"@)->Some_0[i] is Some
        && text_values(columns, "source_coverage_json"@)->Some_0[i] is Some
        && uint32_values(columns, "quality_millionths"@)->Some_0[i] is Some
        && text_values(columns, "normalization_version"@)->Some_0[i] is Some
        && text_values(columns, "formula_hash"@)->Some_0[i] is Some
        && text_values(columns, "code_commit"@)->Some_0[i] is Some
        && text_values(columns, "lineage_hash"@)->Some_0[i] is Some {
        Some(
            RowView {
                effective_event_time_ns: int64_values(columns, "effective_event_time_ns"@)->Some_0[i]->Some_0,
                exchange_event_time_ns: int64_values(columns, "exchange_event_time_ns"@)->Some_0[i],
                receive_wall_time_ns: int64_values(columns, "receive_wall_time_ns"@)->Some_0[i]->Some_0,
                event_type: text_values(columns, "event_type"@)->Some_0[i]->Some_0,
                venue: text_values(columns, "venue"@)->Some_0[i]->Some_0,
                instrument_generation: uint32_values(columns, "instrument_generation"@)->Some_0[i]->Some_0,
                connection_epoch: uint64_values(columns, "connection_epoch"@)->Some_0[i]->Some_0,
                subscription_epoch: uint64_values(columns, "subscription_epoch"@)->Some_0[i]->Some_0,
                wal_record_sequence: uint64_values(columns, "wal_record_sequence"@)->Some_0[i]->Some_0,
                feature_id: text_values(columns, "feature_id"@)->Some_0[i]->Some_0,
                feature_version: text_values(columns, "feature_version"@)->Some_0[i]->Some_0,
                entity_json: text_values(columns, "entity_json"@)->Some_0[i]->Some_0,
                window_id: text_values(columns, "window_id"@)->Some_0[i]->Some_0,
                resolution_ns: uint64_values(columns, "resolution_ns"@)->Some_0[i]->Some_0,
                datum_json: text_values(columns, "datum_json"@)->Some_0[i]->Some_0,
                value_type: text_values(columns, "value_type"@)->Some_0[i]->Some_0,
                event_time_start_ns: int64_values(columns, "event_time_start_ns"@)->Some_0[i]->Some_0,
                event_time_end_ns: int64_values(columns, "event_time_end_ns"@)->Some_0[i]->Some_0,
                as_known_at_ns: int64_values(columns, "as_known_at_ns"@)->Some_0[i]->Some_0,
                computed_at_ns: int64_values(columns, "computed_at_ns"@)->Some_0[i]->Some_0,
                watermark_ns: int64_values(columns, "watermark_ns"@)->Some_0[i],
                finality_as_known_at_ns: int64_values(columns, "finality_as_known_at_ns"@)->Some_0[i]->Some_0,
                finality_state: text_values(columns, "finality_state"@)->Some_0[i]->Some_0,
                revision: uint32_values(columns, "revision"@)->Some_0[i]->Some_0,
                source_coverage_json: text_values(columns, "source_coverage_json"@)->Some_0[i]->Some_0,
                quality_millionths: uint32_values(columns, "quality_millionths"@)->Some_0[i]->Some_0,
                normalization_version: text_values(columns, "normalization_version"@)->Some_0[i]->Some_0,
                formula_hash: text_values(columns, "formula_hash"@)->Some_0[i]->Some_0,
                code_commit: text_values(columns, "code_commit"@)->Some_0[i]->Some_0,
                lineage_hash: text_values(columns, "lineage_hash"@)->Some_0[i]->Some_0,
                float_bits: uint64_values(columns, "float_bits"@)->Some_0[i],
            },
        )
    } else {
        None
    }
}

impl BatchColumns {
    spec fn reads(self, columns: Seq<NamedColumn>) -> bool {
        &&& int64_values(columns, "effective_event_time_ns"@) == Some(self.effective_event_time_ns@)
        &&& int64_values(columns, "exchange_event_time_ns"@) == Some(self.exchange_event_time_ns@)
        &&& int64_values(columns, "receive_wall_time_ns"@) == Some(self.receive_wall_time_ns@)
        &&& text_values(columns, "event_type"@) == Some(optional_texts(self.event_type@))
        &&& text_values(columns, "venue"@) == Some(optional_texts(self.venue@))
        &&& uint32_values(columns, "instrument_generation"@) == Some(self.instrument_generation@)
        &&& uint64_values(columns, "connection_epoch"@) == Some(self.connection_epoch@)
        &&& uint64_values(columns, "subscription_epoch"@) == Some(self.subscription_epoch@)
        &&& uint64_values(columns, "wal_record_sequence"@) == Some(self.wal_record_sequence@)
        &&& text_values(columns, "feature_id"@) == Some(optional_texts(self.feature_id@))
        &&& text_values(columns, "feature_version"@) == Some(optional_texts(self.feature_version@))
        &&& text_values(columns, "entity_json"@) == Some(optional_texts(self.entity_json@))
        &&& text_values(columns, "window_id"@) == Some(optional_texts(self.window_id@))
        &&& uint64_values(columns, "resolution_ns"@) == Some(self.resolution_ns@)
        &&& text_values(columns, "datum_json"@) == Some(optional_texts(self.datum_json@))
        &&& text_values(columns, "value_type"@) == Some(optional_texts(self.value_type@))
        &&& int64_values(columns, "event_time_start_ns"@) == Some(self.event_time_start_ns@)
        &&& int64_values(columns, "event_time_end_ns"@) == Some(self.event_time_end_ns@)
        &&& int64_values(columns, "as_known_at_ns"@) == Some(self.as_known_at_ns@)
        &&& int64_values(columns, "computed_at_ns"@) == Some(self.computed_at_ns@)
        &&& int64_values(columns, "watermark_ns"@) == Some(self.watermark_ns@)
        &&& int64_values(columns, "finality_as_known_at_ns"@) == Some(self.finality_as_known_at_ns@)
        &&& text_values(columns, "finality_state"@) == Some(optional_texts(self.finality_state@))
        &&& uint32_values(columns, "revision"@) == Some(self.revision@)
        &&& text_values(columns, "source_coverage_json"@) == Some(optional_texts(self.source_coverage_json@))
        &&& uint32_values(columns, "quality_millionths"@) == Some(self.quality_millionths@)
        &&& text_values(columns, "normalization_version"@) == Some(optional_texts(self.normalization_version@))
        &&& text_values(columns, "formula_hash"@) == Some(optional_texts(self.formula_hash@))
        &&& text_values(columns, "code_commit"@) == Some(optional_texts(self.code_commit@))
        &&& text_values(columns, "lineage_hash"@) == Some(optional_texts(self.lineage_hash@))
        &&& uint64_values(columns, "float_bits"@) == Some(self.float_bits@)
    }

    spec fn has_length(self, count: nat) -> bool {
        &&& self.effective_event_time_ns@.len() == count
        &&& self.exchange_event_time_ns@.len() == count
        &&& self.receive_wall_time_ns@.len() == count
        &&& self.event_type@.len() == count
        &&& self.venue@.len() == count
        &&& self.instrument_generation@.len() == count
        &&& self.connection_epoch@.len() == count
        &&& self.subscription_epoch@.len() == count
        &&& self.wal_record_sequence@.len() == count
        &&& self.feature_id@.len() == count
        &&& self.feature_version@.len() == count
        &&& self.entity_json@.len() == count
        &&& self.window_id@.len() == count
        &&& self.resolution_ns@.len() == count
        &&& self.datum_json@.len() == count
        &&& self.value_type@.len() == count
        &&& self.event_time_start_ns@.len() == count
        &&& self.event_time_end_ns@.len() == count
        &&& self.as_known_at_ns@.len() == count
        &&& self.computed_at_ns@.len() == count
        &&& self.watermark_ns@.len() == count
        &&& self.finality_as_known_at_ns@.len() == count
        &&& self.finality_state@.len() == count
        &&& self.revision@.len() == count
        &&& self.source_coverage_json@.len() == count
        &&& self.quality_millionths@.len() == count
        &&& self.normalization_version@.len() == count
        &&& self.formula_hash@.len() == count
        &&& self.code_commit@.len() == count
        &&& self.lineage_hash@.len() == count
        &&& self.float_bits@.len() == count
    }
}

fn read_columns(batch: &FeatureBatch) -> (columns: Option<BatchColumns>)
    ensures
        columns is Some <==> has_every_column(batch_columns(*batch)),
        columns is Some ==> columns->Some_0.reads(batch_columns(*batch)),
{
    let effective_event_time_ns = int64_column(batch, "effective_event_time_ns")?;
    let exchange_event_time_ns = int64_column(batch, "exchange_event_time_ns")?;
    let receive_wall_time_ns = int64_column(batch, "receive_wall_time_ns")?;
    let event_type = string_column(batch, "event_type")?;
    let venue = string_column(batch, "venue")?;
    let instrument_generation = uint32_column(batch, "instrument_generation")?;
    let connection_epoch = uint64_column(batch, "connection_epoch")?;
    let subscription_epoch = uint64_column(batch, "subscription_epoch")?;
    let wal_record_sequence = uint64_column(batch, "wal_record_sequence")?;
    let feature_id = string_column(batch, "feature_id")?;
    let feature_version = string_column(batch, "feature_version")?;
    let entity_json = string_column(batch, "entity_json")?;
    let window_id = string_column(batch, "window_id")?;
    let resolution_ns = uint64_column(batch, "resolution_ns")?;
    let datum_json = string_column(batch, "datum_json")?;
    let value_type = string_column(batch, "value_type")?;
    let event_time_start_ns = int64_column(batch, "event_time_start_ns")?;
    let event_time_end_ns = int64_column(batch, "event_time_end_ns")?;
    let as_known_at_ns = int64_column(batch, "as_known_at_ns")?;
    let computed_at_ns = int64_column(batch, "computed_at_ns")?;
    let watermark_ns = int64_column(batch, "watermark_ns")?;
    let finality_as_known_at_ns = int64_column(batch, "finality_as_known_at_ns")?;
    let finality_state = string_column(batch, "finality_state")?;
    let revision = uint32_column(batch, "revision")?;
    let source_coverage_json = string_column(batch, "source_coverage_json")?;
    let quality_millionths = uint32_column(batch, "quality_millionths")?;
    let normalization_version = string_column(batch, "normalization_version")?;
    let formula_hash = string_column(batch, "formula_hash")?;
    let code_commit = string_column(batch, "code_commit")?;
    let lineage_hash = string_column(batch, "lineage_hash")?;
    let float_bits = uint64_column(batch, "float_bits")?;
    Some(
        BatchColumns {
            effective_event_time_ns,
            exchange_event_time_ns,
            receive_wall_time_ns,
            event_type,
            venue,
            instrument_generation,
            connection_epoch,
            subscription_epoch,
            wal_record_sequence,
            feature_id,
            feature_version,
            entity_json,
            window_id,
            resolution_ns,
            datum_json,
            value_type,
            event_time_start_ns,
            event_time_end_ns,
            as_known_at_ns,
            computed_at_ns,
            watermark_ns,
            finality_as_known_at_ns,
            finality_state,
            revision,
            source_coverage_json,
            quality_millionths,
            normalization_version,
            formula_hash,
            code_commit,
            lineage_hash,
            float_bits,
        },
    )
}

fn copied_text(text: &Option<String>) -> (copy: Option<String>)
    ensures
        text_view(copy) == text_view(*text),
{
    match text {
        Some(text) => Some(text.clone()),
        None => None,
    }
}

fn read_row(columns: &BatchColumns, i: usize, Ghost(map): Ghost<Seq<NamedColumn>>) -> (row:
    Option<RowFields>)
    requires
        columns.reads(map),
        columns.has_length(columns.effective_event_time_ns@.len()),
        i < columns.effective_event_time_ns@.len(),
    ensures
        match row {
            Some(fields) => row_at(map, i as int) == Some(fields@),
            None => row_at(map, i as int) is None,
        },
{
    proof {
        assert(text_values(map, "event_type"@)->Some_0[i as int] == text_view(columns.event_type@[i as int]));
        assert(text_values(map, "venue"@)->Some_0[i as int] == text_view(columns.venue@[i as int]));
        assert(text_values(map, "feature_id"@)->Some_0[i as int] == text_view(columns.feature_id@[i as int]));
        assert(text_values(map, "feature_version"@)->Some_0[i as int] == text_view(columns.feature_version@[i as int]));
        assert(text_values(map, "entity_json"@)->Some_0[i as int] == text_view(columns.entity_json@[i as int]));
        assert(text_values(map, "window_id"@)->Some_0[i as int] == text_view(columns.window_id@[i as int]));
        assert(text_values(map, "datum_json"@)->Some_0[i as int] == text_view(columns.datum_json@[i as int]));
        assert(text_values(map, "value_type"@)->Some_0[i as int] == text_view(columns.value_type@[i as int]));
        assert(text_values(map, "finality_state"@)->Some_0[i as int] == text_view(columns.finality_state@[i as int]));
        assert(text_values(map, "source_coverage_json"@)->Some_0[i as int] == text_view(columns.source_coverage_json@[i as int]));
        assert(text_values(map, "normalization_version"@)->Some_0[i as int] == text_view(columns.normalization_version@[i as int]));
        assert(text_values(map, "formula_hash"@)->Some_0[i as int] == text_view(columns.formula_hash@[i as int]));
        assert(text_values(map, "code_commit"@)->Some_0[i as int] == text_view(columns.code_commit@[i as int]));
        assert(text_values(map, "lineage_hash"@)->Some_0[i as int] == text_view(columns.lineage_hash@[i as int]));
    }
    Some(
        RowFields {
            effective_event_time_ns: columns.effective_event_time_ns[i]?,
            exchange_event_time_ns: columns.exchange_event_time_ns[i],
            receive_wall_time_ns: columns.receive_wall_time_ns[i]?,
            event_type: copied_text(&columns.event_type[i])?,
            venue: copied_text(&columns.venue[i])?,
            instrument_generation: columns.instrument_generation[i]?,
            connection_epoch: columns.connection_epoch[i]?,
            subscription_epoch: columns.subscription_epoch[i]?,
            wal_record_sequence: columns.wal_record_sequence[i]?,
            feature_id: copied_text(&columns.feature_id[i])?,
            feature_version: copied_text(&columns.feature_version[i])?,
            entity_json: copied_text(&columns.entity_json[i])?,
            window_id: copied_text(&columns.window_id[i])?,
            resolution_ns: columns.resolution_ns[i]?,
            datum_json: copied_text(&columns.datum_json[i])?,
            value_type: copied_text(&columns.value_type[i])?,
            event_time_start_ns: columns.event_time_start_ns[i]?,
            event_time_end_ns: columns.event_time_end_ns[i]?,
            as_known_at_ns: columns.as_known_at_ns[i]?,
            computed_at_ns: columns.computed_at_ns[i]?,
            watermark_ns: columns.watermark_ns[i],
            finality_as_known_at_ns: columns.finality_as_known_at_ns[i]?,
            finality_state: copied_text(&columns.finality_state[i])?,
            revision: columns.revision[i]?,
            source_coverage_json: copied_text(&columns.source_coverage_json[i])?,
            quality_millionths: columns.quality_millionths[i]?,
            normalization_version: copied_text(&columns.normalization_version[i])?,
            formula_hash: copied_text(&columns.formula_hash[i])?,
            code_commit: copied_text(&columns.code_commit[i])?,
            lineage_hash: copied_text(&columns.lineage_hash[i])?,
            float_bits: columns.float_bits[i],
        },
    )
}

/// The rows of one batch, or none where a column or a value is lacking.
pub open spec fn batch_fields(columns: Seq<NamedColumn>) -> Option<Seq<RowView>> {
    let count = int64_values(columns, "effective_event_time_ns"@)->Some_0.len();
    if !has_every_column(columns) || exists|i: int|
        0 <= i < count && #[trigger] row_at(columns, i) is None {
        None
    } else {
        Some(Seq::new(count, |i: int| row_at(columns, i)->Some_0))
    }
}

/// The contents of a list of rows that are not checked yet.
pub open spec fn field_views(fields: Seq<RowFields>) -> Seq<RowView> {
    Seq::new(fields.len(), |i: int| fields[i]@)
}

/// Reads the rows of one batch.
pub fn rows_from_batch(batch: &FeatureBatch) -> (result: Result<
    Vec<RowFields>,
    MaterializationError,
>)
    ensures
        match batch_fields(batch_columns(*batch)) {
            None => result is Err && result->Err_0 == MaterializationError::InvalidRow,
            Some(rows) => result is Ok && field_views(result->Ok_0@) == rows,
        },
{
    let count: usize = batch_rows(batch);
    let columns = match read_columns(batch) {
        None => {
            return Err(MaterializationError::InvalidRow);
        },
        Some(columns) => columns,
    };
    let ghost map = batch_columns(*batch);
    proof {
        assert forall|name: Seq<char>| #[trigger] named(map, name) is Some implies named(
            map,
            name,
        )->Some_0.len() == count by {
            lemma_named_length(map, count as nat, name);
        }
        assert(columns.has_length(count as nat));
    }
    let mut fields: Vec<RowFields> = Vec::new();
    let mut i: usize = 0;
    while i < count
        invariant
            i <= count,
            map == batch_columns(*batch),
            has_every_column(map),
            columns.reads(map),
            columns.has_length(count as nat),
            fields@.len() == i,
            forall|k: int| 0 <= k < i ==> #[trigger] row_at(map, k) == Some(fields@[k]@),
        decreases count - i,
    {
        match read_row(&columns, i, Ghost(map)) {
            None => {
                proof {
                    assert(row_at(map, i as int) is None);
                }
                return Err(MaterializationError::InvalidRow);
            },
            Some(row) => {
                fields.push(row);
            },
        }
        i += 1;
    }
    proof {
        let rows = batch_fields(map)->Some_0;
        assert forall|k: int| 0 <= k < rows.len() implies field_views(fields@)[k] == rows[k] by {
            assert(row_at(map, k) == Some(fields@[k]@));
        }
        assert(field_views(fields@) =~= rows);
    }
    Ok(fields)
}

/// The rows of batches, one behind the other, or none where one of them cannot be read.
pub open spec fn batches_fields(batches: Seq<FeatureBatch>) -> Option<
    Seq<RowView>,
>
    decreases batches.len(),
{
    if batches.len() == 0 {
        Some(Seq::empty())
    } else {
        match (batches_fields(batches.drop_last()), batch_fields(batch_columns(batches.last()))) {
            (Some(before), Some(rows)) => Some(before + rows),
            _ => None,
        }
    }
}

proof fn lemma_batches_fail(batches: Seq<FeatureBatch>, count: int)
    requires
        0 <= count <= batches.len(),
        batches_fields(batches.take(count)) is None,
    ensures
        batches_fields(batches) is None,
    decreases batches.len() - count,
{
    if count < batches.len() {
        assert(batches.take(count + 1).drop_last() =~= batches.take(count));
        lemma_batches_fail(batches, count + 1);
    } else {
        assert(batches.take(count) =~= batches);
    }
}

/// Reads the rows of batches.
pub fn rows_from_batches(batches: &Vec<FeatureBatch>) -> (result: Result<
    Vec<RowFields>,
    MaterializationError,
>)
    ensures
        match batches_fields(batches@) {
            None => result is Err && result->Err_0 == MaterializationError::InvalidRow,
            Some(rows) => result is Ok && field_views(result->Ok_0@) == rows,
        },
{
    let mut all: Vec<RowFields> = Vec::new();
    let mut i: usize = 0;
    proof {
        assert(batches@.take(0) =~= Seq::empty());
        assert(field_views(all@) =~= Seq::empty());
    }
    while i < batches.len()
        invariant
            i <= batches@.len(),
            batches_fields(batches@.take(i as int)) == Some(field_views(all@)),
        decreases batches.len() - i,
    {
        proof {
            assert(batches@.take(i + 1).drop_last() =~= batches@.take(i as int));
            assert(batches@.take(i + 1).last() == batches@[i as int]);
            if batches_fields(batches@.take(i + 1)) is None {
                lemma_batches_fail(batches@, i + 1);
            }
        }
        let ghost before = all@;
        let mut rows = rows_from_batch(&batches[i])?;
        let ghost read = rows@;
        all.append(&mut rows);
        proof {
            assert(field_views(all@) =~= field_views(before) + field_views(read));
        }
        i += 1;
    }
    proof {
        assert(batches@.take(i as int) =~= batches@);
    }
    Ok(all)
}

/// What was written to a batch is read back from it.
pub proof fn lemma_batches_read_back(
    batch: FeatureBatch,
    rows: Seq<RowView>,
)
    requires
        holds_rows(batch, rows),
    ensures
        batch_fields(batch_columns(batch)) == Some(rows),
{
    let map = batch_columns(batch);
    let columns = columns_of(rows);
    assert(columns.len() == 31);
    lemma_column_names_differ(rows);
    assert forall|i: int| 0 <= i < columns.len() implies named(
        columns,
        (#[trigger] columns[i]).0,
    ) == Some(columns[i].2) by {
        lemma_named(columns, i);
    }
    assert(columns[0].0 == "effective_event_time_ns"@);
    assert(columns[1].0 == "exchange_event_time_ns"@);
    assert(columns[2].0 == "receive_wall_time_ns"@);
    assert(columns[3].0 == "event_type"@);
    assert(columns[4].0 == "venue"@);
    assert(columns[5].0 == "instrument_generation"@);
    assert(columns[6].0 == "connection_epoch"@);
    assert(columns[7].0 == "subscription_epoch"@);
    assert(columns[8].0 == "wal_record_sequence"@);
    assert(columns[9].0 == "feature_id"@);
    assert(columns[10].0 == "feature_version"@);
    assert(columns[11].0 == "entity_json"@);
    assert(columns[12].0 == "window_id"@);
    assert(columns[13].0 == "resolution_ns"@);
    assert(columns[14].0 == "datum_json"@);
    assert(columns[15].0 == "value_type"@);
    assert(columns[16].0 == "event_time_start_ns"@);
    assert(columns[17].0 == "event_time_end_ns"@);
    assert(columns[18].0 == "as_known_at_ns"@);
    assert(columns[19].0 == "computed_at_ns"@);
    assert(columns[20].0 == "watermark_ns"@);
    assert(columns[21].0 == "finality_as_known_at_ns"@);
    assert(columns[22].0 == "finality_state"@);
    assert(columns[23].0 == "revision"@);
    assert(columns[24].0 == "source_coverage_json"@);
    assert(columns[25].0 == "quality_millionths"@);
    assert(columns[26].0 == "normalization_version"@);
    assert(columns[27].0 == "formula_hash"@);
    assert(columns[28].0 == "code_commit"@);
    assert(columns[29].0 == "lineage_hash"@);
    assert(columns[30].0 == "float_bits"@);
    assert(has_every_column(map));
    assert forall|i: int| 0 <= i < rows.len() implies #[trigger] row_at(map, i) == Some(rows[i]) by {}
    let count = int64_values(map, "effective_event_time_ns"@)->Some_0.len();
    assert(count == rows.len());
    assert(batch_fields(map)->Some_0 =~= rows);
}

} // verus!
