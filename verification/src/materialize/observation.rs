//! The row that an emitted observation is stored as.

use vstd::prelude::*;
use vstd::string::StringExecFns;

use super::row::{
    datum_is_stored, finality_name, is_decimal_text, is_lower_hash, is_reason_name,
    lemma_stored_names_tell_apart, lemma_value_types_read_back, row_is_sound, stored_finality,
    stored_reason, stored_reason_name, stored_type, times_are_ordered,
    value_type_name, MaterializedFeatureRow, RowFields, RowView, MAX_FIXED_DECIMAL_MAP_ENTRIES,
};
use super::MaterializationError;
use crate::decimal::{
    denotes_at, digits_ascii, lemma_decimal_text_reads_back, padded_ascii, FixedDecimal,
};
use crate::digest::{utf8, zero_digest};
use crate::domain::{lemma_utf8_injective, FinalityState, MissingnessReason};
use crate::registry::{
    is_release, version_ascii, version_parts, DatumView, FeatureDatum, FeatureObservation,
    FeatureValue, FeatureValueType, FeatureVersion,
};
use crate::wire::{
    boolean_json, hex_ascii, hex_text, integer_ascii, integer_json, is_canonical_json, is_given,
    json_decoded, json_quoted, object_json, object_text, pair_views, quoted_json,
};

verus! {

/// ASCII bytes as characters.
pub open spec fn ascii_chars(bytes: Seq<u8>) -> Seq<char> {
    bytes.map_values(|byte: u8| byte as char)
}

/// Every byte is ASCII.
pub open spec fn all_ascii(bytes: Seq<u8>) -> bool {
    forall|i: int| 0 <= i < bytes.len() ==> #[trigger] bytes[i] < 128
}

/// A text whose bytes are ASCII is made of just those characters.
pub proof fn lemma_ascii_text(text: Seq<char>, bytes: Seq<u8>)
    requires
        utf8(text) == bytes,
        all_ascii(bytes),
    ensures
        text == ascii_chars(bytes),
{
    lemma_ascii_bytes(bytes);
    lemma_utf8_injective(text, ascii_chars(bytes));
}

proof fn lemma_ascii_bytes(bytes: Seq<u8>)
    requires
        all_ascii(bytes),
    ensures
        utf8(ascii_chars(bytes)) == bytes,
{
    let text = ascii_chars(bytes);
    assert forall|i: int| 0 <= i < text.len() implies 0 <= (#[trigger] text[i]) as u32
        <= 127 by {
        assert(bytes[i] < 128);
    }
    assert(vstd::utf8::is_ascii_chars(text));
    vstd::utf8::is_ascii_chars_encode_utf8(text);
    assert(utf8(text) =~= bytes) by {
        assert forall|i: int| 0 <= i < bytes.len() implies utf8(text)[i] == bytes[i] by {
            assert(bytes[i] < 128);
        }
    }
}

/// A digit, a sign or a point.
pub open spec fn is_number_byte(byte: u8) -> bool {
    48 <= byte <= 57 || byte == 45 || byte == 46
}

pub open spec fn are_number_bytes(bytes: Seq<u8>) -> bool {
    forall|i: int| 0 <= i < bytes.len() ==> is_number_byte(#[trigger] bytes[i])
}

fn number_letter(byte: u8) -> (letter: &'static str)
    requires
        is_number_byte(byte),
    ensures
        letter@ == seq![byte as char],
{
    let letter = if byte == 45 {
        "-"
    } else if byte == 46 {
        "."
    } else if byte == 48 {
        "0"
    } else if byte == 49 {
        "1"
    } else if byte == 50 {
        "2"
    } else if byte == 51 {
        "3"
    } else if byte == 52 {
        "4"
    } else if byte == 53 {
        "5"
    } else if byte == 54 {
        "6"
    } else if byte == 55 {
        "7"
    } else if byte == 56 {
        "8"
    } else {
        "9"
    };
    proof {
        reveal_strlit("-");
        reveal_strlit(".");
        reveal_strlit("0");
        reveal_strlit("1");
        reveal_strlit("2");
        reveal_strlit("3");
        reveal_strlit("4");
        reveal_strlit("5");
        reveal_strlit("6");
        reveal_strlit("7");
        reveal_strlit("8");
        reveal_strlit("9");
        assert(letter@ =~= seq![byte as char]);
    }
    letter
}

fn number_text(bytes: &Vec<u8>) -> (text: String)
    requires
        are_number_bytes(bytes@),
    ensures
        text@ == ascii_chars(bytes@),
{
    let mut text = String::new();
    let mut i: usize = 0;
    proof {
        assert(text@ =~= ascii_chars(bytes@).take(0));
    }
    while i < bytes.len()
        invariant
            i <= bytes@.len(),
            are_number_bytes(bytes@),
            text@ == ascii_chars(bytes@).take(i as int),
        decreases bytes.len() - i,
    {
        text.append(number_letter(bytes[i]));
        proof {
            assert(text@ =~= ascii_chars(bytes@).take(i + 1));
        }
        i += 1;
    }
    proof {
        assert(ascii_chars(bytes@).take(i as int) =~= ascii_chars(bytes@));
    }
    text
}

proof fn lemma_digits_are_number_bytes(value: nat)
    ensures
        are_number_bytes(digits_ascii(value)),
    decreases value,
{
    if value >= 10 {
        lemma_digits_are_number_bytes(value / 10);
    }
}

proof fn lemma_padded_are_number_bytes(value: nat, width: nat)
    ensures
        are_number_bytes(padded_ascii(value, width)),
    decreases width,
{
    if width > 0 {
        lemma_padded_are_number_bytes(value / 10, (width - 1) as nat);
    }
}

proof fn lemma_decimal_is_number_bytes(value: FixedDecimal)
    ensures
        are_number_bytes(value.ascii()),
{
    let size = crate::decimal::magnitude(value.digits());
    lemma_digits_are_number_bytes((size / crate::decimal::pow10(value.places())) as nat);
    lemma_padded_are_number_bytes(
        (size % crate::decimal::pow10(value.places())) as nat,
        value.places(),
    );
}

/// The text of a decimal.
pub open spec fn decimal_chars(value: FixedDecimal) -> Seq<char> {
    ascii_chars(value.ascii())
}

fn decimal_text(value: &FixedDecimal) -> (text: String)
    ensures
        text@ == decimal_chars(*value),
        value.is_canonical(),
{
    let bytes = value.to_ascii();
    proof {
        lemma_decimal_is_number_bytes(*value);
    }
    number_text(&bytes)
}

fn integer_text(value: i64) -> (text: String)
    ensures
        text@ == ascii_chars(integer_ascii(value as int)),
        json_decoded(text@) is Some,
        json_decoded(text@)->Some_0.integer == Some(value),
        json_decoded(text@)->Some_0.entries is None,
        is_canonical_json(text@),
{
    let text = integer_json(value);
    proof {
        let bytes = integer_ascii(value as int);
        if value < 0 {
            lemma_digits_are_number_bytes((-value) as nat);
        } else {
            lemma_digits_are_number_bytes(value as nat);
        }
        assert forall|i: int| 0 <= i < bytes.len() implies #[trigger] bytes[i] < 128 by {
            assert(is_number_byte(bytes[i]));
        }
        lemma_ascii_text(text@, bytes);
    }
    text
}

/// The entries of a stored map of decimals.
pub open spec fn decimal_pairs(pairs: Seq<(FixedDecimal, FixedDecimal)>) -> Seq<
    (Seq<char>, Seq<char>),
> {
    Seq::new(pairs.len(), |i: int| (decimal_chars(pairs[i].0), decimal_chars(pairs[i].1)))
}

/// The text that a datum is stored as. A floating-point value is stored as the text given for it.
pub open spec fn stored_datum(datum: DatumView, float_json: Seq<char>) -> Seq<char> {
    match datum {
        DatumView::FixedDecimal(value) => json_quoted(decimal_chars(value)),
        DatumView::FixedDecimalMap(pairs) => object_text(decimal_pairs(pairs)),
        DatumView::Float64(_) => float_json,
        DatumView::Integer(value) => ascii_chars(integer_ascii(value as int)),
        DatumView::Boolean(value) => if value {
            "true"@
        } else {
            "false"@
        },
        DatumView::Missing(reason) => object_text(seq![("missing"@, stored_reason(reason))]),
    }
}

/// Every decimal of the pairs is in its canonical form.
pub open spec fn are_canonical(pairs: Seq<(FixedDecimal, FixedDecimal)>) -> bool {
    forall|i: int|
        0 <= i < pairs.len() ==> (#[trigger] pairs[i]).0.is_canonical() && pairs[i].1.is_canonical()
}

fn decimal_entries(pairs: &Vec<(FixedDecimal, FixedDecimal)>) -> (entries: Vec<(String, String)>)
    ensures
        pair_views(entries@) == decimal_pairs(pairs@),
        are_canonical(pairs@),
{
    let mut entries: Vec<(String, String)> = Vec::new();
    let mut i: usize = 0;
    proof {
        assert(pair_views(entries@) =~= decimal_pairs(pairs@).take(0));
    }
    while i < pairs.len()
        invariant
            i <= pairs@.len(),
            pair_views(entries@) == decimal_pairs(pairs@).take(i as int),
            are_canonical(pairs@.take(i as int)),
        decreases pairs.len() - i,
    {
        let key = decimal_text(&pairs[i].0);
        let item = decimal_text(&pairs[i].1);
        let ghost before = entries@;
        entries.push((key, item));
        proof {
            assert(pair_views(entries@) =~= pair_views(before).push((key@, item@)));
            assert(decimal_pairs(pairs@).take(i + 1) =~= decimal_pairs(pairs@).take(i as int).push(
                (key@, item@),
            ));
            assert(pairs@.take(i + 1) =~= pairs@.take(i as int).push(pairs@[i as int]));
        }
        i += 1;
    }
    proof {
        assert(decimal_pairs(pairs@).take(i as int) =~= decimal_pairs(pairs@));
        assert(pairs@.take(i as int) =~= pairs@);
    }
    entries
}

/// The digits of a decimal can be read back from its text.
pub open spec fn is_readable(value: FixedDecimal) -> bool {
    value.digits() > i128::MIN
}

/// Every decimal of a datum can be read back, and a map of them is not too large.
pub open spec fn datum_is_readable(datum: DatumView) -> bool {
    match datum {
        DatumView::FixedDecimal(value) => is_readable(value),
        DatumView::FixedDecimalMap(pairs) => {
            &&& pairs.len() <= MAX_FIXED_DECIMAL_MAP_ENTRIES
            &&& forall|i: int|
                0 <= i < pairs.len() ==> is_readable((#[trigger] pairs[i]).0) && is_readable(
                    pairs[i].1,
                )
        },
        _ => true,
    }
}

/// The text of a floating-point value reads back as its bit pattern, and is written again as it is.
pub open spec fn is_float_text(text: Seq<char>, bits: u64) -> bool {
    &&& json_decoded(text) is Some
    &&& json_decoded(text)->Some_0.entries is None
    &&& json_decoded(text)->Some_0.number_bits == Some(bits)
    &&& is_canonical_json(text)
}

/// A datum that fits its type, with the text given for a floating-point value.
pub open spec fn datum_is_storable(
    datum: DatumView,
    value_type: FeatureValueType,
    float_json: Seq<char>,
) -> bool {
    &&& datum_is_readable(datum)
    &&& datum.value_type() is None || datum.value_type() == Some(value_type)
    &&& datum is Float64 ==> is_float_text(float_json, datum->Float64_0.pattern())
}

proof fn lemma_decimal_reads_back(value: FixedDecimal)
    requires
        value.is_canonical(),
        is_readable(value),
    ensures
        is_decimal_text(decimal_chars(value)),
{
    lemma_decimal_text_reads_back(value);
    lemma_decimal_is_number_bytes(value);
    assert forall|i: int| 0 <= i < value.ascii().len() implies #[trigger] value.ascii()[i]
        < 128 by {
        assert(is_number_byte(value.ascii()[i]));
    }
    lemma_ascii_bytes(value.ascii());
    let point = choose|point: int| denotes_at(value.ascii(), point);
    assert(denotes_at(utf8(decimal_chars(value)), point));
}

fn map_text(pairs: &Vec<(FixedDecimal, FixedDecimal)>) -> (text: String)
    ensures
        text@ == object_text(decimal_pairs(pairs@)),
        is_canonical_json(text@),
        datum_is_readable(DatumView::FixedDecimalMap(pairs@)) ==> datum_is_stored(
            Some(FeatureValueType::FixedDecimalMap),
            None,
            json_decoded(text@),
        ),
{
    let entries = decimal_entries(pairs);
    let ghost given = pair_views(entries@);
    let text = object_json(entries);
    proof {
        if datum_is_readable(DatumView::FixedDecimalMap(pairs@)) {
            let read = json_decoded(text@)->Some_0.entries->Some_0;
            assert forall|i: int| 0 <= i < read.len() implies is_decimal_text(
                (#[trigger] read[i]).0,
            ) && read[i].1 is Some && is_decimal_text(read[i].1->Some_0) by {
                assert(is_given(read[i], given));
                let j = choose|j: int|
                    0 <= j < given.len() && read[i] == ((#[trigger] given[j]).0, Some(given[j].1));
                lemma_decimal_reads_back(pairs@[j].0);
                lemma_decimal_reads_back(pairs@[j].1);
            }
        }
    }
    text
}

/// The bit pattern of a floating-point datum.
pub open spec fn datum_bits(datum: DatumView) -> Option<u64> {
    match datum {
        DatumView::Float64(value) => Some(value.pattern()),
        _ => None,
    }
}

/// The text that a datum is stored as, and its bit pattern where it has one.
fn datum_parts(datum: &FeatureDatum, value_type: FeatureValueType, float_json: &str) -> (parts: (
    String,
    Option<u64>,
))
    ensures
        parts.0@ == stored_datum(datum@, float_json@),
        parts.1 == datum_bits(datum@),
        datum_is_storable(datum@, value_type, float_json@) ==> is_canonical_json(parts.0@)
            && datum_is_stored(Some(value_type), parts.1, json_decoded(parts.0@)),
{
    match datum {
        FeatureDatum::Present(value) => match value {
            FeatureValue::FixedDecimal(value) => {
                let text = decimal_text(value);
                proof {
                    if is_readable(*value) {
                        lemma_decimal_reads_back(*value);
                    }
                }
                (quoted_json(text.as_str()), None)
            },
            FeatureValue::FixedDecimalMap(pairs) => (map_text(pairs), None),
            FeatureValue::Float64(value) => (float_json.to_owned(), Some(value.bits())),
            FeatureValue::Integer(value) => (integer_text(*value), None),
            FeatureValue::Boolean(value) => (boolean_json(*value), None),
        },
        FeatureDatum::Missing(reason) => {
            let mut entries: Vec<(String, String)> = Vec::new();
            entries.push(("missing".to_owned(), stored_reason_name(*reason).to_owned()));
            let ghost given = pair_views(entries@);
            proof {
                assert(given =~= seq![("missing"@, stored_reason(*reason))]);
            }
            let text = object_json(entries);
            proof {
                let read = json_decoded(text@)->Some_0.entries->Some_0;
                assert(is_given(read[0], given));
                assert(read[0] == ("missing"@, Some(stored_reason(*reason))));
                assert(is_reason_name(stored_reason(*reason)));
            }
            (text, None)
        },
    }
}

/// Where a row was recorded.
#[derive(Clone, Copy, Debug)]
pub struct RowAuthority<'a> {
    pub venue: &'a str,
    pub instrument_generation: u32,
    pub connection_epoch: u64,
    pub subscription_epoch: u64,
    pub wal_record_sequence: u64,
}

/// The texts of what an observation holds besides plain values: its entity, its coverage, and its
/// value where that is a floating-point number.
#[derive(Debug)]
pub struct RowTexts {
    pub entity_json: String,
    pub source_coverage_json: String,
    pub float_json: String,
}

/// The text of a released version.
pub open spec fn version_chars(version: FeatureVersion) -> Seq<char> {
    ascii_chars(version_ascii(version))
}

/// The row of an observation.
pub open spec fn observed_row(
    observation: FeatureObservation,
    authority: RowAuthority,
    texts: RowTexts,
) -> RowView {
    let end = observation.event_time_end.nanos;
    RowView {
        effective_event_time_ns: end,
        exchange_event_time_ns: Some(end),
        receive_wall_time_ns: observation.computed_at.nanos,
        event_type: "feature-observation"@,
        venue: authority.venue@,
        instrument_generation: authority.instrument_generation,
        connection_epoch: authority.connection_epoch,
        subscription_epoch: authority.subscription_epoch,
        wal_record_sequence: authority.wal_record_sequence,
        feature_id: observation.feature_id@,
        feature_version: version_chars(observation.feature_version),
        entity_json: texts.entity_json@,
        window_id: observation.window_id@,
        resolution_ns: observation.resolution.nanos,
        datum_json: stored_datum(observation.datum@, texts.float_json@),
        value_type: stored_type(observation.value_type),
        event_time_start_ns: observation.event_time_start.nanos,
        event_time_end_ns: end,
        as_known_at_ns: observation.as_known_at.nanos,
        computed_at_ns: observation.computed_at.nanos,
        watermark_ns: match observation.watermark {
            Some(watermark) => Some(watermark.nanos),
            None => None,
        },
        finality_as_known_at_ns: observation.finality_as_known_at.nanos,
        finality_state: stored_finality(observation.finality_state),
        revision: observation.revision,
        source_coverage_json: texts.source_coverage_json@,
        quality_millionths: observation.quality_score.millionths,
        normalization_version: version_chars(observation.normalization_version),
        formula_hash: ascii_chars(hex_ascii(observation.formula_hash@)),
        code_commit: observation.code_commit@,
        lineage_hash: ascii_chars(hex_ascii(observation.lineage_hash@)),
        float_bits: datum_bits(observation.datum@),
    }
}

proof fn lemma_hex_is_ascii(bytes: Seq<u8>)
    ensures
        all_ascii(hex_ascii(bytes)),
{
    assert forall|i: int| 0 <= i < hex_ascii(bytes).len() implies #[trigger] hex_ascii(bytes)[i]
        < 128 by {
        let high = bytes[i / 2] as int / 16;
        let low = bytes[i / 2] as int % 16;
        assert(0 <= high < 16 && 0 <= low < 16);
    }
}

proof fn lemma_hex_is_lower_hash(digest: Seq<u8>)
    requires
        digest.len() == 32,
        digest != zero_digest(),
    ensures
        is_lower_hash(hex_ascii(digest)),
{
    let text = hex_ascii(digest);
    assert forall|i: int| 0 <= i < text.len() implies 48 <= #[trigger] text[i] <= 57 || 97 <= text[i]
        <= 102 by {
        let high = digest[i / 2] as int / 16;
        let low = digest[i / 2] as int % 16;
        assert(0 <= high < 16 && 0 <= low < 16);
    }
    if forall|k: int| 0 <= k < 32 ==> digest[k] == 0 {
        assert(digest =~= zero_digest());
    }
    let k = choose|k: int| 0 <= k < 32 && digest[k] != 0;
    assert((2 * k) / 2 == k && (2 * k) % 2 == 0);
    assert((2 * k + 1) / 2 == k && (2 * k + 1) % 2 == 1);
    assert(text[2 * k] != 48 || text[2 * k + 1] != 48);
}

pub(crate) fn digest_text(digest: &[u8; 32]) -> (text: String)
    ensures
        text@ == ascii_chars(hex_ascii(digest@)),
        digest@ != zero_digest() ==> is_lower_hash(utf8(text@)),
{
    let text = hex_text(digest.as_slice());
    proof {
        lemma_hex_is_ascii(digest@);
        lemma_ascii_text(text@, hex_ascii(digest@));
        if digest@ != zero_digest() {
            lemma_hex_is_lower_hash(digest@);
        }
    }
    text
}

fn version_text(version: FeatureVersion) -> (text: String)
    ensures
        text@ == version_chars(version),
        is_release(version_parts(text@)) == (version.major > 0),
{
    let text = version.text();
    proof {
        lemma_digits_are_number_bytes(version.major as nat);
        lemma_digits_are_number_bytes(version.minor as nat);
        lemma_digits_are_number_bytes(version.patch as nat);
        let bytes = version_ascii(version);
        assert(are_number_bytes(bytes));
        assert forall|i: int| 0 <= i < bytes.len() implies #[trigger] bytes[i] < 128 by {
            assert(is_number_byte(bytes[i]));
        }
        lemma_ascii_text(text@, bytes);
    }
    text
}

/// An observation that a row can hold: everything about it is in place, and its datum fits its
/// type.
pub open spec fn is_storable(
    observation: FeatureObservation,
    authority: RowAuthority,
    texts: RowTexts,
) -> bool {
    &&& authority.venue@.len() > 0
    &&& authority.instrument_generation != 0
    &&& authority.connection_epoch != 0
    &&& authority.subscription_epoch != 0
    &&& authority.wal_record_sequence != 0
    &&& observation.feature_version.major > 0
    &&& observation.normalization_version.major > 0
    &&& observation.resolution.nanos != 0
    &&& times_are_ordered(observed_row(observation, authority, texts))
    &&& observation.revision != 0
    &&& observation.finality_state == FinalityState::Corrected ==> observation.revision != 1
    &&& observation.quality_score.millionths <= 1_000_000
    &&& observation.formula_hash@ != zero_digest()
    &&& observation.lineage_hash@ != zero_digest()
    &&& is_canonical_json(texts.entity_json@)
    &&& is_canonical_json(texts.source_coverage_json@)
    &&& datum_is_storable(observation.datum@, observation.value_type, texts.float_json@)
}

impl MaterializedFeatureRow {
    /// The row of a final or corrected observation, where it is sound. Every storable one is.
    pub fn try_from_observation(
        observation: &FeatureObservation,
        authority: RowAuthority,
        texts: &RowTexts,
        identities_accepted: bool,
    ) -> (result: Result<Self, MaterializationError>)
        ensures
            ({
                let row = observed_row(*observation, authority, *texts);
                let sealed = observation.finality_state == FinalityState::Final
                    || observation.finality_state == FinalityState::Corrected;
                &&& !sealed ==> result is Err && result->Err_0
                    == MaterializationError::UnfinalizedObservation
                &&& sealed ==> (result is Ok <==> identities_accepted && row_is_sound(row))
                &&& sealed && identities_accepted && is_storable(*observation, authority, *texts)
                    ==> result is Ok
                &&& sealed && result is Err ==> result->Err_0 == MaterializationError::InvalidRow
                &&& result is Ok ==> result->Ok_0@ == row
            }),
    {
        let sealed: bool = match observation.finality_state {
            FinalityState::Final => true,
            FinalityState::Corrected => true,
            _ => false,
        };
        if !sealed {
            return Err(MaterializationError::UnfinalizedObservation);
        }
        let (datum_json, float_bits) = datum_parts(
            &observation.datum,
            observation.value_type,
            texts.float_json.as_str(),
        );
        let end: i64 = observation.event_time_end.value();
        let fields = RowFields {
            effective_event_time_ns: end,
            exchange_event_time_ns: Some(end),
            receive_wall_time_ns: observation.computed_at.value(),
            event_type: "feature-observation".to_owned(),
            venue: authority.venue.to_owned(),
            instrument_generation: authority.instrument_generation,
            connection_epoch: authority.connection_epoch,
            subscription_epoch: authority.subscription_epoch,
            wal_record_sequence: authority.wal_record_sequence,
            feature_id: observation.feature_id.clone(),
            feature_version: version_text(observation.feature_version),
            entity_json: texts.entity_json.clone(),
            window_id: observation.window_id.clone(),
            resolution_ns: observation.resolution.value(),
            datum_json,
            value_type: value_type_name(observation.value_type).to_owned(),
            event_time_start_ns: observation.event_time_start.value(),
            event_time_end_ns: end,
            as_known_at_ns: observation.as_known_at.value(),
            computed_at_ns: observation.computed_at.value(),
            watermark_ns: match observation.watermark {
                Some(watermark) => Some(watermark.value()),
                None => None,
            },
            finality_as_known_at_ns: observation.finality_as_known_at.value(),
            finality_state: finality_name(observation.finality_state).to_owned(),
            revision: observation.revision,
            source_coverage_json: texts.source_coverage_json.clone(),
            quality_millionths: observation.quality_score.millionths,
            normalization_version: version_text(observation.normalization_version),
            formula_hash: digest_text(&observation.formula_hash),
            code_commit: observation.code_commit.clone(),
            lineage_hash: digest_text(&observation.lineage_hash),
            float_bits,
        };
        proof {
            if is_storable(*observation, authority, *texts) {
                lemma_value_types_read_back(observation.value_type);
                reveal_strlit("final");
                reveal_strlit("corrected");
                assert("final"@.len() != "corrected"@.len());
                assert(row_is_sound(fields@));
            }
        }
        MaterializedFeatureRow::try_new(fields, identities_accepted)
    }
}

/// A row holds an observation's own times, revision, quality and bit pattern, and a row is made
/// only of an observation that is final or corrected.
pub proof fn lemma_rows_keep_their_observation(
    observation: FeatureObservation,
    authority: RowAuthority,
    texts: RowTexts,
)
    ensures
        ({
            let row = observed_row(observation, authority, texts);
            &&& row.event_time_start_ns == observation.event_time_start.nanos
            &&& row.event_time_end_ns == observation.event_time_end.nanos
            &&& row.effective_event_time_ns == observation.event_time_end.nanos
            &&& row.exchange_event_time_ns == Some(observation.event_time_end.nanos)
            &&& row.as_known_at_ns == observation.as_known_at.nanos
            &&& row.computed_at_ns == observation.computed_at.nanos
            &&& row.receive_wall_time_ns == observation.computed_at.nanos
            &&& row.finality_as_known_at_ns == observation.finality_as_known_at.nanos
            &&& row.watermark_ns is Some <==> observation.watermark is Some
            &&& observation.watermark is Some ==> row.watermark_ns->Some_0
                == observation.watermark->Some_0.nanos
            &&& row.revision == observation.revision
            &&& row.quality_millionths == observation.quality_score.millionths
            &&& row.resolution_ns == observation.resolution.nanos
            &&& row.feature_id == observation.feature_id@
            &&& row.window_id == observation.window_id@
            &&& row.code_commit == observation.code_commit@
            &&& row.connection_epoch == authority.connection_epoch
            &&& row.subscription_epoch == authority.subscription_epoch
            &&& row.wal_record_sequence == authority.wal_record_sequence
            &&& row.float_bits is Some <==> observation.datum@ is Float64
            &&& row_is_sound(row) ==> observation.finality_state == FinalityState::Final
                || observation.finality_state == FinalityState::Corrected
        }),
{
    lemma_stored_names_tell_apart(
        observation.finality_state,
        FinalityState::Final,
        MissingnessReason::Unknown,
        MissingnessReason::Unknown,
    );
}

} // verus!
