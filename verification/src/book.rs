//! Order-book snapshots, as plain values.

use vstd::prelude::*;

use crate::decimal::{Price, Quantity};
use crate::digest::{
    blake3_digest, blake3_hash, encoded_u32, encoded_u64, framed, labelled, put_byte, put_bytes,
    put_framed, put_u32, put_u64, utf8,
};
use crate::domain::{instrument_encoding, InstrumentId};
use crate::event::BookLevel;

verus! {

/// One connection to a venue's book stream.
#[derive(Clone, Copy, Debug, PartialEq, Eq, Structural)]
pub struct BookSession {
    pub connection_epoch: u64,
    pub subscription_epoch: u64,
    pub instrument_generation: u32,
}

#[derive(Clone, Copy, Debug, PartialEq, Eq, Structural)]
pub enum BookState {
    Disconnected,
    Buffering,
    AwaitingSnapshot,
    Replaying,
    Synchronized,
    Untrusted,
}

#[derive(Clone, Copy, Debug, PartialEq, Eq, Structural)]
pub enum BookClassification {
    Normal,
    Locked,
    Crossed,
    OneSided,
}

#[derive(Clone, Copy, Debug, PartialEq, Eq, Structural)]
pub enum ChecksumStatus {
    NotSupported,
    Pending,
    Valid,
    Mismatch,
}

/// How a book has fared lately.
#[derive(Clone, Copy, Debug, PartialEq, Eq, Structural)]
pub struct BookQuality {
    pub health_state: BookState,
    pub last_source_sequence: u64,
    pub last_update_age_ms: u64,
    pub checksum_status: ChecksumStatus,
    pub resync_count_1h: u64,
    pub missing_sequence_count_1h: u64,
    pub checksum_failure_count_1h: u64,
    pub crossed_state_count_1h: u64,
    pub latency_p50_ms: Option<u64>,
    pub latency_p95_ms: Option<u64>,
    pub latency_p99_ms: Option<u64>,
    pub latency_sample_count: u64,
    pub trusted_depth_levels: u64,
    pub quality_score_ppm: u32,
}

/// A book at one source sequence. Bids descend and asks ascend from the inside.
#[derive(Debug)]
pub struct BookSnapshotView {
    pub instrument: InstrumentId,
    pub price_tick: Price,
    pub quantity_step: Quantity,
    pub session: BookSession,
    pub last_source_sequence: u64,
    pub updated_monotonic_ns: u64,
    pub classification: BookClassification,
    pub bids: Vec<BookLevel>,
    pub asks: Vec<BookLevel>,
    pub quality: BookQuality,
}

pub open spec fn classification_code(classification: BookClassification) -> u8 {
    match classification {
        BookClassification::Normal => 1,
        BookClassification::Locked => 2,
        BookClassification::Crossed => 3,
        BookClassification::OneSided => 4,
    }
}

pub open spec fn book_state_code(state: BookState) -> u8 {
    match state {
        BookState::Disconnected => 1,
        BookState::Buffering => 2,
        BookState::AwaitingSnapshot => 3,
        BookState::Replaying => 4,
        BookState::Synchronized => 5,
        BookState::Untrusted => 6,
    }
}

pub open spec fn checksum_code(status: ChecksumStatus) -> u8 {
    match status {
        ChecksumStatus::NotSupported => 1,
        ChecksumStatus::Pending => 2,
        ChecksumStatus::Valid => 3,
        ChecksumStatus::Mismatch => 4,
    }
}

pub open spec fn optional_u64_encoding(value: Option<u64>) -> Seq<u8> {
    match value {
        Some(value) => seq![1u8] + encoded_u64(value),
        None => seq![0u8],
    }
}

pub(crate) fn put_optional_u64(buffer: &mut Vec<u8>, value: Option<u64>)
    ensures
        final(buffer)@ == old(buffer)@ + optional_u64_encoding(value),
{
    match value {
        Some(value) => {
            buffer.push(1);
            put_u64(buffer, value);
        },
        None => {
            buffer.push(0);
        },
    }
    proof {
        assert(buffer@ =~= old(buffer)@ + optional_u64_encoding(value));
    }
}

/// The bytes by which a level enters a book's digest.
pub open spec fn level_encoding(level: BookLevel) -> Seq<u8> {
    framed(level.price.amount().ascii()) + framed(level.quantity.amount().ascii()) + (
    match level.order_count {
        Some(count) => seq![1u8] + encoded_u32(count),
        None => seq![0u8],
    })
}

pub open spec fn levels_encoding(levels: Seq<BookLevel>) -> Seq<u8>
    decreases levels.len(),
{
    if levels.len() == 0 {
        Seq::empty()
    } else {
        levels_encoding(levels.drop_last()) + level_encoding(levels.last())
    }
}

/// One side of a book: its tag, its length and its levels.
pub open spec fn side_encoding(tag: u8, levels: Seq<BookLevel>) -> Seq<u8> {
    seq![tag] + encoded_u64(levels.len() as u64) + levels_encoding(levels)
}

pub open spec fn quality_encoding(quality: BookQuality) -> Seq<u8> {
    seq![book_state_code(quality.health_state)] + encoded_u64(quality.last_source_sequence)
        + encoded_u64(quality.last_update_age_ms) + seq![checksum_code(quality.checksum_status)]
        + encoded_u64(quality.resync_count_1h) + encoded_u64(quality.missing_sequence_count_1h)
        + encoded_u64(quality.checksum_failure_count_1h) + encoded_u64(
        quality.crossed_state_count_1h,
    ) + optional_u64_encoding(quality.latency_p50_ms) + optional_u64_encoding(
        quality.latency_p95_ms,
    ) + optional_u64_encoding(quality.latency_p99_ms) + encoded_u64(quality.latency_sample_count)
        + encoded_u64(quality.trusted_depth_levels) + encoded_u32(quality.quality_score_ppm)
}

/// Everything that a book's state digest rests on, in order.
pub open spec fn book_encoding(book: BookSnapshotView) -> Seq<u8> {
    utf8("crypto-intelligence/trusted-book-feature-state/v2"@) + instrument_encoding(
        book.instrument@,
    ) + framed(book.price_tick.amount().ascii()) + framed(book.quantity_step.amount().ascii())
        + encoded_u64(book.session.connection_epoch) + encoded_u64(book.session.subscription_epoch)
        + encoded_u32(book.session.instrument_generation) + encoded_u64(book.last_source_sequence)
        + encoded_u64(book.updated_monotonic_ns) + seq![classification_code(book.classification)]
        + side_encoding(1, book.bids@) + side_encoding(2, book.asks@) + quality_encoding(
        book.quality,
    )
}

fn put_side(buffer: &mut Vec<u8>, tag: u8, levels: &Vec<BookLevel>)
    ensures
        final(buffer)@ == old(buffer)@ + side_encoding(tag, levels@),
{
    let ghost start = buffer@;
    put_byte(buffer, tag);
    put_u64(buffer, levels.len() as u64);
    let ghost head = buffer@;
    let mut i: usize = 0;
    proof {
        assert(levels@.take(0) =~= Seq::empty());
        assert(buffer@ =~= head + levels_encoding(levels@.take(0)));
    }
    while i < levels.len()
        invariant
            i <= levels@.len(),
            buffer@ == head + levels_encoding(levels@.take(i as int)),
        decreases levels.len() - i,
    {
        let level = levels[i];
        let price = level.price.value().to_ascii();
        put_framed(buffer, price.as_slice());
        let quantity = level.quantity.value().to_ascii();
        put_framed(buffer, quantity.as_slice());
        match level.order_count {
            Some(count) => {
                buffer.push(1);
                put_u32(buffer, count);
            },
            None => {
                buffer.push(0);
            },
        }
        proof {
            assert(levels@.take(i + 1).drop_last() =~= levels@.take(i as int));
            assert(levels@.take(i + 1).last() == level);
            assert(buffer@ =~= head + levels_encoding(levels@.take(i + 1)));
        }
        i += 1;
    }
    proof {
        assert(levels@.take(levels@.len() as int) =~= levels@);
        assert(buffer@ =~= start + side_encoding(tag, levels@));
    }
}

fn quality_bytes(quality: BookQuality) -> (buffer: Vec<u8>)
    ensures
        buffer@ == quality_encoding(quality),
{
    let mut buffer: Vec<u8> = Vec::new();
    buffer.push(
        match quality.health_state {
            BookState::Disconnected => 1,
            BookState::Buffering => 2,
            BookState::AwaitingSnapshot => 3,
            BookState::Replaying => 4,
            BookState::Synchronized => 5,
            BookState::Untrusted => 6,
        },
    );
    proof {
        assert(buffer@ =~= seq![book_state_code(quality.health_state)]);
    }
    put_u64(&mut buffer, quality.last_source_sequence);
    put_u64(&mut buffer, quality.last_update_age_ms);
    put_byte(
        &mut buffer,
        match quality.checksum_status {
            ChecksumStatus::NotSupported => 1,
            ChecksumStatus::Pending => 2,
            ChecksumStatus::Valid => 3,
            ChecksumStatus::Mismatch => 4,
        },
    );
    put_u64(&mut buffer, quality.resync_count_1h);
    put_u64(&mut buffer, quality.missing_sequence_count_1h);
    put_u64(&mut buffer, quality.checksum_failure_count_1h);
    put_u64(&mut buffer, quality.crossed_state_count_1h);
    put_optional_u64(&mut buffer, quality.latency_p50_ms);
    put_optional_u64(&mut buffer, quality.latency_p95_ms);
    put_optional_u64(&mut buffer, quality.latency_p99_ms);
    put_u64(&mut buffer, quality.latency_sample_count);
    put_u64(&mut buffer, quality.trusted_depth_levels);
    put_u32(&mut buffer, quality.quality_score_ppm);
    buffer
}

/// The digest of a book's whole state.
pub fn book_state_digest(book: &BookSnapshotView) -> (digest: [u8; 32])
    ensures
        digest@ == blake3_digest(book_encoding(*book)),
{
    let mut buffer = labelled("crypto-intelligence/trusted-book-feature-state/v2");
    book.instrument.put(&mut buffer);
    let tick = book.price_tick.value().to_ascii();
    put_framed(&mut buffer, tick.as_slice());
    let step = book.quantity_step.value().to_ascii();
    put_framed(&mut buffer, step.as_slice());
    put_u64(&mut buffer, book.session.connection_epoch);
    put_u64(&mut buffer, book.session.subscription_epoch);
    put_u32(&mut buffer, book.session.instrument_generation);
    put_u64(&mut buffer, book.last_source_sequence);
    put_u64(&mut buffer, book.updated_monotonic_ns);
    put_byte(
        &mut buffer,
        match book.classification {
            BookClassification::Normal => 1,
            BookClassification::Locked => 2,
            BookClassification::Crossed => 3,
            BookClassification::OneSided => 4,
        },
    );
    put_side(&mut buffer, 1, &book.bids);
    put_side(&mut buffer, 2, &book.asks);
    let quality = quality_bytes(book.quality);
    put_bytes(&mut buffer, quality.as_slice());
    blake3_hash(buffer.as_slice())
}

/// Whether two sides hold the same levels.
pub(crate) fn same_levels(left: &Vec<BookLevel>, right: &Vec<BookLevel>) -> (answer: bool)
    ensures
        answer == (left@ == right@),
{
    if left.len() != right.len() {
        return false;
    }
    let mut i: usize = 0;
    while i < left.len()
        invariant
            i <= left@.len() == right@.len(),
            forall|k: int| 0 <= k < i ==> left@[k] == right@[k],
        decreases left.len() - i,
    {
        if left[i] != right[i] {
            return false;
        }
        i += 1;
    }
    proof {
        assert(left@ =~= right@);
    }
    true
}

/// Books, their states and their checksums are told apart by their numbers.
pub proof fn lemma_book_codes_tell_apart(
    classification: BookClassification,
    state: BookState,
    status: ChecksumStatus,
)
    ensures
        classification_code(classification) == 1 <==> classification == BookClassification::Normal,
        classification_code(classification) == 2 <==> classification == BookClassification::Locked,
        classification_code(classification) == 3 <==> classification
            == BookClassification::Crossed,
        classification_code(classification) == 4 <==> classification
            == BookClassification::OneSided,
        book_state_code(state) == 1 <==> state == BookState::Disconnected,
        book_state_code(state) == 2 <==> state == BookState::Buffering,
        book_state_code(state) == 3 <==> state == BookState::AwaitingSnapshot,
        book_state_code(state) == 4 <==> state == BookState::Replaying,
        book_state_code(state) == 5 <==> state == BookState::Synchronized,
        book_state_code(state) == 6 <==> state == BookState::Untrusted,
        checksum_code(status) == 1 <==> status == ChecksumStatus::NotSupported,
        checksum_code(status) == 2 <==> status == ChecksumStatus::Pending,
        checksum_code(status) == 3 <==> status == ChecksumStatus::Valid,
        checksum_code(status) == 4 <==> status == ChecksumStatus::Mismatch,
{
}

} // verus!
