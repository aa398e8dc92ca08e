//! Deterministic, point-in-time feature computation over recorded market data.

mod ordering;
pub mod digest;
pub mod book;
pub mod clock;
pub mod decimal;
pub mod domain;
pub mod event;
pub mod ewma;
pub mod features;
pub mod lineage;
pub mod market;
pub mod materialize;
pub mod receipt;
pub mod registry;
pub mod watermark;
pub mod window;
pub mod wire;

pub use ordering::{
    lemma_rank_order_is_total, lemma_sorted_arrangement_is_unique, rank_precedes, sorted_by_rank,
    Ranked,
};

pub use clock::{ClockBasis, ClockError, LogicalClock, RecordedClock, RecordedTimestamp, TimerId};
pub use ewma::HalfLifeEwmaState;
pub use watermark::{
    CorrectionDecision, Finalization, FinalizationDecision, PartitionConfig, PartitionId,
    WatermarkError, WatermarkKey, WatermarkTracker, WatermarkUpdate,
};
pub use window::{
    CountWindow, EmissionAction, EventCountState, ThresholdKind, ThresholdWindow,
    ThresholdWindowState, TimeWindow, TimeWindowSpec, WindowError, WindowLifecycle,
};
