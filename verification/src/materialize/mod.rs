//! Point-in-time feature materialization.

use vstd::prelude::*;

use crate::domain::RegistryError;
use crate::lineage::LineageError;

pub mod batch;
pub mod correction;
pub mod fixture;
pub mod history;
pub mod observation;
pub mod partition;
pub mod query;
pub mod replay;
pub mod report;
pub mod row;
pub mod storage;

verus! {

/// Most rows of one materialization.
pub const MAXIMUM_FEATURE_ROWS: usize = 4_096;

/// Distinct input path exercised by a materialization run.
#[derive(Clone, Copy, Debug, PartialEq, Eq, Structural)]
pub enum MaterializationMode {
    LiveSimulation,
    WalReplay,
    ParquetReplay,
}

/// Fail-closed materialization failure.
#[derive(Clone, Copy, Debug, PartialEq, Eq, Structural)]
pub enum MaterializationError {
    /// Feature materialization manifest is invalid.
    InvalidManifest,
    /// Feature materialization path is unsafe.
    UnsafePath,
    /// Feature materialization input exceeds its bound.
    CapacityExceeded,
    /// Feature materialization row is invalid.
    InvalidRow,
    /// Only final or corrected observations may be sealed.
    UnfinalizedObservation,
    /// Publishing a correction requires explicit base-manifest authority.
    CorrectionAuthorityRequired,
    /// Feature materialization contains a duplicate observation revision.
    DuplicateObservation,
    /// Feature correction history is not consecutive and immutable.
    InvalidCorrectionHistory,
    /// Feature observations do not belong to one UTC partition.
    PartitionMismatch,
    /// Materialization parity reports have different floating-point shapes.
    ParityShapeMismatch,
    /// Feature materialization integrity verification failed.
    Integrity,
    /// Point-in-time query plan is unsafe or incomplete.
    InvalidQueryPlan,
    /// Feature lineage failed.
    Lineage(LineageError),
    /// Feature registry validation failed.
    Registry(RegistryError),
    /// Feature identity validation failed.
    Domain,
    /// Feature decimal validation failed.
    Decimal,
    /// Feature JSON conversion failed.
    Json,
}

} // verus!
