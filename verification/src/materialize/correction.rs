//! Corrections of a sealed snapshot of rows.

use vstd::prelude::*;

use super::row::{ByIdentity, MaterializedFeatureRow, RowView};
use super::MaterializationError;
use crate::ordering::{lemma_stably_sorted, sort_stably, stably_sorted};
use crate::registry::same_text;

verus! {

/// References to rows, in the order of the list.
pub open spec fn by_identity<'a>(rows: Seq<MaterializedFeatureRow>) -> Seq<ByIdentity<'a>> {
    Seq::new(rows.len(), |i: int| ByIdentity { row: &rows[i] })
}

/// Rows in the order of their identities.
pub open spec fn in_identity_order(rows: Seq<MaterializedFeatureRow>) -> Seq<RowView> {
    let sorted = stably_sorted(by_identity(rows));
    Seq::new(sorted.len(), |i: int| sorted[i].row@)
}

/// The row is the base's own, or its next revision, corrected and known in time.
pub open spec fn keeps_or_corrects(base: RowView, row: RowView, known_at_ns: i64) -> bool {
    &&& base.identity() == row.identity()
    &&& base == row || {
        &&& row.revision == base.revision + 1
        &&& row.finality_state == "corrected"@
        &&& base.as_known_at_ns <= row.as_known_at_ns <= known_at_ns
        &&& base.computed_at_ns <= row.computed_at_ns
        &&& base.finality_as_known_at_ns <= row.finality_as_known_at_ns
    }
}

/// The rows correct a snapshot: each keeps or corrects its base, and at least one corrects it.
pub open spec fn corrects_snapshot(
    base: Seq<MaterializedFeatureRow>,
    rows: Seq<MaterializedFeatureRow>,
    known_at_ns: i64,
) -> bool {
    let before = in_identity_order(base);
    let after = in_identity_order(rows);
    &&& base.len() == rows.len()
    &&& base.len() > 0
    &&& forall|i: int|
        0 <= i < base.len() ==> keeps_or_corrects(#[trigger] before[i], after[i], known_at_ns)
    &&& exists|i: int| 0 <= i < base.len() && #[trigger] before[i] != after[i]
}

fn sort_by_identity(rows: &Vec<MaterializedFeatureRow>) -> (sorted: Vec<ByIdentity<'_>>)
    ensures
        sorted@ == stably_sorted(by_identity(rows@)),
        sorted@.len() == rows@.len(),
{
    let mut refs: Vec<ByIdentity<'_>> = Vec::new();
    let mut i: usize = 0;
    while i < rows.len()
        invariant
            i <= rows@.len(),
            refs@ == by_identity(rows@).take(i as int),
        decreases rows.len() - i,
    {
        refs.push(ByIdentity { row: &rows[i] });
        proof {
            assert(refs@ =~= by_identity(rows@).take(i + 1));
        }
        i += 1;
    }
    proof {
        assert(by_identity(rows@).take(i as int) =~= by_identity(rows@));
        lemma_stably_sorted(by_identity(rows@));
    }
    sort_stably(refs)
}

fn is_kept_or_corrected(
    base: &MaterializedFeatureRow,
    row: &MaterializedFeatureRow,
    known_at_ns: i64,
) -> (answer: bool)
    ensures
        answer == keeps_or_corrects(base@, row@, known_at_ns),
{
    let before = base.fields();
    let after = row.fields();
    if !before.same_identity(after) {
        return false;
    }
    if base.same(row) {
        return true;
    }
    before.revision < u32::MAX && after.revision == before.revision + 1 && same_text(
        after.finality_state.as_str(),
        "corrected",
    ) && before.as_known_at_ns <= after.as_known_at_ns && after.as_known_at_ns <= known_at_ns
        && before.computed_at_ns <= after.computed_at_ns && before.finality_as_known_at_ns
        <= after.finality_as_known_at_ns
}

/// Whether rows correct a sealed snapshot.
pub fn validate_correction_snapshot(
    base_rows: &Vec<MaterializedFeatureRow>,
    correction_rows: &Vec<MaterializedFeatureRow>,
    correction_known_at_ns: i64,
) -> (result: Result<(), MaterializationError>)
    ensures
        result == if corrects_snapshot(base_rows@, correction_rows@, correction_known_at_ns) {
            Ok::<(), MaterializationError>(())
        } else {
            Err(MaterializationError::InvalidCorrectionHistory)
        },
{
    if base_rows.len() != correction_rows.len() || base_rows.len() == 0 {
        return Err(MaterializationError::InvalidCorrectionHistory);
    }
    let before = sort_by_identity(base_rows);
    let after = sort_by_identity(correction_rows);
    let ghost old_rows = in_identity_order(base_rows@);
    let ghost new_rows = in_identity_order(correction_rows@);
    let mut corrected: bool = false;
    let mut i: usize = 0;
    while i < before.len()
        invariant
            i <= before@.len() == after@.len(),
            before@.len() == base_rows@.len() == correction_rows@.len(),
            old_rows == in_identity_order(base_rows@),
            new_rows == in_identity_order(correction_rows@),
            before@ == stably_sorted(by_identity(base_rows@)),
            after@ == stably_sorted(by_identity(correction_rows@)),
            forall|k: int|
                0 <= k < i ==> keeps_or_corrects(
                    #[trigger] old_rows[k],
                    new_rows[k],
                    correction_known_at_ns,
                ),
            corrected == exists|k: int| 0 <= k < i && #[trigger] old_rows[k] != new_rows[k],
        decreases before.len() - i,
    {
        proof {
            assert(old_rows[i as int] == before@[i as int].row@);
            assert(new_rows[i as int] == after@[i as int].row@);
        }
        if !is_kept_or_corrected(before[i].row, after[i].row, correction_known_at_ns) {
            return Err(MaterializationError::InvalidCorrectionHistory);
        }
        if !before[i].row.same(after[i].row) {
            proof {
                assert(old_rows[i as int] != new_rows[i as int]);
            }
            corrected = true;
        }
        i += 1;
    }
    if !corrected {
        return Err(MaterializationError::InvalidCorrectionHistory);
    }
    Ok(())
}

/// No correction changes what it corrects, takes back knowledge, or is known after its time.
pub proof fn lemma_corrections_move_forward(
    base: Seq<MaterializedFeatureRow>,
    rows: Seq<MaterializedFeatureRow>,
    known_at_ns: i64,
    i: int,
)
    requires
        corrects_snapshot(base, rows, known_at_ns),
        0 <= i < base.len(),
    ensures
        in_identity_order(rows)[i].identity() == in_identity_order(base)[i].identity(),
        in_identity_order(rows)[i].revision >= in_identity_order(base)[i].revision,
        in_identity_order(rows)[i].as_known_at_ns >= in_identity_order(base)[i].as_known_at_ns,
        in_identity_order(rows)[i] != in_identity_order(base)[i] ==> in_identity_order(
            rows,
        )[i].as_known_at_ns <= known_at_ns,
{
    assert(keeps_or_corrects(in_identity_order(base)[i], in_identity_order(rows)[i], known_at_ns));
}

/// A correction leaves the number of rows as it is and changes at least one of them. Each row
/// that it changes is its base's next revision, is marked as corrected, and takes back neither
/// what was known nor when it was computed or became final.
pub proof fn lemma_corrections_are_next_revisions(
    base: Seq<MaterializedFeatureRow>,
    rows: Seq<MaterializedFeatureRow>,
    known_at_ns: i64,
)
    requires
        corrects_snapshot(base, rows, known_at_ns),
    ensures
        rows.len() == base.len() > 0,
        forall|i: int|
            #![trigger in_identity_order(rows)[i]]
            0 <= i < base.len() ==> {
                let before = in_identity_order(base)[i];
                let after = in_identity_order(rows)[i];
                &&& before.identity() == after.identity()
                &&& after == before || {
                    &&& after.revision == before.revision + 1
                    &&& after.finality_state == "corrected"@
                    &&& after.as_known_at_ns <= known_at_ns
                }
                &&& after.as_known_at_ns >= before.as_known_at_ns
                &&& after.computed_at_ns >= before.computed_at_ns
                &&& after.finality_as_known_at_ns >= before.finality_as_known_at_ns
            },
        exists|i: int|
            #![trigger in_identity_order(rows)[i]]
            0 <= i < base.len() && in_identity_order(rows)[i].revision == in_identity_order(
                base,
            )[i].revision + 1,
        !corrects_snapshot(base, base, known_at_ns),
{
    let before = in_identity_order(base);
    let after = in_identity_order(rows);
    assert forall|i: int| #![trigger after[i]] 0 <= i < base.len() implies keeps_or_corrects(
        before[i],
        after[i],
        known_at_ns,
    ) by {
        assert(keeps_or_corrects(before[i], after[i], known_at_ns));
    }
    let i = choose|i: int| 0 <= i < base.len() && #[trigger] before[i] != after[i];
    assert(after[i].revision == before[i].revision + 1);
}

} // verus!
