//! Revision-aware, point-in-time views over immutable rows.

use vstd::prelude::*;

use super::report::{lemma_reports_ignore_row_order, repeats_revision, report_refusal};
use super::row::{
    lemma_identities_are_ordered, lemma_identity_decides, row_views, MaterializedFeatureRow,
    RowView,
};
use super::{MaterializationError, MAXIMUM_FEATURE_ROWS};
use crate::digest::utf8;
use crate::ordering::{
    byte_rank, lemma_stably_sorted, rank_precedes, sort_stably, sorted_by_rank, stably_sorted,
    Ranked,
};
use crate::registry::same_text;

verus! {

/// A row continues the history that its predecessor belongs to, or begins one of its own.
pub open spec fn continues_history(rows: Seq<RowView>, i: int) -> bool {
    if i == 0 || rows[i].identity() != rows[i - 1].identity() {
        rows[i].revision == 1
    } else {
        &&& rows[i].revision == rows[i - 1].revision + 1
        &&& rows[i].as_known_at_ns >= rows[i - 1].as_known_at_ns
        &&& rows[i].finality_state == "corrected"@
    }
}

/// Every identity's revisions count up from one, each known no earlier than the one before.
pub open spec fn histories_are_lawful(rows: Seq<RowView>) -> bool {
    forall|i: int| 0 <= i < rows.len() ==> #[trigger] continues_history(rows, i)
}

/// The row was known, computed and final by a time.
pub open spec fn known_by(row: RowView, time_ns: i64) -> bool {
    row.as_known_at_ns <= time_ns && row.computed_at_ns <= time_ns && row.finality_as_known_at_ns
        <= time_ns
}

/// The last row of each identity that was known by a time, in order.
pub open spec fn known_rows(rows: Seq<RowView>, time_ns: i64) -> Seq<RowView>
    decreases rows.len(),
{
    if rows.len() == 0 {
        Seq::empty()
    } else {
        let before = known_rows(rows.drop_last(), time_ns);
        let row = rows.last();
        if !known_by(row, time_ns) {
            before
        } else if before.len() > 0 && before.last().identity() == row.identity() {
            before.drop_last().push(row)
        } else {
            before.push(row)
        }
    }
}

/// Rows of all revisions of their observations, in order of identity and revision.
#[derive(Debug)]
pub struct PointInTimeFeatureSet {
    rows: Vec<MaterializedFeatureRow>,
}

impl View for PointInTimeFeatureSet {
    type V = Seq<RowView>;

    closed spec fn view(&self) -> Seq<RowView> {
        row_views(self.rows@)
    }
}

/// Rows in order: an identity comes before another, and a revision before a later one.
pub open spec fn rows_in_order(rows: Seq<RowView>) -> bool {
    forall|i: int, j: int|
        0 <= i < j < rows.len() ==> in_order(#[trigger] rows[i], #[trigger] rows[j])
}

pub open spec fn in_order(a: RowView, b: RowView) -> bool {
    if a.identity() == b.identity() {
        a.revision <= b.revision
    } else {
        !rank_precedes(b.rank_with(Seq::empty()), a.rank_with(Seq::empty()))
    }
}

/// Why rows make no feature set, if they make none.
pub open spec fn feature_set_refusal(rows: Seq<MaterializedFeatureRow>) -> Option<
    MaterializationError,
> {
    if rows.len() == 0 || rows.len() > MAXIMUM_FEATURE_ROWS {
        Some(MaterializationError::CapacityExceeded)
    } else if !histories_are_lawful(row_views(stably_sorted(rows))) {
        Some(MaterializationError::InvalidCorrectionHistory)
    } else {
        None
    }
}

/// Sorted rows are in order of identity and revision.
pub proof fn lemma_sorted_rows_in_order(rows: Seq<MaterializedFeatureRow>)
    requires
        sorted_by_rank(rows),
    ensures
        rows_in_order(row_views(rows)),
{
    let views = row_views(rows);
    assert forall|i: int, j: int| 0 <= i < j < views.len() implies in_order(
        #[trigger] views[i],
        #[trigger] views[j],
    ) by {
        let a = views[i];
        let b = views[j];
        let x = seq![a.revision as int] + byte_rank(utf8(a.lineage_hash));
        let y = seq![b.revision as int] + byte_rank(utf8(b.lineage_hash));
        assert(rows[i].rank() == a.rank_with(x));
        assert(rows[j].rank() == b.rank_with(y));
        assert(!rank_precedes(rows[j].rank(), rows[i].rank()));
        lemma_identity_decides(b, a, y, x);
        if a.identity() == b.identity() && b.revision < a.revision {
            assert(y[0] == b.revision && x[0] == a.revision);
        }
    }
}

fn continues(rows: &Vec<MaterializedFeatureRow>, i: usize) -> (answer: bool)
    requires
        i < rows@.len(),
    ensures
        answer == continues_history(row_views(rows@), i as int),
{
    let row = rows[i].fields();
    if i == 0 {
        return row.revision == 1;
    }
    let previous = rows[i - 1].fields();
    if !row.same_identity(previous) {
        return row.revision == 1;
    }
    previous.revision < u32::MAX && row.revision == previous.revision + 1 && row.as_known_at_ns
        >= previous.as_known_at_ns && same_text(row.finality_state.as_str(), "corrected")
}

fn all_continue(rows: &Vec<MaterializedFeatureRow>) -> (answer: bool)
    ensures
        answer == histories_are_lawful(row_views(rows@)),
{
    let mut i: usize = 0;
    while i < rows.len()
        invariant
            i <= rows@.len(),
            forall|k: int| 0 <= k < i ==> #[trigger] continues_history(row_views(rows@), k),
        decreases rows.len() - i,
    {
        if !continues(rows, i) {
            return false;
        }
        i += 1;
    }
    true
}

impl PointInTimeFeatureSet {
    #[verifier::type_invariant]
    spec fn lawful(self) -> bool {
        rows_in_order(row_views(self.rows@)) && histories_are_lawful(row_views(self.rows@))
    }

    pub fn try_new(rows: Vec<MaterializedFeatureRow>) -> (result: Result<
        Self,
        MaterializationError,
    >)
        ensures
            match feature_set_refusal(rows@) {
                Some(error) => result is Err && result->Err_0 == error,
                None => result is Ok && result->Ok_0@ == row_views(stably_sorted(rows@)),
            },
            result is Ok ==> rows_in_order(result->Ok_0@) && histories_are_lawful(
                result->Ok_0@,
            ),
    {
        if rows.len() == 0 || rows.len() > MAXIMUM_FEATURE_ROWS {
            return Err(MaterializationError::CapacityExceeded);
        }
        let ghost given = rows@;
        let sorted = sort_stably(rows);
        proof {
            lemma_stably_sorted(given);
            lemma_sorted_rows_in_order(sorted@);
        }
        if !all_continue(&sorted) {
            return Err(MaterializationError::InvalidCorrectionHistory);
        }
        Ok(PointInTimeFeatureSet { rows: sorted })
    }

    /// The last revision of each observation that was known, computed and final by a time.
    pub fn as_known_at(&self, prediction_time_ns: i64) -> (selected: Vec<MaterializedFeatureRow>)
        ensures
            row_views(selected@) == known_rows(self@, prediction_time_ns),
            rows_in_order(self@),
            histories_are_lawful(self@),
    {
        proof {
            use_type_invariant(self);
        }
        let ghost views = row_views(self.rows@);
        let mut selected: Vec<MaterializedFeatureRow> = Vec::new();
        let mut i: usize = 0;
        proof {
            assert(views.take(0) =~= Seq::empty());
            assert(row_views(selected@) =~= known_rows(views.take(0), prediction_time_ns));
        }
        while i < self.rows.len()
            invariant
                i <= self.rows@.len(),
                views == row_views(self.rows@),
                row_views(selected@) == known_rows(views.take(i as int), prediction_time_ns),
            decreases self.rows.len() - i,
        {
            let row = &self.rows[i];
            let fields = row.fields();
            let ghost before = selected@;
            proof {
                assert(views.take(i + 1).drop_last() =~= views.take(i as int));
                assert(views.take(i + 1).last() == row@);
            }
            if fields.as_known_at_ns <= prediction_time_ns && fields.computed_at_ns
                <= prediction_time_ns && fields.finality_as_known_at_ns <= prediction_time_ns {
                let length: usize = selected.len();
                proof {
                    if length > 0 {
                        assert(row_views(before).last() == before[length - 1]@);
                    }
                }
                if length > 0 && selected[length - 1].fields().same_identity(fields) {
                    selected.pop();
                    proof {
                        assert(row_views(selected@) =~= row_views(before).drop_last());
                    }
                }
                let ghost kept = selected@;
                selected.push(row.clone());
                proof {
                    assert(row_views(selected@) =~= row_views(kept).push(row@));
                }
            }
            i += 1;
        }
        proof {
            assert(views.take(i as int) =~= views);
        }
        selected
    }
}

/// A feature set does not depend on the order in which its rows were given: the same rows are
/// refused alike in every order, and make the same set where they are not refused.
pub proof fn lemma_feature_sets_ignore_row_order(
    a: Seq<MaterializedFeatureRow>,
    b: Seq<MaterializedFeatureRow>,
)
    requires
        a.to_multiset() == b.to_multiset(),
    ensures
        feature_set_refusal(a) == feature_set_refusal(b),
        feature_set_refusal(a) is None ==> stably_sorted(a) == stably_sorted(b),
{
    a.to_multiset_ensures();
    b.to_multiset_ensures();
    lemma_reports_ignore_row_order(a, b);
    if feature_set_refusal(a) is None {
        lemma_histories_repeat_no_revision(a);
    } else if feature_set_refusal(b) is None {
        lemma_histories_repeat_no_revision(b);
    }
}

proof fn lemma_histories_repeat_no_revision(rows: Seq<MaterializedFeatureRow>)
    requires
        feature_set_refusal(rows) is None,
    ensures
        report_refusal(rows) is None,
{
    let sorted = row_views(stably_sorted(rows));
    assert forall|i: int| 0 <= i < sorted.len() - 1 implies !#[trigger] repeats_revision(
        sorted,
        i,
    ) by {
        assert(continues_history(sorted, i + 1));
    }
}

/// No selected row rests on anything that became known after the time.
pub proof fn lemma_selection_never_knows_the_future(rows: Seq<RowView>, time_ns: i64, i: int)
    requires
        0 <= i < known_rows(rows, time_ns).len(),
    ensures
        known_by(known_rows(rows, time_ns)[i], time_ns),
        rows.contains(known_rows(rows, time_ns)[i]),
    decreases rows.len(),
{
    let rest = rows.drop_last();
    let before = known_rows(rest, time_ns);
    let selected = known_rows(rows, time_ns);
    if i < before.len() && selected[i] == before[i] {
        lemma_selection_never_knows_the_future(rest, time_ns, i);
        let at = rest.index_of(before[i]);
        assert(rows[at] == before[i]);
    } else {
        assert(selected[i] == rows.last());
        assert(rows[rows.len() - 1] == rows.last());
    }
}

/// Every row that was known by the time is outlived by a selected row of its own identity, of the
/// same or a later revision.
pub proof fn lemma_selection_is_latest(rows: Seq<RowView>, time_ns: i64, k: int)
    requires
        rows_in_order(rows),
        0 <= k < rows.len(),
        known_by(rows[k], time_ns),
    ensures
        exists|i: int|
            0 <= i < known_rows(rows, time_ns).len() && (#[trigger] known_rows(
                rows,
                time_ns,
            )[i]).identity() == rows[k].identity() && rows[k].revision <= known_rows(
                rows,
                time_ns,
            )[i].revision,
    decreases rows.len(),
{
    let rest = rows.drop_last();
    let before = known_rows(rest, time_ns);
    let selected = known_rows(rows, time_ns);
    let last = rows.last();
    assert(rows[rows.len() - 1] == last);
    if k == rows.len() - 1 {
        assert(selected[selected.len() - 1] == last);
    } else {
        assert forall|i: int, j: int| 0 <= i < j < rest.len() implies in_order(
            #[trigger] rest[i],
            #[trigger] rest[j],
        ) by {
            assert(in_order(rows[i], rows[j]));
        }
        assert(rest[k] == rows[k]);
        lemma_selection_is_latest(rest, time_ns, k);
        let i = choose|i: int|
            0 <= i < before.len() && (#[trigger] before[i]).identity() == rest[k].identity()
                && rest[k].revision <= before[i].revision;
        assert(in_order(rows[k], rows[rows.len() - 1]));
        if !known_by(last, time_ns) {
            assert(selected[i] == before[i]);
        } else if before.len() > 0 && before.last().identity() == last.identity() {
            if i == before.len() - 1 {
                assert(selected[selected.len() - 1] == last);
                assert(selected[selected.len() - 1].identity() == rows[k].identity());
                assert(rows[k].revision <= last.revision);
            } else {
                assert(selected[i] == before[i]);
            }
        } else {
            assert(selected[i] == before[i]);
        }
    }
}

/// Nothing that was known is forgotten: what is selected at one time is selected at every later
/// time too, in the same or a later revision.
pub proof fn lemma_later_selections_supersede(
    rows: Seq<RowView>,
    earlier_ns: i64,
    later_ns: i64,
    i: int,
)
    requires
        rows_in_order(rows),
        earlier_ns <= later_ns,
        0 <= i < known_rows(rows, earlier_ns).len(),
    ensures
        exists|j: int|
            0 <= j < known_rows(rows, later_ns).len() && (#[trigger] known_rows(
                rows,
                later_ns,
            )[j]).identity() == known_rows(rows, earlier_ns)[i].identity() && known_rows(
                rows,
                earlier_ns,
            )[i].revision <= known_rows(rows, later_ns)[j].revision,
{
    lemma_selection_never_knows_the_future(rows, earlier_ns, i);
    let row = known_rows(rows, earlier_ns)[i];
    let k = rows.index_of(row);
    assert(rows[k] == row);
    lemma_selection_is_latest(rows, later_ns, k);
}

/// No two selected rows are of one identity.
pub proof fn lemma_selected_identities_differ(rows: Seq<RowView>, time_ns: i64, i: int, j: int)
    requires
        rows_in_order(rows),
        0 <= i < j < known_rows(rows, time_ns).len(),
    ensures
        known_rows(rows, time_ns)[i].identity() != known_rows(rows, time_ns)[j].identity(),
{
    lemma_selection_ascends(rows, time_ns);
    let selected = known_rows(rows, time_ns);
    assert(identity_strictly_before(selected[i], selected[j]));
}

/// The identity comes strictly before another.
pub open spec fn identity_strictly_before(a: RowView, b: RowView) -> bool {
    a.identity() != b.identity() && !rank_precedes(
        b.rank_with(Seq::empty()),
        a.rank_with(Seq::empty()),
    )
}

proof fn lemma_selection_ascends(rows: Seq<RowView>, time_ns: i64)
    requires
        rows_in_order(rows),
    ensures
        forall|i: int, j: int|
            0 <= i < j < known_rows(rows, time_ns).len() ==> identity_strictly_before(
                #[trigger] known_rows(rows, time_ns)[i],
                #[trigger] known_rows(rows, time_ns)[j],
            ),
    decreases rows.len(),
{
    if rows.len() > 0 {
        let rest = rows.drop_last();
        let before = known_rows(rest, time_ns);
        let selected = known_rows(rows, time_ns);
        let last = rows.last();
        assert forall|i: int, j: int| 0 <= i < j < rest.len() implies in_order(
            #[trigger] rest[i],
            #[trigger] rest[j],
        ) by {
            assert(in_order(rows[i], rows[j]));
        }
        lemma_selection_ascends(rest, time_ns);
        assert forall|i: int, j: int| 0 <= i < j < selected.len() implies identity_strictly_before(
            #[trigger] selected[i],
            #[trigger] selected[j],
        ) by {
            if j < before.len() && selected[j] == before[j] {
                assert(selected[i] == before[i]);
                assert(identity_strictly_before(before[i], before[j]));
            } else {
                assert(selected[j] == last);
                assert(selected[i] == before[i]);
                lemma_selection_never_knows_the_future(rest, time_ns, i);
                let at = rest.index_of(before[i]);
                assert(rows[at] == before[i]);
                assert(in_order(rows[at], rows[rows.len() - 1]));
                if before[i].identity() == last.identity() {
                    let end = before.len() - 1;
                    if i < end {
                        assert(identity_strictly_before(before[i], before[end]));
                        lemma_selection_never_knows_the_future(rest, time_ns, end);
                        let place = rest.index_of(before[end]);
                        assert(rows[place] == before[end]);
                        assert(in_order(rows[place], rows[rows.len() - 1]));
                        lemma_between(before[i], before[end], last);
                    }
                }
            }
        }
    }
}

/// An identity that stands between two rows of one identity is that identity.
proof fn lemma_between(a: RowView, b: RowView, c: RowView)
    requires
        a.identity() == c.identity(),
        identity_strictly_before(a, b),
        in_order(b, c),
    ensures
        b.identity() == c.identity(),
{
    lemma_same_identity_same_rank(a, c);
    if b.identity() != c.identity() {
        lemma_identities_are_ordered(a, b);
    }
}

proof fn lemma_same_identity_same_rank(a: RowView, b: RowView)
    requires
        a.identity() == b.identity(),
    ensures
        a.rank_with(Seq::empty()) == b.rank_with(Seq::empty()),
{
}

/// A row is selected just where it was known by the time and no row of its own identity that was
/// known by then has a greater revision. So the selection holds, for each identity, the row that
/// the greatest revision has.
pub proof fn lemma_selection_holds_the_greatest_revisions(
    rows: Seq<RowView>,
    time_ns: i64,
    k: int,
)
    requires
        rows_in_order(rows),
        histories_are_lawful(rows),
        0 <= k < rows.len(),
    ensures
        known_rows(rows, time_ns).contains(rows[k]) <==> {
            &&& rows[k].as_known_at_ns <= time_ns
            &&& rows[k].computed_at_ns <= time_ns
            &&& rows[k].finality_as_known_at_ns <= time_ns
            &&& forall|j: int|
                0 <= j < rows.len() && (#[trigger] rows[j]).identity() == rows[k].identity()
                    && rows[j].as_known_at_ns <= time_ns && rows[j].computed_at_ns <= time_ns
                    && rows[j].finality_as_known_at_ns <= time_ns ==> rows[j].revision
                    <= rows[k].revision
        },
{
    let selected = known_rows(rows, time_ns);
    if selected.contains(rows[k]) {
        let at = selected.index_of(rows[k]);
        lemma_selection_never_knows_the_future(rows, time_ns, at);
        assert forall|j: int|
            0 <= j < rows.len() && (#[trigger] rows[j]).identity() == rows[k].identity()
                && known_by(rows[j], time_ns) implies rows[j].revision <= rows[k].revision by {
            lemma_selection_is_latest(rows, time_ns, j);
            let i = choose|i: int|
                0 <= i < selected.len() && (#[trigger] selected[i]).identity()
                    == rows[j].identity() && rows[j].revision <= selected[i].revision;
            if i < at {
                lemma_selected_identities_differ(rows, time_ns, i, at);
            } else if at < i {
                lemma_selected_identities_differ(rows, time_ns, at, i);
            }
        }
    } else if known_by(rows[k], time_ns) {
        lemma_selection_is_latest(rows, time_ns, k);
        let i = choose|i: int|
            0 <= i < selected.len() && (#[trigger] selected[i]).identity() == rows[k].identity()
                && rows[k].revision <= selected[i].revision;
        lemma_selection_never_knows_the_future(rows, time_ns, i);
        let j = rows.index_of(selected[i]);
        assert(rows[j] == selected[i]);
        if rows[j].revision == rows[k].revision {
            lemma_revisions_differ(rows, if j < k {
                j
            } else {
                k
            }, if j < k {
                k
            } else {
                j
            });
        }
    }
}

/// Two rows of one identity in lawful histories are of different revisions.
proof fn lemma_revisions_differ(rows: Seq<RowView>, i: int, j: int)
    requires
        rows_in_order(rows),
        histories_are_lawful(rows),
        0 <= i <= j < rows.len(),
        rows[i].identity() == rows[j].identity(),
    ensures
        i < j ==> rows[i].revision < rows[j].revision,
    decreases j - i,
{
    if i < j {
        assert(continues_history(rows, j));
        let before = rows[j - 1];
        if i < j - 1 {
            assert(in_order(rows[i], rows[j - 1]) && in_order(rows[j - 1], rows[j]));
            if before.identity() != rows[j].identity() {
                lemma_same_identity_same_rank(rows[i], rows[j]);
                lemma_identities_are_ordered(rows[i], before);
            }
            lemma_revisions_differ(rows, i, j - 1);
        }
    }
}

/// Every history starts with its first revision, and each row behind that is the next revision of
/// the row before it, marked as corrected and known no earlier.
pub proof fn lemma_histories_count_their_revisions(rows: Seq<RowView>, i: int)
    requires
        0 <= i < rows.len(),
    ensures
        continues_history(rows, i) && rows[i].revision == 1 && i > 0 && rows[i - 1].revision > 0
            ==> rows[i].identity() != rows[i - 1].identity(),
        continues_history(rows, i) && rows[i].revision != 1 ==> {
            &&& i > 0
            &&& rows[i].identity() == rows[i - 1].identity()
            &&& rows[i].revision - 1 == rows[i - 1].revision
            &&& rows[i].as_known_at_ns >= rows[i - 1].as_known_at_ns
            &&& rows[i].finality_state == "corrected"@
        },
        i > 0 && rows[i].identity() == rows[i - 1].identity() && rows[i].revision == rows[i
            - 1].revision + 1 && rows[i].as_known_at_ns >= rows[i - 1].as_known_at_ns
            && rows[i].finality_state == "corrected"@ ==> continues_history(rows, i),
{
}

} // verus!
