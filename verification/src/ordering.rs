use vstd::prelude::*;

use crate::digest::same_digest;

verus! {

/// Strict lexicographic order on sequences of integers, a proper prefix coming first.
pub open spec fn rank_precedes(a: Seq<int>, b: Seq<int>) -> bool
    decreases a.len(),
{
    if b.len() == 0 {
        false
    } else if a.len() == 0 {
        true
    } else if a[0] != b[0] {
        a[0] < b[0]
    } else {
        rank_precedes(a.drop_first(), b.drop_first())
    }
}

/// A type whose values are ordered by a sequence of integers.
pub trait Ranked: Sized {
    spec fn rank(&self) -> Seq<int>;

    fn precedes(&self, other: &Self) -> (before: bool)
        ensures
            before == rank_precedes(self.rank(), other.rank()),
    ;
}

/// No item comes before an item that stands earlier.
pub open spec fn sorted_by_rank<T: Ranked>(items: Seq<T>) -> bool {
    forall|i: int, j: int|
        0 <= i < j < items.len() ==> !rank_precedes(
            #[trigger] items[j].rank(),
            #[trigger] items[i].rank(),
        )
}

/// Every item comes strictly before the items that stand later.
pub open spec fn strictly_sorted_by_rank<T: Ranked>(items: Seq<T>) -> bool {
    forall|i: int, j: int|
        0 <= i < j < items.len() ==> rank_precedes(
            #[trigger] items[i].rank(),
            #[trigger] items[j].rank(),
        )
}

pub proof fn lemma_rank_irreflexive(a: Seq<int>)
    ensures
        !rank_precedes(a, a),
    decreases a.len(),
{
    if a.len() > 0 {
        lemma_rank_irreflexive(a.drop_first());
    }
}

pub proof fn lemma_rank_transitive(a: Seq<int>, b: Seq<int>, c: Seq<int>)
    requires
        rank_precedes(a, b),
        rank_precedes(b, c),
    ensures
        rank_precedes(a, c),
    decreases a.len(),
{
    if a.len() > 0 && a[0] == b[0] && b[0] == c[0] {
        lemma_rank_transitive(a.drop_first(), b.drop_first(), c.drop_first());
    }
}

/// Two different ranks are ordered one way, and never both ways.
pub proof fn lemma_rank_order_is_total(a: Seq<int>, b: Seq<int>)
    ensures
        a != b <==> (rank_precedes(a, b) || rank_precedes(b, a)),
        !(rank_precedes(a, b) && rank_precedes(b, a)),
    decreases a.len(),
{
    if a.len() > 0 && b.len() > 0 {
        lemma_rank_order_is_total(a.drop_first(), b.drop_first());
        assert(a =~= seq![a[0]] + a.drop_first());
        assert(b =~= seq![b[0]] + b.drop_first());
    } else if a.len() == 0 && b.len() == 0 {
        assert(a =~= b);
    }
}

pub proof fn lemma_rank_not_after_transitive(a: Seq<int>, b: Seq<int>, c: Seq<int>)
    requires
        !rank_precedes(b, a),
        !rank_precedes(c, b),
    ensures
        !rank_precedes(c, a),
{
    lemma_rank_order_is_total(a, b);
    lemma_rank_order_is_total(b, c);
    if rank_precedes(c, a) {
        if a != b && b != c {
            lemma_rank_transitive(a, b, c);
            lemma_rank_transitive(c, a, b);
            lemma_rank_order_is_total(c, b);
        }
        lemma_rank_order_is_total(a, c);
    }
}

/// Behind an equal head of equal length, the tails decide.
pub proof fn lemma_rank_concat(a: Seq<int>, b: Seq<int>, x: Seq<int>, y: Seq<int>)
    requires
        a.len() == b.len(),
    ensures
        a == b ==> rank_precedes(a + x, b + y) == rank_precedes(x, y),
        a != b ==> rank_precedes(a + x, b + y) == rank_precedes(a, b),
    decreases a.len(),
{
    if a.len() == 0 {
        assert(a + x =~= x);
        assert(b + y =~= y);
        assert(a =~= b);
    } else {
        assert((a + x).drop_first() =~= a.drop_first() + x);
        assert((b + y).drop_first() =~= b.drop_first() + y);
        lemma_rank_concat(a.drop_first(), b.drop_first(), x, y);
        assert(a =~= seq![a[0]] + a.drop_first());
        assert(b =~= seq![b[0]] + b.drop_first());
    }
}

/// The rank of a byte string inside a longer rank: its bytes, then a terminator that comes
/// before every byte.
pub open spec fn byte_rank(bytes: Seq<u8>) -> Seq<int> {
    bytes.map_values(|b: u8| b as int).push(-1)
}

/// Behind equal byte strings the tails decide; otherwise the byte strings do.
pub proof fn lemma_byte_rank_concat(a: Seq<u8>, b: Seq<u8>, x: Seq<int>, y: Seq<int>)
    ensures
        a == b ==> rank_precedes(byte_rank(a) + x, byte_rank(b) + y) == rank_precedes(x, y),
        a != b ==> rank_precedes(byte_rank(a) + x, byte_rank(b) + y) == rank_precedes(
            byte_rank(a),
            byte_rank(b),
        ),
        a != b <==> byte_rank(a) != byte_rank(b),
    decreases a.len(),
{
    let ra = byte_rank(a) + x;
    let rb = byte_rank(b) + y;
    if a.len() == 0 || b.len() == 0 {
        if a.len() == 0 && b.len() == 0 {
            assert(a =~= b);
            assert(ra.drop_first() =~= x);
            assert(rb.drop_first() =~= y);
        } else {
            assert(byte_rank(a)[0] != byte_rank(b)[0]);
        }
    } else {
        assert(byte_rank(a).drop_first() =~= byte_rank(a.drop_first()));
        assert(byte_rank(b).drop_first() =~= byte_rank(b.drop_first()));
        assert(ra.drop_first() =~= byte_rank(a.drop_first()) + x);
        assert(rb.drop_first() =~= byte_rank(b.drop_first()) + y);
        lemma_byte_rank_concat(a.drop_first(), b.drop_first(), x, y);
        assert(a =~= seq![a[0]] + a.drop_first());
        assert(b =~= seq![b[0]] + b.drop_first());
        assert(byte_rank(a)[0] == a[0] as int);
        assert(byte_rank(b)[0] == b[0] as int);
    }
}

/// Byte-wise lexicographic order of two byte strings.
pub fn bytes_precede(a: &[u8], b: &[u8]) -> (before: bool)
    ensures
        before == rank_precedes(byte_rank(a@), byte_rank(b@)),
{
    let mut i: usize = 0;
    while i < a.len() && i < b.len()
        invariant
            i <= a.len(),
            i <= b.len(),
            forall|k: int| 0 <= k < i ==> a@[k] == b@[k],
        decreases a.len() - i,
    {
        if a[i] != b[i] {
            proof {
                lemma_byte_rank_at(a@, b@, i as int);
            }
            return a[i] < b[i];
        }
        i += 1;
    }
    proof {
        lemma_byte_rank_at(a@, b@, i as int);
    }
    i == a.len() && i < b.len()
}

proof fn lemma_byte_rank_at(a: Seq<u8>, b: Seq<u8>, i: int)
    requires
        0 <= i <= a.len(),
        i <= b.len(),
        forall|k: int| 0 <= k < i ==> a[k] == b[k],
        i == a.len() || i == b.len() || a[i] != b[i],
    ensures
        rank_precedes(byte_rank(a), byte_rank(b)) == if i == a.len() {
            i < b.len()
        } else if i == b.len() {
            false
        } else {
            a[i] < b[i]
        },
    decreases i,
{
    let ra = byte_rank(a);
    let rb = byte_rank(b);
    if i == 0 {
        if a.len() == 0 && b.len() == 0 {
            assert(ra =~= rb);
            lemma_rank_irreflexive(ra);
        } else {
            assert(ra[0] == if a.len() == 0 { -1 } else { a[0] as int });
            assert(rb[0] == if b.len() == 0 { -1 } else { b[0] as int });
        }
    } else {
        assert(ra.drop_first() =~= byte_rank(a.drop_first()));
        assert(rb.drop_first() =~= byte_rank(b.drop_first()));
        assert(ra[0] == rb[0]);
        lemma_byte_rank_at(a.drop_first(), b.drop_first(), i - 1);
    }
}

/// Arranges `items` in rank order.
pub fn sort_by_rank<T: Ranked>(items: Vec<T>) -> (sorted: Vec<T>)
    ensures
        sorted@.to_multiset() == items@.to_multiset(),
        sorted_by_rank(sorted@),
    decreases items@.len(),
{
    if items.len() < 2 {
        return items;
    }
    let middle: usize = items.len() / 2;
    let mut head = items;
    let tail = head.split_off(middle);
    proof {
        assert(items@ =~= head@ + tail@);
        vstd::seq_lib::lemma_multiset_commutative(head@, tail@);
    }
    merge_by_rank(sort_by_rank(head), sort_by_rank(tail))
}

/// No item of `left` comes behind an item of `right`.
spec fn none_after<T: Ranked>(left: Seq<T>, right: Seq<T>) -> bool {
    forall|i: int, j: int|
        0 <= i < left.len() && 0 <= j < right.len() ==> !rank_precedes(
            #[trigger] right[j].rank(),
            #[trigger] left[i].rank(),
        )
}

/// Merges two arrangements into one.
fn merge_by_rank<T: Ranked>(left: Vec<T>, right: Vec<T>) -> (merged: Vec<T>)
    requires
        sorted_by_rank(left@),
        sorted_by_rank(right@),
    ensures
        merged@.to_multiset() == left@.to_multiset().add(right@.to_multiset()),
        sorted_by_rank(merged@),
{
    let ghost whole = left@.to_multiset().add(right@.to_multiset());
    let mut left = left;
    let mut right = right;
    let mut backwards: Vec<T> = Vec::new();
    proof {
        backwards@.to_multiset_ensures();
        assert(left@.to_multiset().add(right@.to_multiset()).add(backwards@.to_multiset())
            =~= whole);
    }
    while left.len() > 0 || right.len() > 0
        invariant
            sorted_by_rank(left@),
            sorted_by_rank(right@),
            sorted_by_rank(backwards@.reverse()),
            none_after(left@, backwards@),
            none_after(right@, backwards@),
            left@.to_multiset().add(right@.to_multiset()).add(backwards@.to_multiset()) =~= whole,
        decreases left.len() + right.len(),
    {
        let from_left: bool = if right.len() == 0 {
            true
        } else if left.len() == 0 {
            false
        } else {
            right[right.len() - 1].precedes(&left[left.len() - 1])
        };
        let ghost before = backwards@;
        if from_left {
            let ghost source = left@;
            let item = left.pop().unwrap();
            proof {
                assert(left@ =~= source.drop_last());
                lemma_last_is_greatest(source);
                lemma_taken(source, right@, before, item);
                if right@.len() > 0 {
                    lemma_rank_order_is_total(item.rank(), right@.last().rank());
                    lemma_none_after_last(right@, item);
                }
            }
            backwards.push(item);
        } else {
            let ghost source = right@;
            let item = right.pop().unwrap();
            proof {
                assert(right@ =~= source.drop_last());
                lemma_last_is_greatest(source);
                lemma_taken(source, left@, before, item);
                if left@.len() > 0 {
                    lemma_none_after_last(left@, item);
                }
                assert(left@.to_multiset().add(source.to_multiset()) =~= source.to_multiset().add(
                    left@.to_multiset(),
                ));
                assert(left@.to_multiset().add(right@.to_multiset()) =~= right@.to_multiset().add(
                    left@.to_multiset(),
                ));
            }
            backwards.push(item);
        }
    }
    let ghost done = backwards@;
    let mut merged: Vec<T> = Vec::new();
    proof {
        left@.to_multiset_ensures();
        right@.to_multiset_ensures();
        assert(left@ =~= Seq::<T>::empty());
        assert(right@ =~= Seq::<T>::empty());
        merged@.to_multiset_ensures();
        assert(done.reverse().take(0) =~= merged@);
    }
    while backwards.len() > 0
        invariant
            backwards@ == done.take(backwards@.len() as int),
            backwards@.len() <= done.len(),
            merged@ == done.reverse().take(done.len() - backwards@.len()),
        decreases backwards.len(),
    {
        let ghost remaining = backwards@;
        let item = backwards.pop().unwrap();
        merged.push(item);
        proof {
            assert(backwards@ =~= done.take(backwards@.len() as int));
            assert(merged@ =~= done.reverse().take(done.len() - backwards@.len()));
        }
    }
    proof {
        assert(merged@ =~= done.reverse());
        lemma_reverse_multiset(done);
    }
    merged
}

proof fn lemma_last_is_greatest<T: Ranked>(items: Seq<T>)
    requires
        sorted_by_rank(items),
        items.len() > 0,
    ensures
        sorted_by_rank(items.drop_last()),
        none_after(items.drop_last(), seq![items.last()]),
{
    let head = items.drop_last();
    assert forall|i: int, j: int| 0 <= i < j < head.len() implies !rank_precedes(
        #[trigger] head[j].rank(),
        #[trigger] head[i].rank(),
    ) by {
        assert(head[i] == items[i] && head[j] == items[j]);
    }
    assert forall|i: int, j: int|
        0 <= i < head.len() && 0 <= j < 1 implies !rank_precedes(
        #[trigger] seq![items.last()][j].rank(),
        #[trigger] head[i].rank(),
    ) by {
        assert(head[i] == items[i]);
        assert(items[items.len() - 1] == items.last());
        assert(!rank_precedes(items[items.len() - 1].rank(), items[i].rank()));
    }
}

proof fn lemma_none_after_last<T: Ranked>(items: Seq<T>, item: T)
    requires
        sorted_by_rank(items),
        items.len() > 0,
        !rank_precedes(item.rank(), items.last().rank()),
    ensures
        none_after(items, seq![item]),
{
    assert forall|i: int, j: int| 0 <= i < items.len() && 0 <= j < 1 implies !rank_precedes(
        #[trigger] seq![item][j].rank(),
        #[trigger] items[i].rank(),
    ) by {
        if i < items.len() - 1 {
            assert(!rank_precedes(items[items.len() - 1].rank(), items[i].rank()));
            lemma_rank_not_after_transitive(items[i].rank(), items.last().rank(), item.rank());
        }
    }
}

proof fn lemma_taken<T: Ranked>(source: Seq<T>, other: Seq<T>, before: Seq<T>, item: T)
    requires
        source.len() > 0,
        item == source.last(),
        none_after(source, before),
        none_after(other, before),
        none_after(source.drop_last(), seq![item]),
        sorted_by_rank(before.reverse()),
    ensures
        none_after(source.drop_last(), before.push(item)),
        none_after(other, seq![item]) ==> none_after(other, before.push(item)),
        sorted_by_rank(before.push(item).reverse()),
        source.drop_last().to_multiset().add(other.to_multiset()).add(
            before.push(item).to_multiset(),
        ) =~= source.to_multiset().add(other.to_multiset()).add(before.to_multiset()),
{
    let head = source.drop_last();
    let after = before.push(item);
    assert forall|i: int, j: int|
        0 <= i < head.len() && 0 <= j < after.len() implies !rank_precedes(
        #[trigger] after[j].rank(),
        #[trigger] head[i].rank(),
    ) by {
        if j < before.len() {
            assert(after[j] == before[j]);
            assert(head[i] == source[i]);
            assert(!rank_precedes(before[j].rank(), source[i].rank()));
        } else {
            assert(!rank_precedes(seq![item][0].rank(), head[i].rank()));
        }
    }
    if none_after(other, seq![item]) {
        assert forall|i: int, j: int|
            0 <= i < other.len() && 0 <= j < after.len() implies !rank_precedes(
            #[trigger] after[j].rank(),
            #[trigger] other[i].rank(),
        ) by {
            if j < before.len() {
                assert(after[j] == before[j]);
            } else {
                assert(!rank_precedes(seq![item][0].rank(), other[i].rank()));
            }
        }
    }
    let turned = after.reverse();
    assert forall|i: int, j: int| 0 <= i < j < turned.len() implies !rank_precedes(
        #[trigger] turned[j].rank(),
        #[trigger] turned[i].rank(),
    ) by {
        assert(turned[j] == before.reverse()[j - 1]);
        if i == 0 {
            assert(turned[0] == item);
            assert(turned[j] == before[before.len() - j]);
            assert(source[source.len() - 1] == item);
            assert(!rank_precedes(before[before.len() - j].rank(), source[source.len() - 1].rank()));
        } else {
            assert(turned[i] == before.reverse()[i - 1]);
        }
    }
    vstd::seq_lib::to_multiset_build(before, item);
    vstd::seq_lib::to_multiset_build(head, item);
    assert(source =~= head.push(item));
}

proof fn lemma_reverse_multiset<T>(items: Seq<T>)
    ensures
        items.reverse().to_multiset() =~= items.to_multiset(),
    decreases items.len(),
{
    if items.len() == 0 {
        assert(items.reverse() =~= items);
    } else {
        let head = items.drop_last();
        let last = items.last();
        lemma_reverse_multiset(head);
        assert(items =~= head.push(last));
        vstd::seq_lib::to_multiset_build(head, last);
        assert(items.reverse() =~= head.reverse().insert(0, last));
        vstd::seq_lib::to_multiset_insert(head.reverse(), 0, last);
    }
}

/// Adds one item behind the items that it does not precede.
pub(crate) fn insert_by_rank<T: Ranked>(sorted: &mut Vec<T>, item: T)
    requires
        sorted_by_rank(old(sorted)@),
    ensures
        sorted_by_rank(final(sorted)@),
        final(sorted)@.to_multiset() =~= old(sorted)@.to_multiset().insert(item),
{
    let mut at: usize = sorted.len();
    let ghost start = sorted@;
    while at > 0 && item.precedes(&sorted[at - 1])
        invariant
            at <= sorted.len(),
            sorted@ == start,
            forall|k: int| at <= k < sorted.len() ==> rank_precedes(item.rank(), #[trigger] sorted[k].rank()),
        decreases at,
    {
        at -= 1;
    }
    proof {
        assert forall|k: int| 0 <= k < at implies !rank_precedes(
            item.rank(),
            #[trigger] start[k].rank(),
        ) by {
            if k < at - 1 {
                lemma_rank_not_after_transitive(start[k].rank(), start[at - 1].rank(), item.rank());
            }
        }
        assert forall|k: int| at <= k < start.len() implies !rank_precedes(
            #[trigger] start[k].rank(),
            item.rank(),
        ) by {
            lemma_rank_order_is_total(item.rank(), start[k].rank());
        }
        vstd::seq_lib::to_multiset_insert(start, at as int, item);
    }
    sorted.insert(at, item);
}

pub open spec fn distinct_ranks<T: Ranked>(items: Seq<T>) -> bool {
    forall|i: int, j: int|
        0 <= i < j < items.len() ==> (#[trigger] items[i].rank()) != (#[trigger] items[j].rank())
}

/// Items with distinct ranks are in strict order once they are sorted, and keep their members.
pub proof fn lemma_sorted_distinct<T: Ranked>(items: Seq<T>, sorted: Seq<T>)
    requires
        distinct_ranks(items),
        sorted.to_multiset() == items.to_multiset(),
        sorted_by_rank(sorted),
    ensures
        strictly_sorted_by_rank(sorted),
        sorted.len() == items.len(),
        forall|i: int| 0 <= i < items.len() ==> sorted.contains(#[trigger] items[i]),
        forall|i: int| 0 <= i < sorted.len() ==> items.contains(#[trigger] sorted[i]),
{
    items.to_multiset_ensures();
    sorted.to_multiset_ensures();
    assert forall|i: int| 0 <= i < items.len() implies sorted.contains(#[trigger] items[i]) by {
        assert(items.contains(items[i]));
        assert(sorted.to_multiset().count(items[i]) > 0);
    }
    assert forall|i: int| 0 <= i < sorted.len() implies items.contains(#[trigger] sorted[i]) by {
        assert(sorted.contains(sorted[i]));
        assert(items.to_multiset().count(sorted[i]) > 0);
    }
    lemma_distinct_ranks_rearranged(items, sorted);
    assert forall|i: int, j: int| 0 <= i < j < sorted.len() implies rank_precedes(
        #[trigger] sorted[i].rank(),
        #[trigger] sorted[j].rank(),
    ) by {
        lemma_rank_order_is_total(sorted[i].rank(), sorted[j].rank());
    }
}

impl Ranked for [u8; 32] {
    open spec fn rank(&self) -> Seq<int> {
        byte_rank(self@)
    }

    fn precedes(&self, other: &Self) -> (before: bool) {
        bytes_precede(self.as_slice(), other.as_slice())
    }
}

/// Arrangements of the same items have the same images.
pub proof fn lemma_images_keep_members<T, V>(a: Seq<T>, b: Seq<T>, image: spec_fn(T) -> V)
    requires
        a.to_multiset() == b.to_multiset(),
    ensures
        a.map_values(image).to_multiset() == b.map_values(image).to_multiset(),
    decreases a.len(),
{
    a.to_multiset_ensures();
    b.to_multiset_ensures();
    let left = a.map_values(image);
    let right = b.map_values(image);
    if a.len() == 0 {
        assert(b.len() == 0);
        assert(left =~= right);
    } else {
        let item = a[0];
        assert(a.contains(item));
        assert(b.to_multiset().count(item) > 0);
        assert(b.contains(item));
        let at = b.index_of(item);
        let rest = b.remove(at);
        assert(a.remove(0).to_multiset() =~= rest.to_multiset());
        lemma_images_keep_members(a.remove(0), rest, image);
        assert(a.remove(0).map_values(image) =~= left.remove(0));
        assert(rest.map_values(image) =~= right.remove(at));
        left.to_multiset_ensures();
        right.to_multiset_ensures();
        assert(left.to_multiset() =~= left.remove(0).to_multiset().insert(image(item)));
        assert(right.to_multiset() =~= right.remove(at).to_multiset().insert(image(item)));
    }
}

/// The contents of a list of digests.
pub open spec fn digest_views(digests: Seq<[u8; 32]>) -> Seq<Seq<u8>> {
    Seq::new(digests.len(), |i: int| digests[i]@)
}

/// Whether digests in rank order are pairwise different.
pub(crate) fn distinct_sorted_digests(digests: &Vec<[u8; 32]>) -> (answer: bool)
    requires
        sorted_by_rank(digests@),
    ensures
        answer == distinct_ranks(digests@),
{
    let mut i: usize = 1;
    while i < digests.len()
        invariant
            1 <= i,
            i <= digests@.len() || digests@.len() == 0,
            sorted_by_rank(digests@),
            forall|a: int, b: int|
                0 <= a < b < i && b < digests@.len() ==> rank_precedes(
                    #[trigger] digests@[a].rank(),
                    #[trigger] digests@[b].rank(),
                ),
        decreases digests.len() - i,
    {
        proof {
            lemma_rank_order_is_total(digests@[i - 1].rank(), digests@[i as int].rank());
        }
        if !digests[i - 1].precedes(&digests[i]) {
            proof {
                assert(!rank_precedes(digests@[i as int].rank(), digests@[i - 1].rank()));
                assert(digests@[i - 1].rank() == digests@[i as int].rank());
            }
            return false;
        }
        proof {
            assert forall|a: int| 0 <= a < i implies rank_precedes(
                #[trigger] digests@[a].rank(),
                digests@[i as int].rank(),
            ) by {
                if a < i - 1 {
                    lemma_rank_transitive(
                        digests@[a].rank(),
                        digests@[i - 1].rank(),
                        digests@[i as int].rank(),
                    );
                }
            }
        }
        i += 1;
    }
    proof {
        assert forall|a: int, b: int| 0 <= a < b < digests@.len() implies (
        #[trigger] digests@[a].rank()) != (#[trigger] digests@[b].rank()) by {
            lemma_rank_irreflexive(digests@[a].rank());
        }
    }
    true
}

/// Rearranging items keeps their ranks distinct.
pub proof fn lemma_distinct_ranks_rearranged<T: Ranked>(items: Seq<T>, others: Seq<T>)
    requires
        items.to_multiset() == others.to_multiset(),
        distinct_ranks(items),
    ensures
        distinct_ranks(others),
{
    items.to_multiset_ensures();
    others.to_multiset_ensures();
    assert forall|i: int, j: int| 0 <= i < j < others.len() implies (
    #[trigger] others[i].rank()) != (#[trigger] others[j].rank()) by {
        if others[i].rank() == others[j].rank() {
            assert(others.contains(others[i]) && others.contains(others[j]));
            assert(items.to_multiset().count(others[i]) > 0);
            assert(items.to_multiset().count(others[j]) > 0);
            assert(items.contains(others[i]) && items.contains(others[j]));
            let a = items.index_of(others[i]);
            let b = items.index_of(others[j]);
            if a != b {
                if a < b {
                    assert(items[a].rank() != items[b].rank());
                } else {
                    assert(items[b].rank() != items[a].rank());
                }
            } else {
                let x = others[i];
                let rest = others.remove(i);
                vstd::seq_lib::to_multiset_remove(others, i);
                rest.to_multiset_ensures();
                assert(rest[j - 1] == x);
                assert(rest.contains(x));
                let fewer = items.remove(a);
                vstd::seq_lib::to_multiset_remove(items, a);
                fewer.to_multiset_ensures();
                assert(fewer.to_multiset().count(x) > 0);
                assert(fewer.contains(x));
                let c = fewer.index_of(x);
                let d = if c < a {
                    c
                } else {
                    c + 1
                };
                assert(items[d] == x && d != a);
                if a < d {
                    assert(items[a].rank() != items[d].rank());
                } else {
                    assert(items[d].rank() != items[a].rank());
                }
            }
        }
    }
}

/// Whether digests are pairwise different.
pub(crate) fn distinct_digests(digests: Vec<[u8; 32]>) -> (answer: bool)
    ensures
        answer == digest_views(digests@).no_duplicates(),
{
    let ghost all = digests@;
    let sorted = sort_by_rank(digests);
    let answer: bool = distinct_sorted_digests(&sorted);
    proof {
        if distinct_ranks(sorted@) {
            lemma_distinct_ranks_rearranged(sorted@, all);
        }
        if distinct_ranks(all) {
            lemma_distinct_ranks_rearranged(all, sorted@);
        }
        lemma_distinct_digest_views(all);
    }
    answer
}

pub proof fn lemma_distinct_digest_views(digests: Seq<[u8; 32]>)
    ensures
        distinct_ranks(digests) <==> digest_views(digests).no_duplicates(),
{
    let views = digest_views(digests);
    if distinct_ranks(digests) {
        assert forall|i: int, j: int|
            0 <= i < views.len() && 0 <= j < views.len() && i != j implies views[i] != views[j] by {
            if i < j {
                assert(digests[i].rank() != digests[j].rank());
            } else {
                assert(digests[j].rank() != digests[i].rank());
            }
        }
    }
    if views.no_duplicates() {
        assert forall|i: int, j: int| 0 <= i < j < digests.len() implies (
        #[trigger] digests[i].rank()) != (#[trigger] digests[j].rank()) by {
            assert(views[i] != views[j]);
            lemma_byte_rank_concat(digests[i]@, digests[j]@, Seq::empty(), Seq::empty());
        }
    }
}

/// Items with distinct ranks have one arrangement in rank order.
pub proof fn lemma_sorted_arrangement_is_unique<T: Ranked>(a: Seq<T>, b: Seq<T>)
    requires
        a.to_multiset() == b.to_multiset(),
        strictly_sorted_by_rank(a),
        sorted_by_rank(b),
    ensures
        a == b,
    decreases a.len(),
{
    a.to_multiset_ensures();
    b.to_multiset_ensures();
    if a.len() == 0 {
        assert(b =~= a);
    } else {
        assert(b.len() == a.len());
        let x = a[0];
        assert(a.contains(x));
        assert(b.to_multiset().count(x) > 0);
        let j = b.index_of(x);
        assert(b.contains(x));
        assert(b[j] == x);
        assert(a.to_multiset().count(b[0]) > 0) by {
            assert(b.contains(b[0]));
        }
        assert(a.contains(b[0]));
        let i = a.index_of(b[0]);
        if i > 0 {
            assert(rank_precedes(a[0].rank(), a[i].rank()));
            assert(j != 0) by {
                lemma_rank_irreflexive(a[0].rank());
            }
            assert(!rank_precedes(b[j].rank(), b[0].rank()));
            assert(false);
        }
        assert(a[0] == b[0]);
        let ra = a.drop_first();
        let rb = b.drop_first();
        assert(ra =~= a.remove(0));
        assert(rb =~= b.remove(0));
        assert(ra.to_multiset() =~= a.to_multiset().remove(a[0]));
        assert(rb.to_multiset() =~= b.to_multiset().remove(b[0]));
        assert forall|p: int, q: int| 0 <= p < q < ra.len() implies rank_precedes(
            #[trigger] ra[p].rank(),
            #[trigger] ra[q].rank(),
        ) by {
            assert(ra[p] == a[p + 1]);
            assert(ra[q] == a[q + 1]);
        }
        assert forall|p: int, q: int| 0 <= p < q < rb.len() implies !rank_precedes(
            #[trigger] rb[q].rank(),
            #[trigger] rb[p].rank(),
        ) by {
            assert(rb[p] == b[p + 1]);
            assert(rb[q] == b[q + 1]);
        }
        lemma_sorted_arrangement_is_unique(ra, rb);
        assert(a =~= seq![a[0]] + ra);
        assert(b =~= seq![b[0]] + rb);
    }
}

/// An arrangement with one more item, behind the items that it does not precede.
pub open spec fn settled<T: Ranked>(sorted: Seq<T>, item: T) -> Seq<T>
    decreases sorted.len(),
{
    if sorted.len() == 0 || !rank_precedes(item.rank(), sorted.last().rank()) {
        sorted.push(item)
    } else {
        settled(sorted.drop_last(), item).push(sorted.last())
    }
}

/// Items in rank order, those of equal rank in the order in which they came.
pub open spec fn stably_sorted<T: Ranked>(items: Seq<T>) -> Seq<T>
    decreases items.len(),
{
    if items.len() == 0 {
        Seq::empty()
    } else {
        settled(stably_sorted(items.drop_last()), items.last())
    }
}

/// Byte strings in ascending order with one more, behind those that it does not precede.
pub open spec fn settled_bytes(sorted: Seq<Seq<u8>>, item: Seq<u8>) -> Seq<Seq<u8>>
    decreases sorted.len(),
{
    if sorted.len() == 0 || !rank_precedes(byte_rank(item), byte_rank(sorted.last())) {
        sorted.push(item)
    } else {
        settled_bytes(sorted.drop_last(), item).push(sorted.last())
    }
}

/// Byte strings in ascending order.
pub open spec fn ascending_bytes(items: Seq<Seq<u8>>) -> Seq<Seq<u8>>
    decreases items.len(),
{
    if items.len() == 0 {
        Seq::empty()
    } else {
        settled_bytes(ascending_bytes(items.drop_last()), items.last())
    }
}

proof fn lemma_settled_digests(sorted: Seq<[u8; 32]>, item: [u8; 32])
    ensures
        digest_views(settled(sorted, item)) == settled_bytes(digest_views(sorted), item@),
    decreases sorted.len(),
{
    let views = digest_views(sorted);
    if sorted.len() == 0 || !rank_precedes(item.rank(), sorted.last().rank()) {
        assert(digest_views(sorted.push(item)) =~= views.push(item@));
    } else {
        let head = sorted.drop_last();
        lemma_settled_digests(head, item);
        assert(digest_views(head) =~= views.drop_last());
        assert(digest_views(settled(head, item).push(sorted.last())) =~= digest_views(
            settled(head, item),
        ).push(sorted.last()@));
    }
}

/// The contents of sorted digests are the sorted contents.
pub proof fn lemma_sorted_digests(digests: Seq<[u8; 32]>)
    ensures
        digest_views(stably_sorted(digests)) == ascending_bytes(digest_views(digests)),
    decreases digests.len(),
{
    let views = digest_views(digests);
    if digests.len() == 0 {
        assert(digest_views(stably_sorted(digests)) =~= ascending_bytes(views));
    } else {
        let head = digests.drop_last();
        lemma_sorted_digests(head);
        assert(digest_views(head) =~= views.drop_last());
        assert(views.last() == digests.last()@);
        lemma_settled_digests(stably_sorted(head), digests.last());
    }
}

/// An item and its place among those that it came with.
struct Placed<T> {
    item: T,
    place: usize,
}

/// Each integer behind a one.
spec fn spaced(rank: Seq<int>) -> Seq<int>
    decreases rank.len(),
{
    if rank.len() == 0 {
        Seq::empty()
    } else {
        seq![1, rank[0]] + spaced(rank.drop_first())
    }
}

impl<T: Ranked> Ranked for Placed<T> {
    closed spec fn rank(&self) -> Seq<int> {
        spaced(self.item.rank()) + seq![0, self.place as int]
    }

    fn precedes(&self, other: &Self) -> (before: bool) {
        proof {
            lemma_placed_order(
                self.item.rank(),
                self.place as int,
                other.item.rank(),
                other.place as int,
            );
            lemma_rank_order_is_total(self.item.rank(), other.item.rank());
        }
        if self.item.precedes(&other.item) {
            true
        } else if other.item.precedes(&self.item) {
            false
        } else {
            self.place < other.place
        }
    }
}

proof fn lemma_placed_order(a: Seq<int>, i: int, b: Seq<int>, j: int)
    ensures
        rank_precedes(spaced(a) + seq![0, i], spaced(b) + seq![0, j]) == (if a == b {
            i < j
        } else {
            rank_precedes(a, b)
        }),
    decreases a.len(),
{
    let left = spaced(a) + seq![0, i];
    let right = spaced(b) + seq![0, j];
    reveal_with_fuel(rank_precedes, 3);
    if a.len() == 0 && b.len() == 0 {
        assert(a =~= b);
        assert(left =~= seq![0, i]);
        assert(right =~= seq![0, j]);
        assert(left.drop_first()[0] == i);
        assert(right.drop_first()[0] == j);
    } else if a.len() == 0 {
        assert(left[0] == 0);
        assert(right[0] == 1);
    } else if b.len() == 0 {
        assert(left[0] == 1);
        assert(right[0] == 0);
    } else {
        let x = a.drop_first();
        let y = b.drop_first();
        assert(a =~= seq![a[0]] + x);
        assert(b =~= seq![b[0]] + y);
        assert(left.drop_first() =~= seq![a[0]] + (spaced(x) + seq![0, i]));
        assert(right.drop_first() =~= seq![b[0]] + (spaced(y) + seq![0, j]));
        assert(left.drop_first().drop_first() =~= spaced(x) + seq![0, i]);
        assert(right.drop_first().drop_first() =~= spaced(y) + seq![0, j]);
        lemma_placed_order(x, i, y, j);
    }
}

spec fn placed<T>(items: Seq<T>) -> Seq<Placed<T>> {
    Seq::new(items.len(), |i: int| Placed { item: items[i], place: i as usize })
}

spec fn unplaced<T>(items: Seq<Placed<T>>) -> Seq<T> {
    Seq::new(items.len(), |i: int| items[i].item)
}

proof fn lemma_settled<T: Ranked>(sorted: Seq<T>, item: T)
    requires
        sorted_by_rank(sorted),
    ensures
        sorted_by_rank(settled(sorted, item)),
        settled(sorted, item).to_multiset() =~= sorted.to_multiset().insert(item),
        settled(sorted, item).len() == sorted.len() + 1,
        forall|k: int|
            0 <= k < settled(sorted, item).len() ==> settled(sorted, item)[k] == item
                || sorted.contains(#[trigger] settled(sorted, item)[k]),
    decreases sorted.len(),
{
    let result = settled(sorted, item);
    if sorted.len() == 0 || !rank_precedes(item.rank(), sorted.last().rank()) {
        vstd::seq_lib::to_multiset_build(sorted, item);
        assert forall|i: int, j: int| 0 <= i < j < result.len() implies !rank_precedes(
            #[trigger] result[j].rank(),
            #[trigger] result[i].rank(),
        ) by {
            if j < sorted.len() {
                assert(result[i] == sorted[i] && result[j] == sorted[j]);
            } else {
                assert(result[i] == sorted[i]);
                if i < sorted.len() - 1 {
                    assert(!rank_precedes(sorted[sorted.len() - 1].rank(), sorted[i].rank()));
                    lemma_rank_not_after_transitive(
                        sorted[i].rank(),
                        sorted.last().rank(),
                        item.rank(),
                    );
                }
            }
        }
        assert forall|k: int| 0 <= k < result.len() implies result[k] == item || sorted.contains(
            #[trigger] result[k],
        ) by {
            if k < sorted.len() {
                assert(sorted[k] == result[k]);
            }
        }
    } else {
        let head = sorted.drop_last();
        let last = sorted.last();
        lemma_last_is_greatest(sorted);
        lemma_settled(head, item);
        let inner = settled(head, item);
        assert(sorted =~= head.push(last));
        vstd::seq_lib::to_multiset_build(head, last);
        vstd::seq_lib::to_multiset_build(inner, last);
        assert(result.to_multiset() =~= sorted.to_multiset().insert(item));
        lemma_rank_order_is_total(item.rank(), last.rank());
        assert forall|i: int, j: int| 0 <= i < j < result.len() implies !rank_precedes(
            #[trigger] result[j].rank(),
            #[trigger] result[i].rank(),
        ) by {
            if j < inner.len() {
                assert(result[i] == inner[i] && result[j] == inner[j]);
            } else {
                assert(result[i] == inner[i]);
                if inner[i] != item {
                    assert(head.contains(inner[i]));
                    let at = head.index_of(inner[i]);
                    assert(head[at] == sorted[at]);
                    assert(!rank_precedes(sorted[sorted.len() - 1].rank(), sorted[at].rank()));
                }
            }
        }
        assert forall|k: int| 0 <= k < result.len() implies result[k] == item || sorted.contains(
            #[trigger] result[k],
        ) by {
            if k < inner.len() {
                if inner[k] != item {
                    assert(head.contains(inner[k]));
                    let at = head.index_of(inner[k]);
                    assert(sorted[at] == result[k]);
                }
            } else {
                assert(sorted[sorted.len() - 1] == result[k]);
            }
        }
    }
}

/// Stable sorting rearranges the items into rank order.
pub proof fn lemma_stably_sorted<T: Ranked>(items: Seq<T>)
    ensures
        sorted_by_rank(stably_sorted(items)),
        stably_sorted(items).to_multiset() =~= items.to_multiset(),
        stably_sorted(items).len() == items.len(),
    decreases items.len(),
{
    if items.len() > 0 {
        lemma_stably_sorted(items.drop_last());
        lemma_settled(stably_sorted(items.drop_last()), items.last());
        assert(items =~= items.drop_last().push(items.last()));
        vstd::seq_lib::to_multiset_build(items.drop_last(), items.last());
    } else {
        assert(stably_sorted(items) =~= items);
    }
}

/// A later item settles the same with and without its place.
proof fn lemma_settled_unplaced<T: Ranked>(sorted: Seq<Placed<T>>, item: Placed<T>)
    requires
        forall|k: int| 0 <= k < sorted.len() ==> (#[trigger] sorted[k]).place < item.place,
    ensures
        unplaced(settled(sorted, item)) == settled(unplaced(sorted), item.item),
    decreases sorted.len(),
{
    if sorted.len() > 0 {
        let last = sorted.last();
        lemma_placed_order(
            item.item.rank(),
            item.place as int,
            last.item.rank(),
            last.place as int,
        );
        lemma_rank_irreflexive(item.item.rank());
        assert(unplaced(sorted).last() == last.item);
        assert(unplaced(sorted).drop_last() =~= unplaced(sorted.drop_last()));
        if rank_precedes(item.rank(), last.rank()) {
            assert forall|k: int| 0 <= k < sorted.drop_last().len() implies (
            #[trigger] sorted.drop_last()[k]).place < item.place by {
                assert(sorted.drop_last()[k] == sorted[k]);
            }
            lemma_settled_unplaced(sorted.drop_last(), item);
            assert(unplaced(settled(sorted, item)) =~= unplaced(
                settled(sorted.drop_last(), item),
            ).push(last.item));
        } else {
            assert(unplaced(settled(sorted, item)) =~= unplaced(sorted).push(item.item));
        }
    } else {
        assert(unplaced(settled(sorted, item)) =~= unplaced(sorted).push(item.item));
    }
}

proof fn lemma_stably_sorted_unplaced<T: Ranked>(items: Seq<T>)
    requires
        items.len() <= usize::MAX,
    ensures
        unplaced(stably_sorted(placed(items))) == stably_sorted(items),
    decreases items.len(),
{
    let all = placed(items);
    if items.len() > 0 {
        let head = items.drop_last();
        assert(all.drop_last() =~= placed(head));
        lemma_stably_sorted_unplaced(head);
        lemma_stably_sorted(placed(head));
        let sorted = stably_sorted(placed(head));
        assert forall|k: int| 0 <= k < sorted.len() implies (#[trigger] sorted[k]).place
            < all.last().place by {
            placed(head).to_multiset_ensures();
            sorted.to_multiset_ensures();
            assert(sorted.contains(sorted[k]));
            assert(placed(head).to_multiset().count(sorted[k]) > 0);
            assert(placed(head).contains(sorted[k]));
            let at = placed(head).index_of(sorted[k]);
            assert(placed(head)[at].place == at as usize);
        }
        lemma_settled_unplaced(sorted, all.last());
    } else {
        assert(unplaced(stably_sorted(all)) =~= stably_sorted(items));
    }
}

/// Arranges items in rank order, those of equal rank in the order in which they came.
pub fn sort_stably<T: Ranked>(items: Vec<T>) -> (sorted: Vec<T>)
    ensures
        sorted@ == stably_sorted(items@),
        sorted@.to_multiset() == items@.to_multiset(),
        sorted_by_rank(sorted@),
        sorted@.len() == items@.len(),
{
    let ghost all = items@;
    let count: usize = items.len();
    let mut rest = items;
    let mut backwards: Vec<Placed<T>> = Vec::new();
    let mut place: usize = count;
    while place > 0
        invariant
            place <= count == all.len(),
            rest@ == all.take(place as int),
            backwards@.len() == count - place,
            forall|k: int|
                0 <= k < backwards@.len() ==> #[trigger] backwards@[k] == (Placed {
                    item: all[count - 1 - k],
                    place: (count - 1 - k) as usize,
                }),
        decreases place,
    {
        place -= 1;
        let item = rest.pop().unwrap();
        backwards.push(Placed { item, place });
        proof {
            assert(rest@ =~= all.take(place as int));
        }
    }
    let arranged = sort_by_rank(backwards);
    proof {
        let ordered = placed(all);
        assert(backwards@ =~= ordered.reverse());
        lemma_reverse_multiset(ordered);
        lemma_stably_sorted(ordered);
        lemma_placed_distinct(all);
        lemma_sorted_distinct(ordered, stably_sorted(ordered));
        lemma_sorted_arrangement_is_unique(stably_sorted(ordered), arranged@);
        lemma_stably_sorted_unplaced(all);
        lemma_stably_sorted(all);
    }
    let ghost final_order = arranged@;
    let mut remaining = arranged;
    let mut reversed: Vec<T> = Vec::new();
    while remaining.len() > 0
        invariant
            remaining@ == final_order.take(remaining@.len() as int),
            remaining@.len() <= final_order.len(),
            reversed@.len() == final_order.len() - remaining@.len(),
            forall|k: int|
                0 <= k < reversed@.len() ==> #[trigger] reversed@[k] == final_order[final_order.len()
                    - 1 - k].item,
        decreases remaining.len(),
    {
        let next = remaining.pop().unwrap();
        reversed.push(next.item);
        proof {
            assert(remaining@ =~= final_order.take(remaining@.len() as int));
        }
    }
    let ghost turned = reversed@;
    let mut sorted: Vec<T> = Vec::new();
    while reversed.len() > 0
        invariant
            reversed@ == turned.take(reversed@.len() as int),
            reversed@.len() <= turned.len(),
            sorted@.len() == turned.len() - reversed@.len(),
            forall|k: int|
                0 <= k < sorted@.len() ==> #[trigger] sorted@[k] == turned[turned.len() - 1 - k],
        decreases reversed.len(),
    {
        let next = reversed.pop().unwrap();
        sorted.push(next);
        proof {
            assert(reversed@ =~= turned.take(reversed@.len() as int));
        }
    }
    proof {
        assert(sorted@ =~= unplaced(final_order));
    }
    sorted
}

proof fn lemma_placed_distinct<T: Ranked>(items: Seq<T>)
    requires
        items.len() <= usize::MAX,
    ensures
        distinct_ranks(placed(items)),
{
    let all = placed(items);
    assert forall|i: int, j: int| 0 <= i < j < all.len() implies (#[trigger] all[i].rank()) != (
    #[trigger] all[j].rank()) by {
        lemma_placed_order(items[i].rank(), i, items[j].rank(), j);
        lemma_placed_order(items[j].rank(), j, items[i].rank(), i);
        lemma_rank_order_is_total(items[i].rank(), items[j].rank());
        lemma_rank_irreflexive(all[i].rank());
    }
}

pub(crate) fn holds_digest(digests: &Vec<[u8; 32]>, wanted: &[u8; 32]) -> (answer: bool)
    ensures
        answer == digest_views(digests@).contains(wanted@),
{
    let ghost views = digest_views(digests@);
    let mut i: usize = 0;
    while i < digests.len()
        invariant
            i <= digests@.len(),
            views == digest_views(digests@),
            forall|k: int| 0 <= k < i ==> views[k] != wanted@,
        decreases digests.len() - i,
    {
        proof {
            assert(views[i as int] == digests@[i as int]@);
        }
        if same_digest(&digests[i], wanted) {
            return true;
        }
        i += 1;
    }
    false
}

/// Up to the first repeated name, a name repeats an earlier one just where it is that one.
pub(crate) proof fn lemma_repeats(names: Seq<Seq<u8>>, repeated: Option<usize>, i: int)
    requires
        0 <= i < names.len(),
        match repeated {
            None => names.no_duplicates(),
            Some(place) => i <= place < names.len() && names.take(place as int).no_duplicates()
                && names.take(place as int).contains(names[place as int]),
        },
    ensures
        names.take(i).contains(names[i]) == (repeated is Some && repeated->Some_0 == i),
{
    if names.take(i).contains(names[i]) {
        let at = names.take(i).index_of(names[i]);
        match repeated {
            None => {
                assert(names[at] == names[i]);
            },
            Some(place) => if i < place {
                assert(names.take(place as int)[at] == names.take(place as int)[i]);
            },
        }
    }
}

/// The place of the first digest that stands before it already.
pub(crate) fn first_repeated_digest(digests: &Vec<[u8; 32]>) -> (place: Option<usize>)
    ensures
        match place {
            None => digest_views(digests@).no_duplicates(),
            Some(i) => i < digests@.len() && digest_views(digests@).take(i as int).no_duplicates()
                && digest_views(digests@).take(i as int).contains(digests@[i as int]@),
        },
{
    let ghost views = digest_views(digests@);
    let mut copy: Vec<[u8; 32]> = Vec::new();
    let mut n: usize = 0;
    while n < digests.len()
        invariant
            n <= digests@.len(),
            copy@ == digests@.take(n as int),
        decreases digests.len() - n,
    {
        copy.push(digests[n]);
        proof {
            assert(copy@ =~= digests@.take(n + 1));
        }
        n += 1;
    }
    proof {
        assert(copy@ =~= digests@);
    }
    if distinct_digests(copy) {
        return None;
    }
    let mut seen: Vec<[u8; 32]> = Vec::new();
    let mut i: usize = 0;
    proof {
        assert(digest_views(seen@) =~= views.take(0));
    }
    while i < digests.len()
        invariant
            i <= digests@.len(),
            views == digest_views(digests@),
            digest_views(seen@) == views.take(i as int),
            views.take(i as int).no_duplicates(),
            !views.no_duplicates(),
        decreases digests.len() - i,
    {
        if holds_digest(&seen, &digests[i]) {
            return Some(i);
        }
        let ghost before = seen@;
        seen.push(digests[i]);
        proof {
            assert(digest_views(seen@) =~= digest_views(before).push(digests@[i as int]@));
            assert(views.take(i + 1) =~= views.take(i as int).push(digests@[i as int]@));
        }
        i += 1;
    }
    proof {
        assert(views.take(i as int) =~= views);
    }
    None
}

/// Of two sequences the first difference decides, whatever follows, and where one runs out first
/// it comes first.
pub proof fn lemma_the_first_difference_decides(
    head: Seq<int>,
    a: int,
    x: Seq<int>,
    b: int,
    y: Seq<int>,
)
    requires
        a < b,
    ensures
        rank_precedes(head + (seq![a] + x), head + (seq![b] + y)),
        !rank_precedes(head + (seq![b] + y), head + (seq![a] + x)),
        rank_precedes(head, head + (seq![a] + x)),
        !rank_precedes(head + (seq![a] + x), head),
    decreases head.len(),
{
    let left = head + (seq![a] + x);
    let right = head + (seq![b] + y);
    if head.len() == 0 {
        assert(left[0] == a && right[0] == b);
    } else {
        assert(left.drop_first() =~= head.drop_first() + (seq![a] + x));
        assert(right.drop_first() =~= head.drop_first() + (seq![b] + y));
        lemma_the_first_difference_decides(head.drop_first(), a, x, b, y);
    }
}

} // verus!
