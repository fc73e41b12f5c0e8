//! The order a full recompute evaluates formula cells in: dependency-first,
//! as the scheduler emitted them, then the unscheduled cells by address.

use std::collections::HashMap;

use vstd::prelude::*;
use vstd::relations::{sorted_by, total_ordering};
use vstd::std_specs::hash::group_hash_axioms;

use crate::footprint::{lemma_packed_injective, pack, packed, CellAddr};
use crate::grid::{ColId, RowId, SheetId};

verus! {

broadcast use group_hash_axioms;

/// Sort key of a formula cell: its first position in the schedule
/// (`u64::MAX` when unscheduled), its address, and its index.
pub type OrderKey = (u64, SheetId, RowId, ColId, usize);

/// Lexicographic order on sort keys.
pub open spec fn key_le(a: OrderKey, b: OrderKey) -> bool {
    a.0 < b.0 || (a.0 == b.0 && (a.1 < b.1 || (a.1 == b.1 && (a.2 < b.2 || (a.2 == b.2 && (a.3
        < b.3 || (a.3 == b.3 && a.4 <= b.4)))))))
}

/// The order relation on sort keys as a function value.
pub open spec fn key_leq() -> spec_fn(OrderKey, OrderKey) -> bool {
    |a: OrderKey, b: OrderKey| key_le(a, b)
}

/// The first position of `a` in `sched`, if it occurs.
pub open spec fn first_pos(sched: Seq<CellAddr>, a: CellAddr) -> Option<int>
    decreases sched.len(),
{
    if sched.len() == 0 {
        None
    } else {
        match first_pos(sched.drop_last(), a) {
            Some(p) => Some(p),
            None => if sched.last() == a {
                Some(sched.len() - 1)
            } else {
                None
            },
        }
    }
}

/// The sort key of entry `i`.
pub open spec fn order_key(entries: Seq<CellAddr>, sched: Seq<CellAddr>, i: int) -> OrderKey {
    let a = entries[i];
    (
        match first_pos(sched, a) {
            Some(p) => p as u64,
            None => u64::MAX,
        },
        a.0,
        a.1,
        a.2,
        i as usize,
    )
}

/// The sort keys of all entries, by index.
pub open spec fn order_keys(entries: Seq<CellAddr>, sched: Seq<CellAddr>) -> Seq<OrderKey> {
    Seq::new(entries.len(), |i: int| order_key(entries, sched, i))
}

/// The evaluation order: entry indices sorted by their keys.
pub open spec fn evaluation_sequence(entries: Seq<CellAddr>, sched: Seq<CellAddr>) -> Seq<usize> {
    order_keys(entries, sched).sort_by(key_leq()).map_values(|k: OrderKey| k.4)
}

proof fn lemma_key_order_total()
    ensures
        total_ordering(key_leq()),
{
}

/// Calls `slice::sort`, documented as a stable sort by the type's `Ord`;
/// tuples of integers compare lexicographically.
#[verifier::external_body]
fn sort_keys(v: &mut Vec<OrderKey>)
    ensures
        final(v)@.to_multiset() == old(v)@.to_multiset(),
        sorted_by(final(v)@, key_leq()),
{
    v.sort();
}

proof fn lemma_first_pos_bound(sched: Seq<CellAddr>, a: CellAddr)
    ensures
        first_pos(sched, a) matches Some(p) ==> 0 <= p < sched.len() && sched[p] == a,
    decreases sched.len(),
{
    if sched.len() > 0 {
        lemma_first_pos_bound(sched.drop_last(), a);
    }
}

/// The indices of `entries` in evaluation order: first the cells the
/// dependency-first `schedule` lists, by first position there, then the
/// rest by address (sheet, row, column).
pub fn evaluation_order(entries: &Vec<CellAddr>, schedule: &Vec<CellAddr>) -> (order: Vec<usize>)
    ensures
        order@ == evaluation_sequence(entries@, schedule@),
{
    // First position of every scheduled address.
    let mut first: HashMap<u128, u64> = HashMap::new();
    let mut i: usize = 0;
    while i < schedule.len()
        invariant
            0 <= i <= schedule.len(),
            forall|a: CellAddr|
                #![trigger first_pos(schedule@.take(i as int), a)]
                match first_pos(schedule@.take(i as int), a) {
                    Some(p) => first@.contains_key(packed(a) as u128) && first@[packed(a) as u128]
                        == p as u64,
                    None => !first@.contains_key(packed(a) as u128),
                },
            forall|k: u128| first@.contains_key(k) ==> exists|a: CellAddr| packed(a) == k,
        decreases schedule.len() - i,
    {
        let a = schedule[i];
        let k = pack(a);
        let ghost before = first@;
        proof {
            assert(schedule@.take(i + 1).drop_last() =~= schedule@.take(i as int));
        }
        if !first.contains_key(&k) {
            first.insert(k, i as u64);
            proof {
                assert forall|b: CellAddr|
                    #![trigger first_pos(schedule@.take(i + 1), b)]
                    match first_pos(schedule@.take(i + 1), b) {
                        Some(p) => first@.contains_key(packed(b) as u128) && first@[packed(b) as u128]
                            == p as u64,
                        None => !first@.contains_key(packed(b) as u128),
                    } by {
                    lemma_packed_injective(a, b);
                    assert(first_pos(schedule@.take(i as int), b) == first_pos(
                        schedule@.take(i + 1).drop_last(),
                        b,
                    ));
                    if b != a {
                        assert(packed(b) != packed(a));
                    } else {
                        assert(first_pos(schedule@.take(i as int), a) is None);
                    }
                }
            }
        } else {
            proof {
                assert forall|b: CellAddr|
                    #![trigger first_pos(schedule@.take(i + 1), b)]
                    match first_pos(schedule@.take(i + 1), b) {
                        Some(p) => first@.contains_key(packed(b) as u128) && first@[packed(b) as u128]
                            == p as u64,
                        None => !first@.contains_key(packed(b) as u128),
                    } by {
                    lemma_packed_injective(a, b);
                    assert(first_pos(schedule@.take(i as int), b) == first_pos(
                        schedule@.take(i + 1).drop_last(),
                        b,
                    ));
                    if b == a {
                        assert(first_pos(schedule@.take(i as int), a) is Some);
                    }
                }
            }
        }
        i += 1;
    }
    assert(schedule@.take(schedule@.len() as int) =~= schedule@);
    // The sort key of every entry.
    let sched_len = schedule.len();
    let mut keys: Vec<OrderKey> = Vec::new();
    let mut j: usize = 0;
    while j < entries.len()
        invariant
            0 <= j <= entries.len(),
            keys@.len() == j,
            sched_len == schedule@.len(),
            forall|k: int| 0 <= k < j ==> keys@[k] == order_key(entries@, schedule@, k),
            forall|a: CellAddr|
                #![trigger first_pos(schedule@, a)]
                match first_pos(schedule@, a) {
                    Some(p) => first@.contains_key(packed(a) as u128) && first@[packed(a) as u128]
                        == p as u64,
                    None => !first@.contains_key(packed(a) as u128),
                },
        decreases entries.len() - j,
    {
        let a = entries[j];
        let pos = match first.get(&pack(a)) {
            Some(p) => *p,
            None => u64::MAX,
        };
        proof {
            lemma_first_pos_bound(schedule@, a);
            assert(first_pos(schedule@, a) is Some ==> first_pos(schedule@, a)->0 < u64::MAX);
        }
        keys.push((pos, a.0, a.1, a.2, j));
        j += 1;
    }
    assert(keys@ =~= order_keys(entries@, schedule@));
    sort_keys(&mut keys);
    proof {
        lemma_key_order_total();
        order_keys(entries@, schedule@).lemma_sort_by_ensures(key_leq());
        vstd::seq_lib::lemma_sorted_unique(
            keys@,
            order_keys(entries@, schedule@).sort_by(key_leq()),
            key_leq(),
        );
    }
    let mut order: Vec<usize> = Vec::new();
    let mut k: usize = 0;
    while k < keys.len()
        invariant
            0 <= k <= keys.len(),
            order@ == keys@.take(k as int).map_values(|t: OrderKey| t.4),
        decreases keys.len() - k,
    {
        order.push(keys[k].4);
        proof {
            assert(keys@.take(k + 1).map_values(|t: OrderKey| t.4) =~= keys@.take(k as int).map_values(
                |t: OrderKey| t.4,
            ).push(keys@[k as int].4));
        }
        k += 1;
    }
    assert(keys@.take(keys@.len() as int) =~= keys@);
    order
}

/// Each element of the sorted keys is the key of the entry it names.
proof fn lemma_sorted_key_is_entry_key(entries: Seq<CellAddr>, sched: Seq<CellAddr>, x: int)
    requires
        entries.len() <= usize::MAX,
        0 <= x < order_keys(entries, sched).sort_by(key_leq()).len(),
    ensures
        ({
            let sorted = order_keys(entries, sched).sort_by(key_leq());
            let i = sorted[x].4 as int;
            0 <= i < entries.len() && sorted[x] == order_key(entries, sched, i)
        }),
{
    broadcast use vstd::seq_lib::group_to_multiset_ensures;

    let keys = order_keys(entries, sched);
    let sorted = keys.sort_by(key_leq());
    keys.lemma_sort_by_ensures(key_leq());
    assert(sorted.contains(sorted[x]));
    assert(sorted.to_multiset().contains(sorted[x]));
    assert(keys.to_multiset().contains(sorted[x]));
    assert(keys.contains(sorted[x]));
    let k = choose|k: int| 0 <= k < keys.len() && keys[k] == sorted[x];
    assert(keys[k].4 == k as usize);
}

/// A full recompute evaluates every formula cell exactly once per pass: the
/// evaluation order lists every entry index, and nothing else.
pub proof fn lemma_evaluation_order_covers(entries: Seq<CellAddr>, sched: Seq<CellAddr>)
    requires
        entries.len() <= usize::MAX,
    ensures
        evaluation_sequence(entries, sched).len() == entries.len(),
        forall|u: usize|
            #![trigger evaluation_sequence(entries, sched).contains(u)]
            (u as int) < entries.len() ==> evaluation_sequence(entries, sched).contains(u),
        forall|x: int|
            0 <= x < entries.len() ==> (evaluation_sequence(entries, sched)[x] as int)
                < entries.len(),
{
    broadcast use vstd::seq_lib::group_to_multiset_ensures;

    let keys = order_keys(entries, sched);
    let sorted = keys.sort_by(key_leq());
    keys.lemma_sort_by_ensures(key_leq());
    assert(sorted.len() == keys.len()) by {
        vstd::seq_lib::to_multiset_len(keys);
        vstd::seq_lib::to_multiset_len(sorted);
    }
    assert forall|u: usize| #![trigger evaluation_sequence(entries, sched).contains(u)]
        (u as int) < entries.len() implies evaluation_sequence(entries, sched).contains(u) by {
        let i = u as int;
        assert(keys.contains(keys[i]));
        assert(keys.to_multiset().contains(keys[i]));
        assert(sorted.to_multiset().contains(keys[i]));
        assert(sorted.contains(keys[i]));
        let x = choose|x: int| 0 <= x < sorted.len() && sorted[x] == keys[i];
        assert(evaluation_sequence(entries, sched)[x] == i as usize);
    }
    assert forall|x: int| 0 <= x < entries.len() implies (evaluation_sequence(entries, sched)[x]
        as int) < entries.len() by {
        lemma_sorted_key_is_entry_key(entries, sched, x);
    }
}

/// Dependency-first order is kept: of two scheduled formula cells, the one
/// the schedule lists first is evaluated first.
pub proof fn lemma_evaluation_order_follows_schedule(
    entries: Seq<CellAddr>,
    sched: Seq<CellAddr>,
    x: int,
    y: int,
)
    requires
        entries.len() <= usize::MAX,
        sched.len() <= usize::MAX,
        0 <= x < entries.len(),
        0 <= y < entries.len(),
        ({
            let i = evaluation_sequence(entries, sched)[x] as int;
            let j = evaluation_sequence(entries, sched)[y] as int;
            first_pos(sched, entries[i]) is Some && first_pos(sched, entries[j]) is Some
                && first_pos(sched, entries[i])->0 < first_pos(sched, entries[j])->0
        }),
    ensures
        x < y,
{
    lemma_evaluation_order_covers(entries, sched);
    let keys = order_keys(entries, sched);
    let sorted = keys.sort_by(key_leq());
    keys.lemma_sort_by_ensures(key_leq());
    lemma_sorted_key_is_entry_key(entries, sched, x);
    lemma_sorted_key_is_entry_key(entries, sched, y);
    let i = sorted[x].4 as int;
    let j = sorted[y].4 as int;
    lemma_first_pos_bound(sched, entries[i]);
    lemma_first_pos_bound(sched, entries[j]);
    assert(sorted.len() == entries.len());
    assert(sorted_by(sorted, key_leq()));
    assert(evaluation_sequence(entries, sched)[x] == sorted[x].4);
    assert(evaluation_sequence(entries, sched)[y] == sorted[y].4);
    if y < x {
        assert(key_leq()(sorted[y], sorted[x]));
        assert(key_le(sorted[y], sorted[x]));
    }
}

} // verus!
