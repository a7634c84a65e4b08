//! Ban-list evaluation: does an identity hold a revoked ticket?

use std::collections::BTreeSet;
use vstd::laws_cmp::{group_laws_cmp, obeys_cmp};
use vstd::prelude::*;
use vstd::std_specs::btree::group_btree_axioms;

verus! {

/// Some ticket occurs in both sequences.
pub open spec fn tickets_overlap(existing: Seq<u128>, callback: Seq<u128>) -> bool {
    exists|t: u128| existing.contains(t) && callback.contains(t)
}

/// Tickets are integers, which the ordered set compares as integers.
proof fn lemma_tickets_are_ordered()
    ensures
        obeys_cmp::<u128>(),
{
    broadcast use group_laws_cmp;

}

/// The set of the tickets in a list.
fn ticket_set(tickets: &[u128]) -> (set: BTreeSet<u128>)
    ensures
        set@ == tickets@.to_set(),
{
    broadcast use group_btree_axioms;

    proof {
        lemma_tickets_are_ordered();
    }

    let mut set: BTreeSet<u128> = BTreeSet::new();
    let mut i: usize = 0;
    assert(tickets@.take(0).to_set() =~= Set::<u128>::empty());
    while i < tickets.len()
        invariant
            i <= tickets@.len(),
            set@ == tickets@.take(i as int).to_set(),
        decreases tickets@.len() - i,
    {
        set.insert(tickets[i]);
        proof {
            let before = tickets@.take(i as int);
            let after = tickets@.take(i + 1);
            assert(after =~= before.push(tickets@[i as int]));
            assert forall|t: u128| after.to_set().contains(t) <==> before.to_set().insert(
                tickets@[i as int],
            ).contains(t) by {
                if before.contains(t) {
                    let k = choose|k: int| 0 <= k < before.len() && before[k] == t;
                    assert(after[k] == t);
                }
                if t == tickets@[i as int] {
                    assert(after[i as int] == t);
                }
            }
            assert(after.to_set() =~= before.to_set().insert(tickets@[i as int]));
        }
        i += 1;
    }
    assert(tickets@.take(tickets@.len() as int) =~= tickets@);
    set
}

/// Whether some ticket of the list is in the set.
fn any_in_set(tickets: &[u128], set: &BTreeSet<u128>) -> (found: bool)
    ensures
        found == exists|t: u128| tickets@.contains(t) && set@.contains(t),
{
    broadcast use group_btree_axioms;

    proof {
        lemma_tickets_are_ordered();
    }

    let mut i: usize = 0;
    while i < tickets.len()
        invariant
            i <= tickets@.len(),
            forall|k: int| 0 <= k < i ==> !set@.contains(#[trigger] tickets@[k]),
        decreases tickets@.len() - i,
    {
        if set.contains(&tickets[i]) {
            assert(tickets@.contains(tickets@[i as int]));
            return true;
        }
        i += 1;
    }
    false
}

/// Decides whether the identity holding `existing_tickets` must be banned
/// given the revocation list `callback_tickets`: true exactly when the two
/// share a ticket. Only membership counts; order and repetition do not.
///
/// The shorter list is made into a set and the longer one is looked up in
/// it; which of the two is the shorter does not change the answer.
pub fn evaluate(existing_tickets: &[u128], callback_tickets: &[u128]) -> (banned: bool)
    ensures
        banned == tickets_overlap(existing_tickets@, callback_tickets@),
{
    if existing_tickets.len() <= callback_tickets.len() {
        let held = ticket_set(existing_tickets);
        let banned = any_in_set(callback_tickets, &held);
        proof {
            lemma_overlap_symmetric(existing_tickets@, callback_tickets@);
        }
        banned
    } else {
        let revoked = ticket_set(callback_tickets);
        any_in_set(existing_tickets, &revoked)
    }
}

/// The evaluation is the set-intersection test: two ticket lists overlap
/// exactly when the intersection of their sets is not empty.
pub proof fn lemma_overlap_is_nonempty_intersection(existing: Seq<u128>, callback: Seq<u128>)
    ensures
        tickets_overlap(existing, callback) <==> existing.to_set().intersect(callback.to_set())
            != Set::<u128>::empty(),
{
    let common = existing.to_set().intersect(callback.to_set());
    if tickets_overlap(existing, callback) {
        let t = choose|t: u128| existing.contains(t) && callback.contains(t);
        assert(common.contains(t));
    } else {
        assert(common =~= Set::<u128>::empty());
    }
}

/// Only membership counts: lists with the same sets of tickets, in whatever
/// order and with whatever repetitions, are evaluated alike.
pub proof fn lemma_overlap_depends_on_sets(
    existing: Seq<u128>,
    callback: Seq<u128>,
    other_existing: Seq<u128>,
    other_callback: Seq<u128>,
)
    requires
        existing.to_set() == other_existing.to_set(),
        callback.to_set() == other_callback.to_set(),
    ensures
        tickets_overlap(existing, callback) == tickets_overlap(other_existing, other_callback),
{
    lemma_overlap_is_nonempty_intersection(existing, callback);
    lemma_overlap_is_nonempty_intersection(other_existing, other_callback);
}

/// It does not matter which of the two lists is scanned.
pub proof fn lemma_overlap_symmetric(existing: Seq<u128>, callback: Seq<u128>)
    ensures
        tickets_overlap(existing, callback) == tickets_overlap(callback, existing),
{
    if tickets_overlap(existing, callback) {
        let t = choose|t: u128| existing.contains(t) && callback.contains(t);
        assert(callback.contains(t) && existing.contains(t));
    }
    if tickets_overlap(callback, existing) {
        let t = choose|t: u128| callback.contains(t) && existing.contains(t);
        assert(existing.contains(t) && callback.contains(t));
    }
}

} // verus!
