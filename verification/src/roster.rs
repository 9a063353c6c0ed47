use vstd::prelude::*;

use crate::account::AccountId;

verus! {

/// How many times `id` stands in the roster.
pub open spec fn occurrences(roster: Seq<AccountId>, id: AccountId) -> nat {
    roster.to_multiset().count(id)
}

/// The test that every identity but `id` passes.
pub open spec fn is_not(id: AccountId) -> spec_fn(AccountId) -> bool {
    |other: AccountId| other != id
}

/// The roster with every occurrence of `id` struck out, the others in their
/// old order.
pub open spec fn without(roster: Seq<AccountId>, id: AccountId) -> Seq<AccountId> {
    roster.filter(is_not(id))
}

/// Striking `id` from a roster leaves exactly the other members, and leaves
/// no member twice if none was there twice.
pub proof fn lemma_without(roster: Seq<AccountId>, id: AccountId)
    ensures
        forall|other: AccountId| #[trigger]
            without(roster, id).contains(other) <==> roster.contains(other) && other != id,
        roster.no_duplicates() ==> without(roster, id).no_duplicates(),
        !roster.contains(id) ==> without(roster, id) == roster,
        without(roster, id).len() <= roster.len(),
    decreases roster.len(),
{
    let pred = is_not(id);
    if roster.len() == 0 {
        reveal(Seq::filter);
        assert(without(roster, id) =~= roster);
    } else {
        let front = roster.drop_last();
        let last = roster.last();
        lemma_without(front, id);
        assert(roster =~= front.push(last));
        front.lemma_filter_push(last, pred);
        let kept = without(front, id);
        assert forall|other: AccountId| #[trigger]
            without(roster, id).contains(other) <==> roster.contains(other) && other != id by {
            if without(roster, id).contains(other) {
                let i = without(roster, id).index_of(other);
                if i < kept.len() {
                    assert(kept[i] == other);
                    assert(kept.contains(other));
                    let j = front.index_of(other);
                    assert(roster[j] == other);
                } else {
                    assert(roster[roster.len() - 1] == other);
                }
            }
            if roster.contains(other) && other != id {
                let j = roster.index_of(other);
                if j < front.len() {
                    assert(front[j] == other);
                    assert(front.contains(other));
                    assert(kept.contains(other));
                    let i = kept.index_of(other);
                    assert(kept[i] == other);
                    assert(without(roster, id)[i] == other);
                } else {
                    assert(without(roster, id)[kept.len() as int] == other);
                }
            }
        }
        if roster.no_duplicates() {
            assert(front.no_duplicates());
            if last != id {
                if kept.contains(last) {
                    let j = front.index_of(last);
                    assert(roster[j] == roster[roster.len() - 1]);
                }
            }
        }
        if !roster.contains(id) {
            assert(last != id) by {
                assert(roster[roster.len() - 1] == last);
            }
            assert(!front.contains(id)) by {
                if front.contains(id) {
                    let j = front.index_of(id);
                    assert(roster[j] == id);
                }
            }
        }
    }
}

/// Strikes `id` from the roster.
pub fn strike(roster: &mut Vec<AccountId>, id: AccountId)
    ensures
        final(roster)@ == without(old(roster)@, id),
{
    let ghost pred = is_not(id);
    let mut kept: Vec<AccountId> = Vec::new();
    let mut i: usize = 0;
    proof {
        reveal(Seq::filter);
        assert(roster@.take(0).filter(pred) =~= Seq::<AccountId>::empty());
    }
    while i < roster.len()
        invariant
            i <= roster@.len(),
            roster@ == old(roster)@,
            pred == is_not(id),
            kept@ == roster@.take(i as int).filter(pred),
        decreases roster@.len() - i,
    {
        let member = roster[i];
        proof {
            assert(roster@.take(i + 1) =~= roster@.take(i as int).push(member));
            roster@.take(i as int).lemma_filter_push(member, pred);
        }
        if member != id {
            kept.push(member);
        }
        i += 1;
    }
    proof {
        assert(roster@.take(i as int) =~= roster@);
    }
    *roster = kept;
}

} // verus!
