//! The ordering of chains by first timestamp, most recent first.

use crate::parser::{group_views, AuditGroup, GroupView};
use crate::sequences::lemma_filter_none;
use crate::timestamp::Timestamp;
use vstd::prelude::*;
use vstd::seq_lib::group_to_multiset_ensures;

verus! {

/// Where a chain of timestamp `t` joins `sorted`: behind the chains at the
/// front that are not older than it.
pub open spec fn insertion_point(sorted: Seq<GroupView>, t: Timestamp) -> int
    decreases sorted.len(),
{
    if sorted.len() == 0 || sorted[0].first_timestamp.key() < t.key() {
        0
    } else {
        1 + insertion_point(sorted.drop_first(), t)
    }
}

/// `chains` ordered by first timestamp, most recent first; chains of equal
/// timestamp keep their order.
pub open spec fn recent_first(chains: Seq<GroupView>) -> Seq<GroupView>
    decreases chains.len(),
{
    if chains.len() == 0 {
        Seq::empty()
    } else {
        let sorted = recent_first(chains.drop_last());
        sorted.insert(insertion_point(sorted, chains.last().first_timestamp), chains.last())
    }
}

/// No chain is followed by a more recent one.
pub open spec fn is_recent_first(chains: Seq<GroupView>) -> bool {
    forall|i: int, j: int|
        0 <= i < j < chains.len() ==> (#[trigger] chains[i]).first_timestamp.key() >= (
        #[trigger] chains[j]).first_timestamp.key()
}

/// The insertion point is the first position that holds an older chain.
pub proof fn lemma_insertion_point(sorted: Seq<GroupView>, t: Timestamp, p: int)
    requires
        0 <= p <= sorted.len(),
        forall|i: int| 0 <= i < p ==> (#[trigger] sorted[i]).first_timestamp.key() >= t.key(),
        p < sorted.len() ==> sorted[p].first_timestamp.key() < t.key(),
    ensures
        insertion_point(sorted, t) == p,
    decreases p,
{
    if p > 0 {
        let rest = sorted.drop_first();
        assert(sorted[0].first_timestamp.key() >= t.key());
        assert forall|i: int| 0 <= i < p - 1 implies (#[trigger] rest[i]).first_timestamp.key()
            >= t.key() by {
            assert(rest[i] == sorted[i + 1]);
        }
        lemma_insertion_point(rest, t, p - 1);
    }
}

/// The insertion point lies within the sequence, after chains that are not
/// older and before an older one.
pub proof fn lemma_insertion_point_bounds(sorted: Seq<GroupView>, t: Timestamp)
    ensures
        0 <= insertion_point(sorted, t) <= sorted.len(),
        forall|i: int|
            0 <= i < insertion_point(sorted, t) ==> (#[trigger] sorted[i]).first_timestamp.key()
                >= t.key(),
        insertion_point(sorted, t) < sorted.len() ==> sorted[insertion_point(
            sorted,
            t,
        )].first_timestamp.key() < t.key(),
    decreases sorted.len(),
{
    if sorted.len() > 0 && sorted[0].first_timestamp.key() >= t.key() {
        let rest = sorted.drop_first();
        lemma_insertion_point_bounds(rest, t);
        assert forall|i: int| 0 <= i < insertion_point(sorted, t) implies (
        #[trigger] sorted[i]).first_timestamp.key() >= t.key() by {
            if i > 0 {
                assert(rest[i - 1] == sorted[i]);
            }
        }
        if insertion_point(sorted, t) < sorted.len() {
            assert(rest[insertion_point(rest, t)] == sorted[insertion_point(sorted, t)]);
        }
    }
}

/// The ordered chains are the given chains, each as often as it was given,
/// and none is followed by a more recent one.
pub proof fn lemma_recent_first(chains: Seq<GroupView>)
    ensures
        is_recent_first(recent_first(chains)),
        recent_first(chains).to_multiset() == chains.to_multiset(),
        recent_first(chains).len() == chains.len(),
        forall|i: int|
            0 <= i < recent_first(chains).len() ==> chains.contains(#[trigger] recent_first(chains)[i]),
    decreases chains.len(),
{
    broadcast use group_to_multiset_ensures;

    assert forall|i: int| 0 <= i < recent_first(chains).len() implies chains.contains(
        #[trigger] recent_first(chains)[i],
    ) by {
        if chains.len() > 0 {
            let before = chains.drop_last();
            let sorted = recent_first(before);
            let at = insertion_point(sorted, chains.last().first_timestamp);
            lemma_recent_first(before);
            lemma_insertion_point_bounds(sorted, chains.last().first_timestamp);
            let x = recent_first(chains)[i];
            if i == at {
                assert(chains[chains.len() - 1] == x);
            } else {
                let j = if i < at {
                    i
                } else {
                    i - 1
                };
                assert(sorted[j] == x);
                assert(before.contains(x));
                let k = choose|k: int| 0 <= k < before.len() && before[k] == x;
                assert(chains[k] == x);
            }
        }
    }

    if chains.len() == 0 {
        assert(recent_first(chains).to_multiset() =~= chains.to_multiset());
    } else {
        let before = chains.drop_last();
        let last = chains.last();
        let sorted = recent_first(before);
        let at = insertion_point(sorted, last.first_timestamp);
        lemma_recent_first(before);
        lemma_insertion_point_bounds(sorted, last.first_timestamp);
        let out = sorted.insert(at, last);
        assert(before.push(last) == chains);
        assert(out.to_multiset() =~= chains.to_multiset());
        assert forall|i: int, j: int| 0 <= i < j < out.len() implies (
        #[trigger] out[i]).first_timestamp.key() >= (#[trigger] out[j]).first_timestamp.key() by {
            if j < at {
                assert(out[i] == sorted[i] && out[j] == sorted[j]);
            } else if j == at {
                assert(out[i] == sorted[i]);
            } else if i < at {
                assert(out[i] == sorted[i] && out[j] == sorted[j - 1]);
                if at < sorted.len() && j - 1 > at {
                    assert(sorted[at].first_timestamp.key() >= sorted[j - 1].first_timestamp.key());
                }
            } else if i == at {
                assert(out[j] == sorted[j - 1]);
                if j - 1 > at {
                    assert(sorted[at].first_timestamp.key() >= sorted[j - 1].first_timestamp.key());
                }
            } else {
                assert(out[i] == sorted[i - 1] && out[j] == sorted[j - 1]);
            }
        }
    }
}

/// Ordering is stable: the chains of any one first timestamp come out in the
/// order in which they went in.
pub proof fn lemma_recent_first_stable(chains: Seq<GroupView>, t: Timestamp)
    ensures
        recent_first(chains).filter(|c: GroupView| c.first_timestamp == t) == chains.filter(
            |c: GroupView| c.first_timestamp == t,
        ),
    decreases chains.len(),
{
    let p = |c: GroupView| c.first_timestamp == t;
    reveal_with_fuel(Seq::filter, 2);
    if chains.len() > 0 {
        let before = chains.drop_last();
        let last = chains.last();
        let sorted = recent_first(before);
        let at = insertion_point(sorted, last.first_timestamp);
        lemma_recent_first_stable(before, t);
        lemma_recent_first(before);
        lemma_insertion_point_bounds(sorted, last.first_timestamp);
        let front = sorted.subrange(0, at);
        let back = sorted.subrange(at, sorted.len() as int);
        let out = sorted.insert(at, last);
        assert(sorted == front + back);
        assert(out == front + seq![last] + back);
        Seq::filter_distributes_over_add(front, back, p);
        Seq::filter_distributes_over_add(front + seq![last], back, p);
        Seq::filter_distributes_over_add(front, seq![last], p);
        assert(seq![last].drop_last() == Seq::<GroupView>::empty());
        if p(last) {
            assert forall|i: int| 0 <= i < back.len() implies !p(#[trigger] back[i]) by {
                assert(back[i] == sorted[at + i]);
                if i > 0 {
                    assert(sorted[at].first_timestamp.key() >= sorted[at + i].first_timestamp.key());
                }
            }
            lemma_filter_none(back, p);
            assert(seq![last].filter(p) == seq![last]);
            assert(front.filter(p) + seq![last] == front.filter(p).push(last));
        } else {
            assert(seq![last].filter(p) == Seq::<GroupView>::empty());
        }
    }
}

/// Orders chains by first timestamp, most recent first. Chains of equal
/// timestamp keep their order.
pub fn sort_groups(groups: Vec<AuditGroup>) -> (sorted: Vec<AuditGroup>)
    ensures
        group_views(sorted@) == recent_first(group_views(groups@)),
        is_recent_first(group_views(sorted@)),
        sorted@.len() == groups@.len(),
        (forall|i: int| 0 <= i < groups@.len() ==> (#[trigger] groups@[i]).wf()) ==> forall|i: int|
            0 <= i < sorted@.len() ==> (#[trigger] sorted@[i]).wf(),
{
    let ghost chains = group_views(groups@);
    proof {
        lemma_recent_first(chains);
    }
    let mut oldest_first: Vec<AuditGroup> = Vec::new();
    for group in it: groups
        invariant
            it.seq() == groups@,
            chains == group_views(groups@),
            group_views(oldest_first@).reverse() == recent_first(chains.take(it.index() as int)),
    {
        let ghost done = recent_first(chains.take(it.index() as int));
        let ghost held = group_views(oldest_first@);
        let mut at = oldest_first.len();
        while at > 0 && !oldest_first[at - 1].first_timestamp.is_before(&group.first_timestamp)
            invariant
                at <= oldest_first.len(),
                forall|k: int|
                    at <= k < oldest_first.len() ==> (#[trigger] oldest_first[k]).first_timestamp.key()
                        >= group.first_timestamp.key(),
            decreases at,
        {
            at = at - 1;
        }
        proof {
            assert forall|k: int| at <= k < held.len() implies (#[trigger] held[k]).first_timestamp.key()
                >= group.first_timestamp.key() by {
                assert(held[k] == oldest_first[k]@);
            }
            if at > 0 {
                assert(held[at - 1] == oldest_first[at - 1]@);
            }
        }
        oldest_first.insert(at, group);
        proof {
            let grown = chains.take(it.index() + 1);
            assert(grown.drop_last() == chains.take(it.index() as int));
            assert(grown.last() == group@);
            let p = held.len() - at;
            assert forall|i: int| 0 <= i < p implies (#[trigger] done[i]).first_timestamp.key()
                >= group.first_timestamp.key() by {
                assert(done[i] == held[held.len() - 1 - i]);
            }
            if p < done.len() {
                assert(done[p] == held[at - 1]);
            }
            lemma_insertion_point(done, group.first_timestamp, p);
            assert(group_views(oldest_first@) == held.insert(at as int, group@));
            assert(held.insert(at as int, group@).reverse() =~= done.insert(p, group@));
        }
    }
    assert(chains.take(groups@.len() as int) == chains);
    let ghost target = recent_first(chains);
    let mut sorted: Vec<AuditGroup> = Vec::new();
    while oldest_first.len() > 0
        invariant
            group_views(sorted@) + group_views(oldest_first@).reverse() == target,
        decreases oldest_first.len(),
    {
        let ghost left = group_views(oldest_first@);
        let ghost out = group_views(sorted@);
        let group = oldest_first.pop().unwrap();
        sorted.push(group);
        assert(group_views(sorted@) + group_views(oldest_first@).reverse() =~= out + left.reverse());
    }
    assert(group_views(sorted@) =~= target);
    proof {
        if forall|i: int| 0 <= i < groups@.len() ==> (#[trigger] groups@[i]).wf() {
            assert forall|i: int| 0 <= i < sorted@.len() implies (#[trigger] sorted@[i]).wf() by {
                assert(target[i] == sorted@[i]@);
                assert(chains.contains(target[i]));
                let k = choose|k: int| 0 <= k < chains.len() && chains[k] == target[i];
                assert(groups@[k].wf());
            }
        }
    }
    sorted
}

} // verus!
