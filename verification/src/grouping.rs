//! The grouping of records into chains by chain id: a partition of the records.

use crate::parser::{
    chain_of, entry_views, group_views, AuditEntry, AuditGroup, EntryView, GroupView,
};
use crate::sequences::{distinct, lemma_distinct_first_seen, lemma_filter_all, lemma_filter_split};
use vstd::hash_map::StringHashMap;
use vstd::prelude::*;
use vstd::seq_lib::lemma_multiset_commutative;

verus! {

/// The chain id of each record.
pub open spec fn ids_of(records: Seq<EntryView>) -> Seq<Seq<char>> {
    records.map_values(|r: EntryView| r.audit_id)
}

/// The chain ids of `records`, each once, in the order in which they first occur.
pub open spec fn chain_ids(records: Seq<EntryView>) -> Seq<Seq<char>> {
    distinct(ids_of(records))
}

/// The records of chain `id` among `records`, in their order.
pub open spec fn records_with_id(records: Seq<EntryView>, id: Seq<char>) -> Seq<EntryView> {
    records.filter(|r: EntryView| r.audit_id == id)
}

/// The chains of `records`: one per chain id, in first-seen order of the ids,
/// each made of all records of its id.
pub open spec fn chains_of(records: Seq<EntryView>) -> Seq<GroupView> {
    Seq::new(
        chain_ids(records).len(),
        |i: int| chain_of(records_with_id(records, chain_ids(records)[i])),
    )
}

/// What one more record does to the chain ids and to the records of each id.
pub proof fn lemma_grouping_step(seen: Seq<EntryView>, r: EntryView)
    ensures
        chain_ids(seen.push(r)) == if chain_ids(seen).contains(r.audit_id) {
            chain_ids(seen)
        } else {
            chain_ids(seen).push(r.audit_id)
        },
        records_with_id(seen.push(r), r.audit_id) == records_with_id(seen, r.audit_id).push(r),
        forall|id: Seq<char>|
            id != r.audit_id ==> #[trigger] records_with_id(seen.push(r), id) == records_with_id(
                seen,
                id,
            ),
{
    let grown = seen.push(r);
    assert(grown.drop_last() == seen);
    assert(ids_of(grown).drop_last() == ids_of(seen));
    assert(ids_of(grown).last() == r.audit_id);
    reveal(Seq::filter);
    assert forall|id: Seq<char>| id != r.audit_id implies #[trigger] records_with_id(grown, id)
        == records_with_id(seen, id) by {
        let pred = |x: EntryView| x.audit_id == id;
        assert(!pred(grown.last()));
    }
    let same = |x: EntryView| x.audit_id == r.audit_id;
    assert(same(grown.last()));
}

/// An id that no record carries has no records.
pub proof fn lemma_unseen_id_has_no_records(seen: Seq<EntryView>, id: Seq<char>)
    requires
        !chain_ids(seen).contains(id),
    ensures
        records_with_id(seen, id) == Seq::<EntryView>::empty(),
    decreases seen.len(),
{
    reveal(Seq::filter);
    if seen.len() > 0 {
        let before = seen.drop_last();
        assert(seen == before.push(seen.last()));
        lemma_grouping_step(before, seen.last());
        lemma_distinct_first_seen(ids_of(seen));
        lemma_distinct_first_seen(ids_of(before));
        assert(ids_of(seen)[seen.len() - 1] == seen.last().audit_id);
        assert(ids_of(seen).contains(seen.last().audit_id));
        if chain_ids(before).contains(id) {
            assert(ids_of(before).contains(id));
            let k = choose|k: int| 0 <= k < before.len() && ids_of(before)[k] == id;
            assert(ids_of(seen)[k] == id);
            assert(ids_of(seen).contains(id));
            assert(chain_ids(seen).contains(id));
        }
        lemma_unseen_id_has_no_records(before, id);
    }
}

/// Groups records by chain id. The chains come in the order in which their ids
/// first occur, and each holds the records of its id in their order.
pub fn group_entries(entries: Vec<AuditEntry>) -> (groups: Vec<AuditGroup>)
    ensures
        group_views(groups@) == chains_of(entry_views(entries@)),
        forall|i: int| 0 <= i < groups@.len() ==> (#[trigger] groups@[i]).wf(),
{
    let ghost records = entry_views(entries@);
    let mut buckets: Vec<Vec<AuditEntry>> = Vec::new();
    let mut index: StringHashMap<usize> = StringHashMap::new();
    for entry in it: entries
        invariant
            it.seq() == entries@,
            records == entry_views(entries@),
            buckets.len() == chain_ids(records.take(it.index() as int)).len(),
            forall|i: int|
                0 <= i < buckets.len() ==> entry_views((#[trigger] buckets[i])@) == records_with_id(
                    records.take(it.index() as int),
                    chain_ids(records.take(it.index() as int))[i],
                ),
            forall|i: int| 0 <= i < buckets.len() ==> (#[trigger] buckets[i]).len() > 0,
            forall|id: Seq<char>|
                index@.contains_key(id) <==> chain_ids(records.take(it.index() as int)).contains(id),
            forall|i: int|
                0 <= i < buckets.len() ==> index@[#[trigger] chain_ids(
                    records.take(it.index() as int),
                )[i]] == i,
    {
        let ghost seen = records.take(it.index() as int);
        let ghost grown = records.take(it.index() + 1);
        let ghost ids = chain_ids(seen);
        let ghost old_buckets = buckets@;
        proof {
            assert(grown == seen.push(entry@));
            lemma_grouping_step(seen, entry@);
            lemma_distinct_first_seen(ids_of(seen));
        }
        match index.get(entry.audit_id.as_str()) {
            Some(at) => {
                let at = *at;
                proof {
                    let w = choose|w: int| 0 <= w < ids.len() && ids[w] == entry@.audit_id;
                    assert(index@[ids[w]] == w);
                    assert(w == at);
                }
                buckets[at].push(entry);
                proof {
                    assert(entry_views(buckets[at as int]@) == entry_views(old_buckets[at as int]@).push(
                        entry@,
                    ));
                    assert forall|i: int| 0 <= i < buckets.len() implies entry_views(
                        (#[trigger] buckets[i])@,
                    ) == records_with_id(grown, chain_ids(grown)[i]) by {
                        if i != at {
                            assert(buckets[i] == old_buckets[i]);
                            assert(ids[i] != ids[at as int]);
                        }
                    }
                }
            },
            None => {
                let ghost old_index = index@;
                index.insert(entry.audit_id.clone(), buckets.len());
                let mut bucket: Vec<AuditEntry> = Vec::new();
                bucket.push(entry);
                buckets.push(bucket);
                proof {
                    reveal(Seq::filter);
                    assert(entry_views(bucket@) == Seq::<EntryView>::empty().push(entry@));
                    lemma_unseen_id_has_no_records(seen, entry@.audit_id);
                    assert forall|i: int| 0 <= i < buckets.len() implies entry_views(
                        (#[trigger] buckets[i])@,
                    ) == records_with_id(grown, chain_ids(grown)[i]) by {
                        if i < old_buckets.len() {
                            assert(buckets[i] == old_buckets[i]);
                            assert(ids.contains(ids[i]));
                        }
                    }
                    assert forall|id: Seq<char>| index@.contains_key(id) <==> chain_ids(
                        grown,
                    ).contains(id) by {
                        if ids.contains(id) {
                            let k = choose|k: int| 0 <= k < ids.len() && ids[k] == id;
                            assert(chain_ids(grown)[k] == id);
                        }
                        if id == entry@.audit_id {
                            assert(chain_ids(grown)[ids.len() as int] == id);
                        }
                    }
                    assert forall|i: int| 0 <= i < buckets.len() implies index@[#[trigger] chain_ids(
                        grown,
                    )[i]] == i by {
                        if i < old_buckets.len() {
                            assert(ids.contains(ids[i]));
                        }
                    }
                }
            },
        }
    }
    let ghost ids = chain_ids(records);
    assert(records.take(entries@.len() as int) == records);
    let ghost filled = buckets@;
    let mut groups: Vec<AuditGroup> = Vec::new();
    for bucket in it: buckets
        invariant
            it.seq() == filled,
            filled.len() == ids.len(),
            forall|i: int|
                0 <= i < filled.len() ==> entry_views((#[trigger] filled[i])@) == records_with_id(
                    records,
                    ids[i],
                ),
            forall|i: int| 0 <= i < filled.len() ==> (#[trigger] filled[i]).len() > 0,
            groups.len() == it.index(),
            forall|i: int|
                0 <= i < groups.len() ==> (#[trigger] groups[i])@ == chain_of(
                    records_with_id(records, ids[i]),
                ),
            forall|i: int| 0 <= i < groups.len() ==> (#[trigger] groups[i]).wf(),
    {
        groups.push(AuditGroup::from_entries(bucket));
    }
    assert(group_views(groups@) =~= chains_of(records));
    groups
}

/// The records of `chains`, chain after chain.
pub open spec fn chained_records(chains: Seq<GroupView>) -> Seq<EntryView> {
    chains.map_values(|c: GroupView| c.entries).flatten()
}

/// The records of the chain ids `ids` among `records`, id after id.
pub open spec fn gathered(records: Seq<EntryView>, ids: Seq<Seq<char>>) -> Seq<EntryView> {
    Seq::new(ids.len(), |i: int| records_with_id(records, ids[i])).flatten()
}

/// Gathering by distinct ids collects each record of one of the ids once.
pub proof fn lemma_gathered(records: Seq<EntryView>, ids: Seq<Seq<char>>)
    requires
        ids.no_duplicates(),
    ensures
        gathered(records, ids).to_multiset() == records.filter(
            |r: EntryView| ids.contains(r.audit_id),
        ).to_multiset(),
    decreases ids.len(),
{
    let among = |r: EntryView| ids.contains(r.audit_id);
    let parts = Seq::new(ids.len(), |i: int| records_with_id(records, ids[i]));
    if ids.len() == 0 {
        assert(parts =~= Seq::<Seq<EntryView>>::empty());
        assert(gathered(records, ids) =~= Seq::<EntryView>::empty());
        assert(records.filter(among) =~= Seq::<EntryView>::empty()) by {
            records.filter_lemma(among);
            if records.filter(among).len() > 0 {
                assert(among(records.filter(among)[0]));
            }
        }
    } else {
        let before = ids.drop_last();
        let id = ids.last();
        let among_before = |r: EntryView| before.contains(r.audit_id);
        let of_id = |r: EntryView| r.audit_id == id;
        let parts_before = Seq::new(before.len(), |i: int| records_with_id(records, before[i]));
        lemma_gathered(records, before);
        assert(parts =~= parts_before.push(records_with_id(records, id)));
        parts_before.lemma_flatten_push(records_with_id(records, id));
        lemma_multiset_commutative(gathered(records, before), records_with_id(records, id));
        assert forall|x: EntryView| #[trigger] among(x) == (among_before(x) || of_id(x)) by {
            if before.contains(x.audit_id) {
                let k = choose|k: int| 0 <= k < before.len() && before[k] == x.audit_id;
                assert(ids[k] == x.audit_id);
            }
            if x.audit_id == id {
                assert(ids[ids.len() - 1] == x.audit_id);
            }
            if ids.contains(x.audit_id) {
                let k = choose|k: int| 0 <= k < ids.len() && ids[k] == x.audit_id;
                if k < before.len() {
                    assert(before[k] == x.audit_id);
                }
            }
        }
        assert forall|x: EntryView| !(#[trigger] among_before(x) && of_id(x)) by {
            if before.contains(x.audit_id) && x.audit_id == id {
                let k = choose|k: int| 0 <= k < before.len() && before[k] == x.audit_id;
                assert(ids[k] == ids[ids.len() - 1]);
            }
        }
        lemma_filter_split(records, among_before, of_id, among);
    }
}

/// Grouping is a partition: the chains together hold every record exactly
/// once, none lost and none repeated.
pub proof fn lemma_chains_partition(records: Seq<EntryView>)
    ensures
        chained_records(chains_of(records)).to_multiset() == records.to_multiset(),
{
    let ids = chain_ids(records);
    let among = |r: EntryView| ids.contains(r.audit_id);
    lemma_distinct_first_seen(ids_of(records));
    lemma_gathered(records, ids);
    assert(chains_of(records).map_values(|c: GroupView| c.entries) =~= Seq::new(
        ids.len(),
        |i: int| records_with_id(records, ids[i]),
    ));
    assert forall|i: int| 0 <= i < records.len() implies among(#[trigger] records[i]) by {
        assert(ids_of(records)[i] == records[i].audit_id);
        assert(ids_of(records).contains(records[i].audit_id));
    }
    lemma_filter_all(records, among);
}

/// The chain ids of the chains are distinct, and each chain holds exactly the
/// records of its id.
pub proof fn lemma_chains_by_id(records: Seq<EntryView>)
    ensures
        chain_ids(records).no_duplicates(),
        forall|i: int|
            0 <= i < chains_of(records).len() ==> {
                &&& (#[trigger] chains_of(records)[i]).entries.len() > 0
                &&& chains_of(records)[i].base_id == chain_ids(records)[i]
                &&& forall|k: int|
                    0 <= k < chains_of(records)[i].entries.len() ==> (
                    #[trigger] chains_of(records)[i].entries[k]).audit_id == chain_ids(records)[i]
            },
{
    let ids = chain_ids(records);
    lemma_distinct_first_seen(ids_of(records));
    assert forall|i: int| 0 <= i < chains_of(records).len() implies {
        &&& (#[trigger] chains_of(records)[i]).entries.len() > 0
        &&& chains_of(records)[i].base_id == ids[i]
        &&& forall|k: int|
            0 <= k < chains_of(records)[i].entries.len() ==> (
            #[trigger] chains_of(records)[i].entries[k]).audit_id == ids[i]
    } by {
        let of_id = |r: EntryView| r.audit_id == ids[i];
        let part = records_with_id(records, ids[i]);
        records.filter_lemma(of_id);
        assert(ids.contains(ids[i]));
        assert(ids_of(records).contains(ids[i]));
        let k = choose|k: int| 0 <= k < records.len() && ids_of(records)[k] == ids[i];
        assert(of_id(records[k]));
        assert(part.contains(records[k]));
        assert(of_id(part[0]));
        assert forall|j: int| 0 <= j < part.len() implies (#[trigger] part[j]).audit_id == ids[i] by {
            assert(of_id(part[j]));
        }
    }
}

} // verus!
