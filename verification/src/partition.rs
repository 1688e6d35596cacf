//! The partitioner: entries that wait for a handler, and all the others.

use crate::trans_content::{entry_views, pending_state, EntryView, ReqContent};
use vstd::prelude::*;

verus! {

/// Whether an entry waits for a handler. Any state but `"Pending"`, known or
/// not, makes the entry inert.
pub open spec fn is_pending(entry: EntryView) -> bool {
    entry.head.state == pending_state()
}

/// The predicate "waits for a handler" on entries.
pub open spec fn pending_entry() -> spec_fn(EntryView) -> bool {
    |entry: EntryView| is_pending(entry)
}

/// The predicate "does not wait for a handler" on entries.
pub open spec fn inert_entry() -> spec_fn(EntryView) -> bool {
    |entry: EntryView| !is_pending(entry)
}

/// The entries of `entries` that wait for a handler, in their order.
pub open spec fn pending_of(entries: Seq<EntryView>) -> Seq<EntryView> {
    entries.filter(pending_entry())
}

/// The entries of `entries` that do not wait for a handler, in their order.
pub open spec fn done_of(entries: Seq<EntryView>) -> Seq<EntryView> {
    entries.filter(inert_entry())
}

/// A batch of entries split by state.
#[derive(Debug)]
pub struct ContentGroupByState {
    pub pending: Vec<ReqContent>,
    pub done: Vec<ReqContent>,
}

/// Partitioning a batch that ends in `entry` partitions what comes before
/// it, and puts `entry` last in the bucket of its state.
proof fn lemma_partition_push(entries: Seq<EntryView>, entry: EntryView)
    ensures
        pending_of(entries.push(entry)) == if is_pending(entry) {
            pending_of(entries).push(entry)
        } else {
            pending_of(entries)
        },
        done_of(entries.push(entry)) == if is_pending(entry) {
            done_of(entries)
        } else {
            done_of(entries).push(entry)
        },
{
    reveal(Seq::filter);
    assert(entries.push(entry).drop_last() =~= entries);
}

/// The two buckets together are the batch: no entry is lost, none is in
/// both, and none is made up.
pub proof fn lemma_partition_complete(entries: Seq<EntryView>)
    ensures
        pending_of(entries).len() + done_of(entries).len() == entries.len(),
        entries.to_multiset() == pending_of(entries).to_multiset().add(
            done_of(entries).to_multiset(),
        ),
        forall|i: int|
            0 <= i < pending_of(entries).len() ==> is_pending(#[trigger] pending_of(entries)[i]),
        forall|i: int|
            0 <= i < done_of(entries).len() ==> !is_pending(#[trigger] done_of(entries)[i]),
    decreases entries.len(),
{
    broadcast use vstd::seq_lib::group_to_multiset_ensures;

    if entries.len() == 0 {
        reveal(Seq::filter);
        assert(pending_of(entries) =~= entries);
        assert(done_of(entries) =~= entries);
        assert(entries.to_multiset() =~= entries.to_multiset().add(entries.to_multiset()));
    } else {
        let front = entries.drop_last();
        let last = entries.last();
        assert(entries =~= front.push(last));
        lemma_partition_complete(front);
        lemma_partition_push(front, last);
        assert(entries.to_multiset() =~= pending_of(entries).to_multiset().add(
            done_of(entries).to_multiset(),
        ));
    }
}

/// Splits a batch of entries into those that wait for a handler and the
/// others, in one pass, keeping the order within each bucket.
pub fn group_by_state(content: Vec<ReqContent>) -> (groups: ContentGroupByState)
    ensures
        entry_views(groups.pending@) == pending_of(entry_views(content@)),
        entry_views(groups.done@) == done_of(entry_views(content@)),
        groups.pending@.len() + groups.done@.len() == content@.len(),
{
    let ghost all = content@;
    let waiting = "Pending".to_string();
    let mut pending: Vec<ReqContent> = Vec::new();
    let mut done: Vec<ReqContent> = Vec::new();
    for item in it: content
        invariant
            it.seq() == all,
            waiting@ == pending_state(),
            entry_views(pending@) == pending_of(entry_views(all.take(it.index() as int))),
            entry_views(done@) == done_of(entry_views(all.take(it.index() as int))),
    {
        let ghost pending_before = pending@;
        let ghost done_before = done@;
        let ghost entry = item@;
        proof {
            let i = it.index() as int;
            assert(all.take(i + 1) =~= all.take(i).push(all[i]));
            assert(entry_views(all.take(i + 1)) =~= entry_views(all.take(i)).push(entry));
            lemma_partition_push(entry_views(all.take(i)), entry);
        }
        if item.head.state == waiting {
            pending.push(item);
            assert(entry_views(pending@) =~= entry_views(pending_before).push(entry));
        } else {
            done.push(item);
            assert(entry_views(done@) =~= entry_views(done_before).push(entry));
        }
    }
    proof {
        assert(all.take(all.len() as int) =~= all);
        lemma_partition_complete(entry_views(all));
    }
    ContentGroupByState { pending, done }
}

} // verus!
