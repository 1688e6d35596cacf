//! The expiry filter: entries older than a fixed age leave the document.

use crate::trans_content::{entry_views, EntryView, ReqContent};
use vstd::prelude::*;

verus! {

/// The age, in milliseconds, at which an entry has expired: thirty minutes.
pub const MAX_AGE_MILLIS: i64 = 1_800_000;

/// Whether an entry created at `timestamp` is still kept at `now`, both in
/// milliseconds since the epoch. An entry whose age is exactly
/// [`MAX_AGE_MILLIS`] has expired.
pub open spec fn is_fresh(now: int, timestamp: int) -> bool {
    now - timestamp < MAX_AGE_MILLIS as int
}

/// The predicate "is kept at `now`" on entries.
pub open spec fn fresh_at(now: int) -> spec_fn(EntryView) -> bool {
    |entry: EntryView| is_fresh(now, entry.head.timestamp)
}

/// The entries of `entries` that are kept at `now`, in their order.
pub open spec fn retained(entries: Seq<EntryView>, now: int) -> Seq<EntryView> {
    entries.filter(fresh_at(now))
}

/// Filtering a sequence that ends in `entry` filters what comes before it,
/// and keeps `entry` at the end where it is fresh.
proof fn lemma_retained_push(entries: Seq<EntryView>, entry: EntryView, now: int)
    ensures
        retained(entries.push(entry), now) == if is_fresh(now, entry.head.timestamp) {
            retained(entries, now).push(entry)
        } else {
            retained(entries, now)
        },
{
    reveal(Seq::filter);
    assert(entries.push(entry).drop_last() =~= entries);
}

/// The filter keeps an entry if and only if it is fresh, and makes up none.
pub proof fn lemma_retained_iff_fresh(entries: Seq<EntryView>, now: int)
    ensures
        forall|i: int|
            0 <= i < entries.len() ==> (retained(entries, now).contains(#[trigger] entries[i])
                <==> is_fresh(now, entries[i].head.timestamp)),
        forall|i: int|
            0 <= i < retained(entries, now).len() ==> entries.contains(
                #[trigger] retained(entries, now)[i],
            ),
        retained(entries, now).len() <= entries.len(),
{
    broadcast use vstd::seq_lib::group_filter_ensures;

    let kept = retained(entries, now);
    assert forall|i: int| 0 <= i < entries.len() implies (kept.contains(#[trigger] entries[i])
        <==> is_fresh(now, entries[i].head.timestamp)) by {
        if kept.contains(entries[i]) {
            let j = choose|j: int| 0 <= j < kept.len() && kept[j] == entries[i];
            assert(fresh_at(now)(kept[j]));
        }
        if is_fresh(now, entries[i].head.timestamp) {
            assert(fresh_at(now)(entries[i]));
        }
    }
    assert forall|i: int| 0 <= i < kept.len() implies entries.contains(#[trigger] kept[i]) by {
        assert(kept.contains(kept[i]));
        entries.lemma_filter_contains_rev(fresh_at(now), kept[i]);
    }
}

fn fresh(now: i64, timestamp: i64) -> (kept: bool)
    ensures
        kept == is_fresh(now as int, timestamp as int),
{
    (now as i128) - (timestamp as i128) < (MAX_AGE_MILLIS as i128)
}

/// The time of the system clock, in milliseconds since the epoch.
///
/// Trusted: calls `chrono::Utc::now` and converts what it returns with
/// `DateTime::timestamp_millis`. `Utc::now` panics where the system clock
/// stands before the epoch, so the time that comes back is not negative.
/// No more is claimed of it: two calls may return any two such times.
#[verifier::external_body]
pub(crate) fn now_millis() -> (now: i64)
    ensures
        0 <= now,
{
    chrono::Utc::now().timestamp_millis()
}

/// Drops the entries that have expired at `now`, whatever their state.
pub fn trim_expired_at(contents: Vec<ReqContent>, now: i64) -> (kept: Vec<ReqContent>)
    ensures
        entry_views(kept@) == retained(entry_views(contents@), now as int),
{
    let ghost all = contents@;
    let mut kept: Vec<ReqContent> = Vec::new();
    for item in it: contents
        invariant
            it.seq() == all,
            entry_views(kept@) == retained(entry_views(all.take(it.index() as int)), now as int),
    {
        let ghost before = kept@;
        let ghost entry = item@;
        proof {
            let i = it.index() as int;
            assert(all.take(i + 1) =~= all.take(i).push(all[i]));
            assert(entry_views(all.take(i + 1)) =~= entry_views(all.take(i)).push(entry));
            lemma_retained_push(entry_views(all.take(i)), entry, now as int);
        }
        if fresh(now, item.head.timestamp) {
            kept.push(item);
            assert(entry_views(kept@) =~= entry_views(before).push(entry));
        }
    }
    assert(all.take(all.len() as int) =~= all);
    kept
}

/// Drops the entries that have expired by the time the system clock shows
/// during the call, a time at or after the epoch.
pub fn trim_expired_data(contents: Vec<ReqContent>) -> (kept: Vec<ReqContent>)
    ensures
        exists|now: i64|
            0 <= now && entry_views(kept@) == #[trigger] retained(
                entry_views(contents@),
                now as int,
            ),
{
    let now = now_millis();
    trim_expired_at(contents, now)
}

} // verus!
