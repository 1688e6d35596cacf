//! The transport session: what it holds between poll cycles, and what one
//! poll cycle decides.

use crate::blobs::{blob_views, lists, place_of, BlobView, NamedBlob, PendingBlobs};
use crate::errors::{FetchError, SerializationError, WriteError};
use crate::expiry::{now_millis, retained, trim_expired_at};
use crate::partition::{done_of, group_by_state, pending_of};
use crate::trans_content::{
    entry_views, EntryView, FileEntryView, ReqContent, ResContentType, ResStringContent,
    ResponseView,
};
use crate::trans_unit::TransUnit;
use vstd::prelude::*;

verus! {

/// Mathematical model of a [`BtpListener`].
#[verifier::ext_equal]
pub struct SessionView {
    /// The responses staged for the next flush, oldest first.
    pub stash: Seq<EntryView>,
    /// The blobs that wait for their upload, by name.
    pub blobs: Map<Seq<char>, Seq<u8>>,
}

/// The session after `response` was staged, `name` being the name made for
/// its blob where it carries one. A blob goes to the pending blobs under
/// `name`, and the entry staged for the document holds `name` as its body.
pub open spec fn staged(session: SessionView, response: ResponseView, name: Seq<char>) -> SessionView {
    match response {
        ResponseView::String(entry) => SessionView {
            stash: session.stash.push(entry),
            blobs: session.blobs,
        },
        ResponseView::File(entry) => SessionView {
            stash: session.stash.push(EntryView { head: entry.head, body: name }),
            blobs: session.blobs.insert(name, entry.body),
        },
    }
}

/// The entries that a fetch brought: none where it failed.
pub open spec fn fetched_entries(
    fetched: Result<(Vec<ReqContent>, String), FetchError>,
) -> Seq<EntryView> {
    match fetched {
        Ok(document) => entry_views(document.0@),
        Err(_) => Seq::empty(),
    }
}

/// The revision token that a fetch brought: the empty one where it failed.
pub open spec fn fetched_token(fetched: Result<(Vec<ReqContent>, String), FetchError>) -> Seq<
    char,
> {
    match fetched {
        Ok(document) => document.1@,
        Err(_) => Seq::empty(),
    }
}

/// A cycle has nothing to send where the document holds no pending entry
/// and no response is staged.
pub open spec fn nothing_to_send(session: SessionView, entries: Seq<EntryView>) -> bool {
    pending_of(entries).len() == 0 && session.stash.len() == 0
}

/// The document that a flush writes: the inert entries of the fetched
/// document that have not expired at `now`, then the staged responses.
pub open spec fn merged_document(session: SessionView, entries: Seq<EntryView>, now: int) -> Seq<
    EntryView,
> {
    retained(done_of(entries), now) + session.stash
}

/// What a flush sends out.
pub struct Flush {
    /// Every pending blob, to be uploaded before the document is written.
    pub blobs: Vec<NamedBlob>,
    /// The entries of the document to write.
    pub entries: Vec<ReqContent>,
    /// The revision token to present with the write.
    pub revision_token: String,
}

/// Mathematical model of a [`Flush`].
#[verifier::ext_equal]
pub struct FlushView {
    pub blobs: Seq<BlobView>,
    pub entries: Seq<EntryView>,
    pub revision_token: Seq<char>,
}

impl View for Flush {
    type V = FlushView;

    open spec fn view(&self) -> FlushView {
        FlushView {
            blobs: blob_views(self.blobs@),
            entries: entry_views(self.entries@),
            revision_token: self.revision_token@,
        }
    }
}

/// The models of the units of `units`, in order.
pub open spec fn unit_views(units: Seq<TransUnit>) -> Seq<EntryView> {
    units.map_values(|unit: TransUnit| unit@)
}

/// What one poll cycle decided.
pub struct Cycle {
    /// What to send out; `None` in a cycle that has nothing to send.
    pub flush: Option<Flush>,
    /// The requests to hand to their handlers.
    pub units: Vec<TransUnit>,
}

/// Mathematical model of a [`Cycle`].
#[verifier::ext_equal]
pub struct CycleView {
    pub flush: Option<FlushView>,
    pub units: Seq<EntryView>,
}

impl View for Cycle {
    type V = CycleView;

    open spec fn view(&self) -> CycleView {
        CycleView {
            flush: match self.flush {
                Some(flush) => Some(flush@),
                None => None,
            },
            units: unit_views(self.units@),
        }
    }
}

/// The decisions of one poll cycle, begun in session `before` on the fetched
/// `entries` and `token` at time `now`: `cycle` is what it hands out and
/// `after` the session it leaves.
///
/// The pending entries become the units. Where there is nothing to send,
/// nothing is sent and the session stays as it was. Otherwise every pending
/// blob is listed for upload, the merged document is to be written under
/// `token`, and the stash is left empty. The pending blobs stay until their
/// uploads are reported.
pub open spec fn cycle_of(
    before: SessionView,
    entries: Seq<EntryView>,
    token: Seq<char>,
    now: int,
    cycle: CycleView,
    after: SessionView,
) -> bool {
    &&& cycle.units == pending_of(entries)
    &&& if nothing_to_send(before, entries) {
        &&& cycle.flush is None
        &&& after == before
    } else {
        &&& cycle.flush matches Some(flush)
        &&& lists(flush.blobs, before.blobs)
        &&& flush.entries == merged_document(before, entries, now)
        &&& flush.revision_token == token
        &&& after == SessionView { stash: Seq::empty(), blobs: before.blobs }
    }
}

/// The session after the upload of the blob called `name` was reported: a
/// blob that arrived is no longer pending, one that did not stays pending.
pub open spec fn settled(session: SessionView, name: Seq<char>, arrived: bool) -> SessionView {
    if arrived {
        SessionView { stash: session.stash, blobs: session.blobs.remove(name) }
    } else {
        session
    }
}

/// The text written for a document that could not be encoded.
pub open spec fn empty_document() -> Seq<char> {
    "[]"@
}

/// A cycle that finds no pending entry while nothing is staged sends
/// nothing: no blob, no document. It hands out no unit and leaves the
/// session as it was.
pub proof fn lemma_idle_cycle(
    before: SessionView,
    entries: Seq<EntryView>,
    token: Seq<char>,
    now: int,
    cycle: CycleView,
    after: SessionView,
)
    requires
        cycle_of(before, entries, token, now, cycle, after),
        pending_of(entries).len() == 0,
        before.stash.len() == 0,
    ensures
        cycle.flush is None,
        cycle.units.len() == 0,
        after == before,
{
}

/// A blob goes to the blob store and only its name to the document: in the
/// cycle that follows the staging of a blob under `name`, the entry written
/// for it has `name` as its body, and the blob is listed for upload under
/// `name` with the bytes that were staged.
pub proof fn lemma_blob_indirection(
    session: SessionView,
    response: FileEntryView,
    name: Seq<char>,
    entries: Seq<EntryView>,
    token: Seq<char>,
    now: int,
    cycle: CycleView,
    after: SessionView,
)
    requires
        cycle_of(
            staged(session, ResponseView::File(response), name),
            entries,
            token,
            now,
            cycle,
            after,
        ),
    ensures
        cycle.flush is Some,
        cycle.flush->0.entries.len() > 0,
        cycle.flush->0.entries.last() == (EntryView { head: response.head, body: name }),
        exists|i: int|
            0 <= i < cycle.flush->0.blobs.len() && #[trigger] cycle.flush->0.blobs[i] == (BlobView {
                name,
                content: response.body,
            }),
{
    let before = staged(session, ResponseView::File(response), name);
    assert(before.stash.last() == (EntryView { head: response.head, body: name }));
    let flush = cycle.flush->0;
    assert(before.blobs.contains_key(name));
    let i = place_of(flush.blobs, name);
    assert(before.blobs.contains_pair(flush.blobs[i].name, flush.blobs[i].content));
    assert(flush.blobs[i] == (BlobView { name, content: response.body }));
}

/// The state that a worker keeps between poll cycles.
pub struct BtpListener {
    done: Vec<ResStringContent>,
    files: PendingBlobs,
}

impl View for BtpListener {
    type V = SessionView;

    closed spec fn view(&self) -> SessionView {
        SessionView { stash: entry_views(self.done@), blobs: self.files@ }
    }
}

fn wrap_units(pending: Vec<ReqContent>) -> (units: Vec<TransUnit>)
    ensures
        unit_views(units@) == entry_views(pending@),
{
    let ghost all = pending@;
    let mut units: Vec<TransUnit> = Vec::new();
    for item in it: pending
        invariant
            it.seq() == all,
            unit_views(units@) == entry_views(all.take(it.index() as int)),
    {
        let ghost before = units@;
        let ghost entry = item@;
        let unit = TransUnit::new(item);
        units.push(unit);
        proof {
            let i = it.index() as int;
            assert(all.take(i + 1) =~= all.take(i).push(all[i]));
            assert(unit_views(units@) =~= unit_views(before).push(entry));
            assert(entry_views(all.take(i + 1)) =~= entry_views(all.take(i)).push(entry));
        }
    }
    assert(all.take(all.len() as int) =~= all);
    units
}

impl BtpListener {
    /// A session with nothing staged and no blob pending.
    pub fn new() -> (session: BtpListener)
        ensures
            session@ == (SessionView { stash: Seq::empty(), blobs: Map::empty() }),
    {
        let session = BtpListener { done: Vec::new(), files: PendingBlobs::new() };
        assert(session@.stash =~= Seq::empty());
        session
    }

    /// Stages `value` for the next flush, `name` being the name under which
    /// its blob, where it carries one, is to be stored. A blob already
    /// pending under `name` gives way to the new one.
    pub fn stash_named(&mut self, value: ResContentType, name: String)
        ensures
            final(self)@ == staged(old(self)@, value@, name@),
    {
        let ghost stash_before = self.done@;
        match value {
            ResContentType::String(entry) => {
                let ghost staged_entry = entry@;
                self.done.push(entry);
                assert(entry_views(self.done@) =~= entry_views(stash_before).push(staged_entry));
            },
            ResContentType::File(entry) => {
                let ghost head = entry.head@;
                self.files.insert(name.clone(), entry.body);
                self.done.push(ResStringContent { head: entry.head, body: name });
                assert(entry_views(self.done@) =~= entry_views(stash_before).push(
                    EntryView { head, body: name@ },
                ));
            },
        }
    }

    /// Stages `value` for the next flush. A response whose body is text is
    /// staged as it is. A blob is given a name made for it and waits among
    /// the pending blobs; in its place the document will hold an entry whose
    /// body is that name. Nothing is sent.
    pub fn stash(&mut self, value: ResContentType)
        ensures
            exists|name: Seq<char>| final(self)@ == #[trigger] staged(old(self)@, value@, name),
            value@ is String ==> final(self)@ == staged(old(self)@, value@, Seq::empty()),
    {
        match value {
            ResContentType::String(entry) => {
                self.stash_named(ResContentType::String(entry), String::new());
            },
            ResContentType::File(entry) => {
                let name = fresh_blob_name();
                self.stash_named(ResContentType::File(entry), name);
            },
        }
    }

    /// One poll cycle at time `now`, in milliseconds since the epoch, on
    /// what the fetch of the document returned. A fetch that failed counts
    /// as an empty document with an empty revision token.
    pub fn accept_at(
        &mut self,
        fetched: Result<(Vec<ReqContent>, String), FetchError>,
        now: i64,
    ) -> (cycle: Cycle)
        ensures
            cycle_of(
                old(self)@,
                fetched_entries(fetched),
                fetched_token(fetched),
                now as int,
                cycle@,
                final(self)@,
            ),
    {
        let (entries, revision_token) = match fetched {
            Ok(document) => document,
            Err(_) => (Vec::new(), String::new()),
        };
        assert(entry_views(entries@) =~= fetched_entries(fetched));
        let groups = group_by_state(entries);
        if groups.pending.len() == 0 && self.done.len() == 0 {
            let units: Vec<TransUnit> = Vec::new();
            assert(unit_views(units@) =~= entry_views(groups.pending@));
            return Cycle { flush: None, units };
        }
        let blobs = self.files.list();
        let mut merged = trim_expired_at(groups.done, now);
        let ghost kept = merged@;
        let ghost stash = self.done@;
        merged.append(&mut self.done);
        proof {
            assert(entry_views(merged@) =~= entry_views(kept) + entry_views(stash));
            assert(entry_views(self.done@) =~= Seq::empty());
        }
        let units = wrap_units(groups.pending);
        Cycle { flush: Some(Flush { blobs, entries: merged, revision_token }), units }
    }

    /// One poll cycle at the time that the system clock shows, a time at or
    /// after the epoch, on what the fetch of the document returned.
    pub fn accept(&mut self, fetched: Result<(Vec<ReqContent>, String), FetchError>) -> (cycle:
        Cycle)
        ensures
            exists|now: i64|
                0 <= now && #[trigger] cycle_of(
                    old(self)@,
                    fetched_entries(fetched),
                    fetched_token(fetched),
                    now as int,
                    cycle@,
                    final(self)@,
                ),
            nothing_to_send(old(self)@, fetched_entries(fetched)) ==> cycle.flush is None
                && cycle.units@.len() == 0 && final(self)@ == old(self)@,
    {
        let now = now_millis();
        self.accept_at(fetched, now)
    }

    /// Takes note of how the upload of the blob called `name` went. A blob
    /// that arrived is no longer pending; one that did not stays pending and
    /// is listed again by the next flush.
    pub fn settle_blob(&mut self, name: &str, outcome: Result<(), WriteError>)
        ensures
            final(self)@ == settled(old(self)@, name@, outcome is Ok),
    {
        if outcome.is_ok() {
            let wanted = name.to_string();
            self.files.remove(&wanted);
        }
    }
}

/// A name for a blob that is about to be staged.
///
/// Trusted: calls `uuid::Uuid::new_v4` and converts what it returns with its
/// `to_string`. The identifier is drawn at random, so nothing is claimed of
/// the name, not even that it differs from an earlier one. `new_v4` panics
/// where the operating system gives no random bytes.
#[verifier::external_body]
fn fresh_blob_name() -> String {
    uuid::Uuid::new_v4().to_string()
}

/// The text to write as the document: the encoded text where encoding the
/// merged entries succeeded, and the text of an empty array where it failed.
pub fn document_content(encoded: Result<String, SerializationError>) -> (content: String)
    ensures
        content@ == match encoded {
            Ok(text) => text@,
            Err(_) => empty_document(),
        },
{
    match encoded {
        Ok(text) => text,
        Err(_) => "[]".to_string(),
    }
}

} // verus!
