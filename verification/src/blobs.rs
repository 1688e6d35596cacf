//! Blobs that wait for their upload, each under the name it was given.

use vstd::prelude::*;

verus! {

/// A blob and the name under which the blob store is to hold it.
#[derive(Debug, Clone)]
pub struct NamedBlob {
    pub name: String,
    pub content: Vec<u8>,
}

/// Mathematical model of a [`NamedBlob`].
#[verifier::ext_equal]
pub struct BlobView {
    pub name: Seq<char>,
    pub content: Seq<u8>,
}

impl View for NamedBlob {
    type V = BlobView;

    open spec fn view(&self) -> BlobView {
        BlobView { name: self.name@, content: self.content@ }
    }
}

/// The models of the blobs of `blobs`, in order.
pub open spec fn blob_views(blobs: Seq<NamedBlob>) -> Seq<BlobView> {
    blobs.map_values(|blob: NamedBlob| blob@)
}

/// No two blobs of `blobs` have the same name.
pub open spec fn distinct_names(blobs: Seq<BlobView>) -> bool {
    forall|i: int, j: int| 0 <= i < j < blobs.len() ==> blobs[i].name != blobs[j].name
}

/// Whether some blob of `blobs` is called `name`.
pub open spec fn has_name(blobs: Seq<BlobView>, name: Seq<char>) -> bool {
    exists|i: int| 0 <= i < blobs.len() && #[trigger] blobs[i].name == name
}

/// `blobs` lists the mapping `pending`: each name of `pending` once, with the
/// content that `pending` gives it, and nothing else.
pub open spec fn lists(blobs: Seq<BlobView>, pending: Map<Seq<char>, Seq<u8>>) -> bool {
    &&& distinct_names(blobs)
    &&& forall|i: int|
        0 <= i < blobs.len() ==> pending.contains_pair((#[trigger] blobs[i]).name, blobs[i].content)
    &&& forall|name: Seq<char>| #[trigger] pending.contains_key(name) ==> has_name(blobs, name)
}

/// The place of the blob called `name` in `blobs`, where there is one.
pub open spec fn place_of(blobs: Seq<BlobView>, name: Seq<char>) -> int {
    choose|i: int| 0 <= i < blobs.len() && #[trigger] blobs[i].name == name
}

/// The mapping from each name in `blobs` to the content listed under it.
spec fn blob_map(blobs: Seq<BlobView>) -> Map<Seq<char>, Seq<u8>> {
    Map::new(
        |name: Seq<char>| has_name(blobs, name),
        |name: Seq<char>| blobs[place_of(blobs, name)].content,
    )
}

/// A list without a repeated name lists its own mapping.
proof fn lemma_lists_own_map(blobs: Seq<BlobView>)
    requires
        distinct_names(blobs),
    ensures
        lists(blobs, blob_map(blobs)),
{
    let pending = blob_map(blobs);
    assert forall|i: int| 0 <= i < blobs.len() implies pending.contains_pair(
        (#[trigger] blobs[i]).name,
        blobs[i].content,
    ) by {
        let name = blobs[i].name;
        assert(has_name(blobs, name));
        let j = place_of(blobs, name);
        assert(i == j);
    }
}

/// A list lists one mapping only.
proof fn lemma_lists_one_map(
    blobs: Seq<BlobView>,
    first: Map<Seq<char>, Seq<u8>>,
    second: Map<Seq<char>, Seq<u8>>,
)
    requires
        lists(blobs, first),
        lists(blobs, second),
    ensures
        first == second,
{
    assert forall|name: Seq<char>| first.contains_key(name) implies second.contains_key(name)
        && second[name] == first[name] by {
        assert(has_name(blobs, name));
        let i = place_of(blobs, name);
        assert(first.contains_pair(blobs[i].name, blobs[i].content));
        assert(second.contains_pair(blobs[i].name, blobs[i].content));
    }
    assert forall|name: Seq<char>| second.contains_key(name) implies first.contains_key(name) by {
        assert(has_name(blobs, name));
        let i = place_of(blobs, name);
        assert(first.contains_pair(blobs[i].name, blobs[i].content));
    }
    assert(first =~= second);
}

/// Adding a blob under a name that is not listed yet.
proof fn lemma_lists_push(
    blobs: Seq<BlobView>,
    pending: Map<Seq<char>, Seq<u8>>,
    blob: BlobView,
)
    requires
        lists(blobs, pending),
        !pending.contains_key(blob.name),
    ensures
        lists(blobs.push(blob), pending.insert(blob.name, blob.content)),
{
    let longer = blobs.push(blob);
    let grown = pending.insert(blob.name, blob.content);
    assert forall|i: int, j: int| 0 <= i < j < longer.len() implies longer[i].name
        != longer[j].name by {
        if j == blobs.len() {
            assert(pending.contains_pair(blobs[i].name, blobs[i].content));
        }
    }
    assert forall|i: int| 0 <= i < longer.len() implies grown.contains_pair(
        (#[trigger] longer[i]).name,
        longer[i].content,
    ) by {
        if i < blobs.len() {
            assert(pending.contains_pair(blobs[i].name, blobs[i].content));
        }
    }
    assert forall|name: Seq<char>| #[trigger] grown.contains_key(name) implies has_name(
        longer,
        name,
    ) by {
        if name == blob.name {
            assert(longer[blobs.len() as int].name == name);
        } else {
            assert(pending.contains_key(name));
            let i = place_of(blobs, name);
            assert(longer[i].name == name);
        }
    }
}

/// Taking the blob at place `at` off the list.
proof fn lemma_lists_remove(
    blobs: Seq<BlobView>,
    pending: Map<Seq<char>, Seq<u8>>,
    at: int,
)
    requires
        lists(blobs, pending),
        0 <= at < blobs.len(),
    ensures
        lists(blobs.remove(at), pending.remove(blobs[at].name)),
{
    let shorter = blobs.remove(at);
    let rest = pending.remove(blobs[at].name);
    assert forall|i: int| 0 <= i < shorter.len() implies shorter[i] == blobs[if i < at {
        i
    } else {
        i + 1
    }] by {}
    assert forall|i: int, j: int| 0 <= i < j < shorter.len() implies shorter[i].name
        != shorter[j].name by {
        let before_i = if i < at { i } else { i + 1 };
        let before_j = if j < at { j } else { j + 1 };
        assert(blobs[before_i].name != blobs[before_j].name);
    }
    assert forall|i: int| 0 <= i < shorter.len() implies rest.contains_pair(
        (#[trigger] shorter[i]).name,
        shorter[i].content,
    ) by {
        let before = if i < at { i } else { i + 1 };
        assert(pending.contains_pair(blobs[before].name, blobs[before].content));
        if before < at {
            assert(blobs[before].name != blobs[at].name);
        } else {
            assert(blobs[at].name != blobs[before].name);
        }
    }
    assert forall|name: Seq<char>| #[trigger] rest.contains_key(name) implies has_name(
        shorter,
        name,
    ) by {
        assert(pending.contains_key(name));
        let i = place_of(blobs, name);
        assert(i != at);
        let after = if i < at { i } else { i - 1 };
        assert(shorter[after].name == name);
    }
}

/// A name that no blob of the list carries is not pending.
proof fn lemma_lists_absent(
    blobs: Seq<BlobView>,
    pending: Map<Seq<char>, Seq<u8>>,
    name: Seq<char>,
)
    requires
        lists(blobs, pending),
        forall|i: int| 0 <= i < blobs.len() ==> (#[trigger] blobs[i]).name != name,
    ensures
        !pending.contains_key(name),
        pending.remove(name) == pending,
{
    if pending.contains_key(name) {
        assert(has_name(blobs, name));
        let i = place_of(blobs, name);
        assert(blobs[i].name == name);
    }
    assert(pending.remove(name) =~= pending);
}

/// The blobs that wait for their upload: a mapping from names to contents
/// that can be listed.
pub struct PendingBlobs {
    list: Vec<NamedBlob>,
}

impl View for PendingBlobs {
    type V = Map<Seq<char>, Seq<u8>>;

    closed spec fn view(&self) -> Map<Seq<char>, Seq<u8>> {
        blob_map(blob_views(self.list@))
    }
}

fn find_blob(blobs: &Vec<NamedBlob>, name: &String) -> (place: Option<usize>)
    ensures
        match place {
            Some(at) => at < blobs@.len() && blobs@[at as int].name@ == name@,
            None => forall|i: int|
                0 <= i < blobs@.len() ==> (#[trigger] blob_views(blobs@)[i]).name != name@,
        },
{
    let mut at: usize = 0;
    while at < blobs.len()
        invariant
            at <= blobs@.len(),
            forall|i: int| 0 <= i < at ==> (#[trigger] blob_views(blobs@)[i]).name != name@,
        decreases blobs@.len() - at,
    {
        if blobs[at].name == *name {
            return Some(at);
        }
        at += 1;
    }
    None
}

impl PendingBlobs {
    #[verifier::type_invariant]
    spec fn well_formed(&self) -> bool {
        distinct_names(blob_views(self.list@))
    }

    /// No blob at all.
    pub fn new() -> (blobs: PendingBlobs)
        ensures
            blobs@ == Map::<Seq<char>, Seq<u8>>::empty(),
    {
        let blobs = PendingBlobs { list: Vec::new() };
        assert(blobs@ =~= Map::<Seq<char>, Seq<u8>>::empty());
        blobs
    }

    /// Puts `content` under `name`, in the place of what was there.
    pub fn insert(&mut self, name: String, content: Vec<u8>)
        ensures
            final(self)@ == old(self)@.insert(name@, content@),
    {
        proof {
            use_type_invariant(&*self);
        }
        let mut list: Vec<NamedBlob> = Vec::new();
        core::mem::swap(&mut self.list, &mut list);
        let ghost pending = blob_map(blob_views(list@));
        proof {
            lemma_lists_own_map(blob_views(list@));
        }
        match find_blob(&list, &name) {
            Some(at) => {
                let ghost listed = blob_views(list@);
                list.remove(at);
                proof {
                    assert(blob_views(list@) =~= listed.remove(at as int));
                    lemma_lists_remove(listed, pending, at as int);
                }
            },
            None => {
                proof {
                    lemma_lists_absent(blob_views(list@), pending, name@);
                }
            },
        }
        let ghost listed = blob_views(list@);
        let ghost added = BlobView { name: name@, content: content@ };
        list.push(NamedBlob { name, content });
        proof {
            assert(blob_views(list@) =~= listed.push(added));
            lemma_lists_push(listed, pending.remove(added.name), added);
            lemma_lists_own_map(blob_views(list@));
            lemma_lists_one_map(
                blob_views(list@),
                blob_map(blob_views(list@)),
                pending.remove(added.name).insert(added.name, added.content),
            );
            assert(pending.remove(added.name).insert(added.name, added.content) =~= pending.insert(
                added.name,
                added.content,
            ));
        }
        core::mem::swap(&mut self.list, &mut list);
    }

    /// Takes away what is under `name`, if anything is.
    pub fn remove(&mut self, name: &String)
        ensures
            final(self)@ == old(self)@.remove(name@),
    {
        proof {
            use_type_invariant(&*self);
        }
        let mut list: Vec<NamedBlob> = Vec::new();
        core::mem::swap(&mut self.list, &mut list);
        let ghost pending = blob_map(blob_views(list@));
        proof {
            lemma_lists_own_map(blob_views(list@));
        }
        match find_blob(&list, name) {
            Some(at) => {
                let ghost listed = blob_views(list@);
                list.remove(at);
                proof {
                    assert(blob_views(list@) =~= listed.remove(at as int));
                    lemma_lists_remove(listed, pending, at as int);
                    lemma_lists_own_map(blob_views(list@));
                    lemma_lists_one_map(
                        blob_views(list@),
                        blob_map(blob_views(list@)),
                        pending.remove(name@),
                    );
                }
            },
            None => {
                proof {
                    lemma_lists_absent(blob_views(list@), pending, name@);
                }
            },
        }
        core::mem::swap(&mut self.list, &mut list);
    }

    /// A copy of every blob, each name once.
    pub fn list(&self) -> (copies: Vec<NamedBlob>)
        ensures
            lists(blob_views(copies@), self@),
    {
        proof {
            use_type_invariant(self);
            lemma_lists_own_map(blob_views(self.list@));
        }
        let mut copies: Vec<NamedBlob> = Vec::new();
        let mut at: usize = 0;
        while at < self.list.len()
            invariant
                at <= self.list@.len(),
                blob_views(copies@) == blob_views(self.list@.take(at as int)),
            decreases self.list@.len() - at,
        {
            let ghost before = copies@;
            let copy = NamedBlob {
                name: self.list[at].name.clone(),
                content: self.list[at].content.clone(),
            };
            assert(copy.content@ =~= self.list@[at as int].content@);
            copies.push(copy);
            proof {
                let all = self.list@;
                assert(all.take(at + 1) =~= all.take(at as int).push(all[at as int]));
                assert(blob_views(copies@) =~= blob_views(before).push(copy@));
                assert(blob_views(all.take(at + 1)) =~= blob_views(all.take(at as int)).push(
                    all[at as int]@,
                ));
            }
            at += 1;
        }
        assert(self.list@.take(self.list@.len() as int) =~= self.list@);
        copies
    }
}

} // verus!
