//! Requests kept for later, by connection and identifier.
//!
//! The store keeps at most one request under each key. Keys are compared by
//! value: the same connection and the same identifier.

use vstd::prelude::*;
use vstd::pervasive::VecAdditionalExecFns;
use crate::request::ServerRq;
use crate::types::{Id, IdView};

verus! {

/// The key under which a request is kept: its connection and its identifier.
#[derive(Debug, PartialEq, Eq)]
pub struct PendingKey {
    pub connection: u64,
    pub id: Id,
}

/// What a [`PendingKey`] is, as a mathematical value.
pub struct PendingKeyView {
    pub connection: u64,
    pub id: IdView,
}

impl View for PendingKey {
    type V = PendingKeyView;

    open spec fn view(&self) -> PendingKeyView {
        PendingKeyView { connection: self.connection, id: self.id@ }
    }
}

impl PendingKey {
    /// Whether two keys denote the same connection and identifier.
    pub fn same(&self, other: &PendingKey) -> (r: bool)
        ensures
            r == (self@ == other@),
    {
        self.connection == other.connection && self.id.same(&other.id)
    }

    /// An independent copy of this key.
    pub fn duplicate(&self) -> (r: PendingKey)
        ensures
            r == *self,
    {
        PendingKey { connection: self.connection, id: self.id.duplicate() }
    }
}

/// A request together with the key it is kept under.
#[derive(Debug, PartialEq, Eq)]
pub struct PendingEntry {
    pub key: PendingKey,
    pub request: ServerRq,
}

/// The receipt for a request that was kept for later: the key to ask for it.
#[derive(Debug, PartialEq, Eq)]
pub struct PendingTicket {
    pub key: PendingKey,
}

/// Whether entry `position` of `entries` stands under `key`.
pub open spec fn holds_at(entries: Seq<PendingEntry>, key: PendingKeyView, position: int) -> bool {
    0 <= position < entries.len() && entries[position].key@ == key
}

/// Whether no two entries stand under the same key.
pub open spec fn distinct_keys(entries: Seq<PendingEntry>) -> bool {
    forall|i: int, j: int|
        0 <= i < j < entries.len() ==> (#[trigger] entries[i]).key@ != (#[trigger] entries[j]).key@
}

/// The requests of `entries`, by their keys.
pub open spec fn contents(entries: Seq<PendingEntry>) -> Map<PendingKeyView, ServerRq> {
    Map::new(
        |key: PendingKeyView| exists|i: int| holds_at(entries, key, i),
        |key: PendingKeyView| entries[choose|i: int| holds_at(entries, key, i)].request,
    )
}

/// The kept requests that did not come over `connection`.
pub open spec fn without_connection(
    kept: Map<PendingKeyView, ServerRq>,
    connection: u64,
) -> Map<PendingKeyView, ServerRq> {
    Map::new(
        |key: PendingKeyView| kept.contains_key(key) && key.connection != connection,
        |key: PendingKeyView| kept[key],
    )
}

/// Whether `evicted` are exactly the requests that `kept` holds for
/// `connection`, each once, with their keys.
pub open spec fn evicted_from(
    kept: Map<PendingKeyView, ServerRq>,
    connection: u64,
    evicted: Seq<PendingEntry>,
) -> bool {
    &&& distinct_keys(evicted)
    &&& forall|i: int|
        0 <= i < evicted.len() ==> {
            &&& (#[trigger] evicted[i]).key.connection == connection
            &&& kept.contains_key(evicted[i].key@)
            &&& kept[evicted[i].key@] == evicted[i].request
        }
    &&& forall|key: PendingKeyView|
        #[trigger] kept.contains_key(key) && key.connection == connection ==> exists|i: int|
            holds_at(evicted, key, i)
}

/// Whether `evicted` are exactly the requests that `kept` holds, each once,
/// with their keys.
pub open spec fn evicted_all(kept: Map<PendingKeyView, ServerRq>, evicted: Seq<PendingEntry>) -> bool {
    &&& distinct_keys(evicted)
    &&& forall|i: int|
        0 <= i < evicted.len() ==> {
            &&& kept.contains_key((#[trigger] evicted[i]).key@)
            &&& kept[evicted[i].key@] == evicted[i].request
        }
    &&& forall|key: PendingKeyView| #[trigger]
        kept.contains_key(key) ==> exists|i: int| holds_at(evicted, key, i)
}

/// With distinct keys, every entry is found under its own key, and every key
/// that is found belongs to an entry.
pub proof fn lemma_contents(entries: Seq<PendingEntry>)
    requires
        distinct_keys(entries),
    ensures
        forall|i: int|
            0 <= i < entries.len() ==> {
                &&& contents(entries).contains_key((#[trigger] entries[i]).key@)
                &&& contents(entries)[entries[i].key@] == entries[i].request
            },
        forall|key: PendingKeyView| #[trigger]
            contents(entries).contains_key(key) ==> exists|i: int| holds_at(entries, key, i),
{
    assert forall|i: int| 0 <= i < entries.len() implies {
        &&& contents(entries).contains_key((#[trigger] entries[i]).key@)
        &&& contents(entries)[entries[i].key@] == entries[i].request
    } by {
        let key = entries[i].key@;
        assert(holds_at(entries, key, i));
        let chosen = choose|j: int| holds_at(entries, key, j);
        assert(holds_at(entries, key, chosen));
        if chosen < i {
            assert(entries[chosen].key@ != entries[i].key@);
        } else if i < chosen {
            assert(entries[i].key@ != entries[chosen].key@);
        }
    }
}

/// The store of requests that wait to be asked for.
pub struct PendingRequestStore {
    entries: Vec<PendingEntry>,
}

impl View for PendingRequestStore {
    type V = Map<PendingKeyView, ServerRq>;

    closed spec fn view(&self) -> Map<PendingKeyView, ServerRq> {
        contents(self.entries@)
    }
}

impl PendingRequestStore {
    /// The invariant of the store: no two entries stand under the same key.
    pub closed spec fn wf(&self) -> bool {
        distinct_keys(self.entries@)
    }

    /// A store that keeps nothing.
    pub fn new() -> (r: Self)
        ensures
            r.wf(),
            r@ == Map::<PendingKeyView, ServerRq>::empty(),
    {
        let r = PendingRequestStore { entries: Vec::new() };
        assert(r@ =~= Map::<PendingKeyView, ServerRq>::empty());
        r
    }

    /// The place of the entry under `key`, if there is one.
    fn find(&self, key: &PendingKey) -> (r: Option<usize>)
        ensures
            match r {
                Some(position) => holds_at(self.entries@, key@, position as int),
                None => forall|i: int| !holds_at(self.entries@, key@, i),
            },
    {
        let mut i: usize = 0;
        while i < self.entries.len()
            invariant
                i <= self.entries@.len(),
                forall|j: int| 0 <= j < i ==> !holds_at(self.entries@, key@, j),
            decreases self.entries@.len() - i,
        {
            if self.entries[i].key.same(key) {
                return Some(i);
            }
            i = i + 1;
        }
        None
    }

    /// Whether a request is kept under `key`.
    pub fn contains(&self, key: &PendingKey) -> (r: bool)
        requires
            self.wf(),
        ensures
            r == self@.contains_key(key@),
    {
        proof {
            lemma_contents(self.entries@);
        }
        let found = self.find(key);
        proof {
            if let Some(position) = found {
                assert(self.entries@[position as int].key@ == key@);
            }
        }
        found.is_some()
    }

    /// Keeps `request` under `key`. A request that was kept under the same
    /// key before gives way and is handed back.
    pub fn insert(&mut self, key: PendingKey, request: ServerRq) -> (displaced: Option<ServerRq>)
        requires
            old(self).wf(),
        ensures
            final(self).wf(),
            final(self)@ == old(self)@.insert(key@, request),
            displaced == if old(self)@.contains_key(key@) {
                Some(old(self)@[key@])
            } else {
                None::<ServerRq>
            },
    {
        let ghost before = self.entries@;
        proof {
            lemma_contents(before);
        }
        let found = self.find(&key);
        let mut entry = PendingEntry { key, request };
        match found {
            Some(position) => {
                self.entries.set_and_swap(position, &mut entry);
                proof {
                    let after = self.entries@;
                    assert(before[position as int].key@ == key@);
                    assert forall|i: int, j: int| 0 <= i < j < after.len() implies (
                    #[trigger] after[i]).key@ != (#[trigger] after[j]).key@ by {
                        assert(after[i].key@ == before[i].key@);
                        assert(after[j].key@ == before[j].key@);
                    }
                    lemma_contents(after);
                    assert(after[position as int].key@ == key@);
                    assert forall|k: PendingKeyView|
                        contents(after).contains_key(k) <==> contents(before).insert(
                            key@,
                            request,
                        ).contains_key(k) by {
                        if contents(after).contains_key(k) {
                            let i = choose|i: int| holds_at(after, k, i);
                            assert(after[i].key@ == before[i].key@);
                        }
                        if contents(before).contains_key(k) {
                            let i = choose|i: int| holds_at(before, k, i);
                            assert(after[i].key@ == before[i].key@);
                            assert(holds_at(after, k, i));
                        }
                    }
                    assert forall|k: PendingKeyView|
                        contents(after).contains_key(k) implies contents(after)[k] == contents(
                        before,
                    ).insert(key@, request)[k] by {
                        let i = choose|i: int| holds_at(after, k, i);
                        if i != position {
                            assert(after[i] == before[i]);
                        }
                    }
                    assert(contents(after) =~= contents(before).insert(key@, request));
                }
                Some(entry.request)
            },
            None => {
                self.entries.push(entry);
                proof {
                    let after = self.entries@;
                    assert forall|i: int, j: int| 0 <= i < j < after.len() implies (
                    #[trigger] after[i]).key@ != (#[trigger] after[j]).key@ by {
                        assert(after[i] == before[i]);
                        if j < before.len() {
                            assert(after[j] == before[j]);
                        } else {
                            assert(!holds_at(before, key@, i));
                        }
                    }
                    lemma_contents(after);
                    assert(after[before.len() as int].key@ == key@);
                    assert forall|k: PendingKeyView|
                        contents(after).contains_key(k) <==> contents(before).insert(
                            key@,
                            request,
                        ).contains_key(k) by {
                        if contents(after).contains_key(k) {
                            let i = choose|i: int| holds_at(after, k, i);
                            if i < before.len() {
                                assert(after[i] == before[i]);
                                assert(holds_at(before, k, i));
                            }
                        }
                        if contents(before).contains_key(k) {
                            let i = choose|i: int| holds_at(before, k, i);
                            assert(after[i] == before[i]);
                            assert(holds_at(after, k, i));
                        }
                    }
                    assert forall|k: PendingKeyView|
                        contents(after).contains_key(k) implies contents(after)[k] == contents(
                        before,
                    ).insert(key@, request)[k] by {
                        let i = choose|i: int| holds_at(after, k, i);
                        if i < before.len() {
                            assert(after[i] == before[i]);
                            assert(holds_at(before, k, i));
                        }
                    }
                    assert(contents(after) =~= contents(before).insert(key@, request));
                    assert(!contents(before).contains_key(key@)) by {
                        if contents(before).contains_key(key@) {
                            let i = choose|i: int| holds_at(before, key@, i);
                            assert(holds_at(before, key@, i));
                        }
                    }
                }
                None
            },
        }
    }

    /// Takes the request kept under `key` out of the store. A second taking
    /// under the same key finds nothing.
    pub fn take(&mut self, key: &PendingKey) -> (r: Option<ServerRq>)
        requires
            old(self).wf(),
        ensures
            final(self).wf(),
            final(self)@ == old(self)@.remove(key@),
            r == if old(self)@.contains_key(key@) {
                Some(old(self)@[key@])
            } else {
                None::<ServerRq>
            },
    {
        let ghost before = self.entries@;
        proof {
            lemma_contents(before);
        }
        match self.find(key) {
            Some(position) => {
                let entry = self.entries.remove(position);
                proof {
                    let after = self.entries@;
                    lemma_removed(before, position as int);
                    assert(before[position as int].key@ == key@);
                    assert(contents(after) =~= contents(before).remove(key@));
                }
                Some(entry.request)
            },
            None => {
                proof {
                    assert(!contents(before).contains_key(key@)) by {
                        if contents(before).contains_key(key@) {
                            let i = choose|i: int| holds_at(before, key@, i);
                            assert(holds_at(before, key@, i));
                        }
                    }
                    assert(contents(before) =~= contents(before).remove(key@));
                }
                None
            },
        }
    }

    /// Takes every request out of the store and hands them out with their
    /// keys.
    pub fn evict_all(&mut self) -> (evicted: Vec<PendingEntry>)
        requires
            old(self).wf(),
        ensures
            final(self).wf(),
            final(self)@ == Map::<PendingKeyView, ServerRq>::empty(),
            evicted_all(old(self)@, evicted@),
    {
        let mut evicted: Vec<PendingEntry> = Vec::new();
        core::mem::swap(&mut self.entries, &mut evicted);
        proof {
            lemma_contents(evicted@);
            assert(self@ =~= Map::<PendingKeyView, ServerRq>::empty());
        }
        evicted
    }

    /// Takes every request that came over `connection` out of the store and
    /// hands them out with their keys.
    pub fn evict_for_connection(&mut self, connection: u64) -> (evicted: Vec<PendingEntry>)
        requires
            old(self).wf(),
        ensures
            final(self).wf(),
            final(self)@ == without_connection(old(self)@, connection),
            evicted_from(old(self)@, connection, evicted@),
    {
        let ghost before = contents(self.entries@);
        let mut evicted: Vec<PendingEntry> = Vec::new();
        let mut i: usize = 0;
        proof {
            lemma_contents(self.entries@);
        }
        while i < self.entries.len()
            invariant
                i <= self.entries@.len(),
                distinct_keys(self.entries@),
                distinct_keys(evicted@),
                forall|j: int| 0 <= j < i ==> (#[trigger] self.entries@[j]).key.connection != connection,
                forall|j: int|
                    0 <= j < evicted@.len() ==> {
                        &&& (#[trigger] evicted@[j]).key.connection == connection
                        &&& before.contains_key(evicted@[j].key@)
                        &&& before[evicted@[j].key@] == evicted@[j].request
                        &&& !contents(self.entries@).contains_key(evicted@[j].key@)
                    },
                forall|key: PendingKeyView| #[trigger]
                    contents(self.entries@).contains_key(key) ==> before.contains_key(key)
                        && before[key] == contents(self.entries@)[key],
                forall|key: PendingKeyView| #[trigger]
                    before.contains_key(key) ==> contents(self.entries@).contains_key(key) || (
                    exists|j: int| holds_at(evicted@, key, j)),
            decreases self.entries@.len() - i,
        {
            if self.entries[i].key.connection == connection {
                let ghost current = self.entries@;
                let ghost taken = evicted@;
                let entry = self.entries.remove(i);
                proof {
                    lemma_contents(current);
                    lemma_removed(current, i as int);
                    let after = self.entries@;
                    assert forall|j: int| 0 <= j < i implies (#[trigger] after[j]).key.connection
                        != connection by {
                        assert(after[j] == current[j]);
                    }
                    assert(contents(current).contains_key(entry.key@));
                    assert forall|a: int, b: int| 0 <= a < b < taken.push(entry).len() implies (
                    #[trigger] taken.push(entry)[a]).key@ != (#[trigger] taken.push(
                        entry,
                    )[b]).key@ by {
                        if b == taken.len() {
                            assert(!contents(current).contains_key(taken[a].key@));
                        }
                    }
                    assert forall|key: PendingKeyView| #[trigger]
                        before.contains_key(key) implies contents(after).contains_key(key) || (
                    exists|j: int| holds_at(taken.push(entry), key, j)) by {
                        if contents(current).contains_key(key) {
                            if key == entry.key@ {
                                assert(holds_at(taken.push(entry), key, taken.len() as int));
                            }
                        } else {
                            let j = choose|j: int| holds_at(taken, key, j);
                            assert(holds_at(taken.push(entry), key, j));
                        }
                    }
                }
                evicted.push(entry);
            } else {
                i = i + 1;
            }
        }
        proof {
            let after = self.entries@;
            lemma_contents(after);
            assert forall|key: PendingKeyView|
                contents(after).contains_key(key) <==> without_connection(
                    before,
                    connection,
                ).contains_key(key) by {
                if contents(after).contains_key(key) {
                    let j = choose|j: int| holds_at(after, key, j);
                    assert(after[j].key.connection != connection);
                }
                if before.contains_key(key) && key.connection != connection {
                    if !contents(after).contains_key(key) {
                        let j = choose|j: int| holds_at(evicted@, key, j);
                        assert(evicted@[j].key.connection == connection);
                    }
                }
            }
            assert(contents(after) =~= without_connection(before, connection));
        }
        evicted
    }
}

/// Taking one entry out of entries with distinct keys removes exactly its
/// key from the contents.
pub proof fn lemma_removed(entries: Seq<PendingEntry>, position: int)
    requires
        distinct_keys(entries),
        0 <= position < entries.len(),
    ensures
        distinct_keys(entries.remove(position)),
        contents(entries.remove(position)) == contents(entries).remove(entries[position].key@),
{
    let after = entries.remove(position);
    let key = entries[position].key@;
    assert forall|i: int, j: int| 0 <= i < j < after.len() implies (#[trigger] after[i]).key@ != (
    #[trigger] after[j]).key@ by {
        let a = if i < position { i } else { i + 1 };
        let b = if j < position { j } else { j + 1 };
        assert(after[i] == entries[a]);
        assert(after[j] == entries[b]);
    }
    lemma_contents(entries);
    lemma_contents(after);
    assert forall|k: PendingKeyView|
        contents(after).contains_key(k) <==> contents(entries).remove(key).contains_key(k) by {
        if contents(after).contains_key(k) {
            let i = choose|i: int| holds_at(after, k, i);
            let a = if i < position { i } else { i + 1 };
            assert(after[i] == entries[a]);
            assert(holds_at(entries, k, a));
            if a < position {
                assert(entries[a].key@ != entries[position].key@);
            } else {
                assert(entries[position].key@ != entries[a].key@);
            }
        }
        if contents(entries).contains_key(k) && k != key {
            let a = choose|a: int| holds_at(entries, k, a);
            let i = if a < position { a } else { a - 1 };
            assert(after[i] == entries[a]);
            assert(holds_at(after, k, i));
        }
    }
    assert forall|k: PendingKeyView| contents(after).contains_key(k) implies contents(after)[k]
        == contents(entries).remove(key)[k] by {
        let i = choose|i: int| holds_at(after, k, i);
        let a = if i < position { i } else { i + 1 };
        assert(after[i] == entries[a]);
        assert(holds_at(entries, k, a));
    }
    assert(contents(after) =~= contents(entries).remove(key));
}

} // verus!
