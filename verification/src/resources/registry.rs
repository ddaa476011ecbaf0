//! The registry of known resources and the registry of pending queries.

use vstd::prelude::*;
use std::sync::Arc;
use std::sync::atomic::AtomicBool;
use crate::idmap::IdMap;
use crate::resources::ResourceHeader;
use crate::resources::factory::QueryID;
use crate::resources::resource::ResourceID;

verus! {

/// Where a resource is in its life.
#[derive(Debug)]
pub enum ResourceState {
    /// Raw bytes, not parsed yet.
    Raw(Vec<u8>),
    /// Parsed by its factory, at the given address.
    Loaded(usize),
    /// Released by its factory.
    Freed,
}

/// Everything the registry keeps about one resource.
pub struct ResourceRegistryItem {
    pub header: ResourceHeader,
    pub state: ResourceState,
    /// Whether a handle to the loaded resource is out.
    pub in_use: Arc<AtomicBool>,
}

/// The resources known to the loader, by identifier.
pub struct ResourcesRegistry(IdMap<ResourceRegistryItem>);

impl ResourcesRegistry {
    /// The resources by identifier.
    pub closed spec fn view(&self) -> Map<Seq<char>, ResourceRegistryItem> {
        self.0.view()
    }

    /// The identifiers in registration order.
    pub closed spec fn key_seq(&self) -> Seq<Seq<char>> {
        self.0.entries_seq().map_values(|e: (String, ResourceRegistryItem)| e.0@)
    }

    pub closed spec fn wf(&self) -> bool {
        self.0.wf()
    }

    /// The identifiers in registration order are exactly the registered
    /// ones, each once.
    pub proof fn lemma_keys(&self)
        requires
            self.wf(),
        ensures
            forall|k: Seq<char>|
                #![trigger self.view().contains_key(k)]
                self.view().contains_key(k) <==> self.key_seq().contains(k),
            self.key_seq().no_duplicates(),
            self.view().dom().finite(),
    {
        self.0.lemma_view();
        let s = self.0.entries_seq();
        assert forall|k: Seq<char>| #![trigger self.view().contains_key(k)]
            self.view().contains_key(k) <==> self.key_seq().contains(k) by {
            if self.view().contains_key(k) {
                let i = choose|i: int| 0 <= i < s.len() && s[i].0@ == k;
                assert(self.key_seq()[i] == k);
            }
            if self.key_seq().contains(k) {
                let i = choose|i: int| 0 <= i < self.key_seq().len() && self.key_seq()[i] == k;
                assert(s[i].0@ == k);
            }
        }
        assert forall|i: int, j: int|
            0 <= i < self.key_seq().len() && 0 <= j < self.key_seq().len() && i != j implies self.key_seq()[i]
            != self.key_seq()[j] by {
            assert(self.key_seq()[i] == s[i].0@ && self.key_seq()[j] == s[j].0@);
        }
    }

    pub fn new() -> (r: ResourcesRegistry)
        ensures
            r.wf(),
            r.view() == Map::<Seq<char>, ResourceRegistryItem>::empty(),
    {
        ResourcesRegistry(IdMap::new())
    }

    /// Registers a resource in its raw state, not in use; a resource
    /// registered before under the same identifier is replaced.
    pub fn push(&mut self, id: ResourceID, raw: Vec<u8>, header: ResourceHeader)
        requires
            old(self).wf(),
        ensures
            final(self).wf(),
            final(self).view().dom() == old(self).view().dom().insert(id@),
            final(self).view()[id@].header == header,
            final(self).view()[id@].state == ResourceState::Raw(raw),
            forall|k: Seq<char>|
                k != id@ && old(self).view().contains_key(k) ==> #[trigger] final(self).view()[k]
                    == old(self).view()[k],
    {
        let item = ResourceRegistryItem {
            header,
            state: ResourceState::Raw(raw),
            in_use: Arc::new(AtomicBool::new(false)),
        };
        let key = id.as_string().clone();
        self.0.insert(key, item);
    }

    /// The resource registered under `id`.
    pub fn get(&self, id: &ResourceID) -> (r: Option<&ResourceRegistryItem>)
        requires
            self.wf(),
        ensures
            r matches Some(c) ==> self.view().contains_key(id@) && *c == self.view()[id@],
            r is None ==> !self.view().contains_key(id@),
    {
        self.0.get(id.as_string())
    }

    /// The resource registered under `id`, for modification in place.
    pub fn get_mut(&mut self, id: &ResourceID) -> (r: Option<&mut ResourceRegistryItem>)
        requires
            old(self).wf(),
        ensures
            final(self).wf(),
            final(self).key_seq().len() == old(self).key_seq().len(),
            forall|i: int|
                0 <= i < final(self).key_seq().len() ==> #[trigger] final(self).key_seq()[i] == old(
                    self,
                ).key_seq()[i],
            match r {
                Some(c) => {
                    &&& old(self).view().contains_key(id@)
                    &&& *c == old(self).view()[id@]
                    &&& final(self).view() == old(self).view().insert(id@, *final(c))
                },
                None => !old(self).view().contains_key(id@) && final(self).view() == old(
                    self,
                ).view(),
            },
    {
        self.0.get_mut(id.as_string())
    }

    /// The registered identifiers, in registration order.
    pub fn keys(&self) -> (r: Vec<ResourceID>)
        requires
            self.wf(),
        ensures
            r@.map_values(|a: ResourceID| a@) == self.key_seq(),
    {
        let names = self.0.keys();
        let mut out: Vec<ResourceID> = Vec::new();
        let mut i: usize = 0;
        while i < names.len()
            invariant
                0 <= i <= names.len(),
                names@.len() == self.0.entries_seq().len(),
                forall|j: int| 0 <= j < names@.len() ==> #[trigger] names@[j] == self.0.entries_seq()[j].0,
                out@.len() == i,
                forall|j: int| 0 <= j < i ==> (#[trigger] out@[j])@ == names@[j]@,
            decreases names.len() - i,
        {
            out.push(ResourceID::new(names[i].clone()));
            i = i + 1;
        }
        assert(out@.map_values(|a: ResourceID| a@) =~= self.key_seq());
        out
    }

    /// Whether every registered resource is loaded.
    pub fn all_loaded(&self) -> (r: bool)
        requires
            self.wf(),
        ensures
            r == forall|k: Seq<char>|
                #[trigger] self.view().contains_key(k) ==> self.view()[k].state is Loaded,
    {
        proof {
            self.0.lemma_view();
        }
        let entries = self.0.entries();
        let mut i: usize = 0;
        while i < entries.len()
            invariant
                0 <= i <= entries.len(),
                entries@ == self.0.entries_seq(),
                self.wf(),
                forall|j: int| 0 <= j < i ==> (#[trigger] entries@[j]).1.state is Loaded,
            decreases entries.len() - i,
        {
            if !matches!(entries[i].1.state, ResourceState::Loaded(_)) {
                proof {
                    self.0.lemma_view();
                    assert(self.view().contains_key(entries@[i as int].0@));
                }
                return false;
            }
            i = i + 1;
        }
        proof {
            assert forall|k: Seq<char>| #[trigger] self.view().contains_key(k) implies self.view()[
                k].state is Loaded by {
                let j = choose|j: int| 0 <= j < entries@.len() && entries@[j].0@ == k;
            }
        }
        true
    }

    /// Whether every registered resource is freed.
    pub fn all_freed(&self) -> (r: bool)
        requires
            self.wf(),
        ensures
            r == forall|k: Seq<char>|
                #[trigger] self.view().contains_key(k) ==> self.view()[k].state is Freed,
    {
        proof {
            self.0.lemma_view();
        }
        let entries = self.0.entries();
        let mut i: usize = 0;
        while i < entries.len()
            invariant
                0 <= i <= entries.len(),
                entries@ == self.0.entries_seq(),
                self.wf(),
                forall|j: int| 0 <= j < i ==> (#[trigger] entries@[j]).1.state is Freed,
            decreases entries.len() - i,
        {
            if !matches!(entries[i].1.state, ResourceState::Freed) {
                proof {
                    self.0.lemma_view();
                    assert(self.view().contains_key(entries@[i as int].0@));
                }
                return false;
            }
            i = i + 1;
        }
        proof {
            assert forall|k: Seq<char>| #[trigger] self.view().contains_key(k) implies self.view()[
                k].state is Freed by {
                let j = choose|j: int| 0 <= j < entries@.len() && entries@[j].0@ == k;
            }
        }
        true
    }
}

/// The queries sent to factories and not answered yet, each once, in the
/// order they were sent.
pub struct QueriesRegistry {
    queries: Vec<QueryID>,
}

impl QueriesRegistry {
    pub closed spec fn view(&self) -> Seq<QueryID> {
        self.queries@
    }

    pub fn new() -> (r: QueriesRegistry)
        ensures
            r@ == Seq::<QueryID>::empty(),
    {
        QueriesRegistry { queries: Vec::new() }
    }

    /// Whether the query is pending.
    pub fn contains(&self, query_id: QueryID) -> (r: bool)
        ensures
            r == self@.contains(query_id),
    {
        let mut i: usize = 0;
        while i < self.queries.len()
            invariant
                0 <= i <= self.queries.len(),
                forall|j: int| 0 <= j < i ==> self.queries@[j] != query_id,
            decreases self.queries.len() - i,
        {
            if self.queries[i] == query_id {
                return true;
            }
            i = i + 1;
        }
        false
    }

    /// Records a pending query, unless it is already pending.
    pub fn add_query(&mut self, query_id: QueryID)
        ensures
            old(self)@.contains(query_id) ==> final(self)@ == old(self)@,
            !old(self)@.contains(query_id) ==> final(self)@ == old(self)@.push(query_id),
    {
        if !self.contains(query_id) {
            self.queries.push(query_id);
        }
    }

    /// Forgets the first occurrence of a pending query, if it is pending.
    pub fn remove_query(&mut self, query_id: &QueryID)
        ensures
            !old(self)@.contains(*query_id) ==> final(self)@ == old(self)@,
            old(self)@.contains(*query_id) ==> exists|p: int|
                0 <= p < old(self)@.len() && old(self)@[p] == *query_id && (forall|j: int|
                    0 <= j < p ==> old(self)@[j] != *query_id) && final(self)@ == old(
                    self,
                )@.remove(p),
    {
        let mut i: usize = 0;
        while i < self.queries.len()
            invariant
                0 <= i <= self.queries.len(),
                self.queries@ == old(self).queries@,
                forall|j: int| 0 <= j < i ==> self.queries@[j] != *query_id,
            decreases self.queries.len() - i,
        {
            if self.queries[i] == *query_id {
                self.queries.remove(i);
                return;
            }
            i = i + 1;
        }
    }
}

/// A pending-query list never holds a query twice: adding keeps it so, and
/// removing a query from such a list leaves it no longer pending.
pub proof fn law_resource_queries_unique(before: Seq<QueryID>, q: QueryID, added: Seq<QueryID>)
    requires
        before.no_duplicates(),
        before.contains(q) ==> added == before,
        !before.contains(q) ==> added == before.push(q),
    ensures
        added.no_duplicates(),
        added.contains(q),
{
    if !before.contains(q) {
        assert(added[added.len() - 1] == q);
        assert forall|i: int, j: int|
            0 <= i < added.len() && 0 <= j < added.len() && i != j implies added[i] != added[j] by {
            if i < before.len() && j < before.len() {
                assert(added[i] == before[i] && added[j] == before[j]);
            } else if i < before.len() {
                assert(added[i] == before[i]);
            } else {
                assert(added[j] == before[j]);
            }
        }
    }
}

/// Removing a pending query from a list without duplicates leaves it no
/// longer pending and keeps the others.
pub proof fn law_remove_resource_query(before: Seq<QueryID>, q: QueryID, p: int)
    requires
        before.no_duplicates(),
        0 <= p < before.len(),
        before[p] == q,
    ensures
        !before.remove(p).contains(q),
        before.remove(p).no_duplicates(),
        forall|x: QueryID| x != q ==> (before.contains(x) <==> #[trigger] before.remove(p).contains(x)),
{
    let r = before.remove(p);
    assert forall|i: int| 0 <= i < r.len() implies r[i] != q by {
        if i < p {
            assert(r[i] == before[i]);
        } else {
            assert(r[i] == before[i + 1]);
        }
    }
    assert forall|x: QueryID| x != q implies (before.contains(x) <==> #[trigger] r.contains(x)) by {
        if before.contains(x) {
            let i = choose|i: int| 0 <= i < before.len() && before[i] == x;
            if i < p {
                assert(r[i] == x);
            } else {
                assert(i != p);
                assert(r[i - 1] == x);
            }
        }
        if r.contains(x) {
            let i = choose|i: int| 0 <= i < r.len() && r[i] == x;
            if i < p {
                assert(before[i] == x);
            } else {
                assert(before[i + 1] == x);
            }
        }
    }
    assert forall|i: int, j: int|
        0 <= i < r.len() && 0 <= j < r.len() && i != j implies r[i] != r[j] by {
        let bi = if i < p { i } else { i + 1 };
        let bj = if j < p { j } else { j + 1 };
        assert(r[i] == before[bi] && r[j] == before[bj]);
    }
}

} // verus!
