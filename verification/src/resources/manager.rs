//! The resource manager: the catalogue of resources a backend enumerates,
//! kept up to date by polling, and parsed on demand by the factory of each
//! resource type.
//!
//! Each resource is known by its type and identifier, in the order it was
//! first seen; polling adds new resources unloaded and marks resources
//! whose header changed as stale.

use vstd::prelude::*;
use crate::resources::{ResourceHeader, ResourceType};

verus! {

/// Where the manager reads resources from; implemented by the user.
pub trait ResourceManagerIO {
    /// Whether the resources changed since they were last enumerated.
    fn has_updates(&self) -> bool;

    /// Every resource, by identifier, with its header.
    fn enumerate_resources(&mut self) -> Result<Vec<(String, ResourceHeader)>, String>;

    /// The raw bytes of a resource.
    fn load(&mut self, id: String) -> Result<Vec<u8>, String>;
}

/// What a manager is made from: its backend.
pub struct ResourceManagerConfig<B> {
    pub backend: B,
}

/// Turns the raw bytes of one resource type into resources and releases
/// them; implemented by the user.
pub trait ResourceFactory {
    type Resource;

    fn parse(&self, header: &ResourceHeader, raw: &[u8]) -> Result<Self::Resource, String>;

    fn finalize(&self, header: &ResourceHeader, resource: &Self::Resource) -> Result<(), String>;
}

/// A resource's data.
#[derive(Debug)]
pub enum ResourceData<R> {
    /// No data loaded.
    Unloaded,
    /// Parsed and ready for use.
    Parsed(R),
}

/// One known resource.
#[derive(Debug)]
pub struct ResourceEntry<R> {
    pub resource_type: ResourceType,
    pub id: String,
    pub header: ResourceHeader,
    pub data: ResourceData<R>,
    /// Whether the data was parsed from the current header.
    pub fresh: bool,
}

#[derive(Debug, Clone, PartialEq, Eq)]
pub enum ResourceManagerLoadError {
    IOError(String),
}

#[derive(Debug, Clone, PartialEq, Eq)]
pub enum ResourceManagerGetError {
    ResourceNotFound,
    NoSuitableFactory,
    NoRawDataLoaded,
    ParserFailed(String),
}

#[derive(Debug, Clone, PartialEq, Eq)]
pub enum ResourceManagerPollError {
    EnumerateFailed(String),
}

/// Index of the first entry of type `t` and identifier `id`.
pub open spec fn entry_index<R>(s: Seq<ResourceEntry<R>>, t: ResourceType, id: Seq<char>) -> Option<int>
    decreases s.len(),
{
    if s.len() == 0 {
        None
    } else {
        match entry_index(s.drop_last(), t, id) {
            Some(i) => Some(i),
            None => if s.last().resource_type == t && s.last().id@ == id {
                Some(s.len() - 1)
            } else {
                None
            },
        }
    }
}

/// No two entries share a type and an identifier.
pub open spec fn entries_unique<R>(s: Seq<ResourceEntry<R>>) -> bool {
    forall|i: int, j: int|
        0 <= i < j < s.len() ==> !((#[trigger] s[i]).resource_type == (#[trigger] s[j]).resource_type
            && s[i].id@ == s[j].id@)
}

/// The catalogue after one enumerated resource: a new one is added
/// unloaded and stale; a known one whose header changed takes the new
/// header and becomes stale. The flag says whether anything changed.
pub open spec fn merge_one<R>(s: Seq<ResourceEntry<R>>, id: String, header: ResourceHeader) -> (
    Seq<ResourceEntry<R>>,
    bool,
) {
    match entry_index(s, header.resource_type, id@) {
        None => (
            s.push(
                ResourceEntry {
                    resource_type: header.resource_type,
                    id,
                    header,
                    data: ResourceData::Unloaded,
                    fresh: false,
                },
            ),
            true,
        ),
        Some(i) => if s[i].header@ == header@ {
            (s, false)
        } else {
            (s.update(i, ResourceEntry { header, fresh: false, ..s[i] }), true)
        },
    }
}

/// The catalogue after every enumerated resource, in order.
pub open spec fn merge_all<R>(s: Seq<ResourceEntry<R>>, list: Seq<(String, ResourceHeader)>) -> (
    Seq<ResourceEntry<R>>,
    bool,
)
    decreases list.len(),
{
    if list.len() == 0 {
        (s, false)
    } else {
        let (s1, a1) = merge_all(s, list.drop_last());
        let (s2, a2) = merge_one(s1, list.last().0, list.last().1);
        (s2, a1 || a2)
    }
}

/// Index of the first entry whose header is named `name`.
pub open spec fn named_index<R>(s: Seq<ResourceEntry<R>>, name: Seq<char>) -> Option<int>
    decreases s.len(),
{
    if s.len() == 0 {
        None
    } else {
        match named_index(s.drop_last(), name) {
            Some(i) => Some(i),
            None => if s.last().header.name@ == name {
                Some(s.len() - 1)
            } else {
                None
            },
        }
    }
}

/// The factories' resource types, in registration order.
pub open spec fn factory_types<F>(f: Seq<(ResourceType, F)>) -> Seq<ResourceType> {
    f.map_values(|e: (ResourceType, F)| e.0)
}

proof fn lemma_entry_index<R>(s: Seq<ResourceEntry<R>>, t: ResourceType, id: Seq<char>)
    ensures
        entry_index(s, t, id) matches Some(i) ==> 0 <= i < s.len() && s[i].resource_type == t
            && s[i].id@ == id,
        entry_index(s, t, id) is None ==> forall|j: int|
            0 <= j < s.len() ==> !((#[trigger] s[j]).resource_type == t && s[j].id@ == id),
    decreases s.len(),
{
    if s.len() > 0 {
        lemma_entry_index(s.drop_last(), t, id);
        assert forall|j: int| 0 <= j < s.len() - 1 implies #[trigger] s[j] == s.drop_last()[j] by {}
    }
}

proof fn lemma_named_index<R>(s: Seq<ResourceEntry<R>>, name: Seq<char>)
    ensures
        named_index(s, name) matches Some(i) ==> 0 <= i < s.len() && s[i].header.name@ == name
            && forall|j: int| 0 <= j < i ==> (#[trigger] s[j]).header.name@ != name,
        named_index(s, name) is None ==> forall|j: int|
            0 <= j < s.len() ==> (#[trigger] s[j]).header.name@ != name,
    decreases s.len(),
{
    if s.len() > 0 {
        lemma_named_index(s.drop_last(), name);
        assert forall|j: int| 0 <= j < s.len() - 1 implies #[trigger] s[j] == s.drop_last()[j] by {}
    }
}

proof fn lemma_entry_index_first<R>(s: Seq<ResourceEntry<R>>, t: ResourceType, id: Seq<char>, i: int)
    requires
        0 <= i < s.len(),
        s[i].resource_type == t && s[i].id@ == id,
        forall|j: int| 0 <= j < i ==> !((#[trigger] s[j]).resource_type == t && s[j].id@ == id),
    ensures
        entry_index(s, t, id) == Some(i),
    decreases s.len(),
{
    if i < s.len() - 1 {
        assert forall|j: int| 0 <= j <= i implies #[trigger] s.drop_last()[j] == s[j] by {}
        lemma_entry_index_first(s.drop_last(), t, id, i);
    } else {
        assert forall|j: int| 0 <= j < s.len() - 1 implies #[trigger] s.drop_last()[j] == s[j] by {}
        lemma_entry_index(s.drop_last(), t, id);
    }
}

proof fn lemma_entry_index_absent<R>(s: Seq<ResourceEntry<R>>, t: ResourceType, id: Seq<char>)
    requires
        forall|j: int| 0 <= j < s.len() ==> !((#[trigger] s[j]).resource_type == t && s[j].id@ == id),
    ensures
        entry_index(s, t, id) is None,
    decreases s.len(),
{
    if s.len() > 0 {
        assert forall|j: int| 0 <= j < s.len() - 1 implies #[trigger] s.drop_last()[j] == s[j] by {}
        lemma_entry_index_absent(s.drop_last(), t, id);
    }
}

proof fn lemma_named_index_first<R>(s: Seq<ResourceEntry<R>>, name: Seq<char>, i: int)
    requires
        0 <= i < s.len(),
        s[i].header.name@ == name,
        forall|j: int| 0 <= j < i ==> (#[trigger] s[j]).header.name@ != name,
    ensures
        named_index(s, name) == Some(i),
    decreases s.len(),
{
    if i < s.len() - 1 {
        assert forall|j: int| 0 <= j <= i implies #[trigger] s.drop_last()[j] == s[j] by {}
        lemma_named_index_first(s.drop_last(), name, i);
    } else {
        assert forall|j: int| 0 <= j < s.len() - 1 implies #[trigger] s.drop_last()[j] == s[j] by {}
        lemma_named_index(s.drop_last(), name);
    }
}

proof fn lemma_named_index_absent<R>(s: Seq<ResourceEntry<R>>, name: Seq<char>)
    requires
        forall|j: int| 0 <= j < s.len() ==> (#[trigger] s[j]).header.name@ != name,
    ensures
        named_index(s, name) is None,
    decreases s.len(),
{
    if s.len() > 0 {
        assert forall|j: int| 0 <= j < s.len() - 1 implies #[trigger] s.drop_last()[j] == s[j] by {}
        lemma_named_index_absent(s.drop_last(), name);
    }
}

/// The type and identifier an enumerated resource is known by.
pub open spec fn item_key(item: (String, ResourceHeader)) -> (ResourceType, Seq<char>) {
    (item.1.resource_type, item.0@)
}

/// No two enumerated resources share a type and an identifier.
pub open spec fn items_unique(list: Seq<(String, ResourceHeader)>) -> bool {
    forall|i: int, j: int| 0 <= i < j < list.len() ==> item_key(#[trigger] list[i]) != item_key(#[trigger] list[j])
}

proof fn lemma_entry_index_update<R>(
    s: Seq<ResourceEntry<R>>,
    p: int,
    e: ResourceEntry<R>,
    t: ResourceType,
    id: Seq<char>,
)
    requires
        0 <= p < s.len(),
        e.resource_type == s[p].resource_type,
        e.id@ == s[p].id@,
    ensures
        entry_index(s.update(p, e), t, id) == entry_index(s, t, id),
    decreases s.len(),
{
    let u = s.update(p, e);
    if p < s.len() - 1 {
        assert(u.drop_last() =~= s.drop_last().update(p, e));
        lemma_entry_index_update(s.drop_last(), p, e, t, id);
        assert(u.last() == s.last());
    } else {
        assert(u.drop_last() =~= s.drop_last());
    }
}

/// Merging one resource leaves every other resource where it was, as it was.
proof fn lemma_merge_one_keeps_others<R>(
    s: Seq<ResourceEntry<R>>,
    id: String,
    header: ResourceHeader,
    t: ResourceType,
    k: Seq<char>,
)
    requires
        (t, k) != (header.resource_type, id@),
    ensures
        entry_index(merge_one(s, id, header).0, t, k) == entry_index(s, t, k),
        entry_index(s, t, k) matches Some(j) ==> merge_one(s, id, header).0[j] == s[j],
{
    lemma_entry_index(s, header.resource_type, id@);
    lemma_entry_index(s, t, k);
    match entry_index(s, header.resource_type, id@) {
        None => {
            let e = ResourceEntry {
                resource_type: header.resource_type,
                id,
                header,
                data: ResourceData::<R>::Unloaded,
                fresh: false,
            };
            assert(s.push(e).drop_last() =~= s);
        },
        Some(p) => {
            if s[p].header@ != header@ {
                lemma_entry_index_update(s, p, ResourceEntry { header, fresh: false, ..s[p] }, t, k);
            }
        },
    }
}

/// Merging a resource makes it known with the merged header.
proof fn lemma_merge_one_knows<R>(s: Seq<ResourceEntry<R>>, id: String, header: ResourceHeader)
    ensures
        entry_index(merge_one(s, id, header).0, header.resource_type, id@) matches Some(j)
            && merge_one(s, id, header).0[j].header@ == header@,
{
    lemma_entry_index(s, header.resource_type, id@);
    match entry_index(s, header.resource_type, id@) {
        None => {
            let e = ResourceEntry {
                resource_type: header.resource_type,
                id,
                header,
                data: ResourceData::<R>::Unloaded,
                fresh: false,
            };
            assert(s.push(e).drop_last() =~= s);
        },
        Some(p) => {
            if s[p].header@ != header@ {
                lemma_entry_index_update(
                    s,
                    p,
                    ResourceEntry { header, fresh: false, ..s[p] },
                    header.resource_type,
                    id@,
                );
            }
        },
    }
}

/// After a poll merges an enumeration of distinct resources, every
/// enumerated resource is known, with the header it was enumerated with.
pub proof fn law_polled_resources_known<R>(s: Seq<ResourceEntry<R>>, list: Seq<(String, ResourceHeader)>)
    requires
        items_unique(list),
    ensures
        forall|i: int|
            #![trigger list[i]]
            0 <= i < list.len() ==> (entry_index(merge_all(s, list).0, list[i].1.resource_type, list[i].0@)
                matches Some(j) && merge_all(s, list).0[j].header@ == list[i].1@),
    decreases list.len(),
{
    if list.len() > 0 {
        let init = list.drop_last();
        let x = list.last();
        assert(items_unique(init)) by {
            assert forall|i: int, j: int| 0 <= i < j < init.len() implies item_key(#[trigger] init[i]) != item_key(
                #[trigger] init[j],
            ) by {
                assert(init[i] == list[i] && init[j] == list[j]);
            }
        }
        law_polled_resources_known(s, init);
        let s1 = merge_all(s, init).0;
        lemma_merge_one_knows(s1, x.0, x.1);
        assert forall|i: int| #![trigger list[i]] 0 <= i < list.len() implies (entry_index(
            merge_all(s, list).0,
            list[i].1.resource_type,
            list[i].0@,
        ) matches Some(j) && merge_all(s, list).0[j].header@ == list[i].1@) by {
            if i < list.len() - 1 {
                assert(list[i] == init[i]);
                assert(item_key(list[i]) != item_key(list[list.len() - 1]));
                lemma_merge_one_keeps_others(s1, x.0, x.1, list[i].1.resource_type, list[i].0@);
            }
        }
    }
}

/// Polling never loads anything: every resource keeps its data, its type
/// and its identifier, the catalogue only grows, and every resource it
/// adds is unloaded.
pub proof fn law_poll_loads_nothing<R>(s: Seq<ResourceEntry<R>>, list: Seq<(String, ResourceHeader)>)
    ensures
        merge_all(s, list).0.len() >= s.len(),
        forall|i: int|
            0 <= i < s.len() ==> (#[trigger] merge_all(s, list).0[i]).data == s[i].data
                && merge_all(s, list).0[i].resource_type == s[i].resource_type && merge_all(s, list).0[i].id
                == s[i].id,
        forall|i: int|
            s.len() <= i < merge_all(s, list).0.len() ==> (#[trigger] merge_all(s, list).0[i]).data
                is Unloaded,
    decreases list.len(),
{
    if list.len() > 0 {
        let init = list.drop_last();
        let x = list.last();
        law_poll_loads_nothing(s, init);
        let s1 = merge_all(s, init).0;
        lemma_entry_index(s1, x.1.resource_type, x.0@);
    }
}

/// The factory registered for resource type `t`.
pub open spec fn factory_for<F>(f: Seq<(ResourceType, F)>, t: ResourceType) -> F {
    f[factory_types(f).index_of(t)].1
}

/// Whether `factory` can answer a release of `resource` with success
/// (`ok`) or with failure (`!ok`).
pub open spec fn finalize_answers<F: ResourceFactory>(
    factory: F,
    header: ResourceHeader,
    resource: F::Resource,
    ok: bool,
) -> bool {
    exists|r: Result<(), String>|
        call_ensures(F::finalize, (&factory, &header, &resource), r) && (r is Ok) == ok
}

/// Entry `b` is entry `a` after its resources of type `t` were released
/// through `factory`: a parsed one becomes unloaded when the release
/// succeeds and stays as it was when it fails; anything else keeps its data.
pub open spec fn release_outcome<F: ResourceFactory>(
    a: ResourceEntry<F::Resource>,
    b: ResourceEntry<F::Resource>,
    t: ResourceType,
    factory: F,
) -> bool {
    &&& b.resource_type == a.resource_type
    &&& b.id == a.id
    &&& b.header == a.header
    &&& b.fresh == a.fresh
    &&& if a.resource_type == t && a.data is Parsed {
        ||| b.data is Unloaded && finalize_answers(factory, a.header, a.data->0, true)
        ||| b.data == a.data && finalize_answers(factory, a.header, a.data->0, false)
    } else {
        b.data == a.data
    }
}



/// The resource manager.
pub struct ResourceManager<B, F: ResourceFactory> {
    backend: B,
    resources: Vec<ResourceEntry<F::Resource>>,
    factories: Vec<(ResourceType, F)>,
}

impl<B: ResourceManagerIO, F: ResourceFactory> ResourceManager<B, F> {
    /// The known resources, in the order they were first seen.
    pub closed spec fn entries(&self) -> Seq<ResourceEntry<F::Resource>> {
        self.resources@
    }

    /// The backend resources are read from.
    pub closed spec fn backend(&self) -> B {
        self.backend
    }

    /// The factories, by resource type, in registration order.
    pub closed spec fn factories(&self) -> Seq<(ResourceType, F)> {
        self.factories@
    }

    pub closed spec fn wf(&self) -> bool {
        &&& entries_unique(self.resources@)
        &&& factory_types(self.factories@).no_duplicates()
    }

    /// A manager that knows no resource and no factory yet.
    pub fn new(config: ResourceManagerConfig<B>) -> (r: ResourceManager<B, F>)
        ensures
            r.wf(),
            r.entries() == Seq::<ResourceEntry<F::Resource>>::empty(),
            r.factories() == Seq::<(ResourceType, F)>::empty(),
    {
        ResourceManager { backend: config.backend, resources: Vec::new(), factories: Vec::new() }
    }

    /// Position of the factory for `t`.
    fn factory_index(&self, t: ResourceType) -> (r: Option<usize>)
        ensures
            r matches Some(i) ==> i < self.factories@.len() && self.factories@[i as int].0 == t,
            r is None ==> !factory_types(self.factories@).contains(t),
    {
        let mut i: usize = 0;
        while i < self.factories.len()
            invariant
                0 <= i <= self.factories.len(),
                forall|j: int| 0 <= j < i ==> (#[trigger] self.factories@[j]).0 != t,
            decreases self.factories.len() - i,
        {
            if self.factories[i].0 == t {
                return Some(i);
            }
            i = i + 1;
        }
        proof {
            if factory_types(self.factories@).contains(t) {
                let j = choose|j: int| 0 <= j < factory_types(self.factories@).len() && factory_types(self.factories@)[j] == t;
                assert(self.factories@[j].0 == t);
            }
        }
        None
    }

    /// Registers the factory of a resource type, replacing an earlier one.
    pub fn register_factory(&mut self, resource_type: ResourceType, factory: F)
        requires
            old(self).wf(),
        ensures
            final(self).wf(),
            final(self).entries() == old(self).entries(),
            factory_types(old(self).factories()).contains(resource_type) ==> exists|i: int|
                0 <= i < old(self).factories().len() && old(self).factories()[i].0 == resource_type
                    && final(self).factories() == old(self).factories().update(i, (resource_type, factory)),
            !factory_types(old(self).factories()).contains(resource_type) ==> final(self).factories()
                == old(self).factories().push((resource_type, factory)),
    {
        match self.factory_index(resource_type) {
            Some(i) => {
                let ghost before = self.factories@;
                proof {
                    assert(factory_types(before)[i as int] == resource_type);
                }
                self.factories.set(i, (resource_type, factory));
                proof {
                    assert(factory_types(self.factories@) =~= factory_types(before));
                }
            },
            None => {
                let ghost before = self.factories@;
                self.factories.push((resource_type, factory));
                proof {
                    assert(factory_types(self.factories@) =~= factory_types(before).push(resource_type));
                }
            },
        }
    }

    /// Position of the entry of type `t` and identifier `id`.
    fn find_entry(&self, t: ResourceType, id: &String) -> (r: Option<usize>)
        ensures
            match r {
                Some(i) => entry_index(self.resources@, t, id@) == Some(i as int),
                None => entry_index(self.resources@, t, id@) is None,
            },
    {
        let mut i: usize = 0;
        while i < self.resources.len()
            invariant
                0 <= i <= self.resources.len(),
                forall|j: int|
                    0 <= j < i ==> !((#[trigger] self.resources@[j]).resource_type == t
                        && self.resources@[j].id@ == id@),
            decreases self.resources.len() - i,
        {
            if self.resources[i].resource_type == t && self.resources[i].id == *id {
                proof {
                    lemma_entry_index_first(self.resources@, t, id@, i as int);
                }
                return Some(i);
            }
            i = i + 1;
        }
        proof {
            lemma_entry_index_absent(self.resources@, t, id@);
        }
        None
    }

    /// Merges one enumerated resource into the catalogue.
    fn merge_one_entry(&mut self, id: String, header: ResourceHeader) -> (changed: bool)
        requires
            old(self).wf(),
        ensures
            final(self).wf(),
            (final(self).entries(), changed) == merge_one(old(self).entries(), id, header),
            final(self).factories() == old(self).factories(),
            final(self).backend() == old(self).backend(),
    {
        proof {
            lemma_entry_index(self.resources@, header.resource_type, id@);
        }
        match self.find_entry(header.resource_type, &id) {
            None => {
                let entry = ResourceEntry {
                    resource_type: header.resource_type,
                    id,
                    header,
                    data: ResourceData::Unloaded,
                    fresh: false,
                };
                let ghost before = self.resources@;
                self.resources.push(entry);
                proof {
                    assert forall|i: int, j: int|
                        0 <= i < j < self.resources@.len() implies !((#[trigger] self.resources@[i]).resource_type
                        == (#[trigger] self.resources@[j]).resource_type && self.resources@[i].id@
                        == self.resources@[j].id@) by {
                        assert(self.resources@[i] == before[i]);
                        if j < before.len() {
                            assert(self.resources@[j] == before[j]);
                        }
                    }
                }
                true
            },
            Some(i) => {
                if self.resources[i].header.same(&header) {
                    false
                } else {
                    let ghost before = self.resources@;
                    self.resources[i].header = header;
                    self.resources[i].fresh = false;
                    proof {
                        assert(self.resources@ =~= before.update(
                            i as int,
                            ResourceEntry { header, fresh: false, ..before[i as int] },
                        ));
                        assert forall|a: int, b: int|
                            0 <= a < b < self.resources@.len() implies !((#[trigger] self.resources@[a]).resource_type
                            == (#[trigger] self.resources@[b]).resource_type && self.resources@[a].id@
                            == self.resources@[b].id@) by {
                            assert(before[a].resource_type == self.resources@[a].resource_type);
                            assert(before[b].resource_type == self.resources@[b].resource_type);
                            assert(before[a].id == self.resources@[a].id);
                            assert(before[b].id == self.resources@[b].id);
                        }
                    }
                    true
                }
            },
        }
    }

    /// Merges enumerated resources into the catalogue, in order: new ones
    /// are added unloaded and stale, known ones whose header changed take
    /// the new header and become stale. Returns whether anything changed.
    pub fn merge_resources(&mut self, list: Vec<(String, ResourceHeader)>) -> (any: bool)
        requires
            old(self).wf(),
        ensures
            final(self).wf(),
            (final(self).entries(), any) == merge_all(old(self).entries(), list@),
            final(self).factories() == old(self).factories(),
            final(self).backend() == old(self).backend(),
    {
        let ghost items = list@;
        let mut any = false;
        for item in it: list
            invariant
                it.seq() == items,
                self.wf(),
                (self.resources@, any) == merge_all(old(self).resources@, items.take(it.index() as int)),
                self.factories@ == old(self).factories@,
                self.backend == old(self).backend,
        {
            let ghost k = it.index();
            proof {
                assert(items.take(k + 1).drop_last() =~= items.take(k as int));
                assert(items.take(k + 1).last() == items[k as int]);
            }
            let (id, header) = item;
            let changed = self.merge_one_entry(id, header);
            any = any || changed;
        }
        proof {
            assert(items.take(items.len() as int) =~= items);
        }
        any
    }

    /// Asks the backend for updates and merges the resources it enumerates
    /// (see `merge_resources`). Without updates nothing changes and the
    /// answer is `false`; a failed enumeration changes nothing and passes
    /// the backend's error on.
    pub fn poll_io(&mut self) -> (r: Result<bool, ResourceManagerPollError>)
        requires
            old(self).wf(),
        ensures
            final(self).wf(),
            final(self).factories() == old(self).factories(),
            r matches Ok(any) ==> {
                ||| {
                    &&& call_ensures(B::has_updates, (&old(self).backend(),), false)
                    &&& !any
                    &&& final(self).entries() == old(self).entries()
                    &&& final(self).backend() == old(self).backend()
                }
                ||| {
                    &&& call_ensures(B::has_updates, (&old(self).backend(),), true)
                    &&& exists|m: &mut B, list: Vec<(String, ResourceHeader)>|
                        *m == old(self).backend() && mut_ref_future(m) == final(self).backend()
                            && #[trigger] call_ensures(
                            B::enumerate_resources,
                            (m,),
                            Ok::<Vec<(String, ResourceHeader)>, String>(list),
                        ) && merge_all(old(self).entries(), list@) == (final(self).entries(), any)
                }
            },
            r matches Err(ResourceManagerPollError::EnumerateFailed(e)) ==> {
                &&& call_ensures(B::has_updates, (&old(self).backend(),), true)
                &&& final(self).entries() == old(self).entries()
                &&& exists|m: &mut B|
                    *m == old(self).backend() && mut_ref_future(m) == final(self).backend()
                        && #[trigger] call_ensures(
                        B::enumerate_resources,
                        (m,),
                        Err::<Vec<(String, ResourceHeader)>, String>(e),
                    )
            },
    {
        let ghost b0 = self.backend;
        let updates = self.backend.has_updates();
        proof {
            assert(call_ensures(B::has_updates, (&b0,), updates));
        }
        if !updates {
            return Ok(false);
        }
        let listed = self.backend.enumerate_resources();
        let ghost b1 = self.backend;
        proof {
            assert(exists|m: &mut B|
                *m == b0 && mut_ref_future(m) == b1 && call_ensures(B::enumerate_resources, (m,), listed));
        }
        match listed {
            Err(e) => {
                proof {
                    let m = choose|m: &mut B|
                        *m == b0 && mut_ref_future(m) == b1 && call_ensures(B::enumerate_resources, (m,), listed);
                    assert(call_ensures(
                        B::enumerate_resources,
                        (m,),
                        Err::<Vec<(String, ResourceHeader)>, String>(e),
                    ));
                    assert(self.backend == b1);
                    assert(exists|m: &mut B|
                        *m == old(self).backend() && mut_ref_future(m) == self.backend()
                            && #[trigger] call_ensures(
                            B::enumerate_resources,
                            (m,),
                            Err::<Vec<(String, ResourceHeader)>, String>(e),
                        ));
                }
                let r = Err(ResourceManagerPollError::EnumerateFailed(e));
                proof {
                    assert(r matches Err(ResourceManagerPollError::EnumerateFailed(e2)) && e2 == e);
                }
                r
            },
            Ok(list) => {
                let ghost l = list;
                let any = self.merge_resources(list);
                proof {
                    let m = choose|m: &mut B|
                        *m == b0 && mut_ref_future(m) == b1 && call_ensures(B::enumerate_resources, (m,), listed);
                    assert(call_ensures(
                        B::enumerate_resources,
                        (m,),
                        Ok::<Vec<(String, ResourceHeader)>, String>(l),
                    ));
                    assert(merge_all(old(self).entries(), l@) == (self.entries(), any));
                    assert(self.backend == b1);
                }
                Ok(any)
            },
        }
    }

    /// Releases every parsed resource of a type through its factory; a
    /// resource whose release succeeds becomes unloaded, one whose release
    /// fails stays as it was. Without a factory for the type nothing
    /// changes.
    pub fn finalize_all(&mut self, resource_type: ResourceType)
        requires
            old(self).wf(),
        ensures
            final(self).wf(),
            final(self).factories() == old(self).factories(),
            !factory_types(old(self).factories()).contains(resource_type) ==> final(self).entries()
                == old(self).entries(),
            factory_types(old(self).factories()).contains(resource_type) ==> {
                &&& final(self).entries().len() == old(self).entries().len()
                &&& forall|i: int|
                    0 <= i < old(self).entries().len() ==> release_outcome(
                        old(self).entries()[i],
                        #[trigger] final(self).entries()[i],
                        resource_type,
                        factory_for(old(self).factories(), resource_type),
                    )
            },
    {
        let fi = match self.factory_index(resource_type) {
            Some(fi) => fi,
            None => {
                return ;
            },
        };
        let ghost factory = self.factories@[fi as int].1;
        proof {
            let types = factory_types(self.factories@);
            assert(types[fi as int] == resource_type);
            let k = types.index_of(resource_type);
            assert(0 <= k < types.len() && types[k] == resource_type);
            assert(k == fi);
            assert(factory_for(self.factories@, resource_type) == factory);
        }
        let mut i: usize = 0;
        while i < self.resources.len()
            invariant
                0 <= i <= self.resources.len(),
                fi < self.factories.len(),
                factory == self.factories@[fi as int].1,
                factory == factory_for(old(self).factories@, resource_type),
                factory_types(old(self).factories@).contains(resource_type),
                self.factories == old(self).factories,
                self.resources@.len() == old(self).resources@.len(),
                forall|j: int|
                    0 <= j < i ==> release_outcome(
                        old(self).resources@[j],
                        #[trigger] self.resources@[j],
                        resource_type,
                        factory,
                    ),
                forall|j: int| i <= j < self.resources@.len() ==> #[trigger] self.resources@[j] == old(self).resources@[j],
                old(self).wf(),
            decreases self.resources.len() - i,
        {
            if self.resources[i].resource_type == resource_type {
                let released = match &self.resources[i].data {
                    ResourceData::Parsed(resource) => {
                        let answer = self.factories[fi].1.finalize(&self.resources[i].header, resource);
                        proof {
                            assert(call_ensures(
                                F::finalize,
                                (&factory, &self.resources@[i as int].header, resource),
                                answer,
                            ));
                            assert(finalize_answers(
                                factory,
                                self.resources@[i as int].header,
                                *resource,
                                answer is Ok,
                            ));
                        }
                        answer.is_ok()
                    },
                    ResourceData::Unloaded => false,
                };
                if released {
                    self.resources[i].data = ResourceData::Unloaded;
                }
            }
            i = i + 1;
        }
        proof {
            assert forall|a: int, b: int|
                0 <= a < b < self.resources@.len() implies !((#[trigger] self.resources@[a]).resource_type
                == (#[trigger] self.resources@[b]).resource_type && self.resources@[a].id@
                == self.resources@[b].id@) by {
                assert(old(self).resources@[a].resource_type == self.resources@[a].resource_type);
                assert(old(self).resources@[b].resource_type == self.resources@[b].resource_type);
            }
        }
    }

    /// Position of the first entry whose header is named `name`.
    fn find_named(&self, name: &String) -> (r: Option<usize>)
        ensures
            match r {
                Some(i) => named_index(self.resources@, name@) == Some(i as int),
                None => named_index(self.resources@, name@) is None,
            },
    {
        let mut i: usize = 0;
        while i < self.resources.len()
            invariant
                0 <= i <= self.resources.len(),
                forall|j: int| 0 <= j < i ==> (#[trigger] self.resources@[j]).header.name@ != name@,
            decreases self.resources.len() - i,
        {
            if self.resources[i].header.name == *name {
                proof {
                    lemma_named_index_first(self.resources@, name@, i as int);
                }
                return Some(i);
            }
            i = i + 1;
        }
        proof {
            lemma_named_index_absent(self.resources@, name@);
        }
        None
    }

    /// The resource whose header is named `name` (the first such one),
    /// parsed. A parsed resource is handed out as it is; otherwise its raw
    /// bytes are loaded from the backend and parsed by the factory of its
    /// type, and the parsed resource is kept, fresh. Fails, changing
    /// nothing, when no resource has that name, the bytes cannot be
    /// loaded, no factory serves the type, or parsing fails.
    pub fn get_resource(&mut self, name: &String) -> (r: Result<F::Resource, ResourceManagerGetError>)
        where F::Resource: Clone,
        requires
            old(self).wf(),
        ensures
            final(self).wf(),
            final(self).factories() == old(self).factories(),
            named_index(old(self).entries(), name@) is None ==> r == Err::<
                F::Resource,
                ResourceManagerGetError,
            >(ResourceManagerGetError::ResourceNotFound) && final(self).entries() == old(self).entries(),
            named_index(old(self).entries(), name@) matches Some(i) ==> {
                let e = old(self).entries()[i];
                &&& !(r matches Err(ResourceManagerGetError::ResourceNotFound))
                &&& r is Err ==> final(self).entries() == old(self).entries()
                &&& e.data is Parsed ==> r is Ok && final(self).entries() == old(self).entries()
                &&& r matches Ok(x) ==> {
                    &&& final(self).entries().len() == old(self).entries().len()
                    &&& forall|j: int|
                        0 <= j < old(self).entries().len() && j != i
                            ==> #[trigger] final(self).entries()[j] == old(self).entries()[j]
                    &&& final(self).entries()[i].resource_type == e.resource_type
                    &&& final(self).entries()[i].id == e.id
                    &&& final(self).entries()[i].header == e.header
                    &&& final(self).entries()[i].data matches ResourceData::Parsed(p) && cloned(p, x)
                    &&& e.data is Unloaded ==> final(self).entries()[i].fresh
                }
                &&& r matches Err(ResourceManagerGetError::NoSuitableFactory) ==> !factory_types(
                    old(self).factories(),
                ).contains(e.header.resource_type)
                &&& r matches Err(ResourceManagerGetError::ParserFailed(_)) ==> factory_types(
                    old(self).factories(),
                ).contains(e.header.resource_type)
                &&& e.data is Parsed ==> final(self).backend() == old(self).backend()
                &&& (r is Ok && e.data is Unloaded) ==> {
                    &&& factory_types(old(self).factories()).contains(e.header.resource_type)
                    &&& exists|m: &mut B, id: String, raw: Vec<u8>, bytes: &[u8]|
                        *m == old(self).backend() && mut_ref_future(m) == final(self).backend() && id@
                            == e.header.name@ && #[trigger] call_ensures(
                            B::load,
                            (m, id),
                            Ok::<Vec<u8>, String>(raw),
                        ) && bytes@ == raw@ && #[trigger] call_ensures(
                            F::parse,
                            (&factory_for(old(self).factories(), e.header.resource_type), &e.header, bytes),
                            Ok::<F::Resource, String>(final(self).entries()[i].data->Parsed_0),
                        )
                }
                &&& r matches Err(ResourceManagerGetError::NoRawDataLoaded) ==> exists|
                    m: &mut B,
                    id: String,
                    err: String,
                |
                    *m == old(self).backend() && mut_ref_future(m) == final(self).backend() && id@
                        == e.header.name@ && #[trigger] call_ensures(
                        B::load,
                        (m, id),
                        Err::<Vec<u8>, String>(err),
                    )
                &&& r matches Err(ResourceManagerGetError::NoSuitableFactory) ==> exists|
                    m: &mut B,
                    id: String,
                    raw: Vec<u8>,
                |
                    *m == old(self).backend() && mut_ref_future(m) == final(self).backend() && id@
                        == e.header.name@ && #[trigger] call_ensures(
                        B::load,
                        (m, id),
                        Ok::<Vec<u8>, String>(raw),
                    )
                &&& r matches Err(ResourceManagerGetError::ParserFailed(err)) ==> exists|
                    m: &mut B,
                    id: String,
                    raw: Vec<u8>,
                    bytes: &[u8],
                |
                    *m == old(self).backend() && mut_ref_future(m) == final(self).backend() && id@
                        == e.header.name@ && #[trigger] call_ensures(
                        B::load,
                        (m, id),
                        Ok::<Vec<u8>, String>(raw),
                    ) && bytes@ == raw@ && #[trigger] call_ensures(
                        F::parse,
                        (&factory_for(old(self).factories(), e.header.resource_type), &e.header, bytes),
                        Err::<F::Resource, String>(err),
                    )
            },
    {
        let i = match self.find_named(name) {
            Some(i) => i,
            None => {
                return Err(ResourceManagerGetError::ResourceNotFound);
            },
        };
        proof {
            lemma_named_index(self.resources@, name@);
        }
        match &self.resources[i].data {
            ResourceData::Parsed(resource) => {
                return Ok(resource.clone());
            },
            ResourceData::Unloaded => {},
        }
        let ghost b0 = self.backend;
        let ghost e = self.resources@[i as int];
        let id = self.resources[i].header.name.clone();
        let ghost id_g = id;
        let loaded = self.backend.load(id);
        let ghost b1 = self.backend;
        proof {
            assert(exists|m: &mut B| *m == b0 && mut_ref_future(m) == b1 && call_ensures(B::load, (m, id_g), loaded));
        }
        let raw = match loaded {
            Ok(raw) => raw,
            Err(err) => {
                proof {
                    let m = choose|m: &mut B| *m == b0 && mut_ref_future(m) == b1 && call_ensures(B::load, (m, id_g), loaded);
                    assert(call_ensures(B::load, (m, id_g), Err::<Vec<u8>, String>(err)));
                    assert(self.backend == b1);
                }
                return Err(ResourceManagerGetError::NoRawDataLoaded);
            },
        };
        proof {
            let m = choose|m: &mut B| *m == b0 && mut_ref_future(m) == b1 && call_ensures(B::load, (m, id_g), loaded);
            assert(call_ensures(B::load, (m, id_g), Ok::<Vec<u8>, String>(raw)));
        }
        let fi = match self.factory_index(self.resources[i].header.resource_type) {
            Some(fi) => fi,
            None => {
                return Err(ResourceManagerGetError::NoSuitableFactory);
            },
        };
        proof {
            let types = factory_types(self.factories@);
            assert(types[fi as int] == e.header.resource_type);
            let k = types.index_of(e.header.resource_type);
            assert(0 <= k < types.len() && types[k] == e.header.resource_type);
            assert(k == fi);
            assert(factory_for(self.factories@, e.header.resource_type) == self.factories@[fi as int].1);
        }
        let bytes = raw.as_slice();
        let answer = self.factories[fi].1.parse(&self.resources[i].header, bytes);
        proof {
            assert(call_ensures(F::parse, (&self.factories@[fi as int].1, &e.header, bytes), answer));
        }
        let parsed = match answer {
            Ok(p) => p,
            Err(err) => {
                proof {
                    let fac = factory_for(old(self).factories(), e.header.resource_type);
                    assert(call_ensures(F::parse, (&fac, &e.header, bytes), Err::<F::Resource, String>(err)));
                    let m = choose|m: &mut B| *m == b0 && mut_ref_future(m) == b1 && call_ensures(B::load, (m, id_g), loaded);
                    assert(self.backend == b1);
                    assert(id_g@ == e.header.name@);
                    assert(exists|m2: &mut B, id2: String, raw2: Vec<u8>, bytes2: &[u8]|
                        *m2 == old(self).backend() && mut_ref_future(m2) == self.backend() && id2@
                            == e.header.name@ && #[trigger] call_ensures(
                            B::load,
                            (m2, id2),
                            Ok::<Vec<u8>, String>(raw2),
                        ) && bytes2@ == raw2@ && #[trigger] call_ensures(
                            F::parse,
                            (&fac, &e.header, bytes2),
                            Err::<F::Resource, String>(err),
                        ));
                }
                let failed: Result<F::Resource, ResourceManagerGetError> = Err(
                    ResourceManagerGetError::ParserFailed(err),
                );
                proof {
                    assert(failed matches Err(ResourceManagerGetError::ParserFailed(e2)) && e2 == err);
                }
                return failed;
            },
        };
        proof {
            assert(call_ensures(
                F::parse,
                (&self.factories@[fi as int].1, &e.header, bytes),
                Ok::<F::Resource, String>(parsed),
            ));
        }
        let out = parsed.clone();
        let ghost before = self.resources@;
        self.resources[i].data = ResourceData::Parsed(parsed);
        self.resources[i].fresh = true;
        proof {
            assert forall|a: int, b: int|
                0 <= a < b < self.resources@.len() implies !((#[trigger] self.resources@[a]).resource_type
                == (#[trigger] self.resources@[b]).resource_type && self.resources@[a].id@
                == self.resources@[b].id@) by {
                assert(before[a].resource_type == self.resources@[a].resource_type);
                assert(before[b].resource_type == self.resources@[b].resource_type);
                assert(before[a].id == self.resources@[a].id);
                assert(before[b].id == self.resources@[b].id);
            }
            let fac = factory_for(old(self).factories(), e.header.resource_type);
            assert(self.resources@[i as int].data->Parsed_0 == parsed);
            let m = choose|m: &mut B| *m == b0 && mut_ref_future(m) == b1 && call_ensures(B::load, (m, id_g), loaded);
            assert(self.backend == b1);
            assert(id_g@ == e.header.name@);
            assert(exists|m2: &mut B, id2: String, raw2: Vec<u8>, bytes2: &[u8]|
                *m2 == old(self).backend() && mut_ref_future(m2) == self.backend() && id2@
                    == e.header.name@ && #[trigger] call_ensures(
                    B::load,
                    (m2, id2),
                    Ok::<Vec<u8>, String>(raw2),
                ) && bytes2@ == raw2@ && #[trigger] call_ensures(
                    F::parse,
                    (&fac, &e.header, bytes2),
                    Ok::<F::Resource, String>(self.entries()[i as int].data->Parsed_0),
                ));
        }
        Ok(out)
    }
}

} // verus!
