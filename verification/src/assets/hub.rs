//! The asset hub: it knows every asset and its state, sends load and free
//! queries to the factory of each asset type through queues, and turns the
//! factories' answers into state changes and hub events.

use vstd::prelude::*;
use crate::ids::next_number;
use std::sync::Arc;
use std::sync::atomic::AtomicUsize;
use crossbeam_queue::ArrayQueue;
use crate::assets::{AssetID, AssetType};
use crate::assets::factory::{
    AssetHandle, AssetQueryID, AssetQueryIdSource, FactoryBinding, InMessage, OutMessage,
};
use crate::assets::metadata::{law_default_metadata_suits, AssetHeader, TypeSpecificMetadata};
use crate::assets::registry::{
    law_queries_unique, law_remove_query, AssetContainer, AssetRegistry, AssetState, QueriesRegistry,
};
use crate::queue::{queue_new, queue_pop, queue_push};

verus! {

/// Capacity of the queue for messages sent to an asset factory.
pub const IN_QUEUE_CAPACITY: usize = 100;

/// Capacity of the queue for messages sent from the asset factories.
pub const OUT_QUEUE_CAPACITY: usize = 100;

/// Events the hub reports.
#[derive(Debug)]
pub enum AssetHubEvent {
    QueryCompleted(AssetQueryID),
    AssetLoaded(AssetID),
    AssetFreed(AssetID),
    AllAssetsLoaded,
    AllAssetsFreed,
}

/// The view of a hub event, identifiers as text.
pub enum AssetHubEventView {
    QueryCompleted(AssetQueryID),
    AssetLoaded(Seq<char>),
    AssetFreed(Seq<char>),
    AllAssetsLoaded,
    AllAssetsFreed,
}

impl View for AssetHubEvent {
    type V = AssetHubEventView;

    open spec fn view(&self) -> AssetHubEventView {
        match self {
            AssetHubEvent::QueryCompleted(q) => AssetHubEventView::QueryCompleted(*q),
            AssetHubEvent::AssetLoaded(a) => AssetHubEventView::AssetLoaded(a@),
            AssetHubEvent::AssetFreed(a) => AssetHubEventView::AssetFreed(a@),
            AssetHubEvent::AllAssetsLoaded => AssetHubEventView::AllAssetsLoaded,
            AssetHubEvent::AllAssetsFreed => AssetHubEventView::AllAssetsFreed,
        }
    }
}

/// Why an asset cannot be handed out.
#[derive(Debug)]
pub enum GetAssetError {
    NotFound(AssetID),
    NotLoaded(AssetID),
}

/// Why a query cannot be sent.
#[derive(Debug)]
pub enum QueryAssetError {
    AssetNotFound(AssetID),
    /// The asset and its number of outstanding handles.
    StillInUse(AssetID, usize),
    AlreadyLoaded(AssetID),
    AlreadyFreed(AssetID),
    FactoryNotFound(AssetType),
    IPCError,
}

/// A loaded asset handed out by the hub: where it lives and its handle
/// counter.
pub struct LoadedAsset {
    pub handle: AssetHandle,
    pub rc: Arc<AtomicUsize>,
}

/// The source of asset descriptions and raw bytes.
pub trait AssetReader {
    /// The identifiers and headers of the available assets.
    fn enumerate(&mut self) -> Result<Vec<(AssetID, AssetHeader)>, String>;

    /// The raw bytes of an asset.
    fn load(&mut self, id: &AssetID) -> Result<Vec<u8>, String>;
}

/// The asset types of the factories, in registration order.
pub open spec fn binding_types(f: Seq<FactoryBinding>) -> Seq<AssetType> {
    f.map_values(|b: FactoryBinding| b.spec_asset_type())
}

/// `pending` with `q` recorded, unless it already is.
pub open spec fn with_query(pending: Seq<AssetQueryID>, q: AssetQueryID) -> Seq<AssetQueryID> {
    if pending.contains(q) {
        pending
    } else {
        pending.push(q)
    }
}

/// `after` is `before` with the first occurrence of `q` removed, or
/// unchanged when `q` does not occur.
pub open spec fn query_removed(
    before: Seq<AssetQueryID>,
    after: Seq<AssetQueryID>,
    q: AssetQueryID,
) -> bool {
    &&& !before.contains(q) ==> after == before
    &&& before.contains(q) ==> exists|p: int|
        0 <= p < before.len() && before[p] == q && (forall|j: int| 0 <= j < p ==> before[j] != q)
            && after == before.remove(p)
}

/// Whether every asset of `reg` is loaded.
pub open spec fn all_loaded(reg: Map<Seq<char>, AssetContainer>) -> bool {
    forall|k: Seq<char>| #[trigger] reg.contains_key(k) ==> reg[k].state is Loaded
}

/// Whether every asset of `reg` is freed.
pub open spec fn all_freed(reg: Map<Seq<char>, AssetContainer>) -> bool {
    forall|k: Seq<char>| #[trigger] reg.contains_key(k) ==> reg[k].state is Freed
}

/// What a free query meets: a loaded asset without outstanding handles can
/// be freed; with handles it is still in use; otherwise it is already
/// freed (or was never loaded).
pub fn check_free(state: &AssetState, rc: usize, aid: &AssetID) -> (r: Result<(), QueryAssetError>)
    ensures
        state is Loaded && rc == 0 ==> r is Ok,
        state is Loaded && rc > 0 ==> (r matches Err(QueryAssetError::StillInUse(x, n)) && x@ == aid@
            && n == rc),
        !(state is Loaded) ==> (r matches Err(QueryAssetError::AlreadyFreed(x)) && x@ == aid@),
{
    match state {
        AssetState::Loaded(_) => {
            if rc > 0 {
                Err(QueryAssetError::StillInUse(aid.clone(), rc))
            } else {
                Ok(())
            }
        },
        _ => Err(QueryAssetError::AlreadyFreed(aid.clone())),
    }
}

/// Whether enumerating the assets of `reader` can give `answer`.
pub open spec fn reader_enumerates<R: AssetReader>(
    reader: R,
    answer: Result<Vec<(AssetID, AssetHeader)>, String>,
) -> bool {
    exists|m: &mut R| *m == reader && #[trigger] call_ensures(R::enumerate, (m,), answer)
}

/// Whether a reader can answer a load of asset `id` with `answer`.
pub open spec fn reader_loads<R: AssetReader>(id: AssetID, answer: Result<Vec<u8>, String>) -> bool {
    exists|m: &mut R| #[trigger] call_ensures(R::load, (m, &id), answer)
}

/// Item `i` of `list` is the last one with identifier `k`.
pub open spec fn last_at(list: Seq<(AssetID, AssetHeader)>, i: int, k: Seq<char>) -> bool {
    &&& 0 <= i < list.len()
    &&& list[i].0@ == k
    &&& forall|j: int| i < j < list.len() ==> list[j].0@ != k
}

/// Asset `c` was registered from `item`: with its header and, raw, bytes
/// that a load of it can give.
pub open spec fn registered_as<R: AssetReader>(c: AssetContainer, item: (AssetID, AssetHeader)) -> bool {
    &&& c.header == item.1
    &&& c.state matches AssetState::Raw(d) && reader_loads::<R>(item.0, Ok(d))
}

/// `reg` holds exactly the assets of `list`, each registered from its last
/// occurrence there.
pub open spec fn registered_from<R: AssetReader>(
    reg: Map<Seq<char>, AssetContainer>,
    list: Seq<(AssetID, AssetHeader)>,
) -> bool {
    &&& forall|i: int| 0 <= i < list.len() ==> reg.contains_key(#[trigger] list[i].0@)
    &&& forall|k: Seq<char>|
        #[trigger] reg.contains_key(k) ==> exists|i: int|
            #[trigger] last_at(list, i, k) && registered_as::<R>(reg[k], list[i])
}

/// Registering item `n` of `list` with bytes `d` extends what the
/// registry holds from the first `n` items to the first `n + 1`.
proof fn lemma_registered_step<R: AssetReader>(
    before: Map<Seq<char>, AssetContainer>,
    after: Map<Seq<char>, AssetContainer>,
    list: Seq<(AssetID, AssetHeader)>,
    n: int,
    d: Vec<u8>,
)
    requires
        0 <= n < list.len(),
        registered_from::<R>(before, list.take(n)),
        reader_loads::<R>(list[n].0, Ok(d)),
        after.dom() == before.dom().insert(list[n].0@),
        after[list[n].0@].header == list[n].1,
        after[list[n].0@].state == AssetState::Raw(d),
        forall|k: Seq<char>|
            k != list[n].0@ && before.contains_key(k) ==> #[trigger] after[k] == before[k],
    ensures
        registered_from::<R>(after, list.take(n + 1)),
{
    let pre = list.take(n);
    let cur = list.take(n + 1);
    let x = list[n].0@;
    assert forall|i: int| 0 <= i < cur.len() implies after.contains_key(#[trigger] cur[i].0@) by {
        if i < n {
            assert(cur[i] == pre[i]);
            assert(before.contains_key(pre[i].0@));
        }
    }
    assert forall|k: Seq<char>| #[trigger] after.contains_key(k) implies exists|i: int|
        #[trigger] last_at(cur, i, k) && registered_as::<R>(after[k], cur[i]) by {
        if k == x {
            assert(cur[n] == list[n]);
            assert(last_at(cur, n, k));
        } else {
            assert(before.contains_key(k));
            let i = choose|i: int| #[trigger] last_at(pre, i, k) && registered_as::<R>(before[k], pre[i]);
            assert(cur[i] == pre[i]);
            assert forall|j: int| i < j < cur.len() implies cur[j].0@ != k by {
                if j < n {
                    assert(cur[j] == pre[j]);
                } else {
                    assert(cur[j] == list[n]);
                }
            }
            assert(last_at(cur, i, k));
        }
    }
}

/// Whether `m` asks for asset `aid` to be loaded under query `qid`, with a
/// copy of `header` and the raw bytes `raw`.
pub open spec fn is_load_request(
    m: InMessage,
    qid: AssetQueryID,
    aid: Seq<char>,
    header: AssetHeader,
    raw: Seq<u8>,
) -> bool {
    match m {
        InMessage::Load(q, a, h, r) => q == qid && a@ == aid && cloned(header, h) && r@ == raw,
        InMessage::Free(_, _) => false,
    }
}

/// Whether `m` asks for asset `aid` to be freed under query `qid`.
pub open spec fn is_free_request(m: InMessage, qid: AssetQueryID, aid: Seq<char>) -> bool {
    match m {
        InMessage::Free(q, a) => q == qid && a@ == aid,
        InMessage::Load(_, _, _, _) => false,
    }
}

/// Whether `m` was pushed on `queue`, the push accepting it (`accepted`)
/// or refusing it because the queue was full (`!accepted`).
pub closed spec fn push_answers(queue: Arc<ArrayQueue<InMessage>>, m: InMessage, accepted: bool) -> bool {
    exists|pr: Result<(), InMessage>|
        #[trigger] call_ensures(queue_push::<InMessage>, (&*queue, m), pr) && (pr is Ok) == accepted
}

/// Whether a load request for asset `aid` (registered as `c`) under query
/// `qid` was pushed on `queue`, accepted or refused as `accepted` says.
pub open spec fn load_request_sent(
    queue: Arc<ArrayQueue<InMessage>>,
    qid: AssetQueryID,
    aid: Seq<char>,
    c: AssetContainer,
    accepted: bool,
) -> bool {
    exists|m: InMessage|
        #[trigger] is_load_request(m, qid, aid, c.header, c.state->Raw_0@) && push_answers(queue, m, accepted)
}

/// Whether a free request for asset `aid` under query `qid` was pushed on
/// `queue`, accepted or refused as `accepted` says.
pub open spec fn free_request_sent(
    queue: Arc<ArrayQueue<InMessage>>,
    qid: AssetQueryID,
    aid: Seq<char>,
    accepted: bool,
) -> bool {
    exists|m: InMessage| #[trigger] is_free_request(m, qid, aid) && push_answers(queue, m, accepted)
}

/// The request to load asset `aid` under query `qid`, carrying a copy of
/// its header and raw bytes.
pub fn load_message(qid: AssetQueryID, aid: &AssetID, header: &AssetHeader, raw: &Vec<u8>) -> (m: InMessage)
    ensures
        is_load_request(m, qid, aid@, *header, raw@),
{
    InMessage::Load(qid, aid.clone(), header.clone(), raw.clone())
}

/// The request to free asset `aid` under query `qid`.
pub fn free_message(qid: AssetQueryID, aid: &AssetID) -> (m: InMessage)
    ensures
        is_free_request(m, qid, aid@),
{
    InMessage::Free(qid, aid.clone())
}

/// Reads an asset's handle counter. Other threads change it at any time,
/// so the value is not stated.
fn load_rc(rc: &Arc<AtomicUsize>) -> usize {
    rc.load(std::sync::atomic::Ordering::SeqCst)
}

/// The asset hub.
pub struct AssetHub {
    factories: Vec<FactoryBinding>,
    out_queue: Arc<ArrayQueue<OutMessage>>,
    registry: AssetRegistry,
    queries: QueriesRegistry,
    query_ids: AssetQueryIdSource,
}

impl AssetHub {
    /// The registered assets.
    pub closed spec fn registry_view(&self) -> Map<Seq<char>, AssetContainer> {
        self.registry.view()
    }

    /// The identifiers of the registered assets, in registration order.
    pub closed spec fn asset_order(&self) -> Seq<Seq<char>> {
        self.registry.key_seq()
    }

    /// The asset types that have a factory, in registration order.
    pub closed spec fn factory_types(&self) -> Seq<AssetType> {
        binding_types(self.factories@)
    }

    /// The queue of requests to the factory of asset type `t`.
    pub closed spec fn request_queue(&self, t: AssetType) -> Arc<ArrayQueue<InMessage>> {
        self.factories@[binding_types(self.factories@).index_of(t)].spec_in_queue()
    }

    /// The pending queries.
    pub closed spec fn pending(&self) -> Seq<AssetQueryID> {
        self.queries@
    }

    /// The queue on which every factory answers the hub.
    pub closed spec fn answer_queue(&self) -> Arc<ArrayQueue<OutMessage>> {
        self.out_queue
    }

    /// The number of the next query identifier.
    pub closed spec fn next_query(&self) -> usize {
        self.query_ids.spec_next()
    }

    /// The registry is well formed, no asset type has two factories and no
    /// query is pending twice.
    pub closed spec fn wf(&self) -> bool {
        &&& self.registry.wf()
        &&& binding_types(self.factories@).no_duplicates()
        &&& self.queries@.no_duplicates()
    }

    /// Whether a load query for asset `k` passes the hub's own checks: the
    /// asset is known, a factory serves its type, and it is raw.
    pub open spec fn load_ready(&self, k: Seq<char>) -> bool {
        &&& self.registry_view().contains_key(k)
        &&& self.factory_types().contains(self.registry_view()[k].header.asset_type)
        &&& self.registry_view()[k].state is Raw
    }

    /// Whether a load request for asset `k` was pushed on the queue of the
    /// factory of its type, accepted or refused as `accepted` says.
    pub open spec fn load_sent(&self, k: Seq<char>, accepted: bool) -> bool {
        exists|q: AssetQueryID| #[trigger] load_request_sent(self.request_queue(self.registry_view()[k].header.asset_type), q, k, self.registry_view()[k], accepted)
    }

    /// Index `j` holds the first asset, in registration order, that fails
    /// the hub's own checks for a load query.
    pub open spec fn first_not_load_ready(&self, j: int) -> bool {
        &&& 0 <= j < self.asset_order().len()
        &&& !self.load_ready(self.asset_order()[j])
        &&& forall|i: int| 0 <= i < j ==> self.load_ready(#[trigger] self.asset_order()[i])
    }

    /// The load queries reached asset `t`: it and every asset before it
    /// pass the hub's own checks, and the requests for the assets before
    /// it were accepted.
    pub open spec fn load_passed_before(&self, t: int) -> bool {
        &&& 0 <= t < self.asset_order().len()
        &&& forall|i: int| 0 <= i <= t ==> self.load_ready(#[trigger] self.asset_order()[i])
        &&& forall|i: int| 0 <= i < t ==> self.load_sent(#[trigger] self.asset_order()[i], true)
    }

    /// The load queries stopped at asset `t` on a full queue: they reached
    /// it and its request was refused.
    pub open spec fn load_stopped_at(&self, t: int) -> bool {
        &&& self.load_passed_before(t)
        &&& self.load_sent(self.asset_order()[t], false)
    }

    /// Whether a free query for asset `k` passes the hub's own checks: the
    /// asset is known, a factory serves its type, and it is loaded.
    pub open spec fn free_ready(&self, k: Seq<char>) -> bool {
        &&& self.registry_view().contains_key(k)
        &&& self.factory_types().contains(self.registry_view()[k].header.asset_type)
        &&& self.registry_view()[k].state is Loaded
    }

    /// Whether a free request for asset `k` was pushed on the queue of the
    /// factory of its type, accepted or refused as `accepted` says.
    pub open spec fn free_sent(&self, k: Seq<char>, accepted: bool) -> bool {
        exists|q: AssetQueryID| #[trigger] free_request_sent(self.request_queue(self.registry_view()[k].header.asset_type), q, k, accepted)
    }

    /// Index `j` holds the first asset, in registration order, that fails
    /// the hub's own checks for a free query.
    pub open spec fn first_not_free_ready(&self, j: int) -> bool {
        &&& 0 <= j < self.asset_order().len()
        &&& !self.free_ready(self.asset_order()[j])
        &&& forall|i: int| 0 <= i < j ==> self.free_ready(#[trigger] self.asset_order()[i])
    }

    /// The free queries reached asset `t`: it and every asset before it
    /// pass the hub's own checks, and the requests for the assets before
    /// it were accepted.
    pub open spec fn free_passed_before(&self, t: int) -> bool {
        &&& 0 <= t < self.asset_order().len()
        &&& forall|i: int| 0 <= i <= t ==> self.free_ready(#[trigger] self.asset_order()[i])
        &&& forall|i: int| 0 <= i < t ==> self.free_sent(#[trigger] self.asset_order()[i], true)
    }

    /// The free queries stopped at asset `t` on a full queue: they reached
    /// it and its request was refused.
    pub open spec fn free_stopped_at(&self, t: int) -> bool {
        &&& self.free_passed_before(t)
        &&& self.free_sent(self.asset_order()[t], false)
    }

    /// The registration order lists exactly the registered assets, each
    /// once.
    pub proof fn law_asset_order(&self)
        requires
            self.wf(),
        ensures
            forall|k: Seq<char>|
                #![trigger self.registry_view().contains_key(k)]
                self.registry_view().contains_key(k) <==> self.asset_order().contains(k),
            self.asset_order().no_duplicates(),
    {
        self.registry.lemma_keys();
    }

    /// Reads every asset the reader enumerates, in order, registering it
    /// raw with the default metadata of its type (an identifier enumerated
    /// twice keeps its last header and bytes). Fails with the reader's
    /// first error.
    #[verifier::loop_isolation(false)]
    pub fn new<R: AssetReader>(reader: R) -> (r: Result<AssetHub, String>)
        ensures
            r matches Ok(hub) ==> {
                &&& hub.wf()
                &&& hub.factory_types() == Seq::<AssetType>::empty()
                &&& hub.pending() == Seq::<AssetQueryID>::empty()
                &&& hub.next_query() == 0
                &&& exists|list: Vec<(AssetID, AssetHeader)>|
                    #[trigger] reader_enumerates(reader, Ok(list)) && registered_from::<R>(
                        hub.registry_view(),
                        list@,
                    )
                &&& forall|k: Seq<char>|
                    #[trigger] hub.registry_view().contains_key(k) ==> hub.registry_view()[k].state
                        is Raw && (hub.registry_view()[k].metadata.spec_suitable_for(
                        hub.registry_view()[k].header.asset_type,
                    ) <==> (hub.registry_view()[k].header.asset_type != AssetType::Unknown
                        && hub.registry_view()[k].header.asset_type != AssetType::AudioMIDI))
            },
            r matches Err(e) ==> {
                ||| reader_enumerates(reader, Err(e))
                ||| exists|list: Vec<(AssetID, AssetHeader)>|
                    #[trigger] reader_enumerates(reader, Ok(list)) && exists|i: int|
                        0 <= i < list@.len() && #[trigger] reader_loads::<R>(list@[i].0, Err(e))
            },
    {
        let mut reader = reader;
        let ghost reader0 = reader;
        let listed = reader.enumerate();
        proof {
            assert(exists|m: &mut R| *m == reader0 && call_ensures(R::enumerate, (m,), listed));
            assert(reader_enumerates(reader0, listed));
        }
        let items = match listed {
            Ok(items) => items,
            Err(e) => {
                return Err(e);
            },
        };
        let ghost list = items;
        let mut registry = AssetRegistry::new();
        for item in it: items
            invariant
                it.seq() == list@,
                reader_enumerates(reader0, Ok(list)),
                registry.wf(),
                registered_from::<R>(registry.view(), list@.take(it.index() as int)),
                forall|k: Seq<char>|
                    #[trigger] registry.view().contains_key(k) ==> registry.view()[k].state is Raw
                        && (registry.view()[k].metadata.spec_suitable_for(
                        registry.view()[k].header.asset_type,
                    ) <==> (registry.view()[k].header.asset_type != AssetType::Unknown
                        && registry.view()[k].header.asset_type != AssetType::AudioMIDI)),
        {
            let ghost n = it.index() as int;
            let ghost before = registry.view();
            let (id, header) = item;
            let loaded = reader.load(&id);
            proof {
                assert(list@[n] == (id, header));
                assert(exists|m: &mut R| call_ensures(R::load, (m, &id), loaded));
                assert(reader_loads::<R>(id, loaded));
            }
            let data = match loaded {
                Ok(data) => data,
                Err(e) => {
                    proof {
                        assert(reader_loads::<R>(list@[n].0, Err(e)));
                        assert(exists|i: int|
                            0 <= i < list@.len() && #[trigger] reader_loads::<R>(list@[i].0, Err(e)));
                        assert(reader_enumerates(reader0, Ok(list)));
                    }
                    return Err(e);
                },
            };
            let metadata = TypeSpecificMetadata::default_for(header.asset_type);
            proof {
                law_default_metadata_suits(header.asset_type, metadata);
            }
            let ghost d = data;
            registry.push(id, header, metadata, data);
            proof {
                lemma_registered_step::<R>(before, registry.view(), list@, n, d);
            }
        }
        proof {
            assert(list@.take(list@.len() as int) =~= list@);
        }
        let out_queue: ArrayQueue<OutMessage> = queue_new(OUT_QUEUE_CAPACITY);
        let hub = AssetHub {
            factories: Vec::new(),
            out_queue: Arc::new(out_queue),
            registry,
            queries: QueriesRegistry::new(),
            query_ids: AssetQueryIdSource::new(),
        };
        assert(binding_types(hub.factories@) =~= Seq::<AssetType>::empty());
        Ok(hub)
    }

    /// Whether a factory serves `asset_type`.
    pub fn has_factory(&self, asset_type: AssetType) -> (r: bool)
        ensures
            r == self.factory_types().contains(asset_type),
    {
        match self.factory_index(asset_type) {
            Some(_) => true,
            None => false,
        }
    }

    fn factory_index(&self, asset_type: AssetType) -> (r: Option<usize>)
        ensures
            r matches Some(i) ==> i < self.factories.len() && self.factories@[i as int].spec_asset_type()
                == asset_type,
            r is None <==> !self.factory_types().contains(asset_type),
    {
        let mut i: usize = 0;
        while i < self.factories.len()
            invariant
                0 <= i <= self.factories.len(),
                forall|j: int| 0 <= j < i ==> self.factories@[j].spec_asset_type() != asset_type,
            decreases self.factories.len() - i,
        {
            if self.factories[i].asset_type() == asset_type {
                assert(self.factory_types()[i as int] == asset_type);
                return Some(i);
            }
            i = i + 1;
        }
        proof {
            assert forall|j: int| 0 <= j < self.factory_types().len() implies self.factory_types()[j]
                != asset_type by {
                assert(self.factory_types()[j] == self.factories@[j].spec_asset_type());
            }
        }
        None
    }

    /// Creates the binding (a fresh request queue and the hub's answer
    /// queue) for the factory of `asset_type`, and registers it.
    pub fn create_factory_biding(&mut self, asset_type: AssetType) -> (r: FactoryBinding)
        requires
            old(self).wf(),
            !old(self).factory_types().contains(asset_type),
        ensures
            final(self).wf(),
            r.spec_asset_type() == asset_type,
            r.spec_out_queue() == old(self).answer_queue(),
            final(self).answer_queue() == old(self).answer_queue(),
            final(self).factory_types() == old(self).factory_types().push(asset_type),
            final(self).registry_view() == old(self).registry_view(),
            final(self).asset_order() == old(self).asset_order(),
            final(self).pending() == old(self).pending(),
            final(self).next_query() == old(self).next_query(),
    {
        let in_queue: ArrayQueue<InMessage> = queue_new(IN_QUEUE_CAPACITY);
        let binding = FactoryBinding::new(asset_type, Arc::new(in_queue), Arc::clone(&self.out_queue));
        let ghost before = self.factories@;
        self.factories.push(binding.clone());
        proof {
            assert(binding_types(self.factories@) =~= binding_types(before).push(asset_type));
            let t = binding_types(self.factories@);
            assert forall|i: int, j: int| 0 <= i < t.len() && 0 <= j < t.len() && i != j implies t[i]
                != t[j] by {
                if i < before.len() && j < before.len() {
                    assert(t[i] == binding_types(before)[i] && t[j] == binding_types(before)[j]);
                } else if i < before.len() {
                    assert(t[i] == binding_types(before)[i]);
                } else {
                    assert(t[j] == binding_types(before)[j]);
                }
            }
        }
        binding
    }

    /// The factory of the asset `id`'s type.
    fn select_factory(&self, id: &AssetID) -> (r: Result<&FactoryBinding, QueryAssetError>)
        requires
            self.wf(),
        ensures
            !self.registry_view().contains_key(id@) ==> (r matches Err(
                QueryAssetError::AssetNotFound(x),
            ) && x@ == id@),
            self.registry_view().contains_key(id@) && !self.factory_types().contains(
                self.registry_view()[id@].header.asset_type,
            ) ==> (r matches Err(QueryAssetError::FactoryNotFound(t)) && t
                == self.registry_view()[id@].header.asset_type),
            self.registry_view().contains_key(id@) && self.factory_types().contains(
                self.registry_view()[id@].header.asset_type,
            ) ==> r is Ok,
            r matches Ok(f) ==> f.spec_in_queue() == self.request_queue(
                self.registry_view()[id@].header.asset_type,
            ),
    {
        match self.registry.get(id) {
            Some(item) => {
                match self.factory_index(item.header.asset_type) {
                    Some(i) => {
                        proof {
                            let types = binding_types(self.factories@);
                            assert(types[i as int] == item.header.asset_type);
                            let k = types.index_of(item.header.asset_type);
                            assert(0 <= k < types.len() && types[k] == item.header.asset_type);
                            assert(k == i);
                        }
                        Ok(&self.factories[i])
                    },
                    None => Err(QueryAssetError::FactoryNotFound(item.header.asset_type)),
                }
            },
            None => Err(QueryAssetError::AssetNotFound(id.clone())),
        }
    }

    /// Sends a request to a factory; a full request queue is an IPC error.
    /// Whether the queue is full depends on other threads, so which of the
    /// two outcomes occurs is not stated.
    fn send_message(factory: &FactoryBinding, message: InMessage) -> (r: Result<(), QueryAssetError>)
        ensures
            r is Ok || r matches Err(QueryAssetError::IPCError),
            push_answers(factory.spec_in_queue(), message, r is Ok),
    {
        let queue = factory.in_queue();
        let ghost m = message;
        let pushed = queue_push(&*queue, message);
        proof {
            assert(call_ensures(queue_push::<InMessage>, (&*queue, m), pushed));
            assert(push_answers(factory.spec_in_queue(), m, pushed is Ok));
        }
        match pushed {
            Ok(()) => Ok(()),
            Err(_) => Err(QueryAssetError::IPCError),
        }
    }

    /// Asks the factory of asset `aid`'s type to load it under query `qid`.
    /// Fails when the asset is unknown, its type has no factory, it is not
    /// raw any more, or the request queue is full; otherwise the query
    /// becomes pending.
    pub fn query_load_inner(&mut self, qid: AssetQueryID, aid: AssetID) -> (r: Result<
        AssetQueryID,
        QueryAssetError,
    >)
        requires
            old(self).wf(),
        ensures
            final(self).wf(),
            final(self).registry_view() == old(self).registry_view(),
            final(self).asset_order() == old(self).asset_order(),
            final(self).factory_types() == old(self).factory_types(),
            final(self).next_query() == old(self).next_query(),
            forall|t: AssetType| #[trigger] final(self).request_queue(t) == old(self).request_queue(t),
            !old(self).registry_view().contains_key(aid@) ==> (r matches Err(
                QueryAssetError::AssetNotFound(x),
            ) && x@ == aid@),
            old(self).registry_view().contains_key(aid@) && !old(self).factory_types().contains(
                old(self).registry_view()[aid@].header.asset_type,
            ) ==> (r matches Err(QueryAssetError::FactoryNotFound(t)) && t == old(
                self,
            ).registry_view()[aid@].header.asset_type),
            old(self).registry_view().contains_key(aid@) && old(self).factory_types().contains(
                old(self).registry_view()[aid@].header.asset_type,
            ) && !(old(self).registry_view()[aid@].state is Raw) ==> (r matches Err(
                QueryAssetError::AlreadyLoaded(x),
            ) && x@ == aid@),
            old(self).registry_view().contains_key(aid@) && old(self).factory_types().contains(
                old(self).registry_view()[aid@].header.asset_type,
            ) && old(self).registry_view()[aid@].state is Raw ==> (r == Ok::<
                AssetQueryID,
                QueryAssetError,
            >(qid) && final(self).pending() == with_query(old(self).pending(), qid) && load_request_sent(
                old(self).request_queue(old(self).registry_view()[aid@].header.asset_type),
                qid,
                aid@,
                old(self).registry_view()[aid@],
                true,
            )) || (r matches Err(QueryAssetError::IPCError) && final(self).pending() == old(
                self,
            ).pending() && load_request_sent(
                old(self).request_queue(old(self).registry_view()[aid@].header.asset_type),
                qid,
                aid@,
                old(self).registry_view()[aid@],
                false,
            )),
            r is Err ==> final(self).pending() == old(self).pending(),
    {
        let factory = self.select_factory(&aid)?;
        let item = match self.registry.get(&aid) {
            Some(item) => item,
            None => return Err(QueryAssetError::AssetNotFound(aid.clone())),
        };
        match &item.state {
            AssetState::Raw(raw) => {
                let message = load_message(qid, &aid, &item.header, raw);
                let ghost m = message;
                let sent = Self::send_message(factory, message);
                proof {
                    assert(is_load_request(m, qid, aid@, item.header, raw@));
                }
                if sent.is_err() {
                    return Err(QueryAssetError::IPCError);
                }
            },
            _ => {
                return Err(QueryAssetError::AlreadyLoaded(aid.clone()));
            },
        }
        self.queries.add_query(qid);
        Ok(qid)
    }

    /// Asks the factory of asset `aid`'s type to free it under query `qid`.
    /// Fails when the asset is unknown, its type has no factory, it is not
    /// loaded, it still has outstanding handles, or the request queue is
    /// full; otherwise the query becomes pending.
    pub fn query_free_inner(&mut self, qid: AssetQueryID, aid: AssetID) -> (r: Result<
        AssetQueryID,
        QueryAssetError,
    >)
        requires
            old(self).wf(),
        ensures
            final(self).wf(),
            final(self).registry_view() == old(self).registry_view(),
            final(self).asset_order() == old(self).asset_order(),
            final(self).factory_types() == old(self).factory_types(),
            final(self).next_query() == old(self).next_query(),
            forall|t: AssetType| #[trigger] final(self).request_queue(t) == old(self).request_queue(t),
            !old(self).registry_view().contains_key(aid@) ==> (r matches Err(
                QueryAssetError::AssetNotFound(x),
            ) && x@ == aid@),
            old(self).registry_view().contains_key(aid@) && !old(self).factory_types().contains(
                old(self).registry_view()[aid@].header.asset_type,
            ) ==> (r matches Err(QueryAssetError::FactoryNotFound(t)) && t == old(
                self,
            ).registry_view()[aid@].header.asset_type),
            old(self).registry_view().contains_key(aid@) && old(self).factory_types().contains(
                old(self).registry_view()[aid@].header.asset_type,
            ) && !(old(self).registry_view()[aid@].state is Loaded) ==> (r matches Err(
                QueryAssetError::AlreadyFreed(x),
            ) && x@ == aid@),
            old(self).registry_view().contains_key(aid@) && old(self).factory_types().contains(
                old(self).registry_view()[aid@].header.asset_type,
            ) && old(self).registry_view()[aid@].state is Loaded ==> (r == Ok::<
                AssetQueryID,
                QueryAssetError,
            >(qid) && final(self).pending() == with_query(old(self).pending(), qid) && free_request_sent(
                old(self).request_queue(old(self).registry_view()[aid@].header.asset_type),
                qid,
                aid@,
                true,
            )) || (r matches Err(QueryAssetError::IPCError) && final(self).pending() == old(
                self,
            ).pending() && free_request_sent(
                old(self).request_queue(old(self).registry_view()[aid@].header.asset_type),
                qid,
                aid@,
                false,
            )) || (r matches Err(
                QueryAssetError::StillInUse(x, n),
            ) && x@ == aid@ && n > 0 && final(self).pending() == old(self).pending()),
            r is Err ==> final(self).pending() == old(self).pending(),
    {
        let factory = self.select_factory(&aid)?;
        let item = match self.registry.get(&aid) {
            Some(item) => item,
            None => return Err(QueryAssetError::AssetNotFound(aid.clone())),
        };
        let rc = match &item.state {
            AssetState::Loaded(_) => load_rc(&item.rc),
            _ => 0,
        };
        check_free(&item.state, rc, &aid)?;
        let message = free_message(qid, &aid);
        let ghost m = message;
        let sent = Self::send_message(factory, message);
        proof {
            assert(is_free_request(m, qid, aid@));
        }
        if sent.is_err() {
            return Err(QueryAssetError::IPCError);
        }
        self.queries.add_query(qid);
        Ok(qid)
    }

    /// Loads asset `id` under the next query identifier (see
    /// `query_load_inner`).
    pub fn query_load(&mut self, id: AssetID) -> (r: Result<AssetQueryID, QueryAssetError>)
        requires
            old(self).wf(),
        ensures
            final(self).wf(),
            final(self).registry_view() == old(self).registry_view(),
            final(self).asset_order() == old(self).asset_order(),
            final(self).factory_types() == old(self).factory_types(),
            final(self).next_query() == next_number(old(self).next_query()),
            r matches Ok(q) ==> q.spec_value() == old(self).next_query() && final(self).pending()
                == with_query(old(self).pending(), q),
            r is Err ==> final(self).pending() == old(self).pending(),
            !old(self).registry_view().contains_key(id@) ==> (r matches Err(
                QueryAssetError::AssetNotFound(x),
            ) && x@ == id@),
            old(self).registry_view().contains_key(id@) && !old(self).factory_types().contains(
                old(self).registry_view()[id@].header.asset_type,
            ) ==> (r matches Err(QueryAssetError::FactoryNotFound(t)) && t == old(
                self,
            ).registry_view()[id@].header.asset_type),
            old(self).registry_view().contains_key(id@) && old(self).factory_types().contains(
                old(self).registry_view()[id@].header.asset_type,
            ) && !(old(self).registry_view()[id@].state is Raw) ==> (r matches Err(
                QueryAssetError::AlreadyLoaded(x),
            ) && x@ == id@),
            old(self).registry_view().contains_key(id@) && old(self).factory_types().contains(
                old(self).registry_view()[id@].header.asset_type,
            ) && old(self).registry_view()[id@].state is Raw ==> (r matches Ok(q) && load_request_sent(
                old(self).request_queue(old(self).registry_view()[id@].header.asset_type),
                q,
                id@,
                old(self).registry_view()[id@],
                true,
            )) || (r matches Err(QueryAssetError::IPCError) && exists|q: AssetQueryID|
                q.spec_value() == old(self).next_query() && #[trigger] load_request_sent(
                    old(self).request_queue(old(self).registry_view()[id@].header.asset_type),
                    q,
                    id@,
                    old(self).registry_view()[id@],
                    false,
                )),
    {
        let qid = self.query_ids.next_id();
        let ghost idv = id@;
        proof {
            assert(forall|t: AssetType| #[trigger] self.request_queue(t) == old(self).request_queue(t));
        }
        let r = self.query_load_inner(qid, id);
        proof {
            if old(self).registry_view().contains_key(idv) && r is Err {
                let c = old(self).registry_view()[idv];
                let qu = old(self).request_queue(c.header.asset_type);
                if load_request_sent(qu, qid, idv, c, false) {
                    assert(exists|q: AssetQueryID|
                        q.spec_value() == old(self).next_query() && #[trigger] load_request_sent(qu, q, idv, c, false));
                }
            }
        }
        r
    }

    /// Frees asset `id` under the next query identifier (see
    /// `query_free_inner`).
    pub fn query_free(&mut self, id: AssetID) -> (r: Result<AssetQueryID, QueryAssetError>)
        requires
            old(self).wf(),
        ensures
            final(self).wf(),
            final(self).registry_view() == old(self).registry_view(),
            final(self).asset_order() == old(self).asset_order(),
            final(self).factory_types() == old(self).factory_types(),
            final(self).next_query() == next_number(old(self).next_query()),
            r matches Ok(q) ==> q.spec_value() == old(self).next_query() && final(self).pending()
                == with_query(old(self).pending(), q),
            r is Err ==> final(self).pending() == old(self).pending(),
            !old(self).registry_view().contains_key(id@) ==> (r matches Err(
                QueryAssetError::AssetNotFound(x),
            ) && x@ == id@),
            old(self).registry_view().contains_key(id@) && !old(self).factory_types().contains(
                old(self).registry_view()[id@].header.asset_type,
            ) ==> (r matches Err(QueryAssetError::FactoryNotFound(t)) && t == old(
                self,
            ).registry_view()[id@].header.asset_type),
            old(self).registry_view().contains_key(id@) && old(self).factory_types().contains(
                old(self).registry_view()[id@].header.asset_type,
            ) && !(old(self).registry_view()[id@].state is Loaded) ==> (r matches Err(
                QueryAssetError::AlreadyFreed(x),
            ) && x@ == id@),
            old(self).registry_view().contains_key(id@) && old(self).factory_types().contains(
                old(self).registry_view()[id@].header.asset_type,
            ) && old(self).registry_view()[id@].state is Loaded ==> (r matches Ok(q) && free_request_sent(
                old(self).request_queue(old(self).registry_view()[id@].header.asset_type),
                q,
                id@,
                true,
            )) || (r matches Err(QueryAssetError::IPCError) && exists|q: AssetQueryID|
                q.spec_value() == old(self).next_query() && #[trigger] free_request_sent(
                    old(self).request_queue(old(self).registry_view()[id@].header.asset_type),
                    q,
                    id@,
                    false,
                )) || (r matches Err(QueryAssetError::StillInUse(x, n)) && x@ == id@ && n > 0),
    {
        let qid = self.query_ids.next_id();
        let ghost idv = id@;
        proof {
            assert(forall|t: AssetType| #[trigger] self.request_queue(t) == old(self).request_queue(t));
        }
        let r = self.query_free_inner(qid, id);
        proof {
            if old(self).registry_view().contains_key(idv) && r is Err {
                let c = old(self).registry_view()[idv];
                let qu = old(self).request_queue(c.header.asset_type);
                if free_request_sent(qu, qid, idv, false) {
                    assert(exists|q: AssetQueryID|
                        q.spec_value() == old(self).next_query() && #[trigger] free_request_sent(qu, q, idv, false));
                }
            }
        }
        r
    }

    /// Sends a load query for every asset, in registration order, stopping
    /// at the first failure. Returns a fresh identifier on success. The
    /// first asset that fails the hub's own checks (its type has no
    /// factory, or it is not raw) gives the matching error, unless an
    /// earlier request was refused by a full queue.
    pub fn query_load_all(&mut self) -> (r: Result<AssetQueryID, QueryAssetError>)
        requires
            old(self).wf(),
        ensures
            final(self).wf(),
            final(self).registry_view() == old(self).registry_view(),
            r is Ok ==> forall|k: Seq<char>|
                #[trigger] old(self).registry_view().contains_key(k) ==> old(self).load_ready(k) && exists|q: AssetQueryID|
                    #[trigger] load_request_sent(old(self).request_queue(old(self).registry_view()[k].header.asset_type), q, k, old(self).registry_view()[k], true) && final(self).pending().contains(q),
            r matches Ok(q) ==> final(self).next_query() == next_number(q.spec_value()),
            old(self).registry_view() == Map::<Seq<char>, AssetContainer>::empty() ==> r is Ok,
            (forall|i: int|
                0 <= i < old(self).asset_order().len() ==> old(self).load_ready(
                    #[trigger] old(self).asset_order()[i],
                )) ==> r is Ok || r matches Err(QueryAssetError::IPCError),
            forall|j: int|
                #[trigger] old(self).first_not_load_ready(j) ==> {
                    let k = old(self).asset_order()[j];
                    let ty = old(self).registry_view()[k].header.asset_type;
                    ||| !old(self).factory_types().contains(ty) && (r matches Err(
                        QueryAssetError::FactoryNotFound(t),
                    ) && t == ty)
                    ||| old(self).factory_types().contains(ty) && (r matches Err(
                        QueryAssetError::AlreadyLoaded(x),
                    ) && x@ == k)
                    ||| r matches Err(QueryAssetError::IPCError)
                },
            r matches Err(QueryAssetError::FactoryNotFound(t)) ==> exists|j: int|
                #[trigger] old(self).first_not_load_ready(j) && old(self).registry_view()[old(
                    self,
                ).asset_order()[j]].header.asset_type == t && !old(self).factory_types().contains(t),
            r matches Err(QueryAssetError::AlreadyLoaded(x)) ==> exists|j: int|
                #[trigger] old(self).first_not_load_ready(j) && old(self).asset_order()[j] == x@
                    && old(self).factory_types().contains(
                    old(self).registry_view()[x@].header.asset_type,
                ),
            r matches Err(QueryAssetError::IPCError) ==> exists|t: int| #[trigger] old(self).load_stopped_at(t),
            !(r matches Err(QueryAssetError::AssetNotFound(_))),
            !(r matches Err(QueryAssetError::AlreadyFreed(_))),
    {
        let keys = self.registry.keys();
        proof {
            self.registry.lemma_keys();
        }
        let ghost reg = self.registry.view();
        let ghost order = self.registry.key_seq();
        let mut i: usize = 0;
        while i < keys.len()
            invariant
                0 <= i <= keys.len(),
                self.wf(),
                self.registry.view() == reg,
                self.factory_types() == old(self).factory_types(),
                reg == old(self).registry_view(),
                order == old(self).asset_order(),
                keys@.map_values(|a: AssetID| a@) == order,
                forall|k: Seq<char>| #![trigger reg.contains_key(k)] reg.contains_key(k) <==> order.contains(k),
                forall|j: int| 0 <= j < i ==> old(self).load_ready(#[trigger] order[j]),
                forall|j: int| 0 <= j < i ==> old(self).load_sent(#[trigger] order[j], true),
                forall|t: AssetType| #[trigger] self.request_queue(t) == old(self).request_queue(t),
                forall|j: int|
                    #![trigger order[j]]
                    0 <= j < i ==> exists|q: AssetQueryID|
                        #[trigger] load_request_sent(old(self).request_queue(reg[order[j]].header.asset_type), q, order[j], reg[order[j]], true) && self.pending().contains(q),
            decreases keys.len() - i,
        {
            let ghost f0 = self.factories@;
            proof {
                assert forall|t: AssetType| f0[binding_types(f0).index_of(t)].spec_in_queue()
                    == #[trigger] old(self).request_queue(t) by {
                    assert(self.request_queue(t) == old(self).request_queue(t));
                }
            }
            let qid = self.query_ids.next_id();
            let id = keys[i].clone();
            proof {
                assert(order[i as int] == keys@[i as int]@);
                assert(reg.contains_key(order[i as int]));
            }
            let ghost p_before = self.pending();
            proof {
                assert forall|t: AssetType| #[trigger] self.request_queue(t) == old(self).request_queue(t) by {
                    assert(self.factories@ == f0);
                }
                assert(id@ == order[i as int]);
            }
            let ghost k = order[i as int];
            let answer = self.query_load_inner(qid, id);
            match answer {
                Ok(_) => {},
                Err(e) => {
                    proof {
                        let ty = reg[k].header.asset_type;
                        assert(reg.contains_key(k));
                        assert(order[i as int] == k);
                        if old(self).load_ready(k) {
                            if e is IPCError {
                                assert(load_request_sent(old(self).request_queue(ty), qid, k, reg[k], false));
                                assert(old(self).load_sent(k, false));
                                assert(old(self).load_passed_before(i as int));
                                assert(old(self).load_stopped_at(i as int));
                            }
                        } else {
                            assert(old(self).first_not_load_ready(i as int));
                            assert forall|j: int| #[trigger] old(self).first_not_load_ready(j) implies j == i by {
                                if j < i {
                                    assert(old(self).load_ready(order[j]));
                                } else if j > i {
                                    assert(old(self).load_ready(order[i as int]));
                                }
                            }
                        }
                    }
                    return Err(e);
                },
            }
            proof {
                assert(self.pending() == with_query(p_before, qid));
                assert(self.pending().contains(qid)) by {
                    if !p_before.contains(qid) {
                        assert(self.pending()[p_before.len() as int] == qid);
                    }
                }
                assert forall|j: int| #![trigger order[j]] 0 <= j < i implies exists|q: AssetQueryID|
                    #[trigger] load_request_sent(old(self).request_queue(reg[order[j]].header.asset_type), q, order[j], reg[order[j]], true) && self.pending().contains(q) by {
                    let q = choose|q: AssetQueryID| #[trigger] load_request_sent(old(self).request_queue(reg[order[j]].header.asset_type), q, order[j], reg[order[j]], true) && p_before.contains(q);
                    let x = choose|x: int| 0 <= x < p_before.len() && p_before[x] == q;
                    if !p_before.contains(qid) {
                        assert(self.pending()[x] == q);
                    }
                }
                assert(load_request_sent(old(self).request_queue(reg[order[i as int]].header.asset_type), qid, order[i as int], reg[order[i as int]], true));
                assert(old(self).load_sent(order[i as int], true));
                assert(old(self).load_ready(order[i as int]));
            }
            i = i + 1;
        }
        proof {
            assert forall|k: Seq<char>| #[trigger] reg.contains_key(k) implies old(self).load_ready(k) && exists|q: AssetQueryID|
                #[trigger] load_request_sent(old(self).request_queue(reg[k].header.asset_type), q, k, reg[k], true) && self.pending().contains(q) by {
                let j = choose|j: int| 0 <= j < order.len() && order[j] == k;
                assert(exists|q: AssetQueryID|
                    #[trigger] load_request_sent(old(self).request_queue(reg[order[j]].header.asset_type), q, order[j], reg[order[j]], true) && self.pending().contains(q));
                assert(old(self).load_ready(order[j]));
            }
            if reg == Map::<Seq<char>, AssetContainer>::empty() {
                if order.len() > 0 {
                    assert(order.contains(order[0]));
                }
            }
        }
        Ok(self.query_ids.next_id())
    }

    /// Sends a free query for every asset, in registration order, stopping
    /// at the first failure. Returns a fresh identifier on success. The
    /// first asset that fails the hub's own checks (its type has no
    /// factory, or it is not loaded) gives the matching error, unless an
    /// earlier request was refused by a full queue or met an asset still in use.
    pub fn query_free_all(&mut self) -> (r: Result<AssetQueryID, QueryAssetError>)
        requires
            old(self).wf(),
        ensures
            final(self).wf(),
            final(self).registry_view() == old(self).registry_view(),
            r is Ok ==> forall|k: Seq<char>|
                #[trigger] old(self).registry_view().contains_key(k) ==> old(self).free_ready(k) && exists|q: AssetQueryID|
                    #[trigger] free_request_sent(old(self).request_queue(old(self).registry_view()[k].header.asset_type), q, k, true) && final(self).pending().contains(q),
            r matches Ok(q) ==> final(self).next_query() == next_number(q.spec_value()),
            old(self).registry_view() == Map::<Seq<char>, AssetContainer>::empty() ==> r is Ok,
            (forall|i: int|
                0 <= i < old(self).asset_order().len() ==> old(self).free_ready(
                    #[trigger] old(self).asset_order()[i],
                )) ==> r is Ok || r matches Err(QueryAssetError::IPCError) || r matches Err(QueryAssetError::StillInUse(_, _)),
            forall|j: int|
                #[trigger] old(self).first_not_free_ready(j) ==> {
                    let k = old(self).asset_order()[j];
                    let ty = old(self).registry_view()[k].header.asset_type;
                    ||| !old(self).factory_types().contains(ty) && (r matches Err(
                        QueryAssetError::FactoryNotFound(t),
                    ) && t == ty)
                    ||| old(self).factory_types().contains(ty) && (r matches Err(
                        QueryAssetError::AlreadyFreed(x),
                    ) && x@ == k)
                    ||| r matches Err(QueryAssetError::IPCError)
                ||| r matches Err(QueryAssetError::StillInUse(_, _))
                },
            r matches Err(QueryAssetError::FactoryNotFound(t)) ==> exists|j: int|
                #[trigger] old(self).first_not_free_ready(j) && old(self).registry_view()[old(
                    self,
                ).asset_order()[j]].header.asset_type == t && !old(self).factory_types().contains(t),
            r matches Err(QueryAssetError::AlreadyFreed(x)) ==> exists|j: int|
                #[trigger] old(self).first_not_free_ready(j) && old(self).asset_order()[j] == x@
                    && old(self).factory_types().contains(
                    old(self).registry_view()[x@].header.asset_type,
                ),
            r matches Err(QueryAssetError::IPCError) ==> exists|t: int| #[trigger] old(self).free_stopped_at(t),
            r matches Err(QueryAssetError::StillInUse(x, n)) ==> n > 0 && exists|t: int|
                #[trigger] old(self).free_passed_before(t) && old(self).asset_order()[t] == x@,
            !(r matches Err(QueryAssetError::AssetNotFound(_))),
            !(r matches Err(QueryAssetError::AlreadyLoaded(_))),
    {
        let keys = self.registry.keys();
        proof {
            self.registry.lemma_keys();
        }
        let ghost reg = self.registry.view();
        let ghost order = self.registry.key_seq();
        let mut i: usize = 0;
        while i < keys.len()
            invariant
                0 <= i <= keys.len(),
                self.wf(),
                self.registry.view() == reg,
                self.factory_types() == old(self).factory_types(),
                reg == old(self).registry_view(),
                order == old(self).asset_order(),
                keys@.map_values(|a: AssetID| a@) == order,
                forall|k: Seq<char>| #![trigger reg.contains_key(k)] reg.contains_key(k) <==> order.contains(k),
                forall|j: int| 0 <= j < i ==> old(self).free_ready(#[trigger] order[j]),
                forall|j: int| 0 <= j < i ==> old(self).free_sent(#[trigger] order[j], true),
                forall|t: AssetType| #[trigger] self.request_queue(t) == old(self).request_queue(t),
                forall|j: int|
                    #![trigger order[j]]
                    0 <= j < i ==> exists|q: AssetQueryID|
                        #[trigger] free_request_sent(old(self).request_queue(reg[order[j]].header.asset_type), q, order[j], true) && self.pending().contains(q),
            decreases keys.len() - i,
        {
            let ghost f0 = self.factories@;
            proof {
                assert forall|t: AssetType| f0[binding_types(f0).index_of(t)].spec_in_queue()
                    == #[trigger] old(self).request_queue(t) by {
                    assert(self.request_queue(t) == old(self).request_queue(t));
                }
            }
            let qid = self.query_ids.next_id();
            let id = keys[i].clone();
            proof {
                assert(order[i as int] == keys@[i as int]@);
                assert(reg.contains_key(order[i as int]));
            }
            let ghost p_before = self.pending();
            proof {
                assert forall|t: AssetType| #[trigger] self.request_queue(t) == old(self).request_queue(t) by {
                    assert(self.factories@ == f0);
                }
                assert(id@ == order[i as int]);
            }
            let ghost k = order[i as int];
            let answer = self.query_free_inner(qid, id);
            match answer {
                Ok(_) => {},
                Err(e) => {
                    proof {
                        let ty = reg[k].header.asset_type;
                        assert(reg.contains_key(k));
                        assert(order[i as int] == k);
                        if old(self).free_ready(k) {
                            if e is IPCError {
                                assert(free_request_sent(old(self).request_queue(ty), qid, k, false));
                                assert(old(self).free_sent(k, false));
                                assert(old(self).free_passed_before(i as int));
                                assert(old(self).free_stopped_at(i as int));
                            } else if e matches QueryAssetError::StillInUse(_, _) {
                                assert(old(self).free_passed_before(i as int));
                            }
                        } else {
                            assert(old(self).first_not_free_ready(i as int));
                            assert forall|j: int| #[trigger] old(self).first_not_free_ready(j) implies j == i by {
                                if j < i {
                                    assert(old(self).free_ready(order[j]));
                                } else if j > i {
                                    assert(old(self).free_ready(order[i as int]));
                                }
                            }
                        }
                    }
                    return Err(e);
                },
            }
            proof {
                assert(self.pending() == with_query(p_before, qid));
                assert(self.pending().contains(qid)) by {
                    if !p_before.contains(qid) {
                        assert(self.pending()[p_before.len() as int] == qid);
                    }
                }
                assert forall|j: int| #![trigger order[j]] 0 <= j < i implies exists|q: AssetQueryID|
                    #[trigger] free_request_sent(old(self).request_queue(reg[order[j]].header.asset_type), q, order[j], true) && self.pending().contains(q) by {
                    let q = choose|q: AssetQueryID| #[trigger] free_request_sent(old(self).request_queue(reg[order[j]].header.asset_type), q, order[j], true) && p_before.contains(q);
                    let x = choose|x: int| 0 <= x < p_before.len() && p_before[x] == q;
                    if !p_before.contains(qid) {
                        assert(self.pending()[x] == q);
                    }
                }
                assert(free_request_sent(old(self).request_queue(reg[order[i as int]].header.asset_type), qid, order[i as int], true));
                assert(old(self).free_sent(order[i as int], true));
                assert(old(self).free_ready(order[i as int]));
            }
            i = i + 1;
        }
        proof {
            assert forall|k: Seq<char>| #[trigger] reg.contains_key(k) implies old(self).free_ready(k) && exists|q: AssetQueryID|
                #[trigger] free_request_sent(old(self).request_queue(reg[k].header.asset_type), q, k, true) && self.pending().contains(q) by {
                let j = choose|j: int| 0 <= j < order.len() && order[j] == k;
                assert(exists|q: AssetQueryID|
                    #[trigger] free_request_sent(old(self).request_queue(reg[order[j]].header.asset_type), q, order[j], true) && self.pending().contains(q));
                assert(old(self).free_ready(order[j]));
            }
            if reg == Map::<Seq<char>, AssetContainer>::empty() {
                if order.len() > 0 {
                    assert(order.contains(order[0]));
                }
            }
        }
        Ok(self.query_ids.next_id())
    }

    /// Hands out asset `id` when it is loaded: where it lives and its
    /// handle counter.
    pub fn get(&self, id: AssetID) -> (r: Result<LoadedAsset, GetAssetError>)
        requires
            self.wf(),
        ensures
            !self.registry_view().contains_key(id@) ==> (r matches Err(GetAssetError::NotFound(x))
                && x@ == id@),
            self.registry_view().contains_key(id@) && !(self.registry_view()[id@].state is Loaded)
                ==> (r matches Err(GetAssetError::NotLoaded(x)) && x@ == id@),
            self.registry_view().contains_key(id@) && self.registry_view()[id@].state is Loaded
                ==> (r matches Ok(a) && self.registry_view()[id@].state == AssetState::Loaded(
                a.handle,
            ) && a.rc == self.registry_view()[id@].rc),
    {
        match self.registry.get(&id) {
            Some(item) => {
                match &item.state {
                    AssetState::Loaded(handle) => {
                        Ok(LoadedAsset { handle: *handle, rc: Arc::clone(&item.rc) })
                    },
                    _ => Err(GetAssetError::NotLoaded(id.clone())),
                }
            },
            None => Err(GetAssetError::NotFound(id)),
        }
    }

    /// Takes the next answer of the factories, if any. Other threads push
    /// and pop the answer queue concurrently, so what comes out is not
    /// stated.
    pub fn pop_out_message(&self) -> Option<OutMessage> {
        queue_pop(&*self.out_queue)
    }

    /// Applies one answer of a factory. A load moves a known asset to the
    /// loaded state and reports it, the completed query, and whether every
    /// asset is now loaded; a load of an unknown asset is ignored. A free
    /// moves a known asset to the freed state; it reports the freed asset,
    /// the completed query, and whether every asset is now freed, even for
    /// an unknown asset. A failure reports the completed query. Every
    /// reported query stops being pending.
    pub fn process_out_message(&mut self, message: OutMessage) -> (r: Vec<AssetHubEvent>)
        requires
            old(self).wf(),
        ensures
            final(self).wf(),
            final(self).factory_types() == old(self).factory_types(),
            final(self).asset_order() == old(self).asset_order(),
            final(self).next_query() == old(self).next_query(),
            match message {
                OutMessage::Loaded(qid, aid, handle) => if old(self).registry_view().contains_key(
                    aid@,
                ) {
                    &&& final(self).registry_view() == old(self).registry_view().insert(
                        aid@,
                        AssetContainer {
                            state: AssetState::Loaded(handle),
                            ..old(self).registry_view()[aid@]
                        },
                    )
                    &&& query_removed(old(self).pending(), final(self).pending(), qid)
                    &&& r@.map_values(|e: AssetHubEvent| e@) == seq![
                        AssetHubEventView::AssetLoaded(aid@),
                        AssetHubEventView::QueryCompleted(qid),
                    ] + if all_loaded(final(self).registry_view()) {
                        seq![AssetHubEventView::AllAssetsLoaded]
                    } else {
                        Seq::empty()
                    }
                } else {
                    &&& final(self).registry_view() == old(self).registry_view()
                    &&& final(self).pending() == old(self).pending()
                    &&& r@.len() == 0
                },
                OutMessage::Freed(qid, aid) => {
                    &&& old(self).registry_view().contains_key(aid@) ==> final(self).registry_view()
                        == old(self).registry_view().insert(
                        aid@,
                        AssetContainer { state: AssetState::Freed, ..old(self).registry_view()[aid@] },
                    )
                    &&& !old(self).registry_view().contains_key(aid@) ==> final(self).registry_view()
                        == old(self).registry_view()
                    &&& query_removed(old(self).pending(), final(self).pending(), qid)
                    &&& r@.map_values(|e: AssetHubEvent| e@) == seq![
                        AssetHubEventView::AssetFreed(aid@),
                        AssetHubEventView::QueryCompleted(qid),
                    ] + if all_freed(final(self).registry_view()) {
                        seq![AssetHubEventView::AllAssetsFreed]
                    } else {
                        Seq::empty()
                    }
                },
                OutMessage::Failed(qid, _, _) => {
                    &&& final(self).registry_view() == old(self).registry_view()
                    &&& query_removed(old(self).pending(), final(self).pending(), qid)
                    &&& r@.map_values(|e: AssetHubEvent| e@) == seq![
                        AssetHubEventView::QueryCompleted(qid),
                    ]
                },
            },
    {
        let mut events: Vec<AssetHubEvent> = Vec::new();
        match message {
            OutMessage::Loaded(qid, aid, handle) => {
                match self.registry.get_mut(&aid) {
                    Some(item) => {
                        item.state = AssetState::Loaded(handle);
                    },
                    None => {
                        return events;
                    },
                }
                events.push(AssetHubEvent::AssetLoaded(aid.clone()));
                events.push(AssetHubEvent::QueryCompleted(qid));
                self.queries.remove_query(&qid);
                if self.registry.all_loaded() {
                    events.push(AssetHubEvent::AllAssetsLoaded);
                }
            },
            OutMessage::Freed(qid, aid) => {
                match self.registry.get_mut(&aid) {
                    Some(item) => {
                        item.state = AssetState::Freed;
                    },
                    None => {},
                }
                events.push(AssetHubEvent::AssetFreed(aid.clone()));
                events.push(AssetHubEvent::QueryCompleted(qid));
                self.queries.remove_query(&qid);
                if self.registry.all_freed() {
                    events.push(AssetHubEvent::AllAssetsFreed);
                }
            },
            OutMessage::Failed(qid, _, _) => {
                events.push(AssetHubEvent::QueryCompleted(qid));
                self.queries.remove_query(&qid);
            },
        }
        proof {
            assert(self.registry.key_seq() =~= old(self).registry.key_seq());
        }
        events
    }
}

/// A query the hub sends stays pending until the factory's answer to it is
/// processed; then it is no longer pending, and every other pending query
/// still is.
pub proof fn law_answer_completes_query(
    before: Seq<AssetQueryID>,
    q: AssetQueryID,
    sent: Seq<AssetQueryID>,
    after: Seq<AssetQueryID>,
)
    requires
        before.no_duplicates(),
        sent == with_query(before, q),
        query_removed(sent, after, q),
    ensures
        sent.contains(q),
        !after.contains(q),
        after.no_duplicates(),
        forall|x: AssetQueryID| x != q ==> (before.contains(x) <==> #[trigger] after.contains(x)),
{
    law_queries_unique(before, q, sent);
    let p = choose|p: int|
        0 <= p < sent.len() && sent[p] == q && (forall|j: int| 0 <= j < p ==> sent[j] != q) && after
            == sent.remove(p);
    law_remove_query(sent, q, p);
    assert forall|x: AssetQueryID| x != q implies (before.contains(x) <==> #[trigger] after.contains(x)) by {
        if !before.contains(q) {
            if sent.contains(x) && !before.contains(x) {
                let i = choose|i: int| 0 <= i < sent.len() && sent[i] == x;
                if i < before.len() {
                    assert(before[i] == x);
                }
            }
            if before.contains(x) {
                let i = choose|i: int| 0 <= i < before.len() && before[i] == x;
                assert(sent[i] == x);
            }
        }
    }
}

} // verus!
