//! The collection of live engine objects and the dispatch of events to them.
//!
//! Objects are numbered in the order they are added; every object also
//! carries an identity key (the handle by which other objects name it) and
//! the mask of event kinds it subscribes to. For each event kind the
//! collection keeps the subscribers in the order they were added.

use vstd::prelude::*;
use std::collections::HashMap;
use crate::events::{
    spec_kind_at, spec_kind_index, Event, EventKind, EventMask, EVENT_KINDS,
};

verus! {

broadcast use vstd::std_specs::hash::group_hash_axioms;

/// Number assigned to an object when it joins a collection.
pub type ObjectID = usize;

/// What an object asks the collection to do after handling an event.
pub enum DispatchAction<O, R> {
    /// The object itself is to be removed.
    Die,
    /// New objects are to be added.
    SpawnObjects(Vec<O>),
    /// A new object is to be added.
    SpawnObject(O),
    /// The objects with this identity key are to be removed.
    KillObject(usize),
    /// The objects with these identity keys are to be removed.
    KillObjects(Vec<usize>),
    /// The application is to quit.
    QuitApplication,
    /// The object's renderable is to be replaced.
    UpdateRenderable(R),
    /// The object's renderable is to be deleted.
    DeleteRenderable,
    /// Nothing.
    Empty,
}

/// An object living in an [`ObjectsCollection`].
pub trait GameObject: Sized {
    /// Context passed to every dispatch.
    type Ctx;
    /// Scalar type of the events' time deltas and coordinates.
    type Scalar;
    /// What the object renders.
    type Renderable;

    /// The identity key by which actions name this object.
    fn identity(&self) -> usize;

    /// The event kinds the object is interested in.
    fn event_mask(&self) -> EventMask;

    /// Handles one event.
    fn dispatch(
        &mut self,
        ctx: &Self::Ctx,
        event: &Event<Self::Scalar>,
    ) -> DispatchAction<Self, Self::Renderable>;
}

/// An object together with its number, identity key and event mask.
pub struct NumberedObject<O> {
    pub id: ObjectID,
    pub key: usize,
    pub mask: EventMask,
    pub object: O,
}

/// Subscribers of `kind` among `alive`, as (number, key) pairs, in order.
pub open spec fn subscribers<O>(alive: Seq<NumberedObject<O>>, kind: EventKind) -> Seq<
    (ObjectID, usize),
>
    decreases alive.len(),
{
    if alive.len() == 0 {
        Seq::empty()
    } else {
        let rest = subscribers(alive.drop_last(), kind);
        let e = alive.last();
        if e.mask.spec_contains(kind) {
            rest.push((e.id, e.key))
        } else {
            rest
        }
    }
}

/// `alive` without the objects whose key is `key`, order kept.
pub open spec fn without_key<O>(alive: Seq<NumberedObject<O>>, key: usize) -> Seq<
    NumberedObject<O>,
>
    decreases alive.len(),
{
    if alive.len() == 0 {
        Seq::empty()
    } else {
        let rest = without_key(alive.drop_last(), key);
        if alive.last().key != key {
            rest.push(alive.last())
        } else {
            rest
        }
    }
}

/// `s` without the pairs whose key is `key`, order kept.
pub open spec fn pairs_without_key(s: Seq<(ObjectID, usize)>, key: usize) -> Seq<
    (ObjectID, usize),
>
    decreases s.len(),
{
    if s.len() == 0 {
        Seq::empty()
    } else {
        let rest = pairs_without_key(s.drop_last(), key);
        if s.last().1 != key {
            rest.push(s.last())
        } else {
            rest
        }
    }
}

/// `alive` without the objects of each key in `keys`, removed in turn.
pub open spec fn without_keys<O>(alive: Seq<NumberedObject<O>>, keys: Seq<usize>) -> Seq<
    NumberedObject<O>,
>
    decreases keys.len(),
{
    if keys.len() == 0 {
        alive
    } else {
        without_key(without_keys(alive, keys.drop_last()), keys.last())
    }
}

/// The numbers of the objects in `alive`, in order.
pub open spec fn ids_of<O>(alive: Seq<NumberedObject<O>>) -> Seq<ObjectID> {
    alive.map_values(|e: NumberedObject<O>| e.id)
}

/// The numbers among `subs` that a dispatch with `whitelist` reaches.
pub open spec fn dispatch_targets(
    subs: Seq<(ObjectID, usize)>,
    whitelist: Option<Seq<ObjectID>>,
) -> Set<ObjectID> {
    Set::new(
        |id: ObjectID|
            (exists|i: int| 0 <= i < subs.len() && #[trigger] subs[i].0 == id) && match whitelist {
                Some(w) => w.contains(id),
                None => true,
            },
    )
}

proof fn lemma_subscribers_push<O>(alive: Seq<NumberedObject<O>>, e: NumberedObject<O>, kind: EventKind)
    ensures
        subscribers(alive.push(e), kind) == (if e.mask.spec_contains(kind) {
            subscribers(alive, kind).push((e.id, e.key))
        } else {
            subscribers(alive, kind)
        }),
{
    assert(alive.push(e).drop_last() =~= alive);
}

proof fn lemma_without_key_push<O>(alive: Seq<NumberedObject<O>>, e: NumberedObject<O>, key: usize)
    ensures
        without_key(alive.push(e), key) == (if e.key != key {
            without_key(alive, key).push(e)
        } else {
            without_key(alive, key)
        }),
{
    assert(alive.push(e).drop_last() =~= alive);
}

proof fn lemma_pairs_without_key_push(s: Seq<(ObjectID, usize)>, p: (ObjectID, usize), key: usize)
    ensures
        pairs_without_key(s.push(p), key) == (if p.1 != key {
            pairs_without_key(s, key).push(p)
        } else {
            pairs_without_key(s, key)
        }),
{
    assert(s.push(p).drop_last() =~= s);
}

/// Removing a key from the objects removes it from every subscriber list.
proof fn lemma_subscribers_without_key<O>(alive: Seq<NumberedObject<O>>, kind: EventKind, key: usize)
    ensures
        subscribers(without_key(alive, key), kind) == pairs_without_key(
            subscribers(alive, kind),
            key,
        ),
    decreases alive.len(),
{
    if alive.len() > 0 {
        let a = alive.drop_last();
        let e = alive.last();
        lemma_subscribers_without_key(a, kind, key);
        assert(a.push(e) =~= alive);
        lemma_without_key_push(a, e, key);
        lemma_subscribers_push(a, e, kind);
        if e.key != key {
            lemma_subscribers_push(without_key(a, key), e, kind);
        }
        if e.mask.spec_contains(kind) {
            lemma_pairs_without_key_push(subscribers(a, kind), (e.id, e.key), key);
        }
    }
}

/// Every object that survives a removal was there before, in the same order.
proof fn lemma_without_key_subseq<O>(alive: Seq<NumberedObject<O>>, key: usize)
    ensures
        without_key(alive, key).len() <= alive.len(),
        forall|i: int|
            0 <= i < without_key(alive, key).len() ==> {
                &&& (#[trigger] without_key(alive, key)[i]).key != key
                &&& exists|j: int| i <= j < alive.len() && alive[j] == without_key(alive, key)[i]
            },
        forall|i: int, j: int|
            0 <= i < j < without_key(alive, key).len() ==> exists|a: int, b: int|
                0 <= a < b < alive.len() && alive[a] == #[trigger] without_key(alive, key)[i]
                    && alive[b] == #[trigger] without_key(alive, key)[j],
    decreases alive.len(),
{
    if alive.len() > 0 {
        let a = alive.drop_last();
        let e = alive.last();
        lemma_without_key_subseq(a, key);
        assert(a.push(e) =~= alive);
        lemma_without_key_push(a, e, key);
        let r = without_key(alive, key);
        let ra = without_key(a, key);
        assert forall|i: int| 0 <= i < r.len() implies {
            &&& (#[trigger] r[i]).key != key
            &&& exists|j: int| i <= j < alive.len() && alive[j] == r[i]
        } by {
            if i < ra.len() {
                assert(r[i] == ra[i]);
                let j = choose|j: int| i <= j < a.len() && a[j] == ra[i];
                assert(alive[j] == a[j]);
            } else {
                assert(r[i] == e);
                assert(alive[alive.len() - 1] == e);
            }
        }
        assert forall|i: int, j: int| 0 <= i < j < r.len() implies exists|x: int, y: int|
            0 <= x < y < alive.len() && alive[x] == #[trigger] r[i] && alive[y] == #[trigger] r[j] by {
            if j < ra.len() {
                let (x, y) = choose|x: int, y: int|
                    0 <= x < y < a.len() && a[x] == #[trigger] ra[i] && a[y] == #[trigger] ra[j];
                assert(alive[x] == a[x] && alive[y] == a[y]);
            } else {
                assert(r[j] == e);
                let x = choose|x: int| i <= x < a.len() && a[x] == ra[i];
                assert(alive[x] == a[x]);
                assert(alive[alive.len() - 1] == e);
            }
        }
    }
}

/// A removal by key leaves no object with that key, and every object with
/// another key stays.
pub proof fn law_remove_by_key<O>(alive: Seq<NumberedObject<O>>, key: usize)
    ensures
        forall|i: int|
            0 <= i < without_key(alive, key).len() ==> (#[trigger] without_key(alive, key)[i]).key != key,
        forall|j: int|
            0 <= j < alive.len() && (#[trigger] alive[j]).key != key ==> without_key(alive, key).contains(
                alive[j],
            ),
    decreases alive.len(),
{
    lemma_without_key_subseq(alive, key);
    if alive.len() > 0 {
        let a = alive.drop_last();
        let e = alive.last();
        law_remove_by_key(a, key);
        assert(a.push(e) =~= alive);
        lemma_without_key_push(a, e, key);
        assert forall|j: int| 0 <= j < alive.len() && (#[trigger] alive[j]).key != key implies without_key(
            alive,
            key,
        ).contains(alive[j]) by {
            if j < a.len() {
                assert(alive[j] == a[j]);
                let i = choose|i: int| 0 <= i < without_key(a, key).len() && without_key(a, key)[i] == a[j];
                assert(without_key(alive, key)[i] == a[j]);
            } else {
                assert(alive[j] == e);
                assert(without_key(alive, key)[without_key(alive, key).len() - 1] == e);
            }
        }
    }
}

/// A kind's subscribers are exactly the live objects whose mask holds the
/// kind, each named by its number and key.
pub proof fn law_subscribers_are_subscribed<O>(alive: Seq<NumberedObject<O>>, kind: EventKind)
    ensures
        forall|p: (ObjectID, usize)|
            #[trigger] subscribers(alive, kind).contains(p) <==> exists|j: int|
                0 <= j < alive.len() && (#[trigger] alive[j]).mask.spec_contains(kind) && (
                alive[j].id,
                alive[j].key,
            ) == p,
    decreases alive.len(),
{
    if alive.len() > 0 {
        let a = alive.drop_last();
        let e = alive.last();
        law_subscribers_are_subscribed(a, kind);
        assert(a.push(e) =~= alive);
        lemma_subscribers_push(a, e, kind);
        let sa = subscribers(a, kind);
        let s = subscribers(alive, kind);
        assert forall|p: (ObjectID, usize)| #[trigger] s.contains(p) <==> exists|j: int|
            0 <= j < alive.len() && (#[trigger] alive[j]).mask.spec_contains(kind) && (
            alive[j].id,
            alive[j].key,
        ) == p by {
            if s.contains(p) {
                let i = choose|i: int| 0 <= i < s.len() && s[i] == p;
                if i < sa.len() {
                    assert(s[i] == sa[i]);
                    assert(sa.contains(p));
                    let j = choose|j: int|
                        0 <= j < a.len() && (#[trigger] a[j]).mask.spec_contains(kind) && (a[j].id, a[j].key)
                            == p;
                    assert(alive[j] == a[j]);
                } else {
                    assert(alive[alive.len() - 1] == e);
                }
            }
            if exists|j: int|
                0 <= j < alive.len() && (#[trigger] alive[j]).mask.spec_contains(kind) && (
                alive[j].id,
                alive[j].key,
            ) == p {
                let j = choose|j: int|
                    0 <= j < alive.len() && (#[trigger] alive[j]).mask.spec_contains(kind) && (
                    alive[j].id,
                    alive[j].key,
                ) == p;
                if j < a.len() {
                    assert(alive[j] == a[j]);
                    assert(sa.contains(p));
                    let i = choose|i: int| 0 <= i < sa.len() && sa[i] == p;
                    assert(s[i] == p);
                } else {
                    assert(alive[j] == e);
                    assert(s[s.len() - 1] == p);
                }
            }
        }
    }
}

/// The number, key and mask of each object, in order.
pub open spec fn shape<O>(alive: Seq<NumberedObject<O>>) -> Seq<(ObjectID, usize, EventMask)> {
    alive.map_values(|e: NumberedObject<O>| (e.id, e.key, e.mask))
}

/// Subscriber lists depend only on numbers, keys and masks.
proof fn lemma_subscribers_same_shape<O>(
    a: Seq<NumberedObject<O>>,
    b: Seq<NumberedObject<O>>,
    kind: EventKind,
)
    requires
        shape(a) == shape(b),
    ensures
        subscribers(a, kind) == subscribers(b, kind),
    decreases a.len(),
{
    assert(shape(a).len() == shape(b).len());
    assert(shape(a).len() == a.len() && shape(b).len() == b.len());
    if a.len() == 0 {
        assert(b.len() == 0);
    } else {
        assert(shape(a.drop_last()) =~= shape(a).drop_last());
        assert(shape(b.drop_last()) =~= shape(b).drop_last());
        lemma_subscribers_same_shape(a.drop_last(), b.drop_last(), kind);
        assert(shape(a)[a.len() - 1] == shape(b)[b.len() - 1]);
        assert(shape(a)[a.len() - 1] == (a.last().id, a.last().key, a.last().mask));
        assert(shape(b)[b.len() - 1] == (b.last().id, b.last().key, b.last().mask));
        assert(a.last().mask == b.last().mask && a.last().id == b.last().id && a.last().key
            == b.last().key);
    }
}

/// Whether a whitelist lets object `id` through (no whitelist lets all).
pub open spec fn whitelisted(id: ObjectID, whitelist: Option<Seq<ObjectID>>) -> bool {
    match whitelist {
        Some(w) => w.contains(id),
        None => true,
    }
}

/// The whitelist a slice of numbers gives.
pub open spec fn whitelist_view(w: Option<&[ObjectID]>) -> Option<Seq<ObjectID>> {
    match w {
        Some(w) => Some(w@),
        None => None,
    }
}

/// The subscribers a dispatch with `whitelist` reaches, in order.
pub open spec fn dispatch_order(
    subs: Seq<(ObjectID, usize)>,
    whitelist: Option<Seq<ObjectID>>,
) -> Seq<(ObjectID, usize)>
    decreases subs.len(),
{
    if subs.len() == 0 {
        Seq::empty()
    } else {
        let rest = dispatch_order(subs.drop_last(), whitelist);
        if whitelisted(subs.last().0, whitelist) {
            rest.push(subs.last())
        } else {
            rest
        }
    }
}

/// What the dispatch of an event has produced so far: the renderables, the
/// change mark, the keys of the objects to remove and the objects to add.
pub struct DispatchEffects<O, R> {
    pub renderables: Map<ObjectID, R>,
    pub updated: bool,
    pub dead: Seq<usize>,
    pub spawned: Seq<O>,
}

/// The effect of the action that object `id` (with key `key`) answered:
/// its removal, a removal by key or an addition is recorded, its
/// renderable is replaced or deleted (and the change marked); a quit
/// request or nothing leaves everything as it was.
pub open spec fn apply_action<O, R>(
    e: DispatchEffects<O, R>,
    id: ObjectID,
    key: usize,
    action: DispatchAction<O, R>,
) -> DispatchEffects<O, R> {
    match action {
        DispatchAction::Die => DispatchEffects { dead: e.dead.push(key), ..e },
        DispatchAction::SpawnObjects(v) => DispatchEffects { spawned: e.spawned + v@, ..e },
        DispatchAction::SpawnObject(o) => DispatchEffects { spawned: e.spawned.push(o), ..e },
        DispatchAction::KillObject(k) => DispatchEffects { dead: e.dead.push(k), ..e },
        DispatchAction::KillObjects(v) => DispatchEffects { dead: e.dead + v@, ..e },
        DispatchAction::QuitApplication => e,
        DispatchAction::UpdateRenderable(r) => DispatchEffects {
            renderables: e.renderables.insert(id, r),
            updated: true,
            ..e
        },
        DispatchAction::DeleteRenderable => DispatchEffects {
            renderables: e.renderables.remove(id),
            updated: true,
            ..e
        },
        DispatchAction::Empty => e,
    }
}

/// The effects of the actions `acts`, answered in turn by the objects of
/// `order`.
pub open spec fn apply_actions<O, R>(
    e: DispatchEffects<O, R>,
    order: Seq<(ObjectID, usize)>,
    acts: Seq<DispatchAction<O, R>>,
) -> DispatchEffects<O, R>
    decreases acts.len(),
{
    if acts.len() == 0 {
        e
    } else {
        let t = acts.len() - 1;
        apply_action(apply_actions(e, order, acts.drop_last()), order[t].0, order[t].1, acts.last())
    }
}

/// Whether `object`'s `dispatch` of `event` in context `ctx` can answer
/// `action`.
pub open spec fn dispatch_answers<O: GameObject>(
    object: O,
    ctx: O::Ctx,
    event: Event<O::Scalar>,
    action: DispatchAction<O, O::Renderable>,
) -> bool {
    exists|m: &mut O| *m == object && #[trigger] call_ensures(O::dispatch, (m, &ctx, &event), action)
}

/// A dispatch of `event` to the objects `before` with `whitelist`, which
/// left them as `after`: the objects of the dispatch order answered the
/// actions `acts` in turn (all of them, unless the last answer is a quit
/// request, which ends it), and every other object is untouched.
pub open spec fn dispatch_trace<O: GameObject>(
    before: Seq<NumberedObject<O>>,
    after: Seq<NumberedObject<O>>,
    ctx: O::Ctx,
    event: Event<O::Scalar>,
    whitelist: Option<Seq<ObjectID>>,
    acts: Seq<DispatchAction<O, O::Renderable>>,
    quit: bool,
) -> bool {
    let order = dispatch_order(subscribers(before, event.spec_event_kind()), whitelist);
    &&& acts.len() <= order.len()
    &&& quit ==> acts.len() > 0 && acts.last() is QuitApplication
    &&& !quit ==> acts.len() == order.len()
    &&& forall|t: int|
        0 <= t < acts.len() && !(quit && t == acts.len() - 1) ==> !(#[trigger] acts[t] is QuitApplication)
    &&& shape(after) == shape(before)
    &&& forall|t: int, p: int|
        0 <= t < acts.len() && 0 <= p < before.len() && (#[trigger] before[p]).id == (#[trigger] order[t]).0
            ==> dispatch_answers(before[p].object, ctx, event, acts[t])
    &&& forall|p: int|
        0 <= p < before.len() && (forall|t: int| 0 <= t < acts.len() ==> order[t].0 != before[p].id)
            ==> #[trigger] after[p] == before[p]
}

/// The dispatch order follows the subscriber list: taking one more
/// subscriber adds it at the end when the whitelist lets it through.
proof fn lemma_dispatch_order_step(s: Seq<(ObjectID, usize)>, w: Option<Seq<ObjectID>>, i: int)
    requires
        0 <= i < s.len(),
    ensures
        dispatch_order(s.take(i + 1), w) == if whitelisted(s[i].0, w) {
            dispatch_order(s.take(i), w).push(s[i])
        } else {
            dispatch_order(s.take(i), w)
        },
{
    assert(s.take(i + 1).drop_last() =~= s.take(i));
    assert(s.take(i + 1).last() == s[i]);
}

/// Every target of a dispatch is one of the subscribers, in the same order.
proof fn lemma_dispatch_order_sub(s: Seq<(ObjectID, usize)>, w: Option<Seq<ObjectID>>)
    ensures
        dispatch_order(s, w).len() <= s.len(),
        forall|t: int|
            0 <= t < dispatch_order(s, w).len() ==> exists|j: int|
                0 <= j < s.len() && s[j] == #[trigger] dispatch_order(s, w)[t],
        forall|t: int, u: int|
            0 <= t < u < dispatch_order(s, w).len() ==> exists|a: int, b: int|
                0 <= a < b < s.len() && s[a] == #[trigger] dispatch_order(s, w)[t] && s[b]
                    == #[trigger] dispatch_order(s, w)[u],
    decreases s.len(),
{
    if s.len() > 0 {
        let a = s.drop_last();
        lemma_dispatch_order_sub(a, w);
        let r = dispatch_order(s, w);
        let ra = dispatch_order(a, w);
        assert forall|t: int| 0 <= t < r.len() implies exists|j: int| 0 <= j < s.len() && s[j] == #[trigger] r[t] by {
            if t < ra.len() {
                assert(r[t] == ra[t]);
                let j = choose|j: int| 0 <= j < a.len() && a[j] == ra[t];
                assert(s[j] == a[j]);
            } else {
                assert(r[t] == s.last());
                assert(s[s.len() - 1] == s.last());
            }
        }
        assert forall|t: int, u: int| 0 <= t < u < r.len() implies exists|x: int, y: int|
            0 <= x < y < s.len() && s[x] == #[trigger] r[t] && s[y] == #[trigger] r[u] by {
            if u < ra.len() {
                let (x, y) = choose|x: int, y: int| 0 <= x < y < a.len() && a[x] == #[trigger] ra[t] && a[y] == #[trigger] ra[u];
                assert(s[x] == a[x] && s[y] == a[y]);
                assert(r[t] == ra[t] && r[u] == ra[u]);
            } else {
                assert(r[u] == s.last());
                assert(r[t] == ra[t]);
                let x = choose|x: int| 0 <= x < a.len() && a[x] == ra[t];
                assert(s[x] == a[x]);
                assert(s[s.len() - 1] == s.last());
            }
        }
    }
}

/// A dispatch over a prefix of the subscribers is a prefix of the dispatch
/// over them all.
proof fn lemma_dispatch_order_prefix(s: Seq<(ObjectID, usize)>, w: Option<Seq<ObjectID>>, i: int)
    requires
        0 <= i <= s.len(),
    ensures
        dispatch_order(s.take(i), w).len() <= dispatch_order(s, w).len(),
        dispatch_order(s, w).take(dispatch_order(s.take(i), w).len() as int) == dispatch_order(s.take(i), w),
    decreases s.len() - i,
{
    if i < s.len() {
        lemma_dispatch_order_prefix(s, w, i + 1);
        lemma_dispatch_order_step(s, w, i);
        let a = dispatch_order(s.take(i), w);
        let b = dispatch_order(s.take(i + 1), w);
        let f = dispatch_order(s, w);
        assert(f.take(a.len() as int) =~= b.take(a.len() as int));
        assert(b.take(a.len() as int) =~= a);
    } else {
        assert(s.take(i) =~= s);
        assert(dispatch_order(s, w).take(dispatch_order(s, w).len() as int) =~= dispatch_order(s, w));
    }
}

/// The effects of actions depend only on the objects that answered them.
proof fn lemma_apply_actions_prefix<O, R>(
    e: DispatchEffects<O, R>,
    order: Seq<(ObjectID, usize)>,
    longer: Seq<(ObjectID, usize)>,
    acts: Seq<DispatchAction<O, R>>,
)
    requires
        acts.len() <= order.len(),
        acts.len() <= longer.len(),
        forall|t: int| 0 <= t < acts.len() ==> order[t] == longer[t],
    ensures
        apply_actions(e, order, acts) == apply_actions(e, longer, acts),
    decreases acts.len(),
{
    if acts.len() > 0 {
        lemma_apply_actions_prefix(e, order, longer, acts.drop_last());
    }
}

/// Subscribers are named by strictly increasing numbers when the objects
/// are.
proof fn lemma_subscribers_increasing<O>(alive: Seq<NumberedObject<O>>, kind: EventKind)
    requires
        forall|i: int, j: int| 0 <= i < j < alive.len() ==> (#[trigger] alive[i]).id < (#[trigger] alive[j]).id,
    ensures
        forall|i: int, j: int|
            0 <= i < j < subscribers(alive, kind).len() ==> (#[trigger] subscribers(alive, kind)[i]).0 < (
            #[trigger] subscribers(alive, kind)[j]).0,
        forall|i: int|
            0 <= i < subscribers(alive, kind).len() ==> exists|p: int|
                0 <= p < alive.len() && (#[trigger] subscribers(alive, kind)[i]) == (alive[p].id, alive[p].key),
    decreases alive.len(),
{
    if alive.len() > 0 {
        let a = alive.drop_last();
        let e = alive.last();
        assert(a.push(e) =~= alive);
        lemma_subscribers_increasing(a, kind);
        lemma_subscribers_push(a, e, kind);
        let s = subscribers(alive, kind);
        let sa = subscribers(a, kind);
        assert forall|i: int| 0 <= i < s.len() implies exists|p: int|
            0 <= p < alive.len() && (#[trigger] s[i]) == (alive[p].id, alive[p].key) by {
            if i < sa.len() {
                assert(s[i] == sa[i]);
                let p = choose|p: int| 0 <= p < a.len() && sa[i] == (a[p].id, a[p].key);
                assert(alive[p] == a[p]);
            } else {
                assert(s[i] == (e.id, e.key));
                assert(alive[alive.len() - 1] == e);
            }
        }
        assert forall|i: int, j: int| 0 <= i < j < s.len() implies (#[trigger] s[i]).0 < (#[trigger] s[j]).0 by {
            if j < sa.len() {
                assert(s[i] == sa[i] && s[j] == sa[j]);
            } else {
                assert(s[j] == (e.id, e.key));
                assert(s[i] == sa[i]);
                let p = choose|p: int| 0 <= p < a.len() && sa[i] == (a[p].id, a[p].key);
                assert(alive[p] == a[p]);
                assert(alive[alive.len() - 1] == e);
            }
        }
    }
}

/// The state of a collection as the dispatch of events sees it.
pub struct CollectionModel<O, R> {
    pub alive: Seq<NumberedObject<O>>,
    pub renderables: Map<ObjectID, R>,
    pub updated: bool,
    pub next_id: ObjectID,
}

impl<O, R> CollectionModel<O, R> {
    /// The effects a round starts from: the renderables and change mark,
    /// with nothing to remove or add yet.
    pub open spec fn effects_from(self) -> DispatchEffects<O, R> {
        DispatchEffects {
            renderables: self.renderables,
            updated: self.updated,
            dead: Seq::empty(),
            spawned: Seq::empty(),
        }
    }
}

/// `entries` are the first of the objects `spawned`, numbered from `first`
/// on, each with the key and the event mask it reports.
pub open spec fn numbered_as<O: GameObject>(
    entries: Seq<NumberedObject<O>>,
    spawned: Seq<O>,
    first: int,
) -> bool {
    &&& entries.len() <= spawned.len()
    &&& forall|j: int|
        0 <= j < entries.len() ==> (#[trigger] entries[j]).object == spawned[j] && entries[j].id == first
            + j && call_ensures(O::identity, (&spawned[j],), entries[j].key) && call_ensures(
            O::event_mask,
            (&spawned[j],),
            entries[j].mask,
        )
}

/// One round of the dispatch of an event: `before` dispatches `event` with
/// `whitelist`, answering `action`; the objects whose removal was
/// requested are removed, in turn, and the spawned ones are added after
/// the others under the numbers `fresh` (while numbers last), giving
/// `after`.
pub open spec fn dispatch_round<O: GameObject>(
    before: CollectionModel<O, O::Renderable>,
    after: CollectionModel<O, O::Renderable>,
    ctx: O::Ctx,
    event: Event<O::Scalar>,
    whitelist: Option<Seq<ObjectID>>,
    action: DispatchAction<O, O::Renderable>,
    fresh: Seq<ObjectID>,
) -> bool {
    exists|
        mid: Seq<NumberedObject<O>>,
        acts: Seq<DispatchAction<O, O::Renderable>>,
        dead: Seq<usize>,
        spawned: Seq<O>,
    |
        #[trigger] round_steps(before, after, ctx, event, whitelist, action, fresh, mid, acts, dead, spawned)
}

/// A round made of these steps: the dispatch left the objects as `mid`,
/// their answers being `acts`, with the removals `dead` and additions
/// `spawned` requested (see `dispatch_round`).
pub open spec fn round_steps<O: GameObject>(
    before: CollectionModel<O, O::Renderable>,
    after: CollectionModel<O, O::Renderable>,
    ctx: O::Ctx,
    event: Event<O::Scalar>,
    whitelist: Option<Seq<ObjectID>>,
    action: DispatchAction<O, O::Renderable>,
    fresh: Seq<ObjectID>,
    mid: Seq<NumberedObject<O>>,
    acts: Seq<DispatchAction<O, O::Renderable>>,
    dead: Seq<usize>,
    spawned: Seq<O>,
) -> bool {
    let kept = without_keys(mid, dead);
    &&& dispatch_trace(before.alive, mid, ctx, event, whitelist, acts, action is QuitApplication)
    &&& (action is QuitApplication || action is Empty)
    &&& apply_actions(
        before.effects_from(),
        dispatch_order(subscribers(before.alive, event.spec_event_kind()), whitelist),
        acts,
    ) == (DispatchEffects { renderables: after.renderables, updated: after.updated, dead, spawned })
    &&& after.alive.len() == kept.len() + fresh.len()
    &&& after.alive.take(kept.len() as int) == kept
    &&& numbered_as(after.alive.skip(kept.len() as int), spawned, before.next_id as int)
    &&& ids_of(after.alive.skip(kept.len() as int)) == fresh
    &&& after.next_id == before.next_id + fresh.len()
    &&& fresh.len() < spawned.len() ==> after.next_id == usize::MAX
}

/// The event dispatched in round `k`: the event itself first, then the
/// creation event.
pub open spec fn round_event<F>(k: int, event: Event<F>) -> Event<F> {
    if k == 0 {
        event
    } else {
        Event::Create
    }
}

/// The whitelist of round `k`: none first, then the objects added in the
/// round before.
pub open spec fn round_whitelist(k: int, fresh: Seq<Seq<ObjectID>>) -> Option<Seq<ObjectID>> {
    if k == 0 {
        None
    } else {
        Some(fresh[k - 1])
    }
}

/// The rounds of the dispatch of `event`: the collection goes through
/// `states`, round `k` answering `results[k]` and adding the objects
/// numbered `fresh[k]`; every round but the last adds objects, the last
/// adds none.
pub open spec fn dispatch_rounds<O: GameObject>(
    states: Seq<CollectionModel<O, O::Renderable>>,
    fresh: Seq<Seq<ObjectID>>,
    ctx: O::Ctx,
    event: Event<O::Scalar>,
    results: Seq<DispatchAction<O, O::Renderable>>,
) -> bool {
    &&& results.len() >= 1
    &&& states.len() == results.len() + 1
    &&& fresh.len() == results.len()
    &&& forall|k: int|
        #![trigger fresh[k]]
        0 <= k < results.len() ==> dispatch_round(
            states[k],
            states[k + 1],
            ctx,
            round_event(k, event),
            round_whitelist(k, fresh),
            results[k],
            fresh[k],
        )
    &&& forall|k: int| 0 <= k < results.len() - 1 ==> (#[trigger] fresh[k]).len() > 0
    &&& fresh[results.len() - 1].len() == 0
}

/// Whether `id` occurs in `s`.
fn slice_contains(s: &[ObjectID], id: ObjectID) -> (r: bool)
    ensures
        r == s@.contains(id),
{
    let mut i: usize = 0;
    while i < s.len()
        invariant
            0 <= i <= s.len(),
            forall|j: int| 0 <= j < i ==> s@[j] != id,
        decreases s.len() - i,
    {
        if s[i] == id {
            return true;
        }
        i = i + 1;
    }
    false
}

/// A collection of numbered objects with per-event subscriber lists and the
/// renderables the objects published.
pub struct ObjectsCollection<O: GameObject> {
    current_id: ObjectID,
    /// For each event kind, the (number, key) pairs of its subscribers.
    mapped_objects: Vec<Vec<(ObjectID, usize)>>,
    /// The objects that are currently alive, in the order they were added.
    alive_objects: Vec<NumberedObject<O>>,
    /// The renderables published by the objects, by object number.
    renderables: HashMap<ObjectID, O::Renderable>,
    renderables_updated: bool,
}

impl<O: GameObject> ObjectsCollection<O> {
    /// The number the next added object receives.
    pub closed spec fn next_id(&self) -> ObjectID {
        self.current_id
    }

    /// The live objects, in the order they were added.
    pub closed spec fn alive(&self) -> Seq<NumberedObject<O>> {
        self.alive_objects@
    }

    /// The subscribers of each event kind.
    pub closed spec fn mapped(&self, kind: EventKind) -> Seq<(ObjectID, usize)> {
        self.mapped_objects@[spec_kind_index(kind) as int]@
    }

    /// The published renderables.
    pub closed spec fn renderables_view(&self) -> Map<ObjectID, O::Renderable> {
        self.renderables@
    }

    /// Whether renderables changed since they were last taken.
    pub closed spec fn is_updated(&self) -> bool {
        self.renderables_updated
    }

    /// The collection as the dispatch of events sees it.
    pub open spec fn model(&self) -> CollectionModel<O, O::Renderable> {
        CollectionModel {
            alive: self.alive(),
            renderables: self.renderables_view(),
            updated: self.is_updated(),
            next_id: self.next_id(),
        }
    }

    /// The collection's renderables and change mark, with the removals
    /// `dead` and additions `spawned` requested so far.
    pub open spec fn effects(&self, dead: Seq<usize>, spawned: Seq<O>) -> DispatchEffects<
        O,
        O::Renderable,
    > {
        DispatchEffects { renderables: self.renderables_view(), updated: self.is_updated(), dead, spawned }
    }

    /// The collection's invariant: object numbers strictly increase and
    /// stay below the next number, and every subscriber list holds exactly
    /// the live subscribers of its kind, in order.
    pub closed spec fn wf(&self) -> bool {
        &&& self.mapped_objects.len() == EVENT_KINDS
        &&& forall|k: int|
            0 <= k < EVENT_KINDS ==> (#[trigger] self.mapped_objects@[k])@ == subscribers(
                self.alive_objects@,
                spec_kind_at(k as nat),
            )
        &&& forall|i: int, j: int|
            0 <= i < j < self.alive_objects.len() ==> (#[trigger] self.alive_objects@[i]).id
                < (#[trigger] self.alive_objects@[j]).id
        &&& forall|i: int|
            0 <= i < self.alive_objects.len() ==> (#[trigger] self.alive_objects@[i]).id
                < self.current_id
    }

    proof fn lemma_mapped_is_subscribers(&self, kind: EventKind)
        requires
            self.wf(),
        ensures
            self.mapped(kind) == subscribers(self.alive(), kind),
    {
        let k = spec_kind_index(kind) as int;
        assert(spec_kind_at(k as nat) == kind);
        assert(self.mapped_objects@[k]@ == subscribers(self.alive_objects@, spec_kind_at(k as nat)));
    }

    /// Builds a collection and adds the objects in order, numbering them from 0.
    pub fn new(objects: Vec<O>) -> (r: Self)
        requires
            objects.len() < usize::MAX,
        ensures
            r.wf(),
            r.next_id() == objects.len(),
            ids_of(r.alive()) =~= Seq::new(objects.len() as nat, |i: int| i as ObjectID),
            r.alive().map_values(|e: NumberedObject<O>| e.object) == objects@,
            r.renderables_view() == Map::<ObjectID, O::Renderable>::empty(),
            !r.is_updated(),
    {
        let mut mapped: Vec<Vec<(ObjectID, usize)>> = Vec::new();
        let mut k: usize = 0;
        while k < EVENT_KINDS
            invariant
                k <= EVENT_KINDS,
                mapped.len() == k,
                forall|j: int| 0 <= j < k ==> (#[trigger] mapped@[j])@.len() == 0,
            decreases EVENT_KINDS - k,
        {
            mapped.push(Vec::new());
            k = k + 1;
        }
        let mut collection = ObjectsCollection {
            current_id: 0,
            mapped_objects: mapped,
            alive_objects: Vec::new(),
            renderables: HashMap::new(),
            renderables_updated: false,
        };
        assert forall|j: int| 0 <= j < EVENT_KINDS implies (
        #[trigger] collection.mapped_objects@[j])@ == subscribers(
            collection.alive_objects@,
            spec_kind_at(j as nat),
        ) by {
            assert(collection.mapped_objects@[j]@ =~= Seq::<(ObjectID, usize)>::empty());
        }
        let n = objects.len();
        let ghost objs = objects@;
        for object in it: objects
            invariant
                n == objs.len(),
                n < usize::MAX,
                it.seq() == objs,
                collection.wf(),
                collection.current_id == it.index(),
                ids_of(collection.alive_objects@) =~= Seq::new(
                    it.index() as nat,
                    |i: int| i as ObjectID,
                ),
                collection.alive_objects@.map_values(|e: NumberedObject<O>| e.object)
                    =~= objs.take(it.index() as int),
                collection.renderables@ == Map::<ObjectID, O::Renderable>::empty(),
                !collection.renderables_updated,
        {
            let ghost before = collection.alive_objects@;
            let ghost idx = it.index();
            collection.add_object(object);
            proof {
                assert(collection.alive_objects@ == before.push(collection.alive_objects@.last()));
                assert(objs.take(idx + 1) =~= objs.take(idx as int).push(objs[idx as int]));
                assert(ids_of(collection.alive_objects@) =~= ids_of(before).push(idx as ObjectID));
            }
        }
        collection
    }

    /// Adds an object under the next number and subscribes it to the kinds
    /// of its event mask; returns the number.
    pub fn add_object(&mut self, object: O) -> (id: ObjectID)
        requires
            old(self).wf(),
            old(self).next_id() < usize::MAX,
        ensures
            final(self).wf(),
            id == old(self).next_id(),
            final(self).next_id() == id + 1,
            final(self).alive().len() == old(self).alive().len() + 1,
            final(self).alive().drop_last() == old(self).alive(),
            final(self).alive().last().id == id,
            final(self).alive().last().object == object,
            call_ensures(O::identity, (&object,), final(self).alive().last().key),
            call_ensures(O::event_mask, (&object,), final(self).alive().last().mask),
            final(self).renderables_view() == old(self).renderables_view(),
            final(self).is_updated() == old(self).is_updated(),
    {
        let id = self.current_id;
        let key = object.identity();
        let mask = object.event_mask();
        proof {
            assert(call_ensures(O::identity, (&object,), key));
            assert(call_ensures(O::event_mask, (&object,), mask));
        }
        let ghost old_alive = self.alive_objects@;
        let ghost old_mapped = self.mapped_objects@;
        let entry = NumberedObject { id, key, mask, object };
        self.alive_objects.push(entry);
        let mut k: usize = 0;
        while k < EVENT_KINDS
            invariant
                0 <= k <= EVENT_KINDS,
                self.alive_objects@ == old_alive.push(entry),
                self.mapped_objects.len() == EVENT_KINDS,
                old_mapped.len() == EVENT_KINDS,
                forall|j: int|
                    0 <= j < k ==> (#[trigger] self.mapped_objects@[j])@ == subscribers(
                        self.alive_objects@,
                        spec_kind_at(j as nat),
                    ),
                forall|j: int|
                    k <= j < EVENT_KINDS ==> (#[trigger] self.mapped_objects@[j]) == old_mapped[j],
                forall|j: int|
                    0 <= j < EVENT_KINDS ==> old_mapped[j]@ == subscribers(
                        old_alive,
                        spec_kind_at(j as nat),
                    ),
                self.current_id == id,
                self.renderables == old(self).renderables,
                self.renderables_updated == old(self).renderables_updated,
                entry.mask == mask,
                entry.id == id,
                entry.key == key,
            decreases EVENT_KINDS - k,
        {
            let kind = EventKind::from_index(k);
            let ghost before = self.mapped_objects@;
            proof {
                lemma_subscribers_push(old_alive, entry, kind);
            }
            if mask.contains(kind) {
                let mut list = Vec::new();
                std::mem::swap(&mut list, &mut self.mapped_objects[k]);
                assert(list@ == old_mapped[k as int]@);
                list.push((id, key));
                self.mapped_objects.set(k, list);
            } else {
                assert(self.mapped_objects@[k as int] == old_mapped[k as int]);
            }
            assert(old_mapped[k as int]@ == subscribers(old_alive, kind));
            proof {
                assert(self.mapped_objects@[k as int]@ == subscribers(
                    self.alive_objects@,
                    spec_kind_at(k as nat),
                ));
                assert forall|j: int| 0 <= j < k implies (#[trigger] self.mapped_objects@[j])@
                    == subscribers(self.alive_objects@, spec_kind_at(j as nat)) by {
                    assert(self.mapped_objects@[j] == before[j]);
                }
            }
            k = k + 1;
        }
        self.current_id = id + 1;
        proof {
            assert(self.alive_objects@.drop_last() =~= old_alive);
            assert forall|i: int, j: int|
                0 <= i < j < self.alive_objects.len() implies (
            #[trigger] self.alive_objects@[i]).id < (#[trigger] self.alive_objects@[j]).id by {
                if j == old_alive.len() {
                    assert(self.alive_objects@[i] == old_alive[i]);
                } else {
                    assert(self.alive_objects@[i] == old_alive[i]);
                    assert(self.alive_objects@[j] == old_alive[j]);
                }
            }
            assert forall|i: int| 0 <= i < self.alive_objects.len() implies (
            #[trigger] self.alive_objects@[i]).id < self.current_id by {
                if i < old_alive.len() {
                    assert(self.alive_objects@[i] == old_alive[i]);
                }
            }
        }
        id
    }

    /// Removes every object whose identity key is `key`, from the live
    /// objects and from every subscriber list.
    pub fn remove_object(&mut self, key: usize)
        requires
            old(self).wf(),
        ensures
            final(self).wf(),
            final(self).alive() == without_key(old(self).alive(), key),
            final(self).next_id() == old(self).next_id(),
            final(self).renderables_view() == old(self).renderables_view(),
            final(self).is_updated() == old(self).is_updated(),
    {
        let ghost old_alive = self.alive_objects@;
        let ghost old_mapped = self.mapped_objects@;
        let mut old_objects: Vec<NumberedObject<O>> = Vec::new();
        std::mem::swap(&mut old_objects, &mut self.alive_objects);
        let mut kept: Vec<NumberedObject<O>> = Vec::new();
        for e in it: old_objects
            invariant
                it.seq() == old_alive,
                kept@ == without_key(old_alive.take(it.index() as int), key),
        {
            let ghost i = it.index();
            proof {
                assert(old_alive.take(i + 1) =~= old_alive.take(i as int).push(old_alive[i as int]));
                lemma_without_key_push(old_alive.take(i as int), old_alive[i as int], key);
            }
            if e.key != key {
                kept.push(e);
            }
        }
        assert(old_alive.take(old_alive.len() as int) =~= old_alive);
        self.alive_objects = kept;
        let mut k: usize = 0;
        while k < EVENT_KINDS
            invariant
                0 <= k <= EVENT_KINDS,
                self.alive_objects@ == without_key(old_alive, key),
                self.current_id == old(self).current_id,
                self.renderables == old(self).renderables,
                self.renderables_updated == old(self).renderables_updated,
                self.mapped_objects.len() == EVENT_KINDS,
                old_mapped.len() == EVENT_KINDS,
                forall|j: int|
                    0 <= j < k ==> (#[trigger] self.mapped_objects@[j])@ == subscribers(
                        self.alive_objects@,
                        spec_kind_at(j as nat),
                    ),
                forall|j: int|
                    k <= j < EVENT_KINDS ==> (#[trigger] self.mapped_objects@[j]) == old_mapped[j],
                forall|j: int|
                    0 <= j < EVENT_KINDS ==> old_mapped[j]@ == subscribers(
                        old_alive,
                        spec_kind_at(j as nat),
                    ),
            decreases EVENT_KINDS - k,
        {
            let ghost kind = spec_kind_at(k as nat);
            let mut list = Vec::new();
            std::mem::swap(&mut list, &mut self.mapped_objects[k]);
            let ghost old_list = list@;
            let mut kept_pairs: Vec<(ObjectID, usize)> = Vec::new();
            let mut i: usize = 0;
            while i < list.len()
                invariant
                    0 <= i <= list.len(),
                    list@ == old_list,
                    kept_pairs@ == pairs_without_key(old_list.take(i as int), key),
                decreases list.len() - i,
            {
                let p = list[i];
                proof {
                    assert(old_list.take(i + 1) =~= old_list.take(i as int).push(p));
                    lemma_pairs_without_key_push(old_list.take(i as int), p, key);
                }
                if p.1 != key {
                    kept_pairs.push(p);
                }
                i = i + 1;
            }
            proof {
                assert(old_list.take(old_list.len() as int) =~= old_list);
                lemma_subscribers_without_key(old_alive, kind, key);
            }
            let ghost before = self.mapped_objects@;
            self.mapped_objects.set(k, kept_pairs);
            proof {
                assert forall|j: int| 0 <= j < k implies (#[trigger] self.mapped_objects@[j])@
                    == subscribers(self.alive_objects@, spec_kind_at(j as nat)) by {
                    assert(self.mapped_objects@[j] == before[j]);
                }
            }
            k = k + 1;
        }
        proof {
            lemma_without_key_subseq(old_alive, key);
            let na = self.alive_objects@;
            assert forall|i: int, j: int| 0 <= i < j < na.len() implies (#[trigger] na[i]).id
                < (#[trigger] na[j]).id by {
                let (x, y) = choose|x: int, y: int|
                    0 <= x < y < old_alive.len() && old_alive[x] == #[trigger] na[i]
                        && old_alive[y] == #[trigger] na[j];
            }
            assert forall|i: int| 0 <= i < na.len() implies (#[trigger] na[i]).id
                < self.current_id by {
                let j = choose|j: int| i <= j < old_alive.len() && old_alive[j] == na[i];
            }
        }
    }

    /// The live objects with their numbers, keys and masks.
    pub fn alive_objects(&self) -> (r: &Vec<NumberedObject<O>>)
        ensures
            r@ == self.alive(),
    {
        &self.alive_objects
    }

    /// The renderables, if they changed since they were last taken; taking
    /// them clears the change mark.
    pub fn updated_renderables(&mut self) -> (r: Option<&HashMap<ObjectID, O::Renderable>>)
        requires
            old(self).wf(),
        ensures
            final(self).wf(),
            final(self).alive() == old(self).alive(),
            final(self).next_id() == old(self).next_id(),
            final(self).renderables_view() == old(self).renderables_view(),
            !final(self).is_updated(),
            old(self).is_updated() <==> r is Some,
            r matches Some(m) ==> m@ == old(self).renderables_view(),
    {
        if self.renderables_updated {
            self.renderables_updated = false;
            Some(&self.renderables)
        } else {
            None
        }
    }

    /// Position of the live object numbered `id`.
    fn position_of(&self, id: ObjectID) -> (r: Option<usize>)
        ensures
            r matches Some(p) ==> p < self.alive_objects.len() && self.alive_objects@[p as int].id
                == id,
            r is None ==> forall|j: int|
                0 <= j < self.alive_objects.len() ==> (#[trigger] self.alive_objects@[j]).id != id,
    {
        let mut i: usize = 0;
        while i < self.alive_objects.len()
            invariant
                0 <= i <= self.alive_objects.len(),
                forall|j: int| 0 <= j < i ==> (#[trigger] self.alive_objects@[j]).id != id,
            decreases self.alive_objects.len() - i,
        {
            if self.alive_objects[i].id == id {
                return Some(i);
            }
            i = i + 1;
        }
        None
    }

    /// Carries out the action that object `id` (with key `key`) answered:
    /// its removal and removals by key are appended to `dead_objects`,
    /// spawned objects to `new_objects`, and a renderable update or
    /// deletion is applied to the object's renderable and marked. Returns
    /// whether the action is a quit request.
    pub fn apply_dispatch_action(
        &mut self,
        id: ObjectID,
        key: usize,
        action: DispatchAction<O, O::Renderable>,
        dead_objects: &mut Vec<usize>,
        new_objects: &mut Vec<O>,
    ) -> (quit: bool)
        requires
            old(self).wf(),
        ensures
            final(self).wf(),
            final(self).alive() == old(self).alive(),
            final(self).next_id() == old(self).next_id(),
            final(self).effects(final(dead_objects)@, final(new_objects)@) == apply_action(
                old(self).effects(old(dead_objects)@, old(new_objects)@),
                id,
                key,
                action,
            ),
            quit == action is QuitApplication,
    {
        match action {
            DispatchAction::Die => {
                dead_objects.push(key);
                false
            },
            DispatchAction::SpawnObjects(mut objects) => {
                new_objects.append(&mut objects);
                false
            },
            DispatchAction::SpawnObject(object) => {
                new_objects.push(object);
                false
            },
            DispatchAction::KillObject(target) => {
                dead_objects.push(target);
                false
            },
            DispatchAction::KillObjects(mut targets_keys) => {
                dead_objects.append(&mut targets_keys);
                false
            },
            DispatchAction::QuitApplication => true,
            DispatchAction::UpdateRenderable(renderable) => {
                self.renderables.insert(id, renderable);
                self.renderables_updated = true;
                false
            },
            DispatchAction::DeleteRenderable => {
                self.renderables.remove(&id);
                self.renderables_updated = true;
                false
            },
            DispatchAction::Empty => false,
        }
    }

    /// Dispatches `event` to its subscribers (only those whose number is in
    /// the whitelist, when one is given), in the order they were added.
    /// Each answer is carried out by `apply_dispatch_action`: removal and
    /// spawn requests are appended to `dead_objects` and `new_objects`,
    /// renderable updates are applied at once. Stops at the first quit
    /// request and returns it; otherwise returns `Empty`.
    #[verifier::rlimit(100)]
    #[verifier::spinoff_prover]
    pub fn dispatch_event_inner(
        &mut self,
        ctx: &O::Ctx,
        event: &Event<O::Scalar>,
        objects_whitelist: Option<&[ObjectID]>,
        dead_objects: &mut Vec<usize>,
        new_objects: &mut Vec<O>,
    ) -> (r: DispatchAction<O, O::Renderable>)
        requires
            old(self).wf(),
        ensures
            final(self).wf(),
            shape(final(self).alive()) == shape(old(self).alive()),
            final(self).next_id() == old(self).next_id(),
            r is QuitApplication || r is Empty,
            exists|acts: Seq<DispatchAction<O, O::Renderable>>|
                {
                    &&& #[trigger] dispatch_trace(
                        old(self).alive(),
                        final(self).alive(),
                        *ctx,
                        *event,
                        whitelist_view(objects_whitelist),
                        acts,
                        r is QuitApplication,
                    )
                    &&& apply_actions(
                        old(self).effects(old(dead_objects)@, old(new_objects)@),
                        dispatch_order(
                            subscribers(old(self).alive(), event.spec_event_kind()),
                            whitelist_view(objects_whitelist),
                        ),
                        acts,
                    ) == final(self).effects(final(dead_objects)@, final(new_objects)@)
                    &&& forall|t: int, p: int|
                        0 <= t < acts.len() && 0 <= p < old(self).alive().len()
                            && (#[trigger] old(self).alive()[p]).id == (#[trigger] dispatch_order(
                            subscribers(old(self).alive(), event.spec_event_kind()),
                            whitelist_view(objects_whitelist),
                        )[t]).0 ==> exists|m: &mut O|
                            *m == old(self).alive()[p].object
                                && mut_ref_future(m) == final(self).alive()[p].object
                                && call_ensures(O::dispatch, (m, ctx, event), acts[t])
                },
            forall|x: ObjectID|
                !dispatch_targets(
                    subscribers(old(self).alive(), event.spec_event_kind()),
                    whitelist_view(objects_whitelist),
                ).contains(x) ==> {
                    &&& final(self).renderables_view().contains_key(x)
                        == old(self).renderables_view().contains_key(x)
                    &&& final(self).renderables_view().contains_key(x)
                        ==> final(self).renderables_view()[x] == old(self).renderables_view()[x]
                },
            forall|j: int|
                0 <= j < old(self).alive().len() && !dispatch_targets(
                    subscribers(old(self).alive(), event.spec_event_kind()),
                    whitelist_view(objects_whitelist),
                ).contains(old(self).alive()[j].id) ==> #[trigger] final(self).alive()[j] == old(
                    self,
                ).alive()[j],
            old(self).is_updated() ==> final(self).is_updated(),
            final(self).renderables_view() != old(self).renderables_view()
                ==> final(self).is_updated(),
    {
        let ghost wl = whitelist_view(objects_whitelist);
        let kind = event.event_kind();
        let k = kind.index();
        let ghost subs = subscribers(self.alive_objects@, kind);
        let ghost targets = dispatch_targets(subs, wl);
        let ghost old_alive = self.alive_objects@;
        proof {
            self.lemma_mapped_is_subscribers(kind);
            lemma_subscribers_increasing(old_alive, kind);
        }
        let ghost old_rend = self.renderables@;
        let ghost old_dead = dead_objects@;
        let ghost old_new = new_objects@;
        let ghost old_eff = self.effects(old_dead, old_new);
        let ghost mut acts: Seq<DispatchAction<O, O::Renderable>> = Seq::empty();
        let n = self.mapped_objects[k].len();
        let mut i: usize = 0;
        proof {
            assert(subs.take(0) =~= Seq::<(ObjectID, usize)>::empty());
        }
        while i < n
            invariant
                0 <= i <= n,
                k < EVENT_KINDS,
                k == spec_kind_index(kind),
                kind == event.spec_event_kind(),
                n == subs.len(),
                self.mapped_objects@[k as int]@ == subs,
                targets == dispatch_targets(subs, wl),
                wl == whitelist_view(objects_whitelist),
                old_alive == old(self).alive_objects@,
                self.wf(),
                shape(self.alive_objects@) == shape(old_alive),
                self.current_id == old(self).current_id,
                forall|x: ObjectID|
                    !targets.contains(x) ==> {
                        &&& self.renderables@.contains_key(x) == old_rend.contains_key(x)
                        &&& self.renderables@.contains_key(x) ==> self.renderables@[x]
                            == old_rend[x]
                    },
                old_rend == old(self).renderables@,
                forall|j: int|
                    0 <= j < old_alive.len() && !targets.contains(old_alive[j].id)
                        ==> #[trigger] self.alive_objects@[j] == old_alive[j],
                old_dead == old(dead_objects)@,
                subs == subscribers(old_alive, kind),
                old_new == old(new_objects)@,
                old_eff == old(self).effects(old_dead, old_new),
                old(self).renderables_updated ==> self.renderables_updated,
                self.renderables@ != old_rend ==> self.renderables_updated,
                forall|a: int, b: int| 0 <= a < b < subs.len() ==> (#[trigger] subs[a]).0 < (#[trigger] subs[b]).0,
                forall|a: int|
                    0 <= a < subs.len() ==> exists|p: int|
                        0 <= p < old_alive.len() && (#[trigger] subs[a]) == (old_alive[p].id, old_alive[p].key),
                forall|a: int, b: int|
                    0 <= a < b < old_alive.len() ==> (#[trigger] old_alive[a]).id < (#[trigger] old_alive[b]).id,
                acts.len() == dispatch_order(subs.take(i as int), wl).len(),
                forall|t: int| 0 <= t < acts.len() ==> !(#[trigger] acts[t] is QuitApplication),
                apply_actions(old_eff, dispatch_order(subs.take(i as int), wl), acts) == self.effects(
                    dead_objects@,
                    new_objects@,
                ),
                forall|t: int, p: int|
                    0 <= t < acts.len() && 0 <= p < old_alive.len() && (#[trigger] old_alive[p]).id == (
                    #[trigger] dispatch_order(subs.take(i as int), wl)[t]).0 ==> exists|m: &mut O|
                        *m == old_alive[p].object && mut_ref_future(m) == self.alive_objects@[p].object
                            && call_ensures(O::dispatch, (m, ctx, event), acts[t]),
                forall|p: int|
                    0 <= p < old_alive.len() && (forall|t: int|
                        0 <= t < acts.len() ==> dispatch_order(subs.take(i as int), wl)[t].0 != old_alive[p].id)
                        ==> #[trigger] self.alive_objects@[p] == old_alive[p],
            decreases n - i,
        {
            let (id, key) = self.mapped_objects[k][i];
            let allowed = match objects_whitelist {
                Some(w) => slice_contains(w, id),
                None => true,
            };
            let ghost ord = dispatch_order(subs.take(i as int), wl);
            proof {
                lemma_dispatch_order_step(subs, wl, i as int);
                lemma_dispatch_order_sub(subs.take(i as int), wl);
                assert(subs[i as int] == (id, key));
                assert forall|t: int| 0 <= t < ord.len() implies #[trigger] ord[t].0 < id by {
                    let j = choose|j: int| 0 <= j < subs.take(i as int).len() && subs.take(i as int)[j] == ord[t];
                    assert(subs[j] == ord[t]);
                }
            }
            if allowed {
                proof {
                    assert(subs[i as int].0 == id);
                    assert(targets.contains(id));
                }
                let ghost pos = choose|p: int| 0 <= p < old_alive.len() && subs[i as int] == (old_alive[p].id, old_alive[p].key);
                proof {
                    assert(shape(self.alive_objects@)[pos] == shape(old_alive)[pos]);
                    assert(self.alive_objects@[pos].id == id);
                }
                match self.position_of(id) {
                    Some(p) => {
                        proof {
                            assert(shape(self.alive_objects@)[p as int] == shape(old_alive)[p as int]);
                            assert(old_alive[p as int].id == id);
                            if p as int != pos {
                                if (p as int) < pos {
                                    assert(old_alive[p as int].id < old_alive[pos].id);
                                } else {
                                    assert(old_alive[pos].id < old_alive[p as int].id);
                                }
                            }
                            assert(forall|t: int| 0 <= t < acts.len() ==> ord[t].0 != old_alive[p as int].id);
                            assert(self.alive_objects@[p as int] == old_alive[p as int]);
                        }
                        let ghost before_alive = self.alive_objects@;
                        let mut entry = self.alive_objects.remove(p);
                        let ghost obj0 = entry.object;
                        let action = entry.object.dispatch(ctx, event);
                        let ghost obj1 = entry.object;
                        proof {
                            assert(exists|m: &mut O|
                                *m == obj0 && mut_ref_future(m) == obj1 && call_ensures(O::dispatch, (m, ctx, event), action));
                        }
                        self.alive_objects.insert(p, entry);
                        proof {
                            assert(self.alive_objects@ =~= before_alive.update(p as int, entry));
                            assert(shape(self.alive_objects@) =~= shape(before_alive));
                            self.lemma_update_object_keeps_wf(before_alive, p as int);
                            assert(shape(before_alive)[p as int] == shape(old(self).alive_objects@)[p as int]);
                            assert forall|j: int|
                                0 <= j < old_alive.len() && !targets.contains(old_alive[j].id)
                                    implies #[trigger] self.alive_objects@[j] == old_alive[j] by {
                                assert(j != p);
                                assert(self.alive_objects@[j] == before_alive[j]);
                            }
                        }
                        let ghost a = action;
                        let ghost acts0 = acts;
                        let ghost dead0 = dead_objects@;
                        let ghost new0 = new_objects@;
                        let quit = self.apply_dispatch_action(id, key, action, dead_objects, new_objects);
                        proof {
                            let ord1 = dispatch_order(subs.take(i + 1), wl);
                            assert(ord1 == ord.push((id, key)));
                            acts = acts0.push(a);
                            assert(acts.drop_last() =~= acts0);
                            lemma_apply_actions_prefix(old_eff, ord, ord1, acts0);
                            assert(ord1[acts0.len() as int] == (id, key));
                            assert(acts.last() == a);
                            assert(apply_actions(old_eff, ord1, acts) == apply_action(
                                apply_actions(old_eff, ord1, acts0),
                                id,
                                key,
                                a,
                            ));
                            assert(apply_actions(old_eff, ord1, acts) == self.effects(dead_objects@, new_objects@));
                            lemma_subscribers_same_shape(self.alive_objects@, old_alive, kind);
                            assert(spec_kind_at(k as nat) == kind);
                            assert forall|t: int, q: int|
                                0 <= t < acts.len() && 0 <= q < old_alive.len() && (#[trigger] old_alive[q]).id == (
                                #[trigger] ord1[t]).0 implies exists|m: &mut O|
                                    *m == old_alive[q].object && mut_ref_future(m) == self.alive_objects@[q].object
                                        && call_ensures(O::dispatch, (m, ctx, event), acts[t]) by {
                                if t < acts0.len() {
                                    assert(ord1[t] == ord[t]);
                                    assert(q != p);
                                    assert(self.alive_objects@[q] == before_alive[q]);
                                    assert(acts[t] == acts0[t]);
                                } else {
                                    if q != p {
                                        if q < p {
                                            assert(old_alive[q].id < old_alive[p as int].id);
                                        } else {
                                            assert(old_alive[p as int].id < old_alive[q].id);
                                        }
                                    }
                                    assert(self.alive_objects@[q].object == obj1);
                                }
                            }
                            assert forall|q: int|
                                0 <= q < old_alive.len() && (forall|t: int|
                                    0 <= t < acts.len() ==> ord1[t].0 != old_alive[q].id)
                                    implies #[trigger] self.alive_objects@[q] == old_alive[q] by {
                                assert(ord1[acts0.len() as int].0 == id);
                                assert(q != p);
                                assert(self.alive_objects@[q] == before_alive[q]);
                                assert forall|t: int| 0 <= t < acts0.len() implies ord[t].0 != old_alive[q].id by {
                                    assert(ord1[t] == ord[t]);
                                }
                            }
                        }
                        if quit {
                            proof {
                                let full = dispatch_order(subs, wl);
                                let ord1 = dispatch_order(subs.take(i + 1), wl);
                                lemma_dispatch_order_prefix(subs, wl, i + 1);
                                assert(full.take(ord1.len() as int) == ord1);
                                assert forall|t: int| 0 <= t < acts.len() implies full[t] == ord1[t] by {
                                    assert(full.take(ord1.len() as int)[t] == full[t]);
                                }
                                lemma_apply_actions_prefix(old_eff, ord1, full, acts);
                                assert(dispatch_trace(old_alive, self.alive_objects@, *ctx, *event, wl, acts, true));
                                assert forall|t: int, q: int|
                                    0 <= t < acts.len() && 0 <= q < old_alive.len() && (#[trigger] old_alive[q]).id == (
                                    #[trigger] full[t]).0 implies exists|m: &mut O|
                                        *m == old_alive[q].object && mut_ref_future(m) == self.alive_objects@[q].object
                                            && call_ensures(O::dispatch, (m, ctx, event), acts[t]) by {
                                    assert(full[t] == ord1[t]);
                                }
                                assert(full == dispatch_order(
                                    subscribers(old(self).alive(), event.spec_event_kind()),
                                    whitelist_view(objects_whitelist),
                                ));
                                assert(old_eff == old(self).effects(old(dead_objects)@, old(new_objects)@));
                                assert(apply_actions(old_eff, full, acts) == self.effects(dead_objects@, new_objects@));
                                assert(exists|acts2: Seq<DispatchAction<O, O::Renderable>>|
                                    {
                                        &&& #[trigger] dispatch_trace(old_alive, self.alive(), *ctx, *event, wl, acts2, true)
                                        &&& apply_actions(old_eff, full, acts2) == self.effects(dead_objects@, new_objects@)
                                        &&& forall|t: int, q: int|
                                            0 <= t < acts2.len() && 0 <= q < old_alive.len()
                                                && (#[trigger] old_alive[q]).id == (#[trigger] full[t]).0 ==> exists|m: &mut O|
                                                *m == old_alive[q].object && mut_ref_future(m) == self.alive_objects@[q].object
                                                    && call_ensures(O::dispatch, (m, ctx, event), acts2[t])
                                    });
                            }
                            return DispatchAction::QuitApplication;
                        }
                    },
                    None => {
                        proof {
                            assert(subs[i as int] == (id, key));
                            let q = choose|q: int|
                                0 <= q < old_alive.len() && subs[i as int] == (old_alive[q].id, old_alive[q].key);
                            assert(shape(self.alive_objects@).len() == shape(old_alive).len());
                            assert(shape(self.alive_objects@)[q] == shape(old_alive)[q]);
                            assert(self.alive_objects@[q].id == id);
                            assert(false);
                        }
                    },
                }
            } else {
                proof {
                    assert(dispatch_order(subs.take(i + 1), wl) == ord);
                }
            }
            proof {
                lemma_subscribers_same_shape(self.alive_objects@, old_alive, kind);
                assert(spec_kind_at(k as nat) == kind);
            }
            i = i + 1;
        }
        proof {
            assert(subs.take(n as int) =~= subs);
            assert(dispatch_trace(old_alive, self.alive_objects@, *ctx, *event, wl, acts, false));
            assert(apply_actions(old_eff, dispatch_order(subs, wl), acts) == self.effects(dead_objects@, new_objects@));
            let full = dispatch_order(subs, wl);
            assert(dispatch_order(subs.take(n as int), wl) == full);
            assert forall|t: int, q: int|
                0 <= t < acts.len() && 0 <= q < old_alive.len() && (#[trigger] old_alive[q]).id == (
                #[trigger] full[t]).0 implies exists|m: &mut O|
                    *m == old_alive[q].object && mut_ref_future(m) == self.alive_objects@[q].object
                        && call_ensures(O::dispatch, (m, ctx, event), acts[t]) by {
                assert(dispatch_order(subs.take(n as int), wl)[t] == full[t]);
            }
            assert(full == dispatch_order(
                subscribers(old(self).alive(), event.spec_event_kind()),
                whitelist_view(objects_whitelist),
            ));
            assert(old_eff == old(self).effects(old(dead_objects)@, old(new_objects)@));
            assert(apply_actions(old_eff, full, acts) == self.effects(dead_objects@, new_objects@));
            assert(dispatch_trace(old_alive, self.alive(), *ctx, *event, wl, acts, false));
            assert(exists|acts2: Seq<DispatchAction<O, O::Renderable>>|
                {
                    &&& #[trigger] dispatch_trace(old_alive, self.alive(), *ctx, *event, wl, acts2, false)
                    &&& apply_actions(old_eff, full, acts2) == self.effects(dead_objects@, new_objects@)
                    &&& forall|t: int, q: int|
                        0 <= t < acts2.len() && 0 <= q < old_alive.len()
                            && (#[trigger] old_alive[q]).id == (#[trigger] full[t]).0 ==> exists|m: &mut O|
                            *m == old_alive[q].object && mut_ref_future(m) == self.alive_objects@[q].object
                                && call_ensures(O::dispatch, (m, ctx, event), acts2[t])
                });
        }
        DispatchAction::Empty
    }

    /// Dispatches `event` to all its subscribers, then removes the objects
    /// whose removal was requested and adds the spawned ones. While objects
    /// are spawned, the creation event is dispatched to exactly the newly
    /// added objects, and the round repeats. Returns the result of each
    /// round. When object numbers are exhausted, further spawned objects are
    /// dropped and the rounds end.
    pub fn dispatch_event(&mut self, ctx: &O::Ctx, event: &Event<O::Scalar>) -> (r: Vec<
        DispatchAction<O, O::Renderable>,
    >)
        requires
            old(self).wf(),
        ensures
            final(self).wf(),
            r.len() >= 1,
            exists|states: Seq<CollectionModel<O, O::Renderable>>, fresh: Seq<Seq<ObjectID>>|
                #[trigger] dispatch_rounds(states, fresh, *ctx, *event, r@) && states[0] == old(
                    self,
                ).model() && states.last() == final(self).model(),
    {
        let mut whitelist: Vec<ObjectID> = Vec::new();
        let mut result: Vec<DispatchAction<O, O::Renderable>> = Vec::new();
        let create_event: Event<O::Scalar> = Event::Create;
        let mut creating = false;
        let ghost mut states: Seq<CollectionModel<O, O::Renderable>> = seq![self.model()];
        let ghost mut fresh: Seq<Seq<ObjectID>> = Seq::empty();
        loop
            invariant_except_break
                creating == (result.len() > 0),
                !creating ==> whitelist@.len() == 0,
                creating ==> whitelist@ == fresh.last() && whitelist@.len() > 0,
                forall|k: int| 0 <= k < result.len() ==> (#[trigger] fresh[k]).len() > 0,
            invariant
                self.wf(),
                create_event == Event::<O::Scalar>::Create,
                states.len() == result.len() + 1,
                fresh.len() == result.len(),
                states[0] == old(self).model(),
                states.last() == self.model(),
                forall|k: int|
                    #![trigger fresh[k]]
                    0 <= k < result.len() ==> dispatch_round(
                        states[k],
                        states[k + 1],
                        *ctx,
                        round_event(k, *event),
                        round_whitelist(k, fresh),
                        result@[k],
                        fresh[k],
                    ),
            ensures
                self.wf(),
                dispatch_rounds(states, fresh, *ctx, *event, result@),
                states[0] == old(self).model(),
                states.last() == self.model(),
            decreases usize::MAX - self.current_id,
        {
            let ghost s0 = self.model();
            let ghost k = result.len() as int;
            let mut dead_objects: Vec<usize> = Vec::new();
            let mut new_objects: Vec<O> = Vec::new();
            let current: &Event<O::Scalar> = if creating {
                &create_event
            } else {
                event
            };
            proof {
                assert(*current == round_event(k, *event));
                if creating {
                    assert(whitelist@ == fresh[k - 1]);
                }
            }
            let ghost wl = round_whitelist(k, fresh);
            let action = if whitelist.len() == 0 {
                proof {
                    assert(k == 0);
                }
                self.dispatch_event_inner(ctx, current, None, &mut dead_objects, &mut new_objects)
            } else {
                let listed = whitelist.as_slice();
                proof {
                    assert(listed@ == whitelist@);
                    assert(whitelist_view(Some(listed)) == wl);
                }
                self.dispatch_event_inner(ctx, current, Some(listed), &mut dead_objects, &mut new_objects)
            };
            let ghost mid = self.alive();
            let ghost dead = dead_objects@;
            let ghost spawned = new_objects@;
            let ghost rend = self.renderables_view();
            let ghost upd = self.is_updated();
            let ghost acts = choose|acts: Seq<DispatchAction<O, O::Renderable>>|
                #[trigger] dispatch_trace(s0.alive, mid, *ctx, *current, wl, acts, action is QuitApplication)
                    && apply_actions(
                    s0.effects_from(),
                    dispatch_order(subscribers(s0.alive, current.spec_event_kind()), wl),
                    acts,
                ) == (DispatchEffects { renderables: rend, updated: upd, dead, spawned });
            proof {
                assert(s0.effects_from() == DispatchEffects {
                    renderables: s0.renderables,
                    updated: s0.updated,
                    dead: Seq::<usize>::empty(),
                    spawned: Seq::<O>::empty(),
                });
            }
            let ghost mid_next = self.current_id;
            for dead_key in it: dead_objects
                invariant
                    it.seq() == dead,
                    self.wf(),
                    self.alive() == without_keys(mid, dead.take(it.index() as int)),
                    self.renderables_view() == rend,
                    self.is_updated() == upd,
                    self.current_id == mid_next,
            {
                let ghost j = it.index() as int;
                proof {
                    assert(dead.take(j + 1).drop_last() =~= dead.take(j));
                    assert(dead.take(j + 1).last() == dead[j]);
                }
                self.remove_object(dead_key);
            }
            proof {
                assert(dead.take(dead.len() as int) =~= dead);
            }
            let ghost base = self.alive();
            let ghost first = self.current_id;
            let mut added: Vec<ObjectID> = Vec::new();
            for object in it: new_objects
                invariant
                    it.seq() == spawned,
                    self.wf(),
                    self.alive().len() == base.len() + added@.len(),
                    self.alive().take(base.len() as int) == base,
                    numbered_as(self.alive().skip(base.len() as int), spawned, first as int),
                    self.alive().skip(base.len() as int).len() == added@.len(),
                    ids_of(self.alive().skip(base.len() as int)) == added@,
                    self.current_id == first + added@.len(),
                    added@.len() <= it.index(),
                    added@.len() < it.index() ==> self.current_id == usize::MAX,
                    self.renderables_view() == rend,
                    self.is_updated() == upd,
                    first == mid_next,
            {
                if self.current_id < usize::MAX {
                    let ghost before = self.alive();
                    let ghost idx = it.index() as int;
                    let id = self.add_object(object);
                    added.push(id);
                    proof {
                        let tail = self.alive().skip(base.len() as int);
                        let tail0 = before.skip(base.len() as int);
                        assert(self.alive().drop_last() == before);
                        assert(tail =~= tail0.push(self.alive().last()));
                        assert(self.alive().take(base.len() as int) =~= before.take(base.len() as int));
                        assert(ids_of(tail) =~= ids_of(tail0).push(id));
                        assert(added@.len() - 1 == idx);
                        assert(spawned[idx] == object);
                        assert forall|j: int| 0 <= j < tail.len() implies (#[trigger] tail[j]).object == spawned[j]
                            && tail[j].id == first + j && call_ensures(O::identity, (&spawned[j],), tail[j].key)
                            && call_ensures(O::event_mask, (&spawned[j],), tail[j].mask) by {
                            if j < tail0.len() {
                                assert(tail[j] == tail0[j]);
                            }
                        }
                    }
                }
            }
            proof {
                assert(self.alive().take(base.len() as int) =~= base);
                let s1 = self.model();
                assert(round_steps(s0, s1, *ctx, round_event(k, *event), wl, action, added@, mid, acts, dead, spawned));
                assert(dispatch_round(s0, s1, *ctx, round_event(k, *event), wl, action, added@));
            }
            result.push(action);
            proof {
                states = states.push(self.model());
                fresh = fresh.push(added@);
                assert forall|q: int|
                    #![trigger fresh[q]]
                    0 <= q < result.len() implies dispatch_round(
                        states[q],
                        states[q + 1],
                        *ctx,
                        round_event(q, *event),
                        round_whitelist(q, fresh),
                        result@[q],
                        fresh[q],
                    ) by {
                    if q < k {
                        assert(states[q] == states.drop_last()[q]);
                        assert(round_whitelist(q, fresh) == round_whitelist(q, fresh.drop_last()));
                    }
                }
            }
            if added.len() == 0 {
                proof {
                    assert(dispatch_rounds(states, fresh, *ctx, *event, result@));
                }
                break ;
            }
            whitelist = added;
            creating = true;
        }
        result
    }

    proof fn lemma_update_object_keeps_wf(&self, before: Seq<NumberedObject<O>>, p: int)
        requires
            0 <= p < before.len(),
            self.alive_objects@.len() == before.len(),
            shape(self.alive_objects@) == shape(before),
            self.mapped_objects.len() == EVENT_KINDS,
            forall|k: int|
                0 <= k < EVENT_KINDS ==> (#[trigger] self.mapped_objects@[k])@ == subscribers(
                    before,
                    spec_kind_at(k as nat),
                ),
            forall|i: int, j: int|
                0 <= i < j < before.len() ==> (#[trigger] before[i]).id < (#[trigger] before[j]).id,
            forall|i: int| 0 <= i < before.len() ==> (#[trigger] before[i]).id < self.current_id,
        ensures
            self.wf(),
    {
        let a = self.alive_objects@;
        assert forall|i: int| 0 <= i < a.len() implies (#[trigger] a[i]).id == before[i].id
            && a[i].key == before[i].key && a[i].mask == before[i].mask by {
            assert(shape(a)[i] == shape(before)[i]);
        }
        assert forall|k: int| 0 <= k < EVENT_KINDS implies (#[trigger] self.mapped_objects@[k])@
            == subscribers(a, spec_kind_at(k as nat)) by {
            lemma_subscribers_same_shape(a, before, spec_kind_at(k as nat));
        }
    }

    /// Live objects carry distinct numbers, increasing in the order they
    /// were added, all below the number the next object gets.
    pub proof fn law_numbers_increasing(&self)
        requires
            self.wf(),
        ensures
            forall|i: int, j: int|
                0 <= i < j < self.alive().len() ==> (#[trigger] self.alive()[i]).id < (
                #[trigger] self.alive()[j]).id,
            forall|i: int| 0 <= i < self.alive().len() ==> (#[trigger] self.alive()[i]).id < self.next_id(),
    {
    }
}

} // verus!
