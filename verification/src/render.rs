//! The frame data streamed to the renderer thread.

use vstd::prelude::*;
use std::collections::HashMap;
use vstd::std_specs::cmp::PartialEqSpec;

verus! {

/// Everything to draw in one frame: renderables and the lights of each
/// kind, with an epoch counting the updates. The element types are the
/// renderer's.
#[derive(Debug, Clone)]
pub struct DataStreamFrame<R, P, S, A, Sun> {
    /// Incremented every time the frame is updated.
    pub epoch: usize,
    pub renderables: Vec<R>,
    pub point_lights: Vec<P>,
    pub spot_lights: Vec<S>,
    pub area_lights: Vec<A>,
    pub sun_lights: Vec<Sun>,
}

impl<R, P, S, A, Sun> DataStreamFrame<R, P, S, A, Sun> {
    /// Empties every list; the epoch is kept.
    pub fn clear(&mut self)
        ensures
            final(self).epoch == old(self).epoch,
            final(self).renderables@ == Seq::<R>::empty(),
            final(self).point_lights@ == Seq::<P>::empty(),
            final(self).spot_lights@ == Seq::<S>::empty(),
            final(self).area_lights@ == Seq::<A>::empty(),
            final(self).sun_lights@ == Seq::<Sun>::empty(),
    {
        self.renderables.clear();
        self.point_lights.clear();
        self.spot_lights.clear();
        self.area_lights.clear();
        self.sun_lights.clear();
    }
}

/// The last value sent for each entity, to tell which values changed.
pub struct ChangeCache<T> {
    cache: HashMap<u64, T>,
}

impl<T: PartialEq + Clone> ChangeCache<T> {
    /// The cached value of each entity.
    pub closed spec fn view(&self) -> Map<u64, T> {
        self.cache@
    }

    pub fn new() -> (r: ChangeCache<T>)
        ensures
            r@ == Map::<u64, T>::empty(),
    {
        ChangeCache { cache: HashMap::new() }
    }

    /// Forgets every entity.
    pub fn clear(&mut self)
        ensures
            final(self)@ == Map::<u64, T>::empty(),
    {
        self.cache.clear();
    }

    /// Whether `item` is new for `entity` (never seen, or different from
    /// the cached value); a new item replaces the cached one.
    pub fn is_updated(&mut self, entity: u64, item: &T) -> (r: bool)
        ensures
            !old(self)@.contains_key(entity) ==> r,
            r ==> final(self)@.dom() == old(self)@.dom().insert(entity) && cloned(
                *item,
                final(self)@[entity],
            ) && forall|k: u64| k != entity && #[trigger] old(self)@.contains_key(k) ==> final(self)@[k]
                == old(self)@[k],
            !r ==> final(self)@ == old(self)@,
            T::obeys_eq_spec() && old(self)@.contains_key(entity) ==> r == !item.eq_spec(
                &old(self)@[entity],
            ),
    {
        let changed = match self.cache.get(&entity) {
            Some(cached) => !item.eq(cached),
            None => true,
        };
        if changed {
            let copy = item.clone();
            self.cache.insert(entity, copy);
        }
        changed
    }
}

/// Change caches of what is streamed to the renderer: renderables and
/// lights, by entity.
pub struct UpdateTracker<R, P, Sun, A, S> {
    pub renderables_cache: ChangeCache<R>,
    pub point_lights_cache: ChangeCache<P>,
    pub sun_lights_cache: ChangeCache<Sun>,
    pub area_lights_cache: ChangeCache<A>,
    pub spot_lights_cache: ChangeCache<S>,
}

impl<
    R: PartialEq + Clone,
    P: PartialEq + Clone,
    Sun: PartialEq + Clone,
    A: PartialEq + Clone,
    S: PartialEq + Clone,
> UpdateTracker<R, P, Sun, A, S> {
    pub fn new() -> (r: UpdateTracker<R, P, Sun, A, S>)
        ensures
            r.renderables_cache@ == Map::<u64, R>::empty(),
            r.point_lights_cache@ == Map::<u64, P>::empty(),
            r.sun_lights_cache@ == Map::<u64, Sun>::empty(),
            r.area_lights_cache@ == Map::<u64, A>::empty(),
            r.spot_lights_cache@ == Map::<u64, S>::empty(),
    {
        UpdateTracker {
            renderables_cache: ChangeCache::new(),
            point_lights_cache: ChangeCache::new(),
            sun_lights_cache: ChangeCache::new(),
            area_lights_cache: ChangeCache::new(),
            spot_lights_cache: ChangeCache::new(),
        }
    }

    /// Forgets everything sent: every item counts as new again.
    pub fn clear(&mut self)
        ensures
            final(self).renderables_cache@ == Map::<u64, R>::empty(),
            final(self).point_lights_cache@ == Map::<u64, P>::empty(),
            final(self).sun_lights_cache@ == Map::<u64, Sun>::empty(),
            final(self).area_lights_cache@ == Map::<u64, A>::empty(),
            final(self).spot_lights_cache@ == Map::<u64, S>::empty(),
    {
        self.renderables_cache.clear();
        self.point_lights_cache.clear();
        self.sun_lights_cache.clear();
        self.area_lights_cache.clear();
        self.spot_lights_cache.clear();
    }
}

} // verus!
