//! The voice table of a source that plays clips for actors in the scene.
//!
//! The table has a fixed number of voice slots. A slot whose actor is the
//! empty identifier is free. Adding an actor takes the first free slot;
//! rendering a block advances each playing voice by at most one block and
//! frees the slot when its clip has played to the end. Positions, gains and
//! clip data are carried through unchanged: the table never reads them.

use vstd::prelude::*;
use crate::ids::next_number;
use std::collections::HashMap;
use crate::audio::BLOCK_SIZE;

verus! {

broadcast use vstd::std_specs::hash::group_hash_axioms;

/// Number of voice slots.
pub const MAX_ACTORS: usize = 1024;

/// Identifier of an actor; the number zero is the empty identifier, which
/// marks a free voice slot.
#[derive(Debug, Clone, Copy, PartialEq, Eq, Structural, Hash)]
pub struct ActorID(pub usize);

impl ActorID {
    /// The number of the identifier.
    pub open spec fn spec_value(&self) -> usize {
        self.0
    }

    /// Whether this is the empty identifier.
    pub open spec fn spec_is_empty(&self) -> bool {
        self.0 == 0
    }

    pub fn new(value: usize) -> (r: ActorID)
        ensures
            r.spec_value() == value,
    {
        ActorID(value)
    }

    /// The empty identifier, which marks a free slot.
    pub fn empty() -> (r: ActorID)
        ensures
            r.spec_is_empty(),
    {
        ActorID(0)
    }

    pub fn value(&self) -> (r: usize)
        ensures
            r == self.spec_value(),
    {
        self.0
    }
}

/// Hands out actor identifiers in increasing order starting at one,
/// wrapping around after the largest number.
#[derive(Debug)]
pub struct ActorIdSource {
    next: usize,
}

impl ActorIdSource {
    /// The number of the next identifier.
    pub closed spec fn spec_next(&self) -> usize {
        self.next
    }

    pub fn new() -> (r: ActorIdSource)
        ensures
            r.spec_next() == 1,
    {
        ActorIdSource { next: 1 }
    }

    /// The next identifier.
    pub fn next_id(&mut self) -> (r: ActorID)
        ensures
            r.spec_value() == old(self).spec_next(),
            final(self).spec_next() == next_number(old(self).spec_next()),
    {
        let id = self.next;
        self.next = self.next.wrapping_add(1);
        ActorID(id)
    }
}

/// A clip: its data, and its length in samples.
#[derive(Debug, Clone)]
pub struct Clip<C> {
    pub data: C,
    pub len: usize,
}

/// One voice slot.
#[derive(Debug)]
pub struct Voice<P, G, C> {
    pub id: ActorID,
    pub position: P,
    pub gain: G,
    /// Samples of the clip played so far.
    pub playback_position: usize,
    pub clip: Option<Clip<C>>,
}

/// What a source of actors is told.
#[derive(Debug)]
#[allow(inconsistent_fields)]
pub enum ActorsSourceEvent<P, G, C> {
    /// Start playing a clip for an actor; without an identifier a fresh one
    /// is taken.
    AddActor { id: Option<ActorID>, pos: P, gain: G, clip: Clip<C> },
    RemoveActor(ActorID),
    ChangeActorPosition { id: ActorID, pos: P },
    ChangeActorGain { id: ActorID, gain: G },
    ChangeListenerPosition(P),
}

/// One voice's share of a rendered block: `count` samples of its clip from
/// sample `start` on, mixed with its gain.
#[derive(Debug)]
pub struct BlockCopy<G, C> {
    pub voice: usize,
    pub start: usize,
    pub count: usize,
    pub gain: G,
    pub clip: C,
}

/// Whether a voice is playing: it has an actor and a clip.
pub open spec fn playing<P, G, C>(v: Voice<P, G, C>) -> bool {
    !v.id.spec_is_empty() && v.clip is Some
}

/// Samples a playing voice plays in the next block.
pub open spec fn block_share<P, G, C>(v: Voice<P, G, C>) -> int {
    let left = v.clip->0.len - v.playback_position;
    if BLOCK_SIZE < left {
        BLOCK_SIZE as int
    } else {
        left
    }
}

/// The voice after one block: a playing voice moves on by its share and
/// is freed, with its clip dropped, once the clip has played to the end.
pub open spec fn voice_after_block<P, G, C>(v: Voice<P, G, C>) -> Voice<P, G, C> {
    if playing(v) {
        let pos = (v.playback_position + block_share(v)) as usize;
        if pos == v.clip->0.len {
            Voice { id: ActorID(0), playback_position: pos, clip: None, ..v }
        } else {
            Voice { playback_position: pos, ..v }
        }
    } else {
        v
    }
}

/// For each playing voice of `s`, in slot order: its slot, start and share.
pub open spec fn block_plan<P, G, C>(s: Seq<Voice<P, G, C>>) -> Seq<(int, int, int)>
    decreases s.len(),
{
    if s.len() == 0 {
        Seq::empty()
    } else {
        let rest = block_plan(s.drop_last());
        let v = s.last();
        if playing(v) {
            rest.push(((s.len() - 1) as int, v.playback_position as int, block_share(v)))
        } else {
            rest
        }
    }
}

/// `copy` is the share `entry` of the plan for the voices `s`: same slot,
/// start and count, the voice's gain and a clone of its clip's data.
pub open spec fn plan_entry_matches<P, G, C: Clone>(
    copy: BlockCopy<G, C>,
    entry: (int, int, int),
    s: Seq<Voice<P, G, C>>,
) -> bool {
    &&& copy.voice == entry.0
    &&& copy.start == entry.1
    &&& copy.count == entry.2
    &&& copy.gain == s[entry.0].gain
    &&& cloned(s[entry.0].clip->0.data, copy.clip)
}

/// `plan` is, share by share, the block plan of the voices `s`.
pub open spec fn plan_matches<P, G, C: Clone>(plan: Seq<BlockCopy<G, C>>, s: Seq<Voice<P, G, C>>) -> bool {
    &&& plan.len() == block_plan(s).len()
    &&& forall|k: int| 0 <= k < plan.len() ==> plan_entry_matches(#[trigger] plan[k], block_plan(s)[k], s)
}

/// Every share of the block plan names a playing slot of `s`, and the
/// slots come in increasing order.
pub proof fn lemma_block_plan_slots<P, G, C>(s: Seq<Voice<P, G, C>>)
    ensures
        forall|k: int|
            0 <= k < block_plan(s).len() ==> 0 <= (#[trigger] block_plan(s)[k]).0 < s.len() && playing(
                s[block_plan(s)[k].0],
            ) && block_plan(s)[k].1 == s[block_plan(s)[k].0].playback_position
                && block_plan(s)[k].2 == block_share(s[block_plan(s)[k].0]),
        forall|k: int, l: int|
            0 <= k < l < block_plan(s).len() ==> (#[trigger] block_plan(s)[k]).0 < (
            #[trigger] block_plan(s)[l]).0,
    decreases s.len(),
{
    if s.len() > 0 {
        let d = s.drop_last();
        lemma_block_plan_slots(d);
        assert forall|k: int| 0 <= k < block_plan(d).len() implies #[trigger] s[block_plan(d)[k].0] == d[block_plan(d)[k].0] by {}
    }
}

/// `i` is the first free slot of `s`.
pub open spec fn is_first_free<P, G, C>(s: Seq<Voice<P, G, C>>, i: int) -> bool {
    &&& 0 <= i < s.len()
    &&& s[i].id.spec_is_empty()
    &&& forall|j: int| 0 <= j < i ==> !(#[trigger] s[j]).id.spec_is_empty()
}

/// `s` has a free slot.
pub open spec fn has_free<P, G, C>(s: Seq<Voice<P, G, C>>) -> bool {
    exists|i: int| 0 <= i < s.len() && (#[trigger] s[i]).id.spec_is_empty()
}

/// The voice table, with the listener's position and whether the last
/// rendered block is still valid.
pub struct ActorsSource<P, G, C> {
    cached: bool,
    listener_position: P,
    id_map: HashMap<usize, usize>,
    voices: Vec<Voice<P, G, C>>,
    ids: ActorIdSource,
    rest_position: P,
    unit_gain: G,
}

impl<P: Copy, G: Copy, C: Clone> ActorsSource<P, G, C> {
    /// The voice slots.
    pub closed spec fn voices(&self) -> Seq<Voice<P, G, C>> {
        self.voices@
    }

    /// The slot of each actor, by identifier number.
    pub closed spec fn slots(&self) -> Map<usize, usize> {
        self.id_map@
    }

    pub closed spec fn is_cached(&self) -> bool {
        self.cached
    }

    pub closed spec fn listener(&self) -> P {
        self.listener_position
    }

    /// The number of the identifier handed to the next actor added without one.
    pub closed spec fn next_actor(&self) -> usize {
        self.ids.spec_next()
    }

    /// A free slot: the empty actor at the resting position with unit gain.
    pub closed spec fn free_voice(&self) -> Voice<P, G, C> {
        Voice {
            id: ActorID(0),
            position: self.rest_position,
            gain: self.unit_gain,
            playback_position: 0,
            clip: None,
        }
    }

    /// Every slot that a known actor names exists, and no voice has played
    /// past the end of its clip.
    pub closed spec fn wf(&self) -> bool {
        &&& self.voices@.len() == MAX_ACTORS
        &&& forall|k: usize| #[trigger] self.id_map@.contains_key(k) ==> self.id_map@[k] < MAX_ACTORS
        &&& forall|i: int|
            0 <= i < self.voices@.len() ==> ((#[trigger] self.voices@[i]).clip matches Some(c)
                ==> self.voices@[i].playback_position <= c.len)
    }

    /// A table of free slots; `zero_position` is the resting position of a
    /// free voice and of the listener, `unit_gain` the gain of a free voice.
    pub fn new(zero_position: P, unit_gain: G) -> (r: ActorsSource<P, G, C>)
        ensures
            r.wf(),
            r.voices().len() == MAX_ACTORS,
            forall|i: int| 0 <= i < MAX_ACTORS ==> #[trigger] r.voices()[i] == r.free_voice(),
            r.slots() == Map::<usize, usize>::empty(),
            !r.is_cached(),
            r.listener() == zero_position,
            r.next_actor() == 1,
    {
        let mut voices: Vec<Voice<P, G, C>> = Vec::new();
        let mut i: usize = 0;
        while i < MAX_ACTORS
            invariant
                0 <= i <= MAX_ACTORS,
                voices@.len() == i,
                forall|j: int|
                    0 <= j < i ==> #[trigger] voices@[j] == (Voice::<P, G, C> {
                        id: ActorID(0),
                        position: zero_position,
                        gain: unit_gain,
                        playback_position: 0,
                        clip: None,
                    }),
            decreases MAX_ACTORS - i,
        {
            voices.push(
                Voice {
                    id: ActorID(0),
                    position: zero_position,
                    gain: unit_gain,
                    playback_position: 0,
                    clip: None,
                },
            );
            i = i + 1;
        }
        ActorsSource {
            cached: false,
            listener_position: zero_position,
            id_map: HashMap::new(),
            voices,
            ids: ActorIdSource::new(),
            rest_position: zero_position,
            unit_gain,
        }
    }

    /// The first free slot, if any.
    fn first_free(&self) -> (r: Option<usize>)
        ensures
            r matches Some(i) ==> is_first_free(self.voices(), i as int),
            r is None ==> !has_free(self.voices()),
    {
        let mut i: usize = 0;
        while i < self.voices.len()
            invariant
                0 <= i <= self.voices.len(),
                forall|j: int| 0 <= j < i ==> !(#[trigger] self.voices@[j]).id.spec_is_empty(),
            decreases self.voices.len() - i,
        {
            if self.voices[i].id.0 == 0 {
                return Some(i);
            }
            i = i + 1;
        }
        None
    }

    /// The slot of a known actor, if any.
    fn slot_of(&self, id: ActorID) -> (r: Option<usize>)
        requires
            self.wf(),
        ensures
            r matches Some(i) ==> self.slots().contains_key(id.spec_value()) && self.slots()[id.spec_value()]
                == i && i < MAX_ACTORS,
            r is None ==> !self.slots().contains_key(id.spec_value()),
    {
        match self.id_map.get(&id.0) {
            Some(i) => Some(*i),
            None => None,
        }
    }

    /// Applies an event to the table. A new actor takes the first free slot
    /// (its identifier, if already known, is moved there) or is dropped when
    /// no slot is free; events naming an unknown actor change nothing. Every
    /// change invalidates the last rendered block.
    pub fn dispatch(&mut self, event: ActorsSourceEvent<P, G, C>)
        requires
            old(self).wf(),
        ensures
            final(self).wf(),
            final(self).listener() == (match event {
                ActorsSourceEvent::ChangeListenerPosition(pos) => pos,
                _ => old(self).listener(),
            }),
            match event {
                ActorsSourceEvent::AddActor { id, pos, gain, clip } => if has_free(old(self).voices()) {
                    let actor = match id {
                        Some(a) => a,
                        None => ActorID(old(self).next_actor()),
                    };
                    &&& exists|i: int|
                        #![trigger old(self).voices()[i]]
                        is_first_free(old(self).voices(), i) && final(self).voices() == old(
                            self,
                        ).voices().update(
                            i,
                            Voice {
                                id: actor,
                                position: pos,
                                gain,
                                playback_position: 0,
                                clip: Some(clip),
                            },
                        ) && final(self).slots() == old(self).slots().insert(
                            actor.spec_value(),
                            i as usize,
                        )
                    &&& !final(self).is_cached()
                    &&& final(self).next_actor() == (if id is None {
                        next_number(old(self).next_actor())
                    } else {
                        old(self).next_actor()
                    })
                } else {
                    &&& final(self).voices() == old(self).voices()
                    &&& final(self).slots() == old(self).slots()
                    &&& final(self).is_cached() == old(self).is_cached()
                    &&& final(self).next_actor() == old(self).next_actor()
                },
                ActorsSourceEvent::RemoveActor(id) => {
                    &&& final(self).next_actor() == old(self).next_actor()
                    &&& if old(self).slots().contains_key(id.spec_value()) {
                        &&& final(self).voices() == old(self).voices().update(
                            old(self).slots()[id.spec_value()] as int,
                            old(self).free_voice(),
                        )
                        &&& final(self).slots() == old(self).slots().remove(id.spec_value())
                        &&& !final(self).is_cached()
                    } else {
                        &&& final(self).voices() == old(self).voices()
                        &&& final(self).slots() == old(self).slots()
                        &&& final(self).is_cached() == old(self).is_cached()
                    }
                },
                ActorsSourceEvent::ChangeActorPosition { id, pos } => {
                    &&& final(self).next_actor() == old(self).next_actor()
                    &&& final(self).slots() == old(self).slots()
                    &&& if old(self).slots().contains_key(id.spec_value()) {
                        let i = old(self).slots()[id.spec_value()] as int;
                        &&& final(self).voices() == old(self).voices().update(
                            i,
                            Voice { position: pos, ..old(self).voices()[i] },
                        )
                        &&& !final(self).is_cached()
                    } else {
                        &&& final(self).voices() == old(self).voices()
                        &&& final(self).is_cached() == old(self).is_cached()
                    }
                },
                ActorsSourceEvent::ChangeActorGain { id, gain } => {
                    &&& final(self).next_actor() == old(self).next_actor()
                    &&& final(self).slots() == old(self).slots()
                    &&& if old(self).slots().contains_key(id.spec_value()) {
                        let i = old(self).slots()[id.spec_value()] as int;
                        &&& final(self).voices() == old(self).voices().update(
                            i,
                            Voice { gain, ..old(self).voices()[i] },
                        )
                        &&& !final(self).is_cached()
                    } else {
                        &&& final(self).voices() == old(self).voices()
                        &&& final(self).is_cached() == old(self).is_cached()
                    }
                },
                ActorsSourceEvent::ChangeListenerPosition(pos) => {
                    &&& final(self).voices() == old(self).voices()
                    &&& final(self).slots() == old(self).slots()
                    &&& !final(self).is_cached()
                    &&& final(self).next_actor() == old(self).next_actor()
                },
            },
            final(self).free_voice() == old(self).free_voice(),
    {
        match event {
            ActorsSourceEvent::AddActor { id, pos, gain, clip } => {
                match self.first_free() {
                    Some(index) => {
                        let actor_id = match id {
                            Some(a) => a,
                            None => self.ids.next_id(),
                        };
                        let voice = Voice {
                            id: actor_id,
                            position: pos,
                            gain,
                            playback_position: 0,
                            clip: Some(clip),
                        };
                        self.voices.set(index, voice);
                        self.id_map.insert(actor_id.0, index);
                        self.cached = false;
                    },
                    None => {},
                }
            },
            ActorsSourceEvent::RemoveActor(id) => {
                match self.slot_of(id) {
                    Some(index) => {
                        let free = Voice {
                            id: ActorID(0),
                            position: self.rest_position,
                            gain: self.unit_gain,
                            playback_position: 0,
                            clip: None,
                        };
                        self.voices.set(index, free);
                        self.id_map.remove(&id.0);
                        self.cached = false;
                    },
                    None => {},
                }
            },
            ActorsSourceEvent::ChangeActorPosition { id, pos } => {
                match self.slot_of(id) {
                    Some(index) => {
                        self.voices[index].position = pos;
                        self.cached = false;
                    },
                    None => {},
                }
            },
            ActorsSourceEvent::ChangeActorGain { id, gain } => {
                match self.slot_of(id) {
                    Some(index) => {
                        self.voices[index].gain = gain;
                        self.cached = false;
                    },
                    None => {},
                }
            },
            ActorsSourceEvent::ChangeListenerPosition(pos) => {
                self.listener_position = pos;
                self.cached = false;
            },
        }
    }

    /// Renders a block. While the last block is still valid nothing moves
    /// and `None` says so; otherwise every playing voice plays its share of
    /// the block, and the shares come back in slot order. A voice whose
    /// clip has played to the end is freed; its actor stays known.
    pub fn render(&mut self) -> (r: Option<Vec<BlockCopy<G, C>>>)
        requires
            old(self).wf(),
        ensures
            final(self).wf(),
            final(self).is_cached(),
            final(self).slots() == old(self).slots(),
            final(self).listener() == old(self).listener(),
            final(self).next_actor() == old(self).next_actor(),
            final(self).free_voice() == old(self).free_voice(),
            old(self).is_cached() ==> r is None && final(self).voices() == old(self).voices(),
            !old(self).is_cached() ==> (r matches Some(plan) && plan_matches(
                plan@,
                old(self).voices(),
            )),
            !old(self).is_cached() ==> final(self).voices().len() == old(self).voices().len(),
            !old(self).is_cached() ==> forall|i: int|
                0 <= i < old(self).voices().len() ==> #[trigger] final(self).voices()[i]
                    == voice_after_block(old(self).voices()[i]),
    {
        if self.cached {
            return None;
        }
        let ghost old_voices = self.voices@;
        let mut plan: Vec<BlockCopy<G, C>> = Vec::new();
        let mut i: usize = 0;
        while i < self.voices.len()
            invariant
                0 <= i <= self.voices.len(),
                self.voices@.len() == old_voices.len(),
                old_voices == old(self).voices@,
                old(self).wf(),
                forall|j: int| 0 <= j < i ==> #[trigger] self.voices@[j] == voice_after_block(old_voices[j]),
                forall|j: int| i <= j < self.voices@.len() ==> #[trigger] self.voices@[j] == old_voices[j],
                plan_matches(plan@, old_voices.take(i as int)),
                self.id_map == old(self).id_map,
                self.listener_position == old(self).listener_position,
                self.ids == old(self).ids,
                self.rest_position == old(self).rest_position,
                self.unit_gain == old(self).unit_gain,
            decreases self.voices.len() - i,
        {
            let ghost before = plan@;
            proof {
                assert(old_voices.take(i + 1).drop_last() =~= old_voices.take(i as int));
                assert(old_voices.take(i + 1).last() == old_voices[i as int]);
            }
            let active = self.voices[i].id.0 != 0 && self.voices[i].clip.is_some();
            if active {
                let pos = self.voices[i].playback_position;
                let clip = self.voices[i].clip.as_ref().unwrap();
                let len = clip.len;
                let data = clip.data.clone();
                let left = len - pos;
                let count = if BLOCK_SIZE < left {
                    BLOCK_SIZE
                } else {
                    left
                };
                plan.push(BlockCopy { voice: i, start: pos, count, gain: self.voices[i].gain, clip: data });
                let new_pos = pos + count;
                if new_pos == len {
                    self.voices[i].id = ActorID(0);
                    self.voices[i].playback_position = new_pos;
                    self.voices[i].clip = None;
                } else {
                    self.voices[i].playback_position = new_pos;
                }
            }
            proof {
                let t = old_voices.take(i + 1);
                assert(block_plan(t) == (if playing(old_voices[i as int]) {
                    block_plan(old_voices.take(i as int)).push(
                        (i as int, old_voices[i as int].playback_position as int, block_share(old_voices[i as int])),
                    )
                } else {
                    block_plan(old_voices.take(i as int))
                }));
                assert forall|k: int| 0 <= k < plan@.len() implies plan_entry_matches(
                    #[trigger] plan@[k],
                    block_plan(t)[k],
                    t,
                ) by {
                    if k < before.len() {
                        assert(plan@[k] == before[k]);
                        let e = block_plan(old_voices.take(i as int))[k];
                        assert(plan_entry_matches(before[k], e, old_voices.take(i as int)));
                        assert(0 <= e.0 < i) by {
                            lemma_block_plan_slots(old_voices.take(i as int));
                        }
                        assert(t[e.0] == old_voices.take(i as int)[e.0]);
                    }
                }
            }
            i = i + 1;
        }
        proof {
            assert(old_voices.take(old_voices.len() as int) =~= old_voices);
        }
        self.cached = true;
        Some(plan)
    }

    /// Marks the start of a frame: the next block is rendered anew.
    pub fn frame_start(&mut self)
        requires
            old(self).wf(),
        ensures
            final(self).wf(),
            !final(self).is_cached(),
            final(self).voices() == old(self).voices(),
            final(self).slots() == old(self).slots(),
            final(self).listener() == old(self).listener(),
            final(self).next_actor() == old(self).next_actor(),
            final(self).free_voice() == old(self).free_voice(),
    {
        self.cached = false;
    }
}

/// A voice plays at most one block at a time and never past the end of its
/// clip; once the clip has played to the end its slot is free and the
/// clip is dropped.
pub proof fn law_playback_within_clip<P, G, C>(v: Voice<P, G, C>)
    requires
        v.clip matches Some(c) ==> v.playback_position <= c.len,
    ensures
        playing(v) ==> 0 <= block_share(v) <= BLOCK_SIZE,
        playing(v) ==> voice_after_block(v).playback_position == v.playback_position + block_share(v),
        voice_after_block(v).clip matches Some(c) ==> voice_after_block(v).playback_position <= c.len,
        playing(v) && v.clip->0.len <= v.playback_position + BLOCK_SIZE ==> voice_after_block(
            v,
        ).id.spec_is_empty() && voice_after_block(v).clip is None,
        !playing(v) ==> voice_after_block(v) == v,
{
}

} // verus!
