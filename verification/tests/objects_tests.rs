use yage::events::{Event, EventKind, EventMask, KeyCode, MouseButton, EVENT_KINDS};
use yage::objects::{DispatchAction, GameObject, ObjectsCollection};

/// What a test object answers to an update.
#[derive(Clone)]
enum Behavior {
    Nothing,
    Die,
    Spawn(usize),
    Kill(usize),
    Quit,
    Render(u32),
    Unrender,
}

struct Probe {
    key: usize,
    mask: EventMask,
    on_update: Behavior,
    on_create: Behavior,
    seen: Vec<EventKind>,
}

impl Probe {
    fn new(key: usize, mask: EventMask, on_update: Behavior) -> Probe {
        Probe { key, mask, on_update, on_create: Behavior::Nothing, seen: Vec::new() }
    }
}

fn act(b: &Behavior) -> DispatchAction<Probe, u32> {
    match b {
        Behavior::Nothing => DispatchAction::Empty,
        Behavior::Die => DispatchAction::Die,
        Behavior::Spawn(key) => DispatchAction::SpawnObject(Probe::new(
            *key,
            EventMask::of(EventKind::Create).union(EventMask::of(EventKind::Update)),
            Behavior::Nothing,
        )),
        Behavior::Kill(key) => DispatchAction::KillObject(*key),
        Behavior::Quit => DispatchAction::QuitApplication,
        Behavior::Render(r) => DispatchAction::UpdateRenderable(*r),
        Behavior::Unrender => DispatchAction::DeleteRenderable,
    }
}

impl GameObject for Probe {
    type Ctx = ();
    type Scalar = f32;
    type Renderable = u32;

    fn identity(&self) -> usize {
        self.key
    }

    fn event_mask(&self) -> EventMask {
        self.mask
    }

    fn dispatch(&mut self, _ctx: &(), event: &Event<f32>) -> DispatchAction<Probe, u32> {
        self.seen.push(event.event_kind());
        match event {
            Event::Update(_) => act(&self.on_update),
            Event::Create => act(&self.on_create),
            _ => DispatchAction::Empty,
        }
    }
}

fn update_mask() -> EventMask {
    EventMask::of(EventKind::Update)
}

fn keys(c: &ObjectsCollection<Probe>) -> Vec<usize> {
    c.alive_objects().iter().map(|o| o.key).collect()
}

fn ids(c: &ObjectsCollection<Probe>) -> Vec<usize> {
    c.alive_objects().iter().map(|o| o.id).collect()
}

#[test]
fn event_mask_union_and_contains() {
    let m = EventMask::of(EventKind::KeyPress).union(EventMask::of(EventKind::MouseMove));
    assert!(m.contains(EventKind::KeyPress));
    assert!(m.contains(EventKind::MouseMove));
    assert!(!m.contains(EventKind::Update));
    assert!(!EventMask::empty().contains(EventKind::Create));
}

#[test]
fn event_kinds_index_round_trip() {
    for i in 0..EVENT_KINDS {
        assert_eq!(EventKind::from_index(i).index(), i);
    }
    assert_eq!(EVENT_KINDS, 9);
}

#[test]
fn event_kind_of_each_event() {
    let e: Event<f32> = Event::MouseButtonPress(MouseButton::Left);
    assert_eq!(e.event_kind(), EventKind::MouseButtonPress);
    let e: Event<f32> = Event::KeyRelease(KeyCode::Digit(3));
    assert_eq!(e.event_kind(), EventKind::KeyRelease);
    let e: Event<f32> = Event::MouseScroll { delta_x: 1.0, delta_y: -1.0 };
    assert_eq!(e.event_kind(), EventKind::MouseScroll);
    assert!(e.kind().contains(EventKind::MouseScroll));
    assert!(!e.kind().contains(EventKind::MouseMove));
}

#[test]
fn new_collection_numbers_objects_in_order() {
    let c = ObjectsCollection::new(vec![
        Probe::new(10, update_mask(), Behavior::Nothing),
        Probe::new(20, update_mask(), Behavior::Nothing),
        Probe::new(30, update_mask(), Behavior::Nothing),
    ]);
    assert_eq!(ids(&c), vec![0, 1, 2]);
    assert_eq!(keys(&c), vec![10, 20, 30]);
}

#[test]
fn add_object_takes_next_number() {
    let mut c = ObjectsCollection::new(vec![Probe::new(1, update_mask(), Behavior::Nothing)]);
    let id = c.add_object(Probe::new(2, update_mask(), Behavior::Nothing));
    assert_eq!(id, 1);
    let id = c.add_object(Probe::new(3, update_mask(), Behavior::Nothing));
    assert_eq!(id, 2);
    assert_eq!(ids(&c), vec![0, 1, 2]);
}

#[test]
fn remove_object_by_key_removes_every_match() {
    let mut c = ObjectsCollection::new(vec![
        Probe::new(7, update_mask(), Behavior::Nothing),
        Probe::new(8, update_mask(), Behavior::Nothing),
        Probe::new(7, update_mask(), Behavior::Nothing),
    ]);
    c.remove_object(7);
    assert_eq!(keys(&c), vec![8]);
    assert_eq!(ids(&c), vec![1]);
    c.remove_object(99);
    assert_eq!(keys(&c), vec![8]);
}

#[test]
fn dispatch_reaches_only_subscribers_in_order() {
    let mut c = ObjectsCollection::new(vec![
        Probe::new(1, update_mask(), Behavior::Nothing),
        Probe::new(2, EventMask::of(EventKind::KeyPress), Behavior::Nothing),
        Probe::new(3, update_mask(), Behavior::Nothing),
    ]);
    let r = c.dispatch_event(&(), &Event::Update(16.0));
    assert_eq!(r.len(), 1);
    assert!(matches!(r[0], DispatchAction::Empty));
    let seen: Vec<usize> = c.alive_objects().iter().map(|o| o.object.seen.len()).collect();
    assert_eq!(seen, vec![1, 0, 1]);
}

#[test]
fn dying_object_is_removed() {
    let mut c = ObjectsCollection::new(vec![
        Probe::new(1, update_mask(), Behavior::Die),
        Probe::new(2, update_mask(), Behavior::Nothing),
    ]);
    c.dispatch_event(&(), &Event::Update(1.0));
    assert_eq!(keys(&c), vec![2]);
}

#[test]
fn kill_removes_target_by_key() {
    let mut c = ObjectsCollection::new(vec![
        Probe::new(1, update_mask(), Behavior::Kill(3)),
        Probe::new(2, update_mask(), Behavior::Nothing),
        Probe::new(3, EventMask::empty(), Behavior::Nothing),
    ]);
    c.dispatch_event(&(), &Event::Update(1.0));
    assert_eq!(keys(&c), vec![1, 2]);
}

#[test]
fn spawned_object_gets_create_event_only_itself() {
    let mut c = ObjectsCollection::new(vec![
        Probe::new(1, update_mask().union(EventMask::of(EventKind::Create)), Behavior::Spawn(5)),
    ]);
    let r = c.dispatch_event(&(), &Event::Update(1.0));
    // One round for the update, one for the creation of the new object.
    assert_eq!(r.len(), 2);
    assert_eq!(keys(&c), vec![1, 5]);
    assert_eq!(ids(&c), vec![0, 1]);
    let first = &c.alive_objects()[0].object;
    assert_eq!(first.seen, vec![EventKind::Update]);
    let spawned = &c.alive_objects()[1].object;
    assert_eq!(spawned.seen, vec![EventKind::Create]);
}

#[test]
fn quit_stops_the_round_and_is_reported() {
    let mut c = ObjectsCollection::new(vec![
        Probe::new(1, update_mask(), Behavior::Quit),
        Probe::new(2, update_mask(), Behavior::Nothing),
    ]);
    let r = c.dispatch_event(&(), &Event::Update(1.0));
    assert_eq!(r.len(), 1);
    assert!(matches!(r[0], DispatchAction::QuitApplication));
    let seen: Vec<usize> = c.alive_objects().iter().map(|o| o.object.seen.len()).collect();
    assert_eq!(seen, vec![1, 0]);
}

#[test]
fn renderables_are_published_once() {
    let mut c = ObjectsCollection::new(vec![Probe::new(1, update_mask(), Behavior::Render(42))]);
    assert!(c.updated_renderables().is_none());
    c.dispatch_event(&(), &Event::Update(1.0));
    let published = c.updated_renderables().expect("renderables changed");
    assert_eq!(published.get(&0), Some(&42));
    assert!(c.updated_renderables().is_none());
}

#[test]
fn deleting_a_renderable_publishes_the_change() {
    let mut c = ObjectsCollection::new(vec![Probe::new(1, update_mask(), Behavior::Render(7))]);
    c.dispatch_event(&(), &Event::Update(1.0));
    assert!(c.updated_renderables().is_some());
    c.alive_objects();
    let mut c2 = ObjectsCollection::new(vec![Probe::new(1, update_mask(), Behavior::Unrender)]);
    c2.dispatch_event(&(), &Event::Update(1.0));
    let published = c2.updated_renderables().expect("deletion is a change");
    assert!(published.is_empty());
}

#[test]
fn applying_actions_records_removals_additions_and_renderables() {
    let mut c = ObjectsCollection::new(vec![Probe::new(1, update_mask(), Behavior::Nothing)]);
    let mut dead: Vec<usize> = Vec::new();
    let mut new: Vec<Probe> = Vec::new();
    assert!(!c.apply_dispatch_action(0, 1, DispatchAction::Die, &mut dead, &mut new));
    assert!(!c.apply_dispatch_action(0, 1, DispatchAction::KillObjects(vec![4, 5]), &mut dead, &mut new));
    assert_eq!(dead, vec![1, 4, 5]);
    assert!(!c.apply_dispatch_action(
        0,
        1,
        DispatchAction::SpawnObject(Probe::new(9, update_mask(), Behavior::Nothing)),
        &mut dead,
        &mut new
    ));
    assert_eq!(new.len(), 1);
    assert_eq!(new[0].key, 9);
    assert!(!c.apply_dispatch_action(0, 1, DispatchAction::UpdateRenderable(3), &mut dead, &mut new));
    assert_eq!(c.updated_renderables().expect("changed").get(&0), Some(&3));
    assert!(c.apply_dispatch_action(0, 1, DispatchAction::QuitApplication, &mut dead, &mut new));
    assert_eq!(dead, vec![1, 4, 5]);
    assert_eq!(keys(&c), vec![1]);
}

#[test]
fn whitelisted_dispatch_reaches_only_listed_subscribers() {
    let mut c = ObjectsCollection::new(vec![
        Probe::new(1, update_mask(), Behavior::Die),
        Probe::new(2, update_mask(), Behavior::Spawn(8)),
        Probe::new(3, update_mask(), Behavior::Nothing),
    ]);
    let mut dead: Vec<usize> = Vec::new();
    let mut new: Vec<Probe> = Vec::new();
    let r = c.dispatch_event_inner(&(), &Event::Update(1.0), Some(&[1, 2]), &mut dead, &mut new);
    assert!(matches!(r, DispatchAction::Empty));
    let seen: Vec<usize> = c.alive_objects().iter().map(|o| o.object.seen.len()).collect();
    assert_eq!(seen, vec![0, 1, 1]);
    assert!(dead.is_empty());
    assert_eq!(new.len(), 1);
    assert_eq!(new[0].key, 8);
}

#[test]
fn spawned_objects_get_fresh_increasing_numbers_each_round() {
    let mut c = ObjectsCollection::new(vec![
        Probe::new(1, update_mask(), Behavior::Spawn(5)),
        Probe::new(2, update_mask(), Behavior::Spawn(6)),
    ]);
    let r = c.dispatch_event(&(), &Event::Update(1.0));
    assert_eq!(r.len(), 2);
    assert_eq!(ids(&c), vec![0, 1, 2, 3]);
    assert_eq!(keys(&c), vec![1, 2, 5, 6]);
}
