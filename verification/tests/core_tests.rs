use yage::idmap::IdMap;
use yage::monitor::{MinMaxProfiler, MonitorSample};
use yage::events::{Event, EventKind};
use yage::logic::{quit_requested, tick_events};
use yage::objects::DispatchAction;
use yage::render::{ChangeCache, DataStreamFrame, UpdateTracker};
use yage::sync::{Arrival, RendezvousState};
use yage::threads::{priority_params, SchedPolicy, ThreadError, ThreadPriority};

#[test]
fn rendezvous_last_arrival_completes_the_round() {
    let mut r = RendezvousState::new(3);
    assert_eq!(r.arrive(), Arrival::Wait);
    assert_eq!(r.waiting_outcome(), None);
    assert_eq!(r.arrive(), Arrival::Wait);
    assert_eq!(r.arrive(), Arrival::Passed(true));
    // Woken waiters leave with success once the round is complete.
    assert_eq!(r.waiting_outcome(), Some(true));
    // The next round starts from scratch.
    assert_eq!(r.arrive(), Arrival::Wait);
}

#[test]
fn rendezvous_single_thread_never_waits() {
    let mut r = RendezvousState::new(1);
    assert_eq!(r.arrive(), Arrival::Passed(true));
    assert_eq!(r.arrive(), Arrival::Passed(true));
    assert_eq!(r.max_val(), 1);
}

#[test]
fn rendezvous_unlock_breaks_it_for_good() {
    let mut r = RendezvousState::new(2);
    assert_eq!(r.arrive(), Arrival::Wait);
    r.unlock();
    assert_eq!(r.waiting_outcome(), Some(false));
    assert_eq!(r.arrive(), Arrival::Passed(false));
    assert_eq!(r.arrive(), Arrival::Passed(false));
}

#[test]
fn min_max_profiler_tracks_extremes_and_average() {
    let mut p = MinMaxProfiler::new();
    let s = p.stat();
    assert_eq!((s.min(), s.average(), s.max()), (u64::MAX, 0, 0));
    p.update(10);
    p.update(30);
    p.update(20);
    let s = p.stat();
    assert_eq!(s.min(), 10);
    assert_eq!(s.max(), 30);
    // ((0 + 10) / 2 + 30) / 2 = 17, then (17 + 20) / 2 = 18
    assert_eq!(s.average(), 18);
    p.reset();
    let s = p.stat();
    assert_eq!((s.min(), s.average(), s.max()), (u64::MAX, 0, 0));
}

#[test]
fn min_max_profiler_default_is_fresh() {
    let p = MinMaxProfiler::default();
    let s = p.stat();
    assert_eq!((s.min(), s.average(), s.max()), (u64::MAX, 0, 0));
}

#[test]
fn monitor_sample_hands_back_its_values() {
    let s = MonitorSample::new(1.5f32, 2.5f32, 3.5f32);
    assert_eq!(s.min(), 1.5);
    assert_eq!(s.average(), 2.5);
    assert_eq!(s.max(), 3.5);
}

#[test]
fn priority_parameters_per_priority() {
    let low = priority_params(ThreadPriority::Low);
    assert_eq!((low.policy, low.sched_priority, low.nice), (SchedPolicy::Other, 0, 10));
    let normal = priority_params(ThreadPriority::Normal);
    assert_eq!((normal.policy, normal.sched_priority, normal.nice), (SchedPolicy::Other, 0, 0));
    let high = priority_params(ThreadPriority::High);
    assert_eq!((high.policy, high.sched_priority, high.nice), (SchedPolicy::RoundRobin, 10, -5));
    let rt = priority_params(ThreadPriority::Realtime);
    assert_eq!((rt.policy, rt.sched_priority, rt.nice), (SchedPolicy::Fifo, 15, -10));
}

#[test]
fn higher_priority_is_never_nicer() {
    let order = [ThreadPriority::Low, ThreadPriority::Normal, ThreadPriority::High, ThreadPriority::Realtime];
    for w in order.windows(2) {
        let a = priority_params(w[0]);
        let b = priority_params(w[1]);
        assert!(b.nice <= a.nice);
        assert!(a.sched_priority <= b.sched_priority);
    }
}

#[test]
fn thread_errors_compare_by_message() {
    assert_eq!(ThreadError::JoinError("x".to_string()), ThreadError::JoinError("x".to_string()));
    assert_ne!(ThreadError::JoinError("x".to_string()), ThreadError::SpawnError("x".to_string()));
}

#[test]
fn clearing_a_frame_keeps_the_epoch() {
    let mut f: DataStreamFrame<u8, u16, u32, u64, i8> = DataStreamFrame {
        epoch: 7,
        renderables: vec![1, 2],
        point_lights: vec![3],
        spot_lights: vec![4],
        area_lights: vec![5],
        sun_lights: vec![6],
    };
    f.clear();
    assert_eq!(f.epoch, 7);
    assert!(f.renderables.is_empty());
    assert!(f.point_lights.is_empty());
    assert!(f.spot_lights.is_empty());
    assert!(f.area_lights.is_empty());
    assert!(f.sun_lights.is_empty());
}

#[test]
fn id_map_insert_replaces_and_keeps_order() {
    let mut m: IdMap<u32> = IdMap::new();
    m.insert("b".to_string(), 1);
    m.insert("a".to_string(), 2);
    m.insert("b".to_string(), 3);
    assert_eq!(m.len(), 2);
    assert_eq!(m.get(&"b".to_string()), Some(&3));
    assert_eq!(m.get(&"a".to_string()), Some(&2));
    assert_eq!(m.get(&"c".to_string()), None);
    assert_eq!(m.keys(), vec!["b".to_string(), "a".to_string()]);
    if let Some(v) = m.get_mut(&"b".to_string()) {
        *v = 11;
    }
    assert_eq!(m.get(&"b".to_string()), Some(&11));
}

#[test]
fn change_cache_reports_new_and_changed_items() {
    let mut c: ChangeCache<u32> = ChangeCache::new();
    assert!(c.is_updated(1, &10));
    assert!(!c.is_updated(1, &10));
    assert!(c.is_updated(1, &11));
    assert!(c.is_updated(2, &11));
    c.clear();
    assert!(c.is_updated(1, &11));
    let mut t: UpdateTracker<u8, u16, u32, u64, i32> = UpdateTracker::new();
    assert!(t.renderables_cache.is_updated(5, &1));
    assert!(!t.renderables_cache.is_updated(5, &1));
    t.clear();
    assert!(t.renderables_cache.is_updated(5, &1));
}

#[test]
fn tick_events_order() {
    let polled: Vec<Event<f32>> = vec![Event::CharInput('a')];
    let first = tick_events(polled, true, 16.0);
    let kinds: Vec<EventKind> = first.iter().map(|e| e.event_kind()).collect();
    assert_eq!(kinds, vec![EventKind::CharInput, EventKind::Create, EventKind::Update]);
    let later = tick_events(Vec::<Event<f32>>::new(), false, 8.0);
    assert_eq!(later.len(), 1);
    assert!(matches!(later[0], Event::Update(d) if d == 8.0));
}

#[test]
fn quit_is_found_among_actions() {
    let calm: Vec<DispatchAction<u8, u8>> = vec![DispatchAction::Empty, DispatchAction::Die];
    assert!(!quit_requested(&calm));
    let quitting: Vec<DispatchAction<u8, u8>> = vec![DispatchAction::Empty, DispatchAction::QuitApplication];
    assert!(quit_requested(&quitting));
    assert!(!quit_requested(&Vec::<DispatchAction<u8, u8>>::new()));
}

#[test]
fn rendezvous_rounds_repeat_and_single_never_waits() {
    let mut r = RendezvousState::new(2);
    for _ in 0..3 {
        assert_eq!(r.arrive(), Arrival::Wait);
        assert_eq!(r.arrive(), Arrival::Passed(true));
    }
    let mut one = RendezvousState::new(1);
    for _ in 0..3 {
        assert_eq!(one.arrive(), Arrival::Passed(true));
    }
    let mut zero = RendezvousState::new(0);
    assert_eq!(zero.arrive(), Arrival::Passed(true));
}

#[test]
fn identifier_sources_count_up_from_their_start() {
    let mut actors = yage::audio::actors::ActorIdSource::new();
    let a = actors.next_id();
    let b = actors.next_id();
    assert_eq!((a.value(), b.value()), (1, 2));
    let mut queries = yage::assets::factory::AssetQueryIdSource::new();
    assert_eq!(queries.next_id().value(), 0);
    assert_eq!(queries.next_id().value(), 1);
}
