use std::cell::Cell;
use yage::resources::factory::{QueryID, QueryIdSource};
use yage::resources::manager::{
    ResourceData, ResourceFactory, ResourceManager, ResourceManagerConfig, ResourceManagerGetError,
    ResourceManagerIO, ResourceManagerPollError,
};
use yage::resources::registry::{QueriesRegistry, ResourceState, ResourcesRegistry};
use yage::resources::resource::ResourceID;
use yage::resources::{ResourceChecksum, ResourceHeader, ResourceType};

fn header(name: &str, t: ResourceType, tag: &str) -> ResourceHeader {
    ResourceHeader {
        name: name.to_string(),
        tags: vec![tag.to_string()],
        resource_type: t,
        checksum: ResourceChecksum::default(),
    }
}

struct Backend {
    updates: bool,
    listing: Result<Vec<(String, ResourceHeader)>, String>,
    loads: Cell<usize>,
    load_fails: bool,
}

impl ResourceManagerIO for Backend {
    fn has_updates(&self) -> bool {
        self.updates
    }

    fn enumerate_resources(&mut self) -> Result<Vec<(String, ResourceHeader)>, String> {
        self.listing.clone()
    }

    fn load(&mut self, id: String) -> Result<Vec<u8>, String> {
        self.loads.set(self.loads.get() + 1);
        if self.load_fails {
            Err(format!("cannot read {}", id))
        } else {
            Ok(id.into_bytes())
        }
    }
}

/// Parses a resource into its byte count; refuses empty data.
struct LenFactory;

impl ResourceFactory for LenFactory {
    type Resource = usize;

    fn parse(&self, _header: &ResourceHeader, raw: &[u8]) -> Result<usize, String> {
        if raw.is_empty() {
            Err("empty".to_string())
        } else {
            Ok(raw.len())
        }
    }

    fn finalize(&self, _header: &ResourceHeader, _resource: &usize) -> Result<(), String> {
        Ok(())
    }
}

fn manager(listing: Vec<(String, ResourceHeader)>) -> ResourceManager<Backend, LenFactory> {
    ResourceManager::new(ResourceManagerConfig {
        backend: Backend { updates: true, listing: Ok(listing), loads: Cell::new(0), load_fails: false },
    })
}

#[test]
fn resource_checksum_pads_and_compares() {
    let a = ResourceChecksum::from_bytes(&[9, 8]);
    let b = ResourceChecksum::from_bytes(&[9, 8, 0, 0]);
    assert!(a.same(&b));
    assert!(!a.same(&ResourceChecksum::default()));
    assert!(ResourceChecksum::from_bytes(&[]).same(&ResourceChecksum::default()));
}

#[test]
fn resource_headers_compare_field_by_field() {
    let a = header("x", ResourceType::AudioWAV, "t");
    assert!(a.same(&a.clone()));
    assert!(!a.same(&header("x", ResourceType::AudioWAV, "u")));
    assert!(!a.same(&header("y", ResourceType::AudioWAV, "t")));
    assert!(!a.same(&header("x", ResourceType::AudioOGG, "t")));
    let d = ResourceHeader::default();
    assert_eq!(d.resource_type, ResourceType::Unknown);
    assert!(d.name.is_empty());
}

#[test]
fn poll_adds_new_resources_unloaded() {
    let mut m = manager(vec![
        ("a".to_string(), header("a", ResourceType::AudioWAV, "t")),
        ("b".to_string(), header("b", ResourceType::ImagePNG, "t")),
    ]);
    assert_eq!(m.poll_io(), Ok(true));
    // Same listing again: nothing changes.
    assert_eq!(m.poll_io(), Ok(false));
}

#[test]
fn poll_without_updates_changes_nothing() {
    let mut m: ResourceManager<Backend, LenFactory> = ResourceManager::new(ResourceManagerConfig {
        backend: Backend { updates: false, listing: Ok(vec![]), loads: Cell::new(0), load_fails: false },
    });
    assert_eq!(m.poll_io(), Ok(false));
}

#[test]
fn poll_reports_enumeration_failure() {
    let mut m: ResourceManager<Backend, LenFactory> = ResourceManager::new(ResourceManagerConfig {
        backend: Backend { updates: true, listing: Err("offline".to_string()), loads: Cell::new(0), load_fails: false },
    });
    assert_eq!(m.poll_io(), Err(ResourceManagerPollError::EnumerateFailed("offline".to_string())));
}

#[test]
fn changed_header_marks_resource_stale() {
    let mut m = manager(vec![("a".to_string(), header("a", ResourceType::AudioWAV, "t"))]);
    m.register_factory(ResourceType::AudioWAV, LenFactory);
    assert_eq!(m.poll_io(), Ok(true));
    assert_eq!(m.get_resource(&"a".to_string()), Ok(1));
    let changed = m.merge_resources(vec![("a".to_string(), header("a", ResourceType::AudioWAV, "new"))]);
    assert!(changed);
    let same = m.merge_resources(vec![("a".to_string(), header("a", ResourceType::AudioWAV, "new"))]);
    assert!(!same);
}

#[test]
fn get_resource_parses_once() {
    let mut m = manager(vec![("clip".to_string(), header("clip", ResourceType::AudioWAV, "t"))]);
    m.register_factory(ResourceType::AudioWAV, LenFactory);
    m.poll_io().expect("poll");
    assert_eq!(m.get_resource(&"clip".to_string()), Ok(4));
    assert_eq!(m.get_resource(&"clip".to_string()), Ok(4));
}

#[test]
fn get_resource_errors() {
    let mut m = manager(vec![
        ("clip".to_string(), header("clip", ResourceType::AudioWAV, "t")),
        ("pic".to_string(), header("pic", ResourceType::ImagePNG, "t")),
    ]);
    m.register_factory(ResourceType::AudioWAV, LenFactory);
    m.poll_io().expect("poll");
    assert_eq!(m.get_resource(&"none".to_string()), Err(ResourceManagerGetError::ResourceNotFound));
    assert_eq!(m.get_resource(&"pic".to_string()), Err(ResourceManagerGetError::NoSuitableFactory));

    let mut failing: ResourceManager<Backend, LenFactory> = ResourceManager::new(ResourceManagerConfig {
        backend: Backend {
            updates: true,
            listing: Ok(vec![("clip".to_string(), header("clip", ResourceType::AudioWAV, "t"))]),
            loads: Cell::new(0),
            load_fails: true,
        },
    });
    failing.register_factory(ResourceType::AudioWAV, LenFactory);
    failing.poll_io().expect("poll");
    assert_eq!(failing.get_resource(&"clip".to_string()), Err(ResourceManagerGetError::NoRawDataLoaded));
}

#[test]
fn parser_failure_is_reported() {
    // A resource with an empty name loads empty bytes, which the factory refuses.
    let mut m = manager(vec![("e".to_string(), header("", ResourceType::AudioWAV, "t"))]);
    m.register_factory(ResourceType::AudioWAV, LenFactory);
    m.poll_io().expect("poll");
    assert_eq!(
        m.get_resource(&"".to_string()),
        Err(ResourceManagerGetError::ParserFailed("empty".to_string()))
    );
}

#[test]
fn finalize_all_unloads_parsed_resources_of_the_type() {
    let mut m = manager(vec![("clip".to_string(), header("clip", ResourceType::AudioWAV, "t"))]);
    m.register_factory(ResourceType::AudioWAV, LenFactory);
    m.poll_io().expect("poll");
    assert_eq!(m.get_resource(&"clip".to_string()), Ok(4));
    m.finalize_all(ResourceType::ImagePNG);
    m.finalize_all(ResourceType::AudioWAV);
    // Unloaded again: the next access parses anew (and succeeds).
    assert_eq!(m.get_resource(&"clip".to_string()), Ok(4));
}

#[test]
fn resource_data_starts_unloaded() {
    let d: ResourceData<u8> = ResourceData::Unloaded;
    assert!(matches!(d, ResourceData::Unloaded));
}

#[test]
fn resources_registry_push_and_states() {
    let mut reg = ResourcesRegistry::new();
    reg.push(ResourceID::new("a".to_string()), vec![1, 2], header("a", ResourceType::AudioWAV, "t"));
    assert!(matches!(reg.get(&ResourceID::new("a".to_string())).map(|i| &i.state), Some(ResourceState::Raw(_))));
    assert!(!reg.all_loaded());
    if let Some(item) = reg.get_mut(&ResourceID::new("a".to_string())) {
        item.state = ResourceState::Loaded(0x10);
    }
    assert!(reg.all_loaded());
    if let Some(item) = reg.get_mut(&ResourceID::new("a".to_string())) {
        item.state = ResourceState::Freed;
    }
    assert!(reg.all_freed());
    let keys: Vec<String> = reg.keys().iter().map(|k| k.as_string().clone()).collect();
    assert_eq!(keys, vec!["a".to_string()]);
}

#[test]
fn resource_queries_registry() {
    let mut q = QueriesRegistry::new();
    let mut ids = QueryIdSource::new();
    let a = ids.next_id();
    let b = ids.next_id();
    assert_eq!((a.value(), b.value()), (0, 1));
    q.add_query(a);
    q.add_query(b);
    q.add_query(a);
    q.remove_query(&a);
    assert!(!q.contains(a));
    assert!(q.contains(b));
    assert_eq!(QueryID::new(3).value(), 3);
}

/// Counts its parses; its releases fail when told to.
struct CountingFactory {
    parses: std::rc::Rc<Cell<usize>>,
    release_fails: bool,
}

impl ResourceFactory for CountingFactory {
    type Resource = usize;

    fn parse(&self, _header: &ResourceHeader, raw: &[u8]) -> Result<usize, String> {
        self.parses.set(self.parses.get() + 1);
        Ok(raw.len())
    }

    fn finalize(&self, _header: &ResourceHeader, _resource: &usize) -> Result<(), String> {
        if self.release_fails {
            Err("busy".to_string())
        } else {
            Ok(())
        }
    }
}

fn counting_manager(release_fails: bool, parses: std::rc::Rc<Cell<usize>>) -> ResourceManager<Backend, CountingFactory> {
    let mut m = ResourceManager::new(ResourceManagerConfig {
        backend: Backend {
            updates: true,
            listing: Ok(vec![("clip".to_string(), header("clip", ResourceType::AudioWAV, "t"))]),
            loads: Cell::new(0),
            load_fails: false,
        },
    });
    m.register_factory(ResourceType::AudioWAV, CountingFactory { parses, release_fails });
    m.poll_io().expect("poll");
    m
}

#[test]
fn finalize_all_releases_and_reparses_on_next_access() {
    let parses = std::rc::Rc::new(Cell::new(0));
    let mut m = counting_manager(false, parses.clone());
    assert_eq!(m.get_resource(&"clip".to_string()), Ok(4));
    assert_eq!(parses.get(), 1);
    m.finalize_all(ResourceType::AudioWAV);
    assert_eq!(m.get_resource(&"clip".to_string()), Ok(4));
    assert_eq!(parses.get(), 2);
}

#[test]
fn finalize_all_keeps_resource_whose_release_fails() {
    let parses = std::rc::Rc::new(Cell::new(0));
    let mut m = counting_manager(true, parses.clone());
    assert_eq!(m.get_resource(&"clip".to_string()), Ok(4));
    m.finalize_all(ResourceType::AudioWAV);
    assert_eq!(m.get_resource(&"clip".to_string()), Ok(4));
    assert_eq!(parses.get(), 1);
}
