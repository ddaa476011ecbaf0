use std::sync::atomic::Ordering;
use yage::assets::factory::{
    factory_answer, AssetHandle, AssetQueryID, AssetQueryIdSource, FactoryOutcome, InMessage, OutMessage,
};
use yage::assets::hub::{AssetHub, AssetHubEvent, AssetReader, GetAssetError, QueryAssetError};
use yage::assets::metadata::{AssetChecksum, AssetHeader, ShaderType, TypeSpecificMetadata};
use yage::assets::registry::{AssetRegistry, AssetState, QueriesRegistry};
use yage::assets::{AssetID, AssetType};

fn header(name: &str, t: AssetType) -> AssetHeader {
    AssetHeader { name: name.to_string(), tags: vec![], asset_type: t, checksum: AssetChecksum::default() }
}

struct Reader {
    items: Vec<(String, AssetType, Vec<u8>)>,
    fail_load: bool,
}

impl AssetReader for Reader {
    fn enumerate(&mut self) -> Result<Vec<(AssetID, AssetHeader)>, String> {
        Ok(self
            .items
            .iter()
            .map(|(n, t, _)| (AssetID::new(n.clone()), header(n, *t)))
            .collect())
    }

    fn load(&mut self, id: &AssetID) -> Result<Vec<u8>, String> {
        if self.fail_load {
            return Err("disk error".to_string());
        }
        for (n, _, raw) in &self.items {
            if n == id.as_string() {
                return Ok(raw.clone());
            }
        }
        Err("missing".to_string())
    }
}

fn hub_with(items: Vec<(&str, AssetType)>) -> AssetHub {
    let reader = Reader {
        items: items.into_iter().map(|(n, t)| (n.to_string(), t, vec![1, 2, 3])).collect(),
        fail_load: false,
    };
    match AssetHub::new(reader) {
        Ok(h) => h,
        Err(e) => panic!("hub: {}", e),
    }
}

fn handle() -> AssetHandle {
    AssetHandle { type_id: std::any::TypeId::of::<u32>(), address: 0x1000 }
}

#[test]
fn checksum_pads_and_truncates() {
    let c = AssetChecksum::from_bytes(&[1, 2, 3]);
    let mut expected = [0u8; 16];
    expected[..3].copy_from_slice(&[1, 2, 3]);
    assert_eq!(c.bytes(), expected);
    let long: Vec<u8> = (0..20).collect();
    let c = AssetChecksum::from_bytes(&long);
    let expected: Vec<u8> = (0..16).collect();
    assert_eq!(c.bytes().to_vec(), expected);
    assert_eq!(AssetChecksum::default().bytes(), [0u8; 16]);
}

#[test]
fn default_metadata_per_type() {
    match TypeSpecificMetadata::default_for(AssetType::ShaderSPIRV) {
        TypeSpecificMetadata::Shader(m) => {
            assert_eq!(m.shader_type, ShaderType::Fragment);
            assert!(m.compile_options().is_empty());
        }
        _ => panic!("shader metadata expected"),
    }
    assert!(matches!(TypeSpecificMetadata::default_for(AssetType::AudioWAV), TypeSpecificMetadata::Audio(_)));
    assert!(matches!(TypeSpecificMetadata::default_for(AssetType::ImagePNG), TypeSpecificMetadata::Image(_)));
    assert!(matches!(TypeSpecificMetadata::default_for(AssetType::FontOTF), TypeSpecificMetadata::Font(_)));
    assert!(matches!(TypeSpecificMetadata::default_for(AssetType::ModelGLTF), TypeSpecificMetadata::Model(_)));
    assert!(matches!(TypeSpecificMetadata::default_for(AssetType::AudioMIDI), TypeSpecificMetadata::Unknown));
    assert!(matches!(TypeSpecificMetadata::default_for(AssetType::Unknown), TypeSpecificMetadata::Unknown));
}

#[test]
fn metadata_suits_its_own_family_only() {
    let audio = TypeSpecificMetadata::default_for(AssetType::AudioOGG);
    assert!(audio.suitable_for(AssetType::AudioFLAC));
    assert!(!audio.suitable_for(AssetType::AudioMIDI));
    assert!(!audio.suitable_for(AssetType::ImageBMP));
    let shader = TypeSpecificMetadata::default_for(AssetType::ShaderGLSL);
    assert!(shader.suitable_for(AssetType::ShaderHLSL));
    assert!(!shader.suitable_for(AssetType::ModelOBJ));
    assert!(!TypeSpecificMetadata::Unknown.suitable_for(AssetType::Unknown));
}

#[test]
fn query_ids_count_up() {
    let mut src = AssetQueryIdSource::new();
    assert_eq!(src.next_id().value(), 0);
    assert_eq!(src.next_id().value(), 1);
    assert_eq!(AssetQueryID::new(5).value(), 5);
}

#[test]
fn registry_tracks_states() {
    let mut reg = AssetRegistry::new();
    reg.push(AssetID::new("a".to_string()), header("a", AssetType::AudioWAV), TypeSpecificMetadata::Unknown, vec![1]);
    reg.push(AssetID::new("b".to_string()), header("b", AssetType::AudioWAV), TypeSpecificMetadata::Unknown, vec![2]);
    let keys: Vec<String> = reg.keys().iter().map(|k| k.as_string().clone()).collect();
    assert_eq!(keys, vec!["a".to_string(), "b".to_string()]);
    assert!(!reg.all_loaded());
    assert!(!reg.all_freed());
    for k in ["a", "b"] {
        if let Some(c) = reg.get_mut(&AssetID::new(k.to_string())) {
            c.state = AssetState::Loaded(handle());
        }
    }
    assert!(reg.all_loaded());
    assert!(reg.get(&AssetID::new("zz".to_string())).is_none());
    assert!(AssetRegistry::new().all_loaded());
    assert!(AssetRegistry::new().all_freed());
}

#[test]
fn queries_are_recorded_once_and_removed() {
    let mut q = QueriesRegistry::new();
    q.add_query(AssetQueryID::new(1));
    q.add_query(AssetQueryID::new(1));
    q.add_query(AssetQueryID::new(2));
    assert!(q.contains(AssetQueryID::new(1)));
    q.remove_query(&AssetQueryID::new(1));
    assert!(!q.contains(AssetQueryID::new(1)));
    assert!(q.contains(AssetQueryID::new(2)));
    q.remove_query(&AssetQueryID::new(7));
    assert!(q.contains(AssetQueryID::new(2)));
}

#[test]
fn hub_new_fails_with_reader_error() {
    let reader = Reader { items: vec![("x".to_string(), AssetType::AudioWAV, vec![])], fail_load: true };
    match AssetHub::new(reader) {
        Err(e) => assert_eq!(e, "disk error"),
        Ok(_) => panic!("expected the reader's error"),
    }
}

#[test]
fn load_query_reaches_the_factory() {
    let mut hub = hub_with(vec![("song", AssetType::AudioWAV)]);
    let binding = hub.create_factory_biding(AssetType::AudioWAV);
    assert!(hub.has_factory(AssetType::AudioWAV));
    assert_eq!(binding.asset_type(), AssetType::AudioWAV);
    let qid = hub.query_load(AssetID::new("song".to_string())).expect("load query");
    match binding.in_queue().pop() {
        Some(InMessage::Load(q, id, h, raw)) => {
            assert_eq!(q, qid);
            assert_eq!(id.as_string(), "song");
            assert_eq!(h.name, "song");
            assert_eq!(raw, vec![1, 2, 3]);
        }
        _ => panic!("load message expected"),
    }
}

#[test]
fn load_query_errors() {
    let mut hub = hub_with(vec![("song", AssetType::AudioWAV), ("pic", AssetType::ImagePNG)]);
    hub.create_factory_biding(AssetType::AudioWAV);
    assert!(matches!(
        hub.query_load(AssetID::new("nope".to_string())),
        Err(QueryAssetError::AssetNotFound(_))
    ));
    assert!(matches!(
        hub.query_load(AssetID::new("pic".to_string())),
        Err(QueryAssetError::FactoryNotFound(AssetType::ImagePNG))
    ));
    assert!(matches!(
        hub.query_free(AssetID::new("song".to_string())),
        Err(QueryAssetError::AlreadyFreed(_))
    ));
}

#[test]
fn loaded_answer_makes_asset_available() {
    let mut hub = hub_with(vec![("song", AssetType::AudioWAV), ("jingle", AssetType::AudioWAV)]);
    hub.create_factory_biding(AssetType::AudioWAV);
    assert!(matches!(hub.get(AssetID::new("song".to_string())), Err(GetAssetError::NotLoaded(_))));
    assert!(matches!(hub.get(AssetID::new("zzz".to_string())), Err(GetAssetError::NotFound(_))));
    let qid = hub.query_load(AssetID::new("song".to_string())).expect("load query");
    let events = hub.process_out_message(OutMessage::Loaded(qid, AssetID::new("song".to_string()), handle()));
    assert_eq!(events.len(), 2);
    assert!(matches!(&events[0], AssetHubEvent::AssetLoaded(a) if a.as_string() == "song"));
    assert!(matches!(&events[1], AssetHubEvent::QueryCompleted(q) if *q == qid));
    let loaded = hub.get(AssetID::new("song".to_string())).ok().expect("loaded");
    assert_eq!(loaded.handle, handle());
    assert!(matches!(
        hub.query_load(AssetID::new("song".to_string())),
        Err(QueryAssetError::AlreadyLoaded(_))
    ));
    let q2 = hub.query_load(AssetID::new("jingle".to_string())).expect("load query");
    let events = hub.process_out_message(OutMessage::Loaded(q2, AssetID::new("jingle".to_string()), handle()));
    assert_eq!(events.len(), 3);
    assert!(matches!(events[2], AssetHubEvent::AllAssetsLoaded));
}

#[test]
fn free_is_refused_while_in_use() {
    let mut hub = hub_with(vec![("song", AssetType::AudioWAV)]);
    hub.create_factory_biding(AssetType::AudioWAV);
    let qid = hub.query_load(AssetID::new("song".to_string())).expect("load");
    hub.process_out_message(OutMessage::Loaded(qid, AssetID::new("song".to_string()), handle()));
    let loaded = hub.get(AssetID::new("song".to_string())).ok().expect("loaded");
    loaded.rc.fetch_add(1, Ordering::SeqCst);
    match hub.query_free(AssetID::new("song".to_string())) {
        Err(QueryAssetError::StillInUse(id, n)) => {
            assert_eq!(id.as_string(), "song");
            assert_eq!(n, 1);
        }
        _ => panic!("still in use expected"),
    }
    loaded.rc.fetch_sub(1, Ordering::SeqCst);
    let fq = hub.query_free(AssetID::new("song".to_string())).expect("free query");
    let events = hub.process_out_message(OutMessage::Freed(fq, AssetID::new("song".to_string())));
    assert_eq!(events.len(), 3);
    assert!(matches!(&events[0], AssetHubEvent::AssetFreed(a) if a.as_string() == "song"));
    assert!(matches!(events[2], AssetHubEvent::AllAssetsFreed));
    assert!(matches!(hub.get(AssetID::new("song".to_string())), Err(GetAssetError::NotLoaded(_))));
}

#[test]
fn failed_answer_completes_the_query() {
    let mut hub = hub_with(vec![("song", AssetType::AudioWAV)]);
    hub.create_factory_biding(AssetType::AudioWAV);
    let qid = hub.query_load(AssetID::new("song".to_string())).expect("load");
    let events = hub.process_out_message(OutMessage::Failed(qid, AssetID::new("song".to_string()), "bad".to_string()));
    assert_eq!(events.len(), 1);
    assert!(matches!(&events[0], AssetHubEvent::QueryCompleted(q) if *q == qid));
    assert!(matches!(hub.get(AssetID::new("song".to_string())), Err(GetAssetError::NotLoaded(_))));
}

#[test]
fn load_answer_for_unknown_asset_is_ignored() {
    let mut hub = hub_with(vec![("song", AssetType::AudioWAV)]);
    let events = hub.process_out_message(OutMessage::Loaded(AssetQueryID::new(9), AssetID::new("ghost".to_string()), handle()));
    assert!(events.is_empty());
}

#[test]
fn load_all_sends_one_query_for_every_asset() {
    let mut hub = hub_with(vec![("a", AssetType::AudioWAV), ("b", AssetType::AudioWAV)]);
    let binding = hub.create_factory_biding(AssetType::AudioWAV);
    let qid = hub.query_load_all().expect("load all");
    let mut names = Vec::new();
    let mut queries = Vec::new();
    while let Some(m) = binding.in_queue().pop() {
        match m {
            InMessage::Load(q, id, _, _) => {
                queries.push(q.value());
                names.push(id.as_string().clone());
            }
            InMessage::Free(_, _) => panic!("no free expected"),
        }
    }
    assert_eq!(names, vec!["a".to_string(), "b".to_string()]);
    // Each asset gets its own query; the answer is a fresh identifier.
    assert_eq!(queries, vec![0, 1]);
    assert_eq!(qid.value(), 2);
}

#[test]
fn answers_queued_by_a_factory_reach_the_hub() {
    let mut hub = hub_with(vec![("song", AssetType::AudioWAV)]);
    let binding = hub.create_factory_biding(AssetType::AudioWAV);
    assert!(hub.pop_out_message().is_none());
    let qid = hub.query_load(AssetID::new("song".to_string())).expect("load");
    let pushed = binding.out_queue().push(OutMessage::Loaded(qid, AssetID::new("song".to_string()), handle()));
    assert!(pushed.is_ok());
    let message = hub.pop_out_message().expect("the factory's answer");
    let events = hub.process_out_message(message);
    assert!(matches!(&events[1], AssetHubEvent::QueryCompleted(q) if *q == qid));
    assert!(hub.pop_out_message().is_none());
    assert!(hub.get(AssetID::new("song".to_string())).is_ok());
}

#[test]
fn request_messages_carry_query_and_asset() {
    let qid = AssetQueryID::new(4);
    let aid = AssetID::new("clip".to_string());
    match yage::assets::hub::free_message(qid, &aid) {
        InMessage::Free(q, a) => {
            assert_eq!(q, qid);
            assert_eq!(a.as_string(), "clip");
        }
        _ => panic!("free message expected"),
    }
    let h = header("clip", AssetType::AudioWAV);
    match yage::assets::hub::load_message(qid, &aid, &h, &vec![9, 8]) {
        InMessage::Load(q, a, h2, raw) => {
            assert_eq!(q, qid);
            assert_eq!(a.as_string(), "clip");
            assert_eq!(h2.name, "clip");
            assert_eq!(raw, vec![9, 8]);
        }
        _ => panic!("load message expected"),
    }
}

#[test]
fn free_query_reaches_the_factory_of_the_asset_type() {
    let mut hub = hub_with(vec![("song", AssetType::AudioWAV), ("pic", AssetType::ImagePNG)]);
    let png = hub.create_factory_biding(AssetType::ImagePNG);
    let wav = hub.create_factory_biding(AssetType::AudioWAV);
    let qid = hub.query_load(AssetID::new("song".to_string())).expect("load");
    assert!(png.in_queue().pop().is_none());
    assert!(matches!(wav.in_queue().pop(), Some(InMessage::Load(..))));
    for e in hub.process_out_message(OutMessage::Loaded(qid, AssetID::new("song".to_string()), handle())) {
        let _ = e;
    }
    let fq = hub.query_free(AssetID::new("song".to_string())).expect("free");
    assert!(png.in_queue().pop().is_none());
    match wav.in_queue().pop() {
        Some(InMessage::Free(q, a)) => {
            assert_eq!(q, fq);
            assert_eq!(a.as_string(), "song");
        }
        _ => panic!("free message expected"),
    }
}

#[test]
fn factory_answers_follow_the_outcome() {
    let qid = AssetQueryID::new(1);
    let id = || AssetID::new("a".to_string());
    assert!(matches!(
        factory_answer(qid, id(), FactoryOutcome::Parsed(handle())),
        Some(OutMessage::Loaded(q, _, _)) if q == qid
    ));
    match factory_answer(qid, id(), FactoryOutcome::ParseFailed("bad".to_string())) {
        Some(OutMessage::Failed(q, a, e)) => {
            assert_eq!(q, qid);
            assert_eq!(a.as_string(), "a");
            assert_eq!(e, "bad");
        }
        _ => panic!("failure expected"),
    }
    assert!(matches!(factory_answer(qid, id(), FactoryOutcome::Released), Some(OutMessage::Freed(..))));
    assert!(factory_answer(qid, id(), FactoryOutcome::NotStored).is_none());
}

#[test]
fn load_all_on_an_empty_hub_succeeds() {
    let mut hub = hub_with(vec![]);
    assert!(hub.query_load_all().is_ok());
    assert!(hub.query_free_all().is_ok());
}

#[test]
fn load_all_stops_at_the_first_asset_without_factory() {
    let mut hub = hub_with(vec![("a", AssetType::AudioWAV), ("b", AssetType::ImagePNG), ("c", AssetType::AudioWAV)]);
    let wav = hub.create_factory_biding(AssetType::AudioWAV);
    match hub.query_load_all() {
        Err(QueryAssetError::FactoryNotFound(t)) => assert_eq!(t, AssetType::ImagePNG),
        _ => panic!("missing factory expected"),
    }
    // Only the asset before it was sent.
    let mut sent = Vec::new();
    while let Some(InMessage::Load(_, id, _, _)) = wav.in_queue().pop() {
        sent.push(id.as_string().clone());
    }
    assert_eq!(sent, vec!["a".to_string()]);
}

#[test]
fn free_all_reports_the_first_asset_not_loaded() {
    let mut hub = hub_with(vec![("a", AssetType::AudioWAV), ("b", AssetType::AudioWAV)]);
    let _wav = hub.create_factory_biding(AssetType::AudioWAV);
    match hub.query_free_all() {
        Err(QueryAssetError::AlreadyFreed(x)) => assert_eq!(x.as_string(), "a"),
        _ => panic!("already freed expected"),
    }
}
