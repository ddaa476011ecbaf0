use yage::audio::actors::{ActorID, ActorIdSource, ActorsSource, ActorsSourceEvent, Clip, MAX_ACTORS};
use yage::audio::blocks::{deinterleave, interleave, BlockInfo};
use yage::audio::dsp::arm::{self, ArmFeatures};
use yage::audio::dsp::x86::{self, X86Features};
use yage::audio::dsp::{FeatureFlag, Kernel};
use yage::audio::midi::{parse_midi, MidiTimelineEvent, MidiTiming};
use yage::audio::wav::{check_wav_format, parse_wav, WavClip, WavError};
use yage::audio::{BLOCK_SIZE, CHANNELS_COUNT};

type Source = ActorsSource<(f32, f32, f32), f32, u32>;

fn add(id: Option<ActorID>, gain: f32, clip: u32, len: usize) -> ActorsSourceEvent<(f32, f32, f32), f32, u32> {
    ActorsSourceEvent::AddActor { id, pos: (1.0, 2.0, 3.0), gain, clip: Clip { data: clip, len } }
}

#[test]
fn actor_plays_block_by_block_until_clip_ends() {
    let mut s: Source = ActorsSource::new((0.0, 0.0, 0.0), 1.0);
    s.dispatch(add(None, 0.5, 7, 1000));
    let plan = s.render().expect("a fresh block is rendered");
    assert_eq!(plan.len(), 1);
    assert_eq!((plan[0].voice, plan[0].start, plan[0].count), (0, 0, BLOCK_SIZE));
    assert_eq!(plan[0].gain, 0.5);
    assert_eq!(plan[0].clip, 7);
    // The block stays valid until the next frame.
    assert!(s.render().is_none());
    s.frame_start();
    let plan = s.render().expect("new frame");
    assert_eq!((plan[0].start, plan[0].count), (512, 488));
    s.frame_start();
    // The clip has played to the end: its slot is free again.
    assert!(s.render().expect("new frame").is_empty());
}

#[test]
fn actors_take_the_first_free_slots() {
    let mut s: Source = ActorsSource::new((0.0, 0.0, 0.0), 1.0);
    s.dispatch(add(Some(ActorID::new(40)), 1.0, 1, 10));
    s.dispatch(add(Some(ActorID::new(41)), 1.0, 2, 10));
    s.dispatch(ActorsSourceEvent::RemoveActor(ActorID::new(40)));
    s.dispatch(add(Some(ActorID::new(42)), 1.0, 3, 10));
    let plan = s.render().expect("block");
    let slots: Vec<(usize, u32)> = plan.iter().map(|c| (c.voice, c.clip)).collect();
    assert_eq!(slots, vec![(0, 3), (1, 2)]);
}

#[test]
fn unknown_actor_events_change_nothing() {
    let mut s: Source = ActorsSource::new((0.0, 0.0, 0.0), 1.0);
    s.dispatch(add(None, 1.0, 1, 100_000));
    s.render();
    s.dispatch(ActorsSourceEvent::ChangeActorGain { id: ActorID::new(99), gain: 0.1 });
    // Nothing changed, so the last block is still valid.
    assert!(s.render().is_none());
    s.dispatch(ActorsSourceEvent::ChangeActorGain { id: ActorID::new(1), gain: 0.25 });
    let plan = s.render().expect("a change invalidates the block");
    assert_eq!(plan[0].gain, 0.25);
    s.dispatch(ActorsSourceEvent::ChangeListenerPosition((5.0, 5.0, 5.0)));
    assert!(s.render().is_some());
}

#[test]
fn removed_actor_stops_playing() {
    let mut s: Source = ActorsSource::new((0.0, 0.0, 0.0), 1.0);
    s.dispatch(add(Some(ActorID::new(3)), 1.0, 1, 100));
    s.dispatch(ActorsSourceEvent::ChangeActorPosition { id: ActorID::new(3), pos: (9.0, 9.0, 9.0) });
    s.dispatch(ActorsSourceEvent::RemoveActor(ActorID::new(3)));
    assert!(s.render().expect("block").is_empty());
}

#[test]
fn full_table_drops_new_actors() {
    let mut s: Source = ActorsSource::new((0.0, 0.0, 0.0), 1.0);
    for i in 0..MAX_ACTORS {
        s.dispatch(add(None, 1.0, i as u32, 5000));
    }
    s.dispatch(add(None, 1.0, 99_999, 5000));
    let plan = s.render().expect("block");
    assert_eq!(plan.len(), MAX_ACTORS);
    assert!(plan.iter().all(|c| c.clip != 99_999));
}

#[test]
fn actor_ids_start_at_one() {
    let mut ids = ActorIdSource::new();
    assert_eq!(ids.next_id().value(), 1);
    assert_eq!(ids.next_id().value(), 2);
    assert_eq!(ActorID::empty().value(), 0);
}

#[test]
fn deinterleave_stereo_mono_and_wider() {
    let stereo = vec![1, -1, 2, -2, 3, -3];
    let [l, r] = deinterleave(&stereo, 2);
    assert_eq!(l, vec![1, 2, 3]);
    assert_eq!(r, vec![-1, -2, -3]);
    let mono = vec![5, 6];
    let [l, r] = deinterleave(&mono, 1);
    assert_eq!(l, vec![5, 6]);
    assert_eq!(r, vec![5, 6]);
    let three = vec![1, 2, 3, 4, 5, 6];
    let [l, r] = deinterleave(&three, 3);
    assert_eq!(l, vec![1, 4]);
    assert_eq!(r, vec![2, 5]);
    let [l, r] = deinterleave(&Vec::<f32>::new(), 2);
    assert!(l.is_empty() && r.is_empty());
}

#[test]
fn interleave_then_deinterleave_round_trips() {
    let planar = [vec![0.5f32, 0.25, 0.125], vec![-0.5f32, -0.25, -0.125]];
    let frames = interleave(&planar);
    assert_eq!(frames, vec![[0.5, -0.5], [0.25, -0.25], [0.125, -0.125]]);
    let flat: Vec<f32> = frames.iter().flat_map(|f| f.iter().copied()).collect();
    let back = deinterleave(&flat, CHANNELS_COUNT);
    assert_eq!(back, planar);
}

#[test]
fn block_info_reports_position() {
    let b = BlockInfo::new(1024, 48_000);
    assert_eq!(b.sample_index(), 1024);
    assert_eq!(b.sample_rate(), 48_000);
}

#[test]
fn feature_flag_is_set_once() {
    let mut f = FeatureFlag::new();
    assert!(!f.get());
    f.set(true);
    f.set(false);
    assert!(f.get());
}

#[test]
fn x86_kernel_priority() {
    let mut f = X86Features::new();
    assert_eq!(x86::interleave_kernel(&f), Kernel::Fallback);
    x86::detect_features(&mut f, true, true, false, true);
    assert_eq!(x86::interleave_kernel(&f), Kernel::Avx512);
    assert_eq!(x86::add_kernel(&f), Kernel::Avx512);
    // The scaled add has no AVX-512 kernel.
    assert_eq!(x86::addm_kernel(&f), Kernel::Avx);
    x86::disable_all_features(&mut f);
    assert_eq!(x86::add_kernel(&f), Kernel::Fallback);
}

#[test]
fn x86_detection_keeps_first_values() {
    let mut f = X86Features::new();
    x86::detect_features(&mut f, true, false, false, false);
    x86::detect_features(&mut f, false, true, true, true);
    assert_eq!(x86::add_kernel(&f), Kernel::Sse42);
}

#[test]
fn arm_kernel_priority() {
    let mut f = ArmFeatures::new();
    assert_eq!(arm::add_kernel(&f), Kernel::Fallback);
    arm::detect_features(&mut f, false, true);
    assert_eq!(arm::add_kernel(&f), Kernel::Sve);
    let mut g = ArmFeatures::new();
    arm::detect_features(&mut g, true, true);
    assert_eq!(arm::add_kernel(&g), Kernel::Neon);
    arm::disable_all_features(&mut g);
    assert_eq!(arm::add_kernel(&g), Kernel::Fallback);
}

fn chunk(tag: &[u8], body: &[u8]) -> Vec<u8> {
    let mut v = tag.to_vec();
    v.extend_from_slice(&(body.len() as u32).to_be_bytes());
    v.extend_from_slice(body);
    v
}

fn smf(format: u16, division: u16, tracks: &[Vec<u8>]) -> Vec<u8> {
    let mut header = Vec::new();
    header.extend_from_slice(&format.to_be_bytes());
    header.extend_from_slice(&(tracks.len() as u16).to_be_bytes());
    header.extend_from_slice(&division.to_be_bytes());
    let mut out = chunk(b"MThd", &header);
    for t in tracks {
        out.extend(chunk(b"MTrk", t));
    }
    out
}

#[test]
fn midi_single_track_timeline() {
    let track = vec![
        0x00, 0xFF, 0x51, 0x03, 0x07, 0xA1, 0x20, // tempo 500000
        0x00, 0x90, 0x3C, 0x40, // note on 60
        0x60, 0x80, 0x3C, 0x40, // 96 ticks later, note off 60
        0x00, 0x90, 0x3E, 0x00, // note on with velocity 0: note off 62
        0x00, 0xFF, 0x2F, 0x00, // end of track
    ];
    let asset = parse_midi(&smf(0, 96, &[track])).expect("valid file");
    assert_eq!(asset.timing, MidiTiming::Metrical(96));
    assert_eq!(
        asset.events,
        vec![
            MidiTimelineEvent::NoteOn { channel: 0, note: 60, velocity: 64 },
            MidiTimelineEvent::Idle { ticks: 96, tempo: 500_000 },
            MidiTimelineEvent::NoteOff { channel: 0, note: 60 },
            MidiTimelineEvent::NoteOff { channel: 0, note: 62 },
        ]
    );
}

#[test]
fn midi_tracks_merge_by_time() {
    let t1 = vec![0x00, 0x91, 0x3C, 0x50, 0x0A, 0x81, 0x3C, 0x00, 0x00, 0xFF, 0x2F, 0x00];
    let t2 = vec![0x05, 0x92, 0x40, 0x50, 0x0A, 0x82, 0x40, 0x00, 0x00, 0xFF, 0x2F, 0x00];
    let asset = parse_midi(&smf(1, 480, &[t1, t2])).expect("valid file");
    assert_eq!(
        asset.events,
        vec![
            MidiTimelineEvent::NoteOn { channel: 1, note: 60, velocity: 80 },
            MidiTimelineEvent::Idle { ticks: 5, tempo: 0 },
            MidiTimelineEvent::NoteOn { channel: 2, note: 64, velocity: 80 },
            MidiTimelineEvent::Idle { ticks: 5, tempo: 0 },
            MidiTimelineEvent::NoteOff { channel: 1, note: 60 },
            MidiTimelineEvent::Idle { ticks: 5, tempo: 0 },
            MidiTimelineEvent::NoteOff { channel: 2, note: 64 },
        ]
    );
}

#[test]
fn midi_garbage_is_refused() {
    assert!(parse_midi(b"not a midi file").is_none());
    assert!(parse_midi(&[]).is_none());
}

fn wav(format_tag: u16, channels: u16, rate: u32, bits: u16, data: &[u8]) -> Vec<u8> {
    let block_align = channels * ((bits + 7) / 8);
    let mut fmt = Vec::new();
    fmt.extend_from_slice(&format_tag.to_le_bytes());
    fmt.extend_from_slice(&channels.to_le_bytes());
    fmt.extend_from_slice(&rate.to_le_bytes());
    fmt.extend_from_slice(&(rate * block_align as u32).to_le_bytes());
    fmt.extend_from_slice(&block_align.to_le_bytes());
    fmt.extend_from_slice(&bits.to_le_bytes());
    let mut body = b"WAVE".to_vec();
    body.extend_from_slice(b"fmt ");
    body.extend_from_slice(&(fmt.len() as u32).to_le_bytes());
    body.extend_from_slice(&fmt);
    body.extend_from_slice(b"data");
    body.extend_from_slice(&(data.len() as u32).to_le_bytes());
    body.extend_from_slice(data);
    let mut out = b"RIFF".to_vec();
    out.extend_from_slice(&(body.len() as u32).to_le_bytes());
    out.extend_from_slice(&body);
    out
}

fn i16s(v: &[i16]) -> Vec<u8> {
    v.iter().flat_map(|x| x.to_le_bytes()).collect()
}

#[test]
fn wav_16_bit_stereo_is_split() {
    let file = wav(1, 2, 44_100, 16, &i16s(&[1, -1, 2, -2]));
    match parse_wav(44_100, &file) {
        Ok(WavClip::Int { bits, data }) => {
            assert_eq!(bits, 16);
            assert_eq!(data[0], vec![1, 2]);
            assert_eq!(data[1], vec![-1, -2]);
        }
        other => panic!("unexpected {:?}", other),
    }
}

#[test]
fn wav_mono_fills_both_channels() {
    let file = wav(1, 1, 48_000, 16, &i16s(&[5, 6]));
    match parse_wav(48_000, &file) {
        Ok(WavClip::Int { data, .. }) => {
            assert_eq!(data[0], vec![5, 6]);
            assert_eq!(data[1], vec![5, 6]);
        }
        other => panic!("unexpected {:?}", other),
    }
}

#[test]
fn wav_24_bit_three_channels_keeps_first_two() {
    let data: Vec<u8> = [7i32, 8, 9].iter().flat_map(|x| x.to_le_bytes()[..3].to_vec()).collect();
    let file = wav(1, 3, 48_000, 24, &data);
    match parse_wav(48_000, &file) {
        Ok(WavClip::Int { bits, data }) => {
            assert_eq!(bits, 24);
            assert_eq!(data[0], vec![7]);
            assert_eq!(data[1], vec![8]);
        }
        other => panic!("unexpected {:?}", other),
    }
}

#[test]
fn wav_float_is_left_to_the_caller() {
    let data: Vec<u8> = [0.5f32, -0.5].iter().flat_map(|x| x.to_le_bytes()).collect();
    let file = wav(3, 2, 48_000, 32, &data);
    match parse_wav(48_000, &file) {
        Ok(WavClip::Float32 { channels }) => assert_eq!(channels, 2),
        other => panic!("unexpected {:?}", other),
    }
}

#[test]
fn wav_refusals() {
    let file = wav(1, 2, 44_100, 16, &i16s(&[1, 1]));
    assert_eq!(
        parse_wav(48_000, &file).err(),
        Some(WavError::SampleRateMismatch { expected: 48_000, found: 44_100 })
    );
    let file8 = wav(1, 1, 8_000, 8, &[128, 129]);
    assert_eq!(parse_wav(8_000, &file8).err(), Some(WavError::UnsupportedFormat { float: false, bits: 8 }));
    assert_eq!(parse_wav(8_000, b"RIFF....").err(), Some(WavError::Malformed));
}

#[test]
fn wav_format_check_decides_rate_and_layout() {
    assert_eq!(check_wav_format(44100, (2, 44100, 16, false)), Ok(()));
    assert_eq!(check_wav_format(44100, (1, 44100, 32, true)), Ok(()));
    assert_eq!(
        check_wav_format(48000, (2, 44100, 16, false)),
        Err(WavError::SampleRateMismatch { expected: 48000, found: 44100 })
    );
    assert_eq!(
        check_wav_format(44100, (2, 44100, 8, false)),
        Err(WavError::UnsupportedFormat { float: false, bits: 8 })
    );
    assert_eq!(
        check_wav_format(44100, (2, 44100, 16, true)),
        Err(WavError::UnsupportedFormat { float: true, bits: 16 })
    );
}
