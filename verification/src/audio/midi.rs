//! Turning a Standard MIDI File into one timeline of note events and
//! pauses. All tracks are merged by absolute time (a stable sort, so events
//! at the same time keep track order and, within a track, file order), the
//! time gaps between consecutive events are recomputed, and every non-zero
//! gap becomes a pause measured in MIDI ticks together with the tempo in
//! effect.

use vstd::prelude::*;
use midly::{MetaMessage as Meta, MidiMessage as Msg, TrackEventKind as K};

verus! {

/// How MIDI ticks relate to time.
#[derive(Debug, Clone, Copy, PartialEq, Eq, Structural)]
pub enum MidiTiming {
    /// Ticks per quarter note.
    Metrical(u16),
    /// Frames per second (24, 25, 29 for 29.97, or 30) and ticks per frame.
    Timecode(u8, u8),
}

/// The parts of a track event the timeline reads.
#[derive(Debug, Clone, Copy, PartialEq, Eq, Structural)]
pub enum MidiEventKind {
    /// Microseconds per quarter note from now on.
    Tempo(u32),
    NoteOn { channel: u8, key: u8, vel: u8 },
    NoteOff { channel: u8, key: u8, vel: u8 },
    /// Anything else (time signatures, text, system exclusive, ...).
    Other,
}

/// One event of one track.
#[derive(Debug, Clone, Copy, PartialEq, Eq, Structural)]
pub struct MidiTrackEvent {
    /// Ticks since the previous event of the same track.
    pub delta: u32,
    pub kind: MidiEventKind,
}

/// A track event placed on the common time axis.
#[derive(Debug, Clone, Copy, PartialEq, Eq, Structural)]
pub struct TimedEvent {
    pub absolute_time: u32,
    pub delta: u32,
    pub kind: MidiEventKind,
}

/// One step of the resulting timeline.
#[derive(Debug, Clone, Copy, PartialEq, Eq, Structural)]
pub enum MidiTimelineEvent {
    NoteOn { channel: u8, note: u8, velocity: u8 },
    NoteOff { channel: u8, note: u8 },
    /// A pause of `ticks` MIDI ticks, while `tempo` microseconds per quarter
    /// note are in effect.
    Idle { ticks: u32, tempo: u32 },
}

/// A parsed MIDI asset: the file's timing and its timeline.
#[derive(Debug, Clone)]
pub struct MIDIAsset {
    pub timing: MidiTiming,
    pub events: Vec<MidiTimelineEvent>,
}

impl MIDIAsset {
    pub fn new(timing: MidiTiming, events: Vec<MidiTimelineEvent>) -> (r: MIDIAsset)
        ensures
            r.timing == timing,
            r.events == events,
    {
        MIDIAsset { timing, events }
    }
}

/// Sum of the first `n` deltas of a track.
pub open spec fn prefix_time(t: Seq<MidiTrackEvent>, n: int) -> int
    decreases n,
{
    if n <= 0 {
        0
    } else {
        prefix_time(t, n - 1) + t[n - 1].delta
    }
}

/// A track whose total length fits the 32-bit time axis.
pub open spec fn track_fits(t: Seq<MidiTrackEvent>) -> bool {
    prefix_time(t, t.len() as int) <= u32::MAX
}

/// All tracks fit the 32-bit time axis.
pub open spec fn tracks_fit(ts: Seq<Seq<MidiTrackEvent>>) -> bool {
    forall|i: int| 0 <= i < ts.len() ==> track_fits(#[trigger] ts[i])
}

/// The events of a track with their absolute times.
pub open spec fn timed_track(t: Seq<MidiTrackEvent>) -> Seq<TimedEvent> {
    Seq::new(
        t.len(),
        |i: int|
            TimedEvent {
                absolute_time: prefix_time(t, i + 1) as u32,
                delta: t[i].delta,
                kind: t[i].kind,
            },
    )
}

/// All tracks' timed events, track after track.
pub open spec fn merged(ts: Seq<Seq<MidiTrackEvent>>) -> Seq<TimedEvent>
    decreases ts.len(),
{
    if ts.len() == 0 {
        Seq::empty()
    } else {
        merged(ts.drop_last()) + timed_track(ts.last())
    }
}

/// Inserts `x` after every element whose time is not later than its own,
/// scanning from the back.
pub open spec fn insert_by_time(s: Seq<TimedEvent>, x: TimedEvent) -> Seq<TimedEvent>
    decreases s.len(),
{
    if s.len() == 0 {
        seq![x]
    } else if s.last().absolute_time <= x.absolute_time {
        s.push(x)
    } else {
        insert_by_time(s.drop_last(), x).push(s.last())
    }
}

/// The stable sort of `s` by absolute time.
pub open spec fn sort_by_time(s: Seq<TimedEvent>) -> Seq<TimedEvent>
    decreases s.len(),
{
    if s.len() == 0 {
        Seq::empty()
    } else {
        insert_by_time(sort_by_time(s.drop_last()), s.last())
    }
}

/// Whether `s` is ordered by absolute time.
pub open spec fn sorted_by_time(s: Seq<TimedEvent>) -> bool {
    forall|i: int, j: int|
        0 <= i <= j < s.len() ==> (#[trigger] s[i]).absolute_time <= (#[trigger] s[j]).absolute_time
}

/// `s` with every delta but the first replaced by the gap to the previous
/// event.
pub open spec fn with_gaps(s: Seq<TimedEvent>) -> Seq<TimedEvent> {
    Seq::new(
        s.len(),
        |i: int|
            if i == 0 {
                s[0]
            } else {
                TimedEvent { delta: (s[i].absolute_time - s[i - 1].absolute_time) as u32, ..s[i] }
            },
    )
}

/// The tempo in effect after the events of `s` (0 before any tempo event).
pub open spec fn tempo_after(s: Seq<TimedEvent>) -> u32
    decreases s.len(),
{
    if s.len() == 0 {
        0
    } else {
        match s.last().kind {
            MidiEventKind::Tempo(t) => t,
            _ => tempo_after(s.drop_last()),
        }
    }
}

/// The timeline steps one event produces under `tempo`: a pause for a
/// non-zero gap, then the note change, if any. A note-on with velocity 0
/// is a note-off.
pub open spec fn steps_of(e: TimedEvent, tempo: u32) -> Seq<MidiTimelineEvent> {
    let pause = if e.delta != 0 {
        seq![MidiTimelineEvent::Idle { ticks: e.delta, tempo }]
    } else {
        Seq::empty()
    };
    pause + match e.kind {
        MidiEventKind::NoteOff { channel, key, .. } => seq![
            MidiTimelineEvent::NoteOff { channel, note: key },
        ],
        MidiEventKind::NoteOn { channel, key, vel } => if vel == 0 {
            seq![MidiTimelineEvent::NoteOff { channel, note: key }]
        } else {
            seq![MidiTimelineEvent::NoteOn { channel, note: key, velocity: vel }]
        },
        _ => Seq::empty(),
    }
}

/// The timeline of events already on the common axis.
pub open spec fn timeline_of(s: Seq<TimedEvent>) -> Seq<MidiTimelineEvent>
    decreases s.len(),
{
    if s.len() == 0 {
        Seq::empty()
    } else {
        timeline_of(s.drop_last()) + steps_of(s.last(), tempo_after(s.drop_last()))
    }
}

/// The timeline of a file's tracks.
pub open spec fn spec_midi_timeline(ts: Seq<Seq<MidiTrackEvent>>) -> Seq<MidiTimelineEvent> {
    timeline_of(with_gaps(sort_by_time(merged(ts))))
}

/// The views of nested vectors.
pub open spec fn tracks_view(v: Seq<Vec<MidiTrackEvent>>) -> Seq<Seq<MidiTrackEvent>> {
    v.map_values(|t: Vec<MidiTrackEvent>| t@)
}

proof fn lemma_prefix_time_mono(t: Seq<MidiTrackEvent>, a: int, b: int)
    requires
        0 <= a <= b,
    ensures
        prefix_time(t, a) <= prefix_time(t, b),
    decreases b - a,
{
    if a < b {
        lemma_prefix_time_mono(t, a, b - 1);
    }
}

proof fn lemma_merged_push(ts: Seq<Seq<MidiTrackEvent>>, t: Seq<MidiTrackEvent>)
    ensures
        merged(ts.push(t)) == merged(ts) + timed_track(t),
{
    assert(ts.push(t).drop_last() =~= ts);
}

/// Places the events of all tracks on the common time axis, track after
/// track.
pub fn merge_tracks(tracks: &Vec<Vec<MidiTrackEvent>>) -> (r: Vec<TimedEvent>)
    requires
        tracks_fit(tracks_view(tracks@)),
    ensures
        r@ == merged(tracks_view(tracks@)),
{
    let mut out: Vec<TimedEvent> = Vec::new();
    let ghost ts = tracks_view(tracks@);
    let mut t: usize = 0;
    while t < tracks.len()
        invariant
            0 <= t <= tracks.len(),
            ts == tracks_view(tracks@),
            tracks_fit(ts),
            out@ == merged(ts.take(t as int)),
        decreases tracks.len() - t,
    {
        let track = &tracks[t];
        let ghost tv = track@;
        assert(ts[t as int] == tv);
        assert(track_fits(tv));
        let mut absolute_time: u32 = 0;
        let ghost start = out@;
        let mut i: usize = 0;
        while i < track.len()
            invariant
                0 <= i <= track.len(),
                tv == track@,
                track_fits(tv),
                absolute_time == prefix_time(tv, i as int),
                out@ == start + timed_track(tv).take(i as int),
            decreases track.len() - i,
        {
            proof {
                lemma_prefix_time_mono(tv, i + 1, tv.len() as int);
            }
            let e = track[i];
            absolute_time = absolute_time + e.delta;
            out.push(TimedEvent { absolute_time, delta: e.delta, kind: e.kind });
            proof {
                assert(timed_track(tv).take(i + 1) =~= timed_track(tv).take(i as int).push(
                    timed_track(tv)[i as int],
                ));
            }
            i = i + 1;
        }
        proof {
            assert(timed_track(tv).take(tv.len() as int) =~= timed_track(tv));
            assert(ts.take(t + 1) =~= ts.take(t as int).push(tv));
            lemma_merged_push(ts.take(t as int), tv);
        }
        t = t + 1;
    }
    assert(ts.take(tracks.len() as int) =~= ts);
    out
}

/// Inserting at the position found by a backward scan is `insert_by_time`.
proof fn lemma_insert_at(s: Seq<TimedEvent>, x: TimedEvent, p: int)
    requires
        0 <= p <= s.len(),
        forall|j: int| p <= j < s.len() ==> (#[trigger] s[j]).absolute_time > x.absolute_time,
        p == 0 || s[p - 1].absolute_time <= x.absolute_time,
    ensures
        insert_by_time(s, x) == s.take(p).push(x) + s.skip(p),
    decreases s.len(),
{
    if s.len() == 0 {
        assert(s.take(p).push(x) + s.skip(p) =~= seq![x]);
    } else if p == s.len() {
        assert(s.take(p) =~= s);
        assert(s.take(p).push(x) + s.skip(p) =~= s.push(x));
    } else {
        let d = s.drop_last();
        assert(s.last().absolute_time > x.absolute_time);
        assert forall|j: int| p <= j < d.len() implies (#[trigger] d[j]).absolute_time
            > x.absolute_time by {
            assert(d[j] == s[j]);
        }
        lemma_insert_at(d, x, p);
        assert(d.take(p) =~= s.take(p));
        assert((d.take(p).push(x) + d.skip(p)).push(s.last()) =~= s.take(p).push(x) + s.skip(p));
    }
}

/// Stable insertion sort by absolute time.
pub fn sort_events_by_time(events: Vec<TimedEvent>) -> (r: Vec<TimedEvent>)
    ensures
        r@ == sort_by_time(events@),
{
    let ghost input = events@;
    let mut out: Vec<TimedEvent> = Vec::new();
    for e in it: events
        invariant
            it.seq() == input,
            out@ == sort_by_time(input.take(it.index() as int)),
    {
        let ghost idx = it.index();
        let mut p: usize = out.len();
        while p > 0 && out[p - 1].absolute_time > e.absolute_time
            invariant
                0 <= p <= out.len(),
                forall|j: int| p <= j < out.len() ==> (#[trigger] out@[j]).absolute_time
                    > e.absolute_time,
            decreases p,
        {
            p = p - 1;
        }
        proof {
            lemma_insert_at(out@, e, p as int);
            assert(input.take(idx + 1).drop_last() =~= input.take(idx as int));
            assert(input.take(idx + 1).last() == e);
        }
        out.insert(p, e);
        proof {
            assert(out@ =~= sort_by_time(input.take(idx + 1)));
        }
    }
    assert(input.take(input.len() as int) =~= input);
    out
}

/// Replaces every delta but the first by the gap to the previous event.
pub fn recompute_gaps(events: &mut Vec<TimedEvent>)
    requires
        sorted_by_time(old(events)@),
    ensures
        final(events)@ == with_gaps(old(events)@),
{
    let ghost s = events@;
    let n = events.len();
    let mut i: usize = 1;
    while i < n
        invariant
            1 <= i,
            n == s.len(),
            events@.len() == n,
            sorted_by_time(s),
            forall|j: int| 0 <= j < n && (j == 0 || j >= i) ==> #[trigger] events@[j] == s[j],
            forall|j: int| 1 <= j < i && j < n ==> #[trigger] events@[j] == with_gaps(s)[j],
        decreases n - i,
    {
        let prev_time = events[i - 1].absolute_time;
        let mut e = events[i];
        assert(s[i - 1].absolute_time <= s[i as int].absolute_time);
        assert(events@[i - 1].absolute_time == s[i - 1].absolute_time);
        e.delta = e.absolute_time - prev_time;
        events.set(i, e);
        i = i + 1;
    }
    assert(events@ =~= with_gaps(s));
}

proof fn lemma_timeline_push(s: Seq<TimedEvent>, e: TimedEvent)
    ensures
        timeline_of(s.push(e)) == timeline_of(s) + steps_of(e, tempo_after(s)),
        tempo_after(s.push(e)) == match e.kind {
            MidiEventKind::Tempo(t) => t,
            _ => tempo_after(s),
        },
{
    assert(s.push(e).drop_last() =~= s);
}

/// Produces the timeline of events already ordered on the common axis.
pub fn timeline(events: &Vec<TimedEvent>) -> (r: Vec<MidiTimelineEvent>)
    ensures
        r@ == timeline_of(events@),
{
    let mut out: Vec<MidiTimelineEvent> = Vec::new();
    let mut tempo: u32 = 0;
    let mut i: usize = 0;
    while i < events.len()
        invariant
            0 <= i <= events.len(),
            tempo == tempo_after(events@.take(i as int)),
            out@ == timeline_of(events@.take(i as int)),
        decreases events.len() - i,
    {
        let e = events[i];
        let ghost before = out@;
        proof {
            assert(events@.take(i + 1) =~= events@.take(i as int).push(e));
            lemma_timeline_push(events@.take(i as int), e);
        }
        if e.delta != 0 {
            out.push(MidiTimelineEvent::Idle { ticks: e.delta, tempo });
        }
        match e.kind {
            MidiEventKind::Tempo(t) => {
                tempo = t;
            },
            MidiEventKind::NoteOff { channel, key, .. } => {
                out.push(MidiTimelineEvent::NoteOff { channel, note: key });
            },
            MidiEventKind::NoteOn { channel, key, vel } => {
                if vel == 0 {
                    out.push(MidiTimelineEvent::NoteOff { channel, note: key });
                } else {
                    out.push(MidiTimelineEvent::NoteOn { channel, note: key, velocity: vel });
                }
            },
            MidiEventKind::Other => {},
        }
        proof {
            assert(out@ =~= before + steps_of(e, tempo_after(events@.take(i as int))));
        }
        i = i + 1;
    }
    assert(events@.take(events.len() as int) =~= events@);
    out
}

/// The tracks of a file, as a whole: merged, sorted, gap-recomputed and
/// turned into a timeline.
pub fn midi_timeline(tracks: &Vec<Vec<MidiTrackEvent>>) -> (r: Vec<MidiTimelineEvent>)
    requires
        tracks_fit(tracks_view(tracks@)),
    ensures
        r@ == spec_midi_timeline(tracks_view(tracks@)),
{
    let merged_events = merge_tracks(tracks);
    let mut sorted = sort_events_by_time(merged_events);
    proof {
        lemma_sort_by_time_sorted(merged(tracks_view(tracks@)));
    }
    recompute_gaps(&mut sorted);
    timeline(&sorted)
}

/// Whether every track's total length fits the 32-bit time axis.
pub fn check_tracks_fit(tracks: &Vec<Vec<MidiTrackEvent>>) -> (r: bool)
    ensures
        r == tracks_fit(tracks_view(tracks@)),
{
    let mut t: usize = 0;
    while t < tracks.len()
        invariant
            0 <= t <= tracks.len(),
            forall|j: int| 0 <= j < t ==> track_fits(#[trigger] tracks_view(tracks@)[j]),
        decreases tracks.len() - t,
    {
        let track = &tracks[t];
        let mut total: u64 = 0;
        let mut i: usize = 0;
        while i < track.len()
            invariant
                0 <= i <= track.len(),
                total == prefix_time(track@, i as int),
                total <= u32::MAX,
                t < tracks.len(),
                *track == tracks@[t as int],
            decreases track.len() - i,
        {
            total = total + track[i].delta as u64;
            if total > u32::MAX as u64 {
                proof {
                    lemma_prefix_time_mono(track@, i + 1, track@.len() as int);
                    assert(tracks_view(tracks@)[t as int] == track@);
                }
                return false;
            }
            i = i + 1;
        }
        assert(tracks_view(tracks@)[t as int] == track@);
        t = t + 1;
    }
    true
}

/// The standard MIDI file reader's result on raw bytes: the timing and the
/// tracks, or nothing when the bytes are not a valid file.
pub uninterp spec fn midly_parse(raw: Seq<u8>) -> Option<(MidiTiming, Seq<Seq<MidiTrackEvent>>)>;

/// The tracks a parsed file holds.
pub uninterp spec fn smf_tracks(smf: midly::Smf) -> Seq<Seq<MidiTrackEvent>>;

/// The timing a parsed file declares.
pub uninterp spec fn smf_timing(smf: midly::Smf) -> MidiTiming;

/// Declares midly's parsed file `Smf` to the verifier, opaque: what it
/// holds is read only through the wrappers below.
#[verifier::external_type_specification]
#[verifier::external_body]
pub struct ExSmf<'a>(midly::Smf<'a>);

/// Calls `midly::Smf::parse`. Claims: the parsed file's timing and tracks
/// are the reader's result on these bytes, and no file is returned exactly
/// when the reader rejects them.
#[verifier::external_body]
fn smf_parse(raw: &[u8]) -> (r: Option<midly::Smf<'_>>)
    ensures
        r matches Some(smf) ==> midly_parse(raw@) == Some((smf_timing(smf), smf_tracks(smf))),
        r is None <==> midly_parse(raw@) is None,
{
    midly::Smf::parse(raw).ok()
}

/// Reads `smf.header.timing`. Claims: the file's declared timing.
#[verifier::external_body]
fn smf_read_timing(smf: &midly::Smf) -> (r: MidiTiming)
    ensures
        r == smf_timing(*smf),
{
    match smf.header.timing {
        midly::Timing::Metrical(ticks) => MidiTiming::Metrical(ticks.as_int()),
        midly::Timing::Timecode(fps, sub) => MidiTiming::Timecode(fps.as_int(), sub),
    }
}

/// Reads `smf.tracks.len()`. Claims: the number of tracks.
#[verifier::external_body]
fn smf_track_count(smf: &midly::Smf) -> (r: usize)
    ensures
        r == smf_tracks(*smf).len(),
{
    smf.tracks.len()
}

/// Reads the length of track `t`. Claims: the number of its events.
#[verifier::external_body]
fn smf_track_len(smf: &midly::Smf, t: usize) -> (r: usize)
    requires
        t < smf_tracks(*smf).len(),
    ensures
        r == smf_tracks(*smf)[t as int].len(),
{
    smf.tracks[t].len()
}

/// Reads the delta of event `i` of track `t` (`u28::as_int`). Claims: that
/// event's delta.
#[verifier::external_body]
fn smf_event_delta(smf: &midly::Smf, t: usize, i: usize) -> (r: u32)
    requires
        t < smf_tracks(*smf).len(),
        i < smf_tracks(*smf)[t as int].len(),
    ensures
        r == smf_tracks(*smf)[t as int][i as int].delta,
{
    smf.tracks[t][i].delta.as_int()
}

/// Reads the kind of event `i` of track `t`, telling midly's variants
/// apart. Claims: that event's kind.
#[verifier::external_body]
fn smf_event_kind(smf: &midly::Smf, t: usize, i: usize) -> (r: MidiEventKind)
    requires
        t < smf_tracks(*smf).len(),
        i < smf_tracks(*smf)[t as int].len(),
    ensures
        r == smf_tracks(*smf)[t as int][i as int].kind,
{
    match smf.tracks[t][i].kind {
        K::Midi { channel: c, message: Msg::NoteOn { key: k, vel: v } } =>
            MidiEventKind::NoteOn { channel: c.as_int(), key: k.as_int(), vel: v.as_int() },
        K::Midi { channel: c, message: Msg::NoteOff { key: k, vel: v } } =>
            MidiEventKind::NoteOff { channel: c.as_int(), key: k.as_int(), vel: v.as_int() },
        K::Meta(Meta::Tempo(tempo)) => MidiEventKind::Tempo(tempo.as_int()),
        _ => MidiEventKind::Other,
    }
}

/// Copies the tracks of a parsed file.
fn smf_copy_tracks(smf: &midly::Smf) -> (r: Vec<Vec<MidiTrackEvent>>)
    ensures
        tracks_view(r@) == smf_tracks(*smf),
{
    let n = smf_track_count(smf);
    let mut tracks: Vec<Vec<MidiTrackEvent>> = Vec::new();
    let mut t: usize = 0;
    while t < n
        invariant
            0 <= t <= n,
            n == smf_tracks(*smf).len(),
            tracks_view(tracks@) == smf_tracks(*smf).take(t as int),
        decreases n - t,
    {
        let len = smf_track_len(smf, t);
        let mut track: Vec<MidiTrackEvent> = Vec::new();
        let mut i: usize = 0;
        while i < len
            invariant
                0 <= i <= len,
                t < n,
                n == smf_tracks(*smf).len(),
                len == smf_tracks(*smf)[t as int].len(),
                track@ == smf_tracks(*smf)[t as int].take(i as int),
            decreases len - i,
        {
            let delta = smf_event_delta(smf, t, i);
            let kind = smf_event_kind(smf, t, i);
            track.push(MidiTrackEvent { delta, kind });
            proof {
                assert(smf_tracks(*smf)[t as int].take(i + 1) =~= smf_tracks(*smf)[t as int].take(
                    i as int,
                ).push(smf_tracks(*smf)[t as int][i as int]));
            }
            i = i + 1;
        }
        let ghost before = tracks@;
        tracks.push(track);
        proof {
            assert(smf_tracks(*smf)[t as int].take(len as int) =~= smf_tracks(*smf)[t as int]);
            assert(tracks_view(tracks@) =~= tracks_view(before).push(track@));
            assert(smf_tracks(*smf).take(t + 1) =~= smf_tracks(*smf).take(t as int).push(
                smf_tracks(*smf)[t as int],
            ));
        }
        t = t + 1;
    }
    assert(smf_tracks(*smf).take(n as int) =~= smf_tracks(*smf));
    tracks
}

/// What `parse_midi` yields for raw bytes: nothing when the reader rejects
/// them or a track is longer than the 32-bit time axis, otherwise the
/// file's timing and timeline.
pub open spec fn spec_parse_midi(raw: Seq<u8>) -> Option<(MidiTiming, Seq<MidiTimelineEvent>)> {
    match midly_parse(raw) {
        None => None,
        Some((timing, tracks)) => if tracks_fit(tracks) {
            Some((timing, spec_midi_timeline(tracks)))
        } else {
            None
        },
    }
}

/// Parses a Standard MIDI File into a timeline asset.
pub fn parse_midi(raw: &[u8]) -> (r: Option<MIDIAsset>)
    ensures
        match spec_parse_midi(raw@) {
            None => r is None,
            Some((timing, events)) => r matches Some(a) && a.timing == timing && a.events@
                == events,
        },
{
    let smf = match smf_parse(raw) {
        Some(smf) => smf,
        None => return None,
    };
    let timing = smf_read_timing(&smf);
    let tracks = smf_copy_tracks(&smf);
    if !check_tracks_fit(&tracks) {
        return None;
    }
    let events = midi_timeline(&tracks);
    Some(MIDIAsset::new(timing, events))
}

/// Every sequence sorted by `sort_by_time` is ordered by time.
pub proof fn lemma_sort_by_time_sorted(s: Seq<TimedEvent>)
    ensures
        sorted_by_time(sort_by_time(s)),
        sort_by_time(s).len() == s.len(),
    decreases s.len(),
{
    if s.len() > 0 {
        lemma_sort_by_time_sorted(s.drop_last());
        lemma_insert_sorted(sort_by_time(s.drop_last()), s.last());
    }
}

proof fn lemma_insert_sorted(s: Seq<TimedEvent>, x: TimedEvent)
    requires
        sorted_by_time(s),
    ensures
        sorted_by_time(insert_by_time(s, x)),
        insert_by_time(s, x).len() == s.len() + 1,
        forall|i: int|
            0 <= i < insert_by_time(s, x).len() ==> (#[trigger] insert_by_time(s, x)[i] == x
                || s.contains(insert_by_time(s, x)[i])),
    decreases s.len(),
{
    if s.len() > 0 && s.last().absolute_time > x.absolute_time {
        let d = s.drop_last();
        assert(sorted_by_time(d)) by {
            assert forall|i: int, j: int| 0 <= i <= j < d.len() implies (#[trigger] d[i]).absolute_time
                <= (#[trigger] d[j]).absolute_time by {
                assert(d[i] == s[i] && d[j] == s[j]);
            }
        }
        lemma_insert_sorted(d, x);
        let r = insert_by_time(d, x);
        assert forall|i: int| 0 <= i < r.len() implies (#[trigger] r[i]).absolute_time
            <= s.last().absolute_time by {
            if r[i] != x {
                let k = choose|k: int| 0 <= k < d.len() && d[k] == r[i];
                assert(d[k] == s[k]);
            }
        }
        assert forall|i: int| 0 <= i < r.push(s.last()).len() implies (#[trigger] r.push(
            s.last(),
        )[i] == x || s.contains(r.push(s.last())[i])) by {
            if i < r.len() && r[i] != x {
                let k = choose|k: int| 0 <= k < d.len() && d[k] == r[i];
                assert(s[k] == d[k]);
            } else if i == r.len() {
                assert(s[s.len() - 1] == s.last());
            }
        }
    } else if s.len() > 0 {
        assert forall|i: int| 0 <= i < s.push(x).len() implies (#[trigger] s.push(x)[i] == x
            || s.contains(s.push(x)[i])) by {
            if i < s.len() {
                assert(s.push(x)[i] == s[i]);
            }
        }
    }
}

/// Sorting by time only reorders events: it keeps every event the same
/// number of times.
pub proof fn lemma_sort_by_time_permutes(s: Seq<TimedEvent>)
    ensures
        sort_by_time(s).to_multiset() == s.to_multiset(),
    decreases s.len(),
{
    broadcast use vstd::seq_lib::group_to_multiset_ensures;

    if s.len() > 0 {
        lemma_sort_by_time_permutes(s.drop_last());
        lemma_insert_permutes(sort_by_time(s.drop_last()), s.last());
        assert(s.drop_last().push(s.last()) =~= s);
    }
}

proof fn lemma_insert_permutes(s: Seq<TimedEvent>, x: TimedEvent)
    ensures
        insert_by_time(s, x).to_multiset() == s.to_multiset().insert(x),
    decreases s.len(),
{
    broadcast use vstd::seq_lib::group_to_multiset_ensures;

    if s.len() > 0 && s.last().absolute_time > x.absolute_time {
        lemma_insert_permutes(s.drop_last(), x);
        assert(s.drop_last().push(s.last()) =~= s);
        assert(insert_by_time(s, x).to_multiset() =~= s.to_multiset().insert(x));
    }
}

} // verus!
