//! Layout of sample data: interleaved frames and planar channels, and the
//! position of a block in the output stream.

use vstd::prelude::*;
use crate::audio::CHANNELS_COUNT;

verus! {

/// The raw channel that output channel `channel` takes its samples from:
/// the same one when the input has it, else the input's last channel.
pub open spec fn source_channel(raw_channels: int, channel: int) -> int {
    if channel < raw_channels {
        channel
    } else {
        raw_channels - 1
    }
}

/// Sample `frame` of output channel `channel`, read from interleaved data
/// with `raw_channels` channels per frame.
pub open spec fn planar_sample<F>(interleaved: Seq<F>, raw_channels: int, channel: int, frame: int) -> F {
    interleaved[frame * raw_channels + source_channel(raw_channels, channel)]
}

proof fn lemma_frame_in_bounds(frame: int, frames: int, raw_channels: int, j: int)
    requires
        0 <= frame < frames,
        0 < raw_channels,
        0 <= j < raw_channels,
    ensures
        0 <= frame * raw_channels + j < frames * raw_channels,
        frame * raw_channels + raw_channels == (frame + 1) * raw_channels,
{
    assert(0 <= frame * raw_channels) by (nonlinear_arith)
        requires
            0 <= frame,
            0 < raw_channels,
    ;
    assert(frame * raw_channels + raw_channels <= frames * raw_channels) by (nonlinear_arith)
        requires
            frame + 1 <= frames,
            0 < raw_channels,
    ;
    assert(frame * raw_channels + raw_channels == (frame + 1) * raw_channels) by (nonlinear_arith);
}

/// Splits interleaved frames of `raw_channels` channels into the output's
/// channels. An output channel the input lacks repeats the input's last
/// channel; input channels beyond the output's are dropped.
pub fn deinterleave<F: Copy>(interleaved: &Vec<F>, raw_channels: usize) -> (r: [Vec<F>; CHANNELS_COUNT])
    requires
        raw_channels > 0,
        interleaved.len() % raw_channels == 0,
    ensures
        forall|c: int|
            0 <= c < CHANNELS_COUNT ==> (#[trigger] r@[c])@.len() == interleaved.len() / raw_channels,
        forall|c: int, f: int|
            0 <= c < CHANNELS_COUNT && 0 <= f < interleaved.len() / raw_channels ==> #[trigger] r@[c]@[f]
                == planar_sample(interleaved@, raw_channels as int, c, f),
{
    let ghost frames: int = (interleaved.len() / raw_channels) as int;
    proof {
        assert(interleaved.len() == frames * raw_channels) by (nonlinear_arith)
            requires
                interleaved.len() % raw_channels == 0,
                frames == (interleaved.len() / raw_channels) as int,
                raw_channels > 0,
        ;
    }
    let mut left: Vec<F> = Vec::new();
    let mut right: Vec<F> = Vec::new();
    let mut i: usize = 0;
    let ghost mut frame: int = 0;
    while i < interleaved.len()
        invariant
            0 <= frame <= frames,
            i == frame * raw_channels,
            raw_channels > 0,
            interleaved.len() == frames * raw_channels,
            frames == (interleaved.len() / raw_channels) as int,
            left@.len() == frame,
            right@.len() == frame,
            forall|f: int| 0 <= f < frame ==> #[trigger] left@[f] == planar_sample(interleaved@, raw_channels as int, 0, f),
            forall|f: int| 0 <= f < frame ==> #[trigger] right@[f] == planar_sample(interleaved@, raw_channels as int, 1, f),
        decreases interleaved.len() - i,
    {
        proof {
            if frame >= frames {
                assert(frame * raw_channels >= frames * raw_channels) by (nonlinear_arith)
                    requires
                        frame >= frames,
                        raw_channels > 0,
                ;
            }
            lemma_frame_in_bounds(frame, frames, raw_channels as int, 0);
            lemma_frame_in_bounds(frame, frames, raw_channels as int, raw_channels - 1);
            if raw_channels > 1 {
                lemma_frame_in_bounds(frame, frames, raw_channels as int, 1);
            }
        }
        let l = interleaved[i];
        let second = if 1 < raw_channels {
            1
        } else {
            raw_channels - 1
        };
        let r = interleaved[i + second];
        left.push(l);
        right.push(r);
        i = i + raw_channels;
        proof {
            frame = frame + 1;
        }
    }
    proof {
        if frame < frames {
            assert(frame * raw_channels < frames * raw_channels) by (nonlinear_arith)
                requires
                    frame < frames,
                    raw_channels > 0,
            ;
        }
    }
    let r = [left, right];
    proof {
        assert(r@[0] == left);
        assert(r@[1] == right);
    }
    r
}

/// Interleaves planar channels: frame `i` holds sample `i` of each channel.
pub fn interleave<T: Copy>(planar: &[Vec<T>; CHANNELS_COUNT]) -> (r: Vec<[T; CHANNELS_COUNT]>)
    requires
        planar@[0]@.len() == planar@[1]@.len(),
    ensures
        r@.len() == planar@[0]@.len(),
        forall|i: int, c: int|
            0 <= i < r@.len() && 0 <= c < CHANNELS_COUNT ==> #[trigger] r@[i]@[c] == planar@[c]@[i],
{
    let mut out: Vec<[T; CHANNELS_COUNT]> = Vec::new();
    let n = planar[0].len();
    let mut i: usize = 0;
    while i < n
        invariant
            0 <= i <= n,
            n == planar@[0]@.len(),
            planar@[0]@.len() == planar@[1]@.len(),
            out@.len() == i,
            forall|k: int, c: int|
                0 <= k < i && 0 <= c < CHANNELS_COUNT ==> #[trigger] out@[k]@[c] == planar@[c]@[k],
        decreases n - i,
    {
        let frame = [planar[0][i], planar[1][i]];
        out.push(frame);
        i = i + 1;
    }
    out
}

/// Where a block stands in the output stream: the index of its first
/// sample and the sample rate.
#[derive(Debug, Clone, Copy, PartialEq, Eq, Structural)]
pub struct BlockInfo {
    sample_index: usize,
    sample_rate: usize,
}

impl BlockInfo {
    pub closed spec fn spec_sample_index(&self) -> usize {
        self.sample_index
    }

    pub closed spec fn spec_sample_rate(&self) -> usize {
        self.sample_rate
    }

    pub fn new(sample_index: usize, sample_rate: usize) -> (r: BlockInfo)
        ensures
            r.spec_sample_index() == sample_index,
            r.spec_sample_rate() == sample_rate,
    {
        BlockInfo { sample_index, sample_rate }
    }

    pub fn sample_index(&self) -> (r: usize)
        ensures
            r == self.spec_sample_index(),
    {
        self.sample_index
    }

    pub fn sample_rate(&self) -> (r: usize)
        ensures
            r == self.spec_sample_rate(),
    {
        self.sample_rate
    }
}

/// Mono input is copied to both output channels.
pub proof fn law_mono_fills_both_channels<F>(interleaved: Seq<F>, frame: int)
    ensures
        planar_sample(interleaved, 1, 0, frame) == planar_sample(interleaved, 1, 1, frame),
        planar_sample(interleaved, 1, 0, frame) == interleaved[frame],
{
}

/// Stereo input maps channel to channel; input with more channels keeps
/// its first two.
pub proof fn law_first_channels_kept<F>(interleaved: Seq<F>, raw_channels: int, channel: int, frame: int)
    requires
        2 <= raw_channels,
        0 <= channel < CHANNELS_COUNT,
    ensures
        planar_sample(interleaved, raw_channels, channel, frame) == interleaved[frame * raw_channels
            + channel],
{
}

/// The frames of a stereo block, one after the other.
pub open spec fn flatten_frames<T>(frames: Seq<[T; CHANNELS_COUNT]>) -> Seq<T> {
    Seq::new(frames.len() * 2, |k: int| frames[k / 2]@[k % 2])
}

/// Splitting interleaved stereo frames gives back the channels they were
/// made from.
pub proof fn law_interleave_round_trip<T>(channels: Seq<Seq<T>>, frames: Seq<[T; CHANNELS_COUNT]>)
    requires
        channels.len() == CHANNELS_COUNT,
        channels[0].len() == channels[1].len(),
        frames.len() == channels[0].len(),
        forall|i: int, c: int|
            0 <= i < frames.len() && 0 <= c < CHANNELS_COUNT ==> #[trigger] frames[i]@[c] == channels[c][i],
    ensures
        flatten_frames(frames).len() % 2 == 0,
        flatten_frames(frames).len() / 2 == frames.len(),
        forall|c: int, f: int|
            0 <= c < CHANNELS_COUNT && 0 <= f < frames.len() ==> #[trigger] planar_sample(
                flatten_frames(frames),
                2,
                c,
                f,
            ) == channels[c][f],
{
    assert forall|c: int, f: int| 0 <= c < CHANNELS_COUNT && 0 <= f < frames.len() implies #[trigger] planar_sample(
        flatten_frames(frames),
        2,
        c,
        f,
    ) == channels[c][f] by {
        let k = f * 2 + c;
        assert(k / 2 == f && k % 2 == c) by (nonlinear_arith)
            requires
                k == f * 2 + c,
                0 <= c < 2,
                0 <= f,
        ;
        assert(0 <= k < frames.len() * 2) by (nonlinear_arith)
            requires
                k == f * 2 + c,
                0 <= c < 2,
                0 <= f < frames.len(),
        ;
    }
}

} // verus!
