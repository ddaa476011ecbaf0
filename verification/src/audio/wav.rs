//! Decoding WAV clips: which sample layouts are accepted, and the integer
//! samples split into the output channels. Float samples are converted by
//! the caller.

use vstd::prelude::*;
use crate::audio::CHANNELS_COUNT;
use crate::audio::blocks::{deinterleave, planar_sample};

verus! {

/// The format `hound` reads from the header of a WAV file: channels,
/// sample rate, bits per sample, and whether the samples are floats;
/// `None` when the header is refused.
pub uninterp spec fn wav_format(bytes: Seq<u8>) -> Option<(u16, u32, u16, bool)>;

/// The integer samples `hound` decodes from a WAV file, interleaved;
/// `None` when a sample cannot be decoded.
pub uninterp spec fn wav_int_samples(bytes: Seq<u8>) -> Option<Seq<i32>>;

/// Calls `hound::WavReader::new` on the bytes and `spec` on the reader.
/// Claims: the result is the header's format, and an accepted header has
/// at least one channel (`hound` refuses zero channels).
#[verifier::external_body]
fn wav_read_format(bytes: &[u8]) -> (r: Option<(u16, u32, u16, bool)>)
    ensures
        r == wav_format(bytes@),
        r matches Some(f) ==> f.0 > 0,
{
    match hound::WavReader::new(std::io::Cursor::new(bytes)) {
        Ok(reader) => {
            let spec = reader.spec();
            let is_float = match spec.sample_format {
                hound::SampleFormat::Float => true,
                hound::SampleFormat::Int => false,
            };
            Some((spec.channels, spec.sample_rate, spec.bits_per_sample, is_float))
        },
        Err(_) => None,
    }
}

/// Calls `hound::WavReader::new` on the bytes and reads every sample with
/// `samples::<i32>`, stopping at the first sample that fails. Claims: the
/// result is the file's integer samples; they are only read from a file
/// whose header was accepted, and their number is a multiple of the
/// channel count (`new` refuses other data lengths, and the samples stop
/// at the length the header gives).
#[verifier::external_body]
fn wav_read_int_samples(bytes: &[u8]) -> (r: Option<Vec<i32>>)
    ensures
        match r {
            Some(v) => wav_int_samples(bytes@) == Some(v@),
            None => wav_int_samples(bytes@) is None,
        },
        r matches Some(v) ==> (wav_format(bytes@) matches Some(f) && f.0 > 0 && (v@.len() as int) % (
        f.0 as int) == 0),
{
    match hound::WavReader::new(std::io::Cursor::new(bytes)) {
        Ok(mut reader) => reader.samples::<i32>().collect::<Result<Vec<i32>, hound::Error>>().ok(),
        Err(_) => None,
    }
}

/// Why a WAV clip was refused.
#[derive(Debug, Clone, PartialEq, Eq, Structural)]
pub enum WavError {
    /// The header could not be read.
    Malformed,
    /// The clip's sample rate differs from the player's; clips are not
    /// resampled.
    SampleRateMismatch { expected: usize, found: u32 },
    /// The sample layout is not one of 32-bit float and 16, 24 or 32-bit
    /// integer.
    UnsupportedFormat { float: bool, bits: u16 },
    /// A sample could not be decoded.
    Truncated,
}

/// A decoded clip.
#[derive(Debug)]
pub enum WavClip {
    /// 32-bit float samples, with the file's channel count; the caller
    /// decodes them.
    Float32 { channels: u16 },
    /// Integer samples of the given width, split into the output channels.
    Int { bits: u16, data: [Vec<i32>; CHANNELS_COUNT] },
}

/// Whether the layout is accepted: 32-bit float, or 16, 24 or 32-bit
/// integer.
pub open spec fn supported_layout(float: bool, bits: u16) -> bool {
    if float {
        bits == 32
    } else {
        bits == 16 || bits == 24 || bits == 32
    }
}

/// Whether a clip of WAV format `format` (channels, sample rate, bits per
/// sample, float) can be played by a player running at `sample_rate`: the
/// rates must agree and the layout must be supported.
pub fn check_wav_format(sample_rate: usize, format: (u16, u32, u16, bool)) -> (r: Result<(), WavError>)
    ensures
        format.1 as int != sample_rate as int ==> r == Err::<(), WavError>(
            WavError::SampleRateMismatch { expected: sample_rate, found: format.1 },
        ),
        format.1 as int == sample_rate as int && !supported_layout(format.3, format.2) ==> r == Err::<
            (),
            WavError,
        >(WavError::UnsupportedFormat { float: format.3, bits: format.2 }),
        format.1 as int == sample_rate as int && supported_layout(format.3, format.2) ==> r is Ok,
{
    let (_channels, rate, bits, float) = format;
    if rate as usize != sample_rate {
        return Err(WavError::SampleRateMismatch { expected: sample_rate, found: rate });
    }
    let supported = if float {
        bits == 32
    } else {
        bits == 16 || bits == 24 || bits == 32
    };
    if supported {
        Ok(())
    } else {
        Err(WavError::UnsupportedFormat { float, bits })
    }
}

/// Decodes a WAV clip for a player running at `sample_rate`.
pub fn parse_wav(sample_rate: usize, raw: &[u8]) -> (r: Result<WavClip, WavError>)
    ensures
        wav_format(raw@) is None ==> r == Err::<WavClip, WavError>(WavError::Malformed),
        wav_format(raw@) matches Some(f) ==> {
            let (channels, rate, bits, float) = f;
            if rate as int != sample_rate as int {
                r == Err::<WavClip, WavError>(
                    WavError::SampleRateMismatch { expected: sample_rate, found: rate },
                )
            } else if !supported_layout(float, bits) {
                r == Err::<WavClip, WavError>(WavError::UnsupportedFormat { float, bits })
            } else if float {
                r matches Ok(WavClip::Float32 { channels: c }) && c == channels
            } else {
                match wav_int_samples(raw@) {
                    None => r == Err::<WavClip, WavError>(WavError::Truncated),
                    Some(s) => r matches Ok(WavClip::Int { bits: b, data }) && b == bits && (forall|
                        c: int,
                    |
                        0 <= c < CHANNELS_COUNT ==> (#[trigger] data@[c])@.len() == (s.len() as int) / (
                        channels as int)) && (forall|c: int, i: int|
                        0 <= c < CHANNELS_COUNT && 0 <= i < (s.len() as int) / (channels as int)
                            ==> #[trigger] data@[c]@[i] == planar_sample(s, channels as int, c, i)),
                }
            }
        },
{
    let format = match wav_read_format(raw) {
        Some(f) => f,
        None => {
            return Err(WavError::Malformed);
        },
    };
    check_wav_format(sample_rate, format)?;
    let (channels, _rate, bits, float) = format;
    if float {
        Ok(WavClip::Float32 { channels })
    } else {
        match wav_read_int_samples(raw) {
            Some(samples) => {
                let data = deinterleave(&samples, channels as usize);
                Ok(WavClip::Int { bits, data })
            },
            None => Err(WavError::Truncated),
        }
    }
}

} // verus!
