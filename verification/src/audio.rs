//! The project-wide PCM contract (16 kHz mono) and the parts of decoding
//! that are decisions rather than sample arithmetic: which WAV files take
//! the native fast path, and how PCM16LE bytes become samples.

use vstd::prelude::*;

use crate::text::owned;

verus! {

/// Sample rate of every PCM buffer the engines are handed.
pub const TARGET_SR: usize = 16_000;

#[derive(Debug)]
pub enum AudioError {
    Decode(String),
}

impl AudioError {
    pub open spec fn spec_message(&self) -> Seq<char> {
        match self {
            AudioError::Decode(m) => "unsupported or corrupt audio: "@ + m@,
        }
    }

    /// The text the error displays as.
    pub fn message(&self) -> (r: String)
        ensures
            r@ == self.spec_message(),
    {
        match self {
            AudioError::Decode(m) => {
                let mut r = owned("unsupported or corrupt audio: ");
                r.append(m.as_str());
                r
            },
        }
    }
}

/// The little-endian signed 16-bit sample made of bytes `lo`, `hi`.
pub open spec fn le_sample(lo: u8, hi: u8) -> int {
    let v = lo + 256 * hi;
    if v >= 32768 { v - 65536 } else { v }
}

/// Samples of a PCM16LE byte buffer, or None when it holds a dangling odd
/// byte (not a whole number of samples).
pub fn pcm16le_samples(bytes: &[u8]) -> (r: Option<Vec<i16>>)
    ensures
        r is None <==> bytes@.len() % 2 == 1,
        r matches Some(v) ==> v@.len() * 2 == bytes@.len() && forall|i: int|
            0 <= i < v@.len() ==> #[trigger] v@[i] == le_sample(bytes@[2 * i], bytes@[2 * i + 1]),
{
    if bytes.len() % 2 != 0 {
        return None;
    }
    let n = bytes.len() / 2;
    let mut out: Vec<i16> = Vec::new();
    let mut i: usize = 0;
    while i < n
        invariant
            n * 2 == bytes@.len(),
            bytes@.len() <= usize::MAX,
            i <= n,
            out@.len() == i,
            forall|k: int| 0 <= k < i ==> #[trigger] out@[k] == le_sample(bytes@[2 * k], bytes@[2 * k + 1]),
        decreases n - i,
    {
        assert(2 * i + 1 < bytes@.len());
        let lo = bytes[2 * i];
        let hi = bytes[2 * i + 1];
        let v: i32 = lo as i32 + 256 * (hi as i32);
        let s: i32 = if v >= 32768 {
            v - 65536
        } else {
            v
        };
        out.push(s as i16);
        i += 1;
    }
    Some(out)
}

/// Sample layouts of a WAV file that is already 16 kHz mono and decodes
/// natively.
#[derive(Debug, Clone, Copy, PartialEq, Eq, Structural)]
pub enum WavFastFormat {
    /// 16-bit signed integer samples.
    Int16,
    /// 32-bit float samples.
    Float32,
}

/// What hound's WAV reader finds in the header of `data`: sample rate,
/// channel count, bits per sample, and whether samples are floats; None when
/// it refuses the header.
pub uninterp spec fn spec_wav_header(data: Seq<u8>) -> Option<(u32, u16, u16, bool)>;

/// `hound::WavReader::new` on `data`, reduced to its `WavSpec`: sample rate,
/// channels, bits per sample, float or integer samples. None when hound
/// refuses the header. Claims only that the answer is a function of the
/// bytes.
#[verifier::external_body]
fn wav_header(data: &[u8]) -> (r: Option<(u32, u16, u16, bool)>)
    ensures
        r == spec_wav_header(data@),
{
    let reader = hound::WavReader::new(std::io::Cursor::new(data)).ok()?;
    let spec = reader.spec();
    let is_float = match spec.sample_format {
        hound::SampleFormat::Float => true,
        hound::SampleFormat::Int => false,
    };
    Some((spec.sample_rate, spec.channels, spec.bits_per_sample, is_float))
}

/// Whether `data` opens with the four bytes `RIFF`.
pub open spec fn starts_with_riff(data: Seq<u8>) -> bool {
    data.len() >= 4 && data[0] == 0x52 && data[1] == 0x49 && data[2] == 0x46 && data[3] == 0x46
}

/// Which native layout a header read as `header` allows, if any: 16 kHz
/// mono with 16-bit integer or 32-bit float samples.
pub open spec fn fast_format_of(header: Option<(u32, u16, u16, bool)>) -> Option<WavFastFormat> {
    match header {
        None => None,
        Some((rate, channels, bits, is_float)) => if rate != TARGET_SR || channels != 1 {
            None
        } else if !is_float && bits == 16 {
            Some(WavFastFormat::Int16)
        } else if is_float && bits == 32 {
            Some(WavFastFormat::Float32)
        } else {
            None
        },
    }
}

/// Only a 16 kHz mono header takes the native path: 16-bit integer samples
/// as `Int16`, 32-bit float samples as `Float32`; any other rate, channel
/// count or sample layout goes to libav.
pub proof fn lemma_fast_path_is_16k_mono(header: Option<(u32, u16, u16, bool)>)
    ensures
        fast_format_of(header) is Some ==> header is Some && header.unwrap().0 == 16_000 && header.unwrap().1 == 1,
        fast_format_of(header) == Some(WavFastFormat::Int16) <==> header == Some((16_000u32, 1u16, 16u16, false)),
        fast_format_of(header) == Some(WavFastFormat::Float32) <==> header == Some((16_000u32, 1u16, 32u16, true)),
{
}

/// Native decode is only for WAV already matching the target format: 16 kHz
/// mono, i16 or f32 samples. None means "hand it to libav".
pub fn wav_fastpath_format(data: &[u8]) -> (r: Option<WavFastFormat>)
    ensures
        r == if starts_with_riff(data@) { fast_format_of(spec_wav_header(data@)) } else { None },
        r is Some ==> starts_with_riff(data@) && spec_wav_header(data@) is Some
            && spec_wav_header(data@).unwrap().0 == 16_000 && spec_wav_header(data@).unwrap().1 == 1,
        r == Some(WavFastFormat::Int16) <==> starts_with_riff(data@) && spec_wav_header(data@) == Some(
            (16_000u32, 1u16, 16u16, false),
        ),
        r == Some(WavFastFormat::Float32) <==> starts_with_riff(data@) && spec_wav_header(data@) == Some(
            (16_000u32, 1u16, 32u16, true),
        ),
{
    if !(data.len() >= 4 && data[0] == 0x52 && data[1] == 0x49 && data[2] == 0x46 && data[3]
        == 0x46) {
        return None;
    }
    fast_format(wav_header(data))
}

/// See [`fast_format_of`]: the native layout a WAV header read as `header`
/// allows, if any.
pub fn fast_format(header: Option<(u32, u16, u16, bool)>) -> (r: Option<WavFastFormat>)
    ensures
        r == fast_format_of(header),
        // Only 16 kHz mono takes the native path: 16-bit integer samples
        // as Int16, 32-bit float samples as Float32, nothing else.
        r is Some ==> header is Some && header.unwrap().0 == 16_000 && header.unwrap().1 == 1,
        r == Some(WavFastFormat::Int16) <==> header == Some((16_000u32, 1u16, 16u16, false)),
        r == Some(WavFastFormat::Float32) <==> header == Some((16_000u32, 1u16, 32u16, true)),
{
    match header {
        None => None,
        Some((rate, channels, bits, is_float)) => {
            if rate as usize != TARGET_SR || channels != 1 {
                None
            } else if !is_float && bits == 16 {
                Some(WavFastFormat::Int16)
            } else if is_float && bits == 32 {
                Some(WavFastFormat::Float32)
            } else {
                None
            }
        },
    }
}

} // verus!
