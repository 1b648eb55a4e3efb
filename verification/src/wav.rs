//! Decoding of WAVE data that is already in memory into 16-bit PCM samples.

use crate::error::AudioError;
use vstd::prelude::*;

verus! {

#[verifier::external_type_specification]
#[verifier::external_body]
pub struct ExWavError(hound::Error);

/// What the decoder makes of a byte string: the sample rate and the
/// interleaved samples as 16-bit integers, or `None` where it rejects the
/// bytes as WAVE data or cannot read every sample as a 16-bit integer.
pub uninterp spec fn wav_pcm16(bytes: Seq<u8>) -> Option<(u32, Seq<i16>)>;

/// Decoded audio: interleaved 16-bit samples and their rate in samples per
/// second.
pub struct WavAudio {
    pub sample_rate: u32,
    pub samples: Vec<i16>,
}

/// Runs `hound::WavReader::new` on the bytes, takes `sample_rate` from its
/// `spec()` and collects `into_samples::<i16>()`, stopping at the first
/// sample that fails. Trusted: the outcome is a function of the bytes alone,
/// named `wav_pcm16`; nothing is claimed of which bytes decode to what.
#[verifier::external_body]
fn read_pcm16(bytes: &[u8]) -> (decoded: Result<(u32, Vec<i16>), hound::Error>)
    ensures
        match decoded {
            Ok((rate, samples)) => wav_pcm16(bytes@) == Some((rate, samples@)),
            Err(_) => wav_pcm16(bytes@) is None,
        },
{
    let reader = hound::WavReader::new(bytes)?;
    let rate = reader.spec().sample_rate;
    let samples = reader.into_samples::<i16>().collect::<Result<Vec<i16>, hound::Error>>()?;
    Ok((rate, samples))
}

/// Decodes WAVE data held in memory. Whatever the decoder rejects is a
/// `FileOpenError`; no other error comes out.
pub fn decode_wav(bytes: &[u8]) -> (decoded: Result<WavAudio, AudioError>)
    ensures
        match decoded {
            Ok(audio) => wav_pcm16(bytes@) == Some((audio.sample_rate, audio.samples@)),
            Err(e) => e == AudioError::FileOpenError && wav_pcm16(bytes@) is None,
        },
{
    match read_pcm16(bytes) {
        Ok((sample_rate, samples)) => Ok(WavAudio { sample_rate, samples }),
        Err(_) => Err(AudioError::FileOpenError),
    }
}

} // verus!
