//! Audio configuration and frames, and the pass-through audio encoder.

use vstd::prelude::*;

verus! {

/// Capture and encoding settings.
#[derive(Debug, Clone)]
pub struct AudioConfig {
    pub sample_rate: u32,
    pub channels: u16,
    pub bitrate: u32,
    pub frame_size: usize,
}

/// One encoded audio frame.
#[derive(Debug, Clone)]
pub struct AudioFrame {
    pub data: Vec<u8>,
    pub pts: u64,
    pub sample_rate: u32,
    pub channels: u16,
    pub frames: usize,
}

/// Failures of the audio and input engines.
#[derive(Debug, Clone)]
pub enum AudioInputError {
    AudioUnavailable(String),
    InputUnavailable(String),
    PipeWire(String),
    Libei(String),
    Opus(String),
    Controller(String),
}

/// Low byte of a sample in two's complement.
pub open spec fn sample_low(x: i16) -> u8 {
    ((x as u16) & 0xffu16) as u8
}

/// High byte of a sample in two's complement.
pub open spec fn sample_high(x: i16) -> u8 {
    ((x as u16) >> 8u16) as u8
}

/// The samples as 16-bit little-endian bytes.
pub open spec fn pcm_le_bytes(pcm: Seq<i16>) -> Seq<u8> {
    Seq::new(
        2 * pcm.len(),
        |k: int|
            if k % 2 == 0 {
                sample_low(pcm[k / 2])
            } else {
                sample_high(pcm[k / 2])
            },
    )
}

/// Reading each byte pair back as a little-endian `i16` gives the samples.
pub proof fn lemma_pcm_le_bytes_decode(pcm: Seq<i16>)
    ensures
        pcm_le_bytes(pcm).len() == 2 * pcm.len(),
        forall|i: int|
            0 <= i < pcm.len() ==> ((((pcm_le_bytes(pcm)[2 * i + 1] as u16) << 8u16) | (pcm_le_bytes(pcm)[2
                * i] as u16)) as i16) == #[trigger] pcm[i],
{
    assert forall|i: int| 0 <= i < pcm.len() implies ((((pcm_le_bytes(pcm)[2 * i + 1] as u16) << 8u16) | (
    pcm_le_bytes(pcm)[2 * i] as u16)) as i16) == #[trigger] pcm[i] by {
        let x = pcm[i];
        assert((2 * i + 1) % 2 == 1 && (2 * i + 1) / 2 == i);
        assert((2 * i) % 2 == 0 && (2 * i) / 2 == i);
        assert(((((((x as u16) >> 8u16) as u8) as u16) << 8u16) | ((((x as u16) & 0xffu16) as u8) as u16)) as i16
            == x) by (bit_vector);
    }
}

/// The audio encoder without Opus: frames pass through as little-endian PCM.
pub struct OpusEncoder {
    pub config: AudioConfig,
    pub frame_count: u64,
}

impl OpusEncoder {
    /// An encoder with the given settings and no frames counted.
    pub fn new(config: &AudioConfig) -> (r: Result<OpusEncoder, AudioInputError>)
        ensures
            r matches Ok(e) && e.config == *config && e.frame_count == 0,
    {
        Ok(OpusEncoder {
            config: AudioConfig {
                sample_rate: config.sample_rate,
                channels: config.channels,
                bitrate: config.bitrate,
                frame_size: config.frame_size,
            },
            frame_count: 0,
        })
    }

    /// Counts the frame and returns its samples as 16-bit little-endian bytes.
    pub fn encode(&mut self, pcm: &[i16]) -> (r: Result<Vec<u8>, AudioInputError>)
        requires
            old(self).frame_count < u64::MAX,
            pcm@.len() * 2 <= usize::MAX,
        ensures
            final(self).frame_count == old(self).frame_count + 1,
            final(self).config == old(self).config,
            r matches Ok(out) && out@ == pcm_le_bytes(pcm@),
    {
        self.frame_count = self.frame_count + 1;
        let mut output: Vec<u8> = Vec::with_capacity(pcm.len() * 2);
        let mut i: usize = 0;
        while i < pcm.len()
            invariant
                i <= pcm@.len(),
                pcm@.len() * 2 <= usize::MAX,
                output@ == pcm_le_bytes(pcm@.take(i as int)),
            decreases pcm@.len() - i,
        {
            let sample = pcm[i];
            let bits = sample as u16;
            output.push((bits & 0xffu16) as u8);
            output.push((bits >> 8u16) as u8);
            proof {
                assert(output@ =~= pcm_le_bytes(pcm@.take(i + 1)));
            }
            i = i + 1;
        }
        assert(pcm@.take(pcm@.len() as int) =~= pcm@);
        Ok(output)
    }
}

/// Microseconds of a time of `secs` seconds and `subsec_nanos` nanoseconds,
/// truncated to 64 bits (whole microseconds; the nanoseconds below a
/// microsecond are dropped).
pub fn micros_since_epoch(secs: u64, subsec_nanos: u32) -> (us: u64)
    ensures
        us == (secs * 1_000_000 + subsec_nanos / 1000) % 0x1_0000_0000_0000_0000,
{
    let total: u128 = (secs as u128) * 1_000_000u128 + (subsec_nanos / 1000) as u128;
    (total % 0x1_0000_0000_0000_0000u128) as u64
}

} // verus!
