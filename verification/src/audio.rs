//! PCM audio buffer with WAV framing, and the conversion of raw 32-bit
//! I2S frames to 16-bit samples. Driving the microphone hardware is the
//! host's business.

use vstd::prelude::*;

verus! {

/// The two little-endian bytes of a 16-bit value.
pub open spec fn le2(x: int) -> Seq<u8> {
    seq![(x % 256) as u8, ((x / 256) % 256) as u8]
}

/// The four little-endian bytes of a 32-bit value.
pub open spec fn le4(x: int) -> Seq<u8> {
    seq![
        (x % 256) as u8,
        ((x / 256) % 256) as u8,
        ((x / 65536) % 256) as u8,
        ((x / 16777216) % 256) as u8,
    ]
}

/// Audio buffer holding recorded PCM data.
#[derive(Debug)]
pub struct AudioBuffer {
    /// Raw 16-bit PCM samples (little-endian).
    pub pcm_data: Vec<u8>,
    /// Sample rate in Hz.
    pub sample_rate: u32,
    /// Bits per sample.
    pub bits_per_sample: u16,
    /// Number of channels (1 = mono).
    pub channels: u16,
}

/// The arithmetic in the WAV header stays in range: how the fields of a
/// freshly created buffer relate.
pub open spec fn audio_wf(a: AudioBuffer) -> bool {
    &&& a.channels as int * (a.bits_per_sample as int / 8) <= u16::MAX
    &&& a.sample_rate as int * (a.channels as int) <= u32::MAX
    &&& a.sample_rate as int * (a.channels as int) * (a.bits_per_sample as int / 8) <= u32::MAX
    &&& a.pcm_data@.len() + 44 <= u32::MAX
}

/// The 44 bytes of a WAV header for the buffer's PCM data: RIFF and
/// WAVE marks, the PCM format chunk, and the data chunk header.
pub open spec fn spec_wav_header(a: AudioBuffer) -> Seq<u8> {
    let data_size = a.pcm_data@.len() as int;
    let bytes_per_sample = a.bits_per_sample as int / 8;
    let byte_rate = a.sample_rate as int * a.channels as int * bytes_per_sample;
    let block_align = a.channels as int * bytes_per_sample;
    seq![0x52u8, 0x49, 0x46, 0x46]  // "RIFF"
     + le4(36 + data_size) + seq![0x57u8, 0x41, 0x56, 0x45]  // "WAVE"
     + seq![0x66u8, 0x6D, 0x74, 0x20]  // "fmt "
     + le4(16) + le2(1) + le2(a.channels as int) + le4(a.sample_rate as int) + le4(byte_rate)
        + le2(block_align) + le2(a.bits_per_sample as int) + seq![0x64u8, 0x61, 0x74, 0x61]  // "data"
     + le4(data_size)
}

/// The 16-bit PCM bytes taken from `n` 32-bit I2S frames: the top two
/// bytes of each little-endian frame, which hold its upper 16 bits.
pub open spec fn pcm_of_frames(buf: Seq<u8>, n: int) -> Seq<u8>
    decreases n,
{
    if n <= 0 {
        Seq::empty()
    } else {
        pcm_of_frames(buf, n - 1) + seq![buf[(n - 1) * 4 + 2], buf[(n - 1) * 4 + 3]]
    }
}

impl AudioBuffer {
    /// A fresh, empty buffer for 16 kHz 16-bit mono recording.
    pub fn new() -> (r: Self)
        ensures
            r.pcm_data@.len() == 0,
            r.sample_rate == 16000u32,
            r.bits_per_sample == 16u16,
            r.channels == 1u16,
            audio_wf(r),
    {
        AudioBuffer { pcm_data: Vec::new(), sample_rate: 16000, bits_per_sample: 16, channels: 1 }
    }

    /// Clear the buffer for a new recording.
    pub fn clear(&mut self)
        ensures
            final(self).pcm_data@.len() == 0,
            final(self).sample_rate == old(self).sample_rate,
            final(self).bits_per_sample == old(self).bits_per_sample,
            final(self).channels == old(self).channels,
    {
        self.pcm_data.clear();
    }

    /// Generate the 44-byte WAV header for the current PCM data, to be
    /// streamed ahead of it.
    pub fn wav_header(&self) -> (r: Vec<u8>)
        requires
            audio_wf(*self),
        ensures
            r@ == spec_wav_header(*self),
    {
        let data_size: u32 = self.pcm_data.len() as u32;
        let bytes_per_sample: u16 = self.bits_per_sample / 8;
        let byte_rate: u32 = self.sample_rate * self.channels as u32 * bytes_per_sample as u32;
        let block_align: u16 = self.channels * bytes_per_sample;
        let file_size: u32 = 36 + data_size;

        let mut hdr: Vec<u8> = Vec::new();
        hdr.push(0x52);
        hdr.push(0x49);
        hdr.push(0x46);
        hdr.push(0x46);
        Self::push_le4(&mut hdr, file_size);
        hdr.push(0x57);
        hdr.push(0x41);
        hdr.push(0x56);
        hdr.push(0x45);
        hdr.push(0x66);
        hdr.push(0x6D);
        hdr.push(0x74);
        hdr.push(0x20);
        Self::push_le4(&mut hdr, 16);
        Self::push_le2(&mut hdr, 1);
        Self::push_le2(&mut hdr, self.channels);
        Self::push_le4(&mut hdr, self.sample_rate);
        Self::push_le4(&mut hdr, byte_rate);
        Self::push_le2(&mut hdr, block_align);
        Self::push_le2(&mut hdr, self.bits_per_sample);
        hdr.push(0x64);
        hdr.push(0x61);
        hdr.push(0x74);
        hdr.push(0x61);
        Self::push_le4(&mut hdr, data_size);
        proof {
            assert(hdr@ =~= spec_wav_header(*self));
        }
        hdr
    }

    /// Append the two little-endian bytes of a 16-bit value.
    fn push_le2(out: &mut Vec<u8>, x: u16)
        ensures
            final(out)@ == old(out)@ + le2(x as int),
    {
        out.push((x % 256) as u8);
        out.push(((x / 256) % 256) as u8);
        proof {
            assert(final(out)@ =~= old(out)@ + le2(x as int));
        }
    }

    /// Append the four little-endian bytes of a 32-bit value.
    fn push_le4(out: &mut Vec<u8>, x: u32)
        ensures
            final(out)@ == old(out)@ + le4(x as int),
    {
        out.push((x % 256) as u8);
        out.push(((x / 256) % 256) as u8);
        out.push(((x / 65536) % 256) as u8);
        out.push(((x / 16777216) % 256) as u8);
        proof {
            assert(final(out)@ =~= old(out)@ + le4(x as int));
        }
    }

    /// Encode the whole buffer as a WAV file: the 44-byte header
    /// followed by the PCM data.
    pub fn to_wav(&self) -> (r: Vec<u8>)
        requires
            audio_wf(*self),
        ensures
            r@ == spec_wav_header(*self) + self.pcm_data@,
    {
        let mut wav = self.wav_header();
        let ghost header = wav@;
        let n = self.pcm_data.len();
        let mut i: usize = 0;
        while i < n
            invariant
                0 <= i <= n,
                n == self.pcm_data@.len(),
                wav@ == header + self.pcm_data@.take(i as int),
            decreases n - i,
        {
            wav.push(self.pcm_data[i]);
            proof {
                assert(wav@ =~= header + self.pcm_data@.take(i + 1 as int));
            }
            i += 1;
        }
        proof {
            assert(self.pcm_data@.take(n as int) =~= self.pcm_data@);
        }
        wav
    }

    /// Convert 32-bit little-endian I2S frames to 16-bit PCM and append
    /// them: each sample keeps the upper two bytes of its frame. Returns
    /// the number of samples appended.
    pub fn append_i2s_frames(&mut self, i2s_buf: &[u8], bytes_read: usize) -> (samples: usize)
        requires
            bytes_read <= i2s_buf@.len(),
            old(self).pcm_data@.len() + i2s_buf@.len() <= usize::MAX,
        ensures
            samples == bytes_read / 4,
            final(self).pcm_data@ == old(self).pcm_data@ + pcm_of_frames(
                i2s_buf@,
                bytes_read as int / 4,
            ),
            final(self).sample_rate == old(self).sample_rate,
            final(self).bits_per_sample == old(self).bits_per_sample,
            final(self).channels == old(self).channels,
    {
        let samples = bytes_read / 4;
        let mut i: usize = 0;
        while i < samples
            invariant
                0 <= i <= samples,
                samples == bytes_read / 4,
                bytes_read <= i2s_buf@.len(),
                old(self).pcm_data@.len() + i2s_buf@.len() <= usize::MAX,
                self.pcm_data@ == old(self).pcm_data@ + pcm_of_frames(i2s_buf@, i as int),
                self.sample_rate == old(self).sample_rate,
                self.bits_per_sample == old(self).bits_per_sample,
                self.channels == old(self).channels,
            decreases samples - i,
        {
            let b2 = i2s_buf[i * 4 + 2];
            let b3 = i2s_buf[i * 4 + 3];
            self.pcm_data.push(b2);
            self.pcm_data.push(b3);
            proof {
                assert(self.pcm_data@ =~= old(self).pcm_data@ + pcm_of_frames(
                    i2s_buf@,
                    i + 1 as int,
                ));
            }
            i += 1;
        }
        samples
    }
}

} // verus!
