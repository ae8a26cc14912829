use vstd::prelude::*;

use crate::dsp::error_correction::DspError;

verus! {

/// Audio output format
pub const AUDIO_SAMPLE_RATE: u32 = 48_000;

pub const AUDIO_CHANNELS: u16 = 2;

pub const AUDIO_BITS_PER_SAMPLE: u16 = 16;

/// Samples per channel in one 20 ms frame (`AUDIO_SAMPLE_RATE / 50`).
pub const SAMPLES_PER_FRAME: usize = 960;

/// Length of one frame's interleaved stereo PCM buffer.
pub const FRAME_PCM_LEN: usize = 1920;

/// Capacity reserved for the super frame assembly buffer.
pub const SUPERFRAME_BUFFER_CAPACITY: usize = 65536;

/// Smallest super frame the decoder works on.
pub const MIN_SUPERFRAME_LEN: usize = 24;

/// Decoded audio frame
#[derive(Clone)]
pub struct AudioFrame {
    pub pcm_data: Vec<i16>,
    pub sample_rate: u32,
    pub channels: u16,
    pub timestamp_ms: u64,
    pub frame_number: u64,
}

/// Low byte of a 16-bit sample in little-endian order.
pub open spec fn sample_low_byte(s: i16) -> u8 {
    ((s as u16) & 0xFFu16) as u8
}

/// High byte of a 16-bit sample in little-endian order.
pub open spec fn sample_high_byte(s: i16) -> u8 {
    ((s as u16) >> 8u16) as u8
}

/// The samples as a little-endian 16-bit PCM byte stream.
pub open spec fn pcm_le_bytes(pcm: Seq<i16>) -> Seq<u8> {
    Seq::new(
        2 * pcm.len(),
        |i: int|
            if i % 2 == 0 {
                sample_low_byte(pcm[i / 2])
            } else {
                sample_high_byte(pcm[i / 2])
            },
    )
}

/// The sample that two little-endian bytes encode.
pub open spec fn sample_from_le(lo: u8, hi: u8) -> i16 {
    ((lo as u16) | ((hi as u16) << 8u16)) as i16
}

impl AudioFrame {
    /// Convert to WAV-compatible byte buffer (16-bit little-endian PCM).
    pub fn to_wav_bytes(&self) -> (bytes: Vec<u8>)
        requires
            2 * self.pcm_data@.len() <= usize::MAX,
        ensures
            bytes@ == pcm_le_bytes(self.pcm_data@),
    {
        let n = self.pcm_data.len();
        let mut bytes: Vec<u8> = Vec::with_capacity(n * 2);
        for k in 0..n
            invariant
                n == self.pcm_data@.len(),
                bytes@.len() == 2 * k,
                forall|i: int| 0 <= i < 2 * k ==> #[trigger] bytes@[i] == pcm_le_bytes(self.pcm_data@)[i],
        {
            let sample = self.pcm_data[k];
            let u = sample as u16;
            bytes.push((u & 0xFF) as u8);
            bytes.push((u >> 8) as u8);
        }
        assert(bytes@ =~= pcm_le_bytes(self.pcm_data@));
        bytes
    }
}

/// Every sample of a frame's WAV bytes reads back as the sample itself.
pub proof fn lemma_wav_bytes_round_trip(pcm: Seq<i16>, k: int)
    requires
        0 <= k < pcm.len(),
    ensures
        sample_from_le(pcm_le_bytes(pcm)[2 * k], pcm_le_bytes(pcm)[2 * k + 1]) == pcm[k],
{
    let s = pcm[k];
    assert((2 * k) % 2 == 0 && (2 * k) / 2 == k);
    assert((2 * k + 1) % 2 == 1 && (2 * k + 1) / 2 == k);
    assert((((((s as u16) & 0xFFu16) as u8) as u16) | (((((s as u16) >> 8u16) as u8) as u16) << 8u16))
        as i16 == s) by (bit_vector);
}

/// The two header bytes of a super frame, as one big-endian word.
pub open spec fn superframe_header(b0: u8, b1: u8) -> u16 {
    ((b0 as u16) << 8u16) | (b1 as u16)
}

/// Number of access units in a super frame: 2 with both the DAC-rate and
/// SBR flags set, 3 with one of them, 4 with neither.
pub open spec fn access_unit_count(header: u16) -> usize {
    let dac_rate = (header >> 14u16) & 1u16;
    let sbr_flag = (header >> 13u16) & 1u16;
    if dac_rate == 1 && sbr_flag == 1 {
        2
    } else if dac_rate == 1 || sbr_flag == 1 {
        3
    } else {
        4
    }
}

/// `frame` is the test tone frame number `n`: 20 ms of stereo PCM where both
/// channels carry the sample that `tone` gives for (`n`, sample index).
pub open spec fn is_tone_frame<F: Fn(u64, usize) -> i16>(tone: F, frame: AudioFrame, n: u64) -> bool {
    &&& frame.frame_number == n
    &&& frame.timestamp_ms == n * 20
    &&& frame.sample_rate == AUDIO_SAMPLE_RATE
    &&& frame.channels == AUDIO_CHANNELS
    &&& frame.pcm_data@.len() == FRAME_PCM_LEN
    &&& forall|i: int|
        0 <= i < SAMPLES_PER_FRAME ==> {
            &&& #[trigger] frame.pcm_data@[2 * i] == frame.pcm_data@[2 * i + 1]
            &&& call_ensures(tone, (n, i as usize), frame.pcm_data@[2 * i])
        }
}

/// `frame` is the silence frame number `n`.
pub open spec fn is_silence_frame(frame: AudioFrame, n: u64) -> bool {
    &&& frame.frame_number == n
    &&& frame.timestamp_ms == n * 20
    &&& frame.sample_rate == AUDIO_SAMPLE_RATE
    &&& frame.channels == AUDIO_CHANNELS
    &&& frame.pcm_data@ == Seq::new(FRAME_PCM_LEN as nat, |i: int| 0i16)
}

/// DAB+ Audio Decoder
/// Handles HE-AAC v2 decoding from DAB+ audio super frames
pub struct DabDecoder {
    service_id: u32,
    sub_channel_id: u8,
    frame_counter: u64,
    is_decoding: bool,
    // Superframe assembly buffer
    superframe_buffer: Vec<u8>,
    superframe_size: usize,
    // Reed-Solomon error correction state
    rs_errors_corrected: u64,
    rs_errors_uncorrectable: u64,
}

/// `v[from..to]` as a slice.
fn slice_of(v: &Vec<u8>, from: usize, to: usize) -> (s: &[u8])
    requires
        from <= to <= v@.len(),
    ensures
        s@ == v@.subrange(from as int, to as int),
{
    vstd::slice::slice_subrange(v.as_slice(), from, to)
}

impl DabDecoder {
    pub closed spec fn service_id_view(&self) -> u32 {
        self.service_id
    }

    pub closed spec fn sub_channel_id_view(&self) -> u8 {
        self.sub_channel_id
    }

    pub closed spec fn frame_counter_view(&self) -> u64 {
        self.frame_counter
    }

    pub closed spec fn is_decoding_view(&self) -> bool {
        self.is_decoding
    }

    pub closed spec fn buffer_view(&self) -> Seq<u8> {
        self.superframe_buffer@
    }

    pub closed spec fn rs_stats_view(&self) -> (u64, u64) {
        (self.rs_errors_corrected, self.rs_errors_uncorrectable)
    }

    pub fn new(service_id: u32, sub_channel_id: u8) -> (d: Self)
        ensures
            d.service_id_view() == service_id,
            d.sub_channel_id_view() == sub_channel_id,
            d.frame_counter_view() == 0,
            !d.is_decoding_view(),
            d.buffer_view() == Seq::<u8>::empty(),
            d.rs_stats_view() == (0u64, 0u64),
    {
        Self {
            service_id,
            sub_channel_id,
            frame_counter: 0,
            is_decoding: false,
            superframe_buffer: Vec::with_capacity(SUPERFRAME_BUFFER_CAPACITY),
            superframe_size: 0,
            rs_errors_corrected: 0,
            rs_errors_uncorrectable: 0,
        }
    }

    /// Start decoding: the frame counter restarts at 0 and the assembly
    /// buffer is emptied. Always succeeds.
    pub fn start(&mut self) -> (r: Result<(), DspError>)
        ensures
            r is Ok,
            final(self).is_decoding_view(),
            final(self).frame_counter_view() == 0,
            final(self).buffer_view() == Seq::<u8>::empty(),
            final(self).service_id_view() == old(self).service_id_view(),
            final(self).sub_channel_id_view() == old(self).sub_channel_id_view(),
            final(self).rs_stats_view() == old(self).rs_stats_view(),
    {
        self.is_decoding = true;
        self.frame_counter = 0;
        self.superframe_buffer.clear();
        Ok(())
    }

    /// Stop decoding; nothing else changes.
    pub fn stop(&mut self)
        ensures
            !final(self).is_decoding_view(),
            final(self).frame_counter_view() == old(self).frame_counter_view(),
            final(self).buffer_view() == old(self).buffer_view(),
            final(self).service_id_view() == old(self).service_id_view(),
            final(self).sub_channel_id_view() == old(self).sub_channel_id_view(),
            final(self).rs_stats_view() == old(self).rs_stats_view(),
    {
        self.is_decoding = false;
    }

    /// Process a DAB+ audio super frame: checks the header, splits the
    /// frame into its access units and decodes each into 20 ms of PCM.
    /// `tone` gives the PCM sample for (frame number, sample index).
    pub fn process_superframe<F: Fn(u64, usize) -> i16>(&mut self, data: &[u8], tone: &F) -> (r: Result<
        Vec<AudioFrame>,
        DspError,
    >)
        requires
            forall|n: u64, i: usize| tone.requires((n, i)),
            old(self).is_decoding_view() && data@.len() >= MIN_SUPERFRAME_LEN ==> old(
                self,
            ).frame_counter_view() + 4 <= u64::MAX / 20,
        ensures
            !old(self).is_decoding_view() ==> r == Err::<Vec<AudioFrame>, DspError>(
                DspError::DecoderInactive,
            ) && *final(self) == *old(self),
            old(self).is_decoding_view() && data@.len() < MIN_SUPERFRAME_LEN ==> (r matches Ok(frames)
                && frames@.len() == 0 && *final(self) == *old(self)),
            old(self).is_decoding_view() && data@.len() >= MIN_SUPERFRAME_LEN ==> {
                let count = access_unit_count(superframe_header(data@[0], data@[1]));
                &&& r matches Ok(frames)
                &&& frames@.len() == count
                &&& forall|k: int|
                    0 <= k < count ==> is_tone_frame(
                        *tone,
                        #[trigger] frames@[k],
                        (old(self).frame_counter_view() + k + 1) as u64,
                    )
                &&& final(self).frame_counter_view() == old(self).frame_counter_view() + count
                &&& final(self).is_decoding_view()
                &&& final(self).buffer_view() == old(self).buffer_view()
                &&& final(self).service_id_view() == old(self).service_id_view()
                &&& final(self).sub_channel_id_view() == old(self).sub_channel_id_view()
                &&& final(self).rs_stats_view() == old(self).rs_stats_view()
            },
    {
        if !self.is_decoding {
            return Err(DspError::DecoderInactive);
        }
        // DAB+ super frame structure:
        // - Header (2 bytes): fire code for synchronization
        // - Audio data: access units of HE-AAC v2
        // - Reed-Solomon parity bytes
        if data.len() < MIN_SUPERFRAME_LEN {
            return Ok(Vec::new());
        }

        // Check fire code for frame synchronization
        let fire_code: u16 = ((data[0] as u16) << 8) | data[1] as u16;
        let dac_rate = (fire_code >> 14) & 1;
        let sbr_flag = (fire_code >> 13) & 1;

        // Extract Access Unit boundaries from the header
        let num_aus: usize = if dac_rate == 1 && sbr_flag == 1 {
            2
        } else if dac_rate == 1 || sbr_flag == 1 {
            3
        } else {
            4
        };

        // Apply Reed-Solomon error correction
        let corrected_data = match self.apply_reed_solomon(data) {
            Ok(c) => c,
            Err(e) => {
                return Err(e);
            },
        };

        // Decode each Access Unit
        let ghost start = *self;
        let mut frames: Vec<AudioFrame> = Vec::new();
        let len = corrected_data.len();
        let frame_size = (len - 2) / num_aus;
        let mut i: usize = 0;
        while i < num_aus
            invariant
                2 <= num_aus <= 4,
                len == corrected_data@.len(),
                len >= MIN_SUPERFRAME_LEN,
                frame_size == (len - 2) as int / num_aus as int,
                i <= num_aus,
                frames@.len() == i,
                start.frame_counter_view() + 4 <= u64::MAX / 20,
                self.frame_counter_view() == start.frame_counter_view() + i,
                self.is_decoding_view(),
                self.buffer_view() == start.buffer_view(),
                self.service_id_view() == start.service_id_view(),
                self.sub_channel_id_view() == start.sub_channel_id_view(),
                self.rs_stats_view() == start.rs_stats_view(),
                forall|n: u64, j: usize| tone.requires((n, j)),
                forall|k: int|
                    0 <= k < i ==> is_tone_frame(
                        *tone,
                        #[trigger] frames@[k],
                        (start.frame_counter_view() + k + 1) as u64,
                    ),
            ensures
                i == num_aus,
            decreases num_aus - i,
        {
            assert(2 + i * frame_size + frame_size <= len) by (nonlinear_arith)
                requires
                    i < num_aus,
                    num_aus >= 1,
                    len >= 2,
                    frame_size == (len - 2) as int / num_aus as int,
            ;
            let offset = 2 + (i * frame_size);
            let end = offset + frame_size;
            if end > len {
                break;
            }
            let au_data = slice_of(&corrected_data, offset, end);
            match self.decode_aac_frame(au_data, tone) {
                Ok(frame) => frames.push(frame),
                Err(_) => {
                    // Generate silence frame as concealment
                    let silence = self.generate_silence_frame();
                    frames.push(silence);
                },
            }
            i = i + 1;
        }
        Ok(frames)
    }

    /// Decode a single HE-AAC v2 Access Unit to PCM audio: the next frame
    /// number, carrying the test tone on both channels.
    fn decode_aac_frame<F: Fn(u64, usize) -> i16>(&mut self, au_data: &[u8], tone: &F) -> (r: Result<
        AudioFrame,
        DspError,
    >)
        requires
            forall|n: u64, i: usize| tone.requires((n, i)),
            old(self).frame_counter_view() + 1 <= u64::MAX / 20,
        ensures
            final(self).frame_counter_view() == old(self).frame_counter_view() + 1,
            final(self).is_decoding_view() == old(self).is_decoding_view(),
            final(self).buffer_view() == old(self).buffer_view(),
            final(self).service_id_view() == old(self).service_id_view(),
            final(self).sub_channel_id_view() == old(self).sub_channel_id_view(),
            final(self).rs_stats_view() == old(self).rs_stats_view(),
            r matches Ok(frame) && is_tone_frame(*tone, frame, final(self).frame_counter_view()),
    {
        self.frame_counter = self.frame_counter + 1;
        let n = self.frame_counter;
        let mut pcm_data: Vec<i16> = Vec::with_capacity(FRAME_PCM_LEN);
        for i in 0..SAMPLES_PER_FRAME
            invariant
                forall|m: u64, j: usize| tone.requires((m, j)),
                pcm_data@.len() == 2 * i,
                forall|q: int|
                    0 <= q < i ==> {
                        &&& #[trigger] pcm_data@[2 * q] == pcm_data@[2 * q + 1]
                        &&& call_ensures(*tone, (n, q as usize), pcm_data@[2 * q])
                    },
        {
            let pcm = tone(n, i);
            // Stereo: same sample on both channels
            pcm_data.push(pcm);
            pcm_data.push(pcm);
        }
        Ok(
            AudioFrame {
                pcm_data,
                sample_rate: AUDIO_SAMPLE_RATE,
                channels: AUDIO_CHANNELS,
                timestamp_ms: n * 20,  // 20ms per frame
                frame_number: n,
            },
        )
    }

    /// Apply Reed-Solomon error correction to super frame data: the data is
    /// passed through unchanged and the statistics stay as they are.
    fn apply_reed_solomon(&mut self, data: &[u8]) -> (r: Result<Vec<u8>, DspError>)
        ensures
            r matches Ok(c) && c@ == data@,
            *final(self) == *old(self),
    {
        self.rs_errors_corrected = self.rs_errors_corrected + 0;
        Ok(vstd::slice::slice_to_vec(data))
    }

    /// Generate a silence frame for error concealment: the next frame
    /// number, all samples zero.
    pub fn generate_silence_frame(&mut self) -> (frame: AudioFrame)
        requires
            old(self).frame_counter_view() + 1 <= u64::MAX / 20,
        ensures
            final(self).frame_counter_view() == old(self).frame_counter_view() + 1,
            final(self).is_decoding_view() == old(self).is_decoding_view(),
            final(self).buffer_view() == old(self).buffer_view(),
            final(self).service_id_view() == old(self).service_id_view(),
            final(self).sub_channel_id_view() == old(self).sub_channel_id_view(),
            final(self).rs_stats_view() == old(self).rs_stats_view(),
            is_silence_frame(frame, final(self).frame_counter_view()),
    {
        self.frame_counter = self.frame_counter + 1;
        let pcm_data: Vec<i16> = vec![0i16; FRAME_PCM_LEN];
        let frame = AudioFrame {
            pcm_data,
            sample_rate: AUDIO_SAMPLE_RATE,
            channels: AUDIO_CHANNELS,
            timestamp_ms: self.frame_counter * 20,
            frame_number: self.frame_counter,
        };
        assert(frame.pcm_data@ =~= Seq::new(FRAME_PCM_LEN as nat, |i: int| 0i16));
        frame
    }

    pub fn is_decoding(&self) -> (b: bool)
        ensures
            b == self.is_decoding_view(),
    {
        self.is_decoding
    }

    pub fn frame_count(&self) -> (n: u64)
        ensures
            n == self.frame_counter_view(),
    {
        self.frame_counter
    }

    pub fn rs_stats(&self) -> (stats: (u64, u64))
        ensures
            stats == self.rs_stats_view(),
    {
        (self.rs_errors_corrected, self.rs_errors_uncorrectable)
    }
}


/// The number of access units in a super frame is fixed by the DAC-rate
/// and SBR flags, bits 6 and 5 of its first byte: four, less one for each
/// flag set. The second header byte never changes it.
pub proof fn lemma_access_units_from_flags(b0: u8, b1: u8)
    ensures
        access_unit_count(superframe_header(b0, b1)) == 4 - ((b0 >> 6u8) & 1u8) - ((b0 >> 5u8) & 1u8),
{
    let h = superframe_header(b0, b1);
    assert(((h >> 14u16) & 1u16 == 1u16 <==> (b0 >> 6u8) & 1u8 == 1u8) && ((h >> 13u16) & 1u16
        == 1u16 <==> (b0 >> 5u8) & 1u8 == 1u8) && (b0 >> 6u8) & 1u8 <= 1u8 && (b0 >> 5u8) & 1u8
        <= 1u8) by (bit_vector)
        requires
            h == ((b0 as u16) << 8u16) | (b1 as u16),
    ;
}

} // verus!
