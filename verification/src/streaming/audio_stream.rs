use vstd::prelude::*;

use crate::dsp::decoder::AudioFrame;

verus! {

/// A bounded frame queue: both ends of one `crossbeam_channel` channel,
/// owned together, so that nothing but this value sends into or receives
/// from it. (The channel's two handles share one queue; a contract can
/// only follow that queue where one value holds both.)
#[verifier::external_body]
pub struct FrameChannel {
    tx: crossbeam_channel::Sender<AudioFrame>,
    rx: crossbeam_channel::Receiver<AudioFrame>,
}

/// The frames waiting in the channel, oldest first.
pub uninterp spec fn frames_queued(c: FrameChannel) -> Seq<AudioFrame>;

/// How many frames the channel holds at most (the bound it was made with).
pub uninterp spec fn frames_capacity(c: FrameChannel) -> nat;

impl FrameChannel {
    /// Calls `crossbeam_channel::bounded(cap)` and keeps both ends. Claims:
    /// a fresh channel is empty and holds at most `cap` frames. (`cap` 0
    /// makes a rendezvous channel and a huge `cap` panics: both are left
    /// out.)
    #[verifier::external_body]
    pub(crate) fn bounded(cap: usize) -> (c: FrameChannel)
        requires
            0 < cap < 65536,
        ensures
            frames_queued(c) == Seq::<AudioFrame>::empty(),
            frames_capacity(c) == cap,
    {
        let (tx, rx) = crossbeam_channel::bounded(cap);
        FrameChannel { tx, rx }
    }

    /// Calls `Sender::try_send`. Claims: with room in the channel the frame
    /// is queued at the back and `Ok` comes back; a full channel is left as
    /// it was and the frame comes back in `Err`. (The channel cannot be
    /// disconnected, since this value holds the receiver.)
    #[verifier::external_body]
    pub(crate) fn try_send(&mut self, frame: AudioFrame) -> (r: Result<(), AudioFrame>)
        ensures
            frames_capacity(*final(self)) == frames_capacity(*old(self)),
            r is Ok == (frames_queued(*old(self)).len() < frames_capacity(*old(self))),
            r is Ok ==> frames_queued(*final(self)) == frames_queued(*old(self)).push(frame),
            r matches Err(f) ==> f == frame && frames_queued(*final(self)) == frames_queued(*old(self)),
    {
        match self.tx.try_send(frame) {
            Ok(()) => Ok(()),
            Err(crossbeam_channel::TrySendError::Full(f)) => Err(f),
            Err(crossbeam_channel::TrySendError::Disconnected(f)) => Err(f),
        }
    }

    /// Calls `Receiver::try_recv`. Claims: the oldest frame leaves the
    /// channel and comes back; an empty channel gives `None`.
    #[verifier::external_body]
    pub(crate) fn try_recv(&mut self) -> (r: Option<AudioFrame>)
        ensures
            frames_capacity(*final(self)) == frames_capacity(*old(self)),
            frames_queued(*old(self)).len() > 0 ==> r == Some(frames_queued(*old(self))[0])
                && frames_queued(*final(self)) == frames_queued(*old(self)).drop_first(),
            frames_queued(*old(self)).len() == 0 ==> r is None && frames_queued(*final(self))
                == frames_queued(*old(self)),
    {
        self.rx.try_recv().ok()
    }

    /// Calls `Receiver::recv_timeout`. Claims: the oldest frame leaves the
    /// channel and comes back; on an empty channel the call waits out the
    /// timeout (nothing else can send into it) and gives `None`.
    #[verifier::external_body]
    pub(crate) fn recv_timeout(&mut self, timeout_ms: u64) -> (r: Option<AudioFrame>)
        ensures
            frames_capacity(*final(self)) == frames_capacity(*old(self)),
            frames_queued(*old(self)).len() > 0 ==> r == Some(frames_queued(*old(self))[0])
                && frames_queued(*final(self)) == frames_queued(*old(self)).drop_first(),
            frames_queued(*old(self)).len() == 0 ==> r is None && frames_queued(*final(self))
                == frames_queued(*old(self)),
    {
        self.rx.recv_timeout(std::time::Duration::from_millis(timeout_ms)).ok()
    }
}

/// Frames buffered for listeners: up to 50 (one second at 20 ms a frame).
pub const FRAME_BUFFER_CAPACITY: usize = 50;

/// A counter after one more event (wrapping, as an atomic `fetch_add` does).
pub open spec fn bumped(c: u64) -> u64 {
    if c == u64::MAX {
        0
    } else {
        (c + 1) as u64
    }
}

fn bump(c: u64) -> (r: u64)
    ensures
        r == bumped(c),
{
    if c == u64::MAX {
        0
    } else {
        c + 1
    }
}

/// Audio stream manager - handles real-time audio delivery
pub struct AudioStreamManager {
    /// Channel for sending audio frames to consumers
    frames: FrameChannel,
    /// Current stream state
    is_active: bool,
    /// Stream statistics
    frames_delivered: u64,
    buffer_underruns: u64,
}

impl AudioStreamManager {
    /// The buffered frames, oldest first.
    pub closed spec fn frames_view(&self) -> Seq<AudioFrame> {
        frames_queued(self.frames)
    }

    /// The statistics as `stats` reports them.
    pub closed spec fn stats_view(&self) -> StreamStats {
        StreamStats {
            is_active: self.is_active,
            frames_delivered: self.frames_delivered,
            buffer_underruns: self.buffer_underruns,
        }
    }

    /// The buffer is bounded by `FRAME_BUFFER_CAPACITY` frames.
    pub closed spec fn wf(&self) -> bool {
        frames_capacity(self.frames) == FRAME_BUFFER_CAPACITY && frames_queued(self.frames).len()
            <= FRAME_BUFFER_CAPACITY
    }

    pub fn new() -> (m: Self)
        ensures
            m.wf(),
            m.frames_view() == Seq::<AudioFrame>::empty(),
            m.stats_view() == (StreamStats { is_active: false, frames_delivered: 0, buffer_underruns: 0 }),
    {
        Self {
            frames: FrameChannel::bounded(FRAME_BUFFER_CAPACITY),
            is_active: false,
            frames_delivered: 0,
            buffer_underruns: 0,
        }
    }

    /// Start the audio stream
    pub fn start(&mut self)
        requires
            old(self).wf(),
        ensures
            final(self).wf(),
            final(self).frames_view() == old(self).frames_view(),
            final(self).stats_view() == (StreamStats { is_active: true, ..old(self).stats_view() }),
    {
        self.is_active = true;
    }

    /// Stop the audio stream, dropping the buffered frames.
    pub fn stop(&mut self)
        requires
            old(self).wf(),
        ensures
            final(self).wf(),
            final(self).frames_view() == Seq::<AudioFrame>::empty(),
            final(self).stats_view() == (StreamStats { is_active: false, ..old(self).stats_view() }),
    {
        self.is_active = false;
        // Drain remaining frames
        loop
            invariant
                frames_capacity(self.frames) == FRAME_BUFFER_CAPACITY,
                frames_queued(self.frames).len() <= FRAME_BUFFER_CAPACITY,
                self.is_active == false,
                self.frames_delivered == old(self).frames_delivered,
                self.buffer_underruns == old(self).buffer_underruns,
            ensures
                frames_capacity(self.frames) == FRAME_BUFFER_CAPACITY,
                frames_queued(self.frames) == Seq::<AudioFrame>::empty(),
                self.is_active == false,
                self.frames_delivered == old(self).frames_delivered,
                self.buffer_underruns == old(self).buffer_underruns,
            decreases frames_queued(self.frames).len(),
        {
            match self.frames.try_recv() {
                Some(_) => {},
                None => {
                    assert(frames_queued(self.frames) =~= Seq::<AudioFrame>::empty());
                    break;
                },
            }
        }
    }

    /// Push a decoded audio frame into the stream. While stopped the frame
    /// is ignored. A full buffer drops its oldest frame to make room, queues
    /// this one and counts an underrun; else the frame is queued and counted
    /// as delivered.
    pub fn push_frame(&mut self, frame: AudioFrame)
        requires
            old(self).wf(),
        ensures
            final(self).wf(),
            !old(self).stats_view().is_active ==> final(self).frames_view() == old(self).frames_view()
                && final(self).stats_view() == old(self).stats_view(),
            old(self).stats_view().is_active && old(self).frames_view().len() < FRAME_BUFFER_CAPACITY
                ==> final(self).frames_view() == old(self).frames_view().push(frame)
                && final(self).stats_view() == (StreamStats {
                frames_delivered: bumped(old(self).stats_view().frames_delivered),
                ..old(self).stats_view()
            }),
            old(self).stats_view().is_active && old(self).frames_view().len() == FRAME_BUFFER_CAPACITY
                ==> final(self).frames_view() == old(self).frames_view().drop_first().push(frame)
                && final(self).stats_view() == (StreamStats {
                buffer_underruns: bumped(old(self).stats_view().buffer_underruns),
                ..old(self).stats_view()
            }),
    {
        if !self.is_active {
            return ;
        }
        match self.frames.try_send(frame) {
            Ok(()) => {
                self.frames_delivered = bump(self.frames_delivered);
            },
            Err(frame) => {
                // Drop oldest frame to make room
                let _ = self.frames.try_recv();
                let sent = self.frames.try_send(frame);
                assert(sent is Ok);
                self.buffer_underruns = bump(self.buffer_underruns);
            },
        }
    }

    /// Get the next audio frame: the oldest buffered one, or `None` once
    /// `timeout_ms` milliseconds pass with the buffer empty.
    pub fn next_frame(&mut self, timeout_ms: u64) -> (r: Option<AudioFrame>)
        requires
            old(self).wf(),
        ensures
            final(self).wf(),
            final(self).stats_view() == old(self).stats_view(),
            old(self).frames_view().len() > 0 ==> r == Some(old(self).frames_view()[0])
                && final(self).frames_view() == old(self).frames_view().drop_first(),
            old(self).frames_view().len() == 0 ==> r is None && final(self).frames_view()
                == old(self).frames_view(),
    {
        self.frames.recv_timeout(timeout_ms)
    }

    /// Get stream statistics
    pub fn stats(&self) -> (s: StreamStats)
        ensures
            s == self.stats_view(),
    {
        StreamStats {
            is_active: self.is_active,
            frames_delivered: self.frames_delivered,
            buffer_underruns: self.buffer_underruns,
        }
    }
}

/// Stream statistics
#[derive(Debug, Clone, Copy, PartialEq, Eq)]
pub struct StreamStats {
    pub is_active: bool,
    pub frames_delivered: u64,
    pub buffer_underruns: u64,
}

/// A 16-bit value as two little-endian bytes.
pub open spec fn le_u16_bytes(x: u16) -> Seq<u8> {
    seq![(x & 0xFFu16) as u8, (x >> 8u16) as u8]
}

/// A 32-bit value as four little-endian bytes.
pub open spec fn le_u32_bytes(x: u32) -> Seq<u8> {
    seq![(x & 0xFFu32) as u8, ((x >> 8u32) & 0xFFu32) as u8, ((x >> 16u32) & 0xFFu32) as u8, (x >> 24u32) as u8]
}

/// The 44-byte header of a streaming PCM WAV file: RIFF and data chunk
/// sizes unknown (0xFFFFFFFF), a 16-byte `fmt ` chunk for PCM (format 1).
pub open spec fn wav_header_spec(sample_rate: u32, channels: u16, bits_per_sample: u16) -> Seq<u8> {
    let byte_rate = (sample_rate * channels * bits_per_sample / 8) as u32;
    let block_align = (channels * bits_per_sample / 8) as u16;
    seq![0x52u8, 0x49u8, 0x46u8, 0x46u8]  // "RIFF"
     + le_u32_bytes(0xFFFFFFFFu32) + seq![0x57u8, 0x41u8, 0x56u8, 0x45u8]  // "WAVE"
     + seq![0x66u8, 0x6Du8, 0x74u8, 0x20u8]  // "fmt "
     + le_u32_bytes(16u32) + le_u16_bytes(1u16) + le_u16_bytes(channels) + le_u32_bytes(sample_rate)
        + le_u32_bytes(byte_rate) + le_u16_bytes(block_align) + le_u16_bytes(bits_per_sample)
        + seq![0x64u8, 0x61u8, 0x74u8, 0x61u8]  // "data"
     + le_u32_bytes(0xFFFFFFFFu32)
}

fn push_le_u16(out: &mut Vec<u8>, x: u16)
    ensures
        final(out)@ == old(out)@ + le_u16_bytes(x),
{
    out.push((x & 0xFF) as u8);
    out.push((x >> 8) as u8);
    assert(out@ =~= old(out)@ + le_u16_bytes(x));
}

fn push_le_u32(out: &mut Vec<u8>, x: u32)
    ensures
        final(out)@ == old(out)@ + le_u32_bytes(x),
{
    out.push((x & 0xFF) as u8);
    out.push(((x >> 8) & 0xFF) as u8);
    out.push(((x >> 16) & 0xFF) as u8);
    out.push((x >> 24) as u8);
    assert(out@ =~= old(out)@ + le_u32_bytes(x));
}

fn push_tag(out: &mut Vec<u8>, a: u8, b: u8, c: u8, d: u8)
    ensures
        final(out)@ == old(out)@ + seq![a, b, c, d],
{
    out.push(a);
    out.push(b);
    out.push(c);
    out.push(d);
    assert(out@ =~= old(out)@ + seq![a, b, c, d]);
}

/// Convert audio frames to WAV format for HTTP streaming: the header that
/// precedes the PCM data.
pub fn frames_to_wav_header(sample_rate: u32, channels: u16, bits_per_sample: u16) -> (header: Vec<u8>)
    requires
        sample_rate * channels <= u32::MAX,
        sample_rate * channels * bits_per_sample <= u32::MAX,
        channels * bits_per_sample <= u16::MAX,
    ensures
        header@ == wav_header_spec(sample_rate, channels, bits_per_sample),
        header@.len() == 44,
{
    let byte_rate = sample_rate * channels as u32 * bits_per_sample as u32 / 8;
    let block_align = channels * bits_per_sample / 8;
    let mut header: Vec<u8> = Vec::with_capacity(44);

    // RIFF header
    push_tag(&mut header, 0x52, 0x49, 0x46, 0x46);  // "RIFF"
    push_le_u32(&mut header, 0xFFFFFFFF);  // Streaming: unknown size
    push_tag(&mut header, 0x57, 0x41, 0x56, 0x45);  // "WAVE"

    // fmt chunk
    push_tag(&mut header, 0x66, 0x6D, 0x74, 0x20);  // "fmt "
    push_le_u32(&mut header, 16);  // Chunk size
    push_le_u16(&mut header, 1);  // PCM format
    push_le_u16(&mut header, channels);
    push_le_u32(&mut header, sample_rate);
    push_le_u32(&mut header, byte_rate);
    push_le_u16(&mut header, block_align);
    push_le_u16(&mut header, bits_per_sample);

    // data chunk
    push_tag(&mut header, 0x64, 0x61, 0x74, 0x61);  // "data"
    push_le_u32(&mut header, 0xFFFFFFFF);  // Streaming: unknown size
    assert(header@ =~= wav_header_spec(sample_rate, channels, bits_per_sample));
    header
}

} // verus!
