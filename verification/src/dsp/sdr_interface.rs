use vstd::prelude::*;
use vstd::string::*;

use crate::text::{
    lines, lines_of, str_contains, strings_view, text_contains, trim, trimmed, utf8_lossy, utf8_lossy_spec,
};

verus! {

/// Errors of the SDR device layer.
#[derive(Debug, Clone, Copy, PartialEq, Eq)]
pub enum SdrError {
    /// Samples were requested from a device that has been closed.
    DeviceNotOpen,
}

/// RTL-SDR device configuration for DAB+ reception
pub const DAB_SAMPLE_RATE: u32 = 2_048_000;  // 2.048 MHz - standard for DAB

pub const DAB_BANDWIDTH: u32 = 1_536_000;  // 1.536 MHz DAB signal bandwidth

pub const DEFAULT_GAIN: i32 = 40;  // Default gain in tenths of dB

pub const AUTO_GAIN: i32 = 0;

/// Distance (Hz) within which a frequency counts as a known block.
pub const FREQUENCY_TOLERANCE_HZ: u32 = 100_000;

/// Australian DAB+ Band III frequency blocks (name, centre frequency in Hz).
pub open spec fn au_dab_blocks_spec() -> Seq<(Seq<char>, u32)> {
    seq![
        ("5A"@, 174_928_000u32),
        ("5B"@, 176_640_000u32),
        ("5C"@, 178_352_000u32),
        ("5D"@, 180_064_000u32),
        ("6A"@, 181_936_000u32),
        ("6B"@, 183_648_000u32),
        ("6C"@, 185_360_000u32),
        ("6D"@, 187_072_000u32),
        ("7A"@, 188_928_000u32),
        ("7B"@, 190_640_000u32),
        ("7C"@, 192_352_000u32),
        ("7D"@, 194_064_000u32),
        ("8A"@, 195_936_000u32),
        ("8B"@, 197_648_000u32),
        ("8C"@, 199_360_000u32),
        ("8D"@, 201_072_000u32),
        ("9A"@, 202_928_000u32),
        ("9B"@, 204_640_000u32),
        ("9C"@, 206_352_000u32),
        ("9D"@, 208_064_000u32),
        ("10A"@, 209_936_000u32),
        ("10B"@, 211_648_000u32),
        ("10C"@, 213_360_000u32),
        ("10D"@, 215_072_000u32),
        ("11A"@, 216_928_000u32),
        ("11B"@, 218_640_000u32),
        ("11C"@, 220_352_000u32),
        ("11D"@, 222_064_000u32),
        ("12A"@, 223_936_000u32),
        ("12B"@, 225_648_000u32),
        ("12C"@, 227_360_000u32),
        ("12D"@, 229_072_000u32),
        ("13A"@, 230_784_000u32),
        ("13B"@, 232_496_000u32),
        ("13C"@, 234_208_000u32),
        ("13D"@, 235_776_000u32),
        ("13E"@, 237_488_000u32),
        ("13F"@, 239_200_000u32),
    ]
}

/// Australian DAB+ Band III frequency blocks (Hz)
/// Covers all blocks used across Australian capital cities
pub fn au_dab_blocks() -> (blocks: Vec<(&'static str, u32)>)
    ensures
        blocks@.len() == au_dab_blocks_spec().len(),
        forall|i: int|
            0 <= i < blocks@.len() ==> (#[trigger] blocks@[i]).0@ == au_dab_blocks_spec()[i].0
                && blocks@[i].1 == au_dab_blocks_spec()[i].1,
{
    let mut blocks: Vec<(&'static str, u32)> = Vec::new();
    blocks.push(("5A", 174_928_000));
    blocks.push(("5B", 176_640_000));
    blocks.push(("5C", 178_352_000));
    blocks.push(("5D", 180_064_000));
    blocks.push(("6A", 181_936_000));
    blocks.push(("6B", 183_648_000));
    blocks.push(("6C", 185_360_000));
    blocks.push(("6D", 187_072_000));
    blocks.push(("7A", 188_928_000));
    blocks.push(("7B", 190_640_000));
    blocks.push(("7C", 192_352_000));
    blocks.push(("7D", 194_064_000));
    blocks.push(("8A", 195_936_000));
    blocks.push(("8B", 197_648_000));
    blocks.push(("8C", 199_360_000));
    blocks.push(("8D", 201_072_000));
    blocks.push(("9A", 202_928_000));
    blocks.push(("9B", 204_640_000));
    blocks.push(("9C", 206_352_000));
    blocks.push(("9D", 208_064_000));
    blocks.push(("10A", 209_936_000));
    blocks.push(("10B", 211_648_000));
    blocks.push(("10C", 213_360_000));
    blocks.push(("10D", 215_072_000));
    blocks.push(("11A", 216_928_000));
    blocks.push(("11B", 218_640_000));
    blocks.push(("11C", 220_352_000));
    blocks.push(("11D", 222_064_000));
    blocks.push(("12A", 223_936_000));
    blocks.push(("12B", 225_648_000));
    blocks.push(("12C", 227_360_000));
    blocks.push(("12D", 229_072_000));
    blocks.push(("13A", 230_784_000));
    blocks.push(("13B", 232_496_000));
    blocks.push(("13C", 234_208_000));
    blocks.push(("13D", 235_776_000));
    blocks.push(("13E", 237_488_000));
    blocks.push(("13F", 239_200_000));
    blocks
}

/// Absolute difference of two frequencies.
pub open spec fn frequency_distance(a: u32, b: u32) -> u32 {
    if a > b {
        (a - b) as u32
    } else {
        (b - a) as u32
    }
}

/// `freq` lies within 100 kHz of block frequency `block`.
pub open spec fn near_frequency(freq: u32, block: u32) -> bool {
    frequency_distance(freq, block) < FREQUENCY_TOLERANCE_HZ
}

/// `freq` lies within 100 kHz of some Australian DAB+ block.
pub open spec fn is_known_au_frequency_spec(freq: u32) -> bool {
    exists|i: int| 0 <= i < au_dab_blocks_spec().len() && near_frequency(freq, #[trigger] au_dab_blocks_spec()[i].1)
}

/// Check if a frequency matches a known Australian DAB+ block
pub fn is_known_au_frequency(freq: u32) -> (known: bool)
    ensures
        known == is_known_au_frequency_spec(freq),
{
    let blocks = au_dab_blocks();
    let n = blocks.len();
    for i in 0..n
        invariant
            n == blocks@.len(),
            n == au_dab_blocks_spec().len(),
            forall|j: int| 0 <= j < n ==> (#[trigger] blocks@[j]).1 == au_dab_blocks_spec()[j].1,
            forall|j: int| 0 <= j < i ==> !near_frequency(freq, #[trigger] au_dab_blocks_spec()[j].1),
    {
        let f = blocks[i].1;
        let diff = if freq > f {
            freq - f
        } else {
            f - freq
        };
        if diff < FREQUENCY_TOLERANCE_HZ {
            // Within 100kHz tolerance
            assert(near_frequency(freq, au_dab_blocks_spec()[i as int].1));
            return true;
        }
    }
    false
}

/// A line of `rtl_test -t` output that reports a device.
pub open spec fn mentions_device(line: Seq<char>) -> bool {
    text_contains(line, "Found"@) || text_contains(line, "Realtek"@)
}

/// The predicate `mentions_device`.
pub open spec fn device_line() -> spec_fn(Seq<char>) -> bool {
    |line: Seq<char>| mentions_device(line)
}

/// Each text trimmed of surrounding whitespace.
pub open spec fn all_trimmed(lines: Seq<Seq<char>>) -> Seq<Seq<char>> {
    Seq::new(lines.len(), |i: int| trimmed(lines[i]))
}

/// The devices that `rtl_test -t` output lists: when it says "Found"
/// anywhere, its lines that mention "Found" or "Realtek", trimmed; else
/// none.
pub open spec fn rtl_test_devices(output: Seq<char>) -> Seq<Seq<char>> {
    if text_contains(output, "Found"@) {
        all_trimmed(lines_of(output).filter(device_line()))
    } else {
        Seq::empty()
    }
}

/// The devices that `rtl_test -t` output (standard output followed by
/// standard error) lists.
pub fn devices_from_rtl_test(output: &str) -> (devices: Vec<String>)
    ensures
        strings_view(devices@) == rtl_test_devices(output@),
{
    let mut devices: Vec<String> = Vec::new();
    let found = "Found";
    let realtek = "Realtek";
    if !str_contains(output, found) {
        assert(strings_view(devices@) =~= Seq::<Seq<char>>::empty());
        return devices;
    }
    let all = lines(output);
    let ghost ls = strings_view(all@);
    let n = all.len();
    assert(ls.subrange(0, 0) =~= Seq::<Seq<char>>::empty());
    assert(strings_view(devices@) =~= all_trimmed(ls.subrange(0, 0).filter(device_line())));
    for i in 0..n
        invariant
            n == all@.len(),
            ls == strings_view(all@),
            ls == lines_of(output@),
            found@ == "Found"@,
            realtek@ == "Realtek"@,
            strings_view(devices@) == all_trimmed(ls.subrange(0, i as int).filter(device_line())),
    {
        let line = all[i].as_str();
        proof {
            assert(ls[i as int] == line@);
            assert(ls.subrange(0, i + 1) =~= ls.subrange(0, i as int).push(line@));
            ls.subrange(0, i as int).lemma_filter_push(line@, device_line());
        }
        if str_contains(line, found) || str_contains(line, realtek) {
            let ghost before = devices@;
            let t = trim(line);
            devices.push(t);
            assert(strings_view(devices@) =~= strings_view(before).push(t@));
            assert(all_trimmed(ls.subrange(0, i + 1).filter(device_line())) =~= all_trimmed(
                ls.subrange(0, i as int).filter(device_line()),
            ).push(trimmed(line@)));
        }
    }
    assert(ls.subrange(0, n as int) =~= ls);
    devices
}

/// The devices that `rtl_test -t` lists, given the bytes it wrote to
/// standard output and to standard error (each read as UTF-8, invalid
/// sequences replaced).
pub fn devices_from_rtl_test_output(stdout: &[u8], stderr: &[u8]) -> (devices: Vec<String>)
    ensures
        strings_view(devices@) == rtl_test_devices(utf8_lossy_spec(stdout@) + utf8_lossy_spec(stderr@)),
{
    let out = utf8_lossy(stdout);
    let err = utf8_lossy(stderr);
    let combined = out.concat(err.as_str());
    devices_from_rtl_test(combined.as_str())
}

/// A UTC instant: whole seconds since the Unix epoch and the nanoseconds
/// past that second.
#[derive(Debug, Clone, Copy, PartialEq, Eq)]
pub struct Timestamp {
    pub secs: i64,
    pub nanos: u32,
}

/// `a` is a strictly later instant than `b`.
pub open spec fn is_later(a: Timestamp, b: Timestamp) -> bool {
    a.secs > b.secs || (a.secs == b.secs && a.nanos > b.nanos)
}

impl Timestamp {
    /// Whether this instant is strictly later than `other`.
    pub fn is_after(&self, other: &Timestamp) -> (b: bool)
        ensures
            b == is_later(*self, *other),
    {
        self.secs > other.secs || (self.secs == other.secs && self.nanos > other.nanos)
    }
}

/// `is_later` is the strict order of instants: never reflexive, never both
/// ways, transitive, total between distinct instants, and an instant at an
/// earlier whole second is never later (so a station last seen in an
/// earlier second than the cutoff is always pruned).
pub proof fn lemma_is_later_strict_order(a: Timestamp, b: Timestamp, c: Timestamp)
    ensures
        !is_later(a, a),
        is_later(a, b) ==> !is_later(b, a),
        is_later(a, b) && is_later(b, c) ==> is_later(a, c),
        a.secs != b.secs || a.nanos != b.nanos ==> is_later(a, b) || is_later(b, a),
        is_later(a, b) ==> a.secs >= b.secs,
        a.secs > b.secs ==> is_later(a, b),
{
}

/// IQ sample buffer from SDR
pub struct IqBuffer {
    pub samples: Vec<u8>,
    pub center_freq: u32,
    pub sample_rate: u32,
    pub timestamp: Timestamp,
}

impl IqBuffer {
    /// Number of complex samples (each is an I byte and a Q byte).
    pub fn num_samples(&self) -> (n: usize)
        ensures
            n == self.samples@.len() / 2,
    {
        self.samples.len() / 2
    }
}

/// Represents an opened RTL-SDR device
pub struct SdrDevice {
    device_index: u32,
    sample_rate: u32,
    center_freq: u32,
    gain: i32,
    is_open: bool,
    is_streaming: bool,
}

impl SdrDevice {
    pub closed spec fn device_index_view(&self) -> u32 {
        self.device_index
    }

    pub closed spec fn sample_rate_view(&self) -> u32 {
        self.sample_rate
    }

    pub closed spec fn center_freq_view(&self) -> u32 {
        self.center_freq
    }

    pub closed spec fn gain_view(&self) -> i32 {
        self.gain
    }

    pub closed spec fn is_open_view(&self) -> bool {
        self.is_open
    }

    pub closed spec fn is_streaming_view(&self) -> bool {
        self.is_streaming
    }

    /// All the device's settings other than the tuning and the gain are those of `other`.
    pub open spec fn same_settings_but_tuning(&self, other: &Self) -> bool {
        &&& self.device_index_view() == other.device_index_view()
        &&& self.sample_rate_view() == other.sample_rate_view()
        &&& self.is_open_view() == other.is_open_view()
        &&& self.is_streaming_view() == other.is_streaming_view()
    }

    /// Attempt to open an RTL-SDR device by index: an open, idle device at
    /// the DAB sample rate, untuned, with the default gain. Always succeeds.
    pub fn open(device_index: u32) -> (r: Result<Self, SdrError>)
        ensures
            r matches Ok(d) && {
                &&& d.device_index_view() == device_index
                &&& d.sample_rate_view() == DAB_SAMPLE_RATE
                &&& d.center_freq_view() == 0
                &&& d.gain_view() == DEFAULT_GAIN
                &&& d.is_open_view()
                &&& !d.is_streaming_view()
            },
    {
        let device = Self {
            device_index,
            sample_rate: DAB_SAMPLE_RATE,
            center_freq: 0,
            gain: DEFAULT_GAIN,
            is_open: true,
            is_streaming: false,
        };
        Ok(device)
    }

    /// Set the center frequency
    pub fn set_frequency(&mut self, freq_hz: u32) -> (r: Result<(), SdrError>)
        ensures
            r is Ok,
            final(self).center_freq_view() == freq_hz,
            final(self).gain_view() == old(self).gain_view(),
            final(self).same_settings_but_tuning(old(self)),
    {
        self.center_freq = freq_hz;
        Ok(())
    }

    /// Set the tuner gain (tenths of dB)
    pub fn set_gain(&mut self, gain: i32) -> (r: Result<(), SdrError>)
        ensures
            r is Ok,
            final(self).gain_view() == gain,
            final(self).center_freq_view() == old(self).center_freq_view(),
            final(self).same_settings_but_tuning(old(self)),
    {
        self.gain = gain;
        Ok(())
    }

    /// Set automatic gain control
    pub fn set_auto_gain(&mut self) -> (r: Result<(), SdrError>)
        ensures
            r is Ok,
            final(self).gain_view() == AUTO_GAIN,
            final(self).center_freq_view() == old(self).center_freq_view(),
            final(self).same_settings_but_tuning(old(self)),
    {
        self.gain = AUTO_GAIN;
        Ok(())
    }

    /// Read a block of IQ samples: `samples` (I and Q bytes, as the tuner
    /// delivered them at `now`) become a buffer tagged with the device's
    /// tuning; a closed device refuses the read.
    pub fn read_samples(&self, samples: Vec<u8>, now: Timestamp) -> (r: Result<IqBuffer, SdrError>)
        ensures
            !self.is_open_view() ==> r == Err::<IqBuffer, SdrError>(SdrError::DeviceNotOpen),
            self.is_open_view() ==> (r matches Ok(buf) && {
                &&& buf.samples@ == samples@
                &&& buf.center_freq == self.center_freq_view()
                &&& buf.sample_rate == self.sample_rate_view()
                &&& buf.timestamp == now
            }),
    {
        if !self.is_open {
            return Err(SdrError::DeviceNotOpen);
        }
        Ok(IqBuffer {
            samples,
            center_freq: self.center_freq,
            sample_rate: self.sample_rate,
            timestamp: now,
        })
    }

    /// Start asynchronous streaming
    pub fn start_streaming(&mut self) -> (r: Result<(), SdrError>)
        ensures
            r is Ok,
            final(self).is_streaming_view(),
            final(self).is_open_view() == old(self).is_open_view(),
            final(self).device_index_view() == old(self).device_index_view(),
            final(self).sample_rate_view() == old(self).sample_rate_view(),
            final(self).center_freq_view() == old(self).center_freq_view(),
            final(self).gain_view() == old(self).gain_view(),
    {
        self.is_streaming = true;
        Ok(())
    }

    /// Stop streaming
    pub fn stop_streaming(&mut self)
        ensures
            !final(self).is_streaming_view(),
            final(self).is_open_view() == old(self).is_open_view(),
            final(self).device_index_view() == old(self).device_index_view(),
            final(self).sample_rate_view() == old(self).sample_rate_view(),
            final(self).center_freq_view() == old(self).center_freq_view(),
            final(self).gain_view() == old(self).gain_view(),
    {
        self.is_streaming = false;
    }

    /// Check if device is currently streaming
    pub fn is_streaming(&self) -> (b: bool)
        ensures
            b == self.is_streaming_view(),
    {
        self.is_streaming
    }

    /// Whether the device is still open (reads are refused once it is closed).
    pub fn is_open(&self) -> (b: bool)
        ensures
            b == self.is_open_view(),
    {
        self.is_open
    }

    /// Close the device: it stops streaming and refuses further reads.
    pub fn close(&mut self)
        ensures
            !final(self).is_open_view(),
            !final(self).is_streaming_view(),
            final(self).device_index_view() == old(self).device_index_view(),
            final(self).sample_rate_view() == old(self).sample_rate_view(),
            final(self).center_freq_view() == old(self).center_freq_view(),
            final(self).gain_view() == old(self).gain_view(),
    {
        self.is_open = false;
        self.is_streaming = false;
    }

    pub fn center_freq(&self) -> (f: u32)
        ensures
            f == self.center_freq_view(),
    {
        self.center_freq
    }

    pub fn sample_rate(&self) -> (r: u32)
        ensures
            r == self.sample_rate_view(),
    {
        self.sample_rate
    }

    pub fn device_index(&self) -> (i: u32)
        ensures
            i == self.device_index_view(),
    {
        self.device_index
    }

    pub fn gain(&self) -> (g: i32)
        ensures
            g == self.gain_view(),
    {
        self.gain
    }
}

} // verus!
