//! Little-endian 16-bit PCM: samples, playback buffering and device formats.

use crate::bytes::{le16, le16_bytes, push_u16, read_u16};
use crate::text::{concat2, concat5, decimal, decimal_text};
use std::collections::VecDeque;
use vstd::arithmetic::div_mod::{lemma_fundamental_div_mod, lemma_mod_multiples_basic};
use vstd::prelude::*;

verus! {

pub const DEFAULT_BUFFER_DURATION_MILLISECONDS: usize = 500;

pub const PCM_CHANNELS: u16 = 2;

pub const PCM_SAMPLE_RATE: u32 = 44100;

pub const PCM_BITS_PER_SAMPLE: u16 = 16;

/// The sample that two bytes write.
pub open spec fn sample_at(bytes: Seq<u8>, at: int) -> i16 {
    (if le16(bytes, at) < 32768 {
        le16(bytes, at)
    } else {
        le16(bytes, at) - 65536
    }) as i16
}

/// The two bytes of a sample.
pub open spec fn sample_bytes(sample: i16) -> Seq<u8> {
    le16_bytes(if sample >= 0 {
        sample as int
    } else {
        sample + 65536
    })
}

/// Writing a sample and reading it gives it back.
pub proof fn law_sample_round_trip(sample: i16)
    ensures
        sample_at(sample_bytes(sample), 0) == sample,
{
}

fn read_sample(bytes: &[u8], at: usize) -> (r: i16)
    requires
        at + 2 <= bytes.len(),
    ensures
        r == sample_at(bytes@, at as int),
{
    let n: u16 = read_u16(bytes, at);
    if n < 32768 {
        n as i16
    } else {
        (n as i32 - 65536) as i16
    }
}

pub fn push_sample(out: &mut Vec<u8>, sample: i16)
    ensures
        final(out)@ == old(out)@ + sample_bytes(sample),
{
    if sample >= 0 {
        push_u16(out, sample as u16);
    } else {
        push_u16(out, (sample as i32 + 65536) as u16);
    }
}

/// The samples that a buffer writes; a lone byte at the end is left out.
pub open spec fn samples_of(bytes: Seq<u8>) -> Seq<i16> {
    Seq::new((bytes.len() / 2) as nat, |i: int| sample_at(bytes, 2 * i))
}

/// The last `n` elements of a sequence.
pub open spec fn newest<T>(items: Seq<T>, n: nat) -> Seq<T> {
    if items.len() <= n {
        items
    } else {
        items.skip(items.len() - n)
    }
}

/// The bytes of a buffer that make up whole frames.
pub open spec fn whole_frames(bytes: Seq<u8>, channels: nat) -> Seq<u8> {
    bytes.take(bytes.len() - bytes.len() % (channels * 2))
}

/// What a thread that does not wait got of a lock.
#[derive(Clone, Copy, Debug, PartialEq, Eq, Structural)]
pub enum PcmQueueLock {
    Acquired,
    Busy,
}

/// Buffers whole PCM frames and never waits.
pub struct BoundedPcmQueue {
    pub samples: VecDeque<i16>,
    pub capacity_samples: usize,
    pub channels: usize,
}

proof fn lemma_aligned_difference(a: int, b: int, c: int)
    requires
        c > 0,
        a % c == 0,
        b % c == 0,
    ensures
        (a - b) % c == 0,
        (a + b) % c == 0,
{
    let x = a / c;
    let y = b / c;
    lemma_fundamental_div_mod(a, c);
    lemma_fundamental_div_mod(b, c);
    assert(c * x - c * y == (x - y) * c) by (nonlinear_arith);
    assert(c * x + c * y == (x + y) * c) by (nonlinear_arith);
    lemma_mod_multiples_basic(x - y, c);
    lemma_mod_multiples_basic(x + y, c);
}

/// Taking the remainder off leaves a multiple.
proof fn lemma_aligned_down(n: int, c: int)
    requires
        0 <= n,
        c > 0,
    ensures
        0 <= n % c <= n,
        n - n % c == c * (n / c),
        (c * (n / c)) % c == 0,
        0 <= n / c,
{
    lemma_fundamental_div_mod(n, c);
    lemma_mod_multiples_basic(n / c, c);
    assert(c * (n / c) == (n / c) * c) by (nonlinear_arith);
    assert(0 <= n / c) by (nonlinear_arith)
        requires
            0 <= n,
            c > 0,
    ;
    assert(0 <= c * (n / c)) by (nonlinear_arith)
        requires
            0 <= n / c,
            c > 0,
    ;
}

/// Rounding up to a multiple adds less than one of them, and nothing to a multiple.
proof fn lemma_rounded_up(n: int, c: int)
    requires
        0 <= n,
        c > 0,
    ensures
        n <= (n + c - 1) / c * c <= n + c - 1,
        n % c == 0 ==> (n + c - 1) / c * c == n,
{
    let m = n + c - 1;
    lemma_fundamental_div_mod(m, c);
    assert(c * (m / c) == m / c * c) by (nonlinear_arith);
    if n % c == 0 {
        let q = n / c;
        lemma_fundamental_div_mod(n, c);
        assert(m == c * q + (c - 1));
        vstd::arithmetic::div_mod::lemma_fundamental_div_mod_converse(m, c, q, c - 1);
        assert(q * c == c * q) by (nonlinear_arith);
    }
}

impl BoundedPcmQueue {
    /// The capacity splits no frame and is kept.
    pub open spec fn well_formed(self) -> bool {
        &&& 0 < self.channels
        &&& self.channels * 2 <= usize::MAX
        &&& self.capacity_samples % self.channels == 0
        &&& self.capacity_samples * 2 <= usize::MAX
        &&& self.samples@.len() <= self.capacity_samples
    }

    /// Whether what is held splits no frame. Pushes keep it so, and so does a callback that takes
    /// whole frames.
    pub open spec fn holds_whole_frames(self) -> bool {
        self.samples@.len() % (self.channels as nat) == 0
    }

    /// A queue whose capacity does not split a frame.
    pub fn new(capacity_samples: usize, channels: usize) -> (r: Self)
        requires
            capacity_samples * 2 <= usize::MAX,
            channels * 2 <= usize::MAX,
        ensures
            r.well_formed(),
            r.holds_whole_frames(),
            r.samples@.len() == 0,
            r.channels == (if channels == 0 {
                1
            } else {
                channels
            }),
            r.capacity_samples == capacity_samples - capacity_samples % r.channels,
    {
        let channels: usize = if channels == 0 {
            1
        } else {
            channels
        };
        proof {
            lemma_aligned_down(capacity_samples as int, channels as int);
            lemma_aligned_down(0, channels as int);
        }
        let aligned: usize = capacity_samples - capacity_samples % channels;
        BoundedPcmQueue { samples: VecDeque::new(), capacity_samples: aligned, channels }
    }

    /// Appends whole frames; where there are too many the oldest frames go. Nothing happens while
    /// the lock is held elsewhere.
    pub fn push_pcm(&mut self, lock: PcmQueueLock, bytes: &[u8])
        requires
            old(self).well_formed(),
        ensures
            final(self).well_formed(),
            final(self).capacity_samples == old(self).capacity_samples,
            final(self).channels == old(self).channels,
            final(self).samples@ == pushed(
                old(self).samples@,
                lock,
                bytes@,
                old(self).capacity_samples as nat,
                old(self).channels as nat,
            ),
            old(self).holds_whole_frames() ==> final(self).holds_whole_frames()
                && final(self).samples@ == newest(
                old(self).samples@ + arriving(lock, bytes@, old(self).channels as nat),
                old(self).capacity_samples as nat,
            ),
    {
        proof {
            if self.holds_whole_frames() {
                law_push_keeps_the_newest_frames(
                    self.samples@,
                    lock,
                    bytes@,
                    self.capacity_samples as nat,
                    self.channels as nat,
                );
            }
        }
        match lock {
            PcmQueueLock::Busy => return,
            PcmQueueLock::Acquired => {},
        }
        let frame_bytes: usize = self.channels * 2;
        proof {
            lemma_aligned_down(bytes@.len() as int, frame_bytes as int);
        }
        let complete: usize = bytes.len() - bytes.len() % frame_bytes;
        let retained: usize = self.capacity_samples * 2;
        let first: usize = complete.saturating_sub(retained);
        let incoming: usize = (complete - first) / 2;
        let held: usize = self.samples.len();
        let overflow: usize = if incoming > self.capacity_samples - held {
            incoming - (self.capacity_samples - held)
        } else {
            0
        };
        let ghost start = self.samples@;
        let ghost frames = whole_frames(bytes@, self.channels as nat);
        let ghost all = samples_of(frames);
        proof {
            let c = self.channels as int;
            let k = bytes@.len() as int / (frame_bytes as int);
            assert(complete == 2 * (c * k)) by (nonlinear_arith)
                requires
                    complete == frame_bytes * k,
                    frame_bytes == c * 2,
            ;
            assert(frames.len() == complete);
            lemma_rounded_up(overflow as int, c);
        }
        let rounded: usize = (overflow + (self.channels - 1)) / self.channels * self.channels;
        let count: usize = if rounded < held {
            rounded
        } else {
            held
        };
        let mut dropped: usize = 0;
        while dropped < count
            invariant
                dropped <= count <= start.len(),
                self.samples@ == start.skip(dropped as int),
                self.capacity_samples == old(self).capacity_samples,
                self.channels == old(self).channels,
            decreases count - dropped,
        {
            let _ = self.samples.pop_front();
            assert(self.samples@ =~= start.skip(dropped + 1));
            dropped = dropped + 1;
        }
        let ghost kept = start.skip(count as int);
        let ghost skipped = all.len() - incoming;
        let mut at: usize = first;
        assert(self.samples@ =~= kept + all.subrange(skipped as int, skipped as int));
        while at < complete
            invariant
                first <= at <= complete <= bytes.len(),
                (at - first) % 2 == 0,
                (complete - first) % 2 == 0,
                first % 2 == 0,
                frames == bytes@.take(complete as int),
                all == samples_of(frames),
                skipped == first / 2,
                complete == frames.len(),
                self.samples@ == kept + all.subrange(skipped as int, at as int / 2),
                self.capacity_samples == old(self).capacity_samples,
                self.channels == old(self).channels,
            decreases complete - at,
        {
            let sample: i16 = read_sample(bytes, at);
            self.samples.push_back(sample);
            proof {
                let k = at as int / 2;
                assert(all[k] == sample);
                assert(self.samples@ =~= kept + all.subrange(skipped as int, k + 1));
            }
            at = at + 2;
        }
        assert(all.subrange(skipped as int, all.len() as int) =~= newest(
            all,
            self.capacity_samples as nat,
        ));
    }

    /// Takes `count` samples; silence stands in for what is missing, and for all of them while the
    /// lock is held elsewhere.
    pub fn fill(&mut self, lock: PcmQueueLock, count: usize) -> (r: Vec<i16>)
        requires
            old(self).well_formed(),
        ensures
            final(self).well_formed(),
            final(self).capacity_samples == old(self).capacity_samples,
            final(self).channels == old(self).channels,
            r@.len() == count,
            final(self).samples@ == taken_rest(old(self).samples@, lock, count as nat),
            old(self).holds_whole_frames() && count as nat % (old(self).channels as nat) == 0
                ==> final(self).holds_whole_frames(),
            forall|i: int|
                0 <= i < count ==> r@[i] == (if lock == PcmQueueLock::Acquired && i < old(
                    self).samples@.len() {
                    old(self).samples@[i]
                } else {
                    0
                }),
    {
        let ghost start = self.samples@;
        let mut out: Vec<i16> = Vec::new();
        assert(start.skip(0) =~= start);
        while out.len() < count
            invariant
                out@.len() <= count,
                old(self).well_formed(),
                self.capacity_samples == old(self).capacity_samples,
                self.channels == old(self).channels,
                start == old(self).samples@,
                self.samples@ == taken_rest(start, lock, out@.len()),
                forall|i: int|
                    0 <= i < out@.len() ==> out@[i] == (if lock == PcmQueueLock::Acquired && i
                        < start.len() {
                        start[i]
                    } else {
                        0
                    }),
            decreases count - out.len(),
        {
            let sample: i16 = match lock {
                PcmQueueLock::Busy => 0,
                PcmQueueLock::Acquired => match self.samples.pop_front() {
                    Some(sample) => sample,
                    None => 0,
                },
            };
            out.push(sample);
            assert(self.samples@ =~= taken_rest(start, lock, out@.len()));
        }
        proof {
            let c = self.channels as int;
            lemma_aligned_down(0, c);
            if old(self).holds_whole_frames() && count as int % c == 0 {
                lemma_aligned_difference(start.len() as int, count as int, c);
            }
        }
        out
    }

    /// Drops all pending frames.
    pub fn clear(&mut self)
        requires
            old(self).well_formed(),
        ensures
            final(self).well_formed(),
            final(self).holds_whole_frames(),
            final(self).samples@.len() == 0,
            final(self).capacity_samples == old(self).capacity_samples,
            final(self).channels == old(self).channels,
    {
        self.samples.clear();
    }
}

/// What is left after `n` samples were asked for.
pub open spec fn taken_rest(samples: Seq<i16>, lock: PcmQueueLock, n: nat) -> Seq<i16> {
    match lock {
        PcmQueueLock::Busy => samples,
        PcmQueueLock::Acquired => if n <= samples.len() {
            samples.skip(n as int)
        } else {
            Seq::empty()
        },
    }
}

/// How a device writes samples.
#[derive(Clone, Copy, Debug, PartialEq, Eq, Structural)]
pub enum SampleFormat {
    I8,
    I16,
    I24,
    I32,
    I64,
    U8,
    U16,
    U32,
    U64,
    F32,
    F64,
    Other,
}

/// The rank of a format: common native formats come first.
pub open spec fn format_rank(format: SampleFormat) -> u8 {
    match format {
        SampleFormat::I16 => 0,
        SampleFormat::F32 => 1,
        SampleFormat::U16 => 2,
        SampleFormat::I32 | SampleFormat::U32 | SampleFormat::F64 => 3,
        SampleFormat::I8
        | SampleFormat::I24
        | SampleFormat::I64
        | SampleFormat::U8
        | SampleFormat::U64 => 4,
        SampleFormat::Other => 255,
    }
}

pub fn sample_format_priority(format: SampleFormat) -> (r: u8)
    ensures
        r == format_rank(format),
{
    match format {
        SampleFormat::I16 => 0,
        SampleFormat::F32 => 1,
        SampleFormat::U16 => 2,
        SampleFormat::I32 | SampleFormat::U32 | SampleFormat::F64 => 3,
        SampleFormat::I8
        | SampleFormat::I24
        | SampleFormat::I64
        | SampleFormat::U8
        | SampleFormat::U64 => 4,
        SampleFormat::Other => 255,
    }
}

/// A range of configurations that a device supports.
#[derive(Clone, Copy, Debug, PartialEq, Eq, Structural)]
pub struct DeviceConfigRange {
    pub channels: u16,
    pub min_sample_rate: u32,
    pub max_sample_rate: u32,
    pub format: SampleFormat,
}

/// How many samples go for `n` to be gone, in whole frames.
pub open spec fn rounded_up(n: int, channels: nat) -> int {
    (n + channels - 1) / (channels as int) * channels
}

/// What a queue holds after a buffer was pushed.
pub open spec fn pushed(
    samples: Seq<i16>,
    lock: PcmQueueLock,
    bytes: Seq<u8>,
    capacity: nat,
    channels: nat,
) -> Seq<i16> {
    match lock {
        PcmQueueLock::Busy => samples,
        PcmQueueLock::Acquired => {
            let incoming = newest(samples_of(whole_frames(bytes, channels)), capacity);
            let overflow = if samples.len() + incoming.len() > capacity {
                samples.len() + incoming.len() - capacity
            } else {
                0
            };
            let dropped = rounded_up(overflow, channels);
            (if dropped < samples.len() {
                samples.skip(dropped)
            } else {
                Seq::empty()
            }) + incoming
        },
    }
}

/// The samples that a push brings: those of whole frames, and none while the lock is held elsewhere.
pub open spec fn arriving(lock: PcmQueueLock, bytes: Seq<u8>, channels: nat) -> Seq<i16> {
    match lock {
        PcmQueueLock::Busy => Seq::empty(),
        PcmQueueLock::Acquired => samples_of(whole_frames(bytes, channels)),
    }
}

/// Whether a range holds the wanted configuration.
pub open spec fn range_serves(range: DeviceConfigRange, channels: u16, sample_rate: u32) -> bool {
    range.channels == channels && range.min_sample_rate <= sample_rate <= range.max_sample_rate
}

/// Whether `i` is the range to use: it serves, no other that serves ranks before it, and none of
/// its rank comes before it.
pub open spec fn is_best_range(
    ranges: Seq<DeviceConfigRange>,
    channels: u16,
    sample_rate: u32,
    i: int,
) -> bool {
    &&& 0 <= i < ranges.len()
    &&& range_serves(ranges[i], channels, sample_rate)
    &&& forall|j: int|
        0 <= j < ranges.len() && range_serves(#[trigger] ranges[j], channels, sample_rate)
            ==> format_rank(ranges[i].format) <= format_rank(ranges[j].format)
    &&& forall|j: int|
        0 <= j < i && range_serves(#[trigger] ranges[j], channels, sample_rate) ==> format_rank(
            ranges[i].format,
        ) < format_rank(ranges[j].format)
}

pub open spec fn serves_any(ranges: Seq<DeviceConfigRange>, channels: u16, sample_rate: u32) -> bool {
    exists|j: int|
        0 <= j < ranges.len() && range_serves(#[trigger] ranges[j], channels, sample_rate)
}

/// The position of the range to use for a configuration.
pub fn best_range(ranges: &Vec<DeviceConfigRange>, channels: u16, sample_rate: u32) -> (r: Option<
    usize,
>)
    ensures
        match r {
            Some(i) => is_best_range(ranges@, channels, sample_rate, i as int) && serves_any(
                ranges@,
                channels,
                sample_rate,
            ),
            None => !serves_any(ranges@, channels, sample_rate),
        },
{
    let mut best: Option<usize> = None;
    let mut i: usize = 0;
    while i < ranges.len()
        invariant
            i <= ranges.len(),
            match best {
                Some(b) => b < i && is_best_range(
                    ranges@.take(i as int),
                    channels,
                    sample_rate,
                    b as int,
                ),
                None => forall|j: int|
                    0 <= j < i ==> !range_serves(#[trigger] ranges@[j], channels, sample_rate),
            },
        decreases ranges.len() - i,
    {
        let range = ranges[i];
        let ghost head = ranges@.take(i as int);
        let ghost next = ranges@.take(i + 1);
        assert(forall|j: int| 0 <= j < i ==> #[trigger] next[j] == head[j]);
        assert(forall|j: int| 0 <= j < i ==> #[trigger] head[j] == ranges@[j]);
        assert(next[i as int] == range);
        if range.channels == channels && range.min_sample_rate <= sample_rate && sample_rate
            <= range.max_sample_rate {
            let better = match best {
                None => true,
                Some(b) => sample_format_priority(range.format) < sample_format_priority(
                    ranges[b].format,
                ),
            };
            if better {
                best = Some(i);
            }
        }
        i = i + 1;
    }
    assert(ranges@.take(i as int) =~= ranges@);
    best
}

/// The complaint of a device that has no such configuration.
pub open spec fn unsupported_message(direction: Seq<char>, channels: u16, sample_rate: u32) -> Seq<char> {
    "default "@ + direction + " device does not support "@ + decimal(channels as nat) + "-channel "@
        + (decimal(sample_rate as nat) + " Hz audio"@)
}

fn unsupported_text(direction: &str, channels: u16, sample_rate: u32) -> (r: String)
    ensures
        r@ == unsupported_message(direction@, channels, sample_rate),
{
    let mut head = concat5(
        "default ",
        direction,
        " device does not support ",
        decimal_text(channels as u64).as_str(),
        "-channel ",
    );
    let tail = concat2(decimal_text(sample_rate as u64).as_str(), " Hz audio");
    concat2(head.as_str(), tail.as_str())
}

/// The configuration of an output device for a stream.
pub fn compatible_output_config(
    ranges: &Vec<DeviceConfigRange>,
    sample_rate: u32,
    channels: u16,
) -> (r: Result<usize, String>)
    ensures
        match r {
            Ok(i) => is_best_range(ranges@, channels, sample_rate, i as int),
            Err(message) => !serves_any(ranges@, channels, sample_rate) && message@
                == unsupported_message("output"@, channels, sample_rate),
        },
{
    match best_range(ranges, channels, sample_rate) {
        Some(i) => Ok(i),
        None => Err(unsupported_text("output", channels, sample_rate)),
    }
}

/// The configuration of an input device for a stream.
pub fn compatible_input_config(
    ranges: &Vec<DeviceConfigRange>,
    sample_rate: u32,
    channels: u16,
) -> (r: Result<usize, String>)
    ensures
        match r {
            Ok(i) => is_best_range(ranges@, channels, sample_rate, i as int),
            Err(message) => !serves_any(ranges@, channels, sample_rate) && message@
                == unsupported_message("input"@, channels, sample_rate),
        },
{
    match best_range(ranges, channels, sample_rate) {
        Some(i) => Ok(i),
        None => Err(unsupported_text("input", channels, sample_rate)),
    }
}

/// Plays PCM through a device thread that is started on demand; at most half a second is buffered.
pub struct PcmS16LePlayback {
    pub sample_rate: u32,
    pub channels: u16,
    pub queue: BoundedPcmQueue,
    pub running: bool,
}

/// The samples of half a second, in whole frames; without channels there are none.
pub open spec fn half_second(sample_rate: nat, channels: nat) -> int {
    let samples = sample_rate * channels * 500 / 1000;
    if channels == 0 {
        0
    } else {
        samples - samples % channels
    }
}

impl PcmS16LePlayback {
    /// The queue is made for the channels of the stream and for half a second of it.
    pub open spec fn well_formed(self) -> bool {
        &&& self.queue.well_formed()
        &&& self.queue.channels == if self.channels == 0 {
            1
        } else {
            self.channels as int
        }
        &&& self.queue.capacity_samples == half_second(
            self.sample_rate as nat,
            self.channels as nat,
        )
    }

    pub fn new(sample_rate: u32, channels: u16) -> (r: Self)
        requires
            sample_rate * channels * 500 <= usize::MAX,
        ensures
            r.well_formed(),
            r.sample_rate == sample_rate && r.channels == channels && !r.running,
            r.queue.samples@.len() == 0,
            r.queue.holds_whole_frames(),
    {
        let rate: usize = sample_rate as usize;
        let count: usize = channels as usize;
        assert(0 <= rate * count) by (nonlinear_arith);
        assert(channels == 0 ==> rate * count == 0) by (nonlinear_arith)
            requires
                channels == count,
        ;
        let capacity: usize = rate * count * DEFAULT_BUFFER_DURATION_MILLISECONDS / 1000;
        PcmS16LePlayback {
            sample_rate,
            channels,
            queue: BoundedPcmQueue::new(capacity, count),
            running: false,
        }
    }

    /// Notes that the device thread was started: `spawned` is what starting it came to. A playback
    /// that runs already is left alone.
    pub fn start(&mut self, spawned: Result<(), String>) -> (r: Result<(), String>)
        ensures
            final(self).queue == old(self).queue,
            final(self).sample_rate == old(self).sample_rate,
            final(self).channels == old(self).channels,
            final(self).running == (old(self).running || spawned is Ok),
            match r {
                Ok(_) => old(self).running || spawned is Ok,
                Err(message) => !old(self).running && (spawned matches Err(error) && message@
                    == "spawn playback worker: "@ + error@),
            },
    {
        if self.running {
            return Ok(());
        }
        match spawned {
            Err(error) => Err(concat2("spawn playback worker: ", error.as_str())),
            Ok(()) => {
                self.running = true;
                Ok(())
            },
        }
    }

    pub fn push(&mut self, lock: PcmQueueLock, bytes: &[u8])
        requires
            old(self).well_formed(),
        ensures
            final(self).well_formed(),
            final(self).running == old(self).running,
            final(self).sample_rate == old(self).sample_rate,
            final(self).channels == old(self).channels,
            final(self).queue.capacity_samples == old(self).queue.capacity_samples,
            final(self).queue.channels == old(self).queue.channels,
            final(self).queue.samples@ == pushed(
                old(self).queue.samples@,
                lock,
                bytes@,
                old(self).queue.capacity_samples as nat,
                old(self).queue.channels as nat,
            ),
            old(self).queue.holds_whole_frames() ==> final(self).queue.holds_whole_frames()
                && final(self).queue.samples@ == newest(
                old(self).queue.samples@ + arriving(
                    lock,
                    bytes@,
                    old(self).queue.channels as nat,
                ),
                old(self).queue.capacity_samples as nat,
            ),
    {
        self.queue.push_pcm(lock, bytes);
    }

    /// Stops the playback and says whether a device thread is to be joined; nothing stays queued.
    pub fn stop(&mut self) -> (r: bool)
        requires
            old(self).well_formed(),
        ensures
            final(self).well_formed(),
            r == old(self).running,
            !final(self).running,
            final(self).sample_rate == old(self).sample_rate,
            final(self).channels == old(self).channels,
            final(self).queue.capacity_samples == old(self).queue.capacity_samples,
            final(self).queue.channels == old(self).queue.channels,
            final(self).queue.holds_whole_frames(),
            final(self).queue.samples@.len() == 0,
    {
        let was_running = self.running;
        self.running = false;
        self.queue.clear();
        was_running
    }
}

/// No more than half a second of sound waits to be played.
pub proof fn law_at_most_half_a_second_waits(playback: PcmS16LePlayback)
    requires
        playback.well_formed(),
    ensures
        2 * playback.queue.samples@.len() <= playback.sample_rate * playback.channels,
{
    let rate = playback.sample_rate as int;
    let channels = playback.channels as int;
    assert(0 <= rate * channels) by (nonlinear_arith)
        requires
            rate >= 0,
            channels >= 0,
    ;
    if channels > 0 {
        lemma_aligned_down(rate * channels * 500 / 1000, channels);
    }
}

/// The one format that is offered to the sound channel of a remote desktop.
#[derive(Clone, Copy, Debug, PartialEq, Eq, Structural)]
pub struct PcmWaveFormat {
    pub channels: u16,
    pub sample_rate: u32,
    pub average_bytes_per_second: u32,
    pub block_align: u16,
    pub bits_per_sample: u16,
}

/// Stereo PCM of 16 bits at 44.1 kHz.
pub fn offered_format() -> (r: PcmWaveFormat)
    ensures
        r.channels == PCM_CHANNELS,
        r.sample_rate == PCM_SAMPLE_RATE,
        r.bits_per_sample == PCM_BITS_PER_SAMPLE,
        r.block_align == PCM_CHANNELS * (PCM_BITS_PER_SAMPLE / 8),
        r.average_bytes_per_second == PCM_SAMPLE_RATE * r.block_align,
{
    PcmWaveFormat {
        channels: PCM_CHANNELS,
        sample_rate: PCM_SAMPLE_RATE,
        average_bytes_per_second: 176400,
        block_align: 4,
        bits_per_sample: PCM_BITS_PER_SAMPLE,
    }
}

/// As long as whole frames are held, a push keeps the newest samples that fit, in whole frames.
pub proof fn law_push_keeps_the_newest_frames(
    samples: Seq<i16>,
    lock: PcmQueueLock,
    bytes: Seq<u8>,
    capacity: nat,
    channels: nat,
)
    requires
        channels > 0,
        capacity % channels == 0,
        samples.len() % channels == 0,
        samples.len() <= capacity,
    ensures
        pushed(samples, lock, bytes, capacity, channels) == newest(
            samples + arriving(lock, bytes, channels),
            capacity,
        ),
        pushed(samples, lock, bytes, capacity, channels).len() % channels == 0,
        pushed(samples, lock, bytes, capacity, channels).len() <= capacity,
{
    let after = pushed(samples, lock, bytes, capacity, channels);
    if lock == PcmQueueLock::Busy {
        assert(after =~= newest(samples + Seq::empty(), capacity));
    } else {
        let c = channels as int;
        let k = bytes.len() as int / (c * 2);
        let all = samples_of(whole_frames(bytes, channels));
        let incoming = newest(all, capacity);
        lemma_aligned_down(bytes.len() as int, c * 2);
        assert(whole_frames(bytes, channels).len() == 2 * (k * c)) by (nonlinear_arith)
            requires
                whole_frames(bytes, channels).len() == c * 2 * k,
        ;
        lemma_mod_multiples_basic(k, c);
        assert(all.len() as int % c == 0);
        lemma_aligned_difference(samples.len() as int, incoming.len() as int, c);
        lemma_aligned_difference(samples.len() as int + incoming.len() as int, capacity as int, c);
        let overflow = if samples.len() + incoming.len() > capacity {
            samples.len() + incoming.len() - capacity
        } else {
            0
        };
        assert(overflow % c == 0) by {
            lemma_aligned_down(0, c);
        }
        lemma_rounded_up(overflow, c);
        assert(after =~= newest(samples + all, capacity));
    }
}

/// One push: what its thread got of the lock, and the bytes.
pub ghost struct PcmPush {
    pub lock: PcmQueueLock,
    pub bytes: Seq<u8>,
}

/// What a new queue holds after a series of pushes.
pub open spec fn after_pushes(pushes: Seq<PcmPush>, capacity: nat, channels: nat) -> Seq<i16>
    decreases pushes.len(),
{
    if pushes.len() == 0 {
        Seq::empty()
    } else {
        pushed(
            after_pushes(pushes.drop_last(), capacity, channels),
            pushes.last().lock,
            pushes.last().bytes,
            capacity,
            channels,
        )
    }
}

/// All samples that a series of pushes brings.
pub open spec fn all_arriving(pushes: Seq<PcmPush>, channels: nat) -> Seq<i16>
    decreases pushes.len(),
{
    if pushes.len() == 0 {
        Seq::empty()
    } else {
        all_arriving(pushes.drop_last(), channels) + arriving(
            pushes.last().lock,
            pushes.last().bytes,
            channels,
        )
    }
}

/// What is too old before more comes is too old after it.
proof fn lemma_newest_of_newest(earlier: Seq<i16>, more: Seq<i16>, n: nat)
    ensures
        newest(newest(earlier, n) + more, n) == newest(earlier + more, n),
{
    assert(newest(newest(earlier, n) + more, n) =~= newest(earlier + more, n));
}

/// After any series of pushes a queue holds the newest of all samples that came, as many as fit and
/// in whole frames.
pub proof fn law_pushes_keep_the_newest_frames(pushes: Seq<PcmPush>, capacity: nat, channels: nat)
    requires
        channels > 0,
        capacity % channels == 0,
    ensures
        after_pushes(pushes, capacity, channels) == newest(
            all_arriving(pushes, channels),
            capacity,
        ),
        after_pushes(pushes, capacity, channels).len() % channels == 0,
        after_pushes(pushes, capacity, channels).len() <= capacity,
    decreases pushes.len(),
{
    if pushes.len() == 0 {
        lemma_aligned_down(0, channels as int);
    } else {
        let before = pushes.drop_last();
        let last = pushes.last();
        law_pushes_keep_the_newest_frames(before, capacity, channels);
        law_push_keeps_the_newest_frames(
            after_pushes(before, capacity, channels),
            last.lock,
            last.bytes,
            capacity,
            channels,
        );
        let earlier = all_arriving(before, channels);
        let more = arriving(last.lock, last.bytes, channels);
        lemma_newest_of_newest(earlier, more, capacity);
    }
}

/// A sample is written low byte first, a negative one as 65536 less it.
pub proof fn law_samples_are_two_bytes(sample: i16)
    ensures
        sample_bytes(sample).len() == 2,
        sample >= 0 ==> sample_bytes(sample)[0] == sample % 256 && sample_bytes(sample)[1] == sample
            / 256,
        sample < 0 ==> sample_bytes(sample)[0] + 256 * sample_bytes(sample)[1] == sample + 65536,
{
}

/// The samples of a buffer are its pairs of bytes, in their order.
pub proof fn law_samples_are_read_in_order(bytes: Seq<u8>, i: int)
    requires
        0 <= i,
        2 * i + 1 < bytes.len(),
    ensures
        samples_of(bytes).len() == bytes.len() / 2,
        ({
            let n = bytes[2 * i] + 256 * bytes[2 * i + 1];
            samples_of(bytes)[i] == if n < 32768 {
                n
            } else {
                n - 65536
            }
        }),
{
}

/// Bytes that do not make up a whole frame are left out, and only those.
pub proof fn law_frames_are_whole(bytes: Seq<u8>, channels: nat)
    requires
        channels > 0,
    ensures
        whole_frames(bytes, channels).len() % (channels * 2) == 0,
        whole_frames(bytes, channels).is_prefix_of(bytes),
        bytes.len() - whole_frames(bytes, channels).len() < channels * 2,
{
    let size = (channels * 2) as int;
    let n = bytes.len() as int;
    lemma_fundamental_div_mod(n, size);
    vstd::arithmetic::div_mod::lemma_mod_bound(n, size);
    let kept = n - n % size;
    assert(kept == size * (n / size));
    vstd::arithmetic::div_mod::lemma_div_pos_is_pos(n, size);
    assert(0 <= kept <= n) by (nonlinear_arith)
        requires
            kept == n - n % size,
            kept == size * (n / size),
            n / size >= 0,
            size > 0,
            0 <= n % size,
    ;
    lemma_mod_multiples_basic(n / size, size);
    assert(size * (n / size) == (n / size) * size) by (nonlinear_arith);
    assert(whole_frames(bytes, channels).len() == kept);
    let all = bytes;
    assert(all.subrange(0, kept) =~= whole_frames(bytes, channels));
}

/// What is taken leaves from the front; a thread that did not get the lock takes nothing.
pub proof fn law_samples_are_taken_from_the_front(samples: Seq<i16>, n: nat)
    ensures
        taken_rest(samples, PcmQueueLock::Busy, n) == samples,
        n <= samples.len() ==> taken_rest(samples, PcmQueueLock::Acquired, n) == samples.skip(
            n as int,
        ),
        n > samples.len() ==> taken_rest(samples, PcmQueueLock::Acquired, n).len() == 0,
{
}

/// Formats are tried from the most common on.
pub proof fn law_formats_are_ranked()
    ensures
        format_rank(SampleFormat::I16) < format_rank(SampleFormat::F32),
        format_rank(SampleFormat::F32) < format_rank(SampleFormat::U16),
        format_rank(SampleFormat::U16) < format_rank(SampleFormat::I32),
        format_rank(SampleFormat::I32) == format_rank(SampleFormat::U32),
        format_rank(SampleFormat::U32) == format_rank(SampleFormat::F64),
        format_rank(SampleFormat::F64) < format_rank(SampleFormat::I8),
        format_rank(SampleFormat::I8) == 4,
        format_rank(SampleFormat::I24) == 4,
        format_rank(SampleFormat::I64) == 4,
        format_rank(SampleFormat::U8) == 4,
        format_rank(SampleFormat::U64) == 4,
        format_rank(SampleFormat::Other) == 255,
        format_rank(SampleFormat::I16) == 0,
        format_rank(SampleFormat::F32) == 1,
        format_rank(SampleFormat::U16) == 2,
        format_rank(SampleFormat::I32) == 3,
        DEFAULT_BUFFER_DURATION_MILLISECONDS == 500,
        PCM_CHANNELS == 2,
        PCM_SAMPLE_RATE == 44100,
        PCM_BITS_PER_SAMPLE == 16,
{
}

/// There is at most one best range, and it serves what is wanted.
pub proof fn law_the_best_range_is_one(
    ranges: Seq<DeviceConfigRange>,
    channels: u16,
    sample_rate: u32,
    i: int,
    j: int,
)
    requires
        is_best_range(ranges, channels, sample_rate, i),
    ensures
        is_best_range(ranges, channels, sample_rate, j) ==> i == j,
        ranges[i].channels == channels,
        ranges[i].min_sample_rate <= sample_rate <= ranges[i].max_sample_rate,
        0 <= j < ranges.len() && ranges[j].channels == channels && ranges[j].min_sample_rate
            <= sample_rate <= ranges[j].max_sample_rate ==> format_rank(ranges[i].format)
            <= format_rank(ranges[j].format),
{
    if is_best_range(ranges, channels, sample_rate, j) {
        assert(range_serves(ranges[i], channels, sample_rate));
        assert(range_serves(ranges[j], channels, sample_rate));
    }
    if 0 <= j < ranges.len() && ranges[j].channels == channels && ranges[j].min_sample_rate
        <= sample_rate <= ranges[j].max_sample_rate {
        assert(range_serves(ranges[j], channels, sample_rate));
    }
}

/// What is said of a device that cannot do what is wanted.
pub proof fn law_unsupported_devices_are_told(direction: Seq<char>, channels: u16, sample_rate: u32)
    ensures
        unsupported_message(direction, channels, sample_rate) == "default "@ + direction
            + " device does not support "@ + decimal(channels as nat) + "-channel "@ + decimal(
            sample_rate as nat,
        ) + " Hz audio"@,
{
    assert(unsupported_message(direction, channels, sample_rate) =~= "default "@ + direction
        + " device does not support "@ + decimal(channels as nat) + "-channel "@ + decimal(
        sample_rate as nat,
    ) + " Hz audio"@);
}

} // verus!
