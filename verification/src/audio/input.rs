//! The microphone side of a remote desktop session: the wave formats, the messages of the
//! AUDIO_INPUT channel, and the packets that wait to be sent.

use crate::audio::pcm::{
    best_range, push_sample, sample_bytes, serves_any, DeviceConfigRange, PcmQueueLock,
};
use crate::bytes::{
    law_le_round_trip, le16, le16_bytes, le32, le32_bytes, push_u16, push_u32, read_u16,
};
use std::collections::VecDeque;
use vstd::prelude::*;

verus! {

pub const AUDIO_INPUT_CHANNEL_NAME: &'static str = "AUDIO_INPUT";

pub const AUDIO_INPUT_VERSION: u32 = 2;

pub const AUDIO_FORMAT_PCM: u16 = 1;

pub const AUDIO_INPUT_BITS_PER_SAMPLE: u16 = 16;

pub const AUDIO_INPUT_MAX_FORMATS: u32 = 1000;

pub const AUDIO_INPUT_MAX_QUEUED_PACKETS: usize = 8;

pub const MSG_SNDIN_VERSION: u8 = 0x01;

pub const MSG_SNDIN_FORMATS: u8 = 0x02;

pub const MSG_SNDIN_OPEN: u8 = 0x03;

pub const MSG_SNDIN_OPEN_REPLY: u8 = 0x04;

pub const MSG_SNDIN_DATA_INCOMING: u8 = 0x05;

pub const MSG_SNDIN_DATA: u8 = 0x06;

pub const MSG_SNDIN_FORMAT_CHANGE: u8 = 0x07;

#[derive(Clone, Copy, Debug, PartialEq, Eq, Structural)]
pub struct PcmCaptureFormat {
    pub channels: u16,
    pub sample_rate: u32,
}

/// The wave format header that describes a format.
pub open spec fn wave_format(format: PcmCaptureFormat) -> Seq<u8> {
    le16_bytes(AUDIO_FORMAT_PCM as int) + le16_bytes(format.channels as int) + le32_bytes(
        format.sample_rate as int,
    ) + le32_bytes(format.sample_rate * format.channels * 2) + le16_bytes(format.channels * 2)
        + le16_bytes(AUDIO_INPUT_BITS_PER_SAMPLE as int) + le16_bytes(0)
}

impl PcmCaptureFormat {
    /// Whether the derived fields of the header fit.
    pub open spec fn fits(self) -> bool {
        self.channels * 2 <= u16::MAX && self.sample_rate * self.channels * 2 <= u32::MAX
    }

    pub fn block_align(self) -> (r: u16)
        requires
            self.channels * 2 <= u16::MAX,
        ensures
            r == self.channels * 2,
    {
        self.channels * (AUDIO_INPUT_BITS_PER_SAMPLE / 8)
    }

    pub fn average_bytes_per_second(self) -> (r: u32)
        requires
            self.fits(),
        ensures
            r == self.sample_rate * self.channels * 2,
    {
        let rate: u32 = self.sample_rate;
        let align: u32 = self.block_align() as u32;
        assert(rate * align == self.sample_rate * self.channels * 2) by (nonlinear_arith)
            requires
                rate == self.sample_rate,
                align == self.channels * 2,
        ;
        rate * align
    }

    pub fn encode_wave_format(self, payload: &mut Vec<u8>)
        requires
            self.fits(),
        ensures
            final(payload)@ == old(payload)@ + wave_format(self),
    {
        let ghost before = payload@;
        push_u16(payload, AUDIO_FORMAT_PCM);
        push_u16(payload, self.channels);
        push_u32(payload, self.sample_rate);
        push_u32(payload, self.average_bytes_per_second());
        push_u16(payload, self.block_align());
        push_u16(payload, AUDIO_INPUT_BITS_PER_SAMPLE);
        push_u16(payload, 0);
        assert(payload@ =~= before + wave_format(self));
    }
}

/// The format that a header at `offset` describes, and where what follows it starts; `None` for a
/// truncated header. A format that is not understood is one without channels.
pub open spec fn parsed_wave_format(payload: Seq<u8>, offset: int) -> Option<
    (PcmCaptureFormat, int),
> {
    if offset + 18 > payload.len() {
        None
    } else {
        let next = offset + 18 + le16(payload, offset + 16);
        let channels = le16(payload, offset + 2);
        if next > payload.len() {
            None
        } else if le16(payload, offset) != AUDIO_FORMAT_PCM || le16(payload, offset + 14)
            != AUDIO_INPUT_BITS_PER_SAMPLE || le16(payload, offset + 12) != channels * 2 {
            Some((PcmCaptureFormat { channels: 0, sample_rate: 0 }, next))
        } else {
            Some(
                (
                    PcmCaptureFormat {
                        channels: channels as u16,
                        sample_rate: le32(payload, offset + 4) as u32,
                    },
                    next,
                ),
            )
        }
    }
}

/// What is written of a format is read back, and the header ends there.
pub proof fn law_wave_format_round_trip(before: Seq<u8>, format: PcmCaptureFormat)
    requires
        format.fits(),
    ensures
        parsed_wave_format(before + wave_format(format), before.len() as int) == Some(
            (format, before.len() as int + 18),
        ),
{
    let payload = before + wave_format(format);
    let at = before.len() as int;
    let header = wave_format(format);
    assert(header.len() == 18);
    assert(forall|i: int| 0 <= i < 18 ==> #[trigger] payload[at + i] == header[i]);
    law_le_round_trip(format.channels as int);
    law_le_round_trip(format.sample_rate as int);
    law_le_round_trip(format.channels * 2);
    let channels = le16_bytes(format.channels as int);
    let rate = le32_bytes(format.sample_rate as int);
    let align = le16_bytes(format.channels * 2);
    assert(payload[at] == header[0]);
    assert(payload[at + 2] == channels[0] && payload[at + 3] == channels[1]);
    assert(payload[at + 4] == rate[0] && payload[at + 5] == rate[1] && payload[at + 6] == rate[2]
        && payload[at + 7] == rate[3]);
    assert(payload[at + 12] == align[0] && payload[at + 13] == align[1]);
    assert(payload[at + 1] == header[1]);
    assert(payload[at + 14] == 16 && payload[at + 15] == 0);
    assert(payload[at + 16] == 0 && payload[at + 17] == 0);
}

/// The number at an offset, where there is one.
pub open spec fn u32_at(payload: Seq<u8>, offset: int) -> Option<u32> {
    if offset + 4 <= payload.len() {
        Some(le32(payload, offset) as u32)
    } else {
        None
    }
}

pub fn read_u32(payload: &[u8], offset: usize) -> (r: Option<u32>)
    ensures
        r == u32_at(payload@, offset as int),
{
    if payload.len() < 4 || offset > payload.len() - 4 {
        return None;
    }
    let low: u32 = read_u16(payload, offset) as u32;
    let high: u32 = read_u16(payload, offset + 2) as u32;
    Some(low + 65536 * high)
}

pub fn parse_wave_format(payload: &[u8], offset: usize) -> (r: Option<(PcmCaptureFormat, usize)>)
    ensures
        match r {
            Some(parsed) => parsed_wave_format(payload@, offset as int) == Some(
                (parsed.0, parsed.1 as int),
            ) && offset < parsed.1 <= payload.len(),
            None => parsed_wave_format(payload@, offset as int) is None,
        },
{
    if payload.len() < 18 || offset > payload.len() - 18 {
        return None;
    }
    let format_tag: u16 = read_u16(payload, offset);
    let channels: u16 = read_u16(payload, offset + 2);
    let sample_rate: u32 = match read_u32(payload, offset + 4) {
        Some(rate) => rate,
        None => return None,
    };
    let block_align: u16 = read_u16(payload, offset + 12);
    let bits_per_sample: u16 = read_u16(payload, offset + 14);
    let extra_size: usize = read_u16(payload, offset + 16) as usize;
    if extra_size > payload.len() - 18 - offset {
        return None;
    }
    let next: usize = offset + 18 + extra_size;
    if format_tag != AUDIO_FORMAT_PCM || bits_per_sample != AUDIO_INPUT_BITS_PER_SAMPLE
        || block_align as u32 != channels as u32 * 2 {
        return Some((PcmCaptureFormat { channels: 0, sample_rate: 0 }, next));
    }
    Some((PcmCaptureFormat { channels, sample_rate }, next))
}

/// Whether the microphone can be captured in a format; without a device it cannot.
pub open spec fn capturable(format: PcmCaptureFormat, device: Option<Vec<DeviceConfigRange>>) -> bool {
    1 <= format.channels <= 2 && format.sample_rate != 0 && (device matches Some(ranges)
        && serves_any(ranges@, format.channels, format.sample_rate))
}

pub fn capture_format_supported(
    format: PcmCaptureFormat,
    device: &Option<Vec<DeviceConfigRange>>,
) -> (r: bool)
    ensures
        r == capturable(format, *device),
{
    if format.channels < 1 || format.channels > 2 || format.sample_rate == 0 {
        return false;
    }
    match device {
        None => false,
        Some(ranges) => best_range(ranges, format.channels, format.sample_rate).is_some(),
    }
}

/// The formats that `count` headers from `offset` on describe; `None` where one is truncated.
pub open spec fn listed_formats(payload: Seq<u8>, offset: int, count: nat) -> Option<
    Seq<PcmCaptureFormat>,
>
    decreases count,
{
    if count == 0 {
        Some(Seq::empty())
    } else {
        match parsed_wave_format(payload, offset) {
            None => None,
            Some(parsed) => match listed_formats(payload, parsed.1, (count - 1) as nat) {
                None => None,
                Some(rest) => Some(seq![parsed.0] + rest),
            },
        }
    }
}

/// The first format of a list that can be captured.
pub open spec fn first_capturable(
    formats: Seq<PcmCaptureFormat>,
    device: Option<Vec<DeviceConfigRange>>,
) -> Option<PcmCaptureFormat>
    decreases formats.len(),
{
    if formats.len() == 0 {
        None
    } else if capturable(formats[0], device) {
        Some(formats[0])
    } else {
        first_capturable(formats.drop_first(), device)
    }
}

/// A message with its bytes.
pub open spec fn views(messages: Seq<Vec<u8>>) -> Seq<Seq<u8>> {
    Seq::new(messages.len(), |i: int| messages[i]@)
}

/// A message of an identifier and a number.
pub open spec fn number_message(id: u8, value: u32) -> Seq<u8> {
    seq![id] + le32_bytes(value as int)
}

fn message_with_u32(id: u8, value: u32) -> (r: Vec<u8>)
    ensures
        r@ == number_message(id, value),
{
    let mut message: Vec<u8> = Vec::new();
    message.push(id);
    push_u32(&mut message, value);
    message
}

fn messages_of_one(message: Vec<u8>) -> (r: Vec<Vec<u8>>)
    ensures
        views(r@) == seq![message@],
{
    let mut messages: Vec<Vec<u8>> = Vec::new();
    messages.push(message);
    assert(views(messages@) =~= seq![message@]);
    messages
}

fn messages_of_two(first: Vec<u8>, second: Vec<u8>) -> (r: Vec<Vec<u8>>)
    ensures
        views(r@) == seq![first@, second@],
{
    let mut messages: Vec<Vec<u8>> = Vec::new();
    messages.push(first);
    messages.push(second);
    assert(views(messages@) =~= seq![first@, second@]);
    messages
}

/// The answer to a list of formats: the chosen one, or none.
pub open spec fn formats_reply(selected: Option<PcmCaptureFormat>) -> Seq<u8> {
    match selected {
        Some(format) => seq![MSG_SNDIN_FORMATS] + le32_bytes(1) + le32_bytes(27) + wave_format(format),
        None => seq![MSG_SNDIN_FORMATS] + le32_bytes(0) + le32_bytes(9),
    }
}

/// What a list of formats leads to: `None` where it is ignored, else the chosen format.
pub open spec fn formats_choice(
    payload: Seq<u8>,
    device: Option<Vec<DeviceConfigRange>>,
) -> Option<Option<PcmCaptureFormat>> {
    match (u32_at(payload, 1), u32_at(payload, 5)) {
        (Some(count), Some(size)) => if count == 0 || count > AUDIO_INPUT_MAX_FORMATS || size
            > payload.len() || size < 9 {
            None
        } else {
            match listed_formats(payload, 9, count as nat) {
                None => None,
                Some(formats) => Some(first_capturable(formats, device)),
            }
        },
        _ => None,
    }
}

/// The format that is chosen from a list has a byte rate that can be written.
pub open spec fn choice_fits(payload: Seq<u8>, device: Option<Vec<DeviceConfigRange>>) -> bool {
    formats_choice(payload, device) matches Some(Some(format)) ==> format.fits()
}

/// What is to happen when the server opens the stream.
#[derive(Clone, Copy, Debug, PartialEq, Eq, Structural)]
pub enum OpenDecision {
    Ignore,
    Refuse,
    Capture { format: PcmCaptureFormat, frames_per_packet: u32 },
}

pub open spec fn open_decision(payload: Seq<u8>, selected: Option<PcmCaptureFormat>) -> OpenDecision {
    match (u32_at(payload, 1), u32_at(payload, 5)) {
        (Some(frames), Some(initial)) => if initial != 0 || frames == 0 {
            OpenDecision::Refuse
        } else {
            match selected {
                None => OpenDecision::Refuse,
                Some(format) => if frames > format.sample_rate * 2 {
                    OpenDecision::Refuse
                } else {
                    OpenDecision::Capture { format, frames_per_packet: frames }
                },
            }
        },
        _ => OpenDecision::Ignore,
    }
}

/// Packets of captured audio that wait to be sent; the oldest go where there are too many. One
/// notice is out at a time.
pub struct MicrophonePacketQueue {
    pub packets: VecDeque<Vec<u8>>,
    pub notification_pending: bool,
}

impl MicrophonePacketQueue {
    pub open spec fn well_formed(self) -> bool {
        self.packets@.len() <= AUDIO_INPUT_MAX_QUEUED_PACKETS
    }

    pub fn new() -> (r: Self)
        ensures
            r.well_formed(),
            r.packets@.len() == 0,
            !r.notification_pending,
    {
        MicrophonePacketQueue { packets: VecDeque::new(), notification_pending: false }
    }

    /// Queues a packet unless the lock is held elsewhere, and says whether to send a notice.
    pub fn push(&mut self, lock: PcmQueueLock, packet: Vec<u8>) -> (notify: bool)
        requires
            old(self).well_formed(),
        ensures
            final(self).well_formed(),
            match lock {
                PcmQueueLock::Busy => *final(self) == *old(self) && !notify,
                PcmQueueLock::Acquired => {
                    &&& final(self).packets@ == (if old(self).packets@.len()
                        == AUDIO_INPUT_MAX_QUEUED_PACKETS {
                        old(self).packets@.skip(1)
                    } else {
                        old(self).packets@
                    }).push(packet)
                    &&& notify == !old(self).notification_pending
                    &&& final(self).notification_pending
                },
            },
    {
        match lock {
            PcmQueueLock::Busy => return false,
            PcmQueueLock::Acquired => {},
        }
        if self.packets.len() == AUDIO_INPUT_MAX_QUEUED_PACKETS {
            let _ = self.packets.pop_front();
            assert(self.packets@ =~= old(self).packets@.skip(1));
        }
        self.packets.push_back(packet);
        let notify = !self.notification_pending;
        self.notification_pending = true;
        notify
    }

    /// Takes all packets and the notice with them.
    pub fn drain(&mut self) -> (r: Vec<Vec<u8>>)
        ensures
            r@ == old(self).packets@,
            final(self).packets@.len() == 0,
            !final(self).notification_pending,
    {
        let ghost start = self.packets@;
        let mut out: Vec<Vec<u8>> = Vec::new();
        assert(start.take(0) =~= Seq::empty());
        assert(start.skip(0) =~= start);
        while self.packets.len() > 0
            invariant
                out@.len() <= start.len(),
                out@ == start.take(out@.len() as int),
                self.packets@ == start.skip(out@.len() as int),
            decreases self.packets@.len(),
        {
            match self.packets.pop_front() {
                None => {},
                Some(packet) => {
                    let ghost n = out@.len() as int;
                    out.push(packet);
                    assert(out@ =~= start.take(n + 1));
                    assert(self.packets@ =~= start.skip(n + 1));
                },
            }
        }
        assert(out@ =~= start);
        self.notification_pending = false;
        out
    }

    /// Says whether another notice is due, for packets that came while the last were taken.
    pub fn rearm(&mut self) -> (notify: bool)
        ensures
            final(self).packets == old(self).packets,
            notify == (old(self).packets@.len() > 0 && !old(self).notification_pending),
            final(self).notification_pending == (old(self).notification_pending || old(
                self,
            ).packets@.len() > 0),
    {
        if self.packets.len() > 0 && !self.notification_pending {
            self.notification_pending = true;
            true
        } else {
            false
        }
    }

    pub fn clear(&mut self)
        ensures
            final(self).well_formed(),
            final(self).packets@.len() == 0,
            !final(self).notification_pending,
    {
        self.packets.clear();
        self.notification_pending = false;
    }
}

/// The messages that carry packets: each is announced first.
pub open spec fn packet_messages(packets: Seq<Vec<u8>>) -> Seq<Seq<u8>>
    decreases packets.len(),
{
    if packets.len() == 0 {
        Seq::empty()
    } else {
        packet_messages(packets.drop_last()) + seq![
            seq![MSG_SNDIN_DATA_INCOMING],
            seq![MSG_SNDIN_DATA] + packets.last()@,
        ]
    }
}

/// What a message of the server asks for.
pub enum AudioInputStep {
    /// Send these messages.
    Send(Vec<Vec<u8>>),
    /// Stop a running capture, start this one, and report how that went.
    StartCapture { format: PcmCaptureFormat, frames_per_packet: u32 },
}

impl AudioInputStep {
    pub open spec fn sends(self, messages: Seq<Seq<u8>>) -> bool {
        self matches AudioInputStep::Send(sent) && views(sent@) == messages
    }
}

/// The client of the AUDIO_INPUT channel.
pub struct AudioInputClient {
    pub selected_format: Option<PcmCaptureFormat>,
    pub capturing: bool,
    pub queue: MicrophonePacketQueue,
}

impl AudioInputClient {
    pub open spec fn well_formed(self) -> bool {
        self.queue.well_formed()
    }

    pub fn new() -> (r: Self)
        ensures
            r.well_formed(),
            r.selected_format is None && !r.capturing && r.queue.packets@.len() == 0,
            !r.queue.notification_pending,
    {
        AudioInputClient {
            selected_format: None,
            capturing: false,
            queue: MicrophonePacketQueue::new(),
        }
    }

    /// The messages for the packets that wait, in their order.
    pub fn drain_messages(&mut self) -> (r: Vec<Vec<u8>>)
        ensures
            views(r@) == packet_messages(old(self).queue.packets@),
            final(self).queue.packets@.len() == 0,
            !final(self).queue.notification_pending,
            final(self).selected_format == old(self).selected_format,
            final(self).capturing == old(self).capturing,
    {
        let packets = self.queue.drain();
        let mut out: Vec<Vec<u8>> = Vec::new();
        let mut i: usize = 0;
        assert(views(out@) =~= packet_messages(packets@.take(0)));
        while i < packets.len()
            invariant
                i <= packets.len(),
                views(out@) == packet_messages(packets@.take(i as int)),
            decreases packets.len() - i,
        {
            let mut data: Vec<u8> = Vec::new();
            data.push(MSG_SNDIN_DATA);
            let mut k: usize = 0;
            while k < packets[i].len()
                invariant
                    i < packets.len(),
                    k <= packets@[i as int]@.len(),
                    data@ == seq![MSG_SNDIN_DATA] + packets@[i as int]@.take(k as int),
                decreases packets@[i as int]@.len() - k,
            {
                data.push(packets[i][k]);
                assert(data@ =~= seq![MSG_SNDIN_DATA] + packets@[i as int]@.take(k + 1));
                k = k + 1;
            }
            assert(packets@[i as int]@.take(k as int) =~= packets@[i as int]@);
            let mut notice: Vec<u8> = Vec::new();
            notice.push(MSG_SNDIN_DATA_INCOMING);
            assert(notice@ =~= seq![MSG_SNDIN_DATA_INCOMING]);
            let ghost before = out@;
            out.push(notice);
            out.push(data);
            proof {
                let head = packets@.take(i + 1);
                assert(head.drop_last() =~= packets@.take(i as int));
                assert(views(out@) =~= views(before) + seq![notice@, data@]);
            }
            i = i + 1;
        }
        assert(packets@.take(i as int) =~= packets@);
        out
    }

    fn process_version(&self, payload: &[u8]) -> (r: Vec<Vec<u8>>)
        ensures
            views(r@) == version_reply(payload@),
    {
        match read_u32(payload, 1) {
            Some(version) => {
                if version <= AUDIO_INPUT_VERSION {
                    return messages_of_one(message_with_u32(MSG_SNDIN_VERSION, AUDIO_INPUT_VERSION));
                }
            },
            None => {},
        }
        let none: Vec<Vec<u8>> = Vec::new();
        assert(views(none@) =~= Seq::empty());
        none
    }

    fn process_formats(
        &mut self,
        payload: &[u8],
        device: &Option<Vec<DeviceConfigRange>>,
    ) -> (r: Vec<Vec<u8>>)
        requires
            choice_fits(payload@, *device),
        ensures
            final(self).queue == old(self).queue,
            final(self).capturing == old(self).capturing,
            match formats_choice(payload@, *device) {
                None => views(r@) == Seq::<Seq<u8>>::empty() && final(self).selected_format == old(
                    self,
                ).selected_format,
                Some(selected) => final(self).selected_format == selected && views(r@) == seq![
                    seq![MSG_SNDIN_DATA_INCOMING],
                    formats_reply(selected),
                ],
            },
    {
        let none: Vec<Vec<u8>> = Vec::new();
        assert(views(none@) =~= Seq::empty());
        let count: u32 = match read_u32(payload, 1) {
            Some(count) => count,
            None => return none,
        };
        if count == 0 || count > AUDIO_INPUT_MAX_FORMATS {
            return none;
        }
        let size: u32 = match read_u32(payload, 5) {
            Some(size) => size,
            None => return none,
        };
        if size as usize > payload.len() || size < 9 {
            return none;
        }
        let mut cursor: usize = 9;
        let mut selected: Option<PcmCaptureFormat> = None;
        let mut i: u32 = 0;
        let ghost all = listed_formats(payload@, 9, count as nat);
        let ghost seen = Seq::<PcmCaptureFormat>::empty();
        proof {
            if all is Some {
                assert(seen + all->Some_0 =~= all->Some_0);
            }
        }
        while i < count
            invariant
                i <= count,
                self.queue == old(self).queue,
                self.capturing == old(self).capturing,
                self.selected_format == old(self).selected_format,
                none@.len() == 0,
                views(none@) == Seq::<Seq<u8>>::empty(),
                formats_choice(payload@, *device) == (match all {
                    None => None,
                    Some(formats) => Some(first_capturable(formats, *device)),
                }),
                all == (match listed_formats(payload@, cursor as int, (count - i) as nat) {
                    None => None,
                    Some(rest) => Some(seen + rest),
                }),
                selected == first_capturable(seen, *device),
                selected is Some ==> capturable(selected->Some_0, *device),
            decreases count - i,
        {
            let ghost remaining = listed_formats(payload@, cursor as int, (count - i) as nat);
            match parse_wave_format(payload, cursor) {
                None => {
                    return none;
                },
                Some((format, next)) => {
                    proof {
                        lemma_first_capturable_push(seen, format, *device);
                        match listed_formats(payload@, next as int, (count - i - 1) as nat) {
                            None => {},
                            Some(rest) => {
                                assert(seen.push(format) + rest =~= seen + (seq![format] + rest));
                            },
                        }
                        seen = seen.push(format);
                    }
                    cursor = next;
                    if selected.is_none() && capture_format_supported(format, device) {
                        selected = Some(format);
                    }
                },
            }
            i = i + 1;
        }
        proof {
            assert(listed_formats(payload@, cursor as int, 0) == Some(
                Seq::<PcmCaptureFormat>::empty(),
            ));
            assert(seen + Seq::<PcmCaptureFormat>::empty() =~= seen);
        }
        self.selected_format = selected;
        let mut response: Vec<u8> = Vec::new();
        response.push(MSG_SNDIN_FORMATS);
        match selected {
            Some(format) => {
                push_u32(&mut response, 1);
                push_u32(&mut response, 27);
                format.encode_wave_format(&mut response);
            },
            None => {
                push_u32(&mut response, 0);
                push_u32(&mut response, 9);
            },
        }
        assert(response@ =~= formats_reply(selected));
        let mut notice: Vec<u8> = Vec::new();
        notice.push(MSG_SNDIN_DATA_INCOMING);
        assert(notice@ =~= seq![MSG_SNDIN_DATA_INCOMING]);
        messages_of_two(notice, response)
    }

    fn process_format_change(&self, payload: &[u8]) -> (r: Vec<Vec<u8>>)
        ensures
            views(r@) == format_change_reply(payload@, self.selected_format),
    {
        match read_u32(payload, 1) {
            Some(index) => {
                if index == 0 && self.selected_format.is_some() {
                    return messages_of_one(message_with_u32(MSG_SNDIN_FORMAT_CHANGE, 0));
                }
            },
            None => {},
        }
        let none: Vec<Vec<u8>> = Vec::new();
        assert(views(none@) =~= Seq::empty());
        none
    }

    /// Stops a running capture, says whether there was one, and forgets what waits.
    pub fn stop_capture(&mut self) -> (was_capturing: bool)
        ensures
            final(self).well_formed(),
            was_capturing == old(self).capturing,
            !final(self).capturing,
            final(self).queue.packets@.len() == 0,
            !final(self).queue.notification_pending,
            final(self).selected_format == old(self).selected_format,
    {
        let was_capturing = self.capturing;
        self.capturing = false;
        self.queue.clear();
        was_capturing
    }

    fn process_open(&mut self, payload: &[u8]) -> (r: AudioInputStep)
        requires
            old(self).well_formed(),
        ensures
            final(self).well_formed(),
            final(self).selected_format == old(self).selected_format,
            match open_decision(payload@, old(self).selected_format) {
                OpenDecision::Ignore => r.sends(Seq::empty()) && *final(self) == *old(self),
                OpenDecision::Refuse => r.sends(seq![number_message(MSG_SNDIN_OPEN_REPLY, 1)])
                    && *final(self) == *old(self),
                OpenDecision::Capture { format, frames_per_packet } => {
                    &&& r == (AudioInputStep::StartCapture { format, frames_per_packet })
                    &&& !final(self).capturing
                    &&& final(self).queue.packets@.len() == 0
                    &&& !final(self).queue.notification_pending
                },
            },
    {
        let frames: u32 = match read_u32(payload, 1) {
            Some(frames) => frames,
            None => {
                let none: Vec<Vec<u8>> = Vec::new();
                assert(views(none@) =~= Seq::empty());
                return AudioInputStep::Send(none);
            },
        };
        let initial: u32 = match read_u32(payload, 5) {
            Some(initial) => initial,
            None => {
                let none: Vec<Vec<u8>> = Vec::new();
                assert(views(none@) =~= Seq::empty());
                return AudioInputStep::Send(none);
            },
        };
        if initial == 0 && frames != 0 {
            match self.selected_format {
                Some(format) => {
                    let limit: u64 = format.sample_rate as u64 * 2;
                    if frames as u64 <= limit {
                        let _ = self.stop_capture();
                        return AudioInputStep::StartCapture { format, frames_per_packet: frames };
                    }
                },
                None => {},
            }
        }
        AudioInputStep::Send(messages_of_one(message_with_u32(MSG_SNDIN_OPEN_REPLY, 1)))
    }

    /// Takes up how starting a capture went, and answers the server.
    pub fn capture_started(&mut self, started: bool) -> (r: Vec<Vec<u8>>)
        ensures
            final(self).queue == old(self).queue,
            final(self).selected_format == old(self).selected_format,
            final(self).capturing == (old(self).capturing || started),
            views(r@) == (if started {
                seq![
                    number_message(MSG_SNDIN_FORMAT_CHANGE, 0),
                    number_message(MSG_SNDIN_OPEN_REPLY, 0),
                ]
            } else {
                seq![number_message(MSG_SNDIN_OPEN_REPLY, 1)]
            }),
    {
        if started {
            self.capturing = true;
            messages_of_two(
                message_with_u32(MSG_SNDIN_FORMAT_CHANGE, 0),
                message_with_u32(MSG_SNDIN_OPEN_REPLY, 0),
            )
        } else {
            messages_of_one(message_with_u32(MSG_SNDIN_OPEN_REPLY, 1))
        }
    }

    /// Handles a message of the server. `device` holds what the microphone supports.
    pub fn process(&mut self, payload: &[u8], device: &Option<Vec<DeviceConfigRange>>) -> (r:
        AudioInputStep)
        requires
            old(self).well_formed(),
            payload@.len() > 0 && payload@[0] == MSG_SNDIN_FORMATS ==> choice_fits(
                payload@,
                *device,
            ),
        ensures
            final(self).well_formed(),
            payload@.len() > 0 && payload@[0] == MSG_SNDIN_VERSION ==> *final(self) == *old(self)
                && r.sends(version_reply(payload@)),
            payload@.len() > 0 && payload@[0] == MSG_SNDIN_FORMATS ==> final(self).queue == old(
                self,
            ).queue && final(self).capturing == old(self).capturing && (match formats_choice(
                payload@,
                *device,
            ) {
                None => r.sends(Seq::empty()) && final(self).selected_format == old(
                    self,
                ).selected_format,
                Some(selected) => final(self).selected_format == selected && r.sends(
                    seq![seq![MSG_SNDIN_DATA_INCOMING], formats_reply(selected)],
                ),
            }),
            payload@.len() > 0 && payload@[0] == MSG_SNDIN_OPEN ==> final(self).selected_format
                == old(self).selected_format && (match open_decision(
                payload@,
                old(self).selected_format,
            ) {
                OpenDecision::Ignore => r.sends(Seq::empty()) && *final(self) == *old(self),
                OpenDecision::Refuse => r.sends(seq![number_message(MSG_SNDIN_OPEN_REPLY, 1)])
                    && *final(self) == *old(self),
                OpenDecision::Capture { format, frames_per_packet } => {
                    &&& r == (AudioInputStep::StartCapture { format, frames_per_packet })
                    &&& !final(self).capturing
                    &&& final(self).queue.packets@.len() == 0
                    &&& !final(self).queue.notification_pending
                },
            }),
            payload@.len() > 0 && payload@[0] == MSG_SNDIN_FORMAT_CHANGE ==> *final(self) == *old(
                self,
            ) && r.sends(format_change_reply(payload@, old(self).selected_format)),
            payload@.len() == 0 || !(payload@[0] == MSG_SNDIN_VERSION || payload@[0]
                == MSG_SNDIN_FORMATS || payload@[0] == MSG_SNDIN_OPEN || payload@[0]
                == MSG_SNDIN_FORMAT_CHANGE) ==> *final(self) == *old(self) && r.sends(Seq::empty()),
    {
        if payload.len() > 0 {
            let id: u8 = payload[0];
            if id == MSG_SNDIN_VERSION {
                return AudioInputStep::Send(self.process_version(payload));
            }
            if id == MSG_SNDIN_FORMATS {
                return AudioInputStep::Send(self.process_formats(payload, device));
            }
            if id == MSG_SNDIN_OPEN {
                return self.process_open(payload);
            }
            if id == MSG_SNDIN_FORMAT_CHANGE {
                return AudioInputStep::Send(self.process_format_change(payload));
            }
        }
        let none: Vec<Vec<u8>> = Vec::new();
        assert(views(none@) =~= Seq::empty());
        AudioInputStep::Send(none)
    }
}

/// The answer to the version of the server; a newer one gets none.
pub open spec fn version_reply(payload: Seq<u8>) -> Seq<Seq<u8>> {
    match u32_at(payload, 1) {
        Some(version) => if version <= AUDIO_INPUT_VERSION {
            seq![number_message(MSG_SNDIN_VERSION, AUDIO_INPUT_VERSION)]
        } else {
            Seq::empty()
        },
        None => Seq::empty(),
    }
}

/// The answer to a change of format: only the chosen one can be changed to.
pub open spec fn format_change_reply(
    payload: Seq<u8>,
    selected: Option<PcmCaptureFormat>,
) -> Seq<Seq<u8>> {
    if u32_at(payload, 1) == Some(0u32) && selected is Some {
        seq![number_message(MSG_SNDIN_FORMAT_CHANGE, 0)]
    } else {
        Seq::empty()
    }
}

proof fn lemma_first_capturable_push(
    formats: Seq<PcmCaptureFormat>,
    format: PcmCaptureFormat,
    device: Option<Vec<DeviceConfigRange>>,
)
    ensures
        first_capturable(formats.push(format), device) == (match first_capturable(formats, device) {
            Some(found) => Some(found),
            None => if capturable(format, device) {
                Some(format)
            } else {
                None
            },
        }),
    decreases formats.len(),
{
    let all = formats.push(format);
    if formats.len() == 0 {
        assert(all.drop_first() =~= Seq::empty());
        assert(first_capturable(all.drop_first(), device) is None);
        assert(all[0] == format);
    } else {
        assert(all.drop_first() =~= formats.drop_first().push(format));
        assert(all[0] == formats[0]);
        if !capturable(formats[0], device) {
            lemma_first_capturable_push(formats.drop_first(), format, device);
        }
    }
}

/// The format that is chosen is one that was offered and that the device can capture.
pub proof fn law_chosen_format_is_offered(
    formats: Seq<PcmCaptureFormat>,
    device: Option<Vec<DeviceConfigRange>>,
)
    ensures
        match first_capturable(formats, device) {
            Some(format) => formats.contains(format) && capturable(format, device),
            None => forall|i: int|
                0 <= i < formats.len() ==> !capturable(#[trigger] formats[i], device),
        },
    decreases formats.len(),
{
    if formats.len() > 0 {
        let rest = formats.drop_first();
        if capturable(formats[0], device) {
            assert(formats.contains(formats[0]));
        } else {
            law_chosen_format_is_offered(rest, device);
            match first_capturable(rest, device) {
                Some(format) => {
                    let i = choose|i: int| 0 <= i < rest.len() && rest[i] == format;
                    assert(formats[i + 1] == format);
                },
                None => {
                    assert forall|i: int| 0 <= i < formats.len() implies !capturable(
                        #[trigger] formats[i],
                        device,
                    ) by {
                        if i > 0 {
                            assert(rest[i - 1] == formats[i]);
                        }
                    }
                },
            }
        }
    }
}

/// How many samples make up a packet.
pub fn packet_samples(frames_per_packet: u32, channels: u16) -> (r: Result<usize, String>)
    ensures
        match r {
            Ok(n) => n == frames_per_packet * channels,
            Err(message) => frames_per_packet * channels > usize::MAX && message@
                == "microphone packet size overflowed"@,
        },
{
    match (frames_per_packet as usize).checked_mul(channels as usize) {
        Some(n) => Ok(n),
        None => Err("microphone packet size overflowed".to_owned()),
    }
}

/// The bytes of samples.
pub open spec fn packet_bytes(samples: Seq<i16>) -> Seq<u8>
    decreases samples.len(),
{
    if samples.len() == 0 {
        Seq::empty()
    } else {
        packet_bytes(samples.drop_last()) + sample_bytes(samples.last())
    }
}

/// Gathers captured samples into packets of one size.
pub struct MicrophonePacketizer {
    pub packet_samples: usize,
    pub pending: Vec<i16>,
}

impl MicrophonePacketizer {
    pub fn new(packet_samples: usize) -> (r: Self)
        ensures
            r.packet_samples == packet_samples,
            r.pending@.len() == 0,
    {
        MicrophonePacketizer { packet_samples, pending: Vec::new() }
    }

    /// Adds a sample, and hands out the packet that it completes.
    pub fn push(&mut self, sample: i16) -> (r: Option<Vec<u8>>)
        ensures
            final(self).packet_samples == old(self).packet_samples,
            match r {
                Some(packet) => old(self).pending@.len() + 1 == old(self).packet_samples && packet@
                    == packet_bytes(old(self).pending@.push(sample)) && final(self).pending@.len()
                    == 0,
                None => old(self).pending@.len() + 1 != old(self).packet_samples && final(
                    self).pending@ == old(self).pending@.push(sample),
            },
    {
        self.pending.push(sample);
        if self.pending.len() != self.packet_samples {
            return None;
        }
        let mut packet: Vec<u8> = Vec::new();
        let mut i: usize = 0;
        assert(packet@ =~= packet_bytes(self.pending@.take(0)));
        while i < self.pending.len()
            invariant
                i <= self.pending@.len(),
                packet@ == packet_bytes(self.pending@.take(i as int)),
                self.pending@ == old(self).pending@.push(sample),
                self.packet_samples == old(self).packet_samples,
            decreases self.pending@.len() - i,
        {
            push_sample(&mut packet, self.pending[i]);
            assert(self.pending@.take(i + 1).drop_last() =~= self.pending@.take(i as int));
            i = i + 1;
        }
        assert(self.pending@.take(i as int) =~= self.pending@);
        self.pending.clear();
        Some(packet)
    }
}

/// The header of a format has eighteen bytes: the tag of plain samples, the channels, the rate, the
/// bytes of a second, the bytes of a frame, sixteen bits a sample, and nothing behind it.
pub proof fn law_headers_of_formats_are_laid_out(format: PcmCaptureFormat)
    requires
        format.fits(),
    ensures
        ({
            let header = wave_format(format);
            &&& header.len() == 18
            &&& le16(header, 0) == 1
            &&& le16(header, 2) == format.channels
            &&& le32(header, 4) == format.sample_rate
            &&& le32(header, 8) == format.sample_rate * format.channels * 2
            &&& le16(header, 12) == format.channels * 2
            &&& le16(header, 14) == 16
            &&& le16(header, 16) == 0
        }),
{
    let header = wave_format(format);
    let rate = format.sample_rate as int;
    let speed = format.sample_rate * format.channels * 2;
    law_le_round_trip(1);
    law_le_round_trip(format.channels as int);
    law_le_round_trip(rate);
    law_le_round_trip(speed);
    law_le_round_trip(format.channels * 2);
    law_le_round_trip(16);
    law_le_round_trip(0);
    let a = le16_bytes(1);
    let b = le16_bytes(format.channels as int);
    let c = le32_bytes(rate);
    let d = le32_bytes(speed);
    let e = le16_bytes(format.channels * 2);
    let f = le16_bytes(16);
    let g = le16_bytes(0);
    assert(header[0] == a[0] && header[1] == a[1]);
    assert(header[2] == b[0] && header[3] == b[1]);
    assert(header[4] == c[0] && header[5] == c[1] && header[6] == c[2] && header[7] == c[3]);
    assert(header[8] == d[0] && header[9] == d[1] && header[10] == d[2] && header[11] == d[3]);
    assert(header[12] == e[0] && header[13] == e[1]);
    assert(header[14] == f[0] && header[15] == f[1]);
    assert(header[16] == g[0] && header[17] == g[1]);
}

/// The numbers of messages, versions and limits of the channel.
pub proof fn law_numbers_of_the_channel()
    ensures
        AUDIO_INPUT_VERSION == 2,
        AUDIO_INPUT_MAX_FORMATS == 1000,
        AUDIO_INPUT_MAX_QUEUED_PACKETS == 8,
        MSG_SNDIN_VERSION == 1,
        MSG_SNDIN_FORMATS == 2,
        MSG_SNDIN_OPEN == 3,
        MSG_SNDIN_OPEN_REPLY == 4,
        MSG_SNDIN_DATA_INCOMING == 5,
        MSG_SNDIN_DATA == 6,
        MSG_SNDIN_FORMAT_CHANGE == 7,
{
}

/// A message with a number has five bytes: its identifier and the number.
pub proof fn law_numbers_are_sent_low_byte_first(id: u8, value: u32)
    ensures
        number_message(id, value).len() == 5,
        number_message(id, value)[0] == id,
        le32(number_message(id, value), 1) == value,
{
    law_le_round_trip(value as int);
    let bytes = le32_bytes(value as int);
    let message = number_message(id, value);
    assert(message[1] == bytes[0] && message[2] == bytes[1] && message[3] == bytes[2]
        && message[4] == bytes[3]);
}

/// The answer to a list of formats tells how many are taken and how long it is.
pub proof fn law_answers_to_formats(format: PcmCaptureFormat)
    requires
        format.fits(),
    ensures
        ({
            let answer = formats_reply(Some(format));
            &&& answer.len() == 27
            &&& answer[0] == 2
            &&& le32(answer, 1) == 1
            &&& le32(answer, 5) == answer.len()
            &&& answer.skip(9) == wave_format(format)
        }),
        ({
            let answer = formats_reply(None);
            &&& answer.len() == 9
            &&& answer[0] == 2
            &&& le32(answer, 1) == 0
            &&& le32(answer, 5) == answer.len()
        }),
{
    law_headers_of_formats_are_laid_out(format);
    law_le_round_trip(1);
    law_le_round_trip(27);
    law_le_round_trip(0);
    law_le_round_trip(9);
    let some = formats_reply(Some(format));
    let none = formats_reply(None);
    let one = le32_bytes(1);
    let long = le32_bytes(27);
    let zero = le32_bytes(0);
    let short = le32_bytes(9);
    assert(some[1] == one[0] && some[2] == one[1] && some[3] == one[2] && some[4] == one[3]);
    assert(some[5] == long[0] && some[6] == long[1] && some[7] == long[2] && some[8] == long[3]);
    assert(some.skip(9) =~= wave_format(format));
    assert(none[1] == zero[0] && none[2] == zero[1] && none[3] == zero[2] && none[4] == zero[3]);
    assert(none[5] == short[0] && none[6] == short[1] && none[7] == short[2] && none[8]
        == short[3]);
}

/// One or two channels at a rate that the device serves can be captured.
pub proof fn law_what_can_be_captured(
    format: PcmCaptureFormat,
    ranges: Vec<DeviceConfigRange>,
    i: int,
)
    ensures
        !capturable(format, None),
        capturable(format, Some(ranges)) <==> (format.channels == 1 || format.channels == 2)
            && format.sample_rate > 0 && serves_any(ranges@, format.channels, format.sample_rate),
{
}

/// The first format of a list that can be captured is chosen.
pub proof fn law_the_first_format_is_chosen(
    formats: Seq<PcmCaptureFormat>,
    device: Option<Vec<DeviceConfigRange>>,
    at: int,
)
    requires
        0 <= at <= formats.len(),
        forall|i: int| 0 <= i < at ==> !capturable(#[trigger] formats[i], device),
    ensures
        at < formats.len() && capturable(formats[at], device) ==> first_capturable(formats, device)
            == Some(formats[at]),
        at == formats.len() ==> first_capturable(formats, device) is None,
    decreases at,
{
    if at > 0 {
        let rest = formats.drop_first();
        assert(!capturable(formats[0], device));
        assert forall|i: int| 0 <= i < at - 1 implies !capturable(#[trigger] rest[i], device) by {
            assert(rest[i] == formats[i + 1]);
        }
        law_the_first_format_is_chosen(rest, device, at - 1);
    }
}

/// A list of formats is ignored where its numbers cannot be right.
pub proof fn law_lists_of_formats_are_checked(
    payload: Seq<u8>,
    device: Option<Vec<DeviceConfigRange>>,
)
    requires
        payload.len() >= 9,
    ensures
        le32(payload, 1) == 0 ==> formats_choice(payload, device) is None,
        le32(payload, 1) > 1000 ==> formats_choice(payload, device) is None,
        le32(payload, 5) < 9 || le32(payload, 5) > payload.len() ==> formats_choice(payload, device)
            is None,
        payload.len() == 9 ==> formats_choice(payload, device) is None,
{
    assert(0 <= le32(payload, 1) <= u32::MAX);
    assert(0 <= le32(payload, 5) <= u32::MAX);
}

/// The stream is opened with the format that was chosen, for up to two seconds of frames a packet
/// and for the first format of the list; anything else is refused.
pub proof fn law_streams_are_opened_or_refused(
    payload: Seq<u8>,
    selected: Option<PcmCaptureFormat>,
)
    ensures
        payload.len() < 9 ==> open_decision(payload, selected) is Ignore,
        payload.len() >= 9 ==> ({
            let frames = le32(payload, 1);
            let initial = le32(payload, 5);
            &&& selected is None || initial != 0 || frames == 0 ==> open_decision(payload, selected)
                is Refuse
            &&& selected matches Some(format) ==> (initial == 0 && frames > 0 ==> (frames
                <= 2 * format.sample_rate ==> open_decision(payload, selected) == (
            OpenDecision::Capture { format, frames_per_packet: frames as u32 })))
            &&& selected matches Some(format) ==> (initial == 0 && frames > 2 * format.sample_rate
                ==> open_decision(payload, selected) is Refuse)
        }),
{
    if payload.len() >= 9 {
        assert(0 <= le32(payload, 1) <= u32::MAX);
        assert(0 <= le32(payload, 5) <= u32::MAX);
    }
}

/// Each packet is announced and then sent, in their order.
pub proof fn law_packets_are_announced(packets: Seq<Vec<u8>>, packet: Vec<u8>)
    ensures
        packet_messages(Seq::empty()).len() == 0,
        packet_messages(packets.push(packet)) == packet_messages(packets).push(seq![5u8]).push(
            seq![6u8] + packet@,
        ),
{
    assert(packets.push(packet).drop_last() =~= packets);
    assert(packet_messages(packets.push(packet)) =~= packet_messages(packets).push(
        seq![5u8],
    ).push(seq![6u8] + packet@));
}

/// The version is answered with the own one, unless the server's is newer.
pub proof fn law_versions_are_answered(
    payload: Seq<u8>,
    selected: Option<PcmCaptureFormat>,
)
    requires
        payload.len() >= 5,
    ensures
        le32(payload, 1) <= 2 ==> version_reply(payload) == seq![number_message(1, 2)],
        le32(payload, 1) > 2 ==> version_reply(payload).len() == 0,
        le32(payload, 1) == 0 && selected is Some ==> format_change_reply(payload, selected)
            == seq![number_message(7, 0)],
        le32(payload, 1) != 0 || selected is None ==> format_change_reply(payload, selected).len()
            == 0,
{
    assert(0 <= le32(payload, 1) <= u32::MAX);
}

/// The bytes of a packet are those of its samples, in their order.
pub proof fn law_packets_hold_samples_in_order(samples: Seq<i16>, sample: i16)
    ensures
        packet_bytes(Seq::empty()).len() == 0,
        packet_bytes(samples.push(sample)) == packet_bytes(samples) + sample_bytes(sample),
{
    assert(samples.push(sample).drop_last() =~= samples);
}

/// What a step sends is its messages, byte for byte and in their order.
pub proof fn law_steps_send_their_messages(sent: Vec<Vec<u8>>, messages: Seq<Seq<u8>>, i: int)
    ensures
        AudioInputStep::Send(sent).sends(messages) ==> sent@.len() == messages.len() && (0 <= i
            < sent@.len() ==> sent@[i]@ == messages[i]),
        AudioInputStep::Send(sent).sends(messages) <==> views(sent@) == messages,
        views(sent@).len() == sent@.len(),
        0 <= i < sent@.len() ==> views(sent@)[i] == sent@[i]@,
{
}

} // verus!
