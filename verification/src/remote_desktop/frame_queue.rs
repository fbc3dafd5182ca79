//! The bounded queue of frame events between a remote desktop and its surface.

use crate::remote_desktop::frame::{
    fits, joins, merged, updated, FrameView, RemoteDesktopFrame, RemoteDesktopFrameUpdate,
    UpdateView,
};
use std::collections::VecDeque;
use vstd::prelude::*;

verus! {

pub const DEFAULT_MAX_EVENTS: usize = 256;

pub const DEFAULT_MAX_DIRTY_BYTES: usize = 33554432;

/// The bytes of a frame of the largest size.
pub const MAX_BASE_FRAME_BYTES: usize = 268435456;

/// The time between two presented frames, in nanoseconds.
pub const FRAME_PRESENTATION_INTERVAL: u64 = 16000000;

/// What the helper of a remote desktop reports.
#[derive(Debug, PartialEq, Eq)]
pub enum RemoteDesktopHelperEvent {
    Frame { frame: RemoteDesktopFrame },
    FrameUpdate { update: RemoteDesktopFrameUpdate },
    FrameStreamReset { graphics_epoch: u64 },
    /// Anything that carries no picture.
    Notice { message: String },
}

#[verifier::ext_equal]
pub enum EventView {
    Frame(FrameView),
    Update(UpdateView),
    Reset(u64),
    Notice(Seq<char>),
}

impl View for RemoteDesktopHelperEvent {
    type V = EventView;

    open spec fn view(&self) -> EventView {
        match self {
            RemoteDesktopHelperEvent::Frame { frame } => EventView::Frame(frame@),
            RemoteDesktopHelperEvent::FrameUpdate { update } => EventView::Update(update@),
            RemoteDesktopHelperEvent::FrameStreamReset { graphics_epoch } => EventView::Reset(
                *graphics_epoch,
            ),
            RemoteDesktopHelperEvent::Notice { message } => EventView::Notice(message@),
        }
    }
}

#[derive(Clone, Copy, Debug, Eq, PartialEq, Structural)]
pub enum RemoteDesktopFrameQueuePush {
    Queued,
    RecoveryRequired,
    AwaitingRecovery,
    Discarded,
}

#[derive(Clone, Copy, Debug, Eq, PartialEq, Structural)]
pub struct RemoteDesktopFrameDeliveryDecision {
    pub frame_ready: bool,
    pub recovery_required: bool,
}

impl Default for RemoteDesktopFrameDeliveryDecision {
    fn default() -> (r: Self)
        ensures
            !r.frame_ready && !r.recovery_required,
    {
        RemoteDesktopFrameDeliveryDecision { frame_ready: false, recovery_required: false }
    }
}

pub struct RemoteDesktopFrameQueue {
    pub frames: VecDeque<RemoteDesktopHelperEvent>,
    pub queued_dirty_bytes: usize,
    pub active_graphics_epoch: Option<u64>,
    pub awaiting_base_frame: bool,
    pub max_events: usize,
    pub max_dirty_bytes: usize,
}

#[verifier::ext_equal]
pub struct QueueView {
    pub frames: Seq<EventView>,
    pub dirty: nat,
    pub epoch: Option<u64>,
    pub awaiting: bool,
    pub max_events: nat,
    pub max_dirty: nat,
}

pub open spec fn event_views(events: Seq<RemoteDesktopHelperEvent>) -> Seq<EventView> {
    Seq::new(events.len(), |i: int| events[i]@)
}

impl View for RemoteDesktopFrameQueue {
    type V = QueueView;

    open spec fn view(&self) -> QueueView {
        QueueView {
            frames: event_views(self.frames@),
            dirty: self.queued_dirty_bytes as nat,
            epoch: self.active_graphics_epoch,
            awaiting: self.awaiting_base_frame,
            max_events: self.max_events as nat,
            max_dirty: self.max_dirty_bytes as nat,
        }
    }
}

/// The bytes that an event brings to the surface.
pub open spec fn event_bytes(event: EventView) -> nat {
    match event {
        EventView::Frame(frame) => frame.bytes.len(),
        EventView::Update(update) => update.bytes.len(),
        _ => 0,
    }
}

/// The bytes of all updates in a list of events.
pub open spec fn update_bytes(events: Seq<EventView>) -> nat
    decreases events.len(),
{
    if events.len() == 0 {
        0
    } else {
        update_bytes(events.drop_last()) + (if events.last() is Update {
            event_bytes(events.last())
        } else {
            0
        })
    }
}

/// A count held in a machine word: it stops at the largest value.
pub open spec fn saturated(n: nat) -> nat {
    if n <= usize::MAX {
        n
    } else {
        usize::MAX as nat
    }
}

/// What becomes of the last event of a queue and a new one: an update that fits goes into what is
/// there, one that does not stands behind it, and anything else takes its place.
pub open spec fn combined(existing: EventView, incoming: EventView) -> (EventView, Option<EventView>) {
    match (existing, incoming) {
        (EventView::Frame(frame), EventView::Update(update)) => if fits(frame, update) {
            (EventView::Frame(updated(frame, update)), None)
        } else {
            (existing, Some(incoming))
        },
        (EventView::Update(first), EventView::Update(second)) => if joins(first, second) {
            (EventView::Update(merged(first, second)), None)
        } else {
            (existing, Some(incoming))
        },
        _ => (incoming, None),
    }
}

/// The events with a new one taken in.
pub open spec fn taken_in(events: Seq<EventView>, incoming: EventView) -> Seq<EventView> {
    if events.len() == 0 {
        seq![incoming]
    } else {
        let (last, behind) = combined(events.last(), incoming);
        let kept = events.drop_last().push(last);
        match behind {
            Some(event) => kept.push(event),
            None => kept,
        }
    }
}

/// The newest frame of a list of events.
pub open spec fn newest_frame(events: Seq<EventView>) -> Option<EventView>
    decreases events.len(),
{
    if events.len() == 0 {
        None
    } else if events.last() is Frame {
        Some(events.last())
    } else {
        newest_frame(events.drop_last())
    }
}

pub open spec fn only(event: Option<EventView>) -> Seq<EventView> {
    match event {
        Some(event) => seq![event],
        None => Seq::empty(),
    }
}

/// A queue that takes in an event of its own lineage.
pub open spec fn enqueued(q: QueueView, event: EventView) -> (QueueView, RemoteDesktopFrameQueuePush) {
    if q.awaiting {
        (q, RemoteDesktopFrameQueuePush::AwaitingRecovery)
    } else {
        let frames = taken_in(q.frames, event);
        let dirty = saturated(update_bytes(frames));
        if frames.len() <= q.max_events && dirty <= q.max_dirty {
            (QueueView { frames, dirty, ..q }, RemoteDesktopFrameQueuePush::Queued)
        } else {
            (
                QueueView { frames: only(newest_frame(frames)), dirty: 0, awaiting: true, ..q },
                RemoteDesktopFrameQueuePush::RecoveryRequired,
            )
        }
    }
}

/// Whether an epoch lies before the active one.
pub open spec fn is_stale(epoch: u64, active: Option<u64>) -> bool {
    match active {
        Some(active) => epoch < active,
        None => false,
    }
}

/// A queue after an event.
pub open spec fn pushed(q: QueueView, event: EventView) -> (QueueView, RemoteDesktopFrameQueuePush) {
    match event {
        EventView::Reset(epoch) => if q.epoch is Some && epoch <= q.epoch->0 {
            (q, RemoteDesktopFrameQueuePush::Discarded)
        } else {
            (
                QueueView {
                    frames: seq![event],
                    dirty: 0,
                    epoch: Some(epoch),
                    awaiting: true,
                    ..q
                },
                RemoteDesktopFrameQueuePush::Queued,
            )
        },
        EventView::Frame(frame) => if is_stale(frame.graphics_epoch, q.epoch) {
            (q, RemoteDesktopFrameQueuePush::Discarded)
        } else if frame.bytes.len() > MAX_BASE_FRAME_BYTES {
            (
                QueueView { frames: Seq::empty(), dirty: 0, awaiting: true, ..q },
                RemoteDesktopFrameQueuePush::RecoveryRequired,
            )
        } else {
            (
                QueueView {
                    frames: seq![event],
                    dirty: 0,
                    epoch: Some(frame.graphics_epoch),
                    awaiting: false,
                    ..q
                },
                RemoteDesktopFrameQueuePush::Queued,
            )
        },
        EventView::Update(update) => if is_stale(update.graphics_epoch, q.epoch) {
            (q, RemoteDesktopFrameQueuePush::Discarded)
        } else if q.epoch is Some && update.graphics_epoch > q.epoch->0 {
            (
                QueueView {
                    frames: Seq::empty(),
                    dirty: 0,
                    epoch: Some(update.graphics_epoch),
                    awaiting: true,
                    ..q
                },
                RemoteDesktopFrameQueuePush::RecoveryRequired,
            )
        } else {
            enqueued(QueueView { epoch: Some(update.graphics_epoch), ..q }, event)
        },
        EventView::Notice(_) => enqueued(q, event),
    }
}

/// Whether a hidden surface drops what is queued: anything but a single frame.
pub open spec fn drops_when_hidden(q: QueueView) -> bool {
    q.frames.len() > 0 && !(q.frames.len() == 1 && q.frames[0] is Frame)
}

/// A queue cut down for a hidden surface.
pub open spec fn hidden(q: QueueView) -> QueueView {
    if drops_when_hidden(q) {
        QueueView { frames: Seq::empty(), dirty: 0, awaiting: true, ..q }
    } else {
        q
    }
}

/// A queue without its first event.
pub open spec fn popped(q: QueueView) -> QueueView {
    if q.frames.len() == 0 {
        q
    } else {
        QueueView {
            frames: q.frames.drop_first(),
            dirty: if q.frames[0] is Update {
                if q.dirty >= event_bytes(q.frames[0]) {
                    (q.dirty - event_bytes(q.frames[0])) as nat
                } else {
                    0
                }
            } else {
                q.dirty
            },
            ..q
        }
    }
}

pub fn is_remote_desktop_frame_event(event: &RemoteDesktopHelperEvent) -> (r: bool)
    ensures
        r == !(event@ is Notice),
{
    match event {
        RemoteDesktopHelperEvent::Frame { .. } => true,
        RemoteDesktopHelperEvent::FrameUpdate { .. } => true,
        RemoteDesktopHelperEvent::FrameStreamReset { .. } => true,
        RemoteDesktopHelperEvent::Notice { .. } => false,
    }
}

pub fn frame_event_bytes(event: &RemoteDesktopHelperEvent) -> (r: usize)
    ensures
        r == event_bytes(event@),
{
    match event {
        RemoteDesktopHelperEvent::Frame { frame } => frame.bytes.len(),
        RemoteDesktopHelperEvent::FrameUpdate { update } => update.bytes.len(),
        RemoteDesktopHelperEvent::FrameStreamReset { .. } => 0,
        RemoteDesktopHelperEvent::Notice { .. } => 0,
    }
}

/// Takes a new event into the last one of a queue; an event that stays apart is given back.
pub fn try_merge_frame_event(
    existing: RemoteDesktopHelperEvent,
    incoming: RemoteDesktopHelperEvent,
) -> (r: (RemoteDesktopHelperEvent, Option<RemoteDesktopHelperEvent>))
    ensures
        r.0@ == combined(existing@, incoming@).0,
        match r.1 {
            Some(behind) => combined(existing@, incoming@).1 == Some(behind@),
            None => combined(existing@, incoming@).1 is None,
        },
{
    match (existing, incoming) {
        (
            RemoteDesktopHelperEvent::Frame { mut frame },
            RemoteDesktopHelperEvent::FrameUpdate { update },
        ) => {
            if frame.apply_update(&update) {
                (RemoteDesktopHelperEvent::Frame { frame }, None)
            } else {
                (
                    RemoteDesktopHelperEvent::Frame { frame },
                    Some(RemoteDesktopHelperEvent::FrameUpdate { update }),
                )
            }
        },
        (
            RemoteDesktopHelperEvent::FrameUpdate { update: mut first },
            RemoteDesktopHelperEvent::FrameUpdate { update: second },
        ) => {
            if first.merge(&second) {
                (RemoteDesktopHelperEvent::FrameUpdate { update: first }, None)
            } else {
                (
                    RemoteDesktopHelperEvent::FrameUpdate { update: first },
                    Some(RemoteDesktopHelperEvent::FrameUpdate { update: second }),
                )
            }
        },
        (_, incoming) => (incoming, None),
    }
}

impl Default for RemoteDesktopFrameQueue {
    fn default() -> (r: Self)
        ensures
            r@ == empty_queue(DEFAULT_MAX_EVENTS as nat, DEFAULT_MAX_DIRTY_BYTES as nat),
    {
        RemoteDesktopFrameQueue::with_limits(DEFAULT_MAX_EVENTS, DEFAULT_MAX_DIRTY_BYTES)
    }
}

pub open spec fn empty_queue(max_events: nat, max_dirty: nat) -> QueueView {
    QueueView {
        frames: Seq::empty(),
        dirty: 0,
        epoch: None,
        awaiting: false,
        max_events,
        max_dirty,
    }
}

impl RemoteDesktopFrameQueue {
    pub fn with_limits(max_events: usize, max_dirty_bytes: usize) -> (r: Self)
        ensures
            r@ == empty_queue(max_events as nat, max_dirty_bytes as nat),
    {
        let r = RemoteDesktopFrameQueue {
            frames: VecDeque::new(),
            queued_dirty_bytes: 0,
            active_graphics_epoch: None,
            awaiting_base_frame: false,
            max_events,
            max_dirty_bytes,
        };
        assert(event_views(r.frames@) =~= Seq::<EventView>::empty());
        r
    }

    fn drop_all(&mut self)
        ensures
            final(self)@ == (QueueView { frames: Seq::empty(), dirty: 0, ..old(self)@ }),
    {
        self.frames.clear();
        self.queued_dirty_bytes = 0;
        assert(event_views(self.frames@) =~= Seq::<EventView>::empty());
    }

    fn put_single(&mut self, event: RemoteDesktopHelperEvent)
        requires
            old(self)@.frames.len() == 0,
        ensures
            final(self)@ == (QueueView { frames: seq![event@], ..old(self)@ }),
    {
        self.frames.push_back(event);
        assert(event_views(self.frames@) =~= seq![event@]);
    }

    fn count_update_bytes(&self) -> (r: usize)
        ensures
            r == saturated(update_bytes(self@.frames)),
    {
        let mut total: usize = 0;
        let mut i: usize = 0;
        assert(self@.frames.take(0) =~= Seq::<EventView>::empty());
        while i < self.frames.len()
            invariant
                i <= self.frames@.len(),
                total == saturated(update_bytes(self@.frames.take(i as int))),
            decreases self.frames@.len() - i,
        {
            let event = &self.frames[i];
            proof {
                let head = self@.frames.take(i + 1);
                assert(head.drop_last() =~= self@.frames.take(i as int));
                assert(head.last() == event@);
            }
            if let RemoteDesktopHelperEvent::FrameUpdate { .. } = event {
                total = total.saturating_add(frame_event_bytes(event));
            }
            i = i + 1;
        }
        assert(self@.frames.take(i as int) =~= self@.frames);
        total
    }

    /// Takes the newest frame out of the queue.
    fn take_newest_frame(&mut self) -> (r: Option<RemoteDesktopHelperEvent>)
        ensures
            match r {
                Some(event) => newest_frame(old(self)@.frames) == Some(event@),
                None => newest_frame(old(self)@.frames) is None,
            },
            final(self)@ == (QueueView { frames: final(self)@.frames, ..old(self)@ }),
    {
        let ghost all = self@.frames;
        let mut n: usize = self.frames.len();
        assert(all.take(n as int) =~= all);
        while n > 0
            invariant
                n <= self.frames@.len(),
                self@ == old(self)@,
                all == self@.frames,
                newest_frame(all.take(n as int)) == newest_frame(all),
            decreases n,
        {
            proof {
                assert(all.take(n as int).last() == self.frames@[n - 1]@);
                assert(all.take(n as int).drop_last() =~= all.take(n - 1));
            }
            if let RemoteDesktopHelperEvent::Frame { .. } = &self.frames[n - 1] {
                let ghost found = self.frames@[n - 1];
                let taken = self.frames.remove(n - 1);
                assert(taken == Some(found));
                return taken;
            }
            n = n - 1;
        }
        None
    }

    pub fn push(&mut self, event: RemoteDesktopHelperEvent) -> (r: RemoteDesktopFrameQueuePush)
        ensures
            (final(self)@, r) == pushed(old(self)@, event@),
    {
        if let RemoteDesktopHelperEvent::FrameStreamReset { graphics_epoch } = &event {
            let epoch: u64 = *graphics_epoch;
            if let Some(active) = self.active_graphics_epoch {
                if epoch <= active {
                    return RemoteDesktopFrameQueuePush::Discarded;
                }
            }
            self.drop_all();
            self.active_graphics_epoch = Some(epoch);
            self.awaiting_base_frame = true;
            self.put_single(event);
            return RemoteDesktopFrameQueuePush::Queued;
        }
        if let RemoteDesktopHelperEvent::Frame { frame } = &event {
            if let Some(active) = self.active_graphics_epoch {
                if frame.graphics_epoch < active {
                    return RemoteDesktopFrameQueuePush::Discarded;
                }
            }
            let epoch: u64 = frame.graphics_epoch;
            let bytes: usize = frame_event_bytes(&event);
            self.drop_all();
            if bytes > MAX_BASE_FRAME_BYTES {
                self.awaiting_base_frame = true;
                return RemoteDesktopFrameQueuePush::RecoveryRequired;
            }
            self.active_graphics_epoch = Some(epoch);
            self.put_single(event);
            self.awaiting_base_frame = false;
            return RemoteDesktopFrameQueuePush::Queued;
        }
        if let RemoteDesktopHelperEvent::FrameUpdate { update } = &event {
            let epoch: u64 = update.graphics_epoch;
            match self.active_graphics_epoch {
                Some(active) => {
                    if epoch < active {
                        return RemoteDesktopFrameQueuePush::Discarded;
                    }
                    if epoch > active {
                        self.drop_all();
                        self.active_graphics_epoch = Some(epoch);
                        self.awaiting_base_frame = true;
                        return RemoteDesktopFrameQueuePush::RecoveryRequired;
                    }
                },
                None => {
                    self.active_graphics_epoch = Some(epoch);
                },
            }
        }
        self.enqueue(event)
    }

    fn enqueue(&mut self, event: RemoteDesktopHelperEvent) -> (r: RemoteDesktopFrameQueuePush)
        ensures
            (final(self)@, r) == enqueued(old(self)@, event@),
    {
        if self.awaiting_base_frame {
            return RemoteDesktopFrameQueuePush::AwaitingRecovery;
        }
        let ghost before = self@;
        let ghost raw = self.frames@;
        match self.frames.pop_back() {
            Some(existing) => {
                assert(event_views(self.frames@) =~= before.frames.drop_last());
                assert(existing@ == before.frames.last());
                let (last, behind) = try_merge_frame_event(existing, event);
                let ghost last_view = last@;
                self.frames.push_back(last);
                assert(event_views(self.frames@) =~= before.frames.drop_last().push(last_view));
                if let Some(apart) = behind {
                    let ghost apart_view = apart@;
                    let ghost kept = event_views(self.frames@);
                    self.frames.push_back(apart);
                    assert(event_views(self.frames@) =~= kept.push(apart_view));
                }
            },
            None => {
                self.frames.push_back(event);
                assert(event_views(self.frames@) =~= seq![event@]);
            },
        }
        assert(self@.frames == taken_in(before.frames, event@));
        self.queued_dirty_bytes = self.count_update_bytes();
        if self.frames.len() <= self.max_events && self.queued_dirty_bytes <= self.max_dirty_bytes {
            return RemoteDesktopFrameQueuePush::Queued;
        }
        let newest = self.take_newest_frame();
        self.drop_all();
        if let Some(frame) = newest {
            self.put_single(frame);
        }
        self.awaiting_base_frame = true;
        RemoteDesktopFrameQueuePush::RecoveryRequired
    }

    /// Cuts the queue down for a hidden surface and says whether a new base frame is needed.
    pub fn retain_latest_frame_only(&mut self) -> (r: bool)
        ensures
            r == drops_when_hidden(old(self)@),
            final(self)@ == hidden(old(self)@),
    {
        if self.frames.len() == 0 {
            return false;
        }
        if self.frames.len() == 1 {
            assert(self@.frames[0] == self.frames@[0]@);
            if let RemoteDesktopHelperEvent::Frame { .. } = &self.frames[0] {
                return false;
            }
        }
        self.drop_all();
        self.awaiting_base_frame = true;
        true
    }

    pub fn pop_front(&mut self) -> (r: Option<RemoteDesktopHelperEvent>)
        ensures
            final(self)@ == popped(old(self)@),
            match r {
                Some(event) => old(self)@.frames.len() > 0 && event@ == old(self)@.frames[0],
                None => old(self)@.frames.len() == 0,
            },
    {
        let ghost before = self@;
        match self.frames.pop_front() {
            None => None,
            Some(event) => {
                assert(event_views(self.frames@) =~= before.frames.drop_first());
                if let RemoteDesktopHelperEvent::FrameUpdate { .. } = &event {
                    self.queued_dirty_bytes =
                        self.queued_dirty_bytes.saturating_sub(frame_event_bytes(&event));
                }
                Some(event)
            },
        }
    }

    pub fn is_empty(&self) -> (r: bool)
        ensures
            r == (self@.frames.len() == 0),
    {
        self.frames.len() == 0
    }

    pub fn awaiting_base_frame(&self) -> (r: bool)
        ensures
            r == self@.awaiting,
    {
        self.awaiting_base_frame
    }
}

/// The hand-over of frame events to a surface: the queue, whether a ready notice is on its way,
/// whether the surface is visible, and when it last presented a frame (in nanoseconds).
pub struct RemoteDesktopFrameDeliverySlot {
    pub queue: RemoteDesktopFrameQueue,
    pub ready_queued: bool,
    pub visible: bool,
    pub last_presented_at: Option<u64>,
}

#[verifier::ext_equal]
pub struct SlotView {
    pub queue: QueueView,
    pub ready_queued: bool,
    pub visible: bool,
    pub last_presented_at: Option<u64>,
}

impl View for RemoteDesktopFrameDeliverySlot {
    type V = SlotView;

    open spec fn view(&self) -> SlotView {
        SlotView {
            queue: self.queue@,
            ready_queued: self.ready_queued,
            visible: self.visible,
            last_presented_at: self.last_presented_at,
        }
    }
}

/// The queue of a slot after an event, with what is to be done about it: a hidden surface keeps at
/// most one frame.
pub open spec fn delivered(slot: SlotView, event: EventView) -> (
    QueueView,
    RemoteDesktopFrameQueuePush,
) {
    let (queue, push) = pushed(slot.queue, event);
    if !slot.visible && drops_when_hidden(queue) {
        (hidden(queue), RemoteDesktopFrameQueuePush::RecoveryRequired)
    } else {
        (queue, push)
    }
}

/// What a slot decides about an event: whether the surface is told that a frame is ready, which
/// happens once until it has taken delivery, and whether a base frame is asked for.
pub open spec fn slot_pushed(slot: SlotView, event: EventView) -> (
    SlotView,
    RemoteDesktopFrameDeliveryDecision,
) {
    let (queue, push) = delivered(slot, event);
    let recovery_required = push == RemoteDesktopFrameQueuePush::RecoveryRequired;
    let next = SlotView { queue, ..slot };
    if recovery_required && queue.frames.len() == 0 {
        (
            SlotView { ready_queued: false, ..next },
            RemoteDesktopFrameDeliveryDecision { frame_ready: false, recovery_required },
        )
    } else if push == RemoteDesktopFrameQueuePush::AwaitingRecovery || push
        == RemoteDesktopFrameQueuePush::Discarded {
        (
            next,
            RemoteDesktopFrameDeliveryDecision { frame_ready: false, recovery_required: false },
        )
    } else {
        (
            SlotView { ready_queued: true, ..next },
            RemoteDesktopFrameDeliveryDecision {
                frame_ready: !slot.ready_queued,
                recovery_required,
            },
        )
    }
}

/// A slot once its surface has taken what was announced.
pub open spec fn delivery_completed(slot: SlotView) -> SlotView {
    SlotView { ready_queued: false, ..slot }
}

/// A slot with a ready notice on its way, and whether that notice is the first.
pub open spec fn marked(slot: SlotView) -> (SlotView, bool) {
    (SlotView { ready_queued: true, ..slot }, !slot.ready_queued)
}

/// A slot whose surface becomes visible or hidden.
pub open spec fn shown(slot: SlotView, visible: bool) -> SlotView {
    let queue = if visible {
        slot.queue
    } else {
        hidden(slot.queue)
    };
    SlotView {
        queue,
        visible,
        ready_queued: slot.ready_queued && queue.frames.len() > 0,
        ..slot
    }
}

impl Default for RemoteDesktopFrameDeliverySlot {
    fn default() -> (r: Self)
        ensures
            r@ == fresh_slot(),
    {
        RemoteDesktopFrameDeliverySlot {
            queue: RemoteDesktopFrameQueue::default(),
            ready_queued: false,
            visible: true,
            last_presented_at: None,
        }
    }
}

pub open spec fn fresh_slot() -> SlotView {
    SlotView {
        queue: empty_queue(DEFAULT_MAX_EVENTS as nat, DEFAULT_MAX_DIRTY_BYTES as nat),
        ready_queued: false,
        visible: true,
        last_presented_at: None,
    }
}

impl RemoteDesktopFrameDeliverySlot {
    pub fn new() -> (r: Self)
        ensures
            r@ == fresh_slot(),
    {
        RemoteDesktopFrameDeliverySlot::default()
    }

    pub fn push(&mut self, event: RemoteDesktopHelperEvent) -> (r: RemoteDesktopFrameDeliveryDecision)
        ensures
            (final(self)@, r) == slot_pushed(old(self)@, event@),
    {
        let pushed_as = self.queue.push(event);
        let outcome = if !self.visible && self.queue.retain_latest_frame_only() {
            RemoteDesktopFrameQueuePush::RecoveryRequired
        } else {
            pushed_as
        };
        let recovery_required = outcome == RemoteDesktopFrameQueuePush::RecoveryRequired;
        if recovery_required && self.queue.is_empty() {
            self.ready_queued = false;
            return RemoteDesktopFrameDeliveryDecision { frame_ready: false, recovery_required };
        }
        if outcome == RemoteDesktopFrameQueuePush::AwaitingRecovery || outcome
            == RemoteDesktopFrameQueuePush::Discarded {
            return RemoteDesktopFrameDeliveryDecision {
                frame_ready: false,
                recovery_required: false,
            };
        }
        RemoteDesktopFrameDeliveryDecision {
            frame_ready: self.mark_frame_ready_queued(),
            recovery_required,
        }
    }

    pub fn take(&mut self) -> (r: Option<RemoteDesktopHelperEvent>)
        ensures
            final(self)@ == (SlotView { queue: popped(old(self)@.queue), ..old(self)@ }),
            match r {
                Some(event) => old(self)@.queue.frames.len() > 0 && event@
                    == old(self)@.queue.frames[0],
                None => old(self)@.queue.frames.len() == 0,
            },
    {
        self.queue.pop_front()
    }

    pub fn has_queued_frame_events(&self) -> (r: bool)
        ensures
            r == (self@.queue.frames.len() > 0),
    {
        !self.queue.is_empty()
    }

    /// Shows or hides the surface and says whether a new base frame is needed.
    pub fn set_visible(&mut self, visible: bool) -> (r: bool)
        ensures
            final(self)@ == shown(old(self)@, visible),
            r == (!visible && drops_when_hidden(old(self)@.queue)),
    {
        self.visible = visible;
        let recovery_required = if visible {
            false
        } else {
            self.queue.retain_latest_frame_only()
        };
        if !self.has_queued_frame_events() {
            self.ready_queued = false;
        }
        recovery_required
    }

    pub fn is_visible(&self) -> (r: bool)
        ensures
            r == self@.visible,
    {
        self.visible
    }

    /// Ends a delivery: the next event is announced again. Says whether events are still queued.
    pub fn complete_delivery(&mut self) -> (r: bool)
        ensures
            final(self)@ == delivery_completed(old(self)@),
            r == (old(self)@.queue.frames.len() > 0),
    {
        self.ready_queued = false;
        self.has_queued_frame_events()
    }

    /// Notes that a ready notice is on its way and says whether it is the first.
    pub fn mark_frame_ready_queued(&mut self) -> (r: bool)
        ensures
            (final(self)@, r) == marked(old(self)@),
    {
        let first = !self.ready_queued;
        self.ready_queued = true;
        first
    }

    pub fn mark_frame_presented(&mut self, now: u64)
        ensures
            final(self)@ == (SlotView { last_presented_at: Some(now), ..old(self)@ }),
    {
        self.last_presented_at = Some(now);
    }

    /// How long the next ready notice waits: what is left of the presentation interval.
    pub fn next_frame_ready_delay(&self, now: u64) -> (r: u64)
        ensures
            r == ready_delay(self@.last_presented_at, now),
    {
        match self.last_presented_at {
            None => 0,
            Some(previous) => {
                let elapsed: u64 = now.saturating_sub(previous);
                FRAME_PRESENTATION_INTERVAL.saturating_sub(elapsed)
            },
        }
    }
}

/// What is left of the presentation interval; a clock that went back counts as no time.
pub open spec fn ready_delay(presented_at: Option<u64>, now: u64) -> int {
    match presented_at {
        None => 0,
        Some(previous) => {
            let elapsed = if now > previous {
                now - previous
            } else {
                0
            };
            if elapsed < FRAME_PRESENTATION_INTERVAL {
                FRAME_PRESENTATION_INTERVAL - elapsed
            } else {
                0
            }
        },
    }
}

/// The lineage that an event belongs to.
pub open spec fn epoch_of(event: EventView) -> Option<u64> {
    match event {
        EventView::Frame(frame) => Some(frame.graphics_epoch),
        EventView::Update(update) => Some(update.graphics_epoch),
        EventView::Reset(epoch) => Some(epoch),
        EventView::Notice(_) => None,
    }
}

/// Whether all queued events belong to the active lineage.
pub open spec fn one_lineage(q: QueueView) -> bool {
    forall|i: int|
        0 <= i < q.frames.len() && epoch_of(#[trigger] q.frames[i]) is Some ==> epoch_of(
            q.frames[i],
        ) == q.epoch
}

proof fn lemma_newest_frame_is_queued(events: Seq<EventView>)
    ensures
        newest_frame(events) matches Some(event) ==> exists|i: int|
            0 <= i < events.len() && #[trigger] events[i] == event,
    decreases events.len(),
{
    if events.len() > 0 {
        if events.last() is Frame {
            assert(events[events.len() - 1] == events.last());
        } else {
            lemma_newest_frame_is_queued(events.drop_last());
            if newest_frame(events.drop_last()) is Some {
                let event = newest_frame(events.drop_last())->0;
                let i = choose|i: int|
                    0 <= i < events.drop_last().len() && #[trigger] events.drop_last()[i] == event;
                assert(events[i] == event);
            }
        }
    }
}

/// The queue only ever holds events of the active lineage, and the active lineage never goes back.
pub proof fn law_lineage(q: QueueView, event: EventView)
    requires
        one_lineage(q),
    ensures
        one_lineage(pushed(q, event).0),
        one_lineage(hidden(q)),
        one_lineage(popped(q)),
        q.epoch is Some ==> pushed(q, event).0.epoch is Some && pushed(q, event).0.epoch->0
            >= q.epoch->0,
{
    let next = pushed(q, event).0;
    if q.frames.len() > 0 {
        assert forall|i: int|
            0 <= i < popped(q).frames.len() && epoch_of(
                #[trigger] popped(q).frames[i],
            ) is Some implies epoch_of(popped(q).frames[i]) == q.epoch by {
            assert(popped(q).frames[i] == q.frames[i + 1]);
        }
    }
    let enters = match event {
        EventView::Update(update) => !is_stale(update.graphics_epoch, q.epoch) && !(q.epoch is Some
            && update.graphics_epoch > q.epoch->0),
        EventView::Notice(_) => true,
        _ => false,
    };
    if enters && !q.awaiting {
        let epoch = match event {
            EventView::Update(update) => Some(update.graphics_epoch),
            _ => q.epoch,
        };
        let frames = taken_in(q.frames, event);
        assert forall|i: int| 0 <= i < frames.len() && epoch_of(#[trigger] frames[i]) is Some implies epoch_of(
            frames[i],
        ) == epoch by {
            if q.frames.len() > 0 {
                assert(q.frames.last() == q.frames[q.frames.len() - 1]);
                if i < q.frames.len() - 1 {
                    assert(frames[i] == q.frames[i]);
                }
            }
        }
        lemma_newest_frame_is_queued(frames);
    }
}

/// While a base frame is awaited no update is taken in, and only a reset or a frame ends the wait.
pub proof fn law_no_updates_while_awaiting(q: QueueView, update: UpdateView)
    requires
        q.awaiting,
    ensures
        pushed(q, EventView::Update(update)).0.awaiting,
        pushed(q, EventView::Update(update)).0.frames.len() <= q.frames.len(),
        pushed(q, EventView::Update(update)).1 != RemoteDesktopFrameQueuePush::Queued,
{
}

/// Whenever recovery is required the queue awaits a base frame and holds no update.
pub proof fn law_recovery_leaves_no_updates(q: QueueView, event: EventView)
    requires
        pushed(q, event).1 == RemoteDesktopFrameQueuePush::RecoveryRequired,
    ensures
        pushed(q, event).0.awaiting,
        pushed(q, event).0.dirty == 0,
        forall|i: int|
            0 <= i < pushed(q, event).0.frames.len() ==> (
            #[trigger] pushed(q, event).0.frames[i]) is Frame,
{
    let q2 = match event {
        EventView::Update(update) => QueueView { epoch: Some(update.graphics_epoch), ..q },
        _ => q,
    };
    lemma_newest_frame_is_frame(taken_in(q2.frames, event));
}

proof fn lemma_newest_frame_is_frame(events: Seq<EventView>)
    ensures
        newest_frame(events) is Some ==> newest_frame(events)->0 is Frame,
    decreases events.len(),
{
    if events.len() > 0 && !(events.last() is Frame) {
        lemma_newest_frame_is_frame(events.drop_last());
    }
}

/// The queue keeps within its limits; a single frame or reset is always kept.
pub proof fn law_limits(q: QueueView, event: EventView)
    requires
        q.frames.len() <= q.max_events || q.frames.len() <= 1,
        q.dirty <= q.max_dirty,
    ensures
        pushed(q, event).0.frames.len() <= q.max_events || pushed(q, event).0.frames.len() <= 1,
        pushed(q, event).0.dirty <= q.max_dirty,
        pushed(q, event).0.max_events == q.max_events,
        pushed(q, event).0.max_dirty == q.max_dirty,
        popped(q).frames.len() <= q.frames.len(),
        popped(q).dirty <= q.dirty,
{
}

/// What can be done to a queue.
pub ghost enum QueueCall {
    Push(EventView),
    Pop,
    Hide,
}

pub open spec fn called(q: QueueView, call: QueueCall) -> QueueView {
    match call {
        QueueCall::Push(event) => pushed(q, event).0,
        QueueCall::Pop => popped(q),
        QueueCall::Hide => hidden(q),
    }
}

/// A queue after a list of calls.
pub open spec fn after_calls(q: QueueView, calls: Seq<QueueCall>) -> QueueView
    decreases calls.len(),
{
    if calls.len() == 0 {
        q
    } else {
        called(after_calls(q, calls.drop_last()), calls.last())
    }
}

/// Whether a queue holds no more events, and no more bytes of updates, than it may.
pub open spec fn within_limits(q: QueueView) -> bool {
    q.frames.len() <= q.max_events && update_bytes(q.frames) <= q.max_dirty
}

proof fn lemma_call_keeps_limits(q: QueueView, call: QueueCall)
    requires
        within_limits(q),
        q.max_events >= 1,
        q.max_dirty < usize::MAX,
    ensures
        within_limits(called(q, call)),
        called(q, call).max_events == q.max_events,
        called(q, call).max_dirty == q.max_dirty,
{
    reveal_with_fuel(update_bytes, 3);
    if q.frames.len() > 0 {
        lemma_update_bytes_front(q.frames);
    }
    if let QueueCall::Push(event) = call {
        assert(seq![event].drop_last() =~= Seq::<EventView>::empty());
        lemma_newest_frame_is_frame(taken_in(q.frames, event));
        if newest_frame(taken_in(q.frames, event)) is Some {
            let kept = only(newest_frame(taken_in(q.frames, event)));
            assert(kept.drop_last() =~= Seq::<EventView>::empty());
        }
    }
}

/// A queue never holds more events than its limit, nor updates of more bytes than its limit,
/// whatever is done to it. A byte limit of the largest machine word is no limit: the count of bytes
/// stops there.
pub proof fn law_queue_stays_within_limits(max_events: nat, max_dirty: nat, calls: Seq<QueueCall>)
    requires
        max_events >= 1,
        max_dirty < usize::MAX,
    ensures
        empty_queue(max_events, max_dirty).frames.len() == 0,
        after_calls(empty_queue(max_events, max_dirty), calls).frames.len() <= max_events,
        update_bytes(after_calls(empty_queue(max_events, max_dirty), calls).frames) <= max_dirty,
        after_calls(empty_queue(max_events, max_dirty), calls).max_events == max_events,
        after_calls(empty_queue(max_events, max_dirty), calls).max_dirty == max_dirty,
    decreases calls.len(),
{
    if calls.len() > 0 {
        law_queue_stays_within_limits(max_events, max_dirty, calls.drop_last());
        lemma_call_keeps_limits(
            after_calls(empty_queue(max_events, max_dirty), calls.drop_last()),
            calls.last(),
        );
    }
}

/// Whether the dirty count is the number of bytes of the queued updates.
pub open spec fn counts_exactly(q: QueueView) -> bool {
    q.dirty == update_bytes(q.frames)
}

proof fn lemma_update_bytes_front(events: Seq<EventView>)
    requires
        events.len() > 0,
    ensures
        update_bytes(events) == update_bytes(events.drop_first()) + (if events[0] is Update {
            event_bytes(events[0])
        } else {
            0
        }),
    decreases events.len(),
{
    if events.len() > 1 {
        lemma_update_bytes_front(events.drop_last());
        assert(events.drop_last().drop_first() =~= events.drop_first().drop_last());
        assert(events.drop_first().last() == events.last());
    } else {
        assert(events.drop_first() =~= Seq::<EventView>::empty());
        assert(events.drop_last() =~= Seq::<EventView>::empty());
    }
}

/// The dirty count stays exact as long as the queued updates fit a machine word.
pub proof fn law_dirty_count_is_exact(q: QueueView, event: EventView)
    requires
        counts_exactly(q),
        update_bytes(taken_in(q.frames, event)) <= usize::MAX,
    ensures
        counts_exactly(pushed(q, event).0),
        counts_exactly(popped(q)),
        counts_exactly(hidden(q)),
{
    reveal_with_fuel(update_bytes, 3);
    if q.frames.len() > 0 {
        lemma_update_bytes_front(q.frames);
    }
    lemma_newest_frame_is_frame(taken_in(q.frames, event));
    assert(seq![event].drop_last() =~= Seq::<EventView>::empty());
    if newest_frame(taken_in(q.frames, event)) is Some {
        let kept = only(newest_frame(taken_in(q.frames, event)));
        assert(kept.drop_last() =~= Seq::<EventView>::empty());
    }
}

/// A ready notice is given at most once until the surface completes a delivery.
pub proof fn law_one_notice_at_a_time(slot: SlotView, event: EventView)
    ensures
        slot_pushed(slot, event).1.frame_ready ==> !slot.ready_queued && slot_pushed(
            slot,
            event,
        ).0.ready_queued,
        slot.ready_queued ==> !slot_pushed(slot, event).1.frame_ready,
{
}

/// A slot after a ready frame was marked a number of times in a row, and what each mark answered.
pub open spec fn marked_often(slot: SlotView, n: nat) -> (SlotView, Seq<bool>)
    decreases n,
{
    if n == 0 {
        (slot, Seq::empty())
    } else {
        let (before, said) = marked_often(slot, (n - 1) as nat);
        let (next, first) = marked(before);
        (next, said.push(first))
    }
}

/// However often a ready frame is marked in a row, on a slot without a notice on its way, the first
/// mark alone answers that it is the first, and what is queued stays as it is. A new slot and one
/// that has just completed a delivery have no notice on its way.
pub proof fn law_only_the_first_mark_answers_true(slot: SlotView, n: nat)
    requires
        !slot.ready_queued,
    ensures
        marked_often(slot, n).1.len() == n,
        forall|i: int| 0 <= i < n ==> #[trigger] marked_often(slot, n).1[i] == (i == 0),
        marked_often(slot, n).0 == (SlotView { ready_queued: n > 0, ..slot }),
        !fresh_slot().ready_queued,
        forall|any: SlotView| !(#[trigger] delivery_completed(any)).ready_queued,
    decreases n,
{
    if n > 0 {
        law_only_the_first_mark_answers_true(slot, (n - 1) as nat);
    }
}

/// A hidden surface keeps at most one event, a frame, after anything that changes its queue.
pub proof fn law_hidden_keeps_one_frame(slot: SlotView, event: EventView)
    requires
        !slot.visible,
        !drops_when_hidden(slot.queue),
    ensures
        !drops_when_hidden(slot_pushed(slot, event).0.queue),
        !drops_when_hidden(shown(slot, false).queue),
{
}

/// The limits of a queue, and how often a frame is presented.
pub proof fn law_limits_of_queues()
    ensures
        DEFAULT_MAX_EVENTS == 256,
        DEFAULT_MAX_DIRTY_BYTES == 32 * 1024 * 1024,
        MAX_BASE_FRAME_BYTES == 256 * 1024 * 1024,
        FRAME_PRESENTATION_INTERVAL == 16 * 1000 * 1000,
        empty_queue(256, 32 * 1024 * 1024) == fresh_slot().queue,
        fresh_slot().visible && !fresh_slot().ready_queued && fresh_slot().last_presented_at
            is None,
        fresh_slot().queue.frames.len() == 0 && !fresh_slot().queue.awaiting
            && fresh_slot().queue.epoch is None && fresh_slot().queue.dirty == 0,
{
}

/// A frame makes everything before it superfluous: it is the only event, and the queue is of its
/// lineage and waits for nothing. One of an earlier lineage is dropped.
pub proof fn law_frames_start_over(q: QueueView, frame: FrameView)
    ensures
        ({
            let (after, push) = pushed(q, EventView::Frame(frame));
            let stale = q.epoch matches Some(active) && frame.graphics_epoch < active;
            &&& stale ==> after == q && push == RemoteDesktopFrameQueuePush::Discarded
            &&& !stale && frame.bytes.len() <= 256 * 1024 * 1024 ==> {
                &&& push == RemoteDesktopFrameQueuePush::Queued
                &&& after.frames == seq![EventView::Frame(frame)]
                &&& after.epoch == Some(frame.graphics_epoch)
                &&& !after.awaiting && after.dirty == 0
            }
            &&& !stale && frame.bytes.len() > 256 * 1024 * 1024 ==> {
                &&& push == RemoteDesktopFrameQueuePush::RecoveryRequired
                &&& after.frames.len() == 0 && after.awaiting && after.dirty == 0
                &&& after.epoch == q.epoch
            }
            &&& after.max_events == q.max_events && after.max_dirty == q.max_dirty
        }),
{
}

/// A reset to a later lineage leaves only itself, and the queue waits for a frame; any other reset
/// is dropped.
pub proof fn law_resets_wait_for_a_frame(q: QueueView, epoch: u64)
    ensures
        ({
            let (after, push) = pushed(q, EventView::Reset(epoch));
            let late = q.epoch matches Some(active) && epoch <= active;
            &&& late ==> after == q && push == RemoteDesktopFrameQueuePush::Discarded
            &&& !late ==> {
                &&& push == RemoteDesktopFrameQueuePush::Queued
                &&& after.frames == seq![EventView::Reset(epoch)]
                &&& after.epoch == Some(epoch)
                &&& after.awaiting && after.dirty == 0
            }
        }),
{
}

/// An update of an earlier lineage is dropped, one of a later asks for a frame; one of this
/// lineage is taken in unless the queue waits for a frame.
pub proof fn law_updates_belong_to_their_lineage(q: QueueView, update: UpdateView)
    ensures
        ({
            let (after, push) = pushed(q, EventView::Update(update));
            &&& (q.epoch matches Some(active) && update.graphics_epoch < active) ==> after == q
                && push == RemoteDesktopFrameQueuePush::Discarded
            &&& (q.epoch matches Some(active) && update.graphics_epoch > active) ==> push
                == RemoteDesktopFrameQueuePush::RecoveryRequired && after.frames.len() == 0
                && after.awaiting && after.epoch == Some(update.graphics_epoch) && after.dirty == 0
            &&& (q.epoch is None || q.epoch == Some(update.graphics_epoch)) && q.awaiting ==> push
                == RemoteDesktopFrameQueuePush::AwaitingRecovery && after.frames == q.frames
                && after.awaiting
            &&& (q.epoch is None || q.epoch == Some(update.graphics_epoch)) && !q.awaiting && push
                == RemoteDesktopFrameQueuePush::Queued ==> after.frames == taken_in(
                q.frames,
                EventView::Update(update),
            ) && after.frames.len() <= q.max_events && after.dirty <= q.max_dirty
        }),
{
}

/// An event is put behind the others; an update goes into a last event that it fits.
pub proof fn law_events_are_taken_in_at_the_end(
    events: Seq<EventView>,
    frame: FrameView,
    first: UpdateView,
    second: UpdateView,
    incoming: EventView,
)
    ensures
        taken_in(Seq::empty(), incoming) == seq![incoming],
        fits(frame, first) ==> taken_in(
            events.push(EventView::Frame(frame)),
            EventView::Update(first),
        ) == events.push(EventView::Frame(updated(frame, first))),
        !fits(frame, first) ==> taken_in(
            events.push(EventView::Frame(frame)),
            EventView::Update(first),
        ) == events.push(EventView::Frame(frame)).push(EventView::Update(first)),
        joins(first, second) ==> taken_in(
            events.push(EventView::Update(first)),
            EventView::Update(second),
        ) == events.push(EventView::Update(merged(first, second))),
        !joins(first, second) ==> taken_in(
            events.push(EventView::Update(first)),
            EventView::Update(second),
        ) == events.push(EventView::Update(first)).push(EventView::Update(second)),
{
    assert(events.push(EventView::Frame(frame)).drop_last() =~= events);
    assert(events.push(EventView::Update(first)).drop_last() =~= events);
}

/// The bytes of updates add up; a frame and a notice add nothing.
pub proof fn law_bytes_of_updates_add_up(events: Seq<EventView>, event: EventView)
    ensures
        update_bytes(Seq::empty()) == 0,
        event matches EventView::Update(update) ==> update_bytes(events.push(event))
            == update_bytes(events) + update.bytes.len(),
        !(event is Update) ==> update_bytes(events.push(event)) == update_bytes(events),
        event matches EventView::Update(update) ==> event_bytes(event) == update.bytes.len(),
        event matches EventView::Frame(frame) ==> event_bytes(event) == frame.bytes.len(),
        event is Reset || event is Notice ==> event_bytes(event) == 0,
{
    assert(events.push(event).drop_last() =~= events);
}

/// A queue that grows too long or too heavy keeps its newest frame and asks for another.
pub proof fn law_overfull_queues_keep_the_newest_frame(
    q: QueueView,
    event: EventView,
    before: Seq<EventView>,
    frame: FrameView,
)
    requires
        !q.awaiting,
        taken_in(q.frames, event).len() > q.max_events || update_bytes(taken_in(q.frames, event))
            > q.max_dirty,
        q.max_dirty <= usize::MAX,
        update_bytes(taken_in(q.frames, event)) <= usize::MAX,
    ensures
        ({
            let (after, push) = enqueued(q, event);
            &&& push == RemoteDesktopFrameQueuePush::RecoveryRequired
            &&& after.awaiting && after.dirty == 0
            &&& after.frames.len() <= 1
            &&& after.frames == only(newest_frame(taken_in(q.frames, event)))
        }),
        newest_frame(before.push(EventView::Frame(frame))) == Some(EventView::Frame(frame)),
        !(event is Frame) ==> newest_frame(before.push(event)) == newest_frame(before),
{
    assert(before.push(EventView::Frame(frame)).drop_last() =~= before);
    assert(before.push(event).drop_last() =~= before);
}

/// Events leave in the order in which they came, and an update takes its bytes with it.
pub proof fn law_events_leave_in_order(q: QueueView)
    ensures
        q.frames.len() == 0 ==> popped(q) == q,
        q.frames.len() > 0 ==> popped(q).frames == q.frames.drop_first(),
        q.frames.len() > 0 ==> (q.frames[0] matches EventView::Update(update) ==> (
        update.bytes.len() <= q.dirty ==> popped(q).dirty == q.dirty - update.bytes.len())),
        q.frames.len() > 0 && !(q.frames[0] is Update) ==> popped(q).dirty == q.dirty,
        popped(q).epoch == q.epoch && popped(q).awaiting == q.awaiting,
{
}

/// A hidden surface keeps a single frame, and loses anything else for a frame to come.
pub proof fn law_hidden_surfaces_keep_one_frame(q: QueueView, frame: FrameView)
    ensures
        q.frames == seq![EventView::Frame(frame)] ==> hidden(q) == q && !drops_when_hidden(q),
        q.frames.len() == 0 ==> hidden(q) == q && !drops_when_hidden(q),
        q.frames.len() > 1 ==> hidden(q).frames.len() == 0 && hidden(q).awaiting && hidden(q).dirty
            == 0 && drops_when_hidden(q),
        q.frames.len() == 1 && !(q.frames[0] is Frame) ==> hidden(q).frames.len() == 0 && hidden(
            q,
        ).awaiting,
        hidden(q).epoch == q.epoch,
{
}

/// A surface is told once that there is something for it, until it has taken it.
pub proof fn law_surfaces_are_told_once(slot: SlotView, event: EventView)
    ensures
        ({
            let (after, decision) = slot_pushed(slot, event);
            &&& decision.frame_ready ==> !slot.ready_queued && after.ready_queued
            &&& slot.ready_queued ==> !decision.frame_ready
            &&& decision.recovery_required <==> delivered(slot, event).1
                == RemoteDesktopFrameQueuePush::RecoveryRequired
            &&& after.queue == delivered(slot, event).0
            &&& after.visible == slot.visible && after.last_presented_at == slot.last_presented_at
            &&& decision.frame_ready ==> delivered(slot, event).1
                == RemoteDesktopFrameQueuePush::Queued || delivered(slot, event).1
                == RemoteDesktopFrameQueuePush::RecoveryRequired
        }),
        !delivery_completed(slot).ready_queued,
        delivery_completed(slot).queue == slot.queue,
        marked(slot).0.ready_queued,
        marked(slot).1 == !slot.ready_queued,
        slot.visible ==> delivered(slot, event) == pushed(slot.queue, event),
        shown(slot, true).queue == slot.queue && shown(slot, true).visible,
        shown(slot, false).queue == hidden(slot.queue) && !shown(slot, false).visible,
{
}

/// A frame waits until sixteen milliseconds after the one before it.
pub proof fn law_frames_are_sixteen_milliseconds_apart(previous: u64, now: u64)
    ensures
        ready_delay(None, now) == 0,
        now >= previous + 16000000 ==> ready_delay(Some(previous), now) == 0,
        previous <= now < previous + 16000000 ==> ready_delay(Some(previous), now) == previous
            + 16000000 - now,
        now < previous ==> ready_delay(Some(previous), now) == 16000000,
{
}

} // verus!
