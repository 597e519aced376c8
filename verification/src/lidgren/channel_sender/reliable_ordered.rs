//! The sending end of the reliable-ordered channel: it numbers the payloads,
//! keeps at most 64 of them in flight, sends each again until it is
//! acknowledged, and moves its window on as acknowledgements arrive.
//!
//! Time is a count of milliseconds that the caller reads from a steady clock.

use crate::lidgren::channel_handler::reliable_ordered::{
    lemma_occupied_count, lemma_relative, occupied_count, relative,
};
use crate::util::byte_order::push_all;
use std::collections::VecDeque;
use vstd::prelude::*;
use vstd::slice::slice_to_vec;

verus! {

pub const WINDOW_SIZE: usize = 64;

pub const SEQUENCE_NUMBERS: usize = 1024;

/// The milliseconds after which a frame that is not acknowledged is sent again.
pub const TIME_BETWEEN_RESENDS: u64 = 400;

/// The id of the message type of the channel: user, reliable, ordered, channel 0.
pub const RELIABLE_ORDERED_ID: u8 = 67;

/// The five header bytes of a frame of the channel. The length field holds
/// the payload's bits modulo 2^16.
pub open spec fn frame_header(sequence: int, is_fragment: bool, length: int) -> Seq<u8> {
    seq![
        RELIABLE_ORDERED_ID,
        (sequence * 2 % 0x100 + if is_fragment {
            1int
        } else {
            0int
        }) as u8,
        (sequence / 0x80) as u8,
        (length % 0x2000 * 8 % 0x100) as u8,
        (length % 0x2000 * 8 / 0x100) as u8,
    ]
}

/// A frame in flight.
pub struct SentFrame {
    /// Header and payload, as they go on the wire.
    pub data: Seq<u8>,
    pub last_sent: int,
    pub sent_count: int,
    pub acknowledged: bool,
}

/// Whether a slot holds a frame that is to be sent again at `now`.
pub open spec fn is_due(slot: Option<SentFrame>, now: int) -> bool {
    slot matches Some(frame) && !frame.acknowledged && now - frame.last_sent
        > TIME_BETWEEN_RESENDS
}

/// The slot after the pass that sends again what is due.
pub open spec fn refreshed(slot: Option<SentFrame>, now: int) -> Option<SentFrame> {
    if is_due(slot, now) {
        Some(
            SentFrame {
                data: slot->Some_0.data,
                last_sent: now,
                sent_count: if slot->Some_0.sent_count < u32::MAX {
                    slot->Some_0.sent_count + 1
                } else {
                    slot->Some_0.sent_count
                },
                acknowledged: false,
            },
        )
    } else {
        slot
    }
}

/// The frames that are sent again at `now`, in the order of their slots.
pub open spec fn due_frames(slots: Seq<Option<SentFrame>>, now: int) -> Seq<Seq<u8>>
    decreases slots.len(),
{
    if slots.len() == 0 {
        Seq::empty()
    } else if is_due(slots.last(), now) {
        due_frames(slots.drop_last(), now).push(slots.last()->Some_0.data)
    } else {
        due_frames(slots.drop_last(), now)
    }
}

/// The place of slot `index` in the window that begins at `oldest`.
#[verifier::opaque]
pub open spec fn position(index: int, oldest: int) -> int {
    if index >= oldest % 64 {
        index - oldest % 64
    } else {
        index - oldest % 64 + 64
    }
}

/// How many sequence numbers lie from `oldest` up to `latest`, not counting `latest`.
#[verifier::opaque]
pub open spec fn span(oldest: int, latest: int) -> int {
    if latest >= oldest {
        latest - oldest
    } else {
        latest - oldest + 1024
    }
}

/// The next sequence number on the cycle.
pub open spec fn successor(sequence: int) -> int {
    if sequence == 1023 {
        0
    } else {
        sequence + 1
    }
}

/// Places are distinct, and the place of the slot of `latest` is the span.
pub proof fn lemma_window(oldest: int, latest: int, index: int)
    requires
        0 <= oldest < 1024,
        0 <= latest < 1024,
        0 <= index < 64,
    ensures
        0 <= span(oldest, latest) < 1024,
        0 <= position(index, oldest) < 64,
        position(index, oldest) == 0 <==> index == oldest % 64,
        span(oldest, latest) == 0 <==> oldest == latest,
        position(latest % 64, oldest) == span(oldest, latest) % 64,
        index == latest % 64 <==> position(index, oldest) == span(oldest, latest) % 64,
{
    reveal(position);
    reveal(span);
    let a = oldest / 64;
    let b = latest / 64;
    assert(oldest == 64 * a + oldest % 64);
    assert(latest == 64 * b + latest % 64);
    let s = span(oldest, latest);
    let k = s / 64;
    assert(s == 64 * k + s % 64);
}

/// How places and spans change where an end of the window moves on by one.
pub proof fn lemma_window_moves(oldest: int, latest: int, index: int)
    requires
        0 <= oldest < 1024,
        0 <= latest < 1024,
        0 <= index < 64,
    ensures
        (oldest + 1) % 1024 == successor(oldest),
        (latest + 1) % 1024 == successor(latest),
        span(oldest, latest) < 1023 ==> span(oldest, successor(latest)) == span(oldest, latest)
            + 1,
        span(oldest, latest) > 0 ==> span(successor(oldest), latest) == span(oldest, latest) - 1,
        position(index, oldest) > 0 ==> position(index, successor(oldest)) == position(
            index,
            oldest,
        ) - 1,
        position(index, oldest) == 0 ==> position(index, successor(oldest)) == 63,
{
    reveal(position);
    reveal(span);
    let a = oldest / 64;
    assert(oldest == 64 * a + oldest % 64);
    let b = successor(oldest) / 64;
    assert(successor(oldest) == 64 * b + successor(oldest) % 64);
}

/// A sequence number inside the window has its distance from `oldest` as its
/// place, and lies behind `latest`.
pub proof fn lemma_in_flight(sequence: int, oldest: int, latest: int)
    requires
        0 <= sequence,
        0 <= oldest < 1024,
        0 <= latest < 1024,
        span(oldest, latest) <= 64,
        0 <= relative(sequence, oldest) < span(oldest, latest),
    ensures
        position(sequence % 64, oldest) == relative(sequence, oldest),
        relative(sequence, latest) == relative(sequence, oldest) - span(oldest, latest),
{
    reveal(position);
    reveal(span);
    reveal(relative);
    let r = relative(sequence, oldest);
    let q = (sequence - oldest + 1536) / 1024;
    assert(sequence - oldest + 1536 == 1024 * q + r + 512);
    let a = sequence / 64;
    let b = oldest / 64;
    assert(sequence == 64 * a + sequence % 64);
    assert(oldest == 64 * b + oldest % 64);
    assert(sequence % 64 - oldest % 64 + 64 == r + 64 * (16 * q - 16 - a + b + 1));
    let t = (sequence - latest + 1536) / 1024;
    assert(sequence - latest + 1536 == 1024 * t + relative(sequence, latest) + 512);
}

/// What the sender holds.
pub struct SenderState {
    /// The payloads that wait for a place in the window, each with its fragment flag.
    pub queue: Seq<(Seq<u8>, bool)>,
    pub slots: Seq<Option<SentFrame>>,
    /// The first sequence number that is not cleared.
    pub oldest: int,
    /// The next sequence number to assign.
    pub latest: int,
}

impl SenderState {
    pub open spec fn initial() -> SenderState {
        SenderState {
            queue: Seq::empty(),
            slots: Seq::new(64, |i: int| None),
            oldest: 0,
            latest: 0,
        }
    }

    /// How many sequence numbers are assigned and not cleared.
    pub open spec fn outstanding(self) -> int {
        span(self.oldest, self.latest)
    }

    /// The invariant: at most 64 frames are outstanding, and they fill the
    /// slots from the one of `oldest` on.
    pub open spec fn wf(self) -> bool {
        &&& 0 <= self.oldest < 1024
        &&& 0 <= self.latest < 1024
        &&& self.slots.len() == 64
        &&& self.outstanding() <= 64
        &&& forall|i: int|
            0 <= i < 64 ==> ((#[trigger] self.slots[i]) is Some <==> position(i, self.oldest)
                < self.outstanding())
    }

    pub open spec fn enqueue(self, data: Seq<u8>, is_fragment: bool) -> SenderState {
        SenderState { queue: self.queue.push((data, is_fragment)), ..self }
    }

    /// The frame that the first payload of the queue makes.
    pub open spec fn next_frame(self) -> Seq<u8> {
        frame_header(self.latest, self.queue[0].1, self.queue[0].0.len() as int) + self.queue[0].0
    }

    /// The state after the first payload of the queue has gone into the window at `now`.
    pub open spec fn admit_front(self, now: int) -> SenderState {
        SenderState {
            queue: self.queue.drop_first(),
            slots: self.slots.update(
                self.latest % 64,
                Some(
                    SentFrame {
                        data: self.next_frame(),
                        last_sent: now,
                        sent_count: 1,
                        acknowledged: false,
                    },
                ),
            ),
            oldest: self.oldest,
            latest: (self.latest + 1) % 1024,
        }
    }

    /// Moves payloads from the queue into the window while it has room, and
    /// appends their frames to `out`.
    pub open spec fn fill(self, now: int, out: Seq<Seq<u8>>) -> (SenderState, Seq<Seq<u8>>)
        decreases self.queue.len(),
    {
        if self.outstanding() < 64 && self.queue.len() > 0 {
            self.admit_front(now).fill(now, out.push(self.next_frame()))
        } else {
            (self, out)
        }
    }

    /// One round of sending at `now`: the state afterwards and the frames to
    /// put on the wire, first those that are due again, then the new ones.
    pub open spec fn send(self, now: int) -> (SenderState, Seq<Seq<u8>>) {
        SenderState {
            slots: self.slots.map_values(|slot: Option<SentFrame>| refreshed(slot, now)),
            ..self
        }.fill(now, due_frames(self.slots, now))
    }

    /// Clears the slot of `oldest` and moves `oldest` on.
    pub open spec fn release_head(self) -> SenderState {
        SenderState {
            slots: self.slots.update(self.oldest % 64, None),
            oldest: (self.oldest + 1) % 1024,
            ..self
        }
    }

    /// Clears the frames at the head of the window that are acknowledged already.
    pub open spec fn reap(self) -> SenderState
        decreases occupied_count(self.slots),
    {
        let head = self.oldest % 64;
        if self.slots.len() == 64 && 0 <= self.oldest && self.slots[head] is Some
            && self.slots[head]->Some_0.acknowledged {
            proof {
                lemma_occupied_count(self.slots, head);
            }
            self.release_head().reap()
        } else {
            self
        }
    }

    /// Marks the frame in the slot of `sequence` as acknowledged, unless
    /// `sequence` lies ahead of everything sent.
    pub open spec fn mark(self, sequence: int) -> SenderState {
        if relative(sequence, self.latest) <= 0 && self.slots[sequence % 64] is Some {
            SenderState {
                slots: self.slots.update(
                    sequence % 64,
                    Some(SentFrame { acknowledged: true, ..self.slots[sequence % 64]->Some_0 }),
                ),
                ..self
            }
        } else {
            self
        }
    }

    /// An acknowledgement for `sequence` arrives.
    ///
    /// Behind the window it is ignored. At the head of the window it clears
    /// the head and the acknowledged frames that follow. Further on it marks
    /// its frame, which is cleared when the head reaches it.
    pub open spec fn acknowledge(self, sequence: int) -> SenderState {
        let distance = relative(sequence, self.oldest);
        if distance < 0 {
            self
        } else if distance == 0 {
            if self.slots[self.oldest % 64] is None {
                self
            } else {
                self.release_head().reap().mark(sequence)
            }
        } else {
            self.mark(sequence)
        }
    }
}

/// Releasing the head of a window that holds a frame keeps the invariant.
pub proof fn lemma_release_head(state: SenderState)
    requires
        state.wf(),
        state.outstanding() >= 1,
    ensures
        state.release_head().wf(),
        state.release_head().outstanding() == state.outstanding() - 1,
        occupied_count(state.release_head().slots) + 1 == occupied_count(state.slots),
        state.release_head().latest == state.latest,
{
    let next = state.release_head();
    let head = state.oldest % 64;
    lemma_window(state.oldest, state.latest, head);
    lemma_window_moves(state.oldest, state.latest, head);
    assert(state.slots[head] is Some);
    lemma_occupied_count(state.slots, head);
    assert forall|i: int| 0 <= i < 64 implies ((#[trigger] next.slots[i]) is Some <==> position(
        i,
        next.oldest,
    ) < next.outstanding()) by {
        lemma_window(state.oldest, state.latest, i);
        lemma_window_moves(state.oldest, state.latest, i);
    }
}

/// Reaping keeps the invariant, never adds a frame and never changes one.
pub proof fn lemma_reap(state: SenderState)
    requires
        state.wf(),
    ensures
        state.reap().wf(),
        state.reap().outstanding() <= state.outstanding(),
        state.reap().latest == state.latest,
        state.reap().queue == state.queue,
        forall|i: int|
            0 <= i < 64 ==> (#[trigger] state.reap().slots[i]) is None || state.reap().slots[i]
                == state.slots[i],
    decreases occupied_count(state.slots),
{
    let head = state.oldest % 64;
    if state.slots[head] is Some && state.slots[head]->Some_0.acknowledged {
        lemma_window(state.oldest, state.latest, head);
        lemma_release_head(state);
        lemma_reap(state.release_head());
        assert forall|i: int| 0 <= i < 64 implies (#[trigger] state.reap().slots[i]) is None
            || state.reap().slots[i] == state.slots[i] by {
            assert(state.release_head().reap().slots[i] is None || state.release_head().reap().slots[i]
                == state.release_head().slots[i]);
        }
    }
}

/// Marking keeps the invariant.
pub proof fn lemma_mark(state: SenderState, sequence: int)
    requires
        state.wf(),
        0 <= sequence,
    ensures
        state.mark(sequence).wf(),
        state.mark(sequence).outstanding() == state.outstanding(),
{
    let next = state.mark(sequence);
    assert forall|i: int| 0 <= i < 64 implies ((#[trigger] next.slots[i]) is Some <==> position(
        i,
        next.oldest,
    ) < next.outstanding()) by {
        assert(next.slots[i] is Some <==> state.slots[i] is Some);
    }
}

/// An acknowledgement keeps the invariant, and with it the bound of 64
/// outstanding frames; it never lets the window grow.
pub proof fn lemma_acknowledge(state: SenderState, sequence: int)
    requires
        state.wf(),
        0 <= sequence,
    ensures
        state.acknowledge(sequence).wf(),
        state.acknowledge(sequence).outstanding() <= state.outstanding(),
        state.acknowledge(sequence).queue == state.queue,
{
    let distance = relative(sequence, state.oldest);
    if distance == 0 && state.slots[state.oldest % 64] is Some {
        lemma_window(state.oldest, state.latest, state.oldest % 64);
        lemma_release_head(state);
        lemma_reap(state.release_head());
        lemma_mark(state.release_head().reap(), sequence);
    } else if distance > 0 {
        lemma_mark(state, sequence);
    }
}

/// Taking a payload into a window that has room keeps the invariant.
pub proof fn lemma_admit_front(state: SenderState, now: int)
    requires
        state.wf(),
        state.outstanding() < 64,
    ensures
        state.admit_front(now).wf(),
        state.admit_front(now).outstanding() == state.outstanding() + 1,
        state.admit_front(now).oldest == state.oldest,
{
    let next = state.admit_front(now);
    lemma_window(state.oldest, state.latest, state.latest % 64);
    lemma_window_moves(state.oldest, state.latest, state.latest % 64);
    assert forall|i: int| 0 <= i < 64 implies ((#[trigger] next.slots[i]) is Some <==> position(
        i,
        next.oldest,
    ) < next.outstanding()) by {
        lemma_window(state.oldest, state.latest, i);
    }
}

/// Filling keeps the invariant, and with it the bound of 64 outstanding frames.
pub proof fn lemma_fill(state: SenderState, now: int, out: Seq<Seq<u8>>)
    requires
        state.wf(),
    ensures
        state.fill(now, out).0.wf(),
        state.fill(now, out).0.outstanding() <= 64,
        state.fill(now, out).0.oldest == state.oldest,
    decreases state.queue.len(),
{
    if state.outstanding() < 64 && state.queue.len() > 0 {
        lemma_admit_front(state, now);
        lemma_fill(state.admit_front(now), now, out.push(state.next_frame()));
    }
}

/// A round of sending keeps the invariant: the sender never has more than 64
/// frames outstanding.
pub proof fn lemma_send(state: SenderState, now: int)
    requires
        state.wf(),
    ensures
        state.send(now).0.wf(),
        state.send(now).0.outstanding() <= 64,
        occupied_count(state.send(now).0.slots) <= 64,
{
    let passed = SenderState {
        slots: state.slots.map_values(|slot: Option<SentFrame>| refreshed(slot, now)),
        ..state
    };
    assert forall|i: int| 0 <= i < 64 implies ((#[trigger] passed.slots[i]) is Some <==> position(
        i,
        passed.oldest,
    ) < passed.outstanding()) by {
        assert(passed.slots[i] is Some <==> state.slots[i] is Some);
    }
    lemma_fill(passed, now, due_frames(state.slots, now));
    lemma_occupied_count(state.send(now).0.slots, 0);
}

/// One acknowledgement is enough: once the acknowledgement for a frame in
/// flight has arrived, its slot is cleared or marked, and it is not due for
/// sending again at any time.
pub proof fn lemma_acknowledged_is_not_resent(state: SenderState, sequence: int, now: int)
    requires
        state.wf(),
        0 <= sequence,
        0 <= relative(sequence, state.oldest) < state.outstanding(),
    ensures
        !is_due(state.acknowledge(sequence).slots[sequence % 64], now),
{
    lemma_in_flight(sequence, state.oldest, state.latest);
    lemma_window(state.oldest, state.latest, sequence % 64);
    assert(state.slots[sequence % 64] is Some);
    if relative(sequence, state.oldest) == 0 {
        let released = state.release_head();
        lemma_release_head(state);
        assert(released.slots[sequence % 64] is None);
        lemma_reap(released);
        assert(released.reap().slots[sequence % 64] is None);
    }
}

pub struct EnqueuedMessage {
    data: Vec<u8>,
    last_sent: u64,
    sent_count: u32,
    acknowledged: bool,
}

impl EnqueuedMessage {
    spec fn frame(self) -> SentFrame {
        SentFrame {
            data: self.data@,
            last_sent: self.last_sent as int,
            sent_count: self.sent_count as int,
            acknowledged: self.acknowledged,
        }
    }
}

spec fn slot_frame(slot: Option<EnqueuedMessage>) -> Option<SentFrame> {
    match slot {
        Some(message) => Some(message.frame()),
        None => None,
    }
}

spec fn queued(entry: (Vec<u8>, bool)) -> (Seq<u8>, bool) {
    (entry.0@, entry.1)
}

spec fn slots_view(buffer: Seq<Option<EnqueuedMessage>>) -> Seq<Option<SentFrame>> {
    buffer.map_values(|slot: Option<EnqueuedMessage>| slot_frame(slot))
}

proof fn lemma_slots_view(buffer: Seq<Option<EnqueuedMessage>>, index: int, slot: Option<
    EnqueuedMessage,
>)
    requires
        0 <= index < buffer.len(),
    ensures
        slots_view(buffer.update(index, slot)) == slots_view(buffer).update(
            index,
            slot_frame(slot),
        ),
        slots_view(buffer)[index] == slot_frame(buffer[index]),
        slots_view(buffer).len() == buffer.len(),
{
    assert(slots_view(buffer.update(index, slot)) =~= slots_view(buffer).update(
        index,
        slot_frame(slot),
    ));
}

/// The byte sequences that a list of datagrams stands for.
pub open spec fn datagrams(list: Seq<Vec<u8>>) -> Seq<Seq<u8>> {
    list.map_values(|datagram: Vec<u8>| datagram@)
}

pub struct ReliablyOrderedSender {
    packet_queue: VecDeque<(Vec<u8>, bool)>,
    message_buffer: Vec<Option<EnqueuedMessage>>,
    buffer_oldest: u16,
    buffer_latest: u16,
}

impl View for ReliablyOrderedSender {
    type V = SenderState;

    closed spec fn view(&self) -> SenderState {
        SenderState {
            queue: self.packet_queue@.map_values(|entry: (Vec<u8>, bool)| queued(entry)),
            slots: slots_view(self.message_buffer@),
            oldest: self.buffer_oldest as int,
            latest: self.buffer_latest as int,
        }
    }
}

impl Default for ReliablyOrderedSender {
    fn default() -> (sender: Self)
        ensures
            sender@ == SenderState::initial(),
            sender@.wf(),
    {
        ReliablyOrderedSender::new()
    }
}

fn copy_of(bytes: &Vec<u8>) -> (out: Vec<u8>)
    ensures
        out@ == bytes@,
{
    slice_to_vec(bytes.as_slice())
}

impl ReliablyOrderedSender {
    pub fn new() -> (sender: ReliablyOrderedSender)
        ensures
            sender@ == SenderState::initial(),
            sender@.wf(),
    {
        let mut message_buffer: Vec<Option<EnqueuedMessage>> = Vec::new();
        let mut i: usize = 0;
        while i < WINDOW_SIZE
            invariant
                i <= WINDOW_SIZE,
                message_buffer@.len() == i,
                forall|k: int| 0 <= k < i ==> message_buffer@[k] is None,
            decreases WINDOW_SIZE - i,
        {
            message_buffer.push(None);
            i += 1;
        }
        let sender = ReliablyOrderedSender {
            packet_queue: VecDeque::new(),
            message_buffer,
            buffer_oldest: 0,
            buffer_latest: 0,
        };
        assert(sender@.slots =~= SenderState::initial().slots);
        assert(sender@.queue =~= SenderState::initial().queue);
        proof {
            assert forall|i: int| 0 <= i < 64 implies ((#[trigger] sender@.slots[i]) is Some
                <==> position(i, 0) < span(0, 0)) by {
                lemma_window(0, 0, i);
            }
            lemma_window(0, 0, 0);
        }
        sender
    }

    /// Puts a payload at the end of the queue.
    pub fn enqueue_packet(&mut self, data: Vec<u8>, is_fragment: bool)
        ensures
            final(self)@ == old(self)@.enqueue(data@, is_fragment),
            old(self)@.wf() ==> final(self)@.wf(),
    {
        self.packet_queue.push_back((data, is_fragment));
        assert(self@.queue =~= old(self)@.queue.push((data@, is_fragment)));
    }

    /// One round of sending at the time `now`. Returns the frames to put on
    /// the wire, in order.
    pub fn send_messages(&mut self, now: u64) -> (wire: Vec<Vec<u8>>)
        requires
            old(self)@.wf(),
        ensures
            final(self)@.wf(),
            final(self)@.outstanding() <= 64,
            final(self)@ == old(self)@.send(now as int).0,
            datagrams(wire@) == old(self)@.send(now as int).1,
    {
        let ghost before = self@;
        proof {
            lemma_send(before, now as int);
        }
        let mut wire: Vec<Vec<u8>> = Vec::new();
        let mut i: usize = 0;
        assert(before.slots.subrange(0, 0) =~= Seq::empty());
        assert(datagrams(wire@) =~= due_frames(before.slots.subrange(0, 0), now as int));
        while i < WINDOW_SIZE
            invariant
                i <= WINDOW_SIZE,
                before.slots.len() == 64,
                self.message_buffer@.len() == 64,
                self@.queue == before.queue,
                self@.oldest == before.oldest,
                self@.latest == before.latest,
                forall|k: int| 0 <= k < i ==> self@.slots[k] == refreshed(before.slots[k], now as int),
                forall|k: int| i <= k < 64 ==> self@.slots[k] == before.slots[k],
                datagrams(wire@) == due_frames(before.slots.subrange(0, i as int), now as int),
            decreases WINDOW_SIZE - i,
        {
            let ghost current = self@;
            let ghost buffer = self.message_buffer@;
            let ghost wired = wire@;
            proof {
                lemma_slots_view(buffer, i as int, None);
            }
            match self.message_buffer[i].take() {
                Some(message) => {
                    let elapsed: u64 = if now >= message.last_sent {
                        now - message.last_sent
                    } else {
                        0
                    };
                    if !message.acknowledged && elapsed > TIME_BETWEEN_RESENDS {
                        wire.push(copy_of(&message.data));
                        let sent_count: u32 = if message.sent_count < u32::MAX {
                            message.sent_count + 1
                        } else {
                            message.sent_count
                        };
                        let again = EnqueuedMessage {
                            data: message.data,
                            last_sent: now,
                            sent_count,
                            acknowledged: false,
                        };
                        proof {
                            lemma_slots_view(buffer.update(i as int, None), i as int, Some(again));
                        }
                        self.message_buffer[i] = Some(again);
                    } else {
                        proof {
                            lemma_slots_view(
                                buffer.update(i as int, None),
                                i as int,
                                Some(message),
                            );
                        }
                        self.message_buffer[i] = Some(message);
                    }
                },
                None => {},
            }
            proof {
                let upto = before.slots.subrange(0, i as int + 1);
                assert(upto.drop_last() =~= before.slots.subrange(0, i as int));
                assert(upto.last() == before.slots[i as int]);
                assert(self@.slots =~= current.slots.update(
                    i as int,
                    refreshed(before.slots[i as int], now as int),
                ));
                assert(self@.queue =~= before.queue);
                if is_due(before.slots[i as int], now as int) {
                    assert(datagrams(wire@) =~= datagrams(wired).push(
                        before.slots[i as int]->Some_0.data,
                    ));
                } else {
                    assert(wire@ == wired);
                }
            }
            i += 1;
        }
        assert(before.slots.subrange(0, 64) =~= before.slots);
        assert(self@.slots =~= before.slots.map_values(
            |slot: Option<SentFrame>| refreshed(slot, now as int),
        ));
        let ghost passed = self@;
        assert(passed == SenderState {
            slots: before.slots.map_values(|slot: Option<SentFrame>| refreshed(slot, now as int)),
            ..before
        });
        proof {
            assert forall|i: int| 0 <= i < 64 implies ((#[trigger] passed.slots[i]) is Some
                <==> position(i, passed.oldest) < passed.outstanding()) by {
                assert(passed.slots[i] is Some <==> before.slots[i] is Some);
            }
        }
        while self.get_free_buffer_slots() > 0 && self.packet_queue.len() > 0
            invariant
                self@.wf(),
                self.message_buffer@.len() == 64,
                self@.fill(now as int, datagrams(wire@)) == passed.fill(
                    now as int,
                    due_frames(before.slots, now as int),
                ),
            decreases self@.queue.len(),
        {
            let ghost current = self@;
            let ghost buffer = self.message_buffer@;
            let ghost wired = wire@;
            let (data, is_fragment) = self.packet_queue.pop_front().unwrap();
            assert(self@.queue =~= current.queue.drop_first());
            assert(current.queue[0] == (data@, is_fragment));
            let sequence_number: u16 = self.buffer_latest;
            self.buffer_latest = (self.buffer_latest + 1) % 1024;
            let buffer_index: usize = (sequence_number % 64) as usize;
            let length: usize = data.len() % 0x2000 * 8;
            let mut packet_bytes: Vec<u8> = Vec::new();
            packet_bytes.push(RELIABLE_ORDERED_ID);
            packet_bytes.push(
                ((sequence_number * 2 % 0x100) as u8) + if is_fragment {
                    1
                } else {
                    0
                },
            );
            packet_bytes.push((sequence_number / 0x80) as u8);
            packet_bytes.push((length % 0x100) as u8);
            packet_bytes.push((length / 0x100) as u8);
            assert(packet_bytes@ =~= frame_header(
                sequence_number as int,
                is_fragment,
                data@.len() as int,
            ));
            push_all(&mut packet_bytes, data.as_slice());
            wire.push(copy_of(&packet_bytes));
            let fresh = EnqueuedMessage {
                data: packet_bytes,
                last_sent: now,
                sent_count: 1,
                acknowledged: false,
            };
            proof {
                lemma_slots_view(buffer, buffer_index as int, Some(fresh));
                lemma_admit_front(current, now as int);
                assert(datagrams(wire@) =~= datagrams(wired).push(current.next_frame()));
            }
            self.message_buffer[buffer_index] = Some(fresh);
            assert(self@ == current.admit_front(now as int));
        }
        wire
    }

    /// Takes an acknowledgement for `sequence_number`.
    pub fn received_acknowledge(&mut self, sequence_number: u16)
        requires
            old(self)@.wf(),
        ensures
            final(self)@.wf(),
            final(self)@.outstanding() <= old(self)@.outstanding(),
            final(self)@ == old(self)@.acknowledge(sequence_number as int),
    {
        let ghost before = self@;
        proof {
            lemma_acknowledge(before, sequence_number as int);
        }
        let distance = ReliablyOrderedSender::create_relative_index(
            sequence_number,
            self.buffer_oldest,
        );
        if distance < 0 {
            return ;
        }
        if distance == 0 {
            let head: usize = (self.buffer_oldest % 64) as usize;
            if self.message_buffer[head].is_none() {
                return ;
            }
            self.message_buffer[head] = None;
            self.buffer_oldest = (self.buffer_oldest + 1) % 1024;
            assert(self@.slots =~= before.slots.update(before.oldest % 64, None));
            assert(self@.queue =~= before.queue);
            assert(self@ == before.release_head());
            proof {
                lemma_window(before.oldest, before.latest, before.oldest % 64);
                lemma_release_head(before);
            }
            loop
                invariant
                    self@.wf(),
                    self@.reap() == before.release_head().reap(),
                ensures
                    self@ == before.release_head().reap(),
                decreases occupied_count(self@.slots),
            {
                let ghost current = self@;
                let next: usize = (self.buffer_oldest % 64) as usize;
                let reapable = match &self.message_buffer[next] {
                    Some(message) => message.acknowledged,
                    None => false,
                };
                if !reapable {
                    break ;
                }
                self.message_buffer[next] = None;
                self.buffer_oldest = (self.buffer_oldest + 1) % 1024;
                assert(self@.slots =~= current.slots.update(current.oldest % 64, None));
                assert(self@.queue =~= current.queue);
                assert(self@ == current.release_head());
                proof {
                    lemma_window(current.oldest, current.latest, current.oldest % 64);
                    lemma_release_head(current);
                }
            }
        }
        let ghost current = self@;
        let ahead = ReliablyOrderedSender::create_relative_index(
            sequence_number,
            self.buffer_latest,
        );
        if ahead <= 0 {
            let index: usize = (sequence_number % 64) as usize;
            match self.message_buffer[index].take() {
                Some(message) => {
                    self.message_buffer[index] = Some(
                        EnqueuedMessage {
                            data: message.data,
                            last_sent: message.last_sent,
                            sent_count: message.sent_count,
                            acknowledged: true,
                        },
                    );
                    assert(self@.slots =~= current.mark(sequence_number as int).slots);
                },
                None => {
                    assert(self@.slots =~= current.slots);
                },
            }
            assert(self@.queue =~= current.queue);
        }
    }

    /// The signed distance of `sequence_number` from `relative_offset` on the
    /// cycle of sequence numbers.
    pub fn create_relative_index(sequence_number: u16, relative_offset: u16) -> (distance: i16)
        ensures
            distance == relative(sequence_number as int, relative_offset as int),
            -512 <= distance < 512,
    {
        let shifted: i32 = (sequence_number as i32) - (relative_offset as i32) + 1024 + 512
            + 0x10000;
        proof {
            reveal(relative);
            assert((shifted - 64 * 1024) % 1024 == shifted % 1024) by (nonlinear_arith)
                requires
                    shifted >= 0,
            ;
        }
        (shifted % 1024 - 512) as i16
    }

    /// How many more frames the window can take.
    pub fn get_free_buffer_slots(&self) -> (free: u8)
        requires
            self@.wf(),
        ensures
            free == 64 - self@.outstanding(),
    {
        proof {
            reveal(span);
        }
        (64 - ((self.buffer_latest as usize) + SEQUENCE_NUMBERS - (self.buffer_oldest as usize))
            % SEQUENCE_NUMBERS) as u8
    }
}

} // verus!
