//! The receiving end of the reliable-ordered channel: a window of 64 slots
//! over a cyclic space of 1024 sequence numbers, which hands frames on in the
//! order of their sequence numbers and drops what it has already seen.

use crate::lidgren::data_structures::MessageHeader;
use crate::util::custom_iterator::CustomIterator;
use vstd::prelude::*;

verus! {

pub const WINDOW_SIZE: usize = 64;

pub const SEQUENCE_NUMBERS: usize = 1024;

/// A frame of the channel: its header and its payload.
pub struct Frame {
    pub header: MessageHeader,
    pub data: Seq<u8>,
}

/// The signed distance of `sequence` from `reference` on the cycle of 1024
/// sequence numbers, in [-512, 512).
#[verifier::opaque]
pub open spec fn relative(sequence: int, reference: int) -> int {
    (sequence - reference + 1024 + 512) % 1024 - 512
}

/// The distance is zero exactly at the reference, it tells the slot, and it
/// shrinks by one where the reference moves on by one.
pub proof fn lemma_relative(sequence: int, reference: int)
    requires
        0 <= sequence,
        0 <= reference < 1024,
    ensures
        -512 <= relative(sequence, reference) < 512,
        relative(sequence, reference) == 0 <==> sequence % 1024 == reference,
        relative(sequence, reference) == 0 ==> sequence % 64 == reference % 64,
        sequence % 64 == reference % 64 && -64 < relative(sequence, reference) < 64 ==> relative(
            sequence,
            reference,
        ) == 0,
        relative(sequence, reference) > -512 ==> relative(sequence, (reference + 1) % 1024)
            == relative(sequence, reference) - 1,
{
    reveal(relative);
    let q = (sequence - reference + 1536) / 1024;
    let r = (sequence - reference + 1536) % 1024;
    assert(sequence - reference + 1536 == 1024 * q + r);
    if sequence % 64 == reference % 64 && -64 < r - 512 < 64 {
        assert((sequence - reference) % 64 == 0) by {
            let a = sequence / 64;
            let b = reference / 64;
            assert(sequence - reference == 64 * (a - b));
        }
        assert((r - 512) % 64 == 0) by {
            let d = (sequence - reference) / 64;
            assert(sequence - reference == 64 * d);
            assert(r - 512 == 64 * (d + 16 - 16 * q));
        }
    }
}

/// A sequence number that was awaited lies `count` behind once the receiver
/// has moved on by `count`.
pub proof fn lemma_relative_behind(sequence: int, reference: int, count: int)
    requires
        0 <= sequence,
        0 <= reference < 1024,
        0 <= count <= 512,
        relative(sequence, reference) == 0,
    ensures
        relative(sequence, (reference + count) % 1024) == -count,
{
    reveal(relative);
}

/// How many slots hold a frame.
pub open spec fn occupied_count<T>(slots: Seq<Option<T>>) -> nat
    decreases slots.len(),
{
    if slots.len() == 0 {
        0
    } else {
        occupied_count(slots.drop_last()) + if slots.last() is Some {
            1nat
        } else {
            0nat
        }
    }
}

/// There are no more frames than slots, and emptying a slot leaves one frame fewer.
pub proof fn lemma_occupied_count<T>(slots: Seq<Option<T>>, index: int)
    ensures
        occupied_count(slots) <= slots.len(),
        0 <= index < slots.len() && slots[index] is Some ==> occupied_count(
            slots.update(index, None),
        ) + 1 == occupied_count(slots),
        0 <= index < slots.len() && slots[index] is None ==> forall|x: T|
            occupied_count(#[trigger] slots.update(index, Some(x))) == occupied_count(slots) + 1,
    decreases slots.len(),
{
    if slots.len() > 0 {
        let front = slots.drop_last();
        lemma_occupied_count(front, index);
        if 0 <= index < slots.len() {
            if index == slots.len() - 1 {
                assert(slots.update(index, None).drop_last() =~= front);
                assert forall|x: T|
                    slots[index] is None implies occupied_count(
                    #[trigger] slots.update(index, Some(x)),
                ) == occupied_count(slots) + 1 by {
                    assert(slots.update(index, Some(x)).drop_last() =~= front);
                }
            } else {
                assert(slots.update(index, None).drop_last() =~= front.update(index, None));
                assert forall|x: T|
                    slots[index] is None implies occupied_count(
                    #[trigger] slots.update(index, Some(x)),
                ) == occupied_count(slots) + 1 by {
                    assert(slots.update(index, Some(x)).drop_last() =~= front.update(
                        index,
                        Some(x),
                    ));
                }
            }
        }
    }
}

/// What the receiver holds: the sequence number it waits for, and the frames
/// that came early.
pub struct ReceiverState {
    pub latest: int,
    pub slots: Seq<Option<Frame>>,
}

impl ReceiverState {
    /// Nothing received yet.
    pub open spec fn initial() -> ReceiverState {
        ReceiverState { latest: 0, slots: Seq::new(64, |i: int| None) }
    }

    /// Every stored frame lies in its own slot and is at least `low` and
    /// less than `low + 64` ahead of the awaited sequence number.
    pub open spec fn holds_window(self, low: int) -> bool {
        &&& 0 <= self.latest < 1024
        &&& self.slots.len() == 64
        &&& forall|i: int|
            0 <= i < 64 ==> ((#[trigger] self.slots[i]) matches Some(frame) ==> {
                &&& frame.header.sequence_number % 64 == i
                &&& low <= relative(frame.header.sequence_number as int, self.latest) < low + 64
            })
    }

    /// The invariant: every stored frame is between 1 and 64 ahead.
    pub open spec fn wf(self) -> bool {
        self.holds_window(1)
    }

    /// The state that waits for the next sequence number.
    pub open spec fn advanced(self) -> ReceiverState {
        ReceiverState { latest: (self.latest + 1) % 1024, slots: self.slots }
    }

    /// Hands on, behind `out`, the stored frames that follow in sequence.
    pub open spec fn drain(self, out: Seq<Frame>) -> (ReceiverState, Seq<Frame>)
        decreases occupied_count(self.slots),
    {
        let index = self.latest % 64;
        if self.slots.len() == 64 && 0 <= self.latest && self.slots[index] is Some {
            proof {
                lemma_occupied_count(self.slots, index);
            }
            ReceiverState {
                latest: (self.latest + 1) % 1024,
                slots: self.slots.update(index, None),
            }.drain(out.push(self.slots[index]->Some_0))
        } else {
            (self, out)
        }
    }

    /// One frame arrives: the state afterwards and the frames handed on.
    ///
    /// A frame behind the awaited one is old and dropped. The awaited frame is
    /// handed on together with the stored frames that follow it. A frame up
    /// to 64 ahead is stored unless its slot is taken. A frame further ahead
    /// is dropped.
    pub open spec fn handle(self, frame: Frame) -> (ReceiverState, Seq<Frame>) {
        let distance = relative(frame.header.sequence_number as int, self.latest);
        let index = frame.header.sequence_number % 64;
        if distance == 0 {
            self.advanced().drain(seq![frame])
        } else if 0 < distance <= 64 && self.slots[index as int] is None {
            (
                ReceiverState {
                    latest: self.latest,
                    slots: self.slots.update(index as int, Some(frame)),
                },
                Seq::empty(),
            )
        } else {
            (self, Seq::empty())
        }
    }

    /// Whether the frames follow each other in sequence from `start` on.
    pub open spec fn in_sequence(frames: Seq<Frame>, start: int) -> bool {
        forall|k: int|
            0 <= k < frames.len() ==> (#[trigger] frames[k]).header.sequence_number % 1024 == (
            start + k) % 1024
    }
}

/// Draining keeps the invariant and the order: what it hands on continues the
/// sequence, and the receiver then waits for the number behind the last frame.
pub proof fn lemma_drain(state: ReceiverState, out: Seq<Frame>, start: int)
    requires
        state.holds_window(0),
        0 <= start < 1024,
        ReceiverState::in_sequence(out, start),
        state.latest == (start + out.len()) % 1024,
    ensures
        state.drain(out).0.wf(),
        state.drain(out).1.len() >= out.len(),
        state.drain(out).1.len() <= out.len() + occupied_count(state.slots),
        state.drain(out).1.subrange(0, out.len() as int) == out,
        ReceiverState::in_sequence(state.drain(out).1, start),
        state.drain(out).0.latest == (start + state.drain(out).1.len()) % 1024,
    decreases occupied_count(state.slots),
{
    let index = state.latest % 64;
    if state.slots[index] is Some {
        let frame = state.slots[index]->Some_0;
        let next = ReceiverState {
            latest: (state.latest + 1) % 1024,
            slots: state.slots.update(index, None),
        };
        let out2 = out.push(frame);
        lemma_occupied_count(state.slots, index);
        lemma_relative(frame.header.sequence_number as int, state.latest);
        assert forall|i: int| 0 <= i < 64 implies ((#[trigger] next.slots[i]) matches Some(f) ==> {
            &&& f.header.sequence_number % 64 == i
            &&& 0 <= relative(f.header.sequence_number as int, next.latest) < 64
        }) by {
            if i != index && next.slots[i] is Some {
                let f = next.slots[i]->Some_0;
                assert(state.slots[i] == Some(f));
                lemma_relative(f.header.sequence_number as int, state.latest);
            }
        }
        assert forall|k: int| 0 <= k < out2.len() implies (
        #[trigger] out2[k]).header.sequence_number % 1024 == (start + k) % 1024 by {
            if k < out.len() {
                assert(out2[k] == out[k]);
            } else {
                assert(out2[k] == frame);
            }
        }
        lemma_drain(next, out2, start);
        assert(state.drain(out) == next.drain(out2));
        assert(next.drain(out2).1.subrange(0, out.len() as int) =~= out) by {
            assert(next.drain(out2).1.subrange(0, out2.len() as int) == out2);
            assert forall|k: int| 0 <= k < out.len() implies next.drain(out2).1[k] == out[k] by {
                assert(next.drain(out2).1.subrange(0, out2.len() as int)[k] == out2[k]);
            }
        }
    } else {
        assert(state.drain(out) == (state, out));
        assert(out.subrange(0, out.len() as int) =~= out);
        assert forall|i: int| 0 <= i < 64 implies ((#[trigger] state.slots[i]) matches Some(f) ==> {
            &&& f.header.sequence_number % 64 == i
            &&& 1 <= relative(f.header.sequence_number as int, state.latest) < 65
        }) by {
            if state.slots[i] is Some {
                let f = state.slots[i]->Some_0;
                lemma_relative(f.header.sequence_number as int, state.latest);
            }
        }
    }
}

/// The frames that the receiver hands on follow each other in sequence,
/// beginning with the one it waited for: whatever frames arrive, the output
/// continues the order in which the peer numbered them. The invariant holds
/// afterwards.
pub proof fn lemma_handle_keeps_order(state: ReceiverState, frame: Frame)
    requires
        state.wf(),
    ensures
        state.handle(frame).0.wf(),
        ReceiverState::in_sequence(state.handle(frame).1, state.latest),
        state.handle(frame).0.latest == (state.latest + state.handle(frame).1.len()) % 1024,
        state.handle(frame).1.len() <= 65,
        state.handle(frame).1.len() > 0 ==> state.handle(frame).1[0] == frame,
{
    let distance = relative(frame.header.sequence_number as int, state.latest);
    let index = frame.header.sequence_number % 64;
    lemma_relative(frame.header.sequence_number as int, state.latest);
    if distance == 0 {
        let out = seq![frame];
        assert(ReceiverState::in_sequence(out, state.latest));
        let next = state.advanced();
        assert forall|i: int| 0 <= i < 64 implies ((#[trigger] next.slots[i]) matches Some(f) ==> {
            &&& f.header.sequence_number % 64 == i
            &&& 0 <= relative(f.header.sequence_number as int, next.latest) < 64
        }) by {
            if next.slots[i] is Some {
                let f = next.slots[i]->Some_0;
                assert(state.slots[i] == Some(f));
                lemma_relative(f.header.sequence_number as int, state.latest);
            }
        }
        lemma_drain(next, out, state.latest);
        lemma_occupied_count(next.slots, 0);
        assert(next.drain(out).1.subrange(0, 1)[0] == out[0]);
    } else if 0 < distance <= 64 && state.slots[index as int] is None {
        let next = state.handle(frame).0;
        assert forall|i: int| 0 <= i < 64 implies ((#[trigger] next.slots[i]) matches Some(f) ==> {
            &&& f.header.sequence_number % 64 == i
            &&& 1 <= relative(f.header.sequence_number as int, next.latest) < 65
        }) by {
            if i != index && next.slots[i] is Some {
                assert(state.slots[i] == next.slots[i]);
            }
        }
    }
}

/// A frame that arrives a second time, right behind itself, is dropped: the
/// receiver hands on nothing and stays as it is.
pub proof fn lemma_duplicate_is_dropped(state: ReceiverState, frame: Frame)
    requires
        state.wf(),
    ensures
        state.handle(frame).0.handle(frame) == (state.handle(frame).0, Seq::<Frame>::empty()),
{
    let distance = relative(frame.header.sequence_number as int, state.latest);
    lemma_handle_keeps_order(state, frame);
    if distance == 0 {
        let after = state.handle(frame).0;
        let out = state.advanced().drain(seq![frame]).1;
        lemma_drain_hands_on(state.advanced(), seq![frame]);
        let count = out.len() as int;
        lemma_relative_behind(frame.header.sequence_number as int, state.latest, count);
    }
}

/// Draining only adds to what was handed on.
proof fn lemma_drain_hands_on(state: ReceiverState, out: Seq<Frame>)
    ensures
        state.drain(out).1.len() >= out.len(),
    decreases occupied_count(state.slots),
{
    let index = state.latest % 64;
    if state.slots.len() == 64 && 0 <= state.latest && state.slots[index] is Some {
        lemma_occupied_count(state.slots, index);
        lemma_drain_hands_on(
            ReceiverState {
                latest: (state.latest + 1) % 1024,
                slots: state.slots.update(index, None),
            },
            out.push(state.slots[index]->Some_0),
        );
    }
}

/// Appending a pair to an output list appends its frame.
proof fn lemma_output_push(list: Seq<(MessageHeader, Vec<u8>)>, pair: (MessageHeader, Vec<u8>))
    ensures
        output_frames(list.push(pair)) == output_frames(list).push(output_frame(pair)),
{
    assert(output_frames(list.push(pair)) =~= output_frames(list).push(output_frame(pair)));
}

struct InternalMessage {
    header: MessageHeader,
    data: Vec<u8>,
}

impl InternalMessage {
    spec fn frame(self) -> Frame {
        Frame { header: self.header, data: self.data@ }
    }
}

spec fn slot_frame(slot: Option<InternalMessage>) -> Option<Frame> {
    match slot {
        Some(message) => Some(message.frame()),
        None => None,
    }
}

/// The frame that a pair of the output list stands for.
pub open spec fn output_frame(pair: (MessageHeader, Vec<u8>)) -> Frame {
    Frame { header: pair.0, data: pair.1@ }
}

/// The frames that an output list stands for.
pub open spec fn output_frames(list: Seq<(MessageHeader, Vec<u8>)>) -> Seq<Frame> {
    list.map_values(|pair: (MessageHeader, Vec<u8>)| output_frame(pair))
}

pub struct ReliableOrderedHandler {
    latest_sequence_index: u16,
    cycle_buffer: Vec<Option<InternalMessage>>,
}

impl View for ReliableOrderedHandler {
    type V = ReceiverState;

    closed spec fn view(&self) -> ReceiverState {
        ReceiverState {
            latest: self.latest_sequence_index as int,
            slots: self.cycle_buffer@.map_values(|slot: Option<InternalMessage>| slot_frame(slot)),
        }
    }
}

impl Default for ReliableOrderedHandler {
    fn default() -> (handler: Self)
        ensures
            handler@ == ReceiverState::initial(),
            handler@.wf(),
    {
        let mut cycle_buffer: Vec<Option<InternalMessage>> = Vec::new();
        let mut i: usize = 0;
        while i < WINDOW_SIZE
            invariant
                i <= WINDOW_SIZE,
                cycle_buffer@.len() == i,
                forall|k: int| 0 <= k < i ==> cycle_buffer@[k] is None,
            decreases WINDOW_SIZE - i,
        {
            cycle_buffer.push(None);
            i += 1;
        }
        let handler = ReliableOrderedHandler { latest_sequence_index: 0, cycle_buffer };
        assert(handler@.slots =~= ReceiverState::initial().slots);
        handler
    }
}

impl ReliableOrderedHandler {
    /// Takes one frame of the channel, whose payload is what is left in
    /// `message_data_iterator`, and appends to `output_list` the frames that
    /// are now due, in order.
    pub fn handle(
        &mut self,
        header: MessageHeader,
        message_data_iterator: CustomIterator,
        output_list: &mut Vec<(MessageHeader, Vec<u8>)>,
    )
        requires
            old(self)@.wf(),
        ensures
            final(self)@.wf(),
            final(self)@ == old(self)@.handle(
                Frame { header, data: message_data_iterator@.rest() },
            ).0,
            output_frames(final(output_list)@) == output_frames(old(output_list)@) + old(self)@.handle(Frame { header, data: message_data_iterator@.rest() }).1,
            ReceiverState::in_sequence(
                old(self)@.handle(Frame { header, data: message_data_iterator@.rest() }).1,
                old(self)@.latest,
            ),
    {
        let ghost frame = Frame { header, data: message_data_iterator@.rest() };
        let ghost before = self@;
        let ghost listed = output_frames(output_list@);
        proof {
            lemma_handle_keeps_order(before, frame);
            assert(listed + Seq::<Frame>::empty() =~= listed);
        }
        let latest: i32 = self.latest_sequence_index as i32;
        let distance: i32 = ((header.sequence_number as i32) - latest + 1024 + 512) % 1024 - 512;
        assert(distance == relative(header.sequence_number as int, before.latest)) by {
            reveal(relative);
        }
        if distance < 0 || distance > 64 {
            return ;
        }
        let mut iterator = message_data_iterator;
        let data = iterator.consume();
        let index: usize = (header.sequence_number % 64) as usize;
        if distance == 0 {
            proof {
                lemma_output_push(output_list@, (header, data));
            }
            output_list.push((header, data));
            self.latest_sequence_index = (self.latest_sequence_index + 1) % 1024;
            let ghost mut emitted: Seq<Frame> = seq![frame];
            assert(output_frames(output_list@) =~= listed + emitted);
            assert(self@ == before.advanced());
            loop
                invariant
                    self.latest_sequence_index < 1024,
                    self.cycle_buffer@.len() == 64,
                    self@.drain(emitted) == before.advanced().drain(seq![frame]),
                    output_frames(output_list@) == listed + emitted,
                ensures
                    self@ == before.advanced().drain(seq![frame]).0,
                    output_frames(output_list@) == listed + before.advanced().drain(
                        seq![frame],
                    ).1,
                decreases occupied_count(self@.slots),
            {
                let slot: usize = (self.latest_sequence_index % 64) as usize;
                let ghost current = self@;
                let ghost list_now = output_list@;
                match self.cycle_buffer[slot].take() {
                    Some(message) => {
                        proof {
                            lemma_occupied_count(current.slots, slot as int);
                            lemma_output_push(list_now, (message.header, message.data));
                            assert(current.slots[slot as int] == Some(message.frame()));
                            assert((listed + emitted).push(message.frame()) =~= listed
                                + emitted.push(message.frame()));
                            emitted = emitted.push(message.frame());
                        }
                        output_list.push((message.header, message.data));
                        self.latest_sequence_index = (self.latest_sequence_index + 1) % 1024;
                        assert(self@.slots =~= current.slots.update(slot as int, None));
                    },
                    None => {
                        assert(self@.slots =~= current.slots);
                        assert(current.slots[slot as int] is None);
                        break ;
                    },
                }
            }
            return ;
        }
        if self.cycle_buffer[index].is_none() {
            let ghost current = self@;
            self.cycle_buffer[index] = Some(InternalMessage { header, data });
            assert(self@.slots =~= current.slots.update(index as int, Some(frame)));
        } else {
            assert(before.slots[index as int] is Some);
        }
    }

    /// Whether a frame with this sequence number is more than 64 ahead of
    /// the awaited one, so that the receiver has no room for it.
    pub fn is_too_early(&self, sequence_number: u16) -> (too_early: bool)
        requires
            self@.wf(),
        ensures
            too_early == (relative(sequence_number as int, self@.latest) > 64),
    {
        proof {
            reveal(relative);
        }
        let latest: i32 = self.latest_sequence_index as i32;
        ((sequence_number as i32) - latest + 1024 + 512) % 1024 - 512 > 64
    }

    /// The sequence number that the receiver waits for.
    pub fn latest_sequence_index(&self) -> (latest: u16)
        ensures
            latest == self@.latest,
    {
        self.latest_sequence_index
    }
}

} // verus!
