//! One connection: the reorder buffer of the reliable-ordered channel, the
//! fragment groups that are being put together, the sender with its window,
//! and the counter of fragment groups.

use crate::lidgren::channel_handler::reliable_ordered::{
    output_frame, output_frames, relative, Frame, ReceiverState, ReliableOrderedHandler,
};
use crate::lidgren::channel_sender::reliable_ordered::{
    datagrams, ReliablyOrderedSender, SenderState,
};
use crate::lidgren::data_structures::MessageHeader;
use crate::lidgren::data_types::{DataType, RemoteAddress};
use crate::lidgren::fragment::{
    accept_chunk, chunks_for, deliver_fragment, fragment_frame, fragment_frames,
    fragment_payload, group_of, lemma_accept_keeps_wf, planned_chunk_size, ChunkHeader,
    FragmentData, GroupState,
};
use crate::lidgren::lidgren_server::{lemma_packets_push, packets, DataPacket, Packet};
use crate::util::custom_iterator::{Cursor, CustomIterator};
use std::collections::HashMap;
use vstd::prelude::*;
use vstd::std_specs::iter::IteratorSpec;

verus! {

/// The milliseconds after which a fragment group that no chunk came for is forgotten.
pub const FRAGMENT_GROUP_LIFETIME: u64 = 10000;

/// The fragment group number that follows `index`: from 1 to 65534, then 1 again.
pub open spec fn next_group_index(index: int) -> int {
    if index + 1 >= 0xFFFF {
        1
    } else {
        index + 1
    }
}

/// Whether a group is forgotten at `now`.
pub open spec fn is_expired(group: GroupState, now: int) -> bool {
    now - group.last_access >= FRAGMENT_GROUP_LIFETIME
}

/// The groups that are not forgotten at `now`.
pub open spec fn unexpired(groups: Map<u32, GroupState>, now: int) -> Map<u32, GroupState> {
    Map::new(
        |id: u32| groups.dom().contains(id) && !is_expired(groups[id], now),
        |id: u32| groups[id],
    )
}

/// The queue entries of the frames of a fragmented payload.
pub open spec fn fragment_entries(frames: Seq<Seq<u8>>) -> Seq<(Seq<u8>, bool)> {
    Seq::new(frames.len(), |i: int| (frames[i], true))
}

/// What a connection holds.
pub struct ClientState {
    pub remote_address: RemoteAddress,
    /// The receiver of the channel, once a frame has come.
    pub receiver: Option<ReceiverState>,
    pub groups: Map<u32, GroupState>,
    pub sender: SenderState,
    /// The number of the next fragment group to send.
    pub next_group: int,
}

impl ClientState {
    pub open spec fn initial(remote_address: RemoteAddress) -> ClientState {
        ClientState {
            remote_address,
            receiver: None,
            groups: Map::empty(),
            sender: SenderState::initial(),
            next_group: 1,
        }
    }

    pub open spec fn wf(self) -> bool {
        &&& self.receiver matches Some(receiver) ==> receiver.wf()
        &&& self.sender.wf()
        &&& 1 <= self.next_group < 0xFFFF
        &&& forall|id: u32| self.groups.dom().contains(id) ==> (#[trigger] self.groups[id]).wf()
    }

    /// A payload is handed over for sending. One that fits a frame of 1408
    /// bytes joins the queue as it is; a longer one is cut into the chunks of
    /// a new fragment group, which join the queue in order.
    pub open spec fn send(self, data: Seq<u8>) -> ClientState {
        if data.len() + 5 <= 1408 {
            ClientState { sender: self.sender.enqueue(data, false), ..self }
        } else {
            ClientState {
                sender: SenderState {
                    queue: self.sender.queue + fragment_entries(
                        fragment_frames(
                            self.next_group as u32,
                            data,
                            planned_chunk_size(self.next_group as u32, data.len() as int) as u32,
                        ),
                    ),
                    ..self.sender
                },
                next_group: next_group_index(self.next_group),
                ..self
            }
        }
    }

    /// What a frame of the channel carries is handed on: as it is, or, with
    /// the fragment flag, to the fragment groups.
    pub open spec fn deliver(self, fragment: bool, data: Seq<u8>, now: int) -> (
        ClientState,
        Option<Seq<u8>>,
    ) {
        if !fragment {
            (self, Some(data))
        } else {
            (
                ClientState { groups: deliver_fragment(self.groups, data, now).0, ..self },
                deliver_fragment(self.groups, data, now).1,
            )
        }
    }

    /// Hands on the frames from the number `from` on, and appends to `out`
    /// the payloads that are complete.
    pub open spec fn deliver_all(self, frames: Seq<Frame>, from: int, now: int, out: Seq<Packet>)
        -> (ClientState, Seq<Packet>)
        decreases frames.len() - from,
    {
        if 0 <= from < frames.len() {
            self.deliver(frames[from].header.fragment, frames[from].data, now).0.deliver_all(
                frames,
                from + 1,
                now,
                match self.deliver(frames[from].header.fragment, frames[from].data, now).1 {
                    Some(data) => out.push(
                        Packet {
                            data_type: DataType::Data,
                            remote_address: self.remote_address,
                            data,
                        },
                    ),
                    None => out,
                },
            )
        } else {
            (self, out)
        }
    }

    /// A frame of the channel arrives at `now`: the receiver puts it in
    /// order, and what is due is handed on.
    pub open spec fn receive(self, frame: Frame, now: int, out: Seq<Packet>) -> (
        ClientState,
        Seq<Packet>,
    ) {
        let receiver = match self.receiver {
            Some(receiver) => receiver,
            None => ReceiverState::initial(),
        };
        ClientState { receiver: Some(receiver.handle(frame).0), ..self }.deliver_all(
            receiver.handle(frame).1,
            0,
            now,
            out,
        )
    }

    /// The sequence number that the receiver of the channel waits for.
    pub open spec fn awaited(self) -> int {
        match self.receiver {
            Some(receiver) => receiver.latest,
            None => 0,
        }
    }

    /// Forgets the fragment groups that no chunk came for in the last ten seconds.
    pub open spec fn cleanup(self, now: int) -> ClientState {
        ClientState { groups: unexpired(self.groups, now), ..self }
    }
}

/// Delivering keeps the invariant of the connection.
pub proof fn lemma_deliver_keeps_wf(state: ClientState, fragment: bool, data: Seq<u8>, now: int)
    requires
        state.wf(),
        0 <= now <= u64::MAX,
    ensures
        state.deliver(fragment, data, now).0.wf(),
        state.deliver(fragment, data, now).0.remote_address == state.remote_address,
        state.deliver(fragment, data, now).0.receiver == state.receiver,
        state.deliver(fragment, data, now).0.sender == state.sender,
        state.deliver(fragment, data, now).0.next_group == state.next_group,
{
    if fragment {
        let read = ChunkHeader::spec_read(Cursor { bytes: data, position: 0 });
        if read.0 is Ok && read.0->Ok_0.is_valid() {
            let chunk = read.0->Ok_0;
            lemma_accept_keeps_wf(group_of(state.groups, chunk.group_id), chunk, read.1.rest(), now);
        }
    }
}

/// The groups of a map as values.
spec fn group_values(groups: Map<u32, FragmentData>) -> Map<u32, GroupState> {
    Map::new(|id: u32| groups.dom().contains(id), |id: u32| groups[id]@)
}

pub struct ConnectedClient {
    pub remote_address: RemoteAddress,
    pub channel_handler: Option<ReliableOrderedHandler>,
    fragment_map: HashMap<u32, FragmentData>,
    channel_sender: ReliablyOrderedSender,
    fragment_group_index: u32,
}

impl View for ConnectedClient {
    type V = ClientState;

    closed spec fn view(&self) -> ClientState {
        ClientState {
            remote_address: self.remote_address,
            receiver: match self.channel_handler {
                Some(handler) => Some(handler@),
                None => None,
            },
            groups: group_values(self.fragment_map@),
            sender: self.channel_sender@,
            next_group: self.fragment_group_index as int,
        }
    }
}

impl ConnectedClient {
    /// The invariant of the connection.
    pub closed spec fn wf(&self) -> bool {
        self@.wf()
    }

    /// The invariant of the connection holds of its value.
    pub proof fn lemma_view_wf(&self)
        requires
            self.wf(),
        ensures
            self@.wf(),
    {
    }

    pub fn new(remote_address: RemoteAddress) -> (client: ConnectedClient)
        ensures
            client.wf(),
            client@ == ClientState::initial(remote_address),
    {
        let client = ConnectedClient {
            remote_address,
            channel_handler: None,
            fragment_map: HashMap::new(),
            channel_sender: ReliablyOrderedSender::default(),
            fragment_group_index: 1,
        };
        assert(client@.groups =~= Map::empty());
        client
    }

    /// Takes a payload for sending over the reliable-ordered channel.
    pub fn send_to(&mut self, data: Vec<u8>)
        requires
            old(self).wf(),
            data@.len() <= 0x1FFF_FFFF,
        ensures
            final(self).wf(),
            final(self)@ == old(self)@.send(data@),
    {
        if data.len() + 5 <= 1408 {
            self.channel_sender.enqueue_packet(data, false);
            return ;
        }
        let fragment_group_index: u32 = self.fragment_group_index;
        self.fragment_group_index += 1;
        if self.fragment_group_index >= 0xFFFF {
            self.fragment_group_index = 1;
        }
        let mut frames = fragment_payload(fragment_group_index, &data);
        let ghost planned = fragment_frames(
            fragment_group_index,
            data@,
            planned_chunk_size(fragment_group_index, data@.len() as int) as u32,
        );
        let ghost queue = self.channel_sender@.queue;
        let mut index: usize = 0;
        assert(queue + fragment_entries(planned.subrange(0, 0)) =~= queue);
        while index < frames.len()
            invariant
                index <= frames.len(),
                frames@.len() == planned.len(),
                forall|i: int| index <= i < frames@.len() ==> (#[trigger] frames@[i])@ == planned[i],
                self.channel_sender@.wf(),
                self.channel_sender@ == (SenderState {
                    queue: queue + fragment_entries(planned.subrange(0, index as int)),
                    ..old(self).channel_sender@
                }),
                self.remote_address == old(self).remote_address,
                self.channel_handler == old(self).channel_handler,
                self.fragment_map == old(self).fragment_map,
                self.fragment_group_index == next_group_index(fragment_group_index as int),
            decreases frames.len() - index,
        {
            let mut frame: Vec<u8> = Vec::new();
            std::mem::swap(&mut frames[index], &mut frame);
            self.channel_sender.enqueue_packet(frame, true);
            index += 1;
            assert(queue + fragment_entries(planned.subrange(0, index as int)) =~= (queue
                + fragment_entries(planned.subrange(0, index - 1))).push(
                (planned[index - 1], true),
            ));
        }
        assert(planned.subrange(0, index as int) =~= planned);
    }

    /// Whether a frame with this sequence number is more than 64 ahead of
    /// the one that the receiver waits for.
    pub fn is_too_early(&self, sequence_number: u16) -> (too_early: bool)
        requires
            self.wf(),
        ensures
            too_early == (relative(sequence_number as int, self@.awaited()) > 64),
    {
        match &self.channel_handler {
            Some(handler) => handler.is_too_early(sequence_number),
            None => {
                proof {
                    reveal(relative);
                }
                ((sequence_number as i32) + 1024 + 512) % 1024 - 512 > 64
            },
        }
    }

    pub fn received_acknowledge(&mut self, sequence_id: u16)
        requires
            old(self).wf(),
        ensures
            final(self).wf(),
            final(self)@ == (ClientState {
                sender: old(self)@.sender.acknowledge(sequence_id as int),
                ..old(self)@
            }),
    {
        self.channel_sender.received_acknowledge(sequence_id);
    }

    /// One round of sending at the time `now`. Returns the frames to put on
    /// the wire for this connection, in order.
    pub fn send_messages(&mut self, now: u64) -> (wire: Vec<Vec<u8>>)
        requires
            old(self).wf(),
        ensures
            final(self).wf(),
            final(self)@ == (ClientState {
                sender: old(self)@.sender.send(now as int).0,
                ..old(self)@
            }),
            datagrams(wire@) == old(self)@.sender.send(now as int).1,
    {
        self.channel_sender.send_messages(now)
    }

    pub fn heartbeat(&mut self, now: u64)
        requires
            old(self).wf(),
        ensures
            final(self).wf(),
            final(self)@ == old(self)@.cleanup(now as int),
    {
        self.cleanup(now);
    }

    /// Takes a frame of the reliable-ordered channel, whose payload is what is
    /// left in `message_data_iterator`, and appends to `new_packets` the
    /// payloads that are now complete and due, in order.
    pub fn handle_new_message(
        &mut self,
        new_packets: &mut Vec<DataPacket>,
        address: RemoteAddress,
        header: MessageHeader,
        message_data_iterator: CustomIterator,
        now: u64,
    )
        requires
            old(self).wf(),
            address == old(self)@.remote_address,
        ensures
            final(self).wf(),
            final(self)@.remote_address == old(self)@.remote_address,
            (final(self)@, packets(final(new_packets)@)) == old(self)@.receive(
                Frame { header, data: message_data_iterator@.rest() },
                now as int,
                packets(old(new_packets)@),
            ),
    {
        let ghost before = self@;
        let ghost frame = Frame { header, data: message_data_iterator@.rest() };
        let mut channel = match self.channel_handler.take() {
            Some(channel) => channel,
            None => ReliableOrderedHandler::default(),
        };
        let ghost receiver = channel@;
        let mut forwarded: Vec<(MessageHeader, Vec<u8>)> = Vec::new();
        assert(output_frames(forwarded@) =~= Seq::empty());
        channel.handle(header, message_data_iterator, &mut forwarded);
        assert(output_frames(forwarded@) =~= receiver.handle(frame).1);
        self.channel_handler = Some(channel);
        let ghost frames = receiver.handle(frame).1;
        let ghost handled = ClientState { receiver: Some(receiver.handle(frame).0), ..before };
        assert(self@.groups == before.groups);
        assert(self@ == handled);
        let mut index: usize = 0;
        while index < forwarded.len()
            invariant
                index <= forwarded.len(),
                self.wf(),
                address == self.remote_address,
                frames.len() == forwarded@.len(),
                forall|i: int|
                    index <= i < forwarded@.len() ==> output_frame(#[trigger] forwarded@[i])
                        == frames[i],
                self@.deliver_all(frames, index as int, now as int, packets(new_packets@))
                    == handled.deliver_all(frames, 0, now as int, packets(old(new_packets)@)),
            decreases forwarded.len() - index,
        {
            let mut data: Vec<u8> = Vec::new();
            let forward_header = forwarded[index].0;
            assert(output_frame(forwarded@[index as int]) == frames[index as int]);
            std::mem::swap(&mut forwarded[index].1, &mut data);
            self.handle(new_packets, address, forward_header, data, now);
            index += 1;
        }
    }

    /// Hands on what a frame of the channel carries: as a packet, or, with
    /// the fragment flag, to the fragment groups, which hand on a packet
    /// where this chunk completes a payload.
    pub fn handle(
        &mut self,
        new_packets: &mut Vec<DataPacket>,
        address: RemoteAddress,
        header: MessageHeader,
        data: Vec<u8>,
        now: u64,
    )
        requires
            old(self).wf(),
        ensures
            final(self).wf(),
            final(self)@.remote_address == old(self)@.remote_address,
            final(self)@ == old(self)@.deliver(header.fragment, data@, now as int).0,
            packets(final(new_packets)@) == match old(self)@.deliver(
                header.fragment,
                data@,
                now as int,
            ).1 {
                Some(bytes) => packets(old(new_packets)@).push(
                    Packet { data_type: DataType::Data, remote_address: address, data: bytes },
                ),
                None => packets(old(new_packets)@),
            },
    {
        proof {
            lemma_deliver_keeps_wf(self@, header.fragment, data@, now as int);
        }
        if !header.fragment {
            proof {
                lemma_packets_push(
                    new_packets@,
                    DataPacket { data_type: DataType::Data, remote_address: address, data },
                );
            }
            new_packets.push(
                DataPacket { data_type: DataType::Data, remote_address: address, data },
            );
            return ;
        }
        let mut iterator = CustomIterator::own(data);
        let chunk = match ChunkHeader::read(&mut iterator) {
            Ok(chunk) => chunk,
            Err(_) => {
                return ;
            },
        };
        if chunk.chunk_size == 0 || chunk.index >= chunk.count() {
            return ;
        }
        let payload = iterator.consume();
        broadcast use vstd::std_specs::hash::group_hash_axioms;

        let ghost groups = self.fragment_map@;
        let mut group = match self.fragment_map.remove(&chunk.group_id) {
            Some(group) => group,
            None => FragmentData::new(&chunk, now),
        };
        let out = group.accept(&chunk, &payload, now);
        self.fragment_map.insert(chunk.group_id, group);
        proof {
            assert(self.fragment_map@ =~= groups.insert(chunk.group_id, group));
            assert(group_values(self.fragment_map@) =~= group_values(groups).insert(
                chunk.group_id,
                group@,
            ));
        }
        match out {
            Some(bytes) => {
                proof {
                    lemma_packets_push(
                        new_packets@,
                        DataPacket {
                            data_type: DataType::Data,
                            remote_address: address,
                            data: bytes,
                        },
                    );
                }
                new_packets.push(
                    DataPacket { data_type: DataType::Data, remote_address: address, data: bytes },
                );
            },
            None => {},
        }
    }

    /// The numbers of the fragment groups, each once.
    fn group_ids(&self) -> (ids: Vec<u32>)
        ensures
            ids@.no_duplicates(),
            ids@.to_set() == self@.groups.dom(),
    {
        broadcast use vstd::std_specs::hash::group_hash_axioms;

        let mut ids: Vec<u32> = Vec::new();
        let ghost all = self.fragment_map.keys().remaining().unref();
        for id in walk: self.fragment_map.keys()
            invariant
                walk.seq().unref() == all,
                ids@ == all.take(walk.index()),
        {
            ids.push(*id);
        }
        assert(ids@ =~= all);
        assert(self@.groups.dom() =~= self.fragment_map@.dom());
        ids
    }

    /// Forgets the fragment groups that no chunk came for in the last ten seconds.
    pub fn cleanup(&mut self, now: u64)
        requires
            old(self).wf(),
        ensures
            final(self).wf(),
            final(self)@ == old(self)@.cleanup(now as int),
    {
        broadcast use vstd::std_specs::hash::group_hash_axioms;

        let ghost groups = self@.groups;
        let ids = self.group_ids();
        let mut index: usize = 0;
        while index < ids.len()
            invariant
                index <= ids@.len(),
                ids@.to_set() == groups.dom(),
                self.wf(),
                self.remote_address == old(self).remote_address,
                self.channel_handler == old(self).channel_handler,
                self.channel_sender == old(self).channel_sender,
                self.fragment_group_index == old(self).fragment_group_index,
                unexpired(self@.groups, now as int) == unexpired(groups, now as int),
                forall|id: u32| self@.groups.dom().contains(id) ==> groups.dom().contains(id),
                forall|i: int|
                    0 <= i < index && self@.groups.dom().contains(#[trigger] ids@[i])
                        ==> !is_expired(self@.groups[ids@[i]], now as int),
            decreases ids@.len() - index,
        {
            let id = ids[index];
            let ghost before = self.fragment_map@;
            let expired = match self.fragment_map.get(&id) {
                Some(group) => {
                    let last = group.last_accessed_time();
                    now >= last && now - last >= FRAGMENT_GROUP_LIFETIME
                },
                None => false,
            };
            if expired {
                self.fragment_map.remove(&id);
                proof {
                    assert(self.fragment_map@ =~= before.remove(id));
                    assert forall|other: u32| self@.groups.dom().contains(other) implies (
                    #[trigger] self@.groups[other]).wf() by {
                        assert(group_values(before).dom().contains(other));
                        assert(self@.groups[other] == group_values(before)[other]);
                    }
                    assert(unexpired(group_values(before.remove(id)), now as int) =~= unexpired(
                        group_values(before),
                        now as int,
                    ));
                }
            }
            index += 1;
        }
        proof {
            assert forall|id: u32| self@.groups.dom().contains(id) implies !is_expired(
                self@.groups[id],
                now as int,
            ) by {
                assert(ids@.to_set().contains(id));
                let i = choose|i: int| 0 <= i < ids@.len() && ids@[i] == id;
                assert(ids@[i] == id);
            }
            assert(unexpired(self@.groups, now as int) =~= self@.groups);
        }
    }
}

} // verus!
