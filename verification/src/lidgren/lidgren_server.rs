//! The server's side of the transport: what one datagram does to the
//! connections, and what has to go on the wire in answer.
//!
//! The server holds no socket and reads no clock. Its caller hands it each
//! datagram with the time in milliseconds of a steady clock, and puts on the
//! wire what the server returns.

use crate::lidgren::channel_handler::reliable_ordered::{relative, Frame};
use crate::lidgren::channel_sender::reliable_ordered::{datagrams, SenderState};
use crate::lidgren::connected_client::{ClientState, ConnectedClient};
use crate::lidgren::data_structures::{MessageHeader, MESSAGE_HEADER_LENGTH};
use crate::lidgren::data_types::{DataType, RemoteAddress};
use crate::lidgren::message_type::MessageType;
use crate::lidgren::util::formatter as lg_formatter;
use crate::util::association::{
    as_map, distinct_keys, lemma_absent, lemma_entry, lemma_key, lemma_push, lemma_remove,
    lemma_update,
};
use crate::util::byte_order::{le_bytes_32, le_bytes_64, push_all};
use crate::util::custom_iterator::{Cursor, CustomIterator};
use vstd::prelude::*;
use vstd::string::*;
use vstd::utf8::encode_utf8;

verus! {

/// The milliseconds between two rounds of cleaning up.
pub const TIME_BETWEEN_CLEANUPS: u64 = 500;

/// A message that the transport hands to the application.
pub struct DataPacket {
    pub data_type: DataType,
    pub remote_address: RemoteAddress,
    pub data: Vec<u8>,
}

/// A message that the transport hands to the application, as a value.
pub struct Packet {
    pub data_type: DataType,
    pub remote_address: RemoteAddress,
    pub data: Seq<u8>,
}

impl View for DataPacket {
    type V = Packet;

    open spec fn view(&self) -> Packet {
        Packet { data_type: self.data_type, remote_address: self.remote_address, data: self.data@ }
    }
}

/// The header of a frame together with the address that it came from.
pub struct MessageDetails {
    pub header: MessageHeader,
    pub address: RemoteAddress,
}

/// Why the server could not take a payload for sending.
#[derive(Clone, Copy, Debug, PartialEq, Eq, Structural)]
pub enum SendError {
    /// There is no connection with the address.
    NotConnected,
}

/// The messages that a list of packets stands for.
pub open spec fn packets(list: Seq<DataPacket>) -> Seq<Packet> {
    Seq::new(list.len(), |i: int| list[i]@)
}

/// Appending a packet to a list appends its message.
pub proof fn lemma_packets_push(list: Seq<DataPacket>, packet: DataPacket)
    ensures
        packets(list.push(packet)) == packets(list).push(packet@),
{
    assert(packets(list.push(packet)) =~= packets(list).push(packet@));
}

/// Whether a message is a payload of the channel that came from `address`.
pub open spec fn is_data_from(packet: Packet, address: RemoteAddress) -> bool {
    packet.data_type == DataType::Data && packet.remote_address == address
}

/// The messages without the payloads of the channel that came from `address`.
pub open spec fn without_data_from(list: Seq<Packet>, address: RemoteAddress) -> Seq<Packet>
    decreases list.len(),
{
    if list.len() == 0 {
        Seq::empty()
    } else if is_data_from(list.last(), address) {
        without_data_from(list.drop_last(), address)
    } else {
        without_data_from(list.drop_last(), address).push(list.last())
    }
}

/// Taking out a payload from `address` does not change what is left without
/// them, and a list that holds none is left as it is.
pub proof fn lemma_without_data_from(list: Seq<Packet>, address: RemoteAddress, index: int)
    ensures
        0 <= index < list.len() && is_data_from(list[index], address) ==> without_data_from(
            list.remove(index),
            address,
        ) == without_data_from(list, address),
        (forall|i: int| 0 <= i < list.len() ==> !is_data_from(#[trigger] list[i], address))
            ==> without_data_from(list, address) == list,
    decreases list.len(),
{
    if list.len() > 0 {
        let front = list.drop_last();
        lemma_without_data_from(front, address, index);
        if 0 <= index < list.len() && is_data_from(list[index], address) {
            if index == list.len() - 1 {
                assert(list.remove(index) =~= front);
            } else {
                assert(list.remove(index).drop_last() =~= front.remove(index));
                assert(list.remove(index).last() == list.last());
            }
        }
        if forall|i: int| 0 <= i < list.len() ==> !is_data_from(#[trigger] list[i], address) {
            assert forall|i: int| 0 <= i < front.len() implies !is_data_from(
                #[trigger] front[i],
                address,
            ) by {
                assert(front[i] == list[i]);
            }
            assert(!is_data_from(list[list.len() - 1], address));
            assert(front.push(list.last()) =~= list);
        }
    }
}

/// What is left without the payloads from `address` are the messages that
/// are no such payload, each once and in their old order.
pub proof fn lemma_without_data_from_is_a_filter(list: Seq<Packet>, address: RemoteAddress)
    ensures
        without_data_from(list, address) == list.filter(
            |packet: Packet| !is_data_from(packet, address),
        ),
    decreases list.len(),
{
    let kept = |packet: Packet| !is_data_from(packet, address);
    reveal(Seq::filter);
    if list.len() > 0 {
        lemma_without_data_from_is_a_filter(list.drop_last(), address);
    } else {
        assert(without_data_from(list, address) =~= list.filter(kept));
    }
}

/// A frame that ends the connection with `address` removes the connection
/// and, of the messages that wait for the application, exactly the payloads
/// of the channel that came from `address`; the other messages keep their
/// order, and nothing is answered.
pub proof fn lemma_disconnect_purges_queued_data(
    server: ServerState,
    header: MessageHeader,
    payload: Seq<u8>,
    address: RemoteAddress,
    now: int,
    elapsed_time: u32,
)
    requires
        header.message_type is Disconnect,
    ensures
        ({
            let after = server.process_frame(header, payload, address, now, elapsed_time);
            &&& after.0.clients == server.clients.remove(address)
            &&& !after.0.clients.dom().contains(address)
            &&& after.0.packets == server.packets.filter(
                |packet: Packet| !is_data_from(packet, address),
            )
            &&& after.0.application_name == server.application_name
            &&& after.0.unique_id == server.unique_id
            &&& after.1 is None
        }),
{
    lemma_without_data_from_is_a_filter(server.packets, address);
}

/// The acknowledgement for a frame: an Acknowledge frame with one record,
/// the type id and the sequence number of the frame.
pub open spec fn acknowledgement(header: MessageHeader) -> Seq<u8> {
    seq![
        134u8,
        0u8,
        0u8,
        24u8,
        0u8,
        header.message_type.spec_to_index() as u8,
        (header.sequence_number % 0x100) as u8,
        (header.sequence_number / 0x100) as u8,
    ]
}

/// The answer to a ping: a Pong frame with the number of the ping and the
/// server's time, a float given by its bit pattern.
pub open spec fn pong(ping_number: u8, elapsed_time: u32) -> Seq<u8> {
    seq![130u8, 0u8, 0u8, 40u8, 0u8, ping_number] + le_bytes_32(elapsed_time as int)
}

/// A frame without sequence number: the type id, the length of the payload
/// in bits modulo 2^16, the payload.
pub open spec fn unsequenced_frame(type_id: u8, payload: Seq<u8>) -> Seq<u8> {
    seq![
        type_id,
        0u8,
        0u8,
        (payload.len() % 0x2000 * 8 % 0x100) as u8,
        (payload.len() % 0x2000 * 8 / 0x100) as u8,
    ] + payload
}

/// The payload of the answer to a connect: the application name, the
/// server's id, the server's time.
pub open spec fn connect_response_payload(
    application_name: Seq<char>,
    unique_id: u64,
    elapsed_time: u32,
) -> Seq<u8> {
    lg_formatter::string_encoding(application_name) + le_bytes_64(unique_id as int) + le_bytes_32(
        elapsed_time as int,
    )
}

/// What a Connect frame hands to the application: what follows the
/// application name, the remote id and the remote time. Nothing, where the
/// name cannot be read or is not the server's, or the time cannot be read.
/// A remote id that cannot be read is passed over.
pub open spec fn connect_rest(application_name: Seq<char>, payload: Seq<u8>) -> Option<Seq<u8>> {
    match lg_formatter::spec_read_string(Cursor { bytes: payload, position: 0 }) {
        (Ok(name), c1) => if name != application_name {
            None
        } else {
            match lg_formatter::spec_read_int_32(lg_formatter::spec_read_int_64(c1).1) {
                (Ok(_), c3) => Some(c3.rest()),
                (Err(_), _) => None,
            }
        },
        (Err(_), _) => None,
    }
}

/// Applies the records of an Acknowledge frame from the byte `from` on. A
/// record is three bytes: a type id and a sequence number. A record for
/// another channel is passed over; one with an id that names no type ends
/// the frame.
pub open spec fn apply_acknowledgements(sender: SenderState, payload: Seq<u8>, from: int)
    -> SenderState
    decreases payload.len() - from,
{
    if from < 0 || from + 3 > payload.len() {
        sender
    } else {
        match MessageType::spec_from_id(payload[from]) {
            None => sender,
            Some(message_type) => apply_acknowledgements(
                if message_type == MessageType::UserReliableOrdered(0) {
                    sender.acknowledge(payload[from + 1] + payload[from + 2] * 0x100)
                } else {
                    sender
                },
                payload,
                from + 3,
            ),
        }
    }
}

/// Applying acknowledgements keeps the invariant of the sender.
pub proof fn lemma_apply_acknowledgements(sender: SenderState, payload: Seq<u8>, from: int)
    requires
        sender.wf(),
    ensures
        apply_acknowledgements(sender, payload, from).wf(),
    decreases payload.len() - from,
{
    if 0 <= from && from + 3 <= payload.len() {
        match MessageType::spec_from_id(payload[from]) {
            None => {},
            Some(message_type) => {
                let sequence = payload[from + 1] + payload[from + 2] * 0x100;
                crate::lidgren::channel_sender::reliable_ordered::lemma_acknowledge(
                    sender,
                    sequence,
                );
                lemma_apply_acknowledgements(
                    if message_type == MessageType::UserReliableOrdered(0) {
                        sender.acknowledge(sequence)
                    } else {
                        sender
                    },
                    payload,
                    from + 3,
                );
            },
        }
    }
}

/// What the server holds.
pub struct ServerState {
    pub application_name: Seq<char>,
    pub unique_id: u64,
    pub clients: Map<RemoteAddress, ClientState>,
    /// The messages that wait for the application.
    pub packets: Seq<Packet>,
    /// The time that the last round of cleaning up counts from.
    pub last_cleanup: int,
}

impl ServerState {
    pub open spec fn wf(self) -> bool {
        forall|address: RemoteAddress|
            self.clients.dom().contains(address) ==> (#[trigger] self.clients[address]).wf()
                && self.clients[address].remote_address == address
    }

    /// The state with one more message for the application.
    pub open spec fn with_packet(self, data_type: DataType, address: RemoteAddress, data: Seq<u8>)
        -> ServerState {
        ServerState {
            packets: self.packets.push(Packet { data_type, remote_address: address, data }),
            ..self
        }
    }

    /// One frame with the payload `payload` came from `address`: the state
    /// afterwards, the answer to put on the wire if there is one, and whether
    /// the rest of the datagram is looked at.
    pub open spec fn process_frame(
        self,
        header: MessageHeader,
        payload: Seq<u8>,
        address: RemoteAddress,
        now: int,
        elapsed_time: u32,
    ) -> (ServerState, Option<Seq<u8>>, bool) {
        match header.message_type {
            MessageType::Discovery => (
                self.with_packet(DataType::Discovery, address, payload),
                None,
                true,
            ),
            MessageType::Connect => (
                match connect_rest(self.application_name, payload) {
                    Some(rest) => self.with_packet(DataType::Connect, address, rest),
                    None => self,
                },
                None,
                true,
            ),
            MessageType::ConnectionEstablished => (
                if payload.len() == 4 {
                    ServerState {
                        clients: self.clients.insert(address, ClientState::initial(address)),
                        ..self
                    }
                } else {
                    self
                },
                None,
                true,
            ),
            MessageType::Ping => (
                self,
                if payload.len() == 1 {
                    Some(pong(payload[0], elapsed_time))
                } else {
                    None
                },
                true,
            ),
            MessageType::Disconnect => (
                ServerState {
                    clients: self.clients.remove(address),
                    packets: without_data_from(self.packets, address),
                    ..self
                },
                None,
                true,
            ),
            MessageType::Acknowledge => (
                if self.clients.dom().contains(address) && payload.len() % 3 == 0 {
                    ServerState {
                        clients: self.clients.insert(
                            address,
                            ClientState {
                                sender: apply_acknowledgements(
                                    self.clients[address].sender,
                                    payload,
                                    0,
                                ),
                                ..self.clients[address]
                            },
                        ),
                        ..self
                    }
                } else {
                    self
                },
                None,
                true,
            ),
            MessageType::UserReliableOrdered(channel) => if channel != 0 {
                (self, None, false)
            } else if !self.clients.dom().contains(address) {
                (self, Some(acknowledgement(header)), false)
            } else if relative(
                header.sequence_number as int,
                self.clients[address].awaited(),
            ) > 64 {
                (self, None, true)
            } else {
                (
                    ServerState {
                        clients: self.clients.insert(
                            address,
                            self.clients[address].receive(
                                Frame { header, data: payload },
                                now,
                                self.packets,
                            ).0,
                        ),
                        packets: self.clients[address].receive(
                            Frame { header, data: payload },
                            now,
                            self.packets,
                        ).1,
                        ..self
                    },
                    Some(acknowledgement(header)),
                    true,
                )
            },
            _ => (self, None, false),
        }
    }

    /// Reads the frames of a datagram from the cursor on, one behind the
    /// other, and appends the answers to `replies`. A frame whose header
    /// cannot be read, whose payload is not all there or whose type is
    /// unused ends the datagram.
    pub open spec fn process_frames(
        self,
        c: Cursor,
        address: RemoteAddress,
        now: int,
        elapsed_time: u32,
        replies: Seq<Seq<u8>>,
    ) -> (ServerState, Seq<Seq<u8>>)
        decreases c.remaining(),
    {
        if c.remaining() < 5 {
            (self, replies)
        } else {
            match MessageHeader::spec_from_stream(c) {
                (Ok(header), c1) => if c1.remaining() < header.bytes
                    || header.message_type is Unused {
                    (self, replies)
                } else {
                    let step = self.process_frame(
                        header,
                        c1.window(header.bytes as int),
                        address,
                        now,
                        elapsed_time,
                    );
                    let answered = match step.1 {
                        Some(reply) => replies.push(reply),
                        None => replies,
                    };
                    if step.2 {
                        step.0.process_frames(
                            c1.skipped(header.bytes as int),
                            address,
                            now,
                            elapsed_time,
                            answered,
                        )
                    } else {
                        (step.0, answered)
                    }
                },
                (Err(_), _) => (self, replies),
            }
        }
    }

    /// One datagram came from `address` at `now`: the state afterwards and
    /// the answers to put on the wire for `address`, in order.
    pub open spec fn process(
        self,
        datagram: Seq<u8>,
        address: RemoteAddress,
        now: int,
        elapsed_time: u32,
    ) -> (ServerState, Seq<Seq<u8>>) {
        self.process_frames(
            Cursor { bytes: datagram, position: 0 },
            address,
            now,
            elapsed_time,
            Seq::empty(),
        )
    }
}

/// The frames in `wire` that go to `address`, in order.
pub open spec fn frames_for(wire: Seq<(RemoteAddress, Vec<u8>)>, address: RemoteAddress) -> Seq<
    Seq<u8>,
>
    decreases wire.len(),
{
    if wire.len() == 0 {
        Seq::empty()
    } else if wire.last().0 == address {
        frames_for(wire.drop_last(), address).push(wire.last().1@)
    } else {
        frames_for(wire.drop_last(), address)
    }
}

/// A connection at a tick, before it sends: where `clean` holds it has
/// forgotten its stale fragment groups.
pub open spec fn at_tick(client: ClientState, clean: bool, now: int) -> ClientState {
    if clean {
        client.cleanup(now)
    } else {
        client
    }
}

spec fn client_pairs(entries: Seq<(RemoteAddress, ConnectedClient)>) -> Seq<
    (RemoteAddress, ClientState),
> {
    Seq::new(entries.len(), |i: int| (entries[i].0, entries[i].1@))
}

pub struct ServerInstance {
    application_name: String,
    server_unique_id: u64,
    user_map: Vec<(RemoteAddress, ConnectedClient)>,
    time_cleanup: u64,
    pub new_data_packets: Vec<DataPacket>,
}

impl View for ServerInstance {
    type V = ServerState;

    closed spec fn view(&self) -> ServerState {
        ServerState {
            application_name: self.application_name@,
            unique_id: self.server_unique_id,
            clients: as_map(client_pairs(self.user_map@)),
            packets: packets(self.new_data_packets@),
            last_cleanup: self.time_cleanup as int,
        }
    }
}

fn reply_with(replies: &mut Vec<Vec<u8>>, reply: Vec<u8>)
    ensures
        datagrams(final(replies)@) == datagrams(old(replies)@).push(reply@),
{
    replies.push(reply);
    assert(datagrams(replies@) =~= datagrams(old(replies)@).push(reply@));
}

impl ServerInstance {
    /// The invariant of the server.
    pub closed spec fn wf(&self) -> bool {
        &&& distinct_keys(client_pairs(self.user_map@))
        &&& forall|i: int|
            0 <= i < self.user_map@.len() ==> (#[trigger] self.user_map@[i]).1.wf()
                && self.user_map@[i].1@.remote_address == self.user_map@[i].0
        &&& encode_utf8(self.application_name@).len() <= 0xFFFF_FFFF
    }

    /// The invariant of the server holds of its value.
    pub proof fn lemma_view_wf(&self)
        requires
            self.wf(),
        ensures
            self@.wf(),
    {
        let pairs = client_pairs(self.user_map@);
        assert forall|address: RemoteAddress| self@.clients.dom().contains(address) implies (
        #[trigger] self@.clients[address]).wf() && self@.clients[address].remote_address
            == address by {
            lemma_key(pairs, address);
            let i = crate::util::association::key_index(pairs, address);
            assert(self.user_map@[i].1.wf());
            self.user_map@[i].1.lemma_view_wf();
            lemma_entry(pairs, i);
        }
    }

    /// A server without connections, whose clock reads `now`.
    pub fn start(application_name: String, server_unique_id: u64, now: u64) -> (server:
        ServerInstance)
        requires
            encode_utf8(application_name@).len() <= 0xFFFF_FFFF,
        ensures
            server.wf(),
            server@ == (ServerState {
                application_name: application_name@,
                unique_id: server_unique_id,
                clients: Map::empty(),
                packets: Seq::empty(),
                last_cleanup: now as int,
            }),
    {
        let server = ServerInstance {
            application_name,
            server_unique_id,
            user_map: Vec::new(),
            time_cleanup: now,
            new_data_packets: Vec::new(),
        };
        assert(server@.clients =~= Map::empty());
        assert(server@.packets =~= Seq::empty());
        server
    }

    /// The place of the connection with `address`, or the number of connections.
    fn find(&self, address: RemoteAddress) -> (found: usize)
        requires
            self.wf(),
        ensures
            found <= self.user_map@.len(),
            found < self.user_map@.len() ==> self.user_map@[found as int].0 == address
                && self@.clients.dom().contains(address) && self@.clients[address]
                == self.user_map@[found as int].1@,
            found == self.user_map@.len() ==> !self@.clients.dom().contains(address),
    {
        let mut found: usize = 0;
        while found < self.user_map.len() && self.user_map[found].0 != address
            invariant
                found <= self.user_map.len(),
                forall|i: int| 0 <= i < found ==> (#[trigger] self.user_map@[i]).0 != address,
            decreases self.user_map.len() - found,
        {
            found += 1;
        }
        proof {
            let pairs = client_pairs(self.user_map@);
            if found < self.user_map.len() {
                lemma_entry(pairs, found as int);
            } else {
                assert forall|i: int| 0 <= i < pairs.len() implies (#[trigger] pairs[i]).0
                    != address by {
                    assert(self.user_map@[i].0 != address);
                }
                lemma_absent(pairs, address);
            }
        }
        found
    }

    /// Takes a payload for the connection with `address`.
    pub fn send_to(&mut self, address: RemoteAddress, data: Vec<u8>) -> (r: Result<(), SendError>)
        requires
            old(self).wf(),
            data@.len() <= 0x1FFF_FFFF,
        ensures
            final(self).wf(),
            r is Ok <==> old(self)@.clients.dom().contains(address),
            r is Err ==> final(self)@ == old(self)@,
            r is Ok ==> final(self)@ == (ServerState {
                clients: old(self)@.clients.insert(
                    address,
                    old(self)@.clients[address].send(data@),
                ),
                ..old(self)@
            }),
    {
        let found = self.find(address);
        if found >= self.user_map.len() {
            return Err(SendError::NotConnected);
        }
        let ghost entries = self.user_map@;
        let ghost pairs = client_pairs(entries);
        self.user_map[found].1.send_to(data);
        proof {
            assert(client_pairs(self.user_map@) =~= pairs.update(
                found as int,
                (address, self.user_map@[found as int].1@),
            ));
            lemma_update(pairs, found as int, self.user_map@[found as int].1@);
        }
        Ok(())
    }

    /// One tick at the time `now`: every 500 ms the connections forget their
    /// stale fragment groups, and every connection sends what is due.
    /// Returns, connection by connection, the frames to put on the wire.
    pub fn heartbeat(&mut self, now: u64) -> (wire: Vec<(RemoteAddress, Vec<u8>)>)
        requires
            old(self).wf(),
        ensures
            final(self).wf(),
            final(self)@.clients.dom() == old(self)@.clients.dom(),
            final(self)@.packets == old(self)@.packets,
            final(self)@.application_name == old(self)@.application_name,
            final(self)@.unique_id == old(self)@.unique_id,
            forall|address: RemoteAddress|
                old(self)@.clients.dom().contains(address) ==> (
                #[trigger] final(self)@.clients[address]) == (ClientState {
                    sender: (if now - old(self)@.last_cleanup >= TIME_BETWEEN_CLEANUPS {
                        old(self)@.clients[address].cleanup(now as int)
                    } else {
                        old(self)@.clients[address]
                    }).sender.send(now as int).0,
                    ..(if now - old(self)@.last_cleanup >= TIME_BETWEEN_CLEANUPS {
                        old(self)@.clients[address].cleanup(now as int)
                    } else {
                        old(self)@.clients[address]
                    })
                }),
            forall|k: int|
                0 <= k < wire@.len() ==> old(self)@.clients.dom().contains(
                    (#[trigger] wire@[k]).0,
                ),
            forall|address: RemoteAddress|
                old(self)@.clients.dom().contains(address) ==> #[trigger] frames_for(
                    wire@,
                    address,
                ) == at_tick(
                    old(self)@.clients[address],
                    now - old(self)@.last_cleanup >= TIME_BETWEEN_CLEANUPS,
                    now as int,
                ).sender.send(now as int).1,
            final(self)@.last_cleanup == if now - old(self)@.last_cleanup
                >= TIME_BETWEEN_CLEANUPS && old(self)@.last_cleanup + TIME_BETWEEN_CLEANUPS
                <= u64::MAX {
                old(self)@.last_cleanup + TIME_BETWEEN_CLEANUPS
            } else {
                old(self)@.last_cleanup
            },
    {
        let clean = now >= self.time_cleanup && now - self.time_cleanup >= TIME_BETWEEN_CLEANUPS;
        let ghost entries = self.user_map@;
        let ghost before = self@;
        let mut wire: Vec<(RemoteAddress, Vec<u8>)> = Vec::new();
        let mut index: usize = 0;
        proof {
            let pairs = client_pairs(entries);
            assert forall|i: int, j: int| 0 <= i < j < entries.len() implies (
            #[trigger] entries[i]).0 != (#[trigger] entries[j]).0 by {
                assert(pairs[i].0 != pairs[j].0);
            }
        }
        while index < self.user_map.len()
            invariant
                index <= self.user_map.len(),
                self.user_map@.len() == entries.len(),
                forall|i: int, j: int|
                    0 <= i < j < entries.len() ==> (#[trigger] entries[i]).0 != (
                    #[trigger] entries[j]).0,
                forall|i: int|
                    0 <= i < index ==> frames_for(wire@, (#[trigger] entries[i]).0) == at_tick(
                        entries[i].1@,
                        clean,
                        now as int,
                    ).sender.send(now as int).1,
                forall|i: int|
                    index <= i < entries.len() ==> frames_for(wire@, (#[trigger] entries[i]).0)
                        == Seq::<Seq<u8>>::empty(),
                self.application_name == old(self).application_name,
                self.server_unique_id == old(self).server_unique_id,
                self.time_cleanup == old(self).time_cleanup,
                self.new_data_packets == old(self).new_data_packets,
                encode_utf8(self.application_name@).len() <= 0xFFFF_FFFF,
                forall|i: int|
                    0 <= i < entries.len() ==> (#[trigger] self.user_map@[i]).0 == entries[i].0
                        && self.user_map@[i].1.wf() && self.user_map@[i].1@.remote_address
                        == entries[i].0,
                forall|i: int| index <= i < entries.len() ==> self.user_map@[i] == entries[i],
                forall|i: int|
                    0 <= i < index ==> (#[trigger] self.user_map@[i]).1@ == (ClientState {
                        sender: (if clean {
                            entries[i].1@.cleanup(now as int)
                        } else {
                            entries[i].1@
                        }).sender.send(now as int).0,
                        ..(if clean {
                            entries[i].1@.cleanup(now as int)
                        } else {
                            entries[i].1@
                        })
                    }),
                forall|k: int|
                    0 <= k < wire@.len() ==> exists|i: int|
                        0 <= i < entries.len() && (#[trigger] entries[i]).0 == (
                        #[trigger] wire@[k]).0,
            decreases self.user_map.len() - index,
        {
            let address = self.user_map[index].0;
            if clean {
                self.user_map[index].1.heartbeat(now);
            }
            let mut frames = self.user_map[index].1.send_messages(now);
            let ghost sent = datagrams(frames@);
            let ghost wire_before = wire@;
            assert(sent == at_tick(entries[index as int].1@, clean, now as int).sender.send(
                now as int,
            ).1);
            assert(sent.subrange(0, 0) =~= Seq::empty());
            let mut k: usize = 0;
            while k < frames.len()
                invariant
                    k <= frames.len(),
                    0 <= index < entries.len(),
                    address == entries[index as int].0,
                    frames@.len() == sent.len(),
                    forall|j: int| k <= j < frames@.len() ==> (#[trigger] frames@[j])@ == sent[j],
                    frames_for(wire@, address) == sent.subrange(0, k as int),
                    forall|i: int|
                        0 <= i < entries.len() && i != index ==> frames_for(
                            wire@,
                            (#[trigger] entries[i]).0,
                        ) == frames_for(wire_before, entries[i].0),
                    forall|i: int, j: int|
                        0 <= i < j < entries.len() ==> (#[trigger] entries[i]).0 != (
                        #[trigger] entries[j]).0,
                    forall|j: int|
                        0 <= j < wire@.len() ==> exists|i: int|
                            0 <= i < entries.len() && (#[trigger] entries[i]).0 == (
                            #[trigger] wire@[j]).0,
                decreases frames.len() - k,
            {
                let mut frame: Vec<u8> = Vec::new();
                std::mem::swap(&mut frames[k], &mut frame);
                let ghost wire_so_far = wire@;
                wire.push((address, frame));
                proof {
                    assert(wire@.drop_last() =~= wire_so_far);
                    assert(sent.subrange(0, k + 1) =~= sent.subrange(0, k as int).push(
                        sent[k as int],
                    ));
                    assert forall|i: int| 0 <= i < entries.len() && i != index implies frames_for(
                        wire@,
                        (#[trigger] entries[i]).0,
                    ) == frames_for(wire_before, entries[i].0) by {
                        if i < index {
                            assert(entries[i].0 != entries[index as int].0);
                        } else {
                            assert(entries[index as int].0 != entries[i].0);
                        }
                    }
                }
                k += 1;
            }
            assert(sent.subrange(0, k as int) =~= sent);
            index += 1;
        }
        if clean && self.time_cleanup <= u64::MAX - TIME_BETWEEN_CLEANUPS {
            self.time_cleanup = self.time_cleanup + TIME_BETWEEN_CLEANUPS;
        }
        proof {
            let pairs = client_pairs(entries);
            let after = client_pairs(self.user_map@);
            assert forall|i: int, j: int| 0 <= i < j < after.len() implies (#[trigger] after[i]).0
                != (#[trigger] after[j]).0 by {
                assert(pairs[i].0 != pairs[j].0);
            }
            assert forall|address: RemoteAddress|
                as_map(after).dom().contains(address) <==> as_map(pairs).dom().contains(
                    address,
                ) by {
                if as_map(after).dom().contains(address) {
                    lemma_key(after, address);
                    let i = crate::util::association::key_index(after, address);
                    assert(pairs[i].0 == address);
                }
                if as_map(pairs).dom().contains(address) {
                    lemma_key(pairs, address);
                    let i = crate::util::association::key_index(pairs, address);
                    assert(after[i].0 == address);
                }
            }
            assert(as_map(after).dom() =~= as_map(pairs).dom());
            assert forall|address: RemoteAddress|
                before.clients.dom().contains(address) implies (
            #[trigger] self@.clients[address]) == (ClientState {
                sender: (if now - before.last_cleanup >= TIME_BETWEEN_CLEANUPS {
                    before.clients[address].cleanup(now as int)
                } else {
                    before.clients[address]
                }).sender.send(now as int).0,
                ..(if now - before.last_cleanup >= TIME_BETWEEN_CLEANUPS {
                    before.clients[address].cleanup(now as int)
                } else {
                    before.clients[address]
                })
            }) by {
                lemma_key(pairs, address);
                let i = crate::util::association::key_index(pairs, address);
                assert(after[i].0 == address);
                lemma_entry(after, i);
                lemma_entry(pairs, i);
            }
            assert forall|address: RemoteAddress|
                before.clients.dom().contains(address) implies #[trigger] frames_for(
                wire@,
                address,
            ) == at_tick(
                before.clients[address],
                now - before.last_cleanup >= TIME_BETWEEN_CLEANUPS,
                now as int,
            ).sender.send(now as int).1 by {
                lemma_key(pairs, address);
                let i = crate::util::association::key_index(pairs, address);
                assert(entries[i].0 == address);
                lemma_entry(pairs, i);
            }
            assert forall|k: int| 0 <= k < wire@.len() implies before.clients.dom().contains(
                (#[trigger] wire@[k]).0,
            ) by {
                let i = choose|i: int|
                    0 <= i < entries.len() && (#[trigger] entries[i]).0 == wire@[k].0;
                assert(pairs[i].0 == wire@[k].0);
                lemma_entry(pairs, i);
            }
        }
        wire
    }

    /// Takes one datagram that came from `remote_address` at the time `now`.
    /// `elapsed_time` is the bit pattern of the float that holds the seconds
    /// since the server started. Returns the frames to put on the wire for
    /// `remote_address`, in order.
    pub fn process_packet(
        &mut self,
        datagram: &[u8],
        remote_address: RemoteAddress,
        now: u64,
        elapsed_time: u32,
    ) -> (replies: Vec<Vec<u8>>)
        requires
            old(self).wf(),
        ensures
            final(self).wf(),
            (final(self)@, datagrams(replies@)) == old(self)@.process(
                datagram@,
                remote_address,
                now as int,
                elapsed_time,
            ),
    {
        let mut replies: Vec<Vec<u8>> = Vec::new();
        let mut iterator = CustomIterator::borrow(datagram);
        assert(datagrams(replies@) =~= Seq::empty());
        loop
            invariant_except_break
                self@.process_frames(
                    iterator@,
                    remote_address,
                    now as int,
                    elapsed_time,
                    datagrams(replies@),
                ) == old(self)@.process(datagram@, remote_address, now as int, elapsed_time),
            invariant
                self.wf(),
            ensures
                (self@, datagrams(replies@)) == old(self)@.process(
                    datagram@,
                    remote_address,
                    now as int,
                    elapsed_time,
                ),
            decreases iterator@.remaining(),
        {
            if iterator.remaining() < MESSAGE_HEADER_LENGTH {
                break ;
            }
            let go_on = self.process_next(
                &mut iterator,
                remote_address,
                now,
                elapsed_time,
                &mut replies,
            );
            if !go_on {
                break ;
            }
        }
        replies
    }

    /// Takes the next frame of a datagram. Returns whether the rest of the
    /// datagram is to be looked at.
    fn process_next(
        &mut self,
        iterator: &mut CustomIterator,
        remote_address: RemoteAddress,
        now: u64,
        elapsed_time: u32,
        replies: &mut Vec<Vec<u8>>,
    ) -> (go_on: bool)
        requires
            old(self).wf(),
            old(iterator)@.remaining() >= 5,
        ensures
            final(self).wf(),
            go_on ==> final(iterator)@.remaining() < old(iterator)@.remaining()
                && final(self)@.process_frames(
                final(iterator)@,
                remote_address,
                now as int,
                elapsed_time,
                datagrams(final(replies)@),
            ) == old(self)@.process_frames(
                old(iterator)@,
                remote_address,
                now as int,
                elapsed_time,
                datagrams(old(replies)@),
            ),
            !go_on ==> (final(self)@, datagrams(final(replies)@)) == old(self)@.process_frames(
                old(iterator)@,
                remote_address,
                now as int,
                elapsed_time,
                datagrams(old(replies)@),
            ),
    {
        let ghost start = iterator@;
        let header = match MessageHeader::from_stream(iterator) {
            Ok(header) => header,
            Err(_) => {
                return false;
            },
        };
        let ghost behind = iterator@;
        if iterator.remaining() < header.bytes as usize {
            return false;
        }
        if let MessageType::Unused(_) = header.message_type {
            return false;
        }
        let message_data_iterator = match iterator.sub_section(header.bytes as usize) {
            Ok(sub) => sub,
            Err(_) => {
                return false;
            },
        };
        assert(message_data_iterator@.bytes == behind.window(header.bytes as int));
        self.process_frame(
            header,
            message_data_iterator,
            remote_address,
            now,
            elapsed_time,
            replies,
        )
    }

    /// Takes one frame, whose payload is what `message_data_iterator` holds.
    /// Returns whether the rest of the datagram is to be looked at.
    fn process_frame(
        &mut self,
        header: MessageHeader,
        message_data_iterator: CustomIterator,
        remote_address: RemoteAddress,
        now: u64,
        elapsed_time: u32,
        replies: &mut Vec<Vec<u8>>,
    ) -> (go_on: bool)
        requires
            old(self).wf(),
            message_data_iterator@.position == 0,
            header.message_type.is_defined(),
        ensures
            final(self).wf(),
            final(self)@ == old(self)@.process_frame(
                header,
                message_data_iterator@.bytes,
                remote_address,
                now as int,
                elapsed_time,
            ).0,
            datagrams(final(replies)@) == match old(self)@.process_frame(
                header,
                message_data_iterator@.bytes,
                remote_address,
                now as int,
                elapsed_time,
            ).1 {
                Some(reply) => datagrams(old(replies)@).push(reply),
                None => datagrams(old(replies)@),
            },
            go_on == old(self)@.process_frame(
                header,
                message_data_iterator@.bytes,
                remote_address,
                now as int,
                elapsed_time,
            ).2,
    {
        let ghost payload = message_data_iterator@.bytes;
        assert(message_data_iterator@.rest() =~= payload);
        match header.message_type {
            MessageType::Discovery => {
                self.handle_packet_discovery(message_data_iterator, remote_address);
                true
            },
            MessageType::Connect => {
                self.handle_packet_connect(message_data_iterator, remote_address);
                true
            },
            MessageType::ConnectionEstablished => {
                self.handle_packet_connection_established(message_data_iterator, remote_address);
                true
            },
            MessageType::Ping => {
                ServerInstance::handle_packet_ping(message_data_iterator, elapsed_time, replies);
                true
            },
            MessageType::Disconnect => {
                self.handle_packet_disconnect(remote_address);
                true
            },
            MessageType::Acknowledge => {
                self.handle_packet_acknowledged(message_data_iterator, remote_address);
                true
            },
            MessageType::UserReliableOrdered(channel) => {
                if channel != 0 {
                    return false;
                }
                let found = self.find(remote_address);
                if found >= self.user_map.len() {
                    reply_with(replies, ServerInstance::acknowledge(&header));
                    return false;
                }
                if self.user_map[found].1.is_too_early(header.sequence_number) {
                    return true;
                }
                reply_with(replies, ServerInstance::acknowledge(&header));
                let ghost entries = self.user_map@;
                let ghost pairs = client_pairs(entries);
                self.user_map[found].1.handle_new_message(
                    &mut self.new_data_packets,
                    remote_address,
                    header,
                    message_data_iterator,
                    now,
                );
                proof {
                    assert(client_pairs(self.user_map@) =~= pairs.update(
                        found as int,
                        (remote_address, self.user_map@[found as int].1@),
                    ));
                    lemma_update(pairs, found as int, self.user_map@[found as int].1@);
                }
                true
            },
            _ => false,
        }
    }

    /// The acknowledgement for a frame.
    fn acknowledge(header: &MessageHeader) -> (frame: Vec<u8>)
        requires
            header.message_type.is_defined(),
        ensures
            frame@ == acknowledgement(*header),
    {
        let mut frame: Vec<u8> = Vec::new();
        frame.push(MessageType::Acknowledge.to_index());
        frame.push(0);
        frame.push(0);
        frame.push(24);
        frame.push(0);
        frame.push(header.message_type.to_index());
        frame.push((header.sequence_number % 0x100) as u8);
        frame.push((header.sequence_number / 0x100) as u8);
        assert(frame@ =~= acknowledgement(*header));
        frame
    }

    fn push_packet(&mut self, data_type: DataType, remote_address: RemoteAddress, data: Vec<u8>)
        requires
            old(self).wf(),
        ensures
            final(self).wf(),
            final(self)@ == old(self)@.with_packet(data_type, remote_address, data@),
    {
        proof {
            lemma_packets_push(
                self.new_data_packets@,
                DataPacket { data_type, remote_address, data },
            );
        }
        self.new_data_packets.push(DataPacket { data_type, remote_address, data });
    }

    fn handle_packet_discovery(&mut self, iterator: CustomIterator, remote_address: RemoteAddress)
        requires
            old(self).wf(),
        ensures
            final(self).wf(),
            final(self)@ == old(self)@.with_packet(
                DataType::Discovery,
                remote_address,
                iterator@.rest(),
            ),
    {
        let mut iterator = iterator;
        let data = iterator.consume();
        self.push_packet(DataType::Discovery, remote_address, data);
    }

    fn handle_packet_connect(&mut self, iterator: CustomIterator, remote_address: RemoteAddress)
        requires
            old(self).wf(),
            iterator@.position == 0,
        ensures
            final(self).wf(),
            final(self)@ == match connect_rest(old(self)@.application_name, iterator@.bytes) {
                Some(rest) => old(self)@.with_packet(DataType::Connect, remote_address, rest),
                None => old(self)@,
            },
    {
        let mut iterator = iterator;
        let app_id = match lg_formatter::read_string(&mut iterator) {
            Ok(app_id) => app_id,
            Err(_) => {
                return ;
            },
        };
        if self.application_name != app_id {
            return ;
        }
        let _remote_id = lg_formatter::read_int_64(&mut iterator);
        match lg_formatter::read_float(&mut iterator) {
            Ok(_) => {},
            Err(_) => {
                return ;
            },
        }
        let data = iterator.consume();
        self.push_packet(DataType::Connect, remote_address, data);
    }

    fn handle_packet_connection_established(
        &mut self,
        iterator: CustomIterator,
        remote_address: RemoteAddress,
    )
        requires
            old(self).wf(),
        ensures
            final(self).wf(),
            final(self)@ == if iterator@.remaining() == 4 {
                ServerState {
                    clients: old(self)@.clients.insert(
                        remote_address,
                        ClientState::initial(remote_address),
                    ),
                    ..old(self)@
                }
            } else {
                old(self)@
            },
    {
        if iterator.remaining() != 4 {
            return ;
        }
        let found = self.find(remote_address);
        let client = ConnectedClient::new(remote_address);
        let ghost entries = self.user_map@;
        let ghost pairs = client_pairs(entries);
        if found < self.user_map.len() {
            proof {
                lemma_update(pairs, found as int, client@);
            }
            self.user_map[found] = (remote_address, client);
            assert(client_pairs(self.user_map@) =~= pairs.update(
                found as int,
                (remote_address, client@),
            ));
        } else {
            proof {
                lemma_push(pairs, remote_address, client@);
            }
            self.user_map.push((remote_address, client));
            assert(client_pairs(self.user_map@) =~= pairs.push((remote_address, client@)));
        }
    }

    fn handle_packet_ping(iterator: CustomIterator, elapsed_time: u32, replies: &mut Vec<Vec<u8>>)
        requires
            iterator@.position == 0,
        ensures
            datagrams(final(replies)@) == if iterator@.bytes.len() == 1 {
                datagrams(old(replies)@).push(pong(iterator@.bytes[0], elapsed_time))
            } else {
                datagrams(old(replies)@)
            },
    {
        if iterator.remaining() != 1 {
            return ;
        }
        let mut iterator = iterator;
        let ping_number = iterator.next_unchecked();
        let mut result_buffer: Vec<u8> = Vec::new();
        result_buffer.push(MessageType::Pong.to_index());
        result_buffer.push(0);
        result_buffer.push(0);
        result_buffer.push(40);
        result_buffer.push(0);
        result_buffer.push(ping_number);
        assert(result_buffer@ =~= seq![130u8, 0u8, 0u8, 40u8, 0u8, ping_number]);
        lg_formatter::write_float(&mut result_buffer, elapsed_time);
        reply_with(replies, result_buffer);
    }

    /// The peer at `remote_address` has left: its connection goes, and with
    /// it the payloads of the channel that came from it and still wait for
    /// the application. Every other message stays, in its place.
    pub fn handle_packet_disconnect(&mut self, remote_address: RemoteAddress)
        requires
            old(self).wf(),
        ensures
            final(self).wf(),
            final(self)@ == (ServerState {
                clients: old(self)@.clients.remove(remote_address),
                packets: without_data_from(old(self)@.packets, remote_address),
                ..old(self)@
            }),
    {
        let found = self.find(remote_address);
        let ghost entries = self.user_map@;
        let ghost pairs = client_pairs(entries);
        if found < self.user_map.len() {
            proof {
                lemma_remove(pairs, found as int);
                assert(client_pairs(entries.remove(found as int)) =~= pairs.remove(found as int));
            }
            self.user_map.remove(found);
        } else {
            assert(as_map(pairs).remove(remote_address) =~= as_map(pairs));
        }
        let ghost listed = packets(self.new_data_packets@);
        let mut i: usize = 0;
        while i < self.new_data_packets.len()
            invariant
                i <= self.new_data_packets.len(),
                self.user_map == old(self).user_map || self.user_map@ == entries.remove(
                    found as int,
                ),
                self.wf(),
                self@.clients == old(self)@.clients.remove(remote_address),
                self@.application_name == old(self)@.application_name,
                self@.unique_id == old(self)@.unique_id,
                self@.last_cleanup == old(self)@.last_cleanup,
                without_data_from(packets(self.new_data_packets@), remote_address)
                    == without_data_from(listed, remote_address),
                forall|k: int|
                    0 <= k < i ==> !is_data_from(
                        #[trigger] packets(self.new_data_packets@)[k],
                        remote_address,
                    ),
            decreases self.new_data_packets.len() - i,
        {
            let matches = match self.new_data_packets[i].data_type {
                DataType::Data => self.new_data_packets[i].remote_address == remote_address,
                _ => false,
            };
            if matches {
                proof {
                    lemma_without_data_from(
                        packets(self.new_data_packets@),
                        remote_address,
                        i as int,
                    );
                    assert(packets(self.new_data_packets@.remove(i as int)) =~= packets(
                        self.new_data_packets@,
                    ).remove(i as int));
                }
                self.new_data_packets.remove(i);
            } else {
                i += 1;
            }
        }
        proof {
            lemma_without_data_from(packets(self.new_data_packets@), remote_address, 0);
        }
    }

    fn handle_packet_acknowledged(
        &mut self,
        iterator: CustomIterator,
        remote_address: RemoteAddress,
    )
        requires
            old(self).wf(),
            iterator@.position == 0,
        ensures
            final(self).wf(),
            final(self)@ == if old(self)@.clients.dom().contains(remote_address)
                && iterator@.bytes.len() % 3 == 0 {
                ServerState {
                    clients: old(self)@.clients.insert(
                        remote_address,
                        ClientState {
                            sender: apply_acknowledgements(
                                old(self)@.clients[remote_address].sender,
                                iterator@.bytes,
                                0,
                            ),
                            ..old(self)@.clients[remote_address]
                        },
                    ),
                    ..old(self)@
                }
            } else {
                old(self)@
            },
    {
        let found = self.find(remote_address);
        if found >= self.user_map.len() {
            return ;
        }
        if iterator.remaining() % 3 != 0 {
            return ;
        }
        let ghost entries = self.user_map@;
        let ghost pairs = client_pairs(entries);
        let ghost client = entries[found as int].1@;
        let ghost payload = iterator@.bytes;
        let mut iterator = iterator;
        proof {
            lemma_update(pairs, found as int, client);
            assert(pairs.update(found as int, (remote_address, client)) =~= pairs);
        }
        while iterator.has_more()
            invariant_except_break
                apply_acknowledgements(
                    self.user_map@[found as int].1@.sender,
                    payload,
                    iterator@.position,
                ) == apply_acknowledgements(client.sender, payload, 0),
            invariant
                found < self.user_map@.len(),
                self.user_map@.len() == entries.len(),
                iterator@.bytes == payload,
                0 <= iterator@.position <= payload.len(),
                (payload.len() - iterator@.position) % 3 == 0,
                forall|i: int|
                    0 <= i < entries.len() && i != found ==> self.user_map@[i] == entries[i],
                self.user_map@[found as int].0 == remote_address,
                self.user_map@[found as int].1.wf(),
                self.user_map@[found as int].1@ == (ClientState {
                    sender: self.user_map@[found as int].1@.sender,
                    ..client
                }),
                self.application_name == old(self).application_name,
                self.server_unique_id == old(self).server_unique_id,
                self.time_cleanup == old(self).time_cleanup,
                self.new_data_packets == old(self).new_data_packets,
            ensures
                found < self.user_map@.len(),
                self.user_map@.len() == entries.len(),
                forall|i: int|
                    0 <= i < entries.len() && i != found ==> self.user_map@[i] == entries[i],
                self.user_map@[found as int].0 == remote_address,
                self.user_map@[found as int].1.wf(),
                self.user_map@[found as int].1@ == (ClientState {
                    sender: apply_acknowledgements(client.sender, payload, 0),
                    ..client
                }),
                self.application_name == old(self).application_name,
                self.server_unique_id == old(self).server_unique_id,
                self.time_cleanup == old(self).time_cleanup,
                self.new_data_packets == old(self).new_data_packets,
            decreases iterator@.remaining(),
        {
            let ghost at = iterator@.position;
            let ghost sender = self.user_map@[found as int].1@.sender;
            let raw_id = iterator.next_unchecked();
            let low = iterator.next_unchecked();
            let high = iterator.next_unchecked();
            assert(raw_id == payload[at] && low == payload[at + 1] && high == payload[at + 2]);
            assert(apply_acknowledgements(sender, payload, at) == match MessageType::spec_from_id(
                payload[at],
            ) {
                None => sender,
                Some(message_type) => apply_acknowledgements(
                    if message_type == MessageType::UserReliableOrdered(0) {
                        sender.acknowledge(payload[at + 1] + payload[at + 2] * 0x100)
                    } else {
                        sender
                    },
                    payload,
                    at + 3,
                ),
            });
            let message_type = match MessageType::from_id(raw_id) {
                Some(message_type) => message_type,
                None => {
                    break ;
                },
            };
            let sequence_number: u16 = (low as u16) + (high as u16) * 0x100;
            let ours = match message_type {
                MessageType::UserReliableOrdered(channel) => channel == 0,
                _ => false,
            };
            if ours {
                self.user_map[found].1.received_acknowledge(sequence_number);
            }
        }
        proof {
            let after = client_pairs(self.user_map@);
            assert(after =~= pairs.update(
                found as int,
                (remote_address, self.user_map@[found as int].1@),
            ));
            lemma_update(pairs, found as int, self.user_map@[found as int].1@);
            assert(distinct_keys(after));
            assert forall|i: int| 0 <= i < self.user_map@.len() implies (
            #[trigger] self.user_map@[i]).1.wf() && self.user_map@[i].1@.remote_address
                == self.user_map@[i].0 by {
                if i != found {
                    assert(self.user_map@[i] == entries[i]);
                    assert(entries[i].1.wf());
                }
            }
        }
    }

    /// The answer to a connect: a ConnectResponse frame with the application
    /// name, the server's id, and the server's time, a float given by its bit
    /// pattern.
    pub fn answer_connect(&self, elapsed_time: u32) -> (frame: Vec<u8>)
        requires
            self.wf(),
        ensures
            frame@ == unsequenced_frame(
                132,
                connect_response_payload(self@.application_name, self@.unique_id, elapsed_time),
            ),
    {
        let mut payload: Vec<u8> = Vec::new();
        lg_formatter::write_string(&mut payload, self.application_name.as_str());
        lg_formatter::write_int_64(&mut payload, self.server_unique_id);
        lg_formatter::write_float(&mut payload, elapsed_time);
        ServerInstance::frame_of(MessageType::ConnectResponse.to_index(), payload.as_slice())
    }

    /// The answer to a discovery: a DiscoveryResponse frame around the payload.
    pub fn answer_discovery(&self, discovery_payload: &[u8]) -> (frame: Vec<u8>)
        ensures
            frame@ == unsequenced_frame(137, discovery_payload@),
    {
        ServerInstance::frame_of(MessageType::DiscoveryResponse.to_index(), discovery_payload)
    }

    fn frame_of(type_id: u8, payload: &[u8]) -> (frame: Vec<u8>)
        ensures
            frame@ == unsequenced_frame(type_id, payload@),
    {
        let length: usize = payload.len() % 0x2000 * 8;
        let mut frame: Vec<u8> = Vec::new();
        frame.push(type_id);
        frame.push(0);
        frame.push(0);
        frame.push((length % 0x100) as u8);
        frame.push((length / 0x100) as u8);
        push_all(&mut frame, payload);
        assert(frame@ =~= unsequenced_frame(type_id, payload@));
        frame
    }
}

} // verus!
