//! What the server does with the messages that the transport hands up:
//! discovery requests, connection requests, and the packets of the clients
//! that are connected.

use crate::files::extra_data::manager::{requested, changed, replied, EntryValue, ExtraDataManager};
use crate::files::world_data::world_structs::{World, WorldData};
use crate::lidgren::data_types::RemoteAddress;
use crate::lidgren::lidgren_server::{
    connect_response_payload, unsequenced_frame, ServerInstance, ServerState,
};
use crate::network::message_pack::pretty_printer::{
    pretty_print_data, spec_pretty_print, PrettyPrinted,
};
use crate::network::message_pack::reader::{read_u32, spec_read_u32};
use crate::network::packets::c2s::connection_approval::ConnectionApproval;
use crate::network::packets::c2s::connection_established::ConnectionEstablished;
use crate::network::packets::c2s::discovery_request::DiscoveryRequest;
use crate::network::packets::c2s::extra_data_change::ExtraDataChange;
use crate::network::packets::c2s::extra_data_request::{spec_parse_message, ExtraDataRequest};
use crate::network::packets::c2s::player_position::PlayerPosition;
use crate::network::packets::compression::{spec_try_decompress, try_decompress};
use crate::network::packets::packet_ids::PacketIDs;
use crate::network::packets::packet_tools::spec_expect_packet_id;
use crate::network::packets::s2c::discovery_response::{DiscoveryResponse, DiscoveryResponseData};
use crate::network::packets::s2c::world_initialization_packet::{
    can_be_written, is_writable, world_encoding, WorldInitializationPacket,
};
use crate::util::custom_iterator::{Cursor, CustomIterator};
use crate::util::error_handling::{DecompressError, ReadError};
use vstd::prelude::*;
use vstd::string::*;

verus! {

/// The number of players that the server says it has room for.
pub const MAX_PLAYER_AMOUNT: u32 = 420;

/// Why the id or the content of a packet could not be got at.
#[derive(Clone, Copy, Debug, PartialEq, Eq, Structural)]
pub enum PacketError {
    /// The packet does not begin with an id.
    PacketId(ReadError),
    /// What follows the id has the shape of a compressed payload and could
    /// not be unpacked.
    Compression(DecompressError),
}

/// What became of a packet of a client.
pub enum Handled {
    /// Its id or its content could not be got at. Nothing has changed.
    Unreadable(PacketError),
    /// It has an id that the server handles, and could not be read. Nothing
    /// has changed.
    Malformed(ReadError),
    /// The client has established its connection, and the world, as a packet
    /// of so many bytes, has joined what the connection sends.
    WorldSent(usize),
    /// The client has established its connection, but the world cannot be
    /// written, or is too large to be sent. Nothing has changed.
    WorldTooLarge,
    /// The client has established its connection, but there is no connection
    /// with its address. Nothing has changed.
    NotConnected,
    /// The client has told the position of its player. Nothing has changed.
    PositionTaken,
    /// The client has asked for extra data.
    Requested,
    /// The client has proposed a change of extra data.
    Changed,
    /// The id is none that the server handles: the id, and the layout of
    /// the content. Nothing has changed.
    Unknown(u32, PrettyPrinted),
}

/// The id of a packet and the cursor on its content: the id stands first,
/// and what follows it is unpacked if it has the shape of a compressed
/// payload.
pub open spec fn spec_packet_content(data: Seq<u8>) -> Result<(u32, Cursor), PacketError> {
    match spec_read_u32(Cursor { bytes: data, position: 0 }) {
        (Ok(id), c1) => match spec_try_decompress(c1) {
            Ok(Some(bytes)) => Ok((id, Cursor { bytes, position: 0 })),
            Ok(None) => Ok((id, c1)),
            Err(e) => Err(PacketError::Compression(e)),
        },
        (Err(e), _) => Err(PacketError::PacketId(e)),
    }
}

/// Reads the id of a packet and gets at its content.
pub fn get_packet_content_iterator(data: Vec<u8>) -> (r: Result<
    (u32, CustomIterator),
    PacketError,
>)
    ensures
        match spec_packet_content(data@) {
            Ok(content) => r is Ok && r->Ok_0.0 == content.0 && r->Ok_0.1@ == content.1,
            Err(e) => r is Err && r->Err_0 == e,
        },
{
    let mut iterator = CustomIterator::own(data);
    let packet_id = match read_u32(&mut iterator) {
        Ok(packet_id) => packet_id,
        Err(e) => {
            return Err(PacketError::PacketId(e));
        },
    };
    match try_decompress(&mut iterator) {
        Ok(Some(decompressed_bytes)) => Ok((packet_id, CustomIterator::own(decompressed_bytes))),
        Ok(None) => Ok((packet_id, iterator)),
        Err(e) => Err(PacketError::Compression(e)),
    }
}

/// The response of the server to the discovery request with the id `uid`.
pub open spec fn discovery_response(uid: Seq<char>) -> DiscoveryResponseData {
    DiscoveryResponseData {
        version: "0.91.0.485"@,
        request_uid: uid,
        has_discovery_info: true,
        challenge: None,
        server_list_caption: "Rust server does NOT welcome you :)"@,
        connected_players_count: 0,
        max_player_amount: MAX_PLAYER_AMOUNT,
        requires_password: false,
        requires_verification: false,
    }
}

/// The frame that answers a discovery request.
pub open spec fn spec_discovery_answer(data: Seq<u8>) -> Result<Seq<u8>, ReadError> {
    match spec_expect_packet_id(Cursor { bytes: data, position: 0 }, 10) {
        (Ok(_), c1) => match DiscoveryRequest::spec_parse(c1) {
            Ok(request) => Ok(
                unsequenced_frame(137, discovery_response(request.request_uid).encoding()),
            ),
            Err(e) => Err(e),
        },
        (Err(e), _) => Err(e),
    }
}

/// Reads a discovery request and makes the frame that answers it.
pub fn handle_discovery(server: &ServerInstance, data: Vec<u8>) -> (r: Result<
    Vec<u8>,
    ReadError,
>)
    ensures
        match spec_discovery_answer(data@) {
            Ok(frame) => r is Ok && r->Ok_0@ == frame,
            Err(e) => r is Err && r->Err_0 == e,
        },
{
    let mut iterator = CustomIterator::own(data);
    DiscoveryRequest::validate_packet_id(&mut iterator)?;
    proof {
        DiscoveryRequest::lemma_id_can_be_written(iterator@);
    }
    let request = DiscoveryRequest::parse(iterator)?;
    let response = DiscoveryResponse::simple(request.request_uid, MAX_PLAYER_AMOUNT, false, false);
    proof {
        crate::util::text::lemma_utf8_length("0.91.0.485"@);
        crate::util::text::lemma_utf8_length("Rust server does NOT welcome you :)"@);
        reveal_strlit("0.91.0.485");
        reveal_strlit("Rust server does NOT welcome you :)");
    }
    let mut result_buffer = Vec::new();
    response.write(&mut result_buffer);
    assert(result_buffer@ =~= response@.encoding());
    Ok(server.answer_discovery(result_buffer.as_slice()))
}

/// The frame that answers a connection request.
pub open spec fn spec_connect_answer(server: ServerState, data: Seq<u8>, elapsed_time: u32)
    -> Result<Seq<u8>, ReadError> {
    match spec_expect_packet_id(Cursor { bytes: data, position: 0 }, 16) {
        (Ok(_), c1) => match ConnectionApproval::spec_parse(c1) {
            Ok(_) => Ok(
                unsequenced_frame(
                    132,
                    connect_response_payload(
                        server.application_name,
                        server.unique_id,
                        elapsed_time,
                    ),
                ),
            ),
            Err(e) => Err(e),
        },
        (Err(e), _) => Err(e),
    }
}

/// Reads a connection request and makes the frame that answers it.
/// `elapsed_time` is the bit pattern of the float that holds the seconds
/// since the server started.
pub fn handle_connect(server: &ServerInstance, data: Vec<u8>, elapsed_time: u32) -> (r: Result<
    Vec<u8>,
    ReadError,
>)
    requires
        server.wf(),
    ensures
        match spec_connect_answer(server@, data@, elapsed_time) {
            Ok(frame) => r is Ok && r->Ok_0@ == frame,
            Err(e) => r is Err && r->Err_0 == e,
        },
{
    let mut iterator = CustomIterator::own(data);
    ConnectionApproval::validate_packet_id(&mut iterator)?;
    ConnectionApproval::parse(iterator)?;
    Ok(server.answer_connect(elapsed_time))
}

/// The server after the world has joined what the connection with
/// `address` sends.
pub open spec fn world_sent(server: ServerState, address: RemoteAddress, world: WorldData)
    -> ServerState {
    ServerState {
        clients: server.clients.insert(
            address,
            server.clients[address].send(world_encoding(world)),
        ),
        ..server
    }
}

/// Whether `outcome` and the server afterwards are what a packet that
/// establishes a connection comes to: the world joins what the connection
/// sends, if the packet can be read, the world can be sent and the
/// connection is there.
pub open spec fn established_as(
    outcome: Handled,
    c: Cursor,
    address: RemoteAddress,
    world: WorldData,
    before: ServerState,
    after: ServerState,
) -> bool {
    match ConnectionEstablished::spec_parse(c) {
        Ok(_) => if !is_writable(world) || world_encoding(world).len() > 0x1FFF_FFFF {
            outcome is WorldTooLarge && after == before
        } else if !before.clients.dom().contains(address) {
            outcome is NotConnected && after == before
        } else {
            &&& outcome matches Handled::WorldSent(length)
            &&& length == world_encoding(world).len()
            &&& after == world_sent(before, address, world)
        },
        Err(e) => outcome matches Handled::Malformed(error) && error == e && after == before,
    }
}

/// Whether `outcome` is what a packet with the position of a player comes
/// to.
pub open spec fn positioned_as(outcome: Handled, c: Cursor) -> bool {
    match PlayerPosition::spec_parse(c) {
        Ok(_) => outcome is PositionTaken,
        Err(e) => outcome matches Handled::Malformed(error) && error == e,
    }
}

/// Whether `outcome`, and the server and the extra data afterwards, are what
/// a request for extra data comes to.
pub open spec fn requested_as(
    outcome: Handled,
    c: Cursor,
    address: RemoteAddress,
    before: (ServerState, Map<Seq<char>, EntryValue>),
    after: (ServerState, Map<Seq<char>, EntryValue>),
) -> bool {
    match spec_parse_message(c) {
        Ok(request) => {
            &&& outcome is Requested
            &&& after.1 == requested(before.1, request).0
            &&& after.0 == replied(before.0, address, requested(before.1, request).1)
        },
        Err(e) => outcome matches Handled::Malformed(error) && error == e && after == before,
    }
}

/// Whether `outcome`, and the server and the extra data afterwards, are what
/// a change of extra data comes to.
pub open spec fn changed_as(
    outcome: Handled,
    c: Cursor,
    address: RemoteAddress,
    before: (ServerState, Map<Seq<char>, EntryValue>),
    after: (ServerState, Map<Seq<char>, EntryValue>),
) -> bool {
    match spec_parse_message(c) {
        Ok(change) => {
            &&& outcome is Changed
            &&& after.1 == changed(before.1, change).0
            &&& after.0 == replied(before.0, address, changed(before.1, change).1)
        },
        Err(e) => outcome matches Handled::Malformed(error) && error == e && after == before,
    }
}

/// Whether `outcome`, and the server and the extra data afterwards, are what
/// the packet with the id `id` and the content at `c` comes to.
pub open spec fn handled_as(
    outcome: Handled,
    id: u32,
    c: Cursor,
    address: RemoteAddress,
    world: WorldData,
    before: (ServerState, Map<Seq<char>, EntryValue>),
    after: (ServerState, Map<Seq<char>, EntryValue>),
) -> bool {
    if id == 17 {
        established_as(outcome, c, address, world, before.0, after.0) && after.1 == before.1
    } else if id == 8 {
        positioned_as(outcome, c) && after == before
    } else if id == 5 {
        requested_as(outcome, c, address, before, after)
    } else if id == 4 {
        changed_as(outcome, c, address, before, after)
    } else {
        &&& outcome matches Handled::Unknown(found, printed)
        &&& found == id
        &&& printed@ == spec_pretty_print(c, false)
        &&& after == before
    }
}

fn establish(
    server: &mut ServerInstance,
    address: RemoteAddress,
    iterator: CustomIterator,
    world: &World,
) -> (outcome: Handled)
    requires
        old(server).wf(),
    ensures
        final(server).wf(),
        established_as(outcome, iterator@, address, world@, old(server)@, final(server)@),
{
    match ConnectionEstablished::parse(iterator) {
        Ok(_) => {},
        Err(e) => {
            return Handled::Malformed(e);
        },
    }
    if !can_be_written(world) {
        return Handled::WorldTooLarge;
    }
    let mut packet_buffer = Vec::new();
    WorldInitializationPacket::simple(world).write(&mut packet_buffer);
    assert(packet_buffer@ =~= world_encoding(world@));
    let length = packet_buffer.len();
    if length > 0x1FFF_FFFF {
        return Handled::WorldTooLarge;
    }
    match server.send_to(address, packet_buffer) {
        Ok(_) => Handled::WorldSent(length),
        Err(_) => Handled::NotConnected,
    }
}

fn take_position(iterator: CustomIterator) -> (outcome: Handled)
    ensures
        positioned_as(outcome, iterator@),
{
    match PlayerPosition::parse(iterator) {
        Ok(_) => Handled::PositionTaken,
        Err(e) => Handled::Malformed(e),
    }
}

fn take_request(
    server: &mut ServerInstance,
    address: RemoteAddress,
    iterator: CustomIterator,
    extra_data: &mut ExtraDataManager,
) -> (outcome: Handled)
    requires
        old(server).wf(),
        old(extra_data).wf(),
    ensures
        final(server).wf(),
        final(extra_data).wf(),
        requested_as(
            outcome,
            iterator@,
            address,
            (old(server)@, old(extra_data)@),
            (final(server)@, final(extra_data)@),
        ),
{
    match ExtraDataRequest::parse(iterator) {
        Ok(request) => {
            extra_data.handle_request(request, server, address);
            Handled::Requested
        },
        Err(e) => Handled::Malformed(e),
    }
}

fn take_change(
    server: &mut ServerInstance,
    address: RemoteAddress,
    iterator: CustomIterator,
    extra_data: &mut ExtraDataManager,
) -> (outcome: Handled)
    requires
        old(server).wf(),
        old(extra_data).wf(),
    ensures
        final(server).wf(),
        final(extra_data).wf(),
        changed_as(
            outcome,
            iterator@,
            address,
            (old(server)@, old(extra_data)@),
            (final(server)@, final(extra_data)@),
        ),
{
    match ExtraDataChange::parse(iterator) {
        Ok(change) => {
            extra_data.handle_change(change, server, address);
            Handled::Changed
        },
        Err(e) => Handled::Malformed(e),
    }
}

/// Takes a packet that the client with `address` has sent: the world goes
/// to a client that has established its connection, requests for extra data
/// and changes of it go to the extra data, and the position of a player is
/// read and dropped.
pub fn handle_user_packet(
    server: &mut ServerInstance,
    address: RemoteAddress,
    data: Vec<u8>,
    world: &World,
    extra_data: &mut ExtraDataManager,
) -> (outcome: Handled)
    requires
        old(server).wf(),
        old(extra_data).wf(),
    ensures
        final(server).wf(),
        final(extra_data).wf(),
        match spec_packet_content(data@) {
            Ok(content) => handled_as(
                outcome,
                content.0,
                content.1,
                address,
                world@,
                (old(server)@, old(extra_data)@),
                (final(server)@, final(extra_data)@),
            ),
            Err(e) => outcome matches Handled::Unreadable(error) && error == e && final(server)@
                == old(server)@ && final(extra_data)@ == old(extra_data)@,
        },
{
    let (packet_id, mut iterator) = match get_packet_content_iterator(data) {
        Ok(content) => content,
        Err(e) => {
            return Handled::Unreadable(e);
        },
    };
    match PacketIDs::from_u32(packet_id) {
        Some(PacketIDs::ConnectionEstablished) => establish(server, address, iterator, world),
        Some(PacketIDs::PlayerPosition) => take_position(iterator),
        Some(PacketIDs::ExtraDataRequest) => take_request(server, address, iterator, extra_data),
        Some(PacketIDs::ExtraDataChange) => take_change(server, address, iterator, extra_data),
        _ => Handled::Unknown(packet_id, pretty_print_data(&mut iterator)),
    }
}

} // verus!
