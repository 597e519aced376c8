//! The ids of the application packets, as of game version 0.91.

use vstd::prelude::*;

verus! {

#[derive(Clone, Copy, Debug, PartialEq, Eq, Structural)]
pub enum PacketIDs {
    DiscoveryRequest,
    DiscoveryResponse,
    ConnectionApproval,
    ConnectionEstablished,
    WorldInitialization,
    ClientLoadedWorld,
    ChatMessageSent,
    ChatMessageBroadcast,
    RunCommand,
    BuildingRequest,
    BuildActionReceipt,
    WorldUpdate,
    ExtraDataRequest,
    ExtraDataChange,
    ExtraDataUpdate,
    RequestSimulationSteps,
    ResetToDefaultSimulationSpeed,
    ServerStrugglingWithSimulationSpeed,
    CircuitStatesUpdate,
    RpcCall,
    RpcConfirm,
    DebugMessage,
    SubassemblyRequest,
    SubassemblyRequestResponse,
    PlayerList,
    PlayerPosition,
    SetPlayerPositionData,
    PlayerPositionUpdate,
    PlayerHotbar,
    PlayerAppearance,
    PlayerAppearanceUpdate,
}

impl PacketIDs {
    pub open spec fn spec_id(self) -> u32 {
        match self {
            PacketIDs::DiscoveryRequest => 10,
            PacketIDs::DiscoveryResponse => 11,
            PacketIDs::ConnectionApproval => 16,
            PacketIDs::ConnectionEstablished => 17,
            PacketIDs::WorldInitialization => 18,
            PacketIDs::ClientLoadedWorld => 15,
            PacketIDs::ChatMessageSent => 3,
            PacketIDs::ChatMessageBroadcast => 20,
            PacketIDs::RunCommand => 14,
            PacketIDs::BuildingRequest => 2,
            PacketIDs::BuildActionReceipt => 19,
            PacketIDs::WorldUpdate => 30,
            PacketIDs::ExtraDataRequest => 5,
            PacketIDs::ExtraDataChange => 4,
            PacketIDs::ExtraDataUpdate => 23,
            PacketIDs::RequestSimulationSteps => 9,
            PacketIDs::ResetToDefaultSimulationSpeed => 12,
            PacketIDs::ServerStrugglingWithSimulationSpeed => 28,
            PacketIDs::CircuitStatesUpdate => 21,
            PacketIDs::RpcCall => 13,
            PacketIDs::RpcConfirm => 27,
            PacketIDs::DebugMessage => 22,
            PacketIDs::SubassemblyRequest => 31,
            PacketIDs::SubassemblyRequestResponse => 32,
            PacketIDs::PlayerList => 25,
            PacketIDs::PlayerPosition => 8,
            PacketIDs::SetPlayerPositionData => 29,
            PacketIDs::PlayerPositionUpdate => 26,
            PacketIDs::PlayerHotbar => 7,
            PacketIDs::PlayerAppearance => 6,
            PacketIDs::PlayerAppearanceUpdate => 24,
        }
    }

    pub fn id(&self) -> (id: u32)
        ensures
            id == self.spec_id(),
            2 <= id <= 32,
    {
        match self {
            PacketIDs::DiscoveryRequest => 10,
            PacketIDs::DiscoveryResponse => 11,
            PacketIDs::ConnectionApproval => 16,
            PacketIDs::ConnectionEstablished => 17,
            PacketIDs::WorldInitialization => 18,
            PacketIDs::ClientLoadedWorld => 15,
            PacketIDs::ChatMessageSent => 3,
            PacketIDs::ChatMessageBroadcast => 20,
            PacketIDs::RunCommand => 14,
            PacketIDs::BuildingRequest => 2,
            PacketIDs::BuildActionReceipt => 19,
            PacketIDs::WorldUpdate => 30,
            PacketIDs::ExtraDataRequest => 5,
            PacketIDs::ExtraDataChange => 4,
            PacketIDs::ExtraDataUpdate => 23,
            PacketIDs::RequestSimulationSteps => 9,
            PacketIDs::ResetToDefaultSimulationSpeed => 12,
            PacketIDs::ServerStrugglingWithSimulationSpeed => 28,
            PacketIDs::CircuitStatesUpdate => 21,
            PacketIDs::RpcCall => 13,
            PacketIDs::RpcConfirm => 27,
            PacketIDs::DebugMessage => 22,
            PacketIDs::SubassemblyRequest => 31,
            PacketIDs::SubassemblyRequestResponse => 32,
            PacketIDs::PlayerList => 25,
            PacketIDs::PlayerPosition => 8,
            PacketIDs::SetPlayerPositionData => 29,
            PacketIDs::PlayerPositionUpdate => 26,
            PacketIDs::PlayerHotbar => 7,
            PacketIDs::PlayerAppearance => 6,
            PacketIDs::PlayerAppearanceUpdate => 24,
        }
    }

    /// The packet with the id `value`, where there is one.
    pub fn from_u32(value: u32) -> (r: Option<PacketIDs>)
        ensures
            r matches Some(packet) ==> packet.spec_id() == value,
            r is None <==> (value < 2 || value > 32),
    {
        match value {
            2 => Some(PacketIDs::BuildingRequest),
            3 => Some(PacketIDs::ChatMessageSent),
            4 => Some(PacketIDs::ExtraDataChange),
            5 => Some(PacketIDs::ExtraDataRequest),
            6 => Some(PacketIDs::PlayerAppearance),
            7 => Some(PacketIDs::PlayerHotbar),
            8 => Some(PacketIDs::PlayerPosition),
            9 => Some(PacketIDs::RequestSimulationSteps),
            10 => Some(PacketIDs::DiscoveryRequest),
            11 => Some(PacketIDs::DiscoveryResponse),
            12 => Some(PacketIDs::ResetToDefaultSimulationSpeed),
            13 => Some(PacketIDs::RpcCall),
            14 => Some(PacketIDs::RunCommand),
            15 => Some(PacketIDs::ClientLoadedWorld),
            16 => Some(PacketIDs::ConnectionApproval),
            17 => Some(PacketIDs::ConnectionEstablished),
            18 => Some(PacketIDs::WorldInitialization),
            19 => Some(PacketIDs::BuildActionReceipt),
            20 => Some(PacketIDs::ChatMessageBroadcast),
            21 => Some(PacketIDs::CircuitStatesUpdate),
            22 => Some(PacketIDs::DebugMessage),
            23 => Some(PacketIDs::ExtraDataUpdate),
            24 => Some(PacketIDs::PlayerAppearanceUpdate),
            25 => Some(PacketIDs::PlayerList),
            26 => Some(PacketIDs::PlayerPositionUpdate),
            27 => Some(PacketIDs::RpcConfirm),
            28 => Some(PacketIDs::ServerStrugglingWithSimulationSpeed),
            29 => Some(PacketIDs::SetPlayerPositionData),
            30 => Some(PacketIDs::WorldUpdate),
            31 => Some(PacketIDs::SubassemblyRequest),
            32 => Some(PacketIDs::SubassemblyRequestResponse),
            _ => None,
        }
    }
}

} // verus!
