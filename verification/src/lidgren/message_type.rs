//! The message-type tag of a Lidgren frame and its 8-bit id.

use vstd::prelude::*;

verus! {

#[derive(Clone, Copy, Debug, PartialEq, Eq, Structural)]
pub enum MessageType {
    Unconnected,
    UserUnreliable,
    /// Ids 2 to 33, by channel.
    UserSequenced(u8),
    UserReliableUnordered,
    /// Ids 35 to 66, by channel.
    UserReliableSequenced(u8),
    /// Ids 67 to 98, by channel.
    UserReliableOrdered(u8),
    /// Ids 99 to 127, by subcode.
    Unused(u8),
    LibraryError,
    Ping,
    Pong,
    Connect,
    ConnectResponse,
    ConnectionEstablished,
    Acknowledge,
    Disconnect,
    Discovery,
    DiscoveryResponse,
    NatPunchMessage,
    NatIntroduction,
    NatIntroductionConfirmRequest,
    NatIntroductionConfirmed,
    ExpandMTURequest,
    ExpandMTUSuccess,
}

impl MessageType {
    /// Whether the channel or subcode lies in the range that has ids.
    pub open spec fn is_defined(self) -> bool {
        match self {
            MessageType::UserSequenced(channel) => channel < 32,
            MessageType::UserReliableSequenced(channel) => channel < 32,
            MessageType::UserReliableOrdered(channel) => channel < 32,
            MessageType::Unused(subcode) => subcode < 29,
            _ => true,
        }
    }

    pub open spec fn spec_from_id(id: u8) -> Option<MessageType> {
        if id == 0 {
            Some(MessageType::Unconnected)
        } else if id == 1 {
            Some(MessageType::UserUnreliable)
        } else if id <= 33 {
            Some(MessageType::UserSequenced((id - 2) as u8))
        } else if id == 34 {
            Some(MessageType::UserReliableUnordered)
        } else if id <= 66 {
            Some(MessageType::UserReliableSequenced((id - 35) as u8))
        } else if id <= 98 {
            Some(MessageType::UserReliableOrdered((id - 67) as u8))
        } else if id <= 127 {
            Some(MessageType::Unused((id - 99) as u8))
        } else if id == 128 {
            Some(MessageType::LibraryError)
        } else if id == 129 {
            Some(MessageType::Ping)
        } else if id == 130 {
            Some(MessageType::Pong)
        } else if id == 131 {
            Some(MessageType::Connect)
        } else if id == 132 {
            Some(MessageType::ConnectResponse)
        } else if id == 133 {
            Some(MessageType::ConnectionEstablished)
        } else if id == 134 {
            Some(MessageType::Acknowledge)
        } else if id == 135 {
            Some(MessageType::Disconnect)
        } else if id == 136 {
            Some(MessageType::Discovery)
        } else if id == 137 {
            Some(MessageType::DiscoveryResponse)
        } else if id == 138 {
            Some(MessageType::NatPunchMessage)
        } else if id == 139 {
            Some(MessageType::NatIntroduction)
        } else if id == 140 {
            Some(MessageType::ExpandMTURequest)
        } else if id == 141 {
            Some(MessageType::ExpandMTUSuccess)
        } else if id == 142 {
            Some(MessageType::NatIntroductionConfirmRequest)
        } else if id == 143 {
            Some(MessageType::NatIntroductionConfirmed)
        } else {
            None
        }
    }

    pub open spec fn spec_to_index(self) -> int {
        match self {
            MessageType::Unconnected => 0,
            MessageType::UserUnreliable => 1,
            MessageType::UserSequenced(channel) => 2 + channel,
            MessageType::UserReliableUnordered => 34,
            MessageType::UserReliableSequenced(channel) => 35 + channel,
            MessageType::UserReliableOrdered(channel) => 67 + channel,
            MessageType::Unused(subcode) => 99 + subcode,
            MessageType::LibraryError => 128,
            MessageType::Ping => 129,
            MessageType::Pong => 130,
            MessageType::Connect => 131,
            MessageType::ConnectResponse => 132,
            MessageType::ConnectionEstablished => 133,
            MessageType::Acknowledge => 134,
            MessageType::Disconnect => 135,
            MessageType::Discovery => 136,
            MessageType::DiscoveryResponse => 137,
            MessageType::NatPunchMessage => 138,
            MessageType::NatIntroduction => 139,
            MessageType::NatIntroductionConfirmRequest => 142,
            MessageType::NatIntroductionConfirmed => 143,
            MessageType::ExpandMTURequest => 140,
            MessageType::ExpandMTUSuccess => 141,
        }
    }

    /// A system type is one outside the user families and the unused range.
    pub open spec fn spec_is_system(self) -> bool {
        match self {
            MessageType::Unconnected
            | MessageType::UserUnreliable
            | MessageType::UserSequenced(_)
            | MessageType::UserReliableUnordered
            | MessageType::UserReliableSequenced(_)
            | MessageType::UserReliableOrdered(_)
            | MessageType::Unused(_) => false,
            _ => true,
        }
    }

    pub fn from_id(id: u8) -> (r: Option<MessageType>)
        ensures
            r == MessageType::spec_from_id(id),
            r is Some <==> id <= 143,
            r matches Some(t) ==> t.is_defined() && t.spec_to_index() == id,
    {
        if id == 0 {
            Some(MessageType::Unconnected)
        } else if id == 1 {
            Some(MessageType::UserUnreliable)
        } else if id <= 33 {
            Some(MessageType::UserSequenced(id - 2))
        } else if id == 34 {
            Some(MessageType::UserReliableUnordered)
        } else if id <= 66 {
            Some(MessageType::UserReliableSequenced(id - 35))
        } else if id <= 98 {
            Some(MessageType::UserReliableOrdered(id - 67))
        } else if id <= 127 {
            Some(MessageType::Unused(id - 99))
        } else if id == 128 {
            Some(MessageType::LibraryError)
        } else if id == 129 {
            Some(MessageType::Ping)
        } else if id == 130 {
            Some(MessageType::Pong)
        } else if id == 131 {
            Some(MessageType::Connect)
        } else if id == 132 {
            Some(MessageType::ConnectResponse)
        } else if id == 133 {
            Some(MessageType::ConnectionEstablished)
        } else if id == 134 {
            Some(MessageType::Acknowledge)
        } else if id == 135 {
            Some(MessageType::Disconnect)
        } else if id == 136 {
            Some(MessageType::Discovery)
        } else if id == 137 {
            Some(MessageType::DiscoveryResponse)
        } else if id == 138 {
            Some(MessageType::NatPunchMessage)
        } else if id == 139 {
            Some(MessageType::NatIntroduction)
        } else if id == 140 {
            Some(MessageType::ExpandMTURequest)
        } else if id == 141 {
            Some(MessageType::ExpandMTUSuccess)
        } else if id == 142 {
            Some(MessageType::NatIntroductionConfirmRequest)
        } else if id == 143 {
            Some(MessageType::NatIntroductionConfirmed)
        } else {
            None
        }
    }

    pub fn is_system(message_type: &MessageType) -> (r: bool)
        ensures
            r == message_type.spec_is_system(),
    {
        match message_type {
            MessageType::Unconnected
            | MessageType::UserUnreliable
            | MessageType::UserSequenced(_)
            | MessageType::UserReliableUnordered
            | MessageType::UserReliableSequenced(_)
            | MessageType::UserReliableOrdered(_)
            | MessageType::Unused(_) => false,
            _ => true,
        }
    }

    pub fn to_index(&self) -> (id: u8)
        requires
            self.is_defined(),
        ensures
            id == self.spec_to_index(),
            MessageType::spec_from_id(id) == Some(*self),
    {
        match self {
            MessageType::Unconnected => 0,
            MessageType::UserUnreliable => 1,
            MessageType::UserSequenced(channel) => 2 + *channel,
            MessageType::UserReliableUnordered => 34,
            MessageType::UserReliableSequenced(channel) => 35 + *channel,
            MessageType::UserReliableOrdered(channel) => 67 + *channel,
            MessageType::Unused(subcode) => 99 + *subcode,
            MessageType::LibraryError => 128,
            MessageType::Ping => 129,
            MessageType::Pong => 130,
            MessageType::Connect => 131,
            MessageType::ConnectResponse => 132,
            MessageType::ConnectionEstablished => 133,
            MessageType::Acknowledge => 134,
            MessageType::Disconnect => 135,
            MessageType::Discovery => 136,
            MessageType::DiscoveryResponse => 137,
            MessageType::NatPunchMessage => 138,
            MessageType::NatIntroduction => 139,
            MessageType::NatIntroductionConfirmRequest => 142,
            MessageType::NatIntroductionConfirmed => 143,
            MessageType::ExpandMTURequest => 140,
            MessageType::ExpandMTUSuccess => 141,
        }
    }
}

/// The mapping between the defined types and the ids 0 to 143 is one to one.
pub proof fn lemma_message_type_bijection(message_type: MessageType, id: u8)
    ensures
        message_type.is_defined() ==> 0 <= message_type.spec_to_index() <= 143
            && MessageType::spec_from_id(message_type.spec_to_index() as u8) == Some(message_type),
        id <= 143 ==> MessageType::spec_from_id(id) is Some && MessageType::spec_from_id(
            id,
        )->Some_0.is_defined() && MessageType::spec_from_id(id)->Some_0.spec_to_index() == id,
        id > 143 ==> MessageType::spec_from_id(id) is None,
{
}

} // verus!
