//! The answer to a discovery request.

use crate::network::message_pack::writer::{
    bool_encoding, int_encoding, map_header, string_encoding, write_bool, write_int_auto,
    write_map_auto, write_string_auto,
};
use crate::network::packets::packet_tools::optional_text;
use vstd::prelude::*;
use vstd::string::*;
use crate::util::byte_order::lemma_appended;
use crate::util::text::lemma_utf8_length;
use vstd::utf8::encode_utf8;

verus! {

pub struct DiscoveryResponse {
    pub version: String,
    pub request_uid: String,
    pub has_discovery_info: bool,
    pub challenge: Option<String>,
    pub server_list_caption: String,
    pub connected_players_count: u32,
    pub max_player_amount: u32,
    pub requires_password: bool,
    pub requires_verification: bool,
}

/// A discovery response as a value.
pub struct DiscoveryResponseData {
    pub version: Seq<char>,
    pub request_uid: Seq<char>,
    pub has_discovery_info: bool,
    pub challenge: Option<Seq<char>>,
    pub server_list_caption: Seq<char>,
    pub connected_players_count: u32,
    pub max_player_amount: u32,
    pub requires_password: bool,
    pub requires_verification: bool,
}

impl View for DiscoveryResponse {
    type V = DiscoveryResponseData;

    open spec fn view(&self) -> DiscoveryResponseData {
        DiscoveryResponseData {
            version: self.version@,
            request_uid: self.request_uid@,
            has_discovery_info: self.has_discovery_info,
            challenge: optional_text(self.challenge),
            server_list_caption: self.server_list_caption@,
            connected_players_count: self.connected_players_count,
            max_player_amount: self.max_player_amount,
            requires_password: self.requires_password,
            requires_verification: self.requires_verification,
        }
    }
}

/// The encoding of a key of a map.
pub open spec fn key_encoding(key: Seq<char>) -> Seq<u8> {
    string_encoding(Some(key))
}

impl DiscoveryResponseData {
    /// Whether every string is short enough to be written.
    pub open spec fn is_writable(self) -> bool {
        &&& encode_utf8(self.version).len() <= 0xFFFF_FFFF
        &&& encode_utf8(self.request_uid).len() <= 0xFFFF_FFFF
        &&& encode_utf8(self.server_list_caption).len() <= 0xFFFF_FFFF
        &&& self.challenge matches Some(challenge) ==> encode_utf8(challenge).len() <= 0xFFFF_FFFF
    }

    /// The first five entries of the map.
    pub open spec fn head_encoding(self) -> Seq<u8> {
        key_encoding("ServerVersion"@) + string_encoding(Some(self.version)) + key_encoding(
            "RequestGuid"@,
        ) + string_encoding(Some(self.request_uid)) + key_encoding("HasDiscoveryInfo"@)
            + bool_encoding(self.has_discovery_info) + key_encoding("Challenge"@)
            + string_encoding(self.challenge) + key_encoding("MOTD"@) + string_encoding(
            Some(self.server_list_caption),
        )
    }

    /// The last four entries of the map.
    pub open spec fn tail_encoding(self) -> Seq<u8> {
        key_encoding("PlayersConnectedCount"@) + int_encoding(self.connected_players_count as int)
            + key_encoding("MaxPlayerCapacity"@) + int_encoding(self.max_player_amount as int)
            + key_encoding("ConnectionRequiresPassword"@) + bool_encoding(self.requires_password)
            + key_encoding("ServerRunningInVerifiedMode"@) + bool_encoding(
            self.requires_verification,
        )
    }

    /// The packet: the id 13, then a map of nine entries.
    pub open spec fn encoding(self) -> Seq<u8> {
        int_encoding(13) + map_header(9) + self.head_encoding() + self.tail_encoding()
    }
}

/// The keys of the packet are short.
proof fn lemma_keys_are_short()
    ensures
        encode_utf8("ServerVersion"@).len() <= 0xFFFF_FFFF,
        encode_utf8("RequestGuid"@).len() <= 0xFFFF_FFFF,
        encode_utf8("HasDiscoveryInfo"@).len() <= 0xFFFF_FFFF,
        encode_utf8("Challenge"@).len() <= 0xFFFF_FFFF,
        encode_utf8("MOTD"@).len() <= 0xFFFF_FFFF,
        encode_utf8("PlayersConnectedCount"@).len() <= 0xFFFF_FFFF,
        encode_utf8("MaxPlayerCapacity"@).len() <= 0xFFFF_FFFF,
        encode_utf8("ConnectionRequiresPassword"@).len() <= 0xFFFF_FFFF,
        encode_utf8("ServerRunningInVerifiedMode"@).len() <= 0xFFFF_FFFF,
{
    reveal_strlit("ServerVersion");
    reveal_strlit("RequestGuid");
    reveal_strlit("HasDiscoveryInfo");
    reveal_strlit("Challenge");
    reveal_strlit("MOTD");
    reveal_strlit("PlayersConnectedCount");
    reveal_strlit("MaxPlayerCapacity");
    reveal_strlit("ConnectionRequiresPassword");
    reveal_strlit("ServerRunningInVerifiedMode");
    lemma_utf8_length("ServerVersion"@);
    lemma_utf8_length("RequestGuid"@);
    lemma_utf8_length("HasDiscoveryInfo"@);
    lemma_utf8_length("Challenge"@);
    lemma_utf8_length("MOTD"@);
    lemma_utf8_length("PlayersConnectedCount"@);
    lemma_utf8_length("MaxPlayerCapacity"@);
    lemma_utf8_length("ConnectionRequiresPassword"@);
    lemma_utf8_length("ServerRunningInVerifiedMode"@);
}

impl DiscoveryResponse {
    /// The response of this server, version 0.91.0.485, to the request with
    /// the id `uid`.
    pub fn simple(
        uid: String,
        max_player_amount: u32,
        requires_password: bool,
        requires_verification: bool,
    ) -> (response: DiscoveryResponse)
        ensures
            response@ == (DiscoveryResponseData {
                version: "0.91.0.485"@,
                request_uid: uid@,
                has_discovery_info: true,
                challenge: None,
                server_list_caption: "Rust server does NOT welcome you :)"@,
                connected_players_count: 0,
                max_player_amount,
                requires_password,
                requires_verification,
            }),
    {
        DiscoveryResponse {
            version: "0.91.0.485".to_owned(),
            request_uid: uid,
            has_discovery_info: true,
            challenge: None,
            server_list_caption: "Rust server does NOT welcome you :)".to_owned(),
            connected_players_count: 0,
            max_player_amount,
            requires_password,
            requires_verification,
        }
    }

    pub fn write(&self, buffer: &mut Vec<u8>)
        requires
            self@.is_writable(),
        ensures
            final(buffer)@ == old(buffer)@ + self@.encoding(),
    {
        proof {
            lemma_keys_are_short();
        }
        let ghost view = self@;
        let ghost base = buffer@;
        write_int_auto(buffer, 13);
        let ghost mut all = int_encoding(13);
        write_map_auto(buffer, 9);
        proof {
            lemma_appended(base, all, map_header(9));
            all = all + map_header(9);
        }
        let ghost start = buffer@;
        write_string_auto(buffer, Some("ServerVersion"));
        let ghost mut part = key_encoding("ServerVersion"@);
        write_string_auto(buffer, Some(self.version.as_str()));
        proof {
            lemma_appended(start, part, string_encoding(Some(view.version)));
            part = part + string_encoding(Some(view.version));
        }
        write_string_auto(buffer, Some("RequestGuid"));
        proof {
            lemma_appended(start, part, key_encoding("RequestGuid"@));
            part = part + key_encoding("RequestGuid"@);
        }
        write_string_auto(buffer, Some(self.request_uid.as_str()));
        proof {
            lemma_appended(start, part, string_encoding(Some(view.request_uid)));
            part = part + string_encoding(Some(view.request_uid));
        }
        write_string_auto(buffer, Some("HasDiscoveryInfo"));
        proof {
            lemma_appended(start, part, key_encoding("HasDiscoveryInfo"@));
            part = part + key_encoding("HasDiscoveryInfo"@);
        }
        write_bool(buffer, self.has_discovery_info);
        proof {
            lemma_appended(start, part, bool_encoding(view.has_discovery_info));
            part = part + bool_encoding(view.has_discovery_info);
        }
        write_string_auto(buffer, Some("Challenge"));
        proof {
            lemma_appended(start, part, key_encoding("Challenge"@));
            part = part + key_encoding("Challenge"@);
        }
        match &self.challenge {
            Some(challenge) => write_string_auto(buffer, Some(challenge.as_str())),
            None => write_string_auto(buffer, None),
        }
        proof {
            lemma_appended(start, part, string_encoding(view.challenge));
            part = part + string_encoding(view.challenge);
        }
        write_string_auto(buffer, Some("MOTD"));
        proof {
            lemma_appended(start, part, key_encoding("MOTD"@));
            part = part + key_encoding("MOTD"@);
        }
        write_string_auto(buffer, Some(self.server_list_caption.as_str()));
        proof {
            lemma_appended(start, part, string_encoding(Some(view.server_list_caption)));
            part = part + string_encoding(Some(view.server_list_caption));
            assert(part == view.head_encoding());
            lemma_appended(base, all, part);
            all = all + part;
        }
        let ghost start = buffer@;
        write_string_auto(buffer, Some("PlayersConnectedCount"));
        let ghost mut part = key_encoding("PlayersConnectedCount"@);
        write_int_auto(buffer, self.connected_players_count);
        proof {
            lemma_appended(start, part, int_encoding(view.connected_players_count as int));
            part = part + int_encoding(view.connected_players_count as int);
        }
        write_string_auto(buffer, Some("MaxPlayerCapacity"));
        proof {
            lemma_appended(start, part, key_encoding("MaxPlayerCapacity"@));
            part = part + key_encoding("MaxPlayerCapacity"@);
        }
        write_int_auto(buffer, self.max_player_amount);
        proof {
            lemma_appended(start, part, int_encoding(view.max_player_amount as int));
            part = part + int_encoding(view.max_player_amount as int);
        }
        write_string_auto(buffer, Some("ConnectionRequiresPassword"));
        proof {
            lemma_appended(start, part, key_encoding("ConnectionRequiresPassword"@));
            part = part + key_encoding("ConnectionRequiresPassword"@);
        }
        write_bool(buffer, self.requires_password);
        proof {
            lemma_appended(start, part, bool_encoding(view.requires_password));
            part = part + bool_encoding(view.requires_password);
        }
        write_string_auto(buffer, Some("ServerRunningInVerifiedMode"));
        proof {
            lemma_appended(start, part, key_encoding("ServerRunningInVerifiedMode"@));
            part = part + key_encoding("ServerRunningInVerifiedMode"@);
        }
        write_bool(buffer, self.requires_verification);
        proof {
            lemma_appended(start, part, bool_encoding(view.requires_verification));
            part = part + bool_encoding(view.requires_verification);
            assert(part == view.tail_encoding());
            lemma_appended(base, all, part);
            all = all + part;
        }
    }
}

} // verus!
