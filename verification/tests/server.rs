use agentduels::codec::PacketCodec;
use agentduels::packets::{HandshakePacket, MatchIDPacket, Packet};
use agentduels::server::{check_handshake, GameServer, PairingError, GAME_VERSION};

fn handshake_bytes(version: u32) -> Vec<u8> {
    PacketCodec::new().write(&Packet::Handshake(HandshakePacket {
        protocol_version: version,
    }))
}

#[test]
fn first_arrival_waits() {
    let mut server: GameServer<&str> = GameServer::new();
    assert!(!server.is_waiting());
    assert!(server.pair("A").is_none());
    assert!(server.is_waiting());
}

#[test]
fn second_arrival_is_matched_with_the_first() {
    let mut server: GameServer<&str> = GameServer::new();
    assert!(server.pair_with_id("A", 1).is_none());
    let made = server.pair_with_id("B", 0xABCD).unwrap();
    assert_eq!(made.first, "A");
    assert_eq!(
        made.first_packet,
        MatchIDPacket {
            id: 0xABCD,
            player_index: 0
        }
    );
    assert_eq!(made.second, "B");
    assert_eq!(
        made.second_packet,
        MatchIDPacket {
            id: 0xABCD,
            player_index: 1
        }
    );
    assert!(!server.is_waiting());
}

#[test]
fn pairs_are_made_two_at_a_time() {
    let mut server: GameServer<u32> = GameServer::new();
    let mut matches = Vec::new();
    for connection in 0..7u32 {
        if let Some(made) = server.pair(connection) {
            matches.push(made);
        }
    }
    assert_eq!(matches.len(), 3);
    for (i, made) in matches.iter().enumerate() {
        assert_eq!(made.first, 2 * i as u32);
        assert_eq!(made.second, 2 * i as u32 + 1);
        assert_eq!(made.first_packet.player_index, 0);
        assert_eq!(made.second_packet.player_index, 1);
        assert_eq!(made.first_packet.id, made.second_packet.id);
    }
    assert!(server.is_waiting());
    assert_eq!(server.leave(), Some(6));
    assert!(!server.is_waiting());
}

#[test]
fn sessions_get_fresh_identifiers() {
    let mut server: GameServer<u8> = GameServer::new();
    let mut ids = Vec::new();
    for connection in 0..8u8 {
        if let Some(made) = server.pair(connection) {
            ids.push(made.first_packet.id);
        }
    }
    assert_eq!(ids.len(), 4);
    for i in 0..ids.len() {
        for j in 0..i {
            assert_ne!(ids[i], ids[j]);
        }
    }
}

#[test]
fn waiting_connection_that_leaves_is_not_matched() {
    let mut server: GameServer<&str> = GameServer::new();
    assert!(server.pair("A").is_none());
    assert_eq!(server.leave(), Some("A"));
    assert_eq!(server.leave(), None);
    assert!(server.pair("B").is_none());
    let made = server.pair("C").unwrap();
    assert_eq!(made.first, "B");
    assert_eq!(made.second, "C");
}

#[test]
fn handshake_with_the_servers_version() {
    assert_eq!(GAME_VERSION, 1);
    assert_eq!(check_handshake(&handshake_bytes(1), 1), Ok(()));
    assert_eq!(check_handshake(&handshake_bytes(20395), 20395), Ok(()));
}

#[test]
fn handshake_with_another_version() {
    assert_eq!(
        check_handshake(&handshake_bytes(2), 1),
        Err(PairingError::VersionMismatch)
    );
    assert_eq!(
        check_handshake(&handshake_bytes(0), GAME_VERSION),
        Err(PairingError::VersionMismatch)
    );
}

#[test]
fn handshake_that_is_none() {
    let malformed = Err(PairingError::MalformedHandshake);
    assert_eq!(check_handshake(&[], 1), malformed);
    assert_eq!(check_handshake(&[0x00], 1), malformed);
    let whole = handshake_bytes(1);
    assert_eq!(check_handshake(&whole[..whole.len() - 1], 1), malformed);
    let mut twice = whole.clone();
    twice.extend_from_slice(&whole);
    assert_eq!(check_handshake(&twice, 1), malformed);
    let mut trailing = whole.clone();
    trailing.push(0x05);
    assert_eq!(check_handshake(&trailing, 1), malformed);
    let other = PacketCodec::new().write(&Packet::MatchID(Box::new(MatchIDPacket {
        id: 1,
        player_index: 0,
    })));
    assert_eq!(check_handshake(&other, 1), malformed);
    assert_eq!(check_handshake(&[0x02, 0x07, 0x07], 1), malformed);
    assert_eq!(check_handshake(&[0xFF, 0xFF, 0xFF, 0xFF, 0xFF], 1), malformed);
}

#[test]
fn pairing_error_messages() {
    assert_eq!(PairingError::VersionMismatch.message(), "Version mismatch");
    assert_eq!(PairingError::MalformedHandshake.message(), "Unexpected message");
}
