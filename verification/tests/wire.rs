use agentduels::error::DecodeError;
use agentduels::packets::{
    HandshakePacket, Item, MatchIDPacket, Packet, PlayerActions, PlayerActionsPacket, Rotation,
};
use agentduels::wire::{
    decode_actions, decode_packet, encode_actions, encode_packet, MAX_PACKET_WIRE_LEN,
};

fn handshake(version: u32) -> Packet {
    Packet::Handshake(HandshakePacket {
        protocol_version: version,
    })
}

fn match_id(id: u64, player_index: u16) -> Packet {
    Packet::MatchID(Box::new(MatchIDPacket { id, player_index }))
}

fn tick_packet(
    bits: u16,
    yaw: f32,
    pitch: f32,
    item: Option<Item>,
    nonce: u128,
    hash: [u8; 32],
) -> Packet {
    Packet::PlayerActions(Box::new(PlayerActionsPacket {
        prev_actions: PlayerActions {
            bits,
            rotation: Rotation {
                yaw: yaw.to_bits(),
                pitch: pitch.to_bits(),
            },
            item_change: item,
        },
        nonce,
        action_hash: hash,
    }))
}

fn samples() -> Vec<Packet> {
    let mut hash = [0u8; 32];
    for (i, byte) in hash.iter_mut().enumerate() {
        *byte = (i * 7 + 1) as u8;
    }
    vec![
        match_id(0, 0),
        match_id(1024952, 1),
        match_id(u64::MAX, u16::MAX),
        handshake(0),
        handshake(1),
        handshake(20395),
        handshake(u32::MAX),
        tick_packet(0, 0.0, 0.0, None, 0, [0; 32]),
        tick_packet(0, 0.0, 0.0, None, 1, [0; 32]),
        tick_packet(0x01FF, 3.25, -1.5, Some(Item::Sword), 12345678901234567890, hash),
        tick_packet(0xFFFF, f32::MAX, f32::MIN, Some(Item::GoldenApple), u128::MAX, [0xFF; 32]),
        tick_packet(0x0080, -0.0, f32::NAN, Some(Item::Block), 1 << 100, hash),
    ]
}

#[test]
fn payload_of_a_handshake() {
    assert_eq!(encode_packet(&handshake(20395)), vec![0x01, 0xAB, 0x9F, 0x01]);
    assert_eq!(encode_packet(&handshake(1)), vec![0x01, 0x01]);
}

#[test]
fn payload_of_a_match_id() {
    assert_eq!(
        encode_packet(&match_id(1024952, 1)),
        vec![0x00, 0xB8, 0xC7, 0x3E, 0x01]
    );
    assert_eq!(encode_packet(&match_id(0, 0)), vec![0x00, 0x00, 0x00]);
}

#[test]
fn payload_of_a_tick_packet() {
    let packet = tick_packet(
        PlayerActions::JUMP,
        1.0,
        0.0,
        Some(Item::Bow),
        300,
        [0xEE; 32],
    );
    let mut expected = vec![0x02, 0x10];
    expected.extend_from_slice(&1.0f32.to_le_bytes());
    expected.extend_from_slice(&0.0f32.to_le_bytes());
    expected.extend_from_slice(&[0x01, 0x02]);
    expected.extend_from_slice(&[0xAC, 0x02]);
    expected.extend_from_slice(&[0xEE; 32]);
    assert_eq!(encode_packet(&packet), expected);
}

#[test]
fn payload_tells_no_change_from_first_item() {
    let none = encode_packet(&tick_packet(0, 0.0, 0.0, None, 0, [0; 32]));
    let sword = encode_packet(&tick_packet(0, 0.0, 0.0, Some(Item::Sword), 0, [0; 32]));
    assert_ne!(none, sword);
    assert_eq!(none.len() + 1, sword.len());
}

#[test]
fn payload_round_trip() {
    for packet in samples() {
        let payload = encode_packet(&packet);
        assert!(!payload.is_empty());
        assert!(payload.len() <= MAX_PACKET_WIRE_LEN);
        assert_eq!(decode_packet(&payload), Ok(packet));
    }
}

#[test]
fn payload_of_the_longest_packet() {
    let longest = tick_packet(0xFFFF, 1.0, 1.0, Some(Item::Pickaxe), u128::MAX, [1; 32]);
    assert_eq!(encode_packet(&longest).len(), MAX_PACKET_WIRE_LEN);
}

#[test]
fn decode_ignores_bytes_after_the_packet() {
    for packet in samples() {
        let mut payload = encode_packet(&packet);
        payload.extend_from_slice(&[0xFF, 0x00, 0x80]);
        assert_eq!(decode_packet(&payload), Ok(packet));
    }
}

#[test]
fn decode_rejects_truncated_payloads() {
    for packet in samples() {
        let payload = encode_packet(&packet);
        for cut in 0..payload.len() {
            assert_eq!(
                decode_packet(&payload[..cut]),
                Err(DecodeError::Deserialize)
            );
        }
    }
}

#[test]
fn decode_rejects_unknown_tags() {
    assert_eq!(decode_packet(&[0x03, 0x00]), Err(DecodeError::Deserialize));
    assert_eq!(decode_packet(&[0x7F, 0x00]), Err(DecodeError::Deserialize));
    assert_eq!(
        decode_packet(&[0xFF, 0xFF, 0xFF, 0xFF, 0x0F]),
        Err(DecodeError::Deserialize)
    );
    assert_eq!(decode_packet(&[]), Err(DecodeError::Deserialize));
}

#[test]
fn decode_rejects_bad_option_and_item() {
    let good = encode_packet(&tick_packet(0, 0.0, 0.0, Some(Item::Bow), 0, [0; 32]));
    assert_eq!(good[10], 0x01);
    assert_eq!(good[11], 0x02);
    let mut bad_option = good.clone();
    bad_option[10] = 0x02;
    assert_eq!(decode_packet(&bad_option), Err(DecodeError::Deserialize));
    let mut bad_item = good.clone();
    bad_item[11] = 0x06;
    assert_eq!(decode_packet(&bad_item), Err(DecodeError::Deserialize));
}

#[test]
fn decode_rejects_overlong_integers() {
    // A player index of three bytes whose last byte holds more than two bits.
    assert_eq!(
        decode_packet(&[0x00, 0x01, 0xFF, 0xFF, 0x04]),
        Err(DecodeError::Deserialize)
    );
    assert_eq!(
        decode_packet(&[0x00, 0x01, 0xFF, 0xFF, 0x03]),
        Ok(match_id(1, u16::MAX))
    );
    // A version of more than 32 bits.
    assert_eq!(
        decode_packet(&[0x01, 0xFF, 0xFF, 0xFF, 0xFF, 0x10]),
        Err(DecodeError::Deserialize)
    );
}

#[test]
fn decode_takes_padded_integers() {
    assert_eq!(decode_packet(&[0x80, 0x00, 0x2A, 0x01]), Ok(match_id(42, 1)));
    assert_eq!(decode_packet(&[0x01, 0x81, 0x00]), Ok(handshake(1)));
}

#[test]
fn payload_is_what_postcard_writes() {
    assert_eq!(
        encode_packet(&handshake(20395)),
        postcard::to_allocvec(&(1u32, 20395u32)).unwrap()
    );
    assert_eq!(
        encode_packet(&match_id(u64::MAX - 5, 513)),
        postcard::to_allocvec(&(0u32, u64::MAX - 5, 513u16)).unwrap()
    );
    let hash = [0x5A; 32];
    assert_eq!(
        encode_packet(&tick_packet(
            0x01A3,
            0.75,
            -3.5,
            Some(Item::Arrow),
            u128::MAX / 3,
            hash
        )),
        postcard::to_allocvec(&(
            2u32,
            (0x01A3u16, [0.75f32, -3.5f32], Some(3u32)),
            u128::MAX / 3,
            hash
        ))
        .unwrap()
    );
    assert_eq!(
        encode_packet(&tick_packet(7, 0.0, 1.0, None, 9, hash)),
        postcard::to_allocvec(&(2u32, (7u16, [0.0f32, 1.0f32], None::<u32>), 9u128, hash))
            .unwrap()
    );
}

#[test]
fn postcard_reads_what_is_written() {
    let payload = encode_packet(&tick_packet(
        0x0011,
        2.0,
        0.5,
        Some(Item::GoldenApple),
        0xDEADBEEF_u128 << 64,
        [9; 32],
    ));
    let read: (u32, (u16, [f32; 2], Option<u32>), u128, [u8; 32]) =
        postcard::from_bytes(&payload).unwrap();
    assert_eq!(
        read,
        (
            2,
            (0x0011, [2.0, 0.5], Some(5)),
            0xDEADBEEF_u128 << 64,
            [9; 32]
        )
    );
    let read: (u32, u64, u16) =
        postcard::from_bytes(&encode_packet(&match_id(99, 1))).unwrap();
    assert_eq!(read, (0, 99, 1));
}

fn lone_action(bits: u16, yaw: f32, pitch: f32, item: Option<Item>) -> PlayerActions {
    PlayerActions {
        bits,
        rotation: Rotation {
            yaw: yaw.to_bits(),
            pitch: pitch.to_bits(),
        },
        item_change: item,
    }
}

#[test]
fn action_on_its_own_round_trip() {
    for action in [
        lone_action(0, 0.0, 0.0, None),
        lone_action(PlayerActions::MOVE_FORWARD | PlayerActions::JUMP, 1.5, -0.5, None),
        lone_action(0x01FF, 3.0, 0.25, Some(Item::Sword)),
        lone_action(u16::MAX, f32::MIN, f32::MAX, Some(Item::GoldenApple)),
    ] {
        let bytes = encode_actions(&action);
        assert_eq!(decode_actions(&bytes), Ok(action));
        let mut longer = bytes.clone();
        longer.push(0x99);
        assert_eq!(decode_actions(&longer), Ok(action));
        for cut in 0..bytes.len() {
            assert_eq!(decode_actions(&bytes[..cut]), Err(DecodeError::Deserialize));
        }
    }
}

#[test]
fn action_on_its_own_is_what_postcard_writes() {
    let action = lone_action(
        PlayerActions::MOVE_FORWARD | PlayerActions::JUMP | PlayerActions::ATTACK,
        0.75,
        -1.25,
        Some(Item::Block),
    );
    assert_eq!(
        encode_actions(&action),
        postcard::to_allocvec(&(0x0031u16, [0.75f32, -1.25f32], Some(4u32))).unwrap()
    );
    assert_eq!(
        encode_actions(&lone_action(0, 0.0, 0.0, None)),
        vec![0u8; 10]
    );
    let read: (u16, [f32; 2], Option<u32>) =
        postcard::from_bytes(&encode_actions(&action)).unwrap();
    assert_eq!(read, (0x0031, [0.75, -1.25], Some(4)));
}
