//! The payload of a frame: a packet as bytes.
//!
//! A payload starts with the packet's tag as a varint and goes on with the
//! packet's fields in their order. Unsigned integers are varints, an angle
//! is its four bytes least significant first, an optional value is the byte
//! 0, or the byte 1 and the value, an item is its index as a varint, and a
//! hash is its 32 bytes.

use crate::error::DecodeError;
use crate::little_endian::{
    le_bytes, le_value, lemma_byte_capacity_values, lemma_le_bytes_len, lemma_le_value_of_bytes,
    push_le_bytes, take_le_bytes,
};
use crate::packets::{
    HandshakePacket, Item, MatchIDPacket, Packet, PacketView, PlayerActions, PlayerActionsPacket,
    PlayerActionsPacketView, Rotation,
};
use crate::varint::{
    lemma_capacity_values, lemma_parse_varint_bounds, lemma_parse_varint_bytes,
    lemma_varint_bytes_len, lemma_varint_bytes_max_len, parse_varint, parse_width,
    push_wide_varint, take_varint, varint_bytes, VarintParse, VarintRead, Width,
};
use vstd::prelude::*;

verus! {

/// The tag of a `MatchIDPacket`.
pub const TAG_MATCH_ID: u32 = 0;

/// The tag of a `HandshakePacket`.
pub const TAG_HANDSHAKE: u32 = 1;

/// The tag of a `PlayerActionsPacket`.
pub const TAG_PLAYER_ACTIONS: u32 = 2;

/// The number of bytes in an action hash.
pub const HASH_LEN: usize = 32;

/// The largest number of bytes that a packet takes as a payload.
pub const MAX_PACKET_WIRE_LEN: usize = 65;

pub open spec fn item_change_wire(change: Option<Item>) -> Seq<u8> {
    match change {
        None => seq![0u8],
        Some(item) => seq![1u8] + varint_bytes(item.spec_index() as nat),
    }
}

pub open spec fn actions_wire(actions: PlayerActions) -> Seq<u8> {
    varint_bytes(actions.bits as nat) + le_bytes(actions.rotation.yaw as nat, 4) + le_bytes(
        actions.rotation.pitch as nat,
        4,
    ) + item_change_wire(actions.item_change)
}

pub open spec fn match_id_wire(packet: MatchIDPacket) -> Seq<u8> {
    varint_bytes(packet.id as nat) + varint_bytes(packet.player_index as nat)
}

pub open spec fn handshake_wire(packet: HandshakePacket) -> Seq<u8> {
    varint_bytes(packet.protocol_version as nat)
}

pub open spec fn player_actions_wire(packet: PlayerActionsPacketView) -> Seq<u8> {
    actions_wire(packet.prev_actions) + varint_bytes(packet.nonce as nat) + packet.action_hash
}

/// The payload that carries `packet`.
pub open spec fn packet_wire(packet: PacketView) -> Seq<u8> {
    match packet {
        PacketView::MatchID(p) => varint_bytes(TAG_MATCH_ID as nat) + match_id_wire(p),
        PacketView::Handshake(p) => varint_bytes(TAG_HANDSHAKE as nat) + handshake_wire(p),
        PacketView::PlayerActions(p) => varint_bytes(TAG_PLAYER_ACTIONS as nat)
            + player_actions_wire(p),
    }
}

/// A packet that an executable `Packet` can hold: its hash has 32 bytes.
pub open spec fn packet_valid(packet: PacketView) -> bool {
    packet matches PacketView::PlayerActions(p) ==> p.action_hash.len() == HASH_LEN
}

/// The optional item at the front of `s`, and the number of bytes it takes.
pub open spec fn parse_item_change(s: Seq<u8>) -> Option<(Option<Item>, nat)> {
    if s.len() == 0 {
        None
    } else if s[0] == 0 {
        Some((None, 1))
    } else if s[0] == 1 {
        match parse_width(s.skip(1), Width::U32) {
            VarintParse::Value { value, len } => match Item::spec_from_index(value) {
                Some(item) => Some((Some(item), len + 1)),
                None => None,
            },
            _ => None,
        }
    } else {
        None
    }
}

/// The action at the front of `s`, and the number of bytes it takes.
pub open spec fn parse_actions(s: Seq<u8>) -> Option<(PlayerActions, nat)> {
    match parse_width(s, Width::U16) {
        VarintParse::Value { value: bits, len } => {
            let angles = s.skip(len as int);
            if angles.len() < 8 {
                None
            } else {
                match parse_item_change(angles.skip(8)) {
                    Some((item_change, item_len)) => Some(
                        (
                            PlayerActions {
                                bits: bits as u16,
                                rotation: Rotation {
                                    yaw: le_value(angles.subrange(0, 4)) as u32,
                                    pitch: le_value(angles.subrange(4, 8)) as u32,
                                },
                                item_change,
                            },
                            len + 8 + item_len,
                        ),
                    ),
                    None => None,
                }
            }
        },
        _ => None,
    }
}

pub open spec fn parse_match_id(s: Seq<u8>) -> Option<MatchIDPacket> {
    match parse_width(s, Width::U64) {
        VarintParse::Value { value: id, len } => match parse_width(s.skip(len as int), Width::U16) {
            VarintParse::Value { value: player_index, len: _ } => Some(
                MatchIDPacket { id: id as u64, player_index: player_index as u16 },
            ),
            _ => None,
        },
        _ => None,
    }
}

pub open spec fn parse_handshake(s: Seq<u8>) -> Option<HandshakePacket> {
    match parse_width(s, Width::U32) {
        VarintParse::Value { value, len: _ } => Some(
            HandshakePacket { protocol_version: value as u32 },
        ),
        _ => None,
    }
}

pub open spec fn parse_player_actions(s: Seq<u8>) -> Option<PlayerActionsPacketView> {
    match parse_actions(s) {
        Some((prev_actions, actions_len)) => match parse_width(
            s.skip(actions_len as int),
            Width::U128,
        ) {
            VarintParse::Value { value: nonce, len } => {
                let hash = s.skip(actions_len as int).skip(len as int);
                if hash.len() < HASH_LEN {
                    None
                } else {
                    Some(
                        PlayerActionsPacketView {
                            prev_actions,
                            nonce: nonce as u128,
                            action_hash: hash.take(HASH_LEN as int),
                        },
                    )
                }
            },
            _ => None,
        },
        None => None,
    }
}

/// The packet that the payload `s` carries, if it carries one. Bytes after
/// the packet's last field are not looked at.
pub open spec fn parse_packet(s: Seq<u8>) -> Option<PacketView> {
    match parse_width(s, Width::U32) {
        VarintParse::Value { value: tag, len } => {
            let fields = s.skip(len as int);
            if tag == TAG_MATCH_ID {
                match parse_match_id(fields) {
                    Some(p) => Some(PacketView::MatchID(p)),
                    None => None,
                }
            } else if tag == TAG_HANDSHAKE {
                match parse_handshake(fields) {
                    Some(p) => Some(PacketView::Handshake(p)),
                    None => None,
                }
            } else if tag == TAG_PLAYER_ACTIONS {
                match parse_player_actions(fields) {
                    Some(p) => Some(PacketView::PlayerActions(p)),
                    None => None,
                }
            } else {
                None
            }
        },
        _ => None,
    }
}

/// Whatever parses is a packet that an executable `Packet` can hold.
pub proof fn lemma_parse_packet_valid(s: Seq<u8>)
    ensures
        parse_packet(s) matches Some(packet) ==> packet_valid(packet),
{
}

/// A payload is never empty and never longer than `MAX_PACKET_WIRE_LEN`.
pub proof fn lemma_packet_wire_len(packet: PacketView)
    requires
        packet_valid(packet),
    ensures
        1 <= packet_wire(packet).len() <= MAX_PACKET_WIRE_LEN,
{
    lemma_capacity_values();
    match packet {
        PacketView::MatchID(p) => {
            lemma_varint_bytes_max_len(TAG_MATCH_ID as nat, 5, 15);
            lemma_varint_bytes_len(TAG_MATCH_ID as nat);
            lemma_varint_bytes_max_len(p.id as nat, 10, 1);
            lemma_varint_bytes_max_len(p.player_index as nat, 3, 3);
        },
        PacketView::Handshake(p) => {
            lemma_varint_bytes_len(TAG_HANDSHAKE as nat);
            lemma_varint_bytes_max_len(p.protocol_version as nat, 5, 15);
        },
        PacketView::PlayerActions(p) => {
            lemma_varint_bytes_len(TAG_PLAYER_ACTIONS as nat);
            lemma_varint_bytes_max_len(p.prev_actions.bits as nat, 3, 3);
            lemma_le_bytes_len(p.prev_actions.rotation.yaw as nat, 4);
            lemma_le_bytes_len(p.prev_actions.rotation.pitch as nat, 4);
            match p.prev_actions.item_change {
                Some(item) => {
                    lemma_varint_bytes_len(item.spec_index() as nat);
                },
                None => {},
            }
            lemma_varint_bytes_max_len(p.nonce as nat, 19, 3);
        },
    }
}

/// An optional item takes no more bytes than there are.
pub proof fn lemma_parse_item_change_len(s: Seq<u8>)
    ensures
        parse_item_change(s) matches Some((_, len)) ==> 1 <= len <= s.len(),
{
    if s.len() > 0 && s[0] == 1 {
        lemma_parse_varint_bounds(s.skip(1), 5, 15);
    }
}

/// An action takes no more bytes than there are.
pub proof fn lemma_parse_actions_len(s: Seq<u8>)
    ensures
        parse_actions(s) matches Some((_, len)) ==> 10 <= len <= s.len(),
{
    lemma_parse_varint_bounds(s, 3, 3);
    if let VarintParse::Value { value: _, len } = parse_varint(s, 3, 3) {
        let angles = s.skip(len as int);
        if angles.len() >= 8 {
            lemma_parse_item_change_len(angles.skip(8));
        }
    }
}

pub proof fn lemma_parse_item_change_wire(change: Option<Item>, rest: Seq<u8>)
    ensures
        parse_item_change(item_change_wire(change) + rest) == Some(
            (change, item_change_wire(change).len()),
        ),
{
    let s = item_change_wire(change) + rest;
    match change {
        None => {
            assert(s[0] == 0);
        },
        Some(item) => {
            assert(s[0] == 1);
            let index = item.spec_index() as nat;
            assert(s.skip(1) =~= varint_bytes(index) + rest);
            lemma_capacity_values();
            lemma_parse_varint_bytes(index, rest, 5, 15);
        },
    }
}

pub proof fn lemma_parse_actions_wire(actions: PlayerActions, rest: Seq<u8>)
    ensures
        parse_actions(actions_wire(actions) + rest) == Some(
            (actions, actions_wire(actions).len()),
        ),
{
    let bits = varint_bytes(actions.bits as nat);
    let yaw = le_bytes(actions.rotation.yaw as nat, 4);
    let pitch = le_bytes(actions.rotation.pitch as nat, 4);
    let item = item_change_wire(actions.item_change);
    let s = actions_wire(actions) + rest;
    lemma_capacity_values();
    lemma_byte_capacity_values();
    lemma_le_bytes_len(actions.rotation.yaw as nat, 4);
    lemma_le_bytes_len(actions.rotation.pitch as nat, 4);
    assert(s =~= bits + (yaw + pitch + item + rest));
    lemma_parse_varint_bytes(actions.bits as nat, yaw + pitch + item + rest, 3, 3);
    let angles = s.skip(bits.len() as int);
    assert(angles =~= yaw + pitch + item + rest);
    assert(angles.subrange(0, 4) =~= yaw);
    assert(angles.subrange(4, 8) =~= pitch);
    assert(angles.skip(8) =~= item + rest);
    lemma_le_value_of_bytes(actions.rotation.yaw as nat, 4);
    lemma_le_value_of_bytes(actions.rotation.pitch as nat, 4);
    lemma_parse_item_change_wire(actions.item_change, rest);
}

pub proof fn lemma_parse_match_id_wire(packet: MatchIDPacket, rest: Seq<u8>)
    ensures
        parse_match_id(match_id_wire(packet) + rest) == Some(packet),
{
    let id = varint_bytes(packet.id as nat);
    let index = varint_bytes(packet.player_index as nat);
    let s = match_id_wire(packet) + rest;
    lemma_capacity_values();
    assert(s =~= id + (index + rest));
    lemma_parse_varint_bytes(packet.id as nat, index + rest, 10, 1);
    assert(s.skip(id.len() as int) =~= index + rest);
    lemma_parse_varint_bytes(packet.player_index as nat, rest, 3, 3);
}

pub proof fn lemma_parse_handshake_wire(packet: HandshakePacket, rest: Seq<u8>)
    ensures
        parse_handshake(handshake_wire(packet) + rest) == Some(packet),
{
    lemma_capacity_values();
    lemma_parse_varint_bytes(packet.protocol_version as nat, rest, 5, 15);
}

pub proof fn lemma_parse_player_actions_wire(packet: PlayerActionsPacketView, rest: Seq<u8>)
    requires
        packet.action_hash.len() == HASH_LEN,
    ensures
        parse_player_actions(player_actions_wire(packet) + rest) == Some(packet),
{
    let actions = actions_wire(packet.prev_actions);
    let nonce = varint_bytes(packet.nonce as nat);
    let s = player_actions_wire(packet) + rest;
    lemma_capacity_values();
    assert(s =~= actions + (nonce + packet.action_hash + rest));
    lemma_parse_actions_wire(packet.prev_actions, nonce + packet.action_hash + rest);
    let after_actions = s.skip(actions.len() as int);
    assert(after_actions =~= nonce + (packet.action_hash + rest));
    lemma_parse_varint_bytes(packet.nonce as nat, packet.action_hash + rest, 19, 3);
    let hash = after_actions.skip(nonce.len() as int);
    assert(hash =~= packet.action_hash + rest);
    assert(hash.take(HASH_LEN as int) =~= packet.action_hash);
}

/// Reading back what was written: the payload of a packet, followed by any
/// bytes, parses to that packet.
pub proof fn lemma_parse_packet_wire(packet: PacketView, rest: Seq<u8>)
    requires
        packet_valid(packet),
    ensures
        parse_packet(packet_wire(packet) + rest) == Some(packet),
{
    let s = packet_wire(packet) + rest;
    lemma_capacity_values();
    match packet {
        PacketView::MatchID(p) => {
            let tag = varint_bytes(TAG_MATCH_ID as nat);
            assert(s =~= tag + (match_id_wire(p) + rest));
            lemma_parse_varint_bytes(TAG_MATCH_ID as nat, match_id_wire(p) + rest, 5, 15);
            assert(s.skip(tag.len() as int) =~= match_id_wire(p) + rest);
            lemma_parse_match_id_wire(p, rest);
        },
        PacketView::Handshake(p) => {
            let tag = varint_bytes(TAG_HANDSHAKE as nat);
            assert(s =~= tag + (handshake_wire(p) + rest));
            lemma_parse_varint_bytes(TAG_HANDSHAKE as nat, handshake_wire(p) + rest, 5, 15);
            assert(s.skip(tag.len() as int) =~= handshake_wire(p) + rest);
            lemma_parse_handshake_wire(p, rest);
        },
        PacketView::PlayerActions(p) => {
            let tag = varint_bytes(TAG_PLAYER_ACTIONS as nat);
            assert(s =~= tag + (player_actions_wire(p) + rest));
            lemma_parse_varint_bytes(
                TAG_PLAYER_ACTIONS as nat,
                player_actions_wire(p) + rest,
                5,
                15,
            );
            assert(s.skip(tag.len() as int) =~= player_actions_wire(p) + rest);
            lemma_parse_player_actions_wire(p, rest);
        },
    }
}

fn push_item_change(buf: &mut Vec<u8>, change: Option<Item>)
    ensures
        final(buf)@ == old(buf)@ + item_change_wire(change),
{
    let ghost before = buf@;
    match change {
        None => {
            buf.push(0);
            assert(buf@ =~= before + item_change_wire(change));
        },
        Some(item) => {
            buf.push(1);
            push_wide_varint(buf, item.index() as u128);
            assert(buf@ =~= before + item_change_wire(change));
        },
    }
}

fn push_actions(buf: &mut Vec<u8>, actions: &PlayerActions)
    ensures
        final(buf)@ == old(buf)@ + actions_wire(*actions),
{
    let ghost before = buf@;
    push_wide_varint(buf, actions.bits as u128);
    push_le_bytes(buf, actions.rotation.yaw as u128, 4);
    push_le_bytes(buf, actions.rotation.pitch as u128, 4);
    push_item_change(buf, actions.item_change);
    assert(buf@ =~= before + actions_wire(*actions));
}

/// Writes an action as it travels on its own, without a packet around it.
pub fn encode_actions(actions: &PlayerActions) -> (bytes: Vec<u8>)
    ensures
        bytes@ == actions_wire(*actions),
        parse_actions(bytes@) == Some((*actions, bytes@.len())),
{
    let mut bytes: Vec<u8> = Vec::new();
    push_actions(&mut bytes, actions);
    proof {
        lemma_parse_actions_wire(*actions, Seq::empty());
        assert(actions_wire(*actions) + Seq::<u8>::empty() =~= actions_wire(*actions));
        assert(bytes@ =~= actions_wire(*actions));
    }
    bytes
}

/// Reads an action that travels on its own. Bytes after the action's last
/// field are not looked at.
pub fn decode_actions(data: &[u8]) -> (r: Result<PlayerActions, DecodeError>)
    ensures
        r == match parse_actions(data@) {
            Some((actions, _)) => Ok::<PlayerActions, DecodeError>(actions),
            None => Err(DecodeError::Deserialize),
        },
{
    assert(data@.skip(0) =~= data@);
    match take_actions(data, 0) {
        Some((actions, _)) => Ok(actions),
        None => Err(DecodeError::Deserialize),
    }
}

/// Writes the payload that carries `packet`.
pub fn encode_packet(packet: &Packet) -> (payload: Vec<u8>)
    ensures
        payload@ == packet_wire(packet@),
{
    let mut payload: Vec<u8> = Vec::new();
    match packet {
        Packet::MatchID(p) => {
            push_wide_varint(&mut payload, TAG_MATCH_ID as u128);
            push_wide_varint(&mut payload, p.id as u128);
            push_wide_varint(&mut payload, p.player_index as u128);
            assert(payload@ =~= packet_wire(packet@));
        },
        Packet::Handshake(p) => {
            push_wide_varint(&mut payload, TAG_HANDSHAKE as u128);
            push_wide_varint(&mut payload, p.protocol_version as u128);
            assert(payload@ =~= packet_wire(packet@));
        },
        Packet::PlayerActions(p) => {
            push_wide_varint(&mut payload, TAG_PLAYER_ACTIONS as u128);
            push_actions(&mut payload, &p.prev_actions);
            push_wide_varint(&mut payload, p.nonce as u128);
            let ghost before = payload@;
            let mut i: usize = 0;
            while i < HASH_LEN
                invariant
                    i <= HASH_LEN,
                    payload@ == before + p.action_hash@.take(i as int),
                decreases HASH_LEN - i,
            {
                payload.push(p.action_hash[i]);
                assert(payload@ =~= before + p.action_hash@.take(i + 1));
                i += 1;
            }
            assert(p.action_hash@.take(HASH_LEN as int) =~= p.action_hash@);
            assert(payload@ =~= packet_wire(packet@));
        },
    }
    payload
}

fn take_item_change(data: &[u8], pos: usize) -> (r: Option<(Option<Item>, usize)>)
    requires
        pos <= data@.len(),
    ensures
        r == match parse_item_change(data@.skip(pos as int)) {
            Some((change, len)) => Some((change, len as usize)),
            None => None,
        },
        r matches Some((_, len)) ==> pos + len <= data@.len(),
{
    let total: usize = data.len();
    let ghost s = data@.skip(pos as int);
    if pos >= data.len() {
        return None;
    }
    let marker: u8 = data[pos];
    assert(s[0] == marker);
    if marker == 0 {
        Some((None, 1))
    } else if marker == 1 {
        proof {
            assert(s.skip(1) =~= data@.skip(pos + 1));
            lemma_capacity_values();
            lemma_parse_varint_bounds(s.skip(1), 5, 15);
        }
        match take_varint(data, pos + 1, Width::U32) {
            VarintRead::Value { value, len } => {
                if value > 5 {
                    return None;
                }
                match Item::from_index(value as u8) {
                    Some(item) => Some((Some(item), len + 1)),
                    None => None,
                }
            },
            _ => None,
        }
    } else {
        None
    }
}

fn take_actions(data: &[u8], pos: usize) -> (r: Option<(PlayerActions, usize)>)
    requires
        pos <= data@.len(),
    ensures
        r == match parse_actions(data@.skip(pos as int)) {
            Some((actions, len)) => Some((actions, len as usize)),
            None => None,
        },
        r matches Some((_, len)) ==> pos + len <= data@.len(),
{
    let total: usize = data.len();
    let ghost s = data@.skip(pos as int);
    proof {
        lemma_capacity_values();
        lemma_byte_capacity_values();
        lemma_parse_varint_bounds(s, 3, 3);
    }
    let (bits, len) = match take_varint(data, pos, Width::U16) {
        VarintRead::Value { value, len } => (value as u16, len),
        _ => { return None; },
    };
    let at: usize = pos + len;
    let ghost angles = s.skip(len as int);
    assert(angles =~= data@.skip(at as int));
    if data.len() - at < 8 {
        return None;
    }
    let yaw = match take_le_bytes(data, at, 4) {
        Some(value) => value as u32,
        None => { return None; },
    };
    let pitch = match take_le_bytes(data, at + 4, 4) {
        Some(value) => value as u32,
        None => { return None; },
    };
    assert(angles.subrange(0, 4) =~= data@.subrange(at as int, at + 4));
    assert(angles.subrange(4, 8) =~= data@.subrange(at + 4, at + 8));
    assert(angles.skip(8) =~= data@.skip(at + 8));
    proof {
        lemma_parse_item_change_len(angles.skip(8));
    }
    match take_item_change(data, at + 8) {
        Some((item_change, item_len)) => Some(
            (
                PlayerActions { bits, rotation: Rotation { yaw, pitch }, item_change },
                len + 8 + item_len,
            ),
        ),
        None => None,
    }
}

fn take_hash(data: &[u8], pos: usize) -> (r: Option<[u8; 32]>)
    requires
        pos <= data@.len(),
    ensures
        match r {
            Some(hash) => data@.len() - pos >= HASH_LEN && hash@ == data@.skip(pos as int).take(
                HASH_LEN as int,
            ),
            None => data@.len() - pos < HASH_LEN,
        },
{
    if data.len() - pos < HASH_LEN {
        return None;
    }
    let mut hash: [u8; 32] = [0u8; 32];
    let mut i: usize = 0;
    while i < HASH_LEN
        invariant
            i <= HASH_LEN,
            pos + HASH_LEN <= data@.len() <= usize::MAX,
            forall|j: int| 0 <= j < i ==> hash@[j] == data@[pos + j],
        decreases HASH_LEN - i,
    {
        hash[i] = data[pos + i];
        i += 1;
    }
    assert(hash@ =~= data@.skip(pos as int).take(HASH_LEN as int));
    Some(hash)
}

fn take_match_id(data: &[u8], pos: usize) -> (r: Option<MatchIDPacket>)
    requires
        pos <= data@.len(),
    ensures
        r == parse_match_id(data@.skip(pos as int)),
{
    let total: usize = data.len();
    let ghost s = data@.skip(pos as int);
    proof {
        lemma_capacity_values();
        lemma_parse_varint_bounds(s, 10, 1);
    }
    let (id, len) = match take_varint(data, pos, Width::U64) {
        VarintRead::Value { value, len } => (value as u64, len),
        _ => { return None; },
    };
    proof {
        assert(s.skip(len as int) =~= data@.skip(pos + len));
        lemma_parse_varint_bounds(s.skip(len as int), 3, 3);
    }
    match take_varint(data, pos + len, Width::U16) {
        VarintRead::Value { value, len: _ } => Some(
            MatchIDPacket { id, player_index: value as u16 },
        ),
        _ => None,
    }
}

fn take_handshake(data: &[u8], pos: usize) -> (r: Option<HandshakePacket>)
    requires
        pos <= data@.len(),
    ensures
        r == parse_handshake(data@.skip(pos as int)),
{
    proof {
        lemma_capacity_values();
        lemma_parse_varint_bounds(data@.skip(pos as int), 5, 15);
    }
    match take_varint(data, pos, Width::U32) {
        VarintRead::Value { value, len: _ } => Some(
            HandshakePacket { protocol_version: value as u32 },
        ),
        _ => None,
    }
}

fn take_player_actions(data: &[u8], pos: usize) -> (r: Option<PlayerActionsPacket>)
    requires
        pos <= data@.len(),
    ensures
        match parse_player_actions(data@.skip(pos as int)) {
            Some(view) => r matches Some(packet) && packet@ == view,
            None => r is None,
        },
{
    let total: usize = data.len();
    let ghost s = data@.skip(pos as int);
    let (prev_actions, actions_len) = match take_actions(data, pos) {
        Some(found) => found,
        None => { return None; },
    };
    let at: usize = pos + actions_len;
    proof {
        lemma_parse_actions_len(s);
        lemma_capacity_values();
        assert(s.skip(actions_len as int) =~= data@.skip(at as int));
        lemma_parse_varint_bounds(data@.skip(at as int), 19, 3);
    }
    let (nonce, len) = match take_varint(data, at, Width::U128) {
        VarintRead::Value { value, len } => (value, len),
        _ => { return None; },
    };
    assert(s.skip(actions_len as int).skip(len as int) =~= data@.skip(at + len));
    match take_hash(data, at + len) {
        Some(action_hash) => Some(PlayerActionsPacket { prev_actions, nonce, action_hash }),
        None => None,
    }
}

/// Reads the packet that the payload `data` carries.
pub fn decode_packet(data: &[u8]) -> (r: Result<Packet, DecodeError>)
    ensures
        match parse_packet(data@) {
            Some(view) => r matches Ok(packet) && packet@ == view,
            None => r == Err::<Packet, DecodeError>(DecodeError::Deserialize),
        },
{
    proof {
        lemma_capacity_values();
        assert(data@.skip(0) =~= data@);
        lemma_parse_varint_bounds(data@, 5, 15);
    }
    let (tag, len) = match take_varint(data, 0, Width::U32) {
        VarintRead::Value { value, len } => (value as u32, len),
        _ => { return Err(DecodeError::Deserialize); },
    };
    if tag == TAG_MATCH_ID {
        match take_match_id(data, len) {
            Some(packet) => Ok(Packet::MatchID(Box::new(packet))),
            None => Err(DecodeError::Deserialize),
        }
    } else if tag == TAG_HANDSHAKE {
        match take_handshake(data, len) {
            Some(packet) => Ok(Packet::Handshake(packet)),
            None => Err(DecodeError::Deserialize),
        }
    } else if tag == TAG_PLAYER_ACTIONS {
        match take_player_actions(data, len) {
            Some(packet) => Ok(Packet::PlayerActions(Box::new(packet))),
            None => Err(DecodeError::Deserialize),
        }
    } else {
        Err(DecodeError::Deserialize)
    }
}

} // verus!
