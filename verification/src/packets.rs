//! The values that travel between the peers.

use crate::little_endian::{le_bytes, push_le_bytes};
use vstd::prelude::*;

verus! {

/// Sent by the pairing server to both peers of a new session.
#[derive(Clone, Copy, Debug, PartialEq, Eq, Structural)]
pub struct MatchIDPacket {
    /// The session identifier that both peers share.
    pub id: u64,
    /// 0 for the peer that waited, 1 for the peer that arrived second.
    pub player_index: u16,
}

/// A peer's announcement of the protocol version it speaks.
#[derive(Clone, Copy, Debug, PartialEq, Eq, Structural)]
pub struct HandshakePacket {
    pub protocol_version: u32,
}

/// What a player can hold.
#[derive(Clone, Copy, Debug, PartialEq, Eq, Hash, Structural)]
pub enum Item {
    Sword,
    Pickaxe,
    Bow,
    Arrow,
    Block,
    GoldenApple,
}

impl Item {
    /// The position of the item in the declaration order.
    pub open spec fn spec_index(self) -> u8 {
        match self {
            Item::Sword => 0,
            Item::Pickaxe => 1,
            Item::Bow => 2,
            Item::Arrow => 3,
            Item::Block => 4,
            Item::GoldenApple => 5,
        }
    }

    /// The item at a position, if there is one.
    pub open spec fn spec_from_index(index: nat) -> Option<Item> {
        if index == 0 {
            Some(Item::Sword)
        } else if index == 1 {
            Some(Item::Pickaxe)
        } else if index == 2 {
            Some(Item::Bow)
        } else if index == 3 {
            Some(Item::Arrow)
        } else if index == 4 {
            Some(Item::Block)
        } else if index == 5 {
            Some(Item::GoldenApple)
        } else {
            None
        }
    }

    #[verifier::when_used_as_spec(spec_index)]
    pub fn index(self) -> (i: u8)
        ensures
            i == self.spec_index(),
            Item::spec_from_index(i as nat) == Some(self),
    {
        match self {
            Item::Sword => 0,
            Item::Pickaxe => 1,
            Item::Bow => 2,
            Item::Arrow => 3,
            Item::Block => 4,
            Item::GoldenApple => 5,
        }
    }

    pub fn from_index(index: u8) -> (item: Option<Item>)
        ensures
            item == Item::spec_from_index(index as nat),
            item matches Some(it) ==> it.spec_index() == index,
    {
        match index {
            0 => Some(Item::Sword),
            1 => Some(Item::Pickaxe),
            2 => Some(Item::Bow),
            3 => Some(Item::Arrow),
            4 => Some(Item::Block),
            5 => Some(Item::GoldenApple),
            _ => None,
        }
    }
}

/// Where a player looks. Each angle is held as the bit pattern of a
/// single-precision number of radians.
#[derive(Clone, Copy, Debug, PartialEq, Eq, Structural)]
pub struct Rotation {
    pub yaw: u32,
    pub pitch: u32,
}

/// One player's input for one tick: the flags held, the look rotation, and
/// the item newly selected, if any.
#[derive(Clone, Copy, Debug, PartialEq, Eq, Structural)]
pub struct PlayerActions {
    pub bits: u16,
    pub rotation: Rotation,
    pub item_change: Option<Item>,
}

/// At most one hand-action flag is set in `bits`.
pub open spec fn hand_actions_exclusive(bits: u16) -> bool {
    let hand = bits & PlayerActions::HAND_ACTION_MASK;
    ||| hand == 0
    ||| hand == PlayerActions::ATTACK
    ||| hand == PlayerActions::USE_ITEM
    ||| hand == PlayerActions::PLACE_BLOCK
    ||| hand == PlayerActions::DIG_BLOCK
}

/// The first hand action that `flag` holds, in the order attack, use item,
/// place block, dig block; no flag where it holds none.
pub open spec fn first_hand_action(flag: u16) -> u16 {
    if flag & PlayerActions::ATTACK != 0 {
        PlayerActions::ATTACK
    } else if flag & PlayerActions::USE_ITEM != 0 {
        PlayerActions::USE_ITEM
    } else if flag & PlayerActions::PLACE_BLOCK != 0 {
        PlayerActions::PLACE_BLOCK
    } else if flag & PlayerActions::DIG_BLOCK != 0 {
        PlayerActions::DIG_BLOCK
    } else {
        0
    }
}

/// The flags after a checked set of `flag`. A flag that holds a hand action
/// is dropped whole when a hand action is already set. Otherwise the flag
/// is set, and of the hand actions that it holds only the first.
pub open spec fn checked_set_bits(bits: u16, flag: u16) -> u16 {
    let mask = PlayerActions::HAND_ACTION_MASK;
    if flag & mask != 0 && bits & mask != 0 {
        bits
    } else {
        bits | (flag & !mask) | first_hand_action(flag)
    }
}

/// The byte that says of no item change.
pub const NO_ITEM_CHANGE: u8 = 0xFF;

/// The byte that stands for an item change when an action is hashed: the
/// item's index, and for no change a byte that no item has.
pub open spec fn item_change_byte(change: Option<Item>) -> u8 {
    match change {
        Some(item) => item.spec_index(),
        None => NO_ITEM_CHANGE,
    }
}

impl PlayerActions {
    pub const MOVE_FORWARD: u16 = 0x0001;

    pub const MOVE_BACKWARD: u16 = 0x0002;

    pub const MOVE_LEFT: u16 = 0x0004;

    pub const MOVE_RIGHT: u16 = 0x0008;

    pub const JUMP: u16 = 0x0010;

    pub const ATTACK: u16 = 0x0020;

    pub const USE_ITEM: u16 = 0x0040;

    pub const PLACE_BLOCK: u16 = 0x0080;

    pub const DIG_BLOCK: u16 = 0x0100;

    /// The four hand actions, of which a tick holds at most one.
    pub const HAND_ACTION_MASK: u16 = 0x01E0;

    /// The fixed layout over which an action is hashed: the flags in two
    /// bytes, yaw and pitch in four bytes each, all least significant byte
    /// first, then the item byte. Different actions have different bytes.
    pub open spec fn spec_bytes(self) -> Seq<u8> {
        le_bytes(self.bits as nat, 2) + le_bytes(self.rotation.yaw as nat, 4) + le_bytes(
            self.rotation.pitch as nat,
            4,
        ) + seq![item_change_byte(self.item_change)]
    }

    /// At most one hand action is set.
    pub open spec fn well_formed(self) -> bool {
        hand_actions_exclusive(self.bits)
    }

    /// The bytes over which the action is hashed.
    pub fn as_bytes(self) -> (bytes: Vec<u8>)
        ensures
            bytes@ == self.spec_bytes(),
    {
        let mut bytes: Vec<u8> = Vec::new();
        push_le_bytes(&mut bytes, self.bits as u128, 2);
        push_le_bytes(&mut bytes, self.rotation.yaw as u128, 4);
        push_le_bytes(&mut bytes, self.rotation.pitch as u128, 4);
        bytes.push(
            match self.item_change {
                Some(item) => item.index(),
                None => NO_ITEM_CHANGE,
            },
        );
        bytes
    }

    pub fn is_set(&self, flag: u16) -> (set: bool)
        ensures
            set == (self.bits & flag != 0),
    {
        self.bits & flag != 0
    }

    pub fn set(&mut self, flag: u16)
        ensures
            *final(self) == (PlayerActions { bits: old(self).bits | flag, ..*old(self) }),
    {
        self.bits |= flag;
    }

    /// Sets `flag` unless it holds a hand action while a hand action is
    /// already set: the first hand action of a tick wins. Of a flag that
    /// holds several hand actions only the first is set. An action with at
    /// most one hand action has at most one afterwards, whatever the flag.
    pub fn checked_set(&mut self, flag: u16)
        ensures
            *final(self) == (PlayerActions {
                bits: checked_set_bits(old(self).bits, flag),
                ..*old(self)
            }),
            old(self).well_formed() ==> final(self).well_formed(),
    {
        proof {
            lemma_checked_set_exclusive(self.bits, flag);
        }
        if flag & Self::HAND_ACTION_MASK != 0 && self.bits & Self::HAND_ACTION_MASK != 0 {
            return ;
        }
        let hand: u16 = if flag & Self::ATTACK != 0 {
            Self::ATTACK
        } else if flag & Self::USE_ITEM != 0 {
            Self::USE_ITEM
        } else if flag & Self::PLACE_BLOCK != 0 {
            Self::PLACE_BLOCK
        } else if flag & Self::DIG_BLOCK != 0 {
            Self::DIG_BLOCK
        } else {
            0
        };
        self.set((flag & !Self::HAND_ACTION_MASK) | hand);
        proof {
            let bits = old(self).bits;
            let rest = flag & !Self::HAND_ACTION_MASK;
            assert(bits | (rest | hand) == bits | rest | hand) by (bit_vector);
        }
    }

    pub fn unset(&mut self, flag: u16)
        ensures
            *final(self) == (PlayerActions { bits: old(self).bits & !flag, ..*old(self) }),
    {
        self.bits &= !flag;
    }
}

impl Default for PlayerActions {
    fn default() -> (actions: PlayerActions)
        ensures
            actions == (PlayerActions {
                bits: 0,
                rotation: Rotation { yaw: 0, pitch: 0 },
                item_change: None,
            }),
    {
        PlayerActions { bits: 0, rotation: Rotation { yaw: 0, pitch: 0 }, item_change: None }
    }
}

/// A checked set never leaves two hand actions behind: from flags with at
/// most one hand action, a checked set of any flag gives flags with at most
/// one hand action.
pub proof fn lemma_checked_set_exclusive(bits: u16, flag: u16)
    ensures
        hand_actions_exclusive(bits) ==> hand_actions_exclusive(checked_set_bits(bits, flag)),
{
    assert(hand_actions_exclusive(bits) ==> hand_actions_exclusive(checked_set_bits(bits, flag)))
        by (bit_vector);
}

/// A checked set of a flag with at most one hand action, on flags without
/// a hand action, sets the flag as it is.
pub proof fn lemma_checked_set_single(bits: u16, flag: u16)
    requires
        hand_actions_exclusive(flag),
        bits & PlayerActions::HAND_ACTION_MASK == 0,
    ensures
        checked_set_bits(bits, flag) == bits | flag,
{
    assert(hand_actions_exclusive(flag) && bits & PlayerActions::HAND_ACTION_MASK == 0
        ==> checked_set_bits(bits, flag) == bits | flag) by (bit_vector);
}

/// With a hand action already set, a checked set of a flag that holds a
/// hand action changes nothing.
pub proof fn lemma_checked_set_second_hand_action(bits: u16, flag: u16)
    requires
        bits & PlayerActions::HAND_ACTION_MASK != 0,
        flag & PlayerActions::HAND_ACTION_MASK != 0,
    ensures
        checked_set_bits(bits, flag) == bits,
{
}

/// One tick's message: the reveal of the sender's action for the tick that
/// has ended, and the commitment to its next one.
#[derive(Clone, Copy, Debug, PartialEq, Eq)]
pub struct PlayerActionsPacket {
    /// The action that the sender committed to one tick ago.
    pub prev_actions: PlayerActions,
    /// The nonce of that commitment.
    pub nonce: u128,
    /// The commitment to the sender's next action.
    pub action_hash: [u8; 32],
}

/// A `PlayerActionsPacket` as a value: the hash as the sequence of its 32
/// bytes.
pub struct PlayerActionsPacketView {
    pub prev_actions: PlayerActions,
    pub nonce: u128,
    pub action_hash: Seq<u8>,
}

impl View for PlayerActionsPacket {
    type V = PlayerActionsPacketView;

    open spec fn view(&self) -> PlayerActionsPacketView {
        PlayerActionsPacketView {
            prev_actions: self.prev_actions,
            nonce: self.nonce,
            action_hash: self.action_hash@,
        }
    }
}

/// Everything that travels in a frame.
#[derive(Debug, PartialEq, Eq)]
pub enum Packet {
    MatchID(Box<MatchIDPacket>),
    Handshake(HandshakePacket),
    PlayerActions(Box<PlayerActionsPacket>),
}

/// A `Packet` as a value.
pub enum PacketView {
    MatchID(MatchIDPacket),
    Handshake(HandshakePacket),
    PlayerActions(PlayerActionsPacketView),
}

impl View for Packet {
    type V = PacketView;

    open spec fn view(&self) -> PacketView {
        match self {
            Packet::MatchID(packet) => PacketView::MatchID(**packet),
            Packet::Handshake(packet) => PacketView::Handshake(*packet),
            Packet::PlayerActions(packet) => PacketView::PlayerActions((**packet)@),
        }
    }
}

/// The values of a sequence of packets.
pub open spec fn packet_views(packets: Seq<Packet>) -> Seq<PacketView> {
    Seq::new(packets.len(), |i: int| packets[i]@)
}

impl Clone for Packet {
    fn clone(&self) -> (copy: Packet)
        ensures
            copy == *self,
    {
        match self {
            Packet::MatchID(packet) => Packet::MatchID(Box::new(**packet)),
            Packet::Handshake(packet) => Packet::Handshake(*packet),
            Packet::PlayerActions(packet) => Packet::PlayerActions(Box::new(**packet)),
        }
    }
}

} // verus!
