//! The pairing server: connections arrive one by one and are matched two
//! at a time. The server holds at most one connection that waits.

use crate::codec::PacketCodec;
use crate::frames::parse_frames;
use crate::packets::{packet_views, MatchIDPacket, Packet, PacketView};
use crate::trusted::random_u64;
use vstd::prelude::*;

verus! {

/// The protocol version that this library speaks.
pub const GAME_VERSION: u32 = 1;

/// Why the server turns a connection away.
#[derive(Clone, Copy, Debug, PartialEq, Eq, Structural)]
pub enum PairingError {
    /// The client announced another protocol version than the server's.
    VersionMismatch,
    /// The client's first message is not one whole version announcement.
    MalformedHandshake,
}

impl PairingError {
    /// A short description for logs and messages.
    pub fn message(&self) -> (text: &'static str)
        ensures
            text@ == match *self {
                PairingError::VersionMismatch => "Version mismatch"@,
                PairingError::MalformedHandshake => "Unexpected message"@,
            },
    {
        match self {
            PairingError::VersionMismatch => "Version mismatch",
            PairingError::MalformedHandshake => "Unexpected message",
        }
    }
}

/// Two connections matched into a session, each with the packet that
/// tells it the session and its index.
pub struct Match<T> {
    /// The connection that waited.
    pub first: T,
    /// Its assignment: index 0.
    pub first_packet: MatchIDPacket,
    /// The connection that arrived second.
    pub second: T,
    /// Its assignment: index 1.
    pub second_packet: MatchIDPacket,
}

/// The match of `waiting` and `arrival` in the session `id`.
pub open spec fn matched<T>(waiting: T, arrival: T, id: u64) -> Match<T> {
    Match {
        first: waiting,
        first_packet: MatchIDPacket { id, player_index: 0 },
        second: arrival,
        second_packet: MatchIDPacket { id, player_index: 1 },
    }
}

/// What an arrival does to the waiting slot: the slot afterwards, and the
/// match if one was made. An arrival at an empty slot waits there. An
/// arrival at a taken slot is matched with the one that waits, under `id`,
/// and the slot is empty again.
pub open spec fn arrival<T>(slot: Option<T>, socket: T, id: u64) -> (Option<T>, Option<Match<T>>) {
    match slot {
        None => (Some(socket), None),
        Some(waiting) => (None, Some(matched(waiting, socket, id))),
    }
}

/// What the client's first message says of its version.
pub open spec fn handshake_verdict(data: Seq<u8>, version: u32) -> Result<(), PairingError> {
    match parse_frames(None, data) {
        Ok(frames) => if frames.packets.len() == 1 && frames.rest.len() == 0 {
            match frames.packets[0] {
                PacketView::Handshake(h) => if h.protocol_version == version {
                    Ok(())
                } else {
                    Err(PairingError::VersionMismatch)
                },
                _ => Err(PairingError::MalformedHandshake),
            }
        } else {
            Err(PairingError::MalformedHandshake)
        },
        Err(_) => Err(PairingError::MalformedHandshake),
    }
}

/// Checks the client's first message: it must hold exactly one frame, that
/// frame must carry a version announcement, and the version must be
/// `version`.
pub fn check_handshake(data: &[u8], version: u32) -> (r: Result<(), PairingError>)
    ensures
        r == handshake_verdict(data@, version),
{
    let mut codec = PacketCodec::new();
    assert(Seq::<u8>::empty() + data@ =~= data@);
    let packets = match codec.read(data) {
        Ok(packets) => packets,
        Err(_) => {
            return Err(PairingError::MalformedHandshake);
        },
    };
    if packets.len() != 1 || codec.buffered_len() != 0 {
        return Err(PairingError::MalformedHandshake);
    }
    assert(packet_views(packets@)[0] == packets@[0]@);
    match &packets[0] {
        Packet::Handshake(h) => {
            if h.protocol_version == version {
                Ok(())
            } else {
                Err(PairingError::VersionMismatch)
            }
        },
        _ => Err(PairingError::MalformedHandshake),
    }
}

/// The pairing server's state: the connection that waits, if any.
pub struct GameServer<T> {
    queue: Option<T>,
}

impl<T> GameServer<T> {
    /// The connection that waits.
    pub closed spec fn waiting(&self) -> Option<T> {
        self.queue
    }

    /// A server with nobody waiting.
    pub fn new() -> (server: GameServer<T>)
        ensures
            server.waiting() is None,
    {
        GameServer { queue: None }
    }

    /// Whether a connection waits.
    pub fn is_waiting(&self) -> (waiting: bool)
        ensures
            waiting == self.waiting().is_some(),
    {
        self.queue.is_some()
    }

    /// Takes in a connection whose handshake was accepted, with `id` as
    /// the session identifier in case it completes a pair.
    pub fn pair_with_id(&mut self, socket: T, id: u64) -> (made: Option<Match<T>>)
        ensures
            (final(self).waiting(), made) == arrival(old(self).waiting(), socket, id),
    {
        match self.queue.take() {
            None => {
                self.queue = Some(socket);
                None
            },
            Some(waiting) => Some(
                Match {
                    first: waiting,
                    first_packet: MatchIDPacket { id, player_index: 0 },
                    second: socket,
                    second_packet: MatchIDPacket { id, player_index: 1 },
                },
            ),
        }
    }

    /// Takes in a connection whose handshake was accepted. Where it
    /// completes a pair, the session identifier is a fresh random number.
    pub fn pair(&mut self, socket: T) -> (made: Option<Match<T>>)
        ensures
            exists|id: u64|
                (final(self).waiting(), made) == #[trigger] arrival(
                    old(self).waiting(),
                    socket,
                    id,
                ),
    {
        if self.queue.is_some() {
            let id = random_u64();
            let made = self.pair_with_id(socket, id);
            assert((self.waiting(), made) == arrival(old(self).waiting(), socket, id));
            made
        } else {
            let made = self.pair_with_id(socket, 0);
            assert((self.waiting(), made) == arrival(old(self).waiting(), socket, 0));
            made
        }
    }

    /// Takes the waiting connection out of the slot, as when it has
    /// disconnected.
    pub fn leave(&mut self) -> (left: Option<T>)
        ensures
            left == old(self).waiting(),
            final(self).waiting() is None,
    {
        self.queue.take()
    }
}

/// Pairing determinism: where a connection arrives at an empty slot and
/// another arrives after it, the two are matched in one session, the first
/// with index 0 and the second with index 1, and the slot is empty again.
/// The identifier offered with the first arrival plays no part.
pub proof fn lemma_pairing_order<T>(a: T, b: T, unused: u64, id: u64)
    ensures
        arrival::<T>(None, a, unused) == (Some(a), None::<Match<T>>),
        arrival(arrival::<T>(None, a, unused).0, b, id) == (None::<T>, Some(matched(a, b, id))),
        matched(a, b, id).first == a,
        matched(a, b, id).first_packet.player_index == 0,
        matched(a, b, id).second == b,
        matched(a, b, id).second_packet.player_index == 1,
        matched(a, b, id).first_packet.id == matched(a, b, id).second_packet.id,
{
}

/// The slot never holds a connection that was matched: after a match it is
/// empty, whoever waited.
pub proof fn lemma_match_empties_slot<T>(slot: Option<T>, socket: T, id: u64)
    ensures
        arrival(slot, socket, id).1 is Some <==> slot is Some,
        arrival(slot, socket, id).1 is Some ==> arrival(slot, socket, id).0 is None,
        arrival(slot, socket, id).1 is None ==> arrival(slot, socket, id).0 == Some(socket),
{
}

} // verus!
