//! A peer's side of the session handshake: the server's assignment comes
//! first, the peer answers with its protocol version, and the opponent's
//! version announcement completes the connection.

use crate::codec::{after_read, after_write, read_packets, PacketCodec};
use crate::error::DecodeError;
use crate::frames::{frame_of, parse_frames, Frames};
use crate::packets::{packet_views, HandshakePacket, Packet, PacketView};
use crate::server::GAME_VERSION;
use vstd::prelude::*;

verus! {

/// Why a connection was not established.
#[derive(Clone, Copy, Debug, PartialEq, Eq, Structural)]
pub enum ConnectError {
    /// The first packet is not the server's assignment.
    ExpectedMatchID,
    /// The assignment names a player index other than 0 and 1.
    BadPlayerIndex,
    /// The packet after the assignment is not a version announcement.
    ExpectedHandshake,
    /// The received bytes could not be decoded.
    Decode(DecodeError),
}

impl ConnectError {
    /// A short description for logs and messages.
    pub fn message(&self) -> (text: &'static str)
        ensures
            text@ == match *self {
                ConnectError::ExpectedMatchID => "Expected MatchID packet"@,
                ConnectError::BadPlayerIndex => "Player index out of range"@,
                ConnectError::ExpectedHandshake => "Expected Handshake packet"@,
                ConnectError::Decode(e) => e.spec_message(),
            },
    {
        match self {
            ConnectError::ExpectedMatchID => "Expected MatchID packet",
            ConnectError::BadPlayerIndex => "Player index out of range",
            ConnectError::ExpectedHandshake => "Expected Handshake packet",
            ConnectError::Decode(e) => e.message(),
        }
    }
}

/// How far the handshake has come.
#[derive(Clone, Copy, Debug, PartialEq, Eq, Structural)]
pub enum ConnectStage {
    /// Nothing has arrived yet.
    AwaitingMatchID,
    /// The assignment is in and the own announcement is out.
    AwaitingHandshake { match_id: u64, player_index: u16 },
    /// The opponent's announcement is in.
    Established { match_id: u64, player_index: u16, peer_version: u32 },
}

/// The announcement that a peer answers the assignment with.
pub open spec fn own_handshake() -> PacketView {
    PacketView::Handshake(HandshakePacket { protocol_version: GAME_VERSION })
}

/// One packet's part in the handshake: the stage after it, and the packet
/// to send in answer, if any. Once the connection is established packets
/// are no longer the handshake's.
pub open spec fn connect_step(stage: ConnectStage, packet: PacketView) -> Result<
    (ConnectStage, Option<PacketView>),
    ConnectError,
> {
    match stage {
        ConnectStage::AwaitingMatchID => match packet {
            PacketView::MatchID(m) => if m.player_index <= 1 {
                Ok(
                    (
                        ConnectStage::AwaitingHandshake {
                            match_id: m.id,
                            player_index: m.player_index,
                        },
                        Some(own_handshake()),
                    ),
                )
            } else {
                Err(ConnectError::BadPlayerIndex)
            },
            _ => Err(ConnectError::ExpectedMatchID),
        },
        ConnectStage::AwaitingHandshake { match_id, player_index } => match packet {
            PacketView::Handshake(h) => Ok(
                (
                    ConnectStage::Established {
                        match_id,
                        player_index,
                        peer_version: h.protocol_version,
                    },
                    None,
                ),
            ),
            _ => Err(ConnectError::ExpectedHandshake),
        },
        ConnectStage::Established { .. } => Ok((stage, None)),
    }
}

/// The optional answer as a sequence.
pub open spec fn answer_seq(answer: Option<PacketView>) -> Seq<PacketView> {
    match answer {
        Some(packet) => seq![packet],
        None => Seq::empty(),
    }
}

/// The part of several packets, one after the other: the stage after the
/// last, and the answers in order. The first error is the result.
pub open spec fn connect_steps(stage: ConnectStage, packets: Seq<PacketView>) -> Result<
    (ConnectStage, Seq<PacketView>),
    ConnectError,
>
    decreases packets.len(),
{
    if packets.len() == 0 {
        Ok((stage, Seq::empty()))
    } else {
        match connect_steps(stage, packets.drop_last()) {
            Err(e) => Err(e),
            Ok((before, answers)) => match connect_step(before, packets.last()) {
                Err(e) => Err(e),
                Ok((after, answer)) => Ok((after, answers + answer_seq(answer))),
            },
        }
    }
}

impl ConnectStage {
    /// Whether the handshake is complete.
    pub fn is_established(&self) -> (done: bool)
        ensures
            done == (*self is Established),
    {
        match self {
            ConnectStage::Established { .. } => true,
            _ => false,
        }
    }

    /// Takes one packet of the handshake.
    pub fn on_packet(self, packet: &Packet) -> (r: Result<
        (ConnectStage, Option<Packet>),
        ConnectError,
    >)
        ensures
            match connect_step(self, packet@) {
                Ok((stage, answer)) => {
                    &&& r matches Ok((after, reply))
                    &&& after == stage
                    &&& match answer {
                        Some(view) => reply matches Some(sent) && sent@ == view,
                        None => reply is None,
                    }
                },
                Err(e) => r == Err::<(ConnectStage, Option<Packet>), ConnectError>(e),
            },
    {
        match self {
            ConnectStage::AwaitingMatchID => match packet {
                Packet::MatchID(m) => {
                    if m.player_index <= 1 {
                        Ok(
                            (
                                ConnectStage::AwaitingHandshake {
                                    match_id: m.id,
                                    player_index: m.player_index,
                                },
                                Some(
                                    Packet::Handshake(
                                        HandshakePacket { protocol_version: GAME_VERSION },
                                    ),
                                ),
                            ),
                        )
                    } else {
                        Err(ConnectError::BadPlayerIndex)
                    }
                },
                _ => Err(ConnectError::ExpectedMatchID),
            },
            ConnectStage::AwaitingHandshake { match_id, player_index } => match packet {
                Packet::Handshake(h) => Ok(
                    (
                        ConnectStage::Established {
                            match_id,
                            player_index,
                            peer_version: h.protocol_version,
                        },
                        None,
                    ),
                ),
                _ => Err(ConnectError::ExpectedHandshake),
            },
            ConnectStage::Established { match_id, player_index, peer_version } => Ok((self, None)),
        }
    }

    /// Takes in what a read from the server's stream gave: decodes it and
    /// lets each packet play its part. The result is the stage reached and
    /// the packets to send in answer.
    pub fn on_data(self, codec: &mut PacketCodec, data: &[u8]) -> (r: Result<
        (ConnectStage, Vec<Packet>),
        ConnectError,
    >)
        ensures
            final(codec)@ == after_read(old(codec)@, data@),
            match read_packets(old(codec)@, data@) {
                Err(e) => r == Err::<(ConnectStage, Vec<Packet>), ConnectError>(
                    ConnectError::Decode(e),
                ),
                Ok(packets) => match connect_steps(self, packets) {
                    Err(e) => r == Err::<(ConnectStage, Vec<Packet>), ConnectError>(e),
                    Ok((stage, answers)) => {
                        &&& r matches Ok((after, replies))
                        &&& after == stage
                        &&& packet_views(replies@) == answers
                    },
                },
            },
    {
        let packets = match codec.read(data) {
            Ok(packets) => packets,
            Err(e) => {
                return Err(ConnectError::Decode(e));
            },
        };
        let ghost views = packet_views(packets@);
        let mut stage = self;
        let mut replies: Vec<Packet> = Vec::new();
        let mut i: usize = 0;
        assert(views.take(0) =~= Seq::<PacketView>::empty());
        assert(packet_views(replies@) =~= Seq::<PacketView>::empty());
        while i < packets.len()
            invariant
                i <= packets@.len(),
                views == packet_views(packets@),
                codec@ == after_read(old(codec)@, data@),
                read_packets(old(codec)@, data@) == Ok::<Seq<PacketView>, DecodeError>(views),
                connect_steps(self, views.take(i as int)) == Ok::<
                    (ConnectStage, Seq<PacketView>),
                    ConnectError,
                >((stage, packet_views(replies@))),
            decreases packets@.len() - i,
        {
            let ghost had = replies@;
            proof {
                let next = views.take(i + 1);
                assert(next.drop_last() =~= views.take(i as int));
                assert(next.last() == packets@[i as int]@);
                lemma_connect_steps_error(self, views, i + 1);
            }
            let (after, reply) = match stage.on_packet(&packets[i]) {
                Ok(step) => step,
                Err(e) => {
                    return Err(e);
                },
            };
            stage = after;
            match reply {
                Some(packet) => {
                    replies.push(packet);
                    assert(packet_views(replies@) =~= packet_views(had) + seq![packet@]);
                },
                None => {
                    assert(packet_views(replies@) =~= packet_views(had) + Seq::<
                        PacketView,
                    >::empty());
                },
            }
            i += 1;
        }
        assert(views.take(packets@.len() as int) =~= views);
        Ok((stage, replies))
    }
}

/// An error at one packet is the result for every longer sequence.
pub proof fn lemma_connect_steps_error(stage: ConnectStage, packets: Seq<PacketView>, k: int)
    requires
        0 <= k <= packets.len(),
    ensures
        connect_steps(stage, packets.take(k)) matches Err(e) ==> connect_steps(stage, packets)
            == Err::<(ConnectStage, Seq<PacketView>), ConnectError>(e),
    decreases packets.len() - k,
{
    if k < packets.len() {
        let next = packets.take(k + 1);
        assert(next.drop_last() =~= packets.take(k));
        lemma_connect_steps_error(stage, packets, k + 1);
    } else {
        assert(packets.take(k) =~= packets);
    }
}

/// An established connection to the opponent.
pub struct GameConnection {
    pub codec: PacketCodec,
    /// The identifier of the session.
    pub match_id: u64,
    /// The local player's index, 0 or 1.
    pub player_index: u16,
}

impl GameConnection {
    /// The connection that a completed handshake established, or nothing
    /// where the handshake is not complete.
    pub fn establish(codec: PacketCodec, stage: ConnectStage) -> (connection: Option<
        GameConnection,
    >)
        ensures
            connection == match stage {
                ConnectStage::Established { match_id, player_index, peer_version: _ } => Some(
                    GameConnection { codec, match_id, player_index },
                ),
                _ => None,
            },
    {
        match stage {
            ConnectStage::Established { match_id, player_index, peer_version: _ } => Some(
                GameConnection { codec, match_id, player_index },
            ),
            _ => None,
        }
    }

    pub fn match_id(&self) -> (id: u64)
        ensures
            id == self.match_id,
    {
        self.match_id
    }

    pub fn player_index(&self) -> (index: u16)
        ensures
            index == self.player_index,
    {
        self.player_index
    }

    /// The bytes to write to the stream for `packet`: one frame that
    /// carries it. The session stays what it is; the codec counts as used.
    pub fn send_packet(&mut self, packet: Packet) -> (bytes: Vec<u8>)
        ensures
            final(self).match_id == old(self).match_id,
            final(self).player_index == old(self).player_index,
            final(self).codec@ == after_write(old(self).codec@),
            frame_of(old(self).codec@.key, bytes@, packet@),
            parse_frames(old(self).codec@.key, bytes@) == Ok::<Frames, DecodeError>(
                Frames { packets: seq![packet@], rest: Seq::empty() },
            ),
    {
        self.codec.write(&packet)
    }
}

} // verus!
