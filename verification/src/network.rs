//! The lockstep synchronizer. Each tick a peer sends one message that
//! reveals the action it committed to one tick ago and commits, by hash
//! only, to the action it has just decided. The opponent's reveal is held
//! against the opponent's commitment of the tick before.

use crate::codec::{after_read, read_packets, PacketCodec};
use crate::commit::{commit, commitment, opens};
use crate::control::{
    end_of_tick, no_actions, take_tick_input, with_messages, ControlMsgC2S, ControlMsgS2C,
};
use crate::packets::{
    packet_views, Packet, PacketView, PlayerActions, PlayerActionsPacket, PlayerActionsPacketView,
};
use crate::trusted::random_u128;
use vstd::prelude::*;

verus! {

/// The local player's action that the simulation of a tick uses.
#[derive(Clone, Copy, Debug, PartialEq, Eq, Structural)]
pub struct PlayerActionsTracker(pub PlayerActions);

/// The opponent's action that the simulation of a tick uses.
#[derive(Clone, Copy, Debug, PartialEq, Eq, Structural)]
pub struct OpponentActionsTracker(pub PlayerActions);

/// A packet that has arrived and waits to be looked at.
#[derive(Debug, PartialEq, Eq)]
pub struct PacketEvent(pub Packet);

impl Clone for PacketEvent {
    fn clone(&self) -> (copy: PacketEvent)
        ensures
            copy == *self,
    {
        PacketEvent(self.0.clone())
    }
}

/// The values of a queue of arrived packets.
pub open spec fn event_views(events: Seq<PacketEvent>) -> Seq<PacketView> {
    Seq::new(events.len(), |i: int| events[i].0@)
}

/// Where a peer stands within a tick.
#[derive(Clone, Copy, Debug, PartialEq, Eq, Structural)]
pub enum NetworkPhase {
    /// The tick has not been announced to the input process yet.
    StartingTick,
    /// The input process is collecting the local action.
    AwaitingAction,
    /// The local message is out; the opponent's is awaited.
    AwaitingData,
}

/// How a match ended.
#[derive(Clone, Copy, Debug, PartialEq, Eq, Structural)]
pub enum MatchEnd {
    /// The simulation reported a result: the winner's index, or a draw.
    Finished { winner: Option<u16> },
    /// The stream closed, or could not be decoded.
    OpponentDisconnected,
    /// The opponent revealed something else than it had committed to.
    IntegrityFault,
}

/// The two ways in which the opponent ends a session.
#[derive(Clone, Copy, Debug, PartialEq, Eq, Structural)]
pub enum SyncError {
    /// The opponent's reveal does not open its commitment.
    SecurityFault,
    /// The opponent is gone.
    PeerDisconnected,
}

impl SyncError {
    /// A short description for logs and messages.
    pub fn message(&self) -> (text: &'static str)
        ensures
            text@ == match *self {
                SyncError::SecurityFault => "Opponent's previous actions hash does not match expected hash"@,
                SyncError::PeerDisconnected => "Opponent disconnected"@,
            },
    {
        match self {
            SyncError::SecurityFault => "Opponent's previous actions hash does not match expected hash",
            SyncError::PeerDisconnected => "Opponent disconnected",
        }
    }
}

/// What a peer does once its action for the new tick is decided: simulate
/// one tick on the two actions given, then send the packet.
#[derive(Clone, Copy, Debug, PartialEq, Eq)]
pub struct TickStep {
    pub actions: PlayerActionsTracker,
    pub opponent_actions: OpponentActionsTracker,
    pub packet: PlayerActionsPacket,
}

/// The state of a synchronizer, as a value.
pub struct SyncView {
    /// The number of exchanges completed.
    pub tick: u64,
    pub phase: NetworkPhase,
    /// The local action that is committed to and not yet revealed.
    pub prev_actions: PlayerActions,
    /// The nonce of that commitment.
    pub nonce: u128,
    /// The opponent's commitment that its next reveal must open.
    pub prev_hash: Seq<u8>,
    /// The opponent's action that was verified last.
    pub opponent_actions: PlayerActions,
    /// Set once the match is over; nothing changes after that.
    pub ended: Option<MatchEnd>,
}

/// A synchronizer at the start of a session.
pub open spec fn initial_sync() -> SyncView {
    SyncView {
        tick: 0,
        phase: NetworkPhase::StartingTick,
        prev_actions: no_actions(),
        nonce: 0,
        prev_hash: Seq::new(32, |i: int| 0u8),
        opponent_actions: no_actions(),
        ended: None,
    }
}

/// Whether the synchronizer is running and in `phase`.
pub open spec fn active_in(s: SyncView, phase: NetworkPhase) -> bool {
    s.ended is None && s.phase == phase
}

/// After the tick was announced to the input process.
pub open spec fn after_start(s: SyncView) -> SyncView {
    if active_in(s, NetworkPhase::StartingTick) {
        SyncView { phase: NetworkPhase::AwaitingAction, ..s }
    } else {
        s
    }
}

/// After the commitment to `actions` under `nonce` was sent.
pub open spec fn after_commit(s: SyncView, actions: PlayerActions, nonce: u128) -> SyncView {
    if active_in(s, NetworkPhase::AwaitingAction) {
        SyncView { phase: NetworkPhase::AwaitingData, prev_actions: actions, nonce, ..s }
    } else {
        s
    }
}

/// The message of a tick: the reveal of what was committed to before, and
/// the commitment to `actions` under `nonce`.
pub open spec fn tick_packet(s: SyncView, actions: PlayerActions, nonce: u128)
    -> PlayerActionsPacketView {
    PlayerActionsPacketView {
        prev_actions: s.prev_actions,
        nonce: s.nonce,
        action_hash: commitment(nonce, actions),
    }
}

/// Whether the opponent's message is to be believed: in the first exchange
/// there is no commitment to hold it against; later its reveal must open
/// the commitment of the message before.
pub open spec fn reveal_accepted(s: SyncView, packet: PlayerActionsPacketView) -> bool {
    s.tick == 0 || commitment(packet.nonce, packet.prev_actions) == s.prev_hash
}

/// After the opponent's message arrived. Outside `AwaitingData` it is not
/// looked at. A reveal that is accepted completes the exchange; one that
/// is not ends the match.
pub open spec fn after_packet(s: SyncView, packet: PlayerActionsPacketView) -> SyncView {
    if !active_in(s, NetworkPhase::AwaitingData) {
        s
    } else if reveal_accepted(s, packet) {
        SyncView {
            tick: (s.tick + 1) as u64,
            phase: NetworkPhase::StartingTick,
            opponent_actions: packet.prev_actions,
            prev_hash: packet.action_hash,
            ..s
        }
    } else {
        SyncView { ended: Some(MatchEnd::IntegrityFault), ..s }
    }
}

/// After the match ended for `reason`. The first end stands.
pub open spec fn after_end(s: SyncView, reason: MatchEnd) -> SyncView {
    if s.ended is None {
        SyncView { ended: Some(reason), ..s }
    } else {
        s
    }
}

/// The position of the first tick message among `events`, or their number
/// where there is none.
pub open spec fn first_tick_packet(events: Seq<PacketView>) -> nat
    decreases events.len(),
{
    if events.len() == 0 {
        0
    } else if events[0] is PlayerActions {
        0
    } else {
        1 + first_tick_packet(events.skip(1))
    }
}

pub proof fn lemma_first_tick_packet(events: Seq<PacketView>)
    ensures
        first_tick_packet(events) <= events.len(),
        first_tick_packet(events) < events.len() ==> events[first_tick_packet(events) as int]
            is PlayerActions,
        forall|i: int| 0 <= i < first_tick_packet(events) ==> !(events[i] is PlayerActions),
    decreases events.len(),
{
    if events.len() > 0 && !(events[0] is PlayerActions) {
        lemma_first_tick_packet(events.skip(1));
        assert forall|i: int| 0 <= i < first_tick_packet(events) implies !(events[i]
            is PlayerActions) by {
            if i > 0 {
                assert(events[i] == events.skip(1)[i - 1]);
            }
        }
    }
}

/// The seed of the game's random numbers: the low 64 bits of the two
/// peers' nonces combined, which neither peer chooses alone.
pub open spec fn seed_of(local_nonce: u128, remote_nonce: u128) -> u64 {
    ((local_nonce ^ remote_nonce) & 0xFFFF_FFFF_FFFF_FFFF) as u64
}

/// One peer's synchronizer.
pub struct NetworkState {
    tick: u64,
    phase: NetworkPhase,
    prev_actions: PlayerActions,
    nonce: u128,
    prev_hash: [u8; 32],
    opponent_actions: PlayerActions,
    ended: Option<MatchEnd>,
}

impl View for NetworkState {
    type V = SyncView;

    closed spec fn view(&self) -> SyncView {
        SyncView {
            tick: self.tick,
            phase: self.phase,
            prev_actions: self.prev_actions,
            nonce: self.nonce,
            prev_hash: self.prev_hash@,
            opponent_actions: self.opponent_actions,
            ended: self.ended,
        }
    }
}

impl NetworkState {
    /// A synchronizer at the start of a session.
    pub fn new() -> (state: NetworkState)
        ensures
            state@ == initial_sync(),
    {
        let state = NetworkState {
            tick: 0,
            phase: NetworkPhase::StartingTick,
            prev_actions: PlayerActions::default(),
            nonce: 0,
            prev_hash: [0u8; 32],
            opponent_actions: PlayerActions::default(),
            ended: None,
        };
        assert(state.prev_hash@ =~= Seq::new(32, |i: int| 0u8));
        state
    }

    /// The number of exchanges completed.
    pub fn tick(&self) -> (tick: u64)
        ensures
            tick == self@.tick,
    {
        self.tick
    }

    pub fn phase(&self) -> (phase: NetworkPhase)
        ensures
            phase == self@.phase,
    {
        self.phase
    }

    /// The opponent's action that was verified last.
    pub fn opponent_actions(&self) -> (actions: OpponentActionsTracker)
        ensures
            actions.0 == self@.opponent_actions,
    {
        OpponentActionsTracker(self.opponent_actions)
    }

    /// How the match ended, once it has.
    pub fn result(&self) -> (ended: Option<MatchEnd>)
        ensures
            ended == self@.ended,
    {
        self.ended
    }

    /// Announces the tick to the input process: in `StartingTick`, hands
    /// out the message for it and goes on to `AwaitingAction`. In any other
    /// state nothing happens.
    pub fn send_control_start(&mut self) -> (msg: Option<ControlMsgS2C>)
        ensures
            final(self)@ == after_start(old(self)@),
            msg == if active_in(old(self)@, NetworkPhase::StartingTick) {
                Some(
                    ControlMsgS2C::TickStart {
                        tick: old(self)@.tick,
                        opponent_prev_actions: old(self)@.opponent_actions,
                    },
                )
            } else {
                None
            },
    {
        if self.ended.is_some() || self.phase != NetworkPhase::StartingTick {
            return None;
        }
        self.phase = NetworkPhase::AwaitingAction;
        Some(
            ControlMsgS2C::TickStart {
                tick: self.tick,
                opponent_prev_actions: self.opponent_actions,
            },
        )
    }

    /// Commits to `new_actions` under `nonce`: in `AwaitingAction`, hands
    /// out the actions to simulate and the packet that reveals the action
    /// committed to before, keeps the new action and nonce for the next
    /// reveal, and goes on to `AwaitingData`. In any other state nothing
    /// happens.
    pub fn commit_action(&mut self, new_actions: PlayerActions, nonce: u128) -> (step: Option<
        TickStep,
    >)
        ensures
            final(self)@ == after_commit(old(self)@, new_actions, nonce),
            match step {
                Some(step) => {
                    &&& active_in(old(self)@, NetworkPhase::AwaitingAction)
                    &&& step.actions.0 == old(self)@.prev_actions
                    &&& step.opponent_actions.0 == old(self)@.opponent_actions
                    &&& step.packet@ == tick_packet(old(self)@, new_actions, nonce)
                },
                None => !active_in(old(self)@, NetworkPhase::AwaitingAction),
            },
    {
        if self.ended.is_some() || self.phase != NetworkPhase::AwaitingAction {
            return None;
        }
        let action_hash = commit(nonce, &new_actions);
        let step = TickStep {
            actions: PlayerActionsTracker(self.prev_actions),
            opponent_actions: OpponentActionsTracker(self.opponent_actions),
            packet: PlayerActionsPacket {
                prev_actions: self.prev_actions,
                nonce: self.nonce,
                action_hash,
            },
        };
        self.prev_actions = new_actions;
        self.nonce = nonce;
        self.phase = NetworkPhase::AwaitingData;
        Some(step)
    }

    /// Ends the wait for the local action once the input of the tick is
    /// complete: takes the tick's messages from `message_buffer` and
    /// commits to the action that they add up to, under a fresh random
    /// nonce. Outside `AwaitingAction`, and while the buffer holds no
    /// `EndTick`, nothing happens.
    pub fn run_game_update(&mut self, message_buffer: &mut Vec<ControlMsgC2S>) -> (step: Option<
        TickStep,
    >)
        ensures
            ({
                let msgs = old(message_buffer)@;
                let end = end_of_tick(msgs);
                let new_actions = with_messages(no_actions(), msgs.take(end as int));
                if active_in(old(self)@, NetworkPhase::AwaitingAction) && end < msgs.len() {
                    &&& final(message_buffer)@ == msgs.skip((end + 1) as int)
                    &&& step matches Some(step)
                    &&& exists|nonce: u128|
                        {
                            &&& final(self)@ == #[trigger] after_commit(
                                old(self)@,
                                new_actions,
                                nonce,
                            )
                            &&& step.packet@ == tick_packet(old(self)@, new_actions, nonce)
                        }
                    &&& step.actions.0 == old(self)@.prev_actions
                    &&& step.opponent_actions.0 == old(self)@.opponent_actions
                } else {
                    &&& step is None
                    &&& final(self)@ == old(self)@
                    &&& final(message_buffer)@ == msgs
                }
            }),
    {
        if self.ended.is_some() || self.phase != NetworkPhase::AwaitingAction {
            return None;
        }
        let new_actions = match take_tick_input(message_buffer) {
            Some(actions) => actions,
            None => {
                return None;
            },
        };
        let nonce = random_u128();
        self.commit_action(new_actions, nonce)
    }

    /// Looks at one message of the opponent. Outside `AwaitingData` it is
    /// not looked at. In the first exchange it is believed; later its
    /// reveal must open the commitment of the message before, or the match
    /// ends with an integrity fault. A message that is believed gives the
    /// opponent's verified action and its next commitment, and completes
    /// the exchange.
    pub fn verify_reveal(&mut self, packet: &PlayerActionsPacket) -> (r: Result<bool, SyncError>)
        requires
            old(self)@.tick < u64::MAX,
        ensures
            final(self)@ == after_packet(old(self)@, packet@),
            r == if !active_in(old(self)@, NetworkPhase::AwaitingData) {
                Ok::<bool, SyncError>(false)
            } else if reveal_accepted(old(self)@, packet@) {
                Ok(true)
            } else {
                Err(SyncError::SecurityFault)
            },
    {
        if self.ended.is_some() || self.phase != NetworkPhase::AwaitingData {
            return Ok(false);
        }
        if self.tick > 0 && !opens(&self.prev_hash, packet.nonce, &packet.prev_actions) {
            self.ended = Some(MatchEnd::IntegrityFault);
            return Err(SyncError::SecurityFault);
        }
        self.opponent_actions = packet.prev_actions;
        self.prev_hash = packet.action_hash;
        self.tick = self.tick + 1;
        self.phase = NetworkPhase::StartingTick;
        Ok(true)
    }

    /// Ends the wait for the opponent: in `AwaitingData`, takes the events
    /// up to the first tick message from the front of `events` and looks
    /// at that message as `verify_reveal` does. Events of other kinds in
    /// front of it are dropped. In any other state nothing happens.
    pub fn process_opponent_actions(&mut self, events: &mut Vec<PacketEvent>) -> (r: Result<
        (),
        SyncError,
    >)
        requires
            old(self)@.tick < u64::MAX,
        ensures
            ({
                let queue = event_views(old(events)@);
                let first = first_tick_packet(queue);
                if !active_in(old(self)@, NetworkPhase::AwaitingData) {
                    &&& r is Ok
                    &&& final(self)@ == old(self)@
                    &&& final(events)@ == old(events)@
                } else if first < queue.len() {
                    &&& queue[first as int] matches PacketView::PlayerActions(packet)
                    &&& final(self)@ == after_packet(old(self)@, packet)
                    &&& final(events)@ == old(events)@.skip((first + 1) as int)
                    &&& r == if reveal_accepted(old(self)@, packet) {
                        Ok::<(), SyncError>(())
                    } else {
                        Err(SyncError::SecurityFault)
                    }
                } else {
                    &&& r is Ok
                    &&& final(self)@ == old(self)@
                    &&& final(events)@ == Seq::<PacketEvent>::empty()
                }
            }),
    {
        if self.ended.is_some() || self.phase != NetworkPhase::AwaitingData {
            return Ok(());
        }
        let ghost all = events@;
        let ghost queue = event_views(all);
        proof {
            lemma_first_tick_packet(queue);
        }
        let mut i: usize = 0;
        while i < events.len()
            invariant
                events@ == all,
                all == old(events)@,
                queue == event_views(all),
                *self == *old(self),
                self@.tick < u64::MAX,
                active_in(self@, NetworkPhase::AwaitingData),
                i <= all.len(),
                i <= first_tick_packet(queue) <= queue.len(),
                first_tick_packet(queue) < queue.len() ==> queue[first_tick_packet(queue) as int]
                    is PlayerActions,
                forall|j: int| 0 <= j < first_tick_packet(queue) ==> !(queue[j] is PlayerActions),
            decreases all.len() - i,
        {
            assert(queue[i as int] == all[i as int].0@);
            let found: Option<PlayerActionsPacket> = match &events[i].0 {
                Packet::PlayerActions(packet) => Some(**packet),
                _ => None,
            };
            match found {
                Some(packet) => {
                    assert(queue[i as int] == PacketView::PlayerActions(packet@));
                    assert(i == first_tick_packet(queue));
                    let rest = events.split_off(i + 1);
                    *events = rest;
                    assert(events@ =~= all.skip(i + 1));
                    return match self.verify_reveal(&packet) {
                        Ok(_) => Ok(()),
                        Err(e) => Err(e),
                    };
                },
                None => {},
            }
            i += 1;
        }
        events.clear();
        Ok(())
    }

    /// Takes in what a read from the opponent's stream gave. A read of no
    /// bytes means that the stream is closed, and bytes that cannot be
    /// decoded are treated alike: the match ends with the opponent
    /// disconnected. Otherwise the packets of the frames that are now
    /// complete join `events`. Once the match is over nothing happens.
    pub fn receive_packets(
        &mut self,
        codec: &mut PacketCodec,
        chunk: &[u8],
        events: &mut Vec<PacketEvent>,
    ) -> (r: Result<(), SyncError>)
        ensures
            if old(self)@.ended is Some {
                &&& r is Ok
                &&& final(self)@ == old(self)@
                &&& final(codec)@ == old(codec)@
                &&& final(events)@ == old(events)@
            } else if chunk@.len() == 0 {
                &&& r == Err::<(), SyncError>(SyncError::PeerDisconnected)
                &&& final(self)@ == after_end(old(self)@, MatchEnd::OpponentDisconnected)
                &&& final(codec)@ == old(codec)@
                &&& final(events)@ == old(events)@
            } else {
                &&& final(codec)@ == after_read(old(codec)@, chunk@)
                &&& match read_packets(old(codec)@, chunk@) {
                    Ok(packets) => {
                        &&& r is Ok
                        &&& final(self)@ == old(self)@
                        &&& event_views(final(events)@) == event_views(old(events)@) + packets
                    },
                    Err(_) => {
                        &&& r == Err::<(), SyncError>(SyncError::PeerDisconnected)
                        &&& final(self)@ == after_end(old(self)@, MatchEnd::OpponentDisconnected)
                        &&& final(events)@ == old(events)@
                    },
                }
            },
    {
        if self.ended.is_some() {
            return Ok(());
        }
        if chunk.len() == 0 {
            self.ended = Some(MatchEnd::OpponentDisconnected);
            return Err(SyncError::PeerDisconnected);
        }
        let packets = match codec.read(chunk) {
            Ok(packets) => packets,
            Err(_) => {
                self.ended = Some(MatchEnd::OpponentDisconnected);
                return Err(SyncError::PeerDisconnected);
            },
        };
        let ghost before = events@;
        let mut i: usize = 0;
        assert(packet_views(packets@).take(0) =~= Seq::<PacketView>::empty());
        assert(event_views(before) + Seq::<PacketView>::empty() =~= event_views(before));
        while i < packets.len()
            invariant
                i <= packets@.len(),
                event_views(events@) == event_views(before) + packet_views(packets@).take(i as int),
            decreases packets@.len() - i,
        {
            let ghost had = events@;
            events.push(PacketEvent(packets[i].clone()));
            assert(event_views(events@) =~= event_views(had) + seq![packets@[i as int]@]);
            assert(packet_views(packets@).take(i + 1) =~= packet_views(packets@).take(i as int)
                + seq![packets@[i as int]@]);
            i += 1;
        }
        assert(packet_views(packets@).take(packets@.len() as int) =~= packet_views(packets@));
        Ok(())
    }

    /// Records that the stream to the opponent is gone.
    pub fn disconnect(&mut self)
        ensures
            final(self)@ == after_end(old(self)@, MatchEnd::OpponentDisconnected),
    {
        if self.ended.is_none() {
            self.ended = Some(MatchEnd::OpponentDisconnected);
        }
    }

    /// Records the result that the simulation reported.
    pub fn finish(&mut self, winner: Option<u16>)
        ensures
            final(self)@ == after_end(old(self)@, MatchEnd::Finished { winner }),
    {
        if self.ended.is_none() {
            self.ended = Some(MatchEnd::Finished { winner });
        }
    }

    /// The seed of the game's random numbers, from the local nonce and the
    /// nonce in the opponent's message.
    pub fn gen_seed(&self, packet: &PlayerActionsPacket) -> (seed: u64)
        ensures
            seed == seed_of(self@.nonce, packet.nonce),
    {
        ((self.nonce ^ packet.nonce) & 0xFFFF_FFFF_FFFF_FFFF) as u64
    }
}

impl Default for NetworkState {
    fn default() -> (state: NetworkState)
        ensures
            state@ == initial_sync(),
    {
        NetworkState::new()
    }
}

} // verus!
