//! Two synchronizers against each other: what the exchange guarantees.

use crate::commit::commitment;
use crate::network::{
    active_in, after_commit, after_packet, after_start, initial_sync, reveal_accepted, tick_packet,
    MatchEnd, NetworkPhase, SyncView,
};
use crate::packets::{PlayerActions, PlayerActionsPacketView};
use vstd::prelude::*;

verus! {

/// What a peer decides in one tick: its action, and the nonce under which
/// it commits to it.
pub struct Move {
    pub actions: PlayerActions,
    pub nonce: u128,
}

/// Two peers in step: both are about to start the same tick, and after the
/// first exchange each holds the commitment to what the other has yet to
/// reveal.
pub open spec fn in_step(a: SyncView, b: SyncView) -> bool {
    &&& active_in(a, NetworkPhase::StartingTick)
    &&& active_in(b, NetworkPhase::StartingTick)
    &&& a.tick == b.tick
    &&& a.tick > 0 ==> {
        &&& a.prev_hash == commitment(b.nonce, b.prev_actions)
        &&& b.prev_hash == commitment(a.nonce, a.prev_actions)
    }
}

/// A peer after it has started the tick and committed to its move.
pub open spec fn after_move(s: SyncView, own: Move) -> SyncView {
    after_commit(after_start(s), own.actions, own.nonce)
}

/// The message that a peer sends with its move.
pub open spec fn move_packet(s: SyncView, own: Move) -> PlayerActionsPacketView {
    tick_packet(after_start(s), own.actions, own.nonce)
}

/// A peer after one whole tick against an honest opponent that stood at
/// `other` when the tick began.
pub open spec fn after_round(s: SyncView, own: Move, other: SyncView, theirs: Move) -> SyncView {
    after_packet(after_move(s, own), move_packet(other, theirs))
}

/// A peer after as many ticks as there are moves, against an honest
/// opponent that began at `other`.
pub open spec fn after_rounds(s: SyncView, own: Seq<Move>, other: SyncView, theirs: Seq<Move>)
    -> SyncView
    decreases own.len(),
{
    if own.len() == 0 || theirs.len() != own.len() {
        s
    } else {
        after_round(
            after_rounds(s, own.drop_last(), other, theirs.drop_last()),
            own.last(),
            after_rounds(other, theirs.drop_last(), s, own.drop_last()),
            theirs.last(),
        )
    }
}

/// One tick between honest peers: from two peers in step, whatever they
/// decide, both accept the other's message, both stand one tick further
/// and in step again, and each has learnt the action that the other had
/// committed to before.
pub proof fn lemma_honest_round(a: SyncView, own: Move, b: SyncView, theirs: Move)
    requires
        in_step(a, b),
        a.tick < u64::MAX,
    ensures
        reveal_accepted(after_move(a, own), move_packet(b, theirs)),
        reveal_accepted(after_move(b, theirs), move_packet(a, own)),
        in_step(after_round(a, own, b, theirs), after_round(b, theirs, a, own)),
        after_round(a, own, b, theirs).tick == a.tick + 1,
        after_round(a, own, b, theirs).opponent_actions == b.prev_actions,
        after_round(b, theirs, a, own).opponent_actions == a.prev_actions,
        after_round(a, own, b, theirs).prev_actions == own.actions,
        after_round(b, theirs, a, own).prev_actions == theirs.actions,
{
}

/// Lockstep integrity: two honest peers that start a session and exchange
/// any number of ticks, whatever they decide, complete every tick. No
/// fault is raised, both count the same ticks, and both stay in step.
pub proof fn lemma_honest_match(own: Seq<Move>, theirs: Seq<Move>)
    requires
        own.len() == theirs.len(),
        own.len() <= u64::MAX,
    ensures
        in_step(
            after_rounds(initial_sync(), own, initial_sync(), theirs),
            after_rounds(initial_sync(), theirs, initial_sync(), own),
        ),
        after_rounds(initial_sync(), own, initial_sync(), theirs).tick == own.len(),
        after_rounds(initial_sync(), own, initial_sync(), theirs).ended is None,
        own.len() > 0 ==> after_rounds(initial_sync(), own, initial_sync(), theirs).prev_actions
            == own.last().actions,
    decreases own.len(),
{
    if own.len() > 0 {
        lemma_honest_match(own.drop_last(), theirs.drop_last());
        lemma_honest_round(
            after_rounds(initial_sync(), own.drop_last(), initial_sync(), theirs.drop_last()),
            own.last(),
            after_rounds(initial_sync(), theirs.drop_last(), initial_sync(), own.drop_last()),
            theirs.last(),
        );
    }
}

/// What each peer simulates: after a tick between honest peers, the action
/// that a peer holds as the opponent's is the one that the opponent decided
/// two ticks before.
pub proof fn lemma_honest_match_reveals(own: Seq<Move>, theirs: Seq<Move>)
    requires
        own.len() == theirs.len(),
        2 <= own.len() <= u64::MAX,
    ensures
        after_rounds(initial_sync(), own, initial_sync(), theirs).opponent_actions
            == theirs[theirs.len() - 2].actions,
{
    let before_own = after_rounds(
        initial_sync(),
        own.drop_last(),
        initial_sync(),
        theirs.drop_last(),
    );
    let before_theirs = after_rounds(
        initial_sync(),
        theirs.drop_last(),
        initial_sync(),
        own.drop_last(),
    );
    lemma_honest_match(own.drop_last(), theirs.drop_last());
    lemma_honest_match(theirs.drop_last(), own.drop_last());
    lemma_honest_round(before_own, own.last(), before_theirs, theirs.last());
}

/// A forged reveal is caught at once. Past the first exchange, a peer that
/// waits for the opponent's message and gets one whose nonce and action do
/// not hash to the commitment it holds ends the match with an integrity
/// fault, in that tick: the tick is not counted and the forged action is
/// not taken over.
pub proof fn lemma_forged_reveal_caught(s: SyncView, forged: PlayerActionsPacketView)
    requires
        active_in(s, NetworkPhase::AwaitingData),
        s.tick > 0,
        commitment(forged.nonce, forged.prev_actions) != s.prev_hash,
    ensures
        after_packet(s, forged).ended == Some(MatchEnd::IntegrityFault),
        after_packet(s, forged).tick == s.tick,
        after_packet(s, forged).opponent_actions == s.opponent_actions,
{
}

/// The same between two peers in step: where the opponent sends, in place
/// of its honest message, one that reveals something that hashes otherwise
/// than what it had committed to, the peer raises the fault in this tick.
pub proof fn lemma_cheat_caught(
    a: SyncView,
    own: Move,
    b: SyncView,
    forged: PlayerActionsPacketView,
)
    requires
        in_step(a, b),
        a.tick > 0,
        commitment(forged.nonce, forged.prev_actions) != commitment(b.nonce, b.prev_actions),
    ensures
        after_packet(after_move(a, own), forged).ended == Some(MatchEnd::IntegrityFault),
        after_packet(after_move(a, own), forged).tick == a.tick,
{
}

/// Once the match is over, nothing moves: no start, no commitment and no
/// message changes the state.
pub proof fn lemma_ended_is_final(s: SyncView, own: Move, packet: PlayerActionsPacketView)
    requires
        s.ended is Some,
    ensures
        after_start(s) == s,
        after_commit(s, own.actions, own.nonce) == s,
        after_packet(s, packet) == s,
{
}

/// At most one simulation step per tick: once a peer has committed, no
/// further commitment is taken until the opponent's message has completed
/// the exchange and the next tick was started.
pub proof fn lemma_one_step_per_tick(s: SyncView, first: Move, second: Move)
    ensures
        after_commit(after_commit(s, first.actions, first.nonce), second.actions, second.nonce)
            == after_commit(s, first.actions, first.nonce),
        active_in(s, NetworkPhase::AwaitingAction) ==> after_start(
            after_commit(s, first.actions, first.nonce),
        ) == after_commit(s, first.actions, first.nonce),
{
}

/// The tick counter moves only with an accepted message: it grows by one
/// where a waiting peer accepts the opponent's reveal, and stays in every
/// other case.
pub proof fn lemma_tick_advances_on_accept(s: SyncView, own: Move, packet: PlayerActionsPacketView)
    requires
        s.tick < u64::MAX,
    ensures
        after_start(s).tick == s.tick,
        after_commit(s, own.actions, own.nonce).tick == s.tick,
        after_packet(s, packet).tick == if active_in(s, NetworkPhase::AwaitingData)
            && reveal_accepted(s, packet) {
            s.tick + 1
        } else {
            s.tick as int
        },
{
}

} // verus!
