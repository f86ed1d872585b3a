//! The messages between the synchronizer and the process that supplies the
//! local player's input.

use crate::packets::{checked_set_bits, hand_actions_exclusive, Item, PlayerActions, Rotation};
use vstd::prelude::*;

verus! {

/// To the input process.
#[derive(Clone, Copy, Debug, PartialEq, Eq, Structural)]
pub enum ControlMsgS2C {
    /// A tick begins: its number, and the opponent's action that was
    /// verified last.
    TickStart { tick: u64, opponent_prev_actions: PlayerActions },
}

/// From the input process.
#[derive(Clone, Copy, Debug, PartialEq, Eq, Structural)]
pub enum ControlMsgC2S {
    MoveForward,
    MoveBackward,
    MoveLeft,
    MoveRight,
    Jump,
    /// Yaw and pitch, each as the bit pattern of a single-precision number.
    /// Rotations do not accumulate within a tick; the last one received is
    /// used.
    Rotate(u32, u32),
    SelectItem(Item),
    PlaceBlock,
    /// The input of this tick is complete.
    EndTick,
}

/// The action after one more message of the tick.
pub open spec fn with_message(actions: PlayerActions, msg: ControlMsgC2S) -> PlayerActions {
    match msg {
        ControlMsgC2S::MoveForward => PlayerActions {
            bits: actions.bits | PlayerActions::MOVE_FORWARD,
            ..actions
        },
        ControlMsgC2S::MoveBackward => PlayerActions {
            bits: actions.bits | PlayerActions::MOVE_BACKWARD,
            ..actions
        },
        ControlMsgC2S::MoveLeft => PlayerActions {
            bits: actions.bits | PlayerActions::MOVE_LEFT,
            ..actions
        },
        ControlMsgC2S::MoveRight => PlayerActions {
            bits: actions.bits | PlayerActions::MOVE_RIGHT,
            ..actions
        },
        ControlMsgC2S::Jump => PlayerActions {
            bits: actions.bits | PlayerActions::JUMP,
            ..actions
        },
        ControlMsgC2S::Rotate(yaw, pitch) => PlayerActions {
            rotation: Rotation { yaw, pitch },
            ..actions
        },
        ControlMsgC2S::SelectItem(item) => PlayerActions { item_change: Some(item), ..actions },
        ControlMsgC2S::PlaceBlock => PlayerActions {
            bits: checked_set_bits(actions.bits, PlayerActions::PLACE_BLOCK),
            ..actions
        },
        ControlMsgC2S::EndTick => actions,
    }
}

/// The action that the messages of a tick add up to, from `actions` on.
pub open spec fn with_messages(actions: PlayerActions, msgs: Seq<ControlMsgC2S>) -> PlayerActions
    decreases msgs.len(),
{
    if msgs.len() == 0 {
        actions
    } else {
        with_message(with_messages(actions, msgs.drop_last()), msgs.last())
    }
}

/// The action that has no flag set, looks nowhere and changes no item.
pub open spec fn no_actions() -> PlayerActions {
    PlayerActions { bits: 0, rotation: Rotation { yaw: 0, pitch: 0 }, item_change: None }
}

/// The position of the first `EndTick` among `msgs`, or their number where
/// there is none.
pub open spec fn end_of_tick(msgs: Seq<ControlMsgC2S>) -> nat
    decreases msgs.len(),
{
    if msgs.len() == 0 {
        0
    } else if msgs[0] == ControlMsgC2S::EndTick {
        0
    } else {
        1 + end_of_tick(msgs.skip(1))
    }
}

pub proof fn lemma_end_of_tick(msgs: Seq<ControlMsgC2S>)
    ensures
        end_of_tick(msgs) <= msgs.len(),
        end_of_tick(msgs) < msgs.len() ==> msgs[end_of_tick(msgs) as int] == ControlMsgC2S::EndTick,
        forall|i: int| 0 <= i < end_of_tick(msgs) ==> msgs[i] != ControlMsgC2S::EndTick,
    decreases msgs.len(),
{
    if msgs.len() > 0 && msgs[0] != ControlMsgC2S::EndTick {
        lemma_end_of_tick(msgs.skip(1));
        assert forall|i: int| 0 <= i < end_of_tick(msgs) implies msgs[i]
            != ControlMsgC2S::EndTick by {
            if i > 0 {
                assert(msgs[i] == msgs.skip(1)[i - 1]);
            }
        }
    }
}

/// Changes `actions` as one message asks.
pub fn apply_message(actions: &mut PlayerActions, msg: ControlMsgC2S)
    ensures
        *final(actions) == with_message(*old(actions), msg),
        old(actions).well_formed() ==> final(actions).well_formed(),
{
    proof {
        let bits = actions.bits;
        assert(hand_actions_exclusive(bits) ==> hand_actions_exclusive(bits | 0x0001u16)
            && hand_actions_exclusive(bits | 0x0002u16) && hand_actions_exclusive(bits | 0x0004u16)
            && hand_actions_exclusive(bits | 0x0008u16) && hand_actions_exclusive(bits | 0x0010u16))
            by (bit_vector);
    }
    match msg {
        ControlMsgC2S::MoveForward => actions.set(PlayerActions::MOVE_FORWARD),
        ControlMsgC2S::MoveBackward => actions.set(PlayerActions::MOVE_BACKWARD),
        ControlMsgC2S::MoveLeft => actions.set(PlayerActions::MOVE_LEFT),
        ControlMsgC2S::MoveRight => actions.set(PlayerActions::MOVE_RIGHT),
        ControlMsgC2S::Jump => actions.set(PlayerActions::JUMP),
        ControlMsgC2S::Rotate(yaw, pitch) => {
            actions.rotation = Rotation { yaw, pitch };
        },
        ControlMsgC2S::SelectItem(item) => {
            actions.item_change = Some(item);
        },
        ControlMsgC2S::PlaceBlock => actions.checked_set(PlayerActions::PLACE_BLOCK),
        ControlMsgC2S::EndTick => {},
    }
}

/// Takes the input of one tick from the front of `buffer`: the messages up
/// to the first `EndTick`, that one included, and the action that they add
/// up to. Without an `EndTick` the tick's input is not complete: nothing is
/// taken.
pub fn take_tick_input(buffer: &mut Vec<ControlMsgC2S>) -> (input: Option<PlayerActions>)
    ensures
        ({
            let end = end_of_tick(old(buffer)@);
            if end < old(buffer)@.len() {
                &&& input == Some(with_messages(no_actions(), old(buffer)@.take(end as int)))
                &&& final(buffer)@ == old(buffer)@.skip((end + 1) as int)
            } else {
                &&& input is None
                &&& final(buffer)@ == old(buffer)@
            }
        }),
        input matches Some(actions) ==> actions.well_formed(),
{
    let ghost msgs = buffer@;
    proof {
        lemma_end_of_tick(msgs);
        assert(hand_actions_exclusive(0u16)) by (bit_vector);
    }
    let mut actions = PlayerActions::default();
    let mut i: usize = 0;
    assert(msgs.take(0) =~= Seq::<ControlMsgC2S>::empty());
    while i < buffer.len()
        invariant
            buffer@ == msgs,
            msgs == old(buffer)@,
            i <= msgs.len(),
            i <= end_of_tick(msgs),
            actions == with_messages(no_actions(), msgs.take(i as int)),
            actions.well_formed(),
            end_of_tick(msgs) <= msgs.len(),
            end_of_tick(msgs) < msgs.len() ==> msgs[end_of_tick(msgs) as int]
                == ControlMsgC2S::EndTick,
            forall|j: int| 0 <= j < end_of_tick(msgs) ==> msgs[j] != ControlMsgC2S::EndTick,
        decreases msgs.len() - i,
    {
        let msg = buffer[i];
        if msg == ControlMsgC2S::EndTick {
            assert(i == end_of_tick(msgs));
            let rest = buffer.split_off(i + 1);
            *buffer = rest;
            assert(buffer@ =~= msgs.skip(i + 1));
            return Some(actions);
        }
        apply_message(&mut actions, msg);
        proof {
            let next = msgs.take(i + 1);
            assert(next.drop_last() =~= msgs.take(i as int));
            assert(next.last() == msg);
        }
        i += 1;
    }
    None
}

} // verus!
