//! The session that the server simulates itself: each tick it simulates,
//! sends the new state to both players, and then reads one action from
//! player 0 and one from player 1, until the simulation reports a result.

use crate::control::no_actions;
use crate::packets::PlayerActions;
use crate::wire::{decode_actions, parse_actions};
use vstd::prelude::*;

verus! {

/// What the server is waiting for.
#[derive(Clone, Copy, Debug, PartialEq, Eq, Structural)]
pub enum ServerStage {
    /// The simulation of the tick.
    Simulating,
    /// The tick's state to be sent to both players; `finished` tells
    /// whether the simulation has reported a result.
    Broadcasting { finished: bool },
    /// The action of `player`.
    Reading { player: u16 },
    /// The match is over and both sockets are closed.
    Closed,
    /// The session has failed.
    Failed,
}

/// What has happened.
#[derive(Debug, PartialEq, Eq)]
pub enum ServerEvent {
    /// The tick was simulated; `finished` tells whether there is a result.
    Simulated { finished: bool },
    /// The tick's state was sent to both players.
    Sent,
    /// The tick's state could not be sent.
    SendFailed,
    /// `player` has sent the bytes of its action.
    ActionBytes { player: u16, data: Vec<u8> },
    /// Nothing could be read from `player`.
    ReadFailed { player: u16 },
}

/// A `ServerEvent` as a value.
pub enum ServerEventView {
    Simulated { finished: bool },
    Sent,
    SendFailed,
    ActionBytes { player: u16, data: Seq<u8> },
    ReadFailed { player: u16 },
}

impl View for ServerEvent {
    type V = ServerEventView;

    open spec fn view(&self) -> ServerEventView {
        match self {
            ServerEvent::Simulated { finished } => ServerEventView::Simulated {
                finished: *finished,
            },
            ServerEvent::Sent => ServerEventView::Sent,
            ServerEvent::SendFailed => ServerEventView::SendFailed,
            ServerEvent::ActionBytes { player, data } => ServerEventView::ActionBytes {
                player: *player,
                data: data@,
            },
            ServerEvent::ReadFailed { player } => ServerEventView::ReadFailed { player: *player },
        }
    }
}

/// What the server is to do next.
#[derive(Clone, Copy, Debug, PartialEq, Eq, Structural)]
pub enum ServerAction {
    /// Simulate `tick` with the two players' actions.
    Simulate { tick: u64, first: PlayerActions, second: PlayerActions },
    /// Send the state of `tick` to both players.
    Broadcast { tick: u64 },
    /// Read the action of `player`.
    ReadFrom { player: u16 },
    /// Close both sockets: the match is over.
    CloseBoth,
    /// Give the session up.
    Fail,
}

/// The state of a simulated session, as a value.
pub struct SessionView {
    /// The number of ticks for which both players' actions were read.
    pub tick: u64,
    pub stage: ServerStage,
    /// The action of player 0 that was read last.
    pub first: PlayerActions,
    /// The action of player 1 that was read last.
    pub second: PlayerActions,
}

/// A session before its first tick is simulated.
pub open spec fn new_session() -> SessionView {
    SessionView {
        tick: 0,
        stage: ServerStage::Simulating,
        first: no_actions(),
        second: no_actions(),
    }
}

/// The session given up.
pub open spec fn failed(s: SessionView) -> (SessionView, ServerAction) {
    (SessionView { stage: ServerStage::Failed, ..s }, ServerAction::Fail)
}

/// The session after the action of the player that it reads from has
/// arrived. After player 0 comes player 1; after player 1 the tick is
/// counted and the next one is simulated with both actions. Bytes that are
/// no action, a player other than the two, and a tick that cannot be
/// counted, fail the session.
pub open spec fn after_action(s: SessionView, player: u16, data: Seq<u8>) -> (
    SessionView,
    ServerAction,
) {
    match parse_actions(data) {
        None => failed(s),
        Some((actions, _)) => if player == 0 {
            (
                SessionView { stage: ServerStage::Reading { player: 1 }, first: actions, ..s },
                ServerAction::ReadFrom { player: 1 },
            )
        } else if player != 1 || s.tick == u64::MAX {
            failed(s)
        } else {
            (
                SessionView {
                    tick: (s.tick + 1) as u64,
                    stage: ServerStage::Simulating,
                    second: actions,
                    ..s
                },
                ServerAction::Simulate {
                    tick: (s.tick + 1) as u64,
                    first: s.first,
                    second: actions,
                },
            )
        },
    }
}

/// The session after an event, and what the server is to do next. A
/// session that is closed or has failed stays so. Where the simulation of
/// tick `j` is done, its state is sent. Once it is sent, a result closes
/// both sockets; without one the actions are read, player 0 first. An event
/// that the stage does not wait for, a failed send and a failed read fail
/// the session, and the tick is not counted.
pub open spec fn server_after(s: SessionView, event: ServerEventView) -> (
    SessionView,
    ServerAction,
) {
    match s.stage {
        ServerStage::Closed => (s, ServerAction::CloseBoth),
        ServerStage::Failed => (s, ServerAction::Fail),
        ServerStage::Simulating => match event {
            ServerEventView::Simulated { finished } => (
                SessionView { stage: ServerStage::Broadcasting { finished }, ..s },
                ServerAction::Broadcast { tick: s.tick },
            ),
            _ => failed(s),
        },
        ServerStage::Broadcasting { finished } => match event {
            ServerEventView::Sent => if finished {
                (SessionView { stage: ServerStage::Closed, ..s }, ServerAction::CloseBoth)
            } else {
                (
                    SessionView { stage: ServerStage::Reading { player: 0 }, ..s },
                    ServerAction::ReadFrom { player: 0 },
                )
            },
            _ => failed(s),
        },
        ServerStage::Reading { player } => match event {
            ServerEventView::ActionBytes { player: from, data } => if from == player {
                after_action(s, player, data)
            } else {
                failed(s)
            },
            _ => failed(s),
        },
    }
}

/// A session that the server simulates.
pub struct ServerSession {
    tick: u64,
    stage: ServerStage,
    first: PlayerActions,
    second: PlayerActions,
}

impl View for ServerSession {
    type V = SessionView;

    closed spec fn view(&self) -> SessionView {
        SessionView { tick: self.tick, stage: self.stage, first: self.first, second: self.second }
    }
}

impl ServerSession {
    /// A session before its first tick is simulated.
    pub fn new() -> (session: ServerSession)
        ensures
            session@ == new_session(),
    {
        ServerSession {
            tick: 0,
            stage: ServerStage::Simulating,
            first: PlayerActions::default(),
            second: PlayerActions::default(),
        }
    }

    /// The number of ticks for which both players' actions were read.
    pub fn tick(&self) -> (tick: u64)
        ensures
            tick == self@.tick,
    {
        self.tick
    }

    pub fn stage(&self) -> (stage: ServerStage)
        ensures
            stage == self@.stage,
    {
        self.stage
    }

    fn fail(&mut self) -> (action: ServerAction)
        ensures
            (final(self)@, action) == failed(old(self)@),
    {
        self.stage = ServerStage::Failed;
        ServerAction::Fail
    }

    /// Takes in an event and says what the server is to do next.
    pub fn server_step(&mut self, event: &ServerEvent) -> (action: ServerAction)
        ensures
            (final(self)@, action) == server_after(old(self)@, event@),
    {
        match self.stage {
            ServerStage::Closed => ServerAction::CloseBoth,
            ServerStage::Failed => ServerAction::Fail,
            ServerStage::Simulating => match event {
                ServerEvent::Simulated { finished } => {
                    self.stage = ServerStage::Broadcasting { finished: *finished };
                    ServerAction::Broadcast { tick: self.tick }
                },
                _ => self.fail(),
            },
            ServerStage::Broadcasting { finished } => match event {
                ServerEvent::Sent => {
                    if finished {
                        self.stage = ServerStage::Closed;
                        ServerAction::CloseBoth
                    } else {
                        self.stage = ServerStage::Reading { player: 0 };
                        ServerAction::ReadFrom { player: 0 }
                    }
                },
                _ => self.fail(),
            },
            ServerStage::Reading { player } => match event {
                ServerEvent::ActionBytes { player: from, data } => {
                    if *from != player {
                        return self.fail();
                    }
                    let actions = match decode_actions(data.as_slice()) {
                        Ok(actions) => actions,
                        Err(_) => {
                            return self.fail();
                        },
                    };
                    if player == 0 {
                        self.first = actions;
                        self.stage = ServerStage::Reading { player: 1 };
                        ServerAction::ReadFrom { player: 1 }
                    } else if player != 1 || self.tick == u64::MAX {
                        self.fail()
                    } else {
                        self.second = actions;
                        self.tick = self.tick + 1;
                        self.stage = ServerStage::Simulating;
                        ServerAction::Simulate {
                            tick: self.tick,
                            first: self.first,
                            second: actions,
                        }
                    }
                },
                _ => self.fail(),
            },
        }
    }
}

impl Default for ServerSession {
    fn default() -> (session: ServerSession)
        ensures
            session@ == new_session(),
    {
        ServerSession::new()
    }
}

/// The tick is counted only with both actions: it grows by one where the
/// action of player 1 arrives and is read, and stays in every other case.
pub proof fn lemma_tick_counts_both_actions(s: SessionView, event: ServerEventView)
    ensures
        server_after(s, event).0.tick == s.tick || {
            &&& server_after(s, event).0.tick == s.tick + 1
            &&& s.stage == (ServerStage::Reading { player: 1 })
            &&& event matches ServerEventView::ActionBytes { player: 1, data }
            &&& parse_actions(data) is Some
        },
        server_after(s, event).1 is Fail ==> server_after(s, event).0.tick == s.tick,
{
}

/// Once a session is closed or has failed, nothing changes it.
pub proof fn lemma_session_end_is_final(s: SessionView, event: ServerEventView)
    requires
        s.stage is Closed || s.stage is Failed,
    ensures
        server_after(s, event).0 == s,
{
}

} // verus!
