use agentduels::codec::PacketCodec;
use agentduels::commit::commit;
use agentduels::control::{ControlMsgC2S, ControlMsgS2C};
use agentduels::network::{
    MatchEnd, NetworkPhase, NetworkState, PacketEvent, SyncError, TickStep,
};
use agentduels::packets::{
    HandshakePacket, Item, Packet, PlayerActions, PlayerActionsPacket, Rotation,
};

fn action(seed: u64) -> PlayerActions {
    PlayerActions {
        bits: (seed % 32) as u16,
        rotation: Rotation {
            yaw: (seed as f32 * 0.25).to_bits(),
            pitch: (seed as f32 * -0.125).to_bits(),
        },
        item_change: if seed % 3 == 0 {
            Some(Item::Bow)
        } else {
            None
        },
    }
}

/// One peer's half of a tick up to the point where its message is out.
fn decide(peer: &mut NetworkState, actions: PlayerActions, nonce: u128) -> TickStep {
    assert!(peer.send_control_start().is_some());
    peer.commit_action(actions, nonce).unwrap()
}

#[test]
fn a_new_synchronizer() {
    let state = NetworkState::new();
    assert_eq!(state.tick(), 0);
    assert_eq!(state.phase(), NetworkPhase::StartingTick);
    assert_eq!(state.result(), None);
    assert_eq!(state.opponent_actions().0, PlayerActions::default());
    let state = NetworkState::default();
    assert_eq!(state.tick(), 0);
    assert_eq!(state.phase(), NetworkPhase::StartingTick);
}

#[test]
fn phases_follow_each_other() {
    let mut state = NetworkState::new();
    assert_eq!(
        state.send_control_start(),
        Some(ControlMsgS2C::TickStart {
            tick: 0,
            opponent_prev_actions: PlayerActions::default()
        })
    );
    assert_eq!(state.phase(), NetworkPhase::AwaitingAction);
    assert_eq!(state.send_control_start(), None);
    assert_eq!(state.phase(), NetworkPhase::AwaitingAction);

    let step = state.commit_action(action(1), 11).unwrap();
    assert_eq!(state.phase(), NetworkPhase::AwaitingData);
    assert_eq!(step.actions.0, PlayerActions::default());
    assert_eq!(step.opponent_actions.0, PlayerActions::default());
    assert_eq!(
        step.packet,
        PlayerActionsPacket {
            prev_actions: PlayerActions::default(),
            nonce: 0,
            action_hash: commit(11, &action(1)),
        }
    );
    assert_eq!(state.commit_action(action(2), 12), None);
    assert_eq!(state.send_control_start(), None);
    assert_eq!(state.phase(), NetworkPhase::AwaitingData);

    let theirs = PlayerActionsPacket {
        prev_actions: action(9),
        nonce: 5,
        action_hash: [3; 32],
    };
    assert_eq!(state.verify_reveal(&theirs), Ok(true));
    assert_eq!(state.tick(), 1);
    assert_eq!(state.phase(), NetworkPhase::StartingTick);
    assert_eq!(state.opponent_actions().0, action(9));
    assert_eq!(state.verify_reveal(&theirs), Ok(false));
    assert_eq!(state.tick(), 1);
}

#[test]
fn the_reveal_lags_the_commitment_by_one_tick() {
    let mut peer = NetworkState::new();
    let first = decide(&mut peer, action(1), 100);
    assert_eq!(first.packet.action_hash, commit(100, &action(1)));
    assert_eq!(first.packet.prev_actions, PlayerActions::default());
    let reply = PlayerActionsPacket {
        prev_actions: PlayerActions::default(),
        nonce: 0,
        action_hash: [0; 32],
    };
    assert_eq!(peer.verify_reveal(&reply), Ok(true));
    let second = decide(&mut peer, action(2), 200);
    assert_eq!(second.packet.prev_actions, action(1));
    assert_eq!(second.packet.nonce, 100);
    assert_eq!(second.packet.action_hash, commit(200, &action(2)));
    assert_eq!(second.actions.0, action(1));
}

#[test]
fn lockstep_of_two_honest_peers() {
    let ticks = 50u64;
    let mut a = NetworkState::new();
    let mut b = NetworkState::new();
    for tick in 0..ticks {
        assert_eq!(a.tick(), tick);
        assert_eq!(b.tick(), tick);
        let from_a = decide(&mut a, action(2 * tick), 1000 + tick as u128);
        let from_b = decide(&mut b, action(2 * tick + 1), 2000 + tick as u128);
        if tick >= 1 {
            assert_eq!(from_a.actions.0, action(2 * (tick - 1)));
            assert_eq!(from_b.actions.0, action(2 * (tick - 1) + 1));
        }
        if tick >= 2 {
            assert_eq!(from_a.opponent_actions.0, action(2 * (tick - 2) + 1));
            assert_eq!(from_b.opponent_actions.0, action(2 * (tick - 2)));
        }
        assert_eq!(a.verify_reveal(&from_b.packet), Ok(true));
        assert_eq!(b.verify_reveal(&from_a.packet), Ok(true));
        assert_eq!(a.result(), None);
        assert_eq!(b.result(), None);
    }
    assert_eq!(a.tick(), ticks);
    assert_eq!(b.tick(), ticks);
    assert_eq!(a.phase(), NetworkPhase::StartingTick);
}

#[test]
fn lockstep_over_encrypted_streams() {
    let key = [7u8; 32];
    let mut a = NetworkState::new();
    let mut b = NetworkState::new();
    let mut a_codec = PacketCodec::new();
    let mut b_codec = PacketCodec::new();
    a_codec.enable_encryption(&key).unwrap();
    b_codec.enable_encryption(&key).unwrap();
    let mut a_events = Vec::new();
    let mut b_events = Vec::new();
    for tick in 0..10u64 {
        let from_a = decide(&mut a, action(tick), tick as u128);
        let from_b = decide(&mut b, action(tick + 100), tick as u128 + 50);
        let to_b = a_codec.write(&Packet::PlayerActions(Box::new(from_a.packet)));
        let to_a = b_codec.write(&Packet::PlayerActions(Box::new(from_b.packet)));
        let (head, tail) = to_a.split_at(to_a.len() / 2);
        assert_eq!(a.receive_packets(&mut a_codec, head, &mut a_events), Ok(()));
        assert_eq!(a.process_opponent_actions(&mut a_events), Ok(()));
        assert_eq!(a.phase(), NetworkPhase::AwaitingData);
        assert_eq!(a.receive_packets(&mut a_codec, tail, &mut a_events), Ok(()));
        assert_eq!(a.process_opponent_actions(&mut a_events), Ok(()));
        assert_eq!(a.phase(), NetworkPhase::StartingTick);
        assert_eq!(b.receive_packets(&mut b_codec, &to_b, &mut b_events), Ok(()));
        assert_eq!(b.process_opponent_actions(&mut b_events), Ok(()));
        assert_eq!(a.tick(), tick + 1);
        assert_eq!(b.tick(), tick + 1);
    }
    assert_eq!(a.result(), None);
    assert_eq!(b.result(), None);
}

#[test]
fn a_substituted_action_is_caught_in_its_tick() {
    let cheat_at = 7u64;
    let mut a = NetworkState::new();
    let mut b = NetworkState::new();
    for tick in 0..20u64 {
        let from_a = decide(&mut a, action(tick), 10 + tick as u128);
        let mut from_b = decide(&mut b, action(tick + 500), 90 + tick as u128);
        if tick == cheat_at {
            let mut revised = from_b.packet.prev_actions;
            revised.bits ^= PlayerActions::JUMP;
            from_b.packet.prev_actions = revised;
        }
        let verdict = a.verify_reveal(&from_b.packet);
        if tick < cheat_at {
            assert_eq!(verdict, Ok(true));
            assert_eq!(b.verify_reveal(&from_a.packet), Ok(true));
        } else {
            assert_eq!(tick, cheat_at);
            assert_eq!(verdict, Err(SyncError::SecurityFault));
            assert_eq!(a.result(), Some(MatchEnd::IntegrityFault));
            assert_eq!(a.tick(), cheat_at);
            assert_ne!(a.opponent_actions().0, from_b.packet.prev_actions);
            break;
        }
    }
    assert_eq!(a.result(), Some(MatchEnd::IntegrityFault));
}

#[test]
fn a_substituted_nonce_is_caught() {
    let mut a = NetworkState::new();
    let mut b = NetworkState::new();
    for tick in 0..2u64 {
        let from_a = decide(&mut a, action(tick), 10 + tick as u128);
        let from_b = decide(&mut b, action(tick + 500), 90 + tick as u128);
        assert_eq!(a.verify_reveal(&from_b.packet), Ok(true));
        assert_eq!(b.verify_reveal(&from_a.packet), Ok(true));
    }
    let _ = decide(&mut a, action(2), 12);
    let mut from_b = decide(&mut b, action(502), 92);
    from_b.packet.nonce += 1;
    assert_eq!(
        a.verify_reveal(&from_b.packet),
        Err(SyncError::SecurityFault)
    );
}

#[test]
fn the_first_exchange_is_not_verified() {
    let mut a = NetworkState::new();
    let _ = decide(&mut a, action(1), 1);
    let anything = PlayerActionsPacket {
        prev_actions: action(77),
        nonce: 123456,
        action_hash: [0xCC; 32],
    };
    assert_eq!(a.verify_reveal(&anything), Ok(true));
    assert_eq!(a.tick(), 1);
    // An all-zero commitment is a commitment like any other from then on.
    let mut c = NetworkState::new();
    let _ = decide(&mut c, action(1), 1);
    let zero = PlayerActionsPacket {
        prev_actions: action(0),
        nonce: 0,
        action_hash: [0; 32],
    };
    assert_eq!(c.verify_reveal(&zero), Ok(true));
    let _ = decide(&mut c, action(2), 2);
    assert_eq!(c.verify_reveal(&zero), Err(SyncError::SecurityFault));
}

#[test]
fn nothing_moves_once_the_match_is_over() {
    let mut a = NetworkState::new();
    a.disconnect();
    assert_eq!(a.result(), Some(MatchEnd::OpponentDisconnected));
    assert_eq!(a.send_control_start(), None);
    assert_eq!(a.commit_action(action(1), 1), None);
    let packet = PlayerActionsPacket {
        prev_actions: action(1),
        nonce: 1,
        action_hash: [0; 32],
    };
    assert_eq!(a.verify_reveal(&packet), Ok(false));
    assert_eq!(a.tick(), 0);
    a.finish(Some(1));
    assert_eq!(a.result(), Some(MatchEnd::OpponentDisconnected));
    let mut buffer = vec![ControlMsgC2S::EndTick];
    assert_eq!(a.run_game_update(&mut buffer), None);
    assert_eq!(buffer, vec![ControlMsgC2S::EndTick]);
}

#[test]
fn the_simulations_result_ends_the_match() {
    let mut a = NetworkState::new();
    a.finish(Some(0));
    assert_eq!(a.result(), Some(MatchEnd::Finished { winner: Some(0) }));
    a.disconnect();
    assert_eq!(a.result(), Some(MatchEnd::Finished { winner: Some(0) }));
    let mut b = NetworkState::new();
    b.finish(None);
    assert_eq!(b.result(), Some(MatchEnd::Finished { winner: None }));
}

#[test]
fn a_closed_stream_is_a_disconnect() {
    let mut a = NetworkState::new();
    let mut codec = PacketCodec::new();
    let mut events = Vec::new();
    assert_eq!(
        a.receive_packets(&mut codec, &[], &mut events),
        Err(SyncError::PeerDisconnected)
    );
    assert_eq!(a.result(), Some(MatchEnd::OpponentDisconnected));
    assert!(events.is_empty());
    // Once the match is over, reads are no longer looked at.
    assert_eq!(a.receive_packets(&mut codec, &[], &mut events), Ok(()));
    assert_eq!(a.receive_packets(&mut codec, &[1, 2, 3], &mut events), Ok(()));
    assert_eq!(codec.buffered_len(), 0);
}

#[test]
fn undecodable_bytes_are_a_disconnect() {
    let mut a = NetworkState::new();
    let mut codec = PacketCodec::new();
    let mut events = Vec::new();
    assert_eq!(
        a.receive_packets(&mut codec, &[2, 0x09, 0x00], &mut events),
        Err(SyncError::PeerDisconnected)
    );
    assert_eq!(a.result(), Some(MatchEnd::OpponentDisconnected));
    assert!(events.is_empty());
}

#[test]
fn arrived_packets_wait_for_their_phase() {
    let mut a = NetworkState::new();
    let mut codec = PacketCodec::new();
    let mut events = Vec::new();
    let theirs = PlayerActionsPacket {
        prev_actions: action(4),
        nonce: 8,
        action_hash: [1; 32],
    };
    let mut bytes = codec.write(&Packet::Handshake(HandshakePacket {
        protocol_version: 1,
    }));
    bytes.extend(codec.write(&Packet::PlayerActions(Box::new(theirs))));
    bytes.extend(codec.write(&Packet::Handshake(HandshakePacket {
        protocol_version: 2,
    })));
    assert_eq!(a.receive_packets(&mut codec, &bytes, &mut events), Ok(()));
    assert_eq!(events.len(), 3);
    // Not yet waiting for the opponent: the queue is left alone.
    assert_eq!(a.process_opponent_actions(&mut events), Ok(()));
    assert_eq!(events.len(), 3);
    assert_eq!(a.tick(), 0);
    let _ = decide(&mut a, action(1), 1);
    assert_eq!(a.process_opponent_actions(&mut events), Ok(()));
    assert_eq!(a.tick(), 1);
    assert_eq!(a.opponent_actions().0, action(4));
    assert_eq!(
        events,
        vec![PacketEvent(Packet::Handshake(HandshakePacket {
            protocol_version: 2
        }))]
    );
    // Events of other kinds are dropped by a peer that waits.
    let _ = decide(&mut a, action(2), 2);
    assert_eq!(a.process_opponent_actions(&mut events), Ok(()));
    assert!(events.is_empty());
    assert_eq!(a.tick(), 1);
    assert_eq!(a.phase(), NetworkPhase::AwaitingData);
}

#[test]
fn a_forged_packet_in_the_queue_is_a_fault() {
    let mut a = NetworkState::new();
    let mut events = vec![
        PacketEvent(Packet::PlayerActions(Box::new(PlayerActionsPacket {
            prev_actions: action(0),
            nonce: 0,
            action_hash: commit(5, &action(3)),
        }))),
        PacketEvent(Packet::PlayerActions(Box::new(PlayerActionsPacket {
            prev_actions: action(4),
            nonce: 5,
            action_hash: [0; 32],
        }))),
    ];
    let _ = decide(&mut a, action(1), 1);
    assert_eq!(a.process_opponent_actions(&mut events), Ok(()));
    assert_eq!(events.len(), 1);
    let _ = decide(&mut a, action(2), 2);
    assert_eq!(
        a.process_opponent_actions(&mut events),
        Err(SyncError::SecurityFault)
    );
    assert!(events.is_empty());
    assert_eq!(a.result(), Some(MatchEnd::IntegrityFault));
    assert_eq!(a.tick(), 1);
}

#[test]
fn game_update_waits_for_the_end_of_the_tick() {
    let mut a = NetworkState::new();
    let mut buffer = vec![ControlMsgC2S::Jump, ControlMsgC2S::EndTick];
    // Not yet in the phase: nothing is taken.
    assert_eq!(a.run_game_update(&mut buffer), None);
    assert_eq!(buffer.len(), 2);
    a.send_control_start();
    let mut unfinished = vec![ControlMsgC2S::Jump];
    assert_eq!(a.run_game_update(&mut unfinished), None);
    assert_eq!(a.phase(), NetworkPhase::AwaitingAction);
    assert_eq!(unfinished, vec![ControlMsgC2S::Jump]);

    buffer.push(ControlMsgC2S::MoveLeft);
    let step = a.run_game_update(&mut buffer).unwrap();
    assert_eq!(buffer, vec![ControlMsgC2S::MoveLeft]);
    assert_eq!(a.phase(), NetworkPhase::AwaitingData);
    assert_eq!(step.actions.0, PlayerActions::default());
    assert_eq!(step.packet.prev_actions, PlayerActions::default());
    assert_eq!(step.packet.nonce, 0);

    // The next message reveals what was committed to, under the nonce drawn.
    let reply = PlayerActionsPacket {
        prev_actions: PlayerActions::default(),
        nonce: 0,
        action_hash: [0; 32],
    };
    assert_eq!(a.verify_reveal(&reply), Ok(true));
    a.send_control_start();
    let mut next = vec![ControlMsgC2S::EndTick];
    let second = a.run_game_update(&mut next).unwrap();
    let jumped = PlayerActions {
        bits: PlayerActions::JUMP,
        ..PlayerActions::default()
    };
    assert_eq!(second.packet.prev_actions, jumped);
    assert_eq!(second.actions.0, jumped);
    assert_eq!(
        commit(second.packet.nonce, &jumped),
        step.packet.action_hash
    );
}

#[test]
fn game_update_draws_fresh_nonces() {
    let mut nonces = Vec::new();
    for _ in 0..4 {
        let mut a = NetworkState::new();
        a.send_control_start();
        let mut buffer = vec![ControlMsgC2S::EndTick];
        let first = a.run_game_update(&mut buffer).unwrap();
        let reply = PlayerActionsPacket {
            prev_actions: PlayerActions::default(),
            nonce: 0,
            action_hash: [0; 32],
        };
        a.verify_reveal(&reply).unwrap();
        a.send_control_start();
        let mut buffer = vec![ControlMsgC2S::EndTick];
        let second = a.run_game_update(&mut buffer).unwrap();
        assert_eq!(
            commit(second.packet.nonce, &PlayerActions::default()),
            first.packet.action_hash
        );
        nonces.push(second.packet.nonce);
    }
    for i in 0..nonces.len() {
        for j in 0..i {
            assert_ne!(nonces[i], nonces[j]);
        }
    }
}

#[test]
fn the_seed_combines_both_nonces() {
    let mut a = NetworkState::new();
    a.send_control_start();
    a.commit_action(action(1), 0xFFFF_0000_0000_0000_1234_5678_9ABC_DEF0)
        .unwrap();
    let packet = PlayerActionsPacket {
        prev_actions: action(2),
        nonce: 0x0000_FFFF_0000_0000_0F0F_0F0F_0F0F_0F0F,
        action_hash: [0; 32],
    };
    assert_eq!(a.gen_seed(&packet), 0x1234_5678_9ABC_DEF0 ^ 0x0F0F_0F0F_0F0F_0F0F);
    let same = PlayerActionsPacket {
        nonce: 0xFFFF_0000_0000_0000_1234_5678_9ABC_DEF0,
        ..packet
    };
    assert_eq!(a.gen_seed(&same), 0);
}

#[test]
fn sync_error_messages() {
    assert_eq!(
        SyncError::SecurityFault.message(),
        "Opponent's previous actions hash does not match expected hash"
    );
    assert_eq!(SyncError::PeerDisconnected.message(), "Opponent disconnected");
}
