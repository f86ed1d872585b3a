use agentduels::packets::{
    Item, Packet, PlayerActions, PlayerActionsPacket, Rotation, NO_ITEM_CHANGE,
};

fn actions(bits: u16) -> PlayerActions {
    PlayerActions {
        bits,
        ..PlayerActions::default()
    }
}

#[test]
fn default_actions_are_empty() {
    let a = PlayerActions::default();
    assert_eq!(a.bits, 0);
    assert_eq!(a.rotation, Rotation { yaw: 0, pitch: 0 });
    assert_eq!(a.item_change, None);
}

#[test]
fn flag_values() {
    assert_eq!(PlayerActions::MOVE_FORWARD, 1 << 0);
    assert_eq!(PlayerActions::MOVE_BACKWARD, 1 << 1);
    assert_eq!(PlayerActions::MOVE_LEFT, 1 << 2);
    assert_eq!(PlayerActions::MOVE_RIGHT, 1 << 3);
    assert_eq!(PlayerActions::JUMP, 1 << 4);
    assert_eq!(PlayerActions::ATTACK, 1 << 5);
    assert_eq!(PlayerActions::USE_ITEM, 1 << 6);
    assert_eq!(PlayerActions::PLACE_BLOCK, 1 << 7);
    assert_eq!(PlayerActions::DIG_BLOCK, 1 << 8);
    assert_eq!(
        PlayerActions::HAND_ACTION_MASK,
        PlayerActions::ATTACK
            + PlayerActions::USE_ITEM
            + PlayerActions::PLACE_BLOCK
            + PlayerActions::DIG_BLOCK
    );
}

#[test]
fn set_unset_is_set() {
    let mut a = PlayerActions::default();
    assert!(!a.is_set(PlayerActions::JUMP));
    a.set(PlayerActions::JUMP);
    a.set(PlayerActions::MOVE_LEFT);
    assert!(a.is_set(PlayerActions::JUMP));
    assert!(a.is_set(PlayerActions::MOVE_LEFT));
    assert!(!a.is_set(PlayerActions::MOVE_RIGHT));
    assert_eq!(a.bits, 0x0014);
    a.unset(PlayerActions::JUMP);
    assert!(!a.is_set(PlayerActions::JUMP));
    assert_eq!(a.bits, 0x0004);
    a.unset(PlayerActions::JUMP);
    assert_eq!(a.bits, 0x0004);
}

#[test]
fn set_does_not_check_hand_actions() {
    let mut a = actions(PlayerActions::ATTACK);
    a.set(PlayerActions::DIG_BLOCK);
    assert_eq!(a.bits, PlayerActions::ATTACK | PlayerActions::DIG_BLOCK);
}

#[test]
fn checked_set_first_hand_action_wins() {
    for first in [
        PlayerActions::ATTACK,
        PlayerActions::USE_ITEM,
        PlayerActions::PLACE_BLOCK,
        PlayerActions::DIG_BLOCK,
    ] {
        for second in [
            PlayerActions::ATTACK,
            PlayerActions::USE_ITEM,
            PlayerActions::PLACE_BLOCK,
            PlayerActions::DIG_BLOCK,
        ] {
            let mut a = actions(first | PlayerActions::JUMP);
            a.checked_set(second);
            assert_eq!(a.bits, first | PlayerActions::JUMP);
        }
    }
}

#[test]
fn checked_set_sets_the_first_hand_action() {
    let mut a = actions(PlayerActions::MOVE_FORWARD);
    a.checked_set(PlayerActions::USE_ITEM);
    assert_eq!(a.bits, PlayerActions::MOVE_FORWARD | PlayerActions::USE_ITEM);
}

#[test]
fn checked_set_of_other_flags_is_a_set() {
    let mut a = actions(PlayerActions::ATTACK);
    a.checked_set(PlayerActions::JUMP);
    assert_eq!(a.bits, PlayerActions::ATTACK | PlayerActions::JUMP);
}

#[test]
fn checked_set_keeps_one_of_several_hand_actions() {
    let mut a = PlayerActions::default();
    a.checked_set(PlayerActions::ATTACK | PlayerActions::USE_ITEM);
    assert_eq!(a.bits, PlayerActions::ATTACK);
    assert!((a.bits & PlayerActions::HAND_ACTION_MASK).count_ones() <= 1);

    let mut b = actions(PlayerActions::MOVE_LEFT);
    b.checked_set(PlayerActions::JUMP | PlayerActions::DIG_BLOCK | PlayerActions::PLACE_BLOCK);
    assert_eq!(
        b.bits,
        PlayerActions::MOVE_LEFT | PlayerActions::JUMP | PlayerActions::PLACE_BLOCK
    );

    let mut c = PlayerActions::default();
    c.checked_set(PlayerActions::HAND_ACTION_MASK);
    assert_eq!(c.bits, PlayerActions::ATTACK);
}

#[test]
fn checked_set_never_leaves_two_hand_actions() {
    let starts = [
        0,
        PlayerActions::JUMP,
        PlayerActions::ATTACK,
        PlayerActions::USE_ITEM | PlayerActions::MOVE_FORWARD,
        PlayerActions::PLACE_BLOCK,
        PlayerActions::DIG_BLOCK | PlayerActions::JUMP,
    ];
    for start in starts {
        for flag in 0..=0x03FFu16 {
            let mut a = actions(start);
            a.checked_set(flag);
            assert!((a.bits & PlayerActions::HAND_ACTION_MASK).count_ones() <= 1);
            if start & PlayerActions::HAND_ACTION_MASK != 0
                && flag & PlayerActions::HAND_ACTION_MASK != 0
            {
                assert_eq!(a.bits, start);
            } else {
                assert_eq!(
                    a.bits & !PlayerActions::HAND_ACTION_MASK,
                    (start | flag) & !PlayerActions::HAND_ACTION_MASK
                );
            }
        }
    }
}

#[test]
fn checked_set_drops_a_mixed_flag_whole() {
    let mut a = actions(PlayerActions::ATTACK);
    a.checked_set(PlayerActions::JUMP | PlayerActions::DIG_BLOCK);
    assert_eq!(a.bits, PlayerActions::ATTACK);
}

#[test]
fn checked_set_keeps_rotation_and_item() {
    let mut a = PlayerActions {
        bits: PlayerActions::ATTACK,
        rotation: Rotation {
            yaw: 1.5f32.to_bits(),
            pitch: (-0.25f32).to_bits(),
        },
        item_change: Some(Item::Bow),
    };
    let before = a;
    a.checked_set(PlayerActions::PLACE_BLOCK);
    assert_eq!(a, before);
}

#[test]
fn as_bytes_layout() {
    let a = PlayerActions {
        bits: 0x0123,
        rotation: Rotation {
            yaw: 1.0f32.to_bits(),
            pitch: (-2.5f32).to_bits(),
        },
        item_change: Some(Item::Block),
    };
    let mut expected = Vec::new();
    expected.extend_from_slice(&0x0123u16.to_le_bytes());
    expected.extend_from_slice(&1.0f32.to_le_bytes());
    expected.extend_from_slice(&(-2.5f32).to_le_bytes());
    expected.push(4);
    assert_eq!(a.as_bytes(), expected);
    assert_eq!(NO_ITEM_CHANGE, 0xFF);
    assert_eq!(
        a.as_bytes(),
        vec![0x23, 0x01, 0x00, 0x00, 0x80, 0x3F, 0x00, 0x00, 0x20, 0xC0, 0x04]
    );
}

#[test]
fn as_bytes_of_nothing() {
    let mut expected = vec![0u8; 11];
    expected[10] = 0xFF;
    assert_eq!(PlayerActions::default().as_bytes(), expected);
}

#[test]
fn as_bytes_tells_no_change_from_the_first_item() {
    let none = PlayerActions::default();
    let sword = PlayerActions {
        item_change: Some(Item::Sword),
        ..PlayerActions::default()
    };
    assert_ne!(none, sword);
    assert_ne!(none.as_bytes(), sword.as_bytes());
    assert_eq!(sword.as_bytes(), vec![0u8; 11]);
}

#[test]
fn as_bytes_tells_every_item_change_apart() {
    let changes = [
        None,
        Some(Item::Sword),
        Some(Item::Pickaxe),
        Some(Item::Bow),
        Some(Item::Arrow),
        Some(Item::Block),
        Some(Item::GoldenApple),
    ];
    for (i, first) in changes.iter().enumerate() {
        for (j, second) in changes.iter().enumerate() {
            let a = PlayerActions {
                item_change: *first,
                ..PlayerActions::default()
            };
            let b = PlayerActions {
                item_change: *second,
                ..PlayerActions::default()
            };
            assert_eq!(a.as_bytes() == b.as_bytes(), i == j);
        }
    }
}

#[test]
fn item_indices() {
    let items = [
        Item::Sword,
        Item::Pickaxe,
        Item::Bow,
        Item::Arrow,
        Item::Block,
        Item::GoldenApple,
    ];
    for (i, item) in items.iter().enumerate() {
        assert_eq!(item.index(), i as u8);
        assert_eq!(Item::from_index(i as u8), Some(*item));
    }
    assert_eq!(Item::from_index(6), None);
    assert_eq!(Item::from_index(255), None);
}

#[test]
fn packet_clone_is_equal() {
    let packet = Packet::PlayerActions(Box::new(PlayerActionsPacket {
        prev_actions: actions(3),
        nonce: 77,
        action_hash: [5; 32],
    }));
    assert_eq!(packet.clone(), packet);
}
