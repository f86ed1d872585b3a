use agentduels::commit::{commit, opens, same_hash};
use agentduels::packets::{Item, PlayerActions, Rotation};

fn action_of(bits: u16, yaw: f32, pitch: f32, item: Option<Item>) -> PlayerActions {
    PlayerActions {
        bits,
        rotation: Rotation {
            yaw: yaw.to_bits(),
            pitch: pitch.to_bits(),
        },
        item_change: item,
    }
}

#[test]
fn commitment_is_blake3_of_nonce_and_action_bytes() {
    let a = action_of(PlayerActions::JUMP, 1.25, -0.5, Some(Item::Pickaxe));
    let nonce: u128 = 0x0102_0304_0506_0708_090A_0B0C_0D0E_0F10;
    let mut hasher = blake3::Hasher::new();
    hasher.update(&nonce.to_le_bytes());
    hasher.update(a.as_bytes().as_slice());
    let expected: [u8; 32] = hasher.finalize().into();
    assert_eq!(commit(nonce, &a), expected);
}

#[test]
fn commitment_of_nothing_under_nonce_one() {
    let mut input = vec![0u8; 27];
    input[0] = 1;
    input[26] = 0xFF;
    let expected: [u8; 32] = blake3::hash(&input).into();
    assert_eq!(commit(1, &PlayerActions::default()), expected);
    assert_ne!(commit(1, &PlayerActions::default()), [0u8; 32]);
}

#[test]
fn commitment_is_deterministic() {
    let a = action_of(0x01FF, 3.0, 0.125, Some(Item::Bow));
    for nonce in [0u128, 1, 42, u128::MAX] {
        let first = commit(nonce, &a);
        for _ in 0..5 {
            assert_eq!(commit(nonce, &a), first);
        }
    }
}

#[test]
fn commitment_tells_actions_apart() {
    let base = action_of(PlayerActions::MOVE_FORWARD, 1.0, 2.0, Some(Item::Bow));
    let others = [
        action_of(PlayerActions::MOVE_BACKWARD, 1.0, 2.0, Some(Item::Bow)),
        action_of(PlayerActions::MOVE_FORWARD, 1.5, 2.0, Some(Item::Bow)),
        action_of(PlayerActions::MOVE_FORWARD, 1.0, 2.5, Some(Item::Bow)),
        action_of(PlayerActions::MOVE_FORWARD, 1.0, 2.0, Some(Item::Arrow)),
        action_of(PlayerActions::MOVE_FORWARD, 1.0, 2.0, None),
    ];
    for nonce in [0u128, 7, u128::MAX] {
        for other in &others {
            assert_ne!(commit(nonce, &base), commit(nonce, other));
        }
    }
}

#[test]
fn commitment_tells_nonces_apart() {
    let a = action_of(3, 0.0, 0.0, None);
    assert_ne!(commit(1, &a), commit(2, &a));
    assert_ne!(commit(1, &a), commit(1 << 64, &a));
}

#[test]
fn commitment_tells_no_change_from_the_first_item() {
    let none = action_of(5, 1.0, 1.0, None);
    let sword = action_of(5, 1.0, 1.0, Some(Item::Sword));
    assert_ne!(commit(9, &none), commit(9, &sword));
    assert!(!opens(&commit(9, &none), 9, &sword));
    assert!(!opens(&commit(9, &sword), 9, &none));
    let empty = PlayerActions::default();
    let empty_sword = PlayerActions {
        item_change: Some(Item::Sword),
        ..PlayerActions::default()
    };
    assert_ne!(commit(0, &empty), commit(0, &empty_sword));
}

#[test]
fn opens_only_what_was_committed() {
    let a = action_of(PlayerActions::ATTACK, 0.5, 0.5, Some(Item::Block));
    let hash = commit(99, &a);
    assert!(opens(&hash, 99, &a));
    assert!(!opens(&hash, 98, &a));
    assert!(!opens(&hash, 99, &action_of(PlayerActions::JUMP, 0.5, 0.5, Some(Item::Block))));
    assert!(!opens(&[0; 32], 99, &a));
}

#[test]
fn same_hash_compares_every_byte() {
    let a = [7u8; 32];
    assert!(same_hash(&a, &a.clone()));
    for i in 0..32 {
        let mut b = a;
        b[i] ^= 0x80;
        assert!(!same_hash(&a, &b));
    }
}
