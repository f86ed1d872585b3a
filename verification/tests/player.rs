use agentduels::packets::{Item, PlayerActions};
use agentduels::player::{
    placed_block_type, pick_scorer, stands_in_player, BreakingStatus, BreakingStatusTracker,
    HurtCooldown, Inventory, ItemUsageStatus, ItemUsageStatusTracker, PlayerAnimation,
    PlayerAnimationIndices, PlayerID, Score, BREAKING_TICKS, HURT_COOLDOWN_TICKS, WINNING_SCORE,
};
use agentduels::world::{BlockPos, BlockType};

const ITEMS: [Item; 6] = [
    Item::Sword,
    Item::Pickaxe,
    Item::Bow,
    Item::Arrow,
    Item::Block,
    Item::GoldenApple,
];

fn at(x: i32, y: i32, z: i32) -> BlockPos {
    BlockPos { x, y, z }
}

fn with_bits(bits: u16) -> PlayerActions {
    PlayerActions {
        bits,
        ..PlayerActions::default()
    }
}

#[test]
fn item_names_and_ticks() {
    let names = ["Sword", "Pickaxe", "Bow", "Arrow", "Block", "GoldenApple"];
    let ticks = [0, 0, 40, 0, 0, 20];
    for i in 0..6 {
        assert_eq!(ITEMS[i].to_string(), names[i]);
        assert_eq!(ITEMS[i].ticks_needed(), ticks[i]);
    }
}

#[test]
fn animation_indices() {
    let indices = PlayerAnimationIndices::standard();
    assert_eq!(
        (
            indices.root,
            indices.idle,
            indices.walk,
            indices.swing,
            indices.draw_bow,
            indices.eat
        ),
        (0, 1, 2, 3, 4, 5)
    );
}

#[test]
fn hurt_cooldown_counts_down() {
    let mut cooldown = HurtCooldown::default();
    assert!(cooldown.is_over());
    cooldown.tick();
    assert_eq!(cooldown.0, 0);
    cooldown.start();
    assert_eq!(cooldown.0, 10);
    assert_eq!(HURT_COOLDOWN_TICKS, 10);
    for left in (0..10).rev() {
        assert!(!cooldown.is_over());
        cooldown.tick();
        assert_eq!(cooldown.0, left);
    }
    assert!(cooldown.is_over());
}

#[test]
fn score_wins_at_five() {
    let mut score = Score::default();
    assert_eq!(WINNING_SCORE, 5);
    for goals in 1..=4 {
        score.add_goal();
        assert_eq!(score.0, goals);
        assert!(!score.has_won());
    }
    score.add_goal();
    assert!(score.has_won());
    assert!(Score(u16::MAX).has_won());
}

#[test]
fn starting_inventory() {
    let inventory = Inventory::default();
    let counts = [1, 1, 1, 1, 128, 8];
    for i in 0..6 {
        assert_eq!(inventory.get_count(ITEMS[i]), counts[i]);
    }
    assert_eq!(inventory.get_selected_item(), Item::Sword);
    assert!(!inventory.has_changed());
    assert!(inventory.can_use_selected());
}

#[test]
fn inventory_add_and_remove() {
    let mut inventory = Inventory::default();
    inventory.remove_item(Item::Block, 28);
    assert_eq!(inventory.get_count(Item::Block), 100);
    assert!(!inventory.has_changed());
    inventory.remove_item(Item::Block, 101);
    assert_eq!(inventory.get_count(Item::Block), 0);
    inventory.remove_item(Item::Block, 1);
    assert_eq!(inventory.get_count(Item::Block), 0);
    inventory.add_item(Item::Arrow, 63);
    assert_eq!(inventory.get_count(Item::Arrow), 64);
    assert!(inventory.has_changed());
    inventory.add_item(Item::Arrow, u16::MAX - 64);
    assert_eq!(inventory.get_count(Item::Arrow), u16::MAX);
    assert_eq!(inventory.get_count(Item::Sword), 1);
    assert_eq!(inventory.get_count(Item::GoldenApple), 8);
}

#[test]
fn inventory_selection() {
    let mut inventory = Inventory::default();
    inventory.select_item(Item::Bow);
    assert_eq!(inventory.get_selected_item(), Item::Bow);
    assert!(inventory.has_changed());
    let mut other = Inventory::default();
    other.change_item(&PlayerActions::default());
    assert_eq!(other, Inventory::default());
    other.change_item(&PlayerActions {
        item_change: Some(Item::GoldenApple),
        ..PlayerActions::default()
    });
    assert_eq!(other.get_selected_item(), Item::GoldenApple);
    other.remove_item(Item::GoldenApple, 8);
    assert!(!other.can_use_selected());
}

#[test]
fn breaking_by_hand_takes_thirty_ticks() {
    assert_eq!(BREAKING_TICKS, 30);
    let target = Some(at(1, 2, 3));
    let mut tracker = BreakingStatusTracker::default();
    tracker.update(true, target, Item::Sword);
    assert_eq!(
        tracker.0,
        Some(BreakingStatus {
            block_pos: at(1, 2, 3),
            ticks_left: 30
        })
    );
    assert_eq!(tracker.broken_block(), None);
    for left in (0..30).rev() {
        tracker.update(true, target, Item::Block);
        assert_eq!(tracker.0.unwrap().ticks_left, left);
    }
    assert_eq!(tracker.broken_block(), Some(at(1, 2, 3)));
    tracker.update(true, target, Item::Block);
    assert_eq!(tracker.0, None);
    assert_eq!(tracker.broken_block(), None);
}

#[test]
fn breaking_with_a_pickaxe_is_three_times_as_fast() {
    let target = Some(at(0, 0, 0));
    let mut tracker = BreakingStatusTracker::default();
    tracker.update(true, target, Item::Pickaxe);
    for step in 1..=10 {
        tracker.update(true, target, Item::Pickaxe);
        assert_eq!(tracker.0.unwrap().ticks_left, 30 - 3 * step);
    }
    assert_eq!(tracker.broken_block(), Some(at(0, 0, 0)));
    // A count that the pickaxe would take below zero ends the status.
    let mut short = BreakingStatusTracker(Some(BreakingStatus {
        block_pos: at(0, 0, 0),
        ticks_left: 2,
    }));
    short.update(true, target, Item::Pickaxe);
    assert_eq!(short.0, None);
}

#[test]
fn breaking_is_lost_by_looking_away() {
    let mut tracker = BreakingStatusTracker(Some(BreakingStatus {
        block_pos: at(1, 1, 1),
        ticks_left: 12,
    }));
    let kept = tracker;
    tracker.update(false, None, Item::Sword);
    assert_eq!(tracker, kept);
    tracker.update(false, Some(at(9, 9, 9)), Item::Sword);
    assert_eq!(tracker, kept);
    tracker.update(true, Some(at(1, 1, 2)), Item::Sword);
    assert_eq!(tracker.0, None);
    let mut tracker = kept;
    tracker.update(true, None, Item::Sword);
    assert_eq!(tracker.0, None);
    tracker.update(true, None, Item::Sword);
    assert_eq!(tracker.0, None);
}

#[test]
fn using_a_bow_takes_forty_ticks() {
    let mut inventory = Inventory::default();
    inventory.select_item(Item::Bow);
    let mut tracker = ItemUsageStatusTracker::default();
    tracker.update(true, &inventory);
    assert_eq!(tracker.0, Some(ItemUsageStatus::new(Item::Bow)));
    assert_eq!(tracker.0.unwrap().ticks_left, 40);
    assert!(!tracker.takes_effect(Item::Bow));
    for left in (0..40).rev() {
        tracker.update(true, &inventory);
        assert_eq!(tracker.0.unwrap().ticks_left, left);
    }
    assert!(tracker.takes_effect(Item::Bow));
    assert!(!tracker.takes_effect(Item::GoldenApple));
    tracker.update(true, &inventory);
    assert_eq!(tracker.0, None);
    assert!(!tracker.takes_effect(Item::Bow));
}

#[test]
fn usage_ends_and_restarts() {
    let mut inventory = Inventory::default();
    inventory.select_item(Item::GoldenApple);
    let mut tracker = ItemUsageStatusTracker::default();
    tracker.update(false, &inventory);
    assert_eq!(tracker.0, None);
    tracker.update(true, &inventory);
    tracker.update(true, &inventory);
    assert_eq!(
        tracker.0,
        Some(ItemUsageStatus {
            item: Item::GoldenApple,
            ticks_left: 19
        })
    );
    inventory.select_item(Item::Bow);
    tracker.update(true, &inventory);
    assert_eq!(
        tracker.0,
        Some(ItemUsageStatus {
            item: Item::Bow,
            ticks_left: 40
        })
    );
    tracker.update(false, &inventory);
    assert_eq!(tracker.0, None);
    inventory.remove_item(Item::Bow, 1);
    tracker.update(true, &inventory);
    assert_eq!(tracker.0, None);
    // An item without a count takes effect in the tick after it is first used.
    inventory.select_item(Item::Sword);
    tracker.update(true, &inventory);
    assert!(tracker.takes_effect(Item::Sword));
}

#[test]
fn animations() {
    let inventory = Inventory::default();
    let idle = PlayerAnimation::default();
    assert_eq!(idle, PlayerAnimation::Idle);
    assert_eq!(
        idle.next(&with_bits(PlayerActions::ATTACK), &inventory),
        PlayerAnimation::Swing
    );
    assert_eq!(
        idle.next(&with_bits(PlayerActions::DIG_BLOCK), &inventory),
        PlayerAnimation::Swing
    );
    // Placing swings only with a block in hand.
    assert_eq!(
        idle.next(&with_bits(PlayerActions::PLACE_BLOCK), &inventory),
        PlayerAnimation::Idle
    );
    let mut builder = inventory;
    builder.select_item(Item::Block);
    assert_eq!(
        idle.next(&with_bits(PlayerActions::PLACE_BLOCK), &builder),
        PlayerAnimation::Swing
    );
    builder.remove_item(Item::Block, 128);
    assert_eq!(
        PlayerAnimation::Eat.next(&with_bits(PlayerActions::PLACE_BLOCK), &builder),
        PlayerAnimation::Idle
    );
    let mut archer = inventory;
    archer.select_item(Item::Bow);
    assert_eq!(
        idle.next(&with_bits(PlayerActions::USE_ITEM), &archer),
        PlayerAnimation::DrawBow
    );
    let mut eater = inventory;
    eater.select_item(Item::GoldenApple);
    assert_eq!(
        idle.next(&with_bits(PlayerActions::USE_ITEM), &eater),
        PlayerAnimation::Eat
    );
    // Using any other item leaves the animation as it is.
    assert_eq!(
        PlayerAnimation::DrawBow.next(&with_bits(PlayerActions::USE_ITEM), &inventory),
        PlayerAnimation::DrawBow
    );
    assert_eq!(
        PlayerAnimation::Swing.next(&with_bits(PlayerActions::JUMP), &inventory),
        PlayerAnimation::Idle
    );
    assert_eq!(
        idle.next(
            &with_bits(PlayerActions::USE_ITEM | PlayerActions::ATTACK),
            &eater
        ),
        PlayerAnimation::Swing
    );
}

#[test]
fn placed_blocks_have_the_players_colour() {
    assert_eq!(placed_block_type(PlayerID(0)), BlockType::RedBlock);
    assert_eq!(placed_block_type(PlayerID(1)), BlockType::BlueBlock);
    assert_eq!(placed_block_type(PlayerID(7)), BlockType::BlueBlock);
}

#[test]
fn blocks_are_not_placed_into_players() {
    let feet = at(3, 1, -2);
    assert!(stands_in_player(at(3, 1, -2), feet));
    assert!(stands_in_player(at(3, 2, -2), feet));
    assert!(!stands_in_player(at(3, 3, -2), feet));
    assert!(!stands_in_player(at(3, 0, -2), feet));
    assert!(!stands_in_player(at(4, 1, -2), feet));
    assert!(!stands_in_player(at(3, 1, -1), feet));
}

#[test]
fn one_of_the_scorers_scores() {
    assert_eq!(pick_scorer(&[]), None);
    assert_eq!(pick_scorer(&[PlayerID(1)]), Some(PlayerID(1)));
    let both = [PlayerID(0), PlayerID(1)];
    let mut seen = [false, false];
    for _ in 0..200 {
        let scorer = pick_scorer(&both).unwrap();
        assert!(scorer == PlayerID(0) || scorer == PlayerID(1));
        seen[scorer.0 as usize] = true;
    }
    assert!(seen[0] && seen[1]);
}
