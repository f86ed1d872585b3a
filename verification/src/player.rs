//! The players' state between ticks, and the rules that change it.

use crate::packets::{Item, PlayerActions};
use crate::trusted::random_below;
use crate::world::{BlockPos, BlockType};
use vstd::prelude::*;

verus! {

/// The places of a player model's animations.
#[derive(Clone, Copy, Debug, PartialEq, Eq, Structural)]
pub struct PlayerAnimationIndices {
    pub root: u32,
    pub idle: u32,
    pub walk: u32,
    pub swing: u32,
    pub draw_bow: u32,
    pub eat: u32,
}

impl PlayerAnimationIndices {
    /// The places in the player model that the game ships.
    pub fn standard() -> (indices: PlayerAnimationIndices)
        ensures
            indices == (PlayerAnimationIndices {
                root: 0,
                idle: 1,
                walk: 2,
                swing: 3,
                draw_bow: 4,
                eat: 5,
            }),
    {
        PlayerAnimationIndices { root: 0, idle: 1, walk: 2, swing: 3, draw_bow: 4, eat: 5 }
    }
}

/// A player's index in the session.
#[derive(Clone, Copy, Debug, PartialEq, Eq, Hash, Structural)]
pub struct PlayerID(pub u16);

/// The number of ticks for which a player that was hurt cannot be hurt
/// again.
pub const HURT_COOLDOWN_TICKS: u8 = 10;

/// The number of ticks that breaking a block takes by hand.
pub const BREAKING_TICKS: usize = 30;

/// The number of goals that win a match.
pub const WINNING_SCORE: u16 = 5;

impl Item {
    /// The item's name.
    pub open spec fn spec_name(self) -> Seq<char> {
        match self {
            Item::Sword => "Sword"@,
            Item::Pickaxe => "Pickaxe"@,
            Item::Bow => "Bow"@,
            Item::Arrow => "Arrow"@,
            Item::Block => "Block"@,
            Item::GoldenApple => "GoldenApple"@,
        }
    }

    /// The number of ticks for which an item must be used before it takes
    /// effect.
    pub open spec fn spec_ticks_needed(&self) -> usize {
        match *self {
            Item::Bow => 40,
            Item::GoldenApple => 20,
            _ => 0,
        }
    }

    /// The item's name.
    pub fn to_string(&self) -> (name: &'static str)
        ensures
            name@ == self.spec_name(),
    {
        match self {
            Item::Sword => "Sword",
            Item::Pickaxe => "Pickaxe",
            Item::Bow => "Bow",
            Item::Arrow => "Arrow",
            Item::Block => "Block",
            Item::GoldenApple => "GoldenApple",
        }
    }

    /// The number of ticks for which the item must be used before it takes
    /// effect.
    #[verifier::when_used_as_spec(spec_ticks_needed)]
    pub fn ticks_needed(&self) -> (ticks: usize)
        ensures
            ticks == self.spec_ticks_needed(),
    {
        match self {
            Item::Sword => 0,
            Item::Pickaxe => 0,
            Item::Bow => 40,
            Item::Arrow => 0,
            Item::Block => 0,
            Item::GoldenApple => 20,
        }
    }
}

/// Hurt cooldown in ticks: the player cannot be hurt again until it is 0.
#[derive(Clone, Copy, Debug, PartialEq, Eq, Structural)]
pub struct HurtCooldown(pub u8);

impl HurtCooldown {
    pub fn start(&mut self)
        ensures
            final(self).0 == HURT_COOLDOWN_TICKS,
    {
        self.0 = HURT_COOLDOWN_TICKS;
    }

    /// One tick passes.
    pub fn tick(&mut self)
        ensures
            final(self).0 == if old(self).0 == 0 {
                0
            } else {
                old(self).0 - 1
            },
    {
        self.0 = self.0.saturating_sub(1);
    }

    /// Whether the player can be hurt.
    pub fn is_over(&self) -> (over: bool)
        ensures
            over == (self.0 == 0),
    {
        self.0 == 0
    }
}

impl Default for HurtCooldown {
    fn default() -> (cooldown: HurtCooldown)
        ensures
            cooldown.0 == 0,
    {
        HurtCooldown(0)
    }
}

/// The number of goals that a player has scored.
#[derive(Clone, Copy, Debug, PartialEq, Eq, Structural)]
pub struct Score(pub u16);

impl Score {
    /// One more goal.
    pub fn add_goal(&mut self)
        requires
            old(self).0 < u16::MAX,
        ensures
            final(self).0 == old(self).0 + 1,
    {
        self.0 += 1;
    }

    /// Whether the score wins the match.
    pub fn has_won(&self) -> (won: bool)
        ensures
            won == (self.0 >= WINNING_SCORE),
    {
        self.0 >= WINNING_SCORE
    }
}

impl Default for Score {
    fn default() -> (score: Score)
        ensures
            score.0 == 0,
    {
        Score(0)
    }
}

/// What a player carries: a count for each item, and the item in hand.
#[derive(Clone, Copy, Debug, PartialEq, Eq)]
pub struct Inventory {
    contents: [u16; 6],
    selected: Item,
    changed: bool,
}

/// The count of each item that a player starts with.
pub open spec fn starting_count(item: Item) -> u16 {
    match item {
        Item::Block => 128,
        Item::GoldenApple => 8,
        _ => 1,
    }
}

impl Inventory {
    /// The number of `item` carried.
    pub closed spec fn count(&self, item: Item) -> u16 {
        self.contents[item.spec_index() as int]
    }

    /// The item in hand.
    pub closed spec fn selected(&self) -> Item {
        self.selected
    }

    /// Whether an item was added or selected since the inventory was made.
    pub closed spec fn changed(&self) -> bool {
        self.changed
    }

    pub fn get_count(&self, item: Item) -> (count: u16)
        ensures
            count == self.count(item),
    {
        self.contents[item.index() as usize]
    }

    pub fn add_item(&mut self, item: Item, amount: u16)
        requires
            old(self).count(item) + amount <= u16::MAX,
        ensures
            final(self).count(item) == old(self).count(item) + amount,
            forall|other: Item|
                other != item ==> final(self).count(other) == old(self).count(other),
            final(self).selected() == old(self).selected(),
            final(self).changed(),
    {
        let i = item.index() as usize;
        self.contents[i] = self.contents[i] + amount;
        self.changed = true;
    }

    /// Takes `amount` of `item` away, or all of it where fewer are
    /// carried.
    pub fn remove_item(&mut self, item: Item, amount: u16)
        ensures
            final(self).count(item) == if old(self).count(item) >= amount {
                old(self).count(item) - amount
            } else {
                0
            },
            forall|other: Item|
                other != item ==> final(self).count(other) == old(self).count(other),
            final(self).selected() == old(self).selected(),
            final(self).changed() == old(self).changed(),
    {
        let i = item.index() as usize;
        self.contents[i] = self.contents[i].saturating_sub(amount);
    }

    pub fn select_item(&mut self, item: Item)
        ensures
            final(self).selected() == item,
            forall|other: Item| final(self).count(other) == old(self).count(other),
            final(self).changed(),
    {
        self.selected = item;
        self.changed = true;
    }

    pub fn get_selected_item(&self) -> (item: Item)
        ensures
            item == self.selected(),
    {
        self.selected
    }

    pub fn has_changed(&self) -> (changed: bool)
        ensures
            changed == self.changed(),
    {
        self.changed
    }

    /// Takes in hand the item that an action changes to, if it changes to
    /// one.
    pub fn change_item(&mut self, actions: &PlayerActions)
        ensures
            forall|other: Item| final(self).count(other) == old(self).count(other),
            match actions.item_change {
                Some(item) => final(self).selected() == item && final(self).changed(),
                None => *final(self) == *old(self),
            },
    {
        if let Some(item) = actions.item_change {
            self.select_item(item);
        }
    }

    /// Whether the item in hand is there to be used.
    pub fn can_use_selected(&self) -> (usable: bool)
        ensures
            usable == (self.count(self.selected()) > 0),
    {
        self.get_count(self.selected) > 0
    }
}

impl Default for Inventory {
    fn default() -> (inventory: Inventory)
        ensures
            forall|item: Item| inventory.count(item) == starting_count(item),
            inventory.selected() == Item::Sword,
            !inventory.changed(),
    {
        Inventory { contents: [1, 1, 1, 1, 128, 8], selected: Item::Sword, changed: false }
    }
}

/// The block that a player is breaking.
#[derive(Clone, Copy, Debug, PartialEq, Eq, Structural)]
pub struct BreakingStatus {
    pub block_pos: BlockPos,
    pub ticks_left: usize,
}

/// Tracker for the player's block breaking status.
#[derive(Clone, Copy, Debug, PartialEq, Eq, Structural)]
pub struct BreakingStatusTracker(pub Option<BreakingStatus>);

/// The number of ticks by which one tick of digging advances: a pickaxe
/// digs three times as fast as anything else.
pub open spec fn digging_speed(selected: Item) -> usize {
    if selected == Item::Pickaxe {
        3
    } else {
        1
    }
}

/// The breaking status after a tick. A player that does not dig keeps its
/// status. A player that digs at nothing loses it. Digging at a block
/// starts a count of `BREAKING_TICKS`, digging on at the same block lowers
/// the count, and digging at another block, or past the end of the count,
/// ends the status.
pub open spec fn breaking_after(
    status: Option<BreakingStatus>,
    digging: bool,
    target: Option<BlockPos>,
    selected: Item,
) -> Option<BreakingStatus> {
    if !digging {
        status
    } else {
        match target {
            None => None,
            Some(block_pos) => match status {
                None => Some(BreakingStatus { block_pos, ticks_left: BREAKING_TICKS }),
                Some(current) => if block_pos == current.block_pos && current.ticks_left
                    >= digging_speed(selected) {
                    Some(
                        BreakingStatus {
                            block_pos,
                            ticks_left: (current.ticks_left - digging_speed(selected)) as usize,
                        },
                    )
                } else {
                    None
                },
            },
        }
    }
}

impl BreakingStatusTracker {
    /// One tick passes: `digging` tells whether the player digs, `target`
    /// the block that it looks at, `selected` the item in its hand.
    pub fn update(&mut self, digging: bool, target: Option<BlockPos>, selected: Item)
        ensures
            final(self).0 == breaking_after(old(self).0, digging, target, selected),
    {
        if digging {
            if let Some(block_pos) = target {
                if let Some(breaking_status) = self.0 {
                    if block_pos == breaking_status.block_pos {
                        let ticks_advanced: usize = match selected {
                            Item::Pickaxe => 3,
                            _ => 1,
                        };
                        if let Some(ticks_left) = breaking_status.ticks_left.checked_sub(
                            ticks_advanced,
                        ) {
                            self.0 = Some(BreakingStatus { block_pos, ticks_left });
                        } else {
                            self.0 = None;
                        }
                    } else {
                        self.0 = None;
                    }
                } else {
                    self.0 = Some(BreakingStatus { block_pos, ticks_left: BREAKING_TICKS });
                }
            } else {
                self.0 = None;
            }
        }
    }

    /// The block that breaks now: the one whose count has reached zero.
    pub fn broken_block(&self) -> (broken: Option<BlockPos>)
        ensures
            broken == match self.0 {
                Some(status) => if status.ticks_left == 0 {
                    Some(status.block_pos)
                } else {
                    None
                },
                None => None,
            },
    {
        match self.0 {
            Some(status) => {
                if status.ticks_left > 0 {
                    None
                } else {
                    Some(status.block_pos)
                }
            },
            None => None,
        }
    }
}

impl Default for BreakingStatusTracker {
    fn default() -> (tracker: BreakingStatusTracker)
        ensures
            tracker.0 is None,
    {
        BreakingStatusTracker(None)
    }
}

/// The item that a player is using.
#[derive(Clone, Copy, Debug, PartialEq, Eq, Structural)]
pub struct ItemUsageStatus {
    pub item: Item,
    pub ticks_left: usize,
}

impl ItemUsageStatus {
    pub fn new(item: Item) -> (status: ItemUsageStatus)
        ensures
            status == (ItemUsageStatus { item, ticks_left: item.spec_ticks_needed() }),
    {
        ItemUsageStatus { item, ticks_left: item.ticks_needed() }
    }
}

/// Tracker for the player's item usage status.
#[derive(Clone, Copy, Debug, PartialEq, Eq, Structural)]
pub struct ItemUsageStatusTracker(pub Option<ItemUsageStatus>);

/// The usage status after a tick. A player that does not use an item, or
/// has none of the item in hand, has no status. Using starts a count of
/// the item's `ticks_needed`, using on lowers the count, and using past
/// the end of the count ends the status. Taking another item in hand
/// starts its count.
pub open spec fn usage_after(
    status: Option<ItemUsageStatus>,
    using: bool,
    selected: Item,
    count: u16,
) -> Option<ItemUsageStatus> {
    if !(using && count > 0) {
        None
    } else {
        match status {
            Some(current) => if selected != current.item {
                Some(ItemUsageStatus { item: selected, ticks_left: selected.spec_ticks_needed() })
            } else if current.ticks_left >= 1 {
                Some(
                    ItemUsageStatus {
                        item: current.item,
                        ticks_left: (current.ticks_left - 1) as usize,
                    },
                )
            } else {
                None
            },
            None => Some(
                ItemUsageStatus { item: selected, ticks_left: selected.spec_ticks_needed() },
            ),
        }
    }
}

impl ItemUsageStatusTracker {
    /// One tick passes: `using` tells whether the player uses the item in
    /// its hand.
    pub fn update(&mut self, using: bool, inventory: &Inventory)
        ensures
            final(self).0 == usage_after(
                old(self).0,
                using,
                inventory.selected(),
                inventory.count(inventory.selected()),
            ),
    {
        let selected = inventory.get_selected_item();
        let usable = using && inventory.get_count(selected) > 0;
        if let Some(item_usage) = self.0 {
            if usable {
                if selected == item_usage.item {
                    if let Some(ticks_left) = item_usage.ticks_left.checked_sub(1) {
                        self.0 = Some(ItemUsageStatus { item: item_usage.item, ticks_left });
                    } else {
                        self.0 = None;
                    }
                } else {
                    self.0 = Some(ItemUsageStatus::new(selected));
                }
            } else {
                self.0 = None;
            }
        } else {
            if usable {
                self.0 = Some(ItemUsageStatus::new(selected));
            }
        }
    }

    /// Whether the use of `item` takes effect now: it is the item in use
    /// and its count has reached zero.
    pub fn takes_effect(&self, item: Item) -> (now: bool)
        ensures
            now == (self.0 matches Some(status) && status.item == item && status.ticks_left == 0),
    {
        match self.0 {
            Some(status) => status.item == item && status.ticks_left == 0,
            None => false,
        }
    }
}

impl Default for ItemUsageStatusTracker {
    fn default() -> (tracker: ItemUsageStatusTracker)
        ensures
            tracker.0 is None,
    {
        ItemUsageStatusTracker(None)
    }
}

/// What a player's model is doing.
#[derive(Clone, Copy, Debug, PartialEq, Eq, Structural)]
pub enum PlayerAnimation {
    Idle,
    Swing,
    DrawBow,
    Eat,
}

impl Default for PlayerAnimation {
    fn default() -> (animation: PlayerAnimation)
        ensures
            animation == PlayerAnimation::Idle,
    {
        PlayerAnimation::Idle
    }
}

/// Whether `flag` is set in `bits`.
pub open spec fn flag_set(bits: u16, flag: u16) -> bool {
    bits & flag != 0
}

/// The animation after a tick. A player that attacks, digs, or places a
/// block that it has in hand, swings. Otherwise a player that uses the
/// item in its hand, and has one, draws a bow or eats an apple, and goes
/// on as before with any other item. Otherwise the model rests.
pub open spec fn animation_after(
    current: PlayerAnimation,
    bits: u16,
    selected: Item,
    count: u16,
) -> PlayerAnimation {
    if flag_set(bits, PlayerActions::ATTACK) || flag_set(bits, PlayerActions::DIG_BLOCK) || (
    flag_set(bits, PlayerActions::PLACE_BLOCK) && selected == Item::Block && count > 0) {
        PlayerAnimation::Swing
    } else if flag_set(bits, PlayerActions::USE_ITEM) && count > 0 {
        match selected {
            Item::Bow => PlayerAnimation::DrawBow,
            Item::GoldenApple => PlayerAnimation::Eat,
            _ => current,
        }
    } else {
        PlayerAnimation::Idle
    }
}

impl PlayerAnimation {
    /// The animation after a tick with `actions`, for a player that
    /// carries `inventory`.
    pub fn next(self, actions: &PlayerActions, inventory: &Inventory) -> (next: PlayerAnimation)
        ensures
            next == animation_after(
                self,
                actions.bits,
                inventory.selected(),
                inventory.count(inventory.selected()),
            ),
    {
        let selected = inventory.get_selected_item();
        if actions.is_set(PlayerActions::ATTACK) || actions.is_set(PlayerActions::DIG_BLOCK) || (
        actions.is_set(PlayerActions::PLACE_BLOCK) && selected == Item::Block
            && inventory.get_count(Item::Block) > 0) {
            PlayerAnimation::Swing
        } else if actions.is_set(PlayerActions::USE_ITEM) && inventory.get_count(selected) > 0 {
            match selected {
                Item::Bow => PlayerAnimation::DrawBow,
                Item::GoldenApple => PlayerAnimation::Eat,
                _ => self,
            }
        } else {
            PlayerAnimation::Idle
        }
    }
}

/// The block that a player places: red for player 0 and blue for the
/// other.
pub fn placed_block_type(player: PlayerID) -> (block: BlockType)
    ensures
        block == if player.0 == 0 {
            BlockType::RedBlock
        } else {
            BlockType::BlueBlock
        },
{
    if player.0 == 0 {
        BlockType::RedBlock
    } else {
        BlockType::BlueBlock
    }
}

/// Whether a block at `block_pos` would stand in a player whose feet are
/// at `foot_pos`: a player takes up the block at its feet and the one
/// above.
pub fn stands_in_player(block_pos: BlockPos, foot_pos: BlockPos) -> (inside: bool)
    ensures
        inside == (block_pos.x == foot_pos.x && block_pos.z == foot_pos.z && (block_pos.y
            == foot_pos.y || block_pos.y == foot_pos.y + 1)),
{
    block_pos.x == foot_pos.x && block_pos.z == foot_pos.z && (block_pos.y == foot_pos.y || (
    foot_pos.y < i32::MAX && block_pos.y == foot_pos.y + 1))
}

/// The player that scores where several stand in their goals in the same
/// tick: one of them, drawn at random. Nobody scores where nobody stands
/// in a goal.
pub fn pick_scorer(scorers: &[PlayerID]) -> (scorer: Option<PlayerID>)
    ensures
        scorer is None <==> scorers@.len() == 0,
        scorer matches Some(player) ==> scorers@.contains(player),
{
    if scorers.len() == 0 {
        return None;
    }
    let i = random_below(scorers.len());
    Some(scorers[i])
}

} // verus!
