//! Cards, the zones they occupy, the slots of the play area and the
//! constants that tune the engine.

use vstd::prelude::*;
use crate::geometry::{Vec2, SCALE_LIMIT, SCALE_ONE};

verus! {

/// A stable handle of a card: its index in the arena of cards.
pub type CardHandle = usize;

/// Number of play slots on each side of the table.
pub const SLOTS_PER_SIDE: usize = 5;

/// The render depth that keeps a dragged card in front of all others.
pub const DRAG_Z: i64 = 1000;

/// Depth between two neighbouring hand cards.
pub const HAND_Z_STEP: i64 = 10;

/// Depth added to the hovered hand card.
pub const HOVER_Z_BONUS: i64 = 100;

/// What a card is: its name. It is set when the deck is built and never
/// changes.
#[derive(Debug)]
pub struct CardData {
    pub name: String,
}

impl CardData {
    pub fn new(name: String) -> (data: Self)
        ensures
            data.name == name,
    {
        CardData { name }
    }
}

impl Clone for CardData {
    fn clone(&self) -> (copy: Self)
        ensures
            copy == *self,
    {
        CardData { name: self.name.clone() }
    }
}

/// The one place where a card is.
#[derive(Clone, Copy, Debug, PartialEq, Eq, Structural)]
pub enum CardZone {
    /// Not yet on the table.
    Deck,
    /// In the player's hand, with the position it was dealt to.
    Hand { index: usize },
    /// In a play slot of the player.
    PlayerSlot { slot: usize },
    /// In a play slot of the opponent.
    OpponentSlot { slot: usize },
    /// Held by the pointer. `offset` is the pointer position minus the card
    /// centre at the moment the drag began; a drag begins in the hand, and
    /// `origin_index` is the hand position the card goes back to.
    Dragging { offset: Vec2, origin_index: usize },
}

impl CardZone {
    /// The card lies in the hand and is not held.
    pub open spec fn is_hand(self) -> bool {
        self is Hand
    }

    /// The card is held by the pointer.
    pub open spec fn is_dragging(self) -> bool {
        self is Dragging
    }

    /// The card counts as part of the hand: it lies there or was picked up
    /// from there and not yet dropped.
    pub open spec fn counts_in_hand(self) -> bool {
        self is Hand || self is Dragging
    }
}

/// Tuning of hover and animation.
#[derive(Clone, Copy, Debug, PartialEq, Eq, Structural)]
pub struct CardConfig {
    /// Target scale of the hovered card, in millionths.
    pub hover_scale: i64,
    /// Share of the remaining distance covered per second, in thousandths.
    pub animation_speed: u32,
}

impl CardConfig {
    pub open spec fn wf(self) -> bool {
        -SCALE_LIMIT <= self.hover_scale <= SCALE_LIMIT
    }
}

impl Default for CardConfig {
    /// Hovered cards grow to 1.3 times their size; five times the remaining
    /// distance is covered per second.
    fn default() -> (config: Self)
        ensures
            config == (CardConfig { hover_scale: 1_300_000, animation_speed: 5_000 }),
            config.wf(),
    {
        CardConfig { hover_scale: 1_300_000, animation_speed: 5_000 }
    }
}

/// Shape of the two play areas.
#[derive(Clone, Copy, Debug, PartialEq, Eq, Structural)]
pub struct PlayAreaConfig {
    pub player_rows: usize,
    pub player_slots_per_row: usize,
    pub opponent_rows: usize,
    pub opponent_slots_per_row: usize,
}

impl Default for PlayAreaConfig {
    /// One row of five slots on each side.
    fn default() -> (config: Self)
        ensures
            config == (PlayAreaConfig {
                player_rows: 1,
                player_slots_per_row: 5,
                opponent_rows: 1,
                opponent_slots_per_row: 5,
            }),
    {
        PlayAreaConfig {
            player_rows: 1,
            player_slots_per_row: 5,
            opponent_rows: 1,
            opponent_slots_per_row: 5,
        }
    }
}

/// A card on the table: what it is, where it is, where it is heading and
/// where it is drawn right now.
#[derive(Debug)]
pub struct Card {
    pub data: CardData,
    pub is_hovered: bool,
    /// The scale the card grows or shrinks toward, in millionths.
    pub target_scale: i64,
    /// The extent of the card at scale one.
    pub base_size: Vec2,
    /// The point the card glides toward.
    pub target_position: Vec2,
    pub zone: CardZone,
    /// The centre of the card as drawn.
    pub position: Vec2,
    /// The scale of the card as drawn, in millionths.
    pub scale: i64,
    /// The rotation of the card as drawn, in milliradians, counter-clockwise.
    pub rotation: i64,
    /// The render depth: of two overlapping cards the one with the greater
    /// depth is in front.
    pub z: i64,
}

impl Card {
    /// Every coordinate lies in the world and every scale within its limit.
    pub open spec fn wf(self) -> bool {
        &&& self.base_size.in_world()
        &&& self.target_position.in_world()
        &&& self.position.in_world()
        &&& -SCALE_LIMIT <= self.target_scale <= SCALE_LIMIT
        &&& -SCALE_LIMIT <= self.scale <= SCALE_LIMIT
    }

    /// A card fresh from the deck: not hovered, at scale one, resting at the
    /// origin.
    pub fn new(data: CardData, base_size: Vec2) -> (card: Self)
        ensures
            card == (Card {
                data,
                is_hovered: false,
                target_scale: SCALE_ONE,
                base_size,
                target_position: Vec2 { x: 0, y: 0 },
                zone: CardZone::Deck,
                position: Vec2 { x: 0, y: 0 },
                scale: SCALE_ONE,
                rotation: 0,
                z: 0,
            }),
            base_size.in_world() ==> card.wf(),
    {
        Card {
            data,
            is_hovered: false,
            target_scale: SCALE_ONE,
            base_size,
            target_position: Vec2::zero(),
            zone: CardZone::Deck,
            position: Vec2::zero(),
            scale: SCALE_ONE,
            rotation: 0,
            z: 0,
        }
    }
}

/// A place of the play area that holds at most one card.
#[derive(Clone, Copy, Debug, PartialEq, Eq, Structural)]
pub struct CardSlot {
    /// The zone a card is in when it lies in this slot.
    pub zone: CardZone,
    pub occupied: bool,
    /// The centre of the slot.
    pub position: Vec2,
    /// The extent of the slot.
    pub size: Vec2,
}

/// The pile that cards are drawn from, glued to a corner of the window.
#[derive(Clone, Copy, Debug, PartialEq, Eq, Structural)]
pub struct DeckPile {
    pub anchor: crate::geometry::AnchorPosition,
    pub position: Vec2,
    pub size: Vec2,
    /// The pile has run out and is drawn as an empty outline. Once set it
    /// stays set.
    pub exhausted: bool,
}

} // verus!
