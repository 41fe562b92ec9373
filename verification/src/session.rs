//! The session: everything the engine owns between entering play and
//! leaving it, and the invariant that ties its parts together.

use vstd::prelude::*;
use crate::card::{Card, CardConfig, CardSlot, CardZone, DeckPile, PlayAreaConfig, SLOTS_PER_SIDE};
use crate::geometry::{lemma_row_of_five_in_world, AnchorPosition, LayoutZones, Vec2, WindowDimensions};
use crate::state::{GameplayState, GameplayStateView, DECK_SIZE, spec_card_label};

verus! {

/// Largest number of cards that a session handles, those still in the deck
/// included.
pub const CARD_LIMIT: usize = 1_000_000;

/// The mathematical content of a [`Session`].
#[verifier::ext_equal]
pub struct Table {
    pub state: GameplayStateView,
    pub cards: Seq<Card>,
    pub slots: Seq<CardSlot>,
    pub window: WindowDimensions,
    pub layout: LayoutZones,
    pub config: CardConfig,
    pub play_areas: PlayAreaConfig,
    pub deck_pile: DeckPile,
}

/// The state says that the slot which `zone` names holds a card.
pub open spec fn zone_taken(state: GameplayStateView, zone: CardZone) -> bool {
    match zone {
        CardZone::PlayerSlot { slot } => slot < SLOTS_PER_SIDE && state.player_play_area[slot as int]
            is Some,
        CardZone::OpponentSlot { slot } => slot < SLOTS_PER_SIDE
            && state.opponent_play_area[slot as int] is Some,
        _ => false,
    }
}

/// The deck anchor that goes with a card size: the pile sits in the bottom
/// right corner, a tenth of a card width away from both edges.
pub open spec fn spec_deck_anchor(layout: LayoutZones) -> AnchorPosition {
    AnchorPosition::BottomRight {
        offset_x: (-(layout.card_width / 2 + layout.card_width / 10)) as i64,
        offset_y: (layout.card_height / 2 + layout.card_width / 10) as i64,
    }
}

impl Table {
    /// Card `handle` is listed in the hand.
    pub open spec fn in_hand_list(self, handle: int) -> bool {
        exists|k: int| 0 <= k < self.state.player_hand.len() && self.state.player_hand[k] == handle
    }

    /// Card `handle` is listed in a slot of the player.
    pub open spec fn in_player_slot(self, handle: int) -> bool {
        exists|s: int|
            0 <= s < SLOTS_PER_SIDE && self.state.player_play_area[s] == Some(handle as usize)
    }

    /// Card `handle` is listed in a slot of the opponent.
    pub open spec fn in_opponent_slot(self, handle: int) -> bool {
        exists|s: int|
            0 <= s < SLOTS_PER_SIDE && self.state.opponent_play_area[s] == Some(handle as usize)
    }

    /// The window, the zones derived from it, the tuning and the deck pile
    /// fit together.
    pub open spec fn frame_wf(self) -> bool {
        &&& self.window.wf()
        &&& self.layout == LayoutZones::spec_new(self.window)
        &&& self.config.wf()
        &&& self.deck_pile.anchor.wf()
        &&& self.deck_pile.position == self.deck_pile.anchor.spec_resolve(self.window)
        &&& self.deck_pile.exhausted ==> self.state.deck.len() == 0
    }

    /// Every card's zone and the lists of the state say the same: the hand
    /// lists exactly the cards that lie in the hand or are held, each once,
    /// and each slot lists exactly the card whose zone is that slot.
    pub open spec fn zones_wf(self) -> bool {
        &&& self.state.player_play_area.len() == SLOTS_PER_SIDE
        &&& self.state.opponent_play_area.len() == SLOTS_PER_SIDE
        &&& self.state.opponent_hand.len() == 0
        &&& self.cards.len() + self.state.deck.len() <= CARD_LIMIT
        &&& self.state.player_hand.len() <= self.cards.len()
        &&& self.state.player_hand.no_duplicates()
        &&& forall|k: int|
            0 <= k < self.state.player_hand.len() ==> {
                &&& (#[trigger] self.state.player_hand[k]) < self.cards.len()
                &&& self.cards[self.state.player_hand[k] as int].zone.counts_in_hand()
            }
        &&& forall|s: int|
            0 <= s < SLOTS_PER_SIDE && (#[trigger] self.state.player_play_area[s]) is Some ==> {
                &&& self.state.player_play_area[s].unwrap() < self.cards.len()
                &&& self.cards[self.state.player_play_area[s].unwrap() as int].zone == (
                CardZone::PlayerSlot { slot: s as usize })
            }
        &&& forall|s: int|
            0 <= s < SLOTS_PER_SIDE && (#[trigger] self.state.opponent_play_area[s]) is Some ==> {
                &&& self.state.opponent_play_area[s].unwrap() < self.cards.len()
                &&& self.cards[self.state.opponent_play_area[s].unwrap() as int].zone == (
                CardZone::OpponentSlot { slot: s as usize })
            }
        &&& forall|i: int|
            0 <= i < self.cards.len() ==> self.card_placed(i, #[trigger] self.cards[i])
    }

    /// The state lists card `i`, which is `card`, where its zone says it is.
    pub open spec fn card_placed(self, i: int, card: Card) -> bool {
        &&& card.wf()
        &&& match card.zone {
            CardZone::Deck => false,
            CardZone::Hand { index } => index <= CARD_LIMIT && self.state.player_hand.contains(
                i as usize,
            ),
            CardZone::Dragging { origin_index, .. } => origin_index <= CARD_LIMIT
                && self.state.player_hand.contains(i as usize),
            CardZone::PlayerSlot { slot } => slot < SLOTS_PER_SIDE
                && self.state.player_play_area[slot as int] == Some(i as usize),
            CardZone::OpponentSlot { slot } => slot < SLOTS_PER_SIDE
                && self.state.opponent_play_area[slot as int] == Some(i as usize),
        }
    }

    /// Every slot names a play zone of its own, and is marked occupied
    /// exactly when the state lists a card there.
    pub open spec fn slots_wf(self) -> bool {
        &&& forall|k: int|
            0 <= k < self.slots.len() ==> {
                &&& ((#[trigger] self.slots[k]).zone is PlayerSlot || self.slots[k].zone
                    is OpponentSlot)
                &&& self.slots[k].position.in_world()
                &&& self.slots[k].occupied == zone_taken(self.state, self.slots[k].zone)
            }
        &&& forall|k: int, l: int|
            0 <= k < self.slots.len() && 0 <= l < self.slots.len() && k != l ==> (
            #[trigger] self.slots[k]).zone != (#[trigger] self.slots[l]).zone
    }

    /// The invariant of a session.
    pub open spec fn wf(self) -> bool {
        &&& self.frame_wf()
        &&& self.zones_wf()
        &&& self.slots_wf()
    }
}

/// Everything the engine owns while a game is played. The cards live in an
/// arena and are named by their index in it.
#[derive(Debug)]
pub struct Session {
    pub state: GameplayState,
    pub cards: Vec<Card>,
    pub slots: Vec<CardSlot>,
    pub window: WindowDimensions,
    pub layout: LayoutZones,
    pub config: CardConfig,
    pub play_areas: PlayAreaConfig,
    pub deck_pile: DeckPile,
}

impl View for Session {
    type V = Table;

    open spec fn view(&self) -> Table {
        Table {
            state: self.state@,
            cards: self.cards@,
            slots: self.slots@,
            window: self.window,
            layout: self.layout,
            config: self.config,
            play_areas: self.play_areas,
            deck_pile: self.deck_pile,
        }
    }
}

impl Session {
    /// The invariant of a session: that of its content.
    pub open spec fn wf(&self) -> bool {
        self@.wf()
    }
}

/// The slot that `setup_play_areas` lays out at place `k` of its ten: the
/// player's five from left to right, then the opponent's five.
pub open spec fn spec_play_slot(table: Table, k: int) -> CardSlot {
    if k < SLOTS_PER_SIDE {
        let zone = CardZone::PlayerSlot { slot: k as usize };
        CardSlot {
            zone,
            occupied: zone_taken(table.state, zone),
            position: table.layout.spec_slot_position(
                SLOTS_PER_SIDE as int,
                table.layout.spec_player_play_area_y(table.window) as i64,
                k,
            ),
            size: table.layout.card_size,
        }
    } else {
        let zone = CardZone::OpponentSlot { slot: (k - SLOTS_PER_SIDE) as usize };
        CardSlot {
            zone,
            occupied: zone_taken(table.state, zone),
            position: table.layout.spec_slot_position(
                SLOTS_PER_SIDE as int,
                table.layout.spec_opponent_play_area_y(table.window) as i64,
                k - SLOTS_PER_SIDE,
            ),
            size: table.layout.card_size,
        }
    }
}

/// Starts a session: a fresh deck of ten cards, an empty hand, no slots yet,
/// and the deck pile in the bottom right corner of the window. Without a
/// window the default extent is taken.
pub fn setup_gameplay(window: Option<WindowDimensions>, config: CardConfig) -> (session: Session)
    requires
        window is Some ==> window.unwrap().wf(),
        config.wf(),
    ensures
        session.wf(),
        session@.window == (match window {
            Some(dims) => dims,
            None => WindowDimensions { width: 1_280_000, height: 720_000 },
        }),
        session@.layout == LayoutZones::spec_new(session@.window),
        session@.config == config,
        session@.play_areas == (PlayAreaConfig {
            player_rows: 1,
            player_slots_per_row: 5,
            opponent_rows: 1,
            opponent_slots_per_row: 5,
        }),
        session@.cards.len() == 0,
        session@.slots.len() == 0,
        session@.deck_pile == (DeckPile {
            anchor: spec_deck_anchor(session@.layout),
            position: spec_deck_anchor(session@.layout).spec_resolve(session@.window),
            size: session@.layout.card_size,
            exhausted: false,
        }),
        session@.state.deck.len() == DECK_SIZE,
        forall|i: int|
            0 <= i < DECK_SIZE ==> (#[trigger] session@.state.deck[i]).name@ == spec_card_label(
                (i + 1) as nat,
            ),
        session@.state.player_hand.len() == 0,
        session@.state.opponent_hand.len() == 0,
        forall|s: int| 0 <= s < SLOTS_PER_SIDE ==> session@.state.player_play_area[s] is None,
        forall|s: int| 0 <= s < SLOTS_PER_SIDE ==> session@.state.opponent_play_area[s] is None,
{
    let window_dims: WindowDimensions = match window {
        Some(dims) => dims,
        None => WindowDimensions::default(),
    };
    let layout: LayoutZones = LayoutZones::new(&window_dims);
    let deck_offset: i64 = layout.card_width / 10;
    let anchor: AnchorPosition = AnchorPosition::BottomRight {
        offset_x: -(layout.card_width / 2 + deck_offset),
        offset_y: layout.card_height / 2 + deck_offset,
    };
    let position: Vec2 = anchor.resolve(&window_dims);
    let session = Session {
        state: GameplayState::new(),
        cards: Vec::new(),
        slots: Vec::new(),
        window: window_dims,
        layout,
        config,
        play_areas: PlayAreaConfig::default(),
        deck_pile: DeckPile { anchor, position, size: layout.card_size, exhausted: false },
    };
    session
}

/// Lays out the play area: one row of five slots for the player above the
/// hand and one for the opponent below the opponent's hand, each slot of
/// card size and marked by what the state lists there. Slots laid out
/// before are replaced.
pub fn setup_play_areas(session: &mut Session)
    requires
        old(session).wf(),
    ensures
        final(session).wf(),
        final(session)@ == (Table {
            slots: Seq::new(
                (2 * SLOTS_PER_SIDE) as nat,
                |k: int| spec_play_slot(old(session)@, k),
            ),
            play_areas: PlayAreaConfig {
                player_rows: 1,
                player_slots_per_row: 5,
                opponent_rows: 1,
                opponent_slots_per_row: 5,
            },
            ..old(session)@
        }),
{
    let config: PlayAreaConfig = PlayAreaConfig::default();
    let player_y: i64 = session.layout.player_play_area_y(&session.window);
    let player_positions: Vec<Vec2> = session.layout.calculate_slot_positions(
        config.player_slots_per_row,
        player_y,
    );
    let opponent_y: i64 = session.layout.opponent_play_area_y(&session.window);
    let opponent_positions: Vec<Vec2> = session.layout.calculate_slot_positions(
        config.opponent_slots_per_row,
        opponent_y,
    );
    let mut slots: Vec<CardSlot> = Vec::new();
    let mut i: usize = 0;
    while i < 5
        invariant
            0 <= i <= 5,
            *session == *old(session),
            session.wf(),
            player_positions.len() == 5,
            player_y == session@.layout.spec_player_play_area_y(session@.window),
            forall|k: int|
                0 <= k < 5 ==> #[trigger] player_positions[k]
                    == session@.layout.spec_slot_position(5, player_y, k),
            slots.len() == i,
            forall|k: int| 0 <= k < i ==> #[trigger] slots[k] == spec_play_slot(session@, k),
        decreases 5 - i,
    {
        slots.push(
            CardSlot {
                zone: CardZone::PlayerSlot { slot: i },
                occupied: session.state.player_play_area[i].is_some(),
                position: player_positions[i],
                size: session.layout.card_size,
            },
        );
        i = i + 1;
    }
    let mut j: usize = 0;
    while j < 5
        invariant
            0 <= j <= 5,
            *session == *old(session),
            session.wf(),
            opponent_positions.len() == 5,
            opponent_y == session@.layout.spec_opponent_play_area_y(session@.window),
            forall|k: int|
                0 <= k < 5 ==> #[trigger] opponent_positions[k]
                    == session@.layout.spec_slot_position(5, opponent_y, k),
            slots.len() == 5 + j,
            forall|k: int| 0 <= k < 5 + j ==> #[trigger] slots[k] == spec_play_slot(session@, k),
        decreases 5 - j,
    {
        slots.push(
            CardSlot {
                zone: CardZone::OpponentSlot { slot: j },
                occupied: session.state.opponent_play_area[j].is_some(),
                position: opponent_positions[j],
                size: session.layout.card_size,
            },
        );
        j = j + 1;
    }
    session.slots = slots;
    session.play_areas = config;
    proof {
        assert(session@.slots =~= Seq::new(
            (2 * SLOTS_PER_SIDE) as nat,
            |k: int| spec_play_slot(old(session)@, k),
        ));
        assert(session@.slots_wf()) by {
            assert forall|k: int| 0 <= k < session@.slots.len() implies (
            #[trigger] session@.slots[k]).position.in_world() by {
                if k < 5 {
                    lemma_row_of_five_in_world(session@.layout, session@.window, k);
                } else {
                    lemma_row_of_five_in_world(session@.layout, session@.window, k - 5);
                }
            }
        }
    }
}

} // verus!
