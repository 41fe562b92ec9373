//! Drawing from the deck: a click on the pile deals its top card to the
//! right end of the hand.

use vstd::prelude::*;
use crate::card::{Card, CardHandle, CardZone, DeckPile, HAND_Z_STEP};
use crate::geometry::{box_contains, contains, Vec2, SCALE_ONE};
use crate::session::{Session, Table};
use crate::state::{lemma_push_contains, GameplayStateView};

verus! {

/// Height at which a card appears when it is dealt, before it glides to its
/// place in the hand: 250 world units below the centre of the window.
pub const DEAL_HEIGHT: i64 = -250_000;

/// Where a card appears when it is dealt.
pub open spec fn spec_deal_point() -> Vec2 {
    Vec2 { x: 0, y: DEAL_HEIGHT }
}

impl Table {
    /// The pointer pressed the pile: the button went down this tick, the
    /// pointer is in the window, the pile has not run out, and its box holds
    /// the pointer.
    pub open spec fn deck_clicked(self, pressed: bool, pointer: Option<Vec2>) -> bool {
        &&& pressed
        &&& pointer is Some
        &&& !self.deck_pile.exhausted
        &&& box_contains(self.deck_pile.position, self.deck_pile.size, pointer.unwrap())
    }

    /// The card that the next draw puts on the table: the top card of the
    /// deck, of the current card size, bound for the right end of the hand.
    pub open spec fn dealt_card(self) -> Card {
        Card {
            data: self.state.deck.last(),
            is_hovered: false,
            target_scale: SCALE_ONE,
            base_size: self.layout.card_size,
            target_position: Vec2 { x: 0, y: 0 },
            zone: CardZone::Hand { index: self.state.player_hand.len() as usize },
            position: spec_deal_point(),
            scale: SCALE_ONE,
            rotation: 0,
            z: HAND_Z_STEP,
        }
    }

    /// The table after one draw. An empty deck leaves it as it is.
    pub open spec fn after_draw(self) -> Table {
        if self.state.deck.len() == 0 {
            self
        } else {
            Table {
                state: GameplayStateView {
                    deck: self.state.deck.drop_last(),
                    player_hand: self.state.player_hand.push(self.cards.len() as usize),
                    ..self.state
                },
                cards: self.cards.push(self.dealt_card()),
                ..self
            }
        }
    }

    /// The table after the deck's turn in a tick: a click on the pile draws
    /// a card, and a pile whose deck is empty after that click is exhausted
    /// from then on.
    pub open spec fn after_deck_click(self, pressed: bool, pointer: Option<Vec2>) -> Table {
        if self.deck_clicked(pressed, pointer) {
            let drawn = self.after_draw();
            Table {
                deck_pile: DeckPile {
                    exhausted: drawn.state.deck.len() == 0,
                    ..drawn.deck_pile
                },
                ..drawn
            }
        } else {
            self
        }
    }

    /// The handle of the card that a click deals, if it deals one.
    pub open spec fn deck_click_deals(self, pressed: bool, pointer: Option<Vec2>) -> Option<
        CardHandle,
    > {
        if self.deck_clicked(pressed, pointer) && self.state.deck.len() > 0 {
            Some(self.cards.len() as usize)
        } else {
            None
        }
    }
}

/// A draw keeps the invariant of the session.
pub proof fn lemma_draw_keeps_wf(table: Table)
    requires
        table.wf(),
    ensures
        table.after_draw().wf(),
{
    if table.state.deck.len() > 0 {
        let after = table.after_draw();
        let h = table.cards.len() as usize;
        let hand = table.state.player_hand;
        assert forall|i: int| 0 <= i < after.cards.len() implies after.card_placed(
            i,
            #[trigger] after.cards[i],
        ) by {
            if i < table.cards.len() {
                lemma_push_contains(hand, h, i as usize);
            } else {
                lemma_push_contains(hand, h, h);
            }
        }
    }
}

/// Handles a press on the deck pile. Where the button went down this tick
/// with the pointer on a pile that has not run out, the top card of the deck
/// is dealt: it becomes a card of the current card size in the hand zone, at
/// the index that equals the number of cards in the hand before, and is
/// appended to the hand; its handle is returned. A pile whose deck is empty
/// after the click is exhausted from then on. Anything else changes nothing.
pub fn deck_click_system(session: &mut Session, pressed: bool, pointer: Option<Vec2>) -> (dealt:
    Option<CardHandle>)
    requires
        old(session).wf(),
    ensures
        final(session).wf(),
        final(session)@ == old(session)@.after_deck_click(pressed, pointer),
        dealt == old(session)@.deck_click_deals(pressed, pointer),
{
    if !pressed {
        return None;
    }
    let p: Vec2 = match pointer {
        Some(p) => p,
        None => {
            return None;
        },
    };
    if session.deck_pile.exhausted {
        return None;
    }
    if !contains(session.deck_pile.position, session.deck_pile.size, p) {
        return None;
    }
    proof {
        lemma_draw_keeps_wf(session@);
    }
    let mut dealt: Option<CardHandle> = None;
    let hand_index: usize = session.state.player_hand.len();
    let hand_count: usize = hand_index + 1;
    match session.state.draw_card() {
        Some(data) => {
            let handle: CardHandle = session.cards.len();
            let mut card: Card = Card::new(data, session.layout.card_size);
            card.zone = CardZone::Hand { index: hand_index };
            card.position = Vec2::new(0, DEAL_HEIGHT);
            card.z = ((hand_count - hand_index) as i64) * HAND_Z_STEP;
            session.cards.push(card);
            session.state.add_to_hand(handle);
            dealt = Some(handle);
        },
        None => {},
    }
    if session.state.deck.len() == 0 {
        session.deck_pile.exhausted = true;
    }
    dealt
}

} // verus!
