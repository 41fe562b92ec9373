//! Hover: the topmost hand card under the pointer is highlighted and grows,
//! and no other card is.

use vstd::prelude::*;
use crate::card::{Card, CardConfig, CardHandle, CardZone};
use crate::geometry::{Vec2, SCALE_ONE};
use crate::hit::{card_hit, hit_test, lemma_topmost_exists, spec_hit_test, spec_topmost};
use crate::session::{Session, Table};

verus! {

/// A card after the hover pass found that it should, or should not, be
/// hovered. A held card is left alone. On any other card a change of the
/// flag also sets the scale that the card grows or shrinks toward: the hover
/// scale, or one.
pub open spec fn hovered(card: Card, should_hover: bool, config: CardConfig) -> Card {
    if card.zone is Dragging || card.is_hovered == should_hover {
        card
    } else {
        Card {
            is_hovered: should_hover,
            target_scale: if should_hover {
                config.hover_scale
            } else {
                SCALE_ONE
            },
            ..card
        }
    }
}

impl Table {
    /// The table after the hover pass: of the cards that are not held, the
    /// one that the hit test reports is hovered and no other.
    pub open spec fn after_hover(self, pointer: Option<Vec2>) -> Table {
        Table {
            cards: Seq::new(
                self.cards.len(),
                |i: int|
                    hovered(
                        self.cards[i],
                        spec_hit_test(self.cards, pointer) == Some(i as usize),
                        self.config,
                    ),
            ),
            ..self
        }
    }
}

/// The hover pass keeps the invariant.
pub proof fn lemma_hover_keeps_wf(table: Table, pointer: Option<Vec2>)
    requires
        table.wf(),
    ensures
        table.after_hover(pointer).wf(),
        table.after_hover(pointer).cards.len() == table.cards.len(),
{
}

/// Hover is exclusive: where the pointer is on some hand card, the hover
/// pass leaves exactly one card that is not held hovered. That card is under
/// the pointer and no card under the pointer is drawn with a greater depth,
/// so among cards of distinct depths it is the one with the greatest.
pub proof fn lemma_hover_exclusive(table: Table, p: Vec2, hit: int)
    requires
        table.cards.len() <= usize::MAX,
        0 <= hit < table.cards.len(),
        card_hit(table.cards[hit], p),
    ensures
        spec_topmost(table.cards, p) is Some,
        ({
            let top = spec_topmost(table.cards, p).unwrap() as int;
            let after = table.after_hover(Some(p));
            &&& 0 <= top < table.cards.len()
            &&& card_hit(table.cards[top], p)
            &&& after.cards[top].is_hovered
            &&& forall|j: int|
                0 <= j < table.cards.len() && card_hit(#[trigger] table.cards[j], p)
                    ==> table.cards[j].z <= table.cards[top].z
            &&& forall|j: int|
                0 <= j < table.cards.len() && j != top && card_hit(#[trigger] table.cards[j], p)
                    && table.cards[j].z != table.cards[top].z ==> table.cards[j].z
                    < table.cards[top].z
            &&& forall|i: int|
                0 <= i < table.cards.len() && i != top && !((#[trigger] after.cards[i]).zone
                    is Dragging) ==> !after.cards[i].is_hovered
        }),
{
    lemma_topmost_exists(table.cards, p, hit);
}

/// Recomputes hover. The topmost hand card under the pointer becomes
/// hovered and every other card that is not held becomes not hovered; where
/// a card's flag changes, its target scale becomes the hover scale or one.
/// Held cards keep their state. Returns the hovered card, if any.
pub fn card_hover_system(session: &mut Session, pointer: Option<Vec2>) -> (target: Option<
    CardHandle,
>)
    requires
        old(session).wf(),
    ensures
        final(session).wf(),
        final(session)@ == old(session)@.after_hover(pointer),
        target == spec_hit_test(old(session)@.cards, pointer),
{
    proof {
        lemma_hover_keeps_wf(session@, pointer);
    }
    let target: Option<CardHandle> = hit_test(&session.cards, pointer);
    let hover_scale: i64 = session.config.hover_scale;
    let mut i: usize = 0;
    while i < session.cards.len()
        invariant
            0 <= i <= session.cards.len(),
            session.cards.len() == old(session).cards.len(),
            hover_scale == old(session).config.hover_scale,
            target == spec_hit_test(old(session)@.cards, pointer),
            session@ == (Table { cards: session@.cards, ..old(session)@ }),
            forall|j: int|
                0 <= j < i ==> #[trigger] session@.cards[j] == hovered(
                    old(session)@.cards[j],
                    target == Some(j as usize),
                    old(session)@.config,
                ),
            forall|j: int|
                i <= j < session.cards.len() ==> #[trigger] session@.cards[j] == old(
                    session,
                )@.cards[j],
        decreases session.cards.len() - i,
    {
        let held: bool = match session.cards[i].zone {
            CardZone::Dragging { .. } => true,
            _ => false,
        };
        if !held {
            let should_hover: bool = match target {
                Some(h) => h == i,
                None => false,
            };
            if should_hover != session.cards[i].is_hovered {
                session.cards[i].is_hovered = should_hover;
                session.cards[i].target_scale = if should_hover {
                    hover_scale
                } else {
                    SCALE_ONE
                };
            }
        }
        i = i + 1;
    }
    target
}

} // verus!
