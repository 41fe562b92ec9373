//! Dragging: picking a hand card up, carrying it with the pointer and
//! dropping it on a play slot or back into the hand.

use vstd::prelude::*;
use crate::arith::{clamp, saturate};
use crate::card::{Card, CardHandle, CardSlot, CardZone, DRAG_Z};
use crate::geometry::{box_contains, contains, Vec2, SCALE_ONE, WORLD_LIMIT};
use crate::hit::{hit_test, spec_topmost};
use crate::session::{Session, Table};
use crate::state::lemma_without;

verus! {

/// A hand card picked up by a pointer at `p`: it is held, remembers how far
/// the pointer is from its centre, and remembers its place in the hand.
pub open spec fn picked_up(card: Card, p: Vec2) -> Card {
    match card.zone {
        CardZone::Hand { index } => Card {
            zone: CardZone::Dragging {
                offset: Vec2 {
                    x: (p.x - card.position.x) as i64,
                    y: (p.y - card.position.y) as i64,
                },
                origin_index: index,
            },
            ..card
        },
        _ => card,
    }
}

/// A card after the pointer moved to `p`: a held card follows the pointer at
/// the distance it was picked up with, without easing, and is drawn in front
/// of all others; its coordinates stop at the edge of the world. Any other
/// card stays as it is.
pub open spec fn carried(card: Card, p: Vec2) -> Card {
    match card.zone {
        CardZone::Dragging { offset, .. } => {
            let to = Vec2 {
                x: clamp(p.x - offset.x, WORLD_LIMIT as int) as i64,
                y: clamp(p.y - offset.y, WORLD_LIMIT as int) as i64,
            };
            Card { target_position: to, position: to, z: DRAG_Z, ..card }
        },
        _ => card,
    }
}

/// A held card put into a slot: it is in the slot's zone and bound for the
/// slot's centre, and its drawn transform starts over, unrotated, at scale
/// one, at depth zero, from the origin of the world.
pub open spec fn placed(card: Card, slot: CardSlot) -> Card {
    Card {
        zone: slot.zone,
        target_position: slot.position,
        position: Vec2 { x: 0, y: 0 },
        scale: SCALE_ONE,
        rotation: 0,
        z: 0,
        ..card
    }
}

/// A held card let go where no slot takes it: it is back in the hand at the
/// place it was picked up from.
pub open spec fn returned(card: Card) -> Card {
    match card.zone {
        CardZone::Dragging { origin_index, .. } => Card {
            zone: CardZone::Hand { index: origin_index },
            ..card
        },
        _ => card,
    }
}

impl Table {
    /// The table after a press at `p`: the topmost hand card under the
    /// pointer, if there is one, is picked up.
    pub open spec fn after_press(self, p: Vec2) -> Table {
        match spec_topmost(self.cards, p) {
            Some(h) => Table {
                cards: self.cards.update(h as int, picked_up(self.cards[h as int], p)),
                ..self
            },
            None => self,
        }
    }

    /// The table after the held cards followed the pointer to `p`.
    pub open spec fn after_drag_move(self, p: Vec2) -> Table {
        Table { cards: Seq::new(self.cards.len(), |i: int| carried(self.cards[i], p)), ..self }
    }

    /// Slot `k` takes a card whose centre is `center`: it is a slot of the
    /// player with a number below five, the state lists no card there, and
    /// its box holds the centre.
    pub open spec fn is_drop_target(self, center: Vec2, k: int) -> bool {
        &&& 0 <= k < self.slots.len()
        &&& self.slots[k].zone is PlayerSlot
        &&& self.state.can_play_to(self.slots[k].zone->PlayerSlot_slot as int)
        &&& box_contains(self.slots[k].position, self.slots[k].size, center)
    }

    /// Slot `k` is the first, in the order of the slots, that takes a card
    /// whose centre is `center`.
    pub open spec fn is_first_drop_target(self, center: Vec2, k: int) -> bool {
        &&& self.is_drop_target(center, k)
        &&& forall|l: int| 0 <= l < k ==> !self.is_drop_target(center, l)
    }

    /// The slot that a card dropped at `center` goes to: the first that
    /// takes it, not the nearest.
    pub open spec fn drop_target(self, center: Vec2) -> Option<int> {
        if exists|k: int| self.is_first_drop_target(center, k) {
            Some(choose|k: int| self.is_first_drop_target(center, k))
        } else {
            None
        }
    }

    /// The table after card `i` was let go. A held card goes to the slot
    /// that takes its drawn centre: it leaves the hand, the state lists it
    /// in the slot and the slot is marked occupied. Where no slot takes it,
    /// it returns to the hand. A card that is not held stays as it is.
    pub open spec fn after_drop(self, i: int) -> Table {
        if 0 <= i < self.cards.len() && self.cards[i].zone is Dragging {
            match self.drop_target(self.cards[i].position) {
                Some(k) => Table {
                    state: self.state.play_card_to_slot(
                        i as usize,
                        self.slots[k].zone->PlayerSlot_slot as int,
                    ),
                    cards: self.cards.update(i, placed(self.cards[i], self.slots[k])),
                    slots: self.slots.update(k, CardSlot { occupied: true, ..self.slots[k] }),
                    ..self
                },
                None => Table { cards: self.cards.update(i, returned(self.cards[i])), ..self },
            }
        } else {
            self
        }
    }

    /// The table after the first `n` cards were let go, one after the other
    /// in the order of their handles.
    pub open spec fn after_release_upto(self, n: int) -> Table
        decreases n,
    {
        if n <= 0 {
            self
        } else {
            self.after_release_upto(n - 1).after_drop(n - 1)
        }
    }

    /// The table after the button was released: every held card was let go.
    pub open spec fn after_release(self) -> Table {
        self.after_release_upto(self.cards.len() as int)
    }

    /// The table after the drag handling of one tick: a press picks a card
    /// up, then the held cards follow the pointer, then a release lets them
    /// go. Without a pointer nothing is picked up and nothing follows.
    pub open spec fn after_drag(self, pressed: bool, released: bool, pointer: Option<Vec2>) -> Table {
        let pressed_table = if pressed && pointer is Some {
            self.after_press(pointer.unwrap())
        } else {
            self
        };
        let moved_table = if pointer is Some {
            pressed_table.after_drag_move(pointer.unwrap())
        } else {
            pressed_table
        };
        if released {
            moved_table.after_release()
        } else {
            moved_table
        }
    }
}

/// A slot found to be the first that takes a card is the one that
/// `drop_target` names, and where no slot takes it, none is named.
pub proof fn lemma_drop_target_found(table: Table, center: Vec2, found: Option<int>)
    requires
        found is Some ==> table.is_first_drop_target(center, found.unwrap()),
        found is None ==> forall|l: int| 0 <= l < table.slots.len() ==> !table.is_drop_target(center, l),
    ensures
        found == table.drop_target(center),
{
}

/// Picking a card up keeps the invariant.
pub proof fn lemma_press_keeps_wf(table: Table, p: Vec2)
    requires
        table.wf(),
        p.in_world(),
        table.cards.len() <= usize::MAX,
    ensures
        table.after_press(p).wf(),
        table.after_press(p).cards.len() == table.cards.len(),
{
}

/// Carrying the held cards keeps the invariant.
pub proof fn lemma_drag_move_keeps_wf(table: Table, p: Vec2)
    requires
        table.wf(),
    ensures
        table.after_drag_move(p).wf(),
        table.after_drag_move(p).cards.len() == table.cards.len(),
{
}

/// A card that is picked up and let go where no slot takes it is the card
/// it was, whatever the pointer did in between to where it is drawn.
pub proof fn lemma_pick_up_and_return(card: Card, p: Vec2, q: Vec2)
    requires
        card.zone is Hand,
    ensures
        returned(picked_up(card, p)) == card,
        returned(carried(picked_up(card, p), q)).zone == card.zone,
{
}

/// A drop that no slot takes is rejected: the card is back in the hand at
/// the place it came from, and the state and the slots are what they were.
pub proof fn lemma_rejected_drop(table: Table, i: int)
    requires
        0 <= i < table.cards.len(),
        table.cards[i].zone is Dragging,
        table.drop_target(table.cards[i].position) is None,
    ensures
        table.after_drop(i).cards[i].zone == (CardZone::Hand {
            index: table.cards[i].zone->Dragging_origin_index,
        }),
        table.after_drop(i).state == table.state,
        table.after_drop(i).slots == table.slots,
{
}

/// A drop that a slot takes plays the card: the card is in the zone of that
/// slot, unrotated and at depth zero, the slot is marked occupied, the state
/// lists the card in the slot and no longer in the hand.
pub proof fn lemma_accepted_drop(table: Table, i: int)
    requires
        table.wf(),
        0 <= i < table.cards.len(),
        table.cards[i].zone is Dragging,
        table.drop_target(table.cards[i].position) is Some,
    ensures
        ({
            let k = table.drop_target(table.cards[i].position).unwrap();
            let after = table.after_drop(i);
            &&& table.is_first_drop_target(table.cards[i].position, k)
            &&& after.cards[i].zone == table.slots[k].zone
            &&& after.cards[i].rotation == 0
            &&& after.cards[i].z == 0
            &&& after.cards[i].target_position == table.slots[k].position
            &&& after.slots[k].occupied
            &&& after.state.player_play_area[table.slots[k].zone->PlayerSlot_slot as int] == Some(
                i as usize,
            )
            &&& !after.state.player_hand.contains(i as usize)
        }),
{
    lemma_without(table.state.player_hand, i as usize);
}

/// Letting a card go keeps the invariant and the number of cards and slots.
pub proof fn lemma_drop_keeps_wf(table: Table, i: int)
    requires
        table.wf(),
    ensures
        table.after_drop(i).wf(),
        table.after_drop(i).cards.len() == table.cards.len(),
        table.after_drop(i).slots.len() == table.slots.len(),
        table.after_drop(i).deck_pile == table.deck_pile,
        table.after_drop(i).state.deck == table.state.deck,
{
    let after = table.after_drop(i);
    if 0 <= i < table.cards.len() && table.cards[i].zone is Dragging
        && table.drop_target(table.cards[i].position) is Some {
        let kept = after.state.player_hand;
        lemma_without(table.state.player_hand, i as usize);
        assert forall|m: int| 0 <= m < kept.len() implies {
            &&& (#[trigger] kept[m]) < after.cards.len()
            &&& after.cards[kept[m] as int].zone.counts_in_hand()
        } by {
            assert(kept.contains(kept[m]));
        }
    }
}

/// Letting the first `n` cards go keeps the invariant and the number of
/// cards.
pub proof fn lemma_release_keeps_wf(table: Table, n: int)
    requires
        table.wf(),
    ensures
        table.after_release_upto(n).wf(),
        table.after_release_upto(n).cards.len() == table.cards.len(),
        table.after_release_upto(n).slots.len() == table.slots.len(),
        table.after_release_upto(n).deck_pile == table.deck_pile,
        table.after_release_upto(n).state.deck == table.state.deck,
    decreases n,
{
    if n > 0 {
        lemma_release_keeps_wf(table, n - 1);
        lemma_drop_keeps_wf(table.after_release_upto(n - 1), n - 1);
    }
}

/// The drag handling of a tick keeps the invariant, the number of cards and
/// the deck pile.
pub proof fn lemma_drag_keeps_wf(table: Table, pressed: bool, released: bool, pointer: Option<Vec2>)
    requires
        table.wf(),
        pointer is Some ==> pointer.unwrap().in_world(),
        table.cards.len() <= usize::MAX,
    ensures
        table.after_drag(pressed, released, pointer).wf(),
        table.after_drag(pressed, released, pointer).cards.len() == table.cards.len(),
        table.after_drag(pressed, released, pointer).deck_pile == table.deck_pile,
        table.after_drag(pressed, released, pointer).state.deck == table.state.deck,
{
    let pressed_table = if pressed && pointer is Some {
        lemma_press_keeps_wf(table, pointer.unwrap());
        table.after_press(pointer.unwrap())
    } else {
        table
    };
    let moved_table = if pointer is Some {
        lemma_drag_move_keeps_wf(pressed_table, pointer.unwrap());
        pressed_table.after_drag_move(pointer.unwrap())
    } else {
        pressed_table
    };
    if released {
        lemma_release_keeps_wf(moved_table, moved_table.cards.len() as int);
    }
}

/// Picks up the topmost hand card under a pointer at `p`, if there is one,
/// and returns its handle. The card remembers the distance from its drawn
/// centre to the pointer and the place in the hand it came from.
pub fn begin_drag(session: &mut Session, p: Vec2) -> (picked: Option<CardHandle>)
    requires
        old(session).wf(),
        p.in_world(),
    ensures
        final(session).wf(),
        final(session)@ == old(session)@.after_press(p),
        picked == spec_topmost(old(session)@.cards, p),
{
    let picked: Option<CardHandle> = hit_test(&session.cards, Some(p));
    match picked {
        Some(h) => {
            let index: usize = match session.cards[h].zone {
                CardZone::Hand { index } => index,
                _ => 0,
            };
            let center: Vec2 = session.cards[h].position;
            session.cards[h].zone = CardZone::Dragging {
                offset: Vec2 { x: p.x - center.x, y: p.y - center.y },
                origin_index: index,
            };
            proof {
                assert(session@.cards =~= old(session)@.cards.update(
                    h as int,
                    picked_up(old(session)@.cards[h as int], p),
                ));
            }
        },
        None => {},
    }
    picked
}

/// Moves every held card with a pointer at `p`: the card's target and its
/// drawn centre become the pointer position minus the distance it was picked
/// up with, and it is drawn at the depth that keeps it in front.
pub fn carry_dragged(session: &mut Session, p: Vec2)
    requires
        old(session).wf(),
    ensures
        final(session).wf(),
        final(session)@ == old(session)@.after_drag_move(p),
{
    let mut i: usize = 0;
    while i < session.cards.len()
        invariant
            0 <= i <= session.cards.len(),
            session.cards.len() == old(session).cards.len(),
            session@ == (Table { cards: session@.cards, ..old(session)@ }),
            forall|j: int| 0 <= j < i ==> #[trigger] session@.cards[j] == carried(old(session)@.cards[j], p),
            forall|j: int|
                i <= j < session.cards.len() ==> #[trigger] session@.cards[j] == old(session)@.cards[j],
        decreases session.cards.len() - i,
    {
        match session.cards[i].zone {
            CardZone::Dragging { offset, .. } => {
                let to: Vec2 = Vec2 {
                    x: saturate((p.x as i128) - (offset.x as i128), WORLD_LIMIT),
                    y: saturate((p.y as i128) - (offset.y as i128), WORLD_LIMIT),
                };
                session.cards[i].target_position = to;
                session.cards[i].position = to;
                session.cards[i].z = DRAG_Z;
            },
            _ => {},
        }
        i = i + 1;
    }
}

/// Finds the slot that takes a card whose drawn centre is `center`: the
/// first free slot of the player, in the order of the slots, whose box holds
/// the centre.
pub fn find_drop_target(session: &Session, center: Vec2) -> (found: Option<usize>)
    requires
        session.wf(),
    ensures
        found is Some == session@.drop_target(center) is Some,
        found is Some ==> found.unwrap() as int == session@.drop_target(center).unwrap(),
        found is Some ==> session@.is_first_drop_target(center, found.unwrap() as int),
{
    let mut k: usize = 0;
    while k < session.slots.len()
        invariant
            0 <= k <= session.slots.len(),
            forall|l: int| 0 <= l < k ==> !session@.is_drop_target(center, l),
        decreases session.slots.len() - k,
    {
        let slot = &session.slots[k];
        let takes: bool = match slot.zone {
            CardZone::PlayerSlot { slot: number } => number < 5
                && !session.state.is_slot_occupied(number) && contains(
                slot.position,
                slot.size,
                center,
            ),
            _ => false,
        };
        if takes {
            proof {
                lemma_drop_target_found(session@, center, Some(k as int));
            }
            return Some(k);
        }
        k = k + 1;
    }
    None
}

/// Lets card `handle` go. A held card goes to the first free slot of the
/// player whose box holds its drawn centre, or back to the hand where there
/// is no such slot; a card that is not held is left alone.
pub fn drop_card(session: &mut Session, handle: CardHandle)
    requires
        old(session).wf(),
        handle < old(session).cards.len(),
    ensures
        final(session).wf(),
        final(session)@ == old(session)@.after_drop(handle as int),
{
    proof {
        lemma_drop_keeps_wf(session@, handle as int);
    }
    let origin_index: usize = match session.cards[handle].zone {
        CardZone::Dragging { origin_index, .. } => origin_index,
        _ => {
            return ;
        },
    };
    let center: Vec2 = session.cards[handle].position;
    match find_drop_target(session, center) {
        Some(k) => {
            let slot: CardSlot = session.slots[k];
            let number: usize = match slot.zone {
                CardZone::PlayerSlot { slot: number } => number,
                _ => 0,
            };
            let _ = session.state.play_card_to_slot(handle, number);
            session.cards[handle].zone = slot.zone;
            session.cards[handle].target_position = slot.position;
            session.cards[handle].position = Vec2::zero();
            session.cards[handle].scale = SCALE_ONE;
            session.cards[handle].rotation = 0;
            session.cards[handle].z = 0;
            session.slots[k].occupied = true;
            proof {
                assert(session@.cards =~= old(session)@.after_drop(handle as int).cards);
            }
        },
        None => {
            session.cards[handle].zone = CardZone::Hand { index: origin_index };
        },
    }
}

/// Lets every held card go, in the order of the handles.
pub fn drop_dragged(session: &mut Session)
    requires
        old(session).wf(),
    ensures
        final(session).wf(),
        final(session)@ == old(session)@.after_release(),
{
    let count: usize = session.cards.len();
    let mut i: usize = 0;
    while i < count
        invariant
            0 <= i <= count,
            count == old(session).cards.len(),
            session.cards.len() == count,
            old(session).wf(),
            session.wf(),
            session@ == old(session)@.after_release_upto(i as int),
        decreases count - i,
    {
        drop_card(session, i);
        i = i + 1;
    }
}

/// Handles dragging for one tick, in this order: a press picks up the
/// topmost hand card under the pointer; the held cards follow the pointer; a
/// release drops each held card on the first free player slot under its
/// centre, or back into the hand. Without a pointer the first two steps are
/// left out.
pub fn card_drag_system(
    session: &mut Session,
    pressed: bool,
    released: bool,
    pointer: Option<Vec2>,
)
    requires
        old(session).wf(),
        pointer is Some ==> pointer.unwrap().in_world(),
    ensures
        final(session).wf(),
        final(session)@ == old(session)@.after_drag(pressed, released, pointer),
{
    match pointer {
        Some(p) => {
            if pressed {
                let _ = begin_drag(session, p);
            }
            carry_dragged(session, p);
        },
        None => {},
    }
    if released {
        drop_dragged(session);
    }
}

} // verus!
