//! What the invariant of a session means for its cards and slots.

use vstd::prelude::*;
use crate::session::Table;

verus! {

/// Every card is in exactly one place. Its zone is one of lying in the
/// hand, being held, lying in a slot of the player and lying in a slot of
/// the opponent, never the deck; and the lists of the state agree with the
/// zone: the card is listed in the hand exactly when it lies there or is
/// held, in a slot of the player or of the opponent exactly when its zone is
/// that slot, and in exactly one of the three.
pub proof fn lemma_zone_exclusive(table: Table, i: int)
    requires
        table.wf(),
        0 <= i < table.cards.len(),
    ensures
        !(table.cards[i].zone is Deck),
        (table.cards[i].zone is Hand || table.cards[i].zone is Dragging) <==> table.in_hand_list(i),
        table.cards[i].zone is PlayerSlot <==> table.in_player_slot(i),
        table.cards[i].zone is OpponentSlot <==> table.in_opponent_slot(i),
        table.in_hand_list(i) ==> !table.in_player_slot(i) && !table.in_opponent_slot(i),
        table.in_player_slot(i) ==> !table.in_opponent_slot(i),
        table.in_hand_list(i) || table.in_player_slot(i) || table.in_opponent_slot(i),
{
}

/// In a session every handle is listed at most once by the state.
pub proof fn lemma_state_lists_once(table: Table)
    requires
        table.wf(),
    ensures
        table.state.wf(),
{
}

/// A slot is marked occupied exactly when some card's zone is that slot.
pub proof fn lemma_slot_occupancy(table: Table, k: int)
    requires
        table.wf(),
        0 <= k < table.slots.len(),
    ensures
        table.slots[k].occupied <==> exists|i: int|
            0 <= i < table.cards.len() && (#[trigger] table.cards[i]).zone == table.slots[k].zone,
{
}

} // verus!
