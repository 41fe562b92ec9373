//! Window anchoring: after a resize the elements glued to the window are
//! put back at their offsets from its edges.

use vstd::prelude::*;
use crate::card::DeckPile;
use crate::geometry::{LayoutZones, WindowDimensions};
use crate::session::{Session, Table};

verus! {

impl Table {
    /// The table after the window was observed with the extent `observed`.
    /// Where that differs from the known extent by more than a tenth of a
    /// world unit on either axis, the known extent and the zones derived
    /// from it follow, and the deck pile moves to where its anchor puts it
    /// in the new window. A smaller difference changes nothing.
    pub open spec fn after_resize(self, observed: WindowDimensions) -> Table {
        if observed.differs_from(self.window) {
            Table {
                window: observed,
                layout: LayoutZones::spec_new(observed),
                deck_pile: DeckPile {
                    position: self.deck_pile.anchor.spec_resolve(observed),
                    ..self.deck_pile
                },
                ..self
            }
        } else {
            self
        }
    }
}

/// A resize keeps the invariant.
pub proof fn lemma_resize_keeps_wf(table: Table, observed: WindowDimensions)
    requires
        table.wf(),
        observed.wf(),
    ensures
        table.after_resize(observed).wf(),
{
}

/// Follows a resize of the window. Where the observed extent differs from
/// the known one by more than a tenth of a world unit on either axis, the
/// session takes it over, derives the card size anew and moves the deck pile
/// to the same offset from its corner as before.
pub fn window_anchor_system(session: &mut Session, observed: WindowDimensions)
    requires
        old(session).wf(),
        observed.wf(),
    ensures
        final(session).wf(),
        final(session)@ == old(session)@.after_resize(observed),
{
    if observed.resized_from(&session.window) {
        session.window = observed;
        session.layout = LayoutZones::new(&observed);
        session.deck_pile.position = session.deck_pile.anchor.resolve(&observed);
    }
}

} // verus!
