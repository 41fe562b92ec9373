//! One tick of the engine: the passes in their fixed order.

use vstd::prelude::*;
use crate::anchor::{lemma_resize_keeps_wf, window_anchor_system};
use crate::animation::{card_animation_system, lemma_animation_keeps_wf};
use crate::card::CardHandle;
use crate::deck::{deck_click_system, lemma_draw_keeps_wf};
use crate::drag::{card_drag_system, lemma_drag_keeps_wf};
use crate::geometry::{Vec2, WindowDimensions};
use crate::hover::{card_hover_system, lemma_hover_keeps_wf};
use crate::layout::{hand_layout_system, lemma_layout_keeps_wf};
use crate::session::{Session, Table};

verus! {

/// What the engine is told at the start of a tick.
#[derive(Clone, Copy, Debug, PartialEq, Eq, Structural)]
pub struct TickInput {
    /// The extent of the window, or nothing where there is no window or no
    /// camera to see it through.
    pub window: Option<WindowDimensions>,
    /// The pointer in world coordinates, or nothing where it is outside the
    /// window.
    pub pointer: Option<Vec2>,
    /// The left button went down during this tick.
    pub pressed: bool,
    /// The left button came up during this tick.
    pub released: bool,
    /// The time since the tick before, in microseconds.
    pub dt_micros: u32,
}

impl TickInput {
    /// The window and the pointer lie within their limits.
    pub open spec fn wf(self) -> bool {
        &&& self.window is Some ==> self.window.unwrap().wf()
        &&& self.pointer is Some ==> self.pointer.unwrap().in_world()
    }
}

impl Table {
    /// The table after the passes that look at the pointer: hover, then the
    /// deck, then dragging.
    pub open spec fn after_interaction(self, input: TickInput) -> Table {
        self.after_hover(input.pointer).after_deck_click(input.pressed, input.pointer).after_drag(
            input.pressed,
            input.released,
            input.pointer,
        )
    }

    /// The table after a whole tick: the window is followed, the hand is
    /// laid out, the pointer is handled and the cards are animated, in this
    /// order. Without a window the first and the third step are left out.
    pub open spec fn after_tick(self, input: TickInput) -> Table {
        match input.window {
            Some(observed) => self.after_resize(observed).after_hand_layout().after_interaction(
                input,
            ).after_animation(input.dt_micros),
            None => self.after_hand_layout().after_animation(input.dt_micros),
        }
    }

    /// The handle of the card that a tick deals from the deck, if it deals
    /// one.
    pub open spec fn tick_deals(self, input: TickInput) -> Option<CardHandle> {
        match input.window {
            Some(observed) => self.after_resize(observed).after_hand_layout().after_hover(
                input.pointer,
            ).deck_click_deals(input.pressed, input.pointer),
            None => None,
        }
    }
}

/// A tick keeps the invariant of the session.
pub proof fn lemma_tick_keeps_wf(table: Table, input: TickInput)
    requires
        table.wf(),
        input.wf(),
        table.cards.len() <= usize::MAX,
    ensures
        table.after_tick(input).wf(),
{
    match input.window {
        Some(observed) => {
            lemma_resize_keeps_wf(table, observed);
            let resized = table.after_resize(observed);
            lemma_layout_keeps_wf(resized);
            let laid = resized.after_hand_layout();
            lemma_hover_keeps_wf(laid, input.pointer);
            let hovered = laid.after_hover(input.pointer);
            lemma_draw_keeps_wf(hovered);
            let dealt = hovered.after_deck_click(input.pressed, input.pointer);
            lemma_drag_keeps_wf(dealt, input.pressed, input.released, input.pointer);
            let dragged = dealt.after_drag(input.pressed, input.released, input.pointer);
            lemma_animation_keeps_wf(dragged, input.dt_micros);
        },
        None => {
            lemma_layout_keeps_wf(table);
            lemma_animation_keeps_wf(table.after_hand_layout(), input.dt_micros);
        },
    }
}

/// The pile runs out once: a pile that is exhausted before a tick is
/// exhausted after it.
pub proof fn lemma_exhausted_stays(table: Table, input: TickInput)
    requires
        table.wf(),
        input.wf(),
        table.cards.len() <= usize::MAX,
        table.deck_pile.exhausted,
    ensures
        table.after_tick(input).deck_pile.exhausted,
{
    match input.window {
        Some(observed) => {
            lemma_resize_keeps_wf(table, observed);
            let resized = table.after_resize(observed);
            lemma_layout_keeps_wf(resized);
            let laid = resized.after_hand_layout();
            lemma_hover_keeps_wf(laid, input.pointer);
            let hovered = laid.after_hover(input.pointer);
            lemma_drag_keeps_wf(hovered, input.pressed, input.released, input.pointer);
        },
        None => {},
    }
}

/// Runs one tick: follows the window, lays out the hand, recomputes hover,
/// handles a click on the deck and the drag in progress, and animates the
/// cards. A tick without a window skips what depends on the pointer and
/// retries on the next tick. Returns the handle of the card dealt during the
/// tick, if one was.
pub fn tick(session: &mut Session, input: TickInput) -> (dealt: Option<CardHandle>)
    requires
        old(session).wf(),
        input.wf(),
    ensures
        final(session).wf(),
        final(session)@ == old(session)@.after_tick(input),
        dealt == old(session)@.tick_deals(input),
{
    let mut dealt: Option<CardHandle> = None;
    match input.window {
        Some(observed) => {
            window_anchor_system(session, observed);
            hand_layout_system(session);
            let _ = card_hover_system(session, input.pointer);
            dealt = deck_click_system(session, input.pressed, input.pointer);
            card_drag_system(session, input.pressed, input.released, input.pointer);
        },
        None => {
            hand_layout_system(session);
        },
    }
    card_animation_system(session, input.dt_micros);
    dealt
}

} // verus!
