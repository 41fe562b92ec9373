//! The hand layout: the cards of the hand fanned out along an arc above the
//! bottom edge of the window, spread apart around the hovered card.

use vstd::prelude::*;
use crate::arith::{clamp, floor_div, lemma_floor_div_bounds, lemma_mul_bounds, mul_wide, saturate};
use crate::card::{Card, CardZone};
use crate::geometry::{LayoutZones, Vec2, WindowDimensions, WORLD_LIMIT};
use crate::session::{Session, Table, CARD_LIMIT};

verus! {

/// Rotation between two neighbouring hand cards, in milliradians.
pub const ROTATION_PER_CARD: i64 = 80;

/// Distance between the centres of two neighbouring hand cards: two fifths
/// of the card width.
pub open spec fn spec_hand_spacing(layout: LayoutZones) -> int {
    layout.card_width * 2 / 5
}

/// Rise of the arc at its apex: a tenth of the card height.
pub open spec fn spec_arc_height(layout: LayoutZones) -> int {
    layout.card_height / 10
}

/// Distance by which the neighbours of the hovered card move away from it:
/// three tenths of the card width.
pub open spec fn spec_hover_spread(layout: LayoutZones) -> int {
    layout.card_width * 3 / 10
}

/// Twice the signed distance, in places, of place `index` from the middle of
/// a hand of `count` cards.
pub open spec fn spec_center_offset_doubled(count: int, index: int) -> int {
    2 * index - (count - 1)
}

/// The horizontal shift of place `index` when the card at place `hovered` is
/// hovered: places to its right move right, places to its left move left.
pub open spec fn spec_hover_shift(layout: LayoutZones, index: int, hovered: Option<usize>) -> int {
    match hovered {
        Some(j) => if index > j {
            spec_hover_spread(layout)
        } else if index < j {
            -spec_hover_spread(layout)
        } else {
            0
        },
        None => 0,
    }
}

/// The horizontal target of place `index` in a hand of `count` cards: the
/// places are one spacing apart and centred on the vertical axis.
pub open spec fn spec_hand_x(layout: LayoutZones, count: int, index: int, hovered: Option<usize>) -> int {
    let total_width = (count - 1) * spec_hand_spacing(layout);
    -(total_width / 2) + index * spec_hand_spacing(layout) + spec_hover_shift(layout, index, hovered)
}

/// The vertical target of place `index` in a hand of `count` cards: the hand
/// row raised by a parabola `a * (1 - u * u)`, where `a` is the arc height
/// and `u` the distance from the middle divided by half the count, or by one
/// for a single card.
pub open spec fn spec_hand_y(
    layout: LayoutZones,
    window_dims: WindowDimensions,
    count: int,
    index: int,
) -> int {
    let k = spec_center_offset_doubled(count, index);
    let m = if count >= 2 {
        count
    } else {
        2
    };
    layout.spec_player_hand_y(window_dims) + (spec_arc_height(layout) * (m * m - k * k)) / (m * m)
}

/// The target of place `index`; its coordinates stop at the edge of the
/// world.
pub open spec fn spec_hand_target(
    layout: LayoutZones,
    window_dims: WindowDimensions,
    count: int,
    index: int,
    hovered: Option<usize>,
) -> Vec2 {
    Vec2 {
        x: clamp(spec_hand_x(layout, count, index, hovered), WORLD_LIMIT as int) as i64,
        y: clamp(spec_hand_y(layout, window_dims, count, index), WORLD_LIMIT as int) as i64,
    }
}

/// The rotation of place `index`, in milliradians: the cards fan outward,
/// one rotation step per place away from the middle, turning clockwise to
/// the right of it.
pub open spec fn spec_hand_rotation(count: int, index: int) -> int {
    -(spec_center_offset_doubled(count, index) * ROTATION_PER_CARD) / 2
}

/// The place of the hovered card: the index of the first card, in the order
/// of the handles, that lies in the hand and is hovered.
pub open spec fn spec_hovered_index(cards: Seq<Card>) -> Option<usize>
    decreases cards.len(),
{
    if cards.len() == 0 {
        None
    } else {
        match spec_hovered_index(cards.drop_last()) {
            Some(j) => Some(j),
            None => match cards.last().zone {
                CardZone::Hand { index } => if cards.last().is_hovered {
                    Some(index)
                } else {
                    None
                },
                _ => None,
            },
        }
    }
}

/// A card after the layout pass: a card that lies in the hand gets the
/// target and the rotation of its place; any other card, a held one too,
/// stays as it is.
pub open spec fn laid_out(
    card: Card,
    layout: LayoutZones,
    window_dims: WindowDimensions,
    count: int,
    hovered: Option<usize>,
) -> Card {
    match card.zone {
        CardZone::Hand { index } => Card {
            target_position: spec_hand_target(layout, window_dims, count, index as int, hovered),
            rotation: spec_hand_rotation(count, index as int) as i64,
            ..card
        },
        _ => card,
    }
}

impl Table {
    /// The table after the layout pass. An empty hand leaves it as it is.
    pub open spec fn after_hand_layout(self) -> Table {
        if self.state.player_hand.len() == 0 {
            self
        } else {
            Table {
                cards: Seq::new(
                    self.cards.len(),
                    |i: int|
                        laid_out(
                            self.cards[i],
                            self.layout,
                            self.window,
                            self.state.player_hand.len() as int,
                            spec_hovered_index(self.cards),
                        ),
                ),
                ..self
            }
        }
    }
}

/// The place of the hovered card depends on the zones and the hover flags
/// alone.
pub proof fn lemma_hovered_index_same(a: Seq<Card>, b: Seq<Card>)
    requires
        a.len() == b.len(),
        forall|i: int|
            0 <= i < a.len() ==> (#[trigger] a[i]).zone == b[i].zone && a[i].is_hovered
                == b[i].is_hovered,
    ensures
        spec_hovered_index(a) == spec_hovered_index(b),
    decreases a.len(),
{
    if a.len() > 0 {
        lemma_hovered_index_same(a.drop_last(), b.drop_last());
    }
}

/// The layout is idempotent: a second pass over unchanged inputs gives every
/// card the target and the rotation that the first pass gave it.
pub proof fn lemma_layout_idempotent(table: Table)
    ensures
        table.after_hand_layout().after_hand_layout() == table.after_hand_layout(),
{
    let once = table.after_hand_layout();
    let twice = once.after_hand_layout();
    if table.state.player_hand.len() > 0 {
        lemma_hovered_index_same(table.cards, once.cards);
        assert(twice.cards =~= once.cards);
    }
}

/// The layout pass keeps the invariant.
pub proof fn lemma_layout_keeps_wf(table: Table)
    requires
        table.wf(),
    ensures
        table.after_hand_layout().wf(),
        table.after_hand_layout().cards.len() == table.cards.len(),
{
}

/// Computes the target and the rotation of place `index` in a hand of
/// `count` cards, of which the card at place `hovered`, if any, is hovered.
/// The hand holds at least one card; a place beyond the end of the hand is
/// laid out by the same formulas.
pub fn hand_card_transform(
    layout: &LayoutZones,
    window_dims: &WindowDimensions,
    count: usize,
    index: usize,
    hovered: Option<usize>,
) -> (placed: (Vec2, i64))
    requires
        layout.wf(),
        window_dims.wf(),
        1 <= count <= CARD_LIMIT,
        index <= CARD_LIMIT,
    ensures
        placed.0 == spec_hand_target(*layout, *window_dims, count as int, index as int, hovered),
        placed.1 == spec_hand_rotation(count as int, index as int),
{
    let n: i64 = count as i64;
    let i: i64 = index as i64;
    let card_spacing: i64 = layout.card_width * 2 / 5;
    let arc_height: i64 = layout.card_height / 10;
    let hover_spread: i64 = layout.card_width * 3 / 10;
    let hand_y: i64 = layout.player_hand_y(window_dims);

    proof {
        lemma_mul_bounds(n - 1, card_spacing as int, CARD_LIMIT as int, 100_000_000);
        lemma_mul_bounds(i as int, card_spacing as int, CARD_LIMIT as int, 100_000_000);
    }
    let total_width: i64 = (n - 1) * card_spacing;
    let start_x: i64 = -(total_width / 2);
    let mut x_offset: i64 = i * card_spacing;
    match hovered {
        Some(hovered_idx) => {
            if index > hovered_idx {
                x_offset = x_offset + hover_spread;
            } else if index < hovered_idx {
                x_offset = x_offset - hover_spread;
            }
        },
        None => {},
    }
    let x: i64 = saturate((start_x + x_offset) as i128, WORLD_LIMIT);

    let k: i64 = 2 * i - (n - 1);
    let m: i64 = if n >= 2 {
        n
    } else {
        2
    };
    proof {
        lemma_mul_bounds(k as int, k as int, 3_000_000, 3_000_000);
        lemma_mul_bounds(m as int, m as int, 3_000_000, 3_000_000);
        assert(m * m >= 4) by (nonlinear_arith)
            requires
                m >= 2,
        ;
    }
    let mm: i128 = mul_wide(m, m);
    let kk: i128 = mul_wide(k, k);
    let spread: i64 = (mm - kk) as i64;
    let raised: i128 = mul_wide(arc_height, spread);
    proof {
        lemma_mul_bounds(
            arc_height as int,
            spread as int,
            100_000_000,
            18_000_000_000_000,
        );
        lemma_floor_div_bounds(raised as int, mm as int, 1_800_000_000_000_000_000_000int);
    }
    let y_offset: i128 = floor_div(raised, mm);
    let y: i64 = saturate((hand_y as i128) + y_offset, WORLD_LIMIT);

    let rotation: i64 = -(k * ROTATION_PER_CARD) / 2;
    (Vec2 { x, y }, rotation)
}

/// Finds the place of the hovered card: the index of the first card that
/// lies in the hand and is hovered.
pub fn find_hovered_index(cards: &Vec<Card>) -> (hovered: Option<usize>)
    ensures
        hovered == spec_hovered_index(cards@),
{
    let mut hovered: Option<usize> = None;
    let mut i: usize = 0;
    while i < cards.len()
        invariant
            0 <= i <= cards.len(),
            hovered == spec_hovered_index(cards@.take(i as int)),
        decreases cards.len() - i,
    {
        proof {
            assert(cards@.take(i + 1).drop_last() =~= cards@.take(i as int));
        }
        if hovered.is_none() && cards[i].is_hovered {
            match cards[i].zone {
                CardZone::Hand { index } => {
                    hovered = Some(index);
                },
                _ => {},
            }
        }
        i = i + 1;
    }
    proof {
        assert(cards@.take(i as int) =~= cards@);
    }
    hovered
}

/// Arranges the hand in a splayed arc. Every card that lies in the hand
/// gets the target position of its place and, at once, the rotation of its
/// place; the cards to the right of the hovered card move right and those to
/// its left move left. Held cards are skipped, and an empty hand changes
/// nothing.
pub fn hand_layout_system(session: &mut Session)
    requires
        old(session).wf(),
    ensures
        final(session).wf(),
        final(session)@ == old(session)@.after_hand_layout(),
{
    proof {
        lemma_layout_keeps_wf(session@);
    }
    let hand_count: usize = session.state.player_hand.len();
    if hand_count == 0 {
        return ;
    }
    let hovered_index: Option<usize> = find_hovered_index(&session.cards);
    let layout: LayoutZones = session.layout;
    let window_dims: WindowDimensions = session.window;
    let mut i: usize = 0;
    while i < session.cards.len()
        invariant
            0 <= i <= session.cards.len(),
            session.cards.len() == old(session).cards.len(),
            old(session).wf(),
            layout == old(session).layout,
            window_dims == old(session).window,
            hand_count == old(session)@.state.player_hand.len(),
            hovered_index == spec_hovered_index(old(session)@.cards),
            session@ == (Table { cards: session@.cards, ..old(session)@ }),
            forall|j: int|
                0 <= j < i ==> #[trigger] session@.cards[j] == laid_out(
                    old(session)@.cards[j],
                    layout,
                    window_dims,
                    hand_count as int,
                    hovered_index,
                ),
            forall|j: int|
                i <= j < session.cards.len() ==> #[trigger] session@.cards[j] == old(
                    session,
                )@.cards[j],
        decreases session.cards.len() - i,
    {
        match session.cards[i].zone {
            CardZone::Hand { index } => {
                let placed: (Vec2, i64) = hand_card_transform(
                    &layout,
                    &window_dims,
                    hand_count,
                    index,
                    hovered_index,
                );
                session.cards[i].target_position = placed.0;
                session.cards[i].rotation = placed.1;
            },
            _ => {},
        }
        i = i + 1;
    }
}

} // verus!
