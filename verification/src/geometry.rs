//! World geometry: points, boxes, the window, the zones derived from it and
//! the anchors that glue elements to its edges.
//!
//! The world's origin is the centre of the window, `x` grows to the right and
//! `y` grows upward. A length is a whole number of thousandths of a world
//! unit; an angle is a whole number of milliradians; a scale is a whole number
//! of millionths.

use vstd::prelude::*;
use crate::arith::{floor_div, lemma_mul_bounds, mul_wide};

verus! {

/// Thousandths in one world unit.
pub const UNIT: i64 = 1_000;

/// Largest magnitude of a coordinate.
pub const WORLD_LIMIT: i64 = 1_000_000_000;

/// Largest extent of a window.
pub const WINDOW_LIMIT: i64 = 100_000_000;

/// The scale that leaves a size unchanged.
pub const SCALE_ONE: i64 = 1_000_000;

/// Largest magnitude of a scale.
pub const SCALE_LIMIT: i64 = 1_000_000_000;

/// Largest number of slots that one row is laid out with.
pub const ROW_LIMIT: usize = 1_000_000;

/// A point or an extent of the world.
#[derive(Clone, Copy, Debug, PartialEq, Eq, Structural)]
pub struct Vec2 {
    pub x: i64,
    pub y: i64,
}

impl Vec2 {
    /// Both coordinates lie within the world.
    pub open spec fn in_world(self) -> bool {
        &&& -WORLD_LIMIT <= self.x <= WORLD_LIMIT
        &&& -WORLD_LIMIT <= self.y <= WORLD_LIMIT
    }

    pub fn new(x: i64, y: i64) -> (v: Self)
        ensures
            v == (Vec2 { x, y }),
    {
        Vec2 { x, y }
    }

    /// The origin.
    pub fn zero() -> (v: Self)
        ensures
            v == (Vec2 { x: 0, y: 0 }),
    {
        Vec2 { x: 0, y: 0 }
    }
}

/// The closed box of extent `size` centred on `center` holds `p`: on each
/// axis `p` is at most half the extent away from the centre.
pub open spec fn box_contains(center: Vec2, size: Vec2, p: Vec2) -> bool {
    &&& 2 * center.x - size.x <= 2 * p.x <= 2 * center.x + size.x
    &&& 2 * center.y - size.y <= 2 * p.y <= 2 * center.y + size.y
}

/// Tests whether the box of extent `size` centred on `center` holds `p`.
pub fn contains(center: Vec2, size: Vec2, p: Vec2) -> (inside: bool)
    ensures
        inside == box_contains(center, size, p),
{
    let cx: i128 = 2 * (center.x as i128);
    let cy: i128 = 2 * (center.y as i128);
    let px: i128 = 2 * (p.x as i128);
    let py: i128 = 2 * (p.y as i128);
    let sx: i128 = size.x as i128;
    let sy: i128 = size.y as i128;
    cx - sx <= px && px <= cx + sx && cy - sy <= py && py <= cy + sy
}

/// An extent multiplied by a scale given in millionths.
pub open spec fn spec_scaled_size(base: Vec2, scale: i64) -> Vec2 {
    Vec2 {
        x: ((base.x * scale) / (SCALE_ONE as int)) as i64,
        y: ((base.y * scale) / (SCALE_ONE as int)) as i64,
    }
}

/// The scaled extent stays far inside the machine range.
pub proof fn lemma_scaled_size_range(base: Vec2, scale: i64)
    requires
        base.in_world(),
        -SCALE_LIMIT <= scale <= SCALE_LIMIT,
    ensures
        -1_000_000_000_000_000_000 <= (base.x * scale) / (SCALE_ONE as int)
            <= 1_000_000_000_000_000_000,
        -1_000_000_000_000_000_000 <= (base.y * scale) / (SCALE_ONE as int)
            <= 1_000_000_000_000_000_000,
{
    lemma_mul_bounds(base.x as int, scale as int, WORLD_LIMIT as int, SCALE_LIMIT as int);
    lemma_mul_bounds(base.y as int, scale as int, WORLD_LIMIT as int, SCALE_LIMIT as int);
}

/// Scales an extent by `scale` millionths, rounding down.
pub fn scaled_size(base: Vec2, scale: i64) -> (size: Vec2)
    requires
        base.in_world(),
        -SCALE_LIMIT <= scale <= SCALE_LIMIT,
    ensures
        size == spec_scaled_size(base, scale),
        size.x == (base.x * scale) / (SCALE_ONE as int),
        size.y == (base.y * scale) / (SCALE_ONE as int),
{
    proof {
        lemma_scaled_size_range(base, scale);
    }
    let x: i128 = floor_div(mul_wide(base.x, scale), SCALE_ONE as i128);
    let y: i128 = floor_div(mul_wide(base.y, scale), SCALE_ONE as i128);
    Vec2 { x: x as i64, y: y as i64 }
}

/// The extent of the window.
#[derive(Clone, Copy, Debug, PartialEq, Eq, Structural)]
pub struct WindowDimensions {
    pub width: i64,
    pub height: i64,
}

impl WindowDimensions {
    /// Neither extent is negative or beyond the limit.
    pub open spec fn wf(self) -> bool {
        &&& 0 <= self.width <= WINDOW_LIMIT
        &&& 0 <= self.height <= WINDOW_LIMIT
    }

    /// Some extent differs from that of `other` by more than a tenth of a
    /// world unit.
    pub open spec fn differs_from(self, other: WindowDimensions) -> bool {
        ||| self.width - other.width > 100
        ||| other.width - self.width > 100
        ||| self.height - other.height > 100
        ||| other.height - self.height > 100
    }

    /// Tests whether the window was resized from `other` by more than a tenth
    /// of a world unit on either axis.
    pub fn resized_from(&self, other: &WindowDimensions) -> (changed: bool)
        requires
            self.wf(),
            other.wf(),
        ensures
            changed == self.differs_from(*other),
    {
        self.width - other.width > 100 || other.width - self.width > 100 || self.height
            - other.height > 100 || other.height - self.height > 100
    }
}

impl Default for WindowDimensions {
    /// A window of 1280 by 720 world units.
    fn default() -> (dims: Self)
        ensures
            dims == (WindowDimensions { width: 1_280_000, height: 720_000 }),
    {
        WindowDimensions { width: 1_280_000, height: 720_000 }
    }
}

/// Card height for a window height: two fifths of it.
pub open spec fn spec_card_height(window_height: int) -> int {
    window_height * 2 / 5
}

/// Card width for a card height: two thirds of it.
pub open spec fn spec_card_width(card_height: int) -> int {
    card_height * 2 / 3
}

/// The card size and the rows of the table, derived from the window.
#[derive(Clone, Copy, Debug, PartialEq, Eq, Structural)]
pub struct LayoutZones {
    pub card_size: Vec2,
    pub card_width: i64,
    pub card_height: i64,
}

impl LayoutZones {
    /// The three fields agree and the card is no larger than a window.
    pub open spec fn wf(self) -> bool {
        &&& 0 <= self.card_width <= WINDOW_LIMIT
        &&& 0 <= self.card_height <= WINDOW_LIMIT
        &&& self.card_size == (Vec2 { x: self.card_width, y: self.card_height })
    }

    /// The zones that `new` derives from a window.
    pub open spec fn spec_new(window_dims: WindowDimensions) -> LayoutZones {
        let card_height = spec_card_height(window_dims.height as int);
        let card_width = spec_card_width(card_height);
        LayoutZones {
            card_size: Vec2 { x: card_width as i64, y: card_height as i64 },
            card_width: card_width as i64,
            card_height: card_height as i64,
        }
    }

    /// The height of the hand row's centre line.
    pub open spec fn spec_player_hand_y(self, window_dims: WindowDimensions) -> int {
        -(window_dims.height / 2) + window_dims.height / 40 + self.card_height / 2
    }

    /// The height of the player's row of play slots.
    pub open spec fn spec_player_play_area_y(self, window_dims: WindowDimensions) -> int {
        self.spec_player_hand_y(window_dims) + self.card_height + window_dims.height * 2 / 25
    }

    /// The height of the opponent's row of play slots.
    pub open spec fn spec_opponent_play_area_y(self, window_dims: WindowDimensions) -> int {
        (window_dims.height / 2 - window_dims.height / 40 - self.card_height / 2)
            - self.card_height - window_dims.height * 2 / 25
    }

    /// The gap between two neighbouring slots: a fifth of the card width.
    pub open spec fn spec_slot_gap(self) -> int {
        self.card_width / 5
    }

    /// The centre of slot `i` in a row of `num_slots` slots centred on the
    /// vertical axis at height `center_y`.
    pub open spec fn spec_slot_position(self, num_slots: int, center_y: i64, i: int) -> Vec2 {
        let total_width = num_slots * self.card_width + (num_slots - 1) * self.spec_slot_gap();
        let x = -(total_width / 2) + i * (self.card_width + self.spec_slot_gap())
            + self.card_width / 2;
        Vec2 { x: x as i64, y: center_y }
    }

    /// Card height is 40% of the window height, card width two thirds of the
    /// card height.
    pub fn new(window_dims: &WindowDimensions) -> (zones: Self)
        requires
            window_dims.wf(),
        ensures
            zones == Self::spec_new(*window_dims),
            zones.wf(),
            zones.card_height == spec_card_height(window_dims.height as int),
            zones.card_width == spec_card_width(zones.card_height as int),
    {
        let card_height: i64 = window_dims.height * 2 / 5;
        let card_width: i64 = card_height * 2 / 3;
        LayoutZones { card_size: Vec2 { x: card_width, y: card_height }, card_width, card_height }
    }

    /// Height of the player's hand: the cards stand a fortieth of the window
    /// height above its bottom edge.
    pub fn player_hand_y(&self, window_dims: &WindowDimensions) -> (y: i64)
        requires
            self.wf(),
            window_dims.wf(),
        ensures
            y == self.spec_player_hand_y(*window_dims),
    {
        let card_half_height: i64 = self.card_height / 2;
        let bottom_margin: i64 = window_dims.height / 40;
        -(window_dims.height / 2) + bottom_margin + card_half_height
    }

    /// Height of the player's play area: one card height and 8% of the
    /// window height above the hand.
    pub fn player_play_area_y(&self, window_dims: &WindowDimensions) -> (y: i64)
        requires
            self.wf(),
            window_dims.wf(),
        ensures
            y == self.spec_player_play_area_y(*window_dims),
    {
        let hand_y: i64 = self.player_hand_y(window_dims);
        hand_y + self.card_height + window_dims.height * 2 / 25
    }

    /// Height of the opponent's play area: one card height and 8% of the
    /// window height below the opponent's hand.
    pub fn opponent_play_area_y(&self, window_dims: &WindowDimensions) -> (y: i64)
        requires
            self.wf(),
            window_dims.wf(),
        ensures
            y == self.spec_opponent_play_area_y(*window_dims),
    {
        let card_half_height: i64 = self.card_height / 2;
        let top_margin: i64 = window_dims.height / 40;
        let opponent_hand_y: i64 = window_dims.height / 2 - top_margin - card_half_height;
        opponent_hand_y - self.card_height - window_dims.height * 2 / 25
    }

    /// Height of the opponent's hand: the mirror image of the player's.
    pub fn opponent_hand_y(&self, window_dims: &WindowDimensions) -> (y: i64)
        requires
            self.wf(),
            window_dims.wf(),
        ensures
            y == -self.spec_player_hand_y(*window_dims),
    {
        -self.player_hand_y(window_dims)
    }

    /// Centres of a row of `num_slots` card slots, a fifth of a card width
    /// apart, centred on the vertical axis at height `center_y`.
    pub fn calculate_slot_positions(&self, num_slots: usize, center_y: i64) -> (positions: Vec<
        Vec2,
    >)
        requires
            self.wf(),
            num_slots <= ROW_LIMIT,
        ensures
            positions.len() == num_slots,
            forall|i: int|
                0 <= i < num_slots ==> #[trigger] positions[i] == self.spec_slot_position(
                    num_slots as int,
                    center_y,
                    i,
                ),
    {
        let mut positions: Vec<Vec2> = Vec::new();
        if num_slots == 0 {
            return positions;
        }
        let count: i64 = num_slots as i64;
        let spacing: i64 = self.card_width / 5;
        let pitch: i64 = self.card_width + spacing;
        proof {
            lemma_mul_bounds(count as int, self.card_width as int, ROW_LIMIT as int, WINDOW_LIMIT as int);
            lemma_mul_bounds(count - 1, spacing as int, ROW_LIMIT as int, WINDOW_LIMIT as int);
        }
        let total_width: i64 = count * self.card_width + (count - 1) * spacing;
        let start_x: i64 = -(total_width / 2);
        let mut i: usize = 0;
        while i < num_slots
            invariant
                self.wf(),
                num_slots <= ROW_LIMIT,
                count == num_slots,
                spacing == self.spec_slot_gap(),
                pitch == self.card_width + spacing,
                total_width == num_slots * self.card_width + (num_slots - 1) * self.spec_slot_gap(),
                -2_000_000 * WINDOW_LIMIT <= total_width <= 2_000_000 * WINDOW_LIMIT,
                start_x == -(total_width / 2),
                0 <= i <= num_slots,
                positions.len() == i,
                forall|j: int|
                    0 <= j < i ==> #[trigger] positions[j] == self.spec_slot_position(
                        num_slots as int,
                        center_y,
                        j,
                    ),
            decreases num_slots - i,
        {
            proof {
                lemma_mul_bounds(i as int, pitch as int, ROW_LIMIT as int, 2 * WINDOW_LIMIT);
            }
            let x: i64 = start_x + (i as i64) * pitch + self.card_width / 2;
            positions.push(Vec2 { x, y: center_y });
            i = i + 1;
        }
        positions
    }
}

/// The slots of a row of five lie in the world, as do the heights of the
/// two play areas.
pub proof fn lemma_row_of_five_in_world(zones: LayoutZones, window_dims: WindowDimensions, k: int)
    requires
        zones.wf(),
        window_dims.wf(),
        0 <= k < 5,
    ensures
        -WORLD_LIMIT <= zones.spec_player_play_area_y(window_dims) <= WORLD_LIMIT,
        -WORLD_LIMIT <= zones.spec_opponent_play_area_y(window_dims) <= WORLD_LIMIT,
        zones.spec_slot_position(
            5,
            zones.spec_player_play_area_y(window_dims) as i64,
            k,
        ).in_world(),
        zones.spec_slot_position(
            5,
            zones.spec_opponent_play_area_y(window_dims) as i64,
            k,
        ).in_world(),
{
    let w = zones.card_width as int;
    let gap = zones.spec_slot_gap();
    assert(k * (w + gap) <= 4 * (w + gap)) by (nonlinear_arith)
        requires
            0 <= k < 5,
            0 <= w + gap,
    ;
    assert(0 <= k * (w + gap)) by (nonlinear_arith)
        requires
            0 <= k < 5,
            0 <= w + gap,
    ;
}

/// Where an element is glued to the window: an edge centre or a corner, and
/// the fixed offset from it.
#[derive(Clone, Copy, Debug, PartialEq, Eq, Structural)]
pub enum AnchorPosition {
    BottomCenter { offset_y: i64 },
    TopCenter { offset_y: i64 },
    TopRight { offset_x: i64, offset_y: i64 },
    TopLeft { offset_x: i64, offset_y: i64 },
    BottomRight { offset_x: i64, offset_y: i64 },
    BottomLeft { offset_x: i64, offset_y: i64 },
}

impl AnchorPosition {
    /// The horizontal offset from the anchor's reference point.
    pub open spec fn offset_x(self) -> int {
        match self {
            AnchorPosition::BottomCenter { .. } => 0,
            AnchorPosition::TopCenter { .. } => 0,
            AnchorPosition::TopRight { offset_x, .. } => offset_x as int,
            AnchorPosition::TopLeft { offset_x, .. } => offset_x as int,
            AnchorPosition::BottomRight { offset_x, .. } => offset_x as int,
            AnchorPosition::BottomLeft { offset_x, .. } => offset_x as int,
        }
    }

    /// The vertical offset from the anchor's reference point.
    pub open spec fn offset_y(self) -> int {
        match self {
            AnchorPosition::BottomCenter { offset_y } => offset_y as int,
            AnchorPosition::TopCenter { offset_y } => offset_y as int,
            AnchorPosition::TopRight { offset_y, .. } => offset_y as int,
            AnchorPosition::TopLeft { offset_y, .. } => offset_y as int,
            AnchorPosition::BottomRight { offset_y, .. } => offset_y as int,
            AnchorPosition::BottomLeft { offset_y, .. } => offset_y as int,
        }
    }

    /// The offsets are small enough for the anchored point to stay in the
    /// world whatever the window.
    pub open spec fn wf(self) -> bool {
        &&& -(WORLD_LIMIT / 2) <= self.offset_x() <= WORLD_LIMIT / 2
        &&& -(WORLD_LIMIT / 2) <= self.offset_y() <= WORLD_LIMIT / 2
    }

    /// The anchor's reference point in a window: the centre of an edge or a
    /// corner, half the window's extent away from the origin.
    pub open spec fn origin(self, window_dims: WindowDimensions) -> (int, int) {
        let half_width = window_dims.width / 2;
        let half_height = window_dims.height / 2;
        match self {
            AnchorPosition::BottomCenter { .. } => (0, -half_height),
            AnchorPosition::TopCenter { .. } => (0, half_height),
            AnchorPosition::TopRight { .. } => (half_width, half_height),
            AnchorPosition::TopLeft { .. } => (-half_width, half_height),
            AnchorPosition::BottomRight { .. } => (half_width, -half_height),
            AnchorPosition::BottomLeft { .. } => (-half_width, -half_height),
        }
    }

    /// The anchored point: the reference point moved by the offsets.
    pub open spec fn spec_resolve(self, window_dims: WindowDimensions) -> Vec2 {
        Vec2 {
            x: (self.origin(window_dims).0 + self.offset_x()) as i64,
            y: (self.origin(window_dims).1 + self.offset_y()) as i64,
        }
    }

    /// Computes the absolute position of an element anchored by `self` in a
    /// window of the given extent.
    pub fn resolve(&self, window_dims: &WindowDimensions) -> (position: Vec2)
        requires
            self.wf(),
            window_dims.wf(),
        ensures
            position == self.spec_resolve(*window_dims),
            position.in_world(),
            position.x - self.origin(*window_dims).0 == self.offset_x(),
            position.y - self.origin(*window_dims).1 == self.offset_y(),
    {
        let half_width: i64 = window_dims.width / 2;
        let half_height: i64 = window_dims.height / 2;
        match *self {
            AnchorPosition::BottomCenter { offset_y } => Vec2 { x: 0, y: -half_height + offset_y },
            AnchorPosition::TopCenter { offset_y } => Vec2 { x: 0, y: half_height + offset_y },
            AnchorPosition::TopRight { offset_x, offset_y } => Vec2 {
                x: half_width + offset_x,
                y: half_height + offset_y,
            },
            AnchorPosition::TopLeft { offset_x, offset_y } => Vec2 {
                x: -half_width + offset_x,
                y: half_height + offset_y,
            },
            AnchorPosition::BottomRight { offset_x, offset_y } => Vec2 {
                x: half_width + offset_x,
                y: -half_height + offset_y,
            },
            AnchorPosition::BottomLeft { offset_x, offset_y } => Vec2 {
                x: -half_width + offset_x,
                y: -half_height + offset_y,
            },
        }
    }
}

/// An anchored element keeps its offset from its reference point of the
/// window across any resize: in both windows the anchored point lies exactly
/// the anchor's offsets away from that point.
pub proof fn lemma_anchor_keeps_offset(
    anchor: AnchorPosition,
    before: WindowDimensions,
    after: WindowDimensions,
)
    requires
        anchor.wf(),
        before.wf(),
        after.wf(),
    ensures
        anchor.spec_resolve(before).x - anchor.origin(before).0 == anchor.spec_resolve(after).x
            - anchor.origin(after).0,
        anchor.spec_resolve(before).y - anchor.origin(before).1 == anchor.spec_resolve(after).y
            - anchor.origin(after).1,
        anchor.spec_resolve(after).x - anchor.origin(after).0 == anchor.offset_x(),
        anchor.spec_resolve(after).y - anchor.origin(after).1 == anchor.offset_y(),
{
}

/// The card size derived from any window keeps the two-to-three aspect
/// ratio, up to the rounding of one step: three widths and two heights
/// differ by less than three steps.
pub proof fn lemma_card_aspect(window_dims: WindowDimensions)
    requires
        window_dims.wf(),
    ensures
        ({
            let zones = LayoutZones::spec_new(window_dims);
            &&& zones.wf()
            &&& zones.card_height == window_dims.height * 2 / 5
            &&& 0 <= 2 * zones.card_height - 3 * zones.card_width < 3
        }),
{
}

} // verus!
