//! Animation: every tick the drawn scale and centre of each card move a
//! share of the way toward their targets, and the drawn depth is set from
//! the card's zone and hover state.

use vstd::prelude::*;
use crate::arith::{clamp, floor_div, lemma_mul_bounds, magnitude, saturate};
use crate::card::{Card, CardConfig, CardZone, DRAG_Z, HAND_Z_STEP, HOVER_Z_BONUS};
use crate::geometry::{Vec2, SCALE_LIMIT, WORLD_LIMIT};
use crate::session::{Session, Table};

verus! {

/// A scale within this distance of its target snaps to it: a thousandth.
pub const SCALE_EPSILON: i64 = 1_000;

/// A centre within this distance of its target snaps to it: a tenth of a
/// world unit.
pub const POSITION_EPSILON: i64 = 100;

/// Speed times time, over which a step is divided: the speed is in
/// thousandths per second and the time in microseconds.
pub const EASE_DIVISOR: i64 = 1_000_000_000;

/// The distance covered in one step: the remaining distance times the
/// rate, over the divisor, rounded away from zero, so that a card that has
/// not arrived never stands still while time passes.
pub open spec fn spec_ease_step(distance: int, rate: int) -> int {
    if distance >= 0 {
        -((-(distance * rate)) / (EASE_DIVISOR as int))
    } else {
        (distance * rate) / (EASE_DIVISOR as int)
    }
}

/// One step of exponential approach: the value moves from `current` toward
/// `target` by the remaining distance times speed times time, and stops at
/// `limit`.
pub open spec fn spec_ease(current: int, target: int, speed: int, dt_micros: int, limit: int) -> int {
    clamp(current + spec_ease_step(target - current, speed * dt_micros), limit)
}

/// The drawn scale is close enough to its target to snap to it.
pub open spec fn scale_settled(card: Card) -> bool {
    magnitude(card.target_scale - card.scale) <= SCALE_EPSILON
}

/// The drawn centre is close enough to its target to snap to it: the
/// straight-line distance is at most the threshold.
pub open spec fn position_settled(card: Card) -> bool {
    let dx = card.target_position.x - card.position.x;
    let dy = card.target_position.y - card.position.y;
    dx * dx + dy * dy <= POSITION_EPSILON * POSITION_EPSILON
}

/// The scale a card is drawn with after a tick.
pub open spec fn spec_next_scale(card: Card, config: CardConfig, dt_micros: u32) -> int {
    if scale_settled(card) {
        card.target_scale as int
    } else {
        spec_ease(
            card.scale as int,
            card.target_scale as int,
            config.animation_speed as int,
            dt_micros as int,
            SCALE_LIMIT as int,
        )
    }
}

/// The centre a card is drawn at after a tick.
pub open spec fn spec_next_position(card: Card, config: CardConfig, dt_micros: u32) -> Vec2 {
    if position_settled(card) {
        card.target_position
    } else {
        Vec2 {
            x: spec_ease(
                card.position.x as int,
                card.target_position.x as int,
                config.animation_speed as int,
                dt_micros as int,
                WORLD_LIMIT as int,
            ) as i64,
            y: spec_ease(
                card.position.y as int,
                card.target_position.y as int,
                config.animation_speed as int,
                dt_micros as int,
                WORLD_LIMIT as int,
            ) as i64,
        }
    }
}

/// The depth a card is drawn at after a tick, in a hand of `hand_count`
/// cards. A hand card lies ten deeper for each place to its right and a
/// hundred higher when hovered; where its place is not below the hand count
/// its depth is left alone. A held card is in front of all. Any other card
/// lies at depth zero.
pub open spec fn spec_next_z(card: Card, hand_count: int) -> int {
    match card.zone {
        CardZone::Hand { index } => if index < hand_count {
            (hand_count - index) * HAND_Z_STEP + if card.is_hovered {
                HOVER_Z_BONUS as int
            } else {
                0
            }
        } else {
            card.z as int
        },
        CardZone::Dragging { .. } => DRAG_Z as int,
        _ => 0,
    }
}

/// A held card is in front: in a hand of fewer than ninety cards the depth
/// that the animation pass gives to a card that is not held is below the
/// depth of a held card, provided that the depth it may keep is.
pub proof fn lemma_held_card_in_front(card: Card, hand_count: int)
    requires
        0 <= hand_count < 90,
        !(card.zone is Dragging),
        card.z < DRAG_Z,
    ensures
        spec_next_z(card, hand_count) < DRAG_Z,
{
}

/// A card after the animation pass. The rotation is never eased.
pub open spec fn animated(card: Card, config: CardConfig, dt_micros: u32, hand_count: int) -> Card {
    Card {
        scale: spec_next_scale(card, config, dt_micros) as i64,
        position: spec_next_position(card, config, dt_micros),
        z: spec_next_z(card, hand_count) as i64,
        ..card
    }
}

impl Table {
    /// The table after the animation pass of a tick that took `dt_micros`
    /// microseconds.
    pub open spec fn after_animation(self, dt_micros: u32) -> Table {
        Table {
            cards: Seq::new(
                self.cards.len(),
                |i: int|
                    animated(
                        self.cards[i],
                        self.config,
                        dt_micros,
                        self.state.player_hand.len() as int,
                    ),
            ),
            ..self
        }
    }
}

/// A step that covers at most the whole remaining distance ends between the
/// current value and the target and is not cut short by the limit; and where
/// time has passed and the target is not reached, the value has moved.
pub proof fn lemma_ease_between(current: int, target: int, speed: int, dt_micros: int, limit: int)
    requires
        -limit <= current <= limit,
        -limit <= target <= limit,
        0 <= speed * dt_micros <= EASE_DIVISOR,
    ensures
        current <= target ==> current <= spec_ease(current, target, speed, dt_micros, limit)
            <= target,
        target <= current ==> target <= spec_ease(current, target, speed, dt_micros, limit)
            <= current,
        spec_ease(current, target, speed, dt_micros, limit) == current + spec_ease_step(
            target - current,
            speed * dt_micros,
        ),
        speed * dt_micros > 0 && current != target ==> spec_ease(
            current,
            target,
            speed,
            dt_micros,
            limit,
        ) != current,
{
    let f = speed * dt_micros;
    let d = target - current;
    let e = EASE_DIVISOR as int;
    if d >= 0 {
        let x = -(d * f);
        let q = x / e;
        assert(-(d * e) <= x <= 0) by (nonlinear_arith)
            requires
                d >= 0,
                0 <= f <= e,
                x == -(d * f),
        ;
        assert(-d <= q <= 0) by (nonlinear_arith)
            requires
                -(d * e) <= x <= 0,
                x == e * q + x % e,
                0 <= x % e < e,
                e > 0,
        ;
        if f > 0 && d > 0 {
            assert(x < 0) by (nonlinear_arith)
                requires
                    d > 0,
                    f > 0,
                    x == -(d * f),
            ;
            assert(q < 0) by (nonlinear_arith)
                requires
                    x < 0,
                    x == e * q + x % e,
                    0 <= x % e < e,
                    e > 0,
            ;
        }
    } else {
        let x = d * f;
        let q = x / e;
        assert(d * e <= x <= 0) by (nonlinear_arith)
            requires
                d < 0,
                0 <= f <= e,
                x == d * f,
        ;
        assert(d <= q <= 0) by (nonlinear_arith)
            requires
                d * e <= x <= 0,
                x == e * q + x % e,
                0 <= x % e < e,
                e > 0,
        ;
        if f > 0 {
            assert(x < 0) by (nonlinear_arith)
                requires
                    d < 0,
                    f > 0,
                    x == d * f,
            ;
            assert(q < 0) by (nonlinear_arith)
                requires
                    x < 0,
                    x == e * q + x % e,
                    0 <= x % e < e,
                    e > 0,
            ;
        }
    }
}

/// The drawn scale converges: in a tick that covers some but no more than
/// all of the remaining distance, a scale that has not reached its target
/// comes strictly closer to it.
pub proof fn lemma_scale_progress(card: Card, config: CardConfig, dt_micros: u32)
    requires
        card.wf(),
        0 < config.animation_speed * dt_micros <= EASE_DIVISOR,
        card.scale != card.target_scale,
    ensures
        magnitude(card.target_scale - spec_next_scale(card, config, dt_micros)) < magnitude(
            card.target_scale - card.scale,
        ),
{
    lemma_ease_between(
        card.scale as int,
        card.target_scale as int,
        config.animation_speed as int,
        dt_micros as int,
        SCALE_LIMIT as int,
    );
}

/// The drawn centre converges: in a tick that covers some but no more than
/// all of the remaining distance, a centre that has not reached its target
/// comes strictly closer to it, measured along the axes.
pub proof fn lemma_position_progress(card: Card, config: CardConfig, dt_micros: u32)
    requires
        card.wf(),
        0 < config.animation_speed * dt_micros <= EASE_DIVISOR,
        card.position != card.target_position,
    ensures
        ({
            let next = spec_next_position(card, config, dt_micros);
            magnitude(card.target_position.x - next.x) + magnitude(card.target_position.y - next.y)
                < magnitude(card.target_position.x - card.position.x) + magnitude(
                card.target_position.y - card.position.y,
            )
        }),
{
    lemma_ease_between(
        card.position.x as int,
        card.target_position.x as int,
        config.animation_speed as int,
        dt_micros as int,
        WORLD_LIMIT as int,
    );
    lemma_ease_between(
        card.position.y as int,
        card.target_position.y as int,
        config.animation_speed as int,
        dt_micros as int,
        WORLD_LIMIT as int,
    );
}

/// Moves `current` one step toward `target`: by the remaining distance
/// times `speed`, in thousandths per second, times `dt_micros` microseconds,
/// rounded away from zero, and no further than `limit`.
pub fn ease(current: i64, target: i64, speed: u32, dt_micros: u32, limit: i64) -> (next: i64)
    requires
        0 <= limit <= 1_000_000_000,
        -limit <= current <= limit,
        -limit <= target <= limit,
    ensures
        next == spec_ease(
            current as int,
            target as int,
            speed as int,
            dt_micros as int,
            limit as int,
        ),
        -limit <= next <= limit,
{
    let diff: i64 = target - current;
    proof {
        lemma_mul_bounds(speed as int, dt_micros as int, 0xFFFF_FFFF, 0xFFFF_FFFF);
        assert(0 <= speed * dt_micros) by (nonlinear_arith)
            requires
                0 <= speed,
                0 <= dt_micros,
        ;
    }
    let rate: u64 = (speed as u64) * (dt_micros as u64);
    proof {
        lemma_mul_bounds(diff as int, rate as int, 2_000_000_000, 0x1_0000_0000_0000_0000);
    }
    let wide: i128 = (diff as i128) * (rate as i128);
    let step: i128 = if diff >= 0 {
        -floor_div(-wide, EASE_DIVISOR as i128)
    } else {
        floor_div(wide, EASE_DIVISOR as i128)
    };
    saturate((current as i128) + step, limit)
}

/// The animation pass keeps the invariant.
pub proof fn lemma_animation_keeps_wf(table: Table, dt_micros: u32)
    requires
        table.wf(),
    ensures
        table.after_animation(dt_micros).wf(),
        table.after_animation(dt_micros).cards.len() == table.cards.len(),
{
}

/// Tests whether the drawn centre of a card is within the snap distance of
/// its target.
fn position_is_settled(card: &Card) -> (settled: bool)
    requires
        card.wf(),
    ensures
        settled == position_settled(*card),
{
    let dx: i64 = card.target_position.x - card.position.x;
    let dy: i64 = card.target_position.y - card.position.y;
    proof {
        lemma_mul_bounds(dx as int, dx as int, 2_000_000_000, 2_000_000_000);
        lemma_mul_bounds(dy as int, dy as int, 2_000_000_000, 2_000_000_000);
    }
    dx * dx + dy * dy <= POSITION_EPSILON * POSITION_EPSILON
}

/// Animates every card by one tick of `dt_micros` microseconds. The drawn
/// scale and centre cover the share `speed * dt` of the distance to their
/// targets, rounded away from zero, or snap to them once they are within a
/// thousandth, for the scale, or a tenth of a world unit, for the centre. The drawn depth is set
/// at once: zero outside the hand, ten per place from the right end of the
/// hand plus a hundred for the hovered card inside it, and the front depth
/// for a held card. A hand card whose place is not below the number of cards
/// in the hand keeps its depth.
pub fn card_animation_system(session: &mut Session, dt_micros: u32)
    requires
        old(session).wf(),
    ensures
        final(session).wf(),
        final(session)@ == old(session)@.after_animation(dt_micros),
{
    let hand_count: usize = session.state.player_hand.len();
    let speed: u32 = session.config.animation_speed;
    let mut i: usize = 0;
    while i < session.cards.len()
        invariant
            0 <= i <= session.cards.len(),
            session.cards.len() == old(session).cards.len(),
            old(session).wf(),
            hand_count == old(session)@.state.player_hand.len(),
            speed == old(session).config.animation_speed,
            session@ == (Table { cards: session@.cards, ..old(session)@ }),
            forall|j: int|
                0 <= j < i ==> #[trigger] session@.cards[j] == animated(
                    old(session)@.cards[j],
                    old(session)@.config,
                    dt_micros,
                    hand_count as int,
                ),
            forall|j: int|
                i <= j < session.cards.len() ==> #[trigger] session@.cards[j] == old(
                    session,
                )@.cards[j],
        decreases session.cards.len() - i,
    {
        let current_scale: i64 = session.cards[i].scale;
        let target_scale: i64 = session.cards[i].target_scale;
        let scale_diff: i64 = target_scale - current_scale;
        let new_scale: i64 = if scale_diff > SCALE_EPSILON || scale_diff < -SCALE_EPSILON {
            ease(current_scale, target_scale, speed, dt_micros, SCALE_LIMIT)
        } else {
            target_scale
        };

        let current_pos: Vec2 = session.cards[i].position;
        let target_pos: Vec2 = session.cards[i].target_position;
        let new_pos: Vec2 = if position_is_settled(&session.cards[i]) {
            target_pos
        } else {
            Vec2 {
                x: ease(current_pos.x, target_pos.x, speed, dt_micros, WORLD_LIMIT),
                y: ease(current_pos.y, target_pos.y, speed, dt_micros, WORLD_LIMIT),
            }
        };

        let is_hovered: bool = session.cards[i].is_hovered;
        let new_z: i64 = match session.cards[i].zone {
            CardZone::Hand { index } => {
                if index < hand_count {
                    let base_z: i64 = ((hand_count - index) as i64) * HAND_Z_STEP;
                    if is_hovered {
                        base_z + HOVER_Z_BONUS
                    } else {
                        base_z
                    }
                } else {
                    session.cards[i].z
                }
            },
            CardZone::Dragging { .. } => DRAG_Z,
            _ => 0,
        };
        session.cards[i].scale = new_scale;
        session.cards[i].position = new_pos;
        session.cards[i].z = new_z;
        i = i + 1;
    }
}

} // verus!
