//! Hit-testing: which card lies topmost under the pointer.

use vstd::prelude::*;
use crate::card::{Card, CardHandle};
use crate::geometry::{box_contains, contains, scaled_size, spec_scaled_size, Vec2};

verus! {

/// The card can be pointed at, and the pointer at `p` is on it: the card
/// lies in the hand, is not held, and its box, the base size times the scale
/// it is drawn with, around the centre it is drawn at, holds `p`.
pub open spec fn card_hit(card: Card, p: Vec2) -> bool {
    &&& card.zone is Hand
    &&& box_contains(card.position, spec_scaled_size(card.base_size, card.scale), p)
}

/// Card `i` is the topmost card under a pointer at `p`: it is hit, every
/// other card that is hit lies deeper or as deep, and of those as deep none
/// comes later.
pub open spec fn is_topmost(cards: Seq<Card>, p: Vec2, i: int) -> bool {
    &&& 0 <= i < cards.len()
    &&& card_hit(cards[i], p)
    &&& forall|j: int|
        0 <= j < cards.len() && card_hit(#[trigger] cards[j], p) ==> cards[j].z < cards[i].z || (
        cards[j].z == cards[i].z && j <= i)
}

/// The topmost card under a pointer at `p`, if any card is hit.
pub open spec fn spec_topmost(cards: Seq<Card>, p: Vec2) -> Option<CardHandle> {
    if exists|i: int| is_topmost(cards, p, i) {
        Some((choose|i: int| is_topmost(cards, p, i)) as usize)
    } else {
        None
    }
}

/// The card that a hit test reports: none without a pointer, else the
/// topmost card under it.
pub open spec fn spec_hit_test(cards: Seq<Card>, pointer: Option<Vec2>) -> Option<CardHandle> {
    match pointer {
        Some(p) => spec_topmost(cards, p),
        None => None,
    }
}

/// At most one card is topmost.
pub proof fn lemma_topmost_unique(cards: Seq<Card>, p: Vec2, i: int, j: int)
    requires
        is_topmost(cards, p, i),
        is_topmost(cards, p, j),
    ensures
        i == j,
{
}

/// A card found to be topmost is the one that `spec_topmost` names, and
/// where no card is hit it names none.
pub proof fn lemma_topmost_found(cards: Seq<Card>, p: Vec2, found: Option<CardHandle>)
    requires
        cards.len() <= usize::MAX,
        found is Some ==> is_topmost(cards, p, found.unwrap() as int),
        found is None ==> forall|j: int| 0 <= j < cards.len() ==> !card_hit(#[trigger] cards[j], p),
    ensures
        found == spec_topmost(cards, p),
{
}

/// Where some card is hit, `spec_topmost` names a card that is topmost.
pub proof fn lemma_topmost_exists(cards: Seq<Card>, p: Vec2, hit: int)
    requires
        cards.len() <= usize::MAX,
        0 <= hit < cards.len(),
        card_hit(cards[hit], p),
    ensures
        spec_topmost(cards, p) is Some,
        is_topmost(cards, p, spec_topmost(cards, p).unwrap() as int),
{
    let best = best_upto(cards, p, cards.len() as int);
    lemma_best_upto(cards, p, cards.len() as int);
    assert(is_topmost(cards, p, best.unwrap()));
}

/// The best card among the first `n`, found by going through them in order
/// and keeping a later card that lies as deep.
spec fn best_upto(cards: Seq<Card>, p: Vec2, n: int) -> Option<int>
    decreases n,
{
    if n <= 0 {
        None
    } else {
        let before = best_upto(cards, p, n - 1);
        if card_hit(cards[n - 1], p) && (before is None || cards[n - 1].z >= cards[before.unwrap()].z) {
            Some(n - 1)
        } else {
            before
        }
    }
}

/// Card `i` is topmost among the first `n` cards.
spec fn is_topmost_upto(cards: Seq<Card>, p: Vec2, n: int, i: int) -> bool {
    &&& 0 <= i < n
    &&& card_hit(cards[i], p)
    &&& forall|j: int|
        0 <= j < n && card_hit(#[trigger] cards[j], p) ==> cards[j].z < cards[i].z || (cards[j].z
            == cards[i].z && j <= i)
}

proof fn lemma_best_upto(cards: Seq<Card>, p: Vec2, n: int)
    requires
        0 <= n <= cards.len(),
    ensures
        best_upto(cards, p, n) is Some ==> is_topmost_upto(cards, p, n, best_upto(cards, p, n).unwrap()),
        best_upto(cards, p, n) is None ==> forall|j: int|
            0 <= j < n ==> !card_hit(#[trigger] cards[j], p),
    decreases n,
{
    if n > 0 {
        lemma_best_upto(cards, p, n - 1);
    }
}

/// Finds the topmost card under the pointer: of the cards in the hand whose
/// box holds the pointer, the one drawn with the greatest depth, and of
/// several as deep the one with the greatest handle. Without a pointer no
/// card is found.
pub fn hit_test(cards: &Vec<Card>, pointer: Option<Vec2>) -> (found: Option<CardHandle>)
    requires
        forall|i: int| 0 <= i < cards.len() ==> (#[trigger] cards[i]).wf(),
    ensures
        found == spec_hit_test(cards@, pointer),
        pointer is None ==> found is None,
        pointer is Some && found is Some ==> is_topmost(
            cards@,
            pointer.unwrap(),
            found.unwrap() as int,
        ),
        pointer is Some && found is None ==> forall|j: int|
            0 <= j < cards.len() ==> !card_hit(#[trigger] cards[j], pointer.unwrap()),
{
    let p: Vec2 = match pointer {
        Some(p) => p,
        None => {
            return None;
        },
    };
    let mut best: Option<usize> = None;
    let mut best_z: i64 = 0;
    let mut i: usize = 0;
    while i < cards.len()
        invariant
            0 <= i <= cards.len(),
            forall|k: int| 0 <= k < cards.len() ==> (#[trigger] cards[k]).wf(),
            best is Some ==> is_topmost_upto(cards@, p, i as int, best.unwrap() as int) && best_z
                == cards[best.unwrap() as int].z,
            best is None ==> forall|j: int| 0 <= j < i ==> !card_hit(#[trigger] cards[j], p),
        decreases cards.len() - i,
    {
        let card = &cards[i];
        let in_hand: bool = match card.zone {
            crate::card::CardZone::Hand { .. } => true,
            _ => false,
        };
        if in_hand {
            let size: Vec2 = scaled_size(card.base_size, card.scale);
            if contains(card.position, size, p) {
                if best.is_none() || card.z >= best_z {
                    best = Some(i);
                    best_z = card.z;
                }
            }
        }
        i = i + 1;
    }
    proof {
        lemma_topmost_found(cards@, p, best);
    }
    best
}

} // verus!
