use cardigan::anchor::window_anchor_system;
use cardigan::animation::card_animation_system;
use cardigan::card::{Card, CardConfig, CardData, CardSlot, CardZone, DRAG_Z};
use cardigan::deck::deck_click_system;
use cardigan::drag::{begin_drag, card_drag_system, carry_dragged, drop_card, find_drop_target};
use cardigan::geometry::{AnchorPosition, Vec2, WindowDimensions};
use cardigan::hit::hit_test;
use cardigan::hover::card_hover_system;
use cardigan::layout::{find_hovered_index, hand_card_transform, hand_layout_system};
use cardigan::session::{setup_gameplay, setup_play_areas, Session};
use cardigan::tick::{tick, TickInput};

const DECK_AT: Vec2 = Vec2 { x: 524_800, y: -196_800 };
const DEAL_AT: Vec2 = Vec2 { x: 0, y: -250_000 };
const SLOT_Y: i64 = 147_600;

fn fresh_session() -> Session {
    let mut session = setup_gameplay(None, CardConfig::default());
    setup_play_areas(&mut session);
    session
}

fn session_with_hand(count: usize) -> Session {
    let mut session = fresh_session();
    for _ in 0..count {
        assert!(deck_click_system(&mut session, true, Some(DECK_AT)).is_some());
    }
    session
}

fn hand_card(position: Vec2, z: i64) -> Card {
    let mut card = Card::new(CardData::new("c".to_string()), Vec2::new(100, 200));
    card.zone = CardZone::Hand { index: 0 };
    card.position = position;
    card.z = z;
    card
}

fn check_consistency(session: &Session) {
    let state = &session.state;
    for (i, card) in session.cards.iter().enumerate() {
        let in_hand = state.player_hand.iter().filter(|&&h| h == i).count();
        let in_player = state.player_play_area.iter().filter(|&&s| s == Some(i)).count();
        let in_opponent = state.opponent_play_area.iter().filter(|&&s| s == Some(i)).count();
        assert_eq!(in_hand + in_player + in_opponent, 1, "card {} is in one place", i);
        match card.zone {
            CardZone::Deck => panic!("a card on the table is not in the deck"),
            CardZone::Hand { .. } | CardZone::Dragging { .. } => assert_eq!(in_hand, 1),
            CardZone::PlayerSlot { slot } => assert_eq!(state.player_play_area[slot], Some(i)),
            CardZone::OpponentSlot { slot } => assert_eq!(state.opponent_play_area[slot], Some(i)),
        }
    }
    for slot in session.slots.iter() {
        let referenced = session.cards.iter().any(|c| c.zone == slot.zone);
        assert_eq!(slot.occupied, referenced);
    }
}

/// Picks the topmost hand card up at `from`, carries it to `to` and lets go.
fn drag(session: &mut Session, from: Vec2, to: Vec2) {
    card_drag_system(session, true, false, Some(from));
    card_drag_system(session, false, false, Some(to));
    card_drag_system(session, false, true, Some(to));
}

#[test]
fn setup_puts_the_deck_in_the_bottom_right_corner() {
    let session = setup_gameplay(None, CardConfig::default());
    assert_eq!(session.window, WindowDimensions { width: 1_280_000, height: 720_000 });
    assert_eq!(session.layout.card_size, Vec2::new(192_000, 288_000));
    assert_eq!(
        session.deck_pile.anchor,
        AnchorPosition::BottomRight { offset_x: -115_200, offset_y: 163_200 }
    );
    assert_eq!(session.deck_pile.position, DECK_AT);
    assert_eq!(session.deck_pile.size, Vec2::new(192_000, 288_000));
    assert!(!session.deck_pile.exhausted);
    assert_eq!(session.state.deck.len(), 10);
    assert!(session.cards.is_empty());
    assert!(session.slots.is_empty());
    assert_eq!(session.config, CardConfig::default());
}

#[test]
fn setup_takes_the_window_it_is_given() {
    let dims = WindowDimensions { width: 1_920_000, height: 1_080_000 };
    let session = setup_gameplay(Some(dims), CardConfig::default());
    assert_eq!(session.window, dims);
    assert_eq!(session.layout.card_size, Vec2::new(288_000, 432_000));
    assert_eq!(session.deck_pile.position, Vec2::new(960_000 - 172_800, -540_000 + 244_800));
}

#[test]
fn play_areas_hold_five_slots_on_each_side() {
    let session = fresh_session();
    assert_eq!(session.slots.len(), 10);
    let xs = [-460_800, -230_400, 0, 230_400, 460_800];
    for k in 0..5 {
        assert_eq!(
            session.slots[k],
            CardSlot {
                zone: CardZone::PlayerSlot { slot: k },
                occupied: false,
                position: Vec2::new(xs[k], SLOT_Y),
                size: Vec2::new(192_000, 288_000),
            }
        );
        assert_eq!(
            session.slots[5 + k],
            CardSlot {
                zone: CardZone::OpponentSlot { slot: k },
                occupied: false,
                position: Vec2::new(xs[k], -SLOT_Y),
                size: Vec2::new(192_000, 288_000),
            }
        );
    }
    check_consistency(&session);
}

#[test]
fn one_draw_from_a_fresh_deck() {
    let mut session = fresh_session();
    let dealt = deck_click_system(&mut session, true, Some(DECK_AT));
    assert_eq!(dealt, Some(0));
    assert_eq!(session.state.player_hand, vec![0]);
    assert_eq!(session.state.deck.len(), 9);
    assert_eq!(session.cards.len(), 1);
    let card = &session.cards[0];
    assert_eq!(card.zone, CardZone::Hand { index: 0 });
    assert_eq!(card.data.name, "Card 10");
    assert_eq!(card.base_size, Vec2::new(192_000, 288_000));
    assert_eq!(card.position, DEAL_AT);
    assert_eq!(card.z, 10);
    assert_eq!(card.scale, 1_000_000);
    assert!(!card.is_hovered);
    assert!(!session.deck_pile.exhausted);
    check_consistency(&session);
}

#[test]
fn deck_click_needs_a_press_on_the_pile() {
    let mut session = fresh_session();
    assert_eq!(deck_click_system(&mut session, false, Some(DECK_AT)), None);
    assert_eq!(deck_click_system(&mut session, true, None), None);
    assert_eq!(deck_click_system(&mut session, true, Some(Vec2::zero())), None);
    // Just outside the right edge of the pile, and exactly on it.
    let edge = Vec2::new(DECK_AT.x + 96_000, DECK_AT.y);
    assert_eq!(deck_click_system(&mut session, true, Some(Vec2::new(edge.x + 1, edge.y))), None);
    assert!(session.cards.is_empty());
    assert_eq!(session.state.deck.len(), 10);
    assert_eq!(deck_click_system(&mut session, true, Some(edge)), Some(0));
}

#[test]
fn draws_give_rising_handles_and_indices() {
    let session = session_with_hand(3);
    assert_eq!(session.state.player_hand, vec![0, 1, 2]);
    for i in 0..3 {
        assert_eq!(session.cards[i].zone, CardZone::Hand { index: i });
        assert_eq!(session.cards[i].data.name, format!("Card {}", 10 - i));
    }
    check_consistency(&session);
}

#[test]
fn the_pile_is_exhausted_by_the_last_draw_and_stays_so() {
    let mut session = session_with_hand(9);
    assert!(!session.deck_pile.exhausted);
    assert_eq!(deck_click_system(&mut session, true, Some(DECK_AT)), Some(9));
    assert!(session.deck_pile.exhausted);
    assert!(session.state.deck.is_empty());
    assert_eq!(deck_click_system(&mut session, true, Some(DECK_AT)), None);
    assert_eq!(session.cards.len(), 10);
    assert!(session.deck_pile.exhausted);
    check_consistency(&session);
}

#[test]
fn a_click_on_a_pile_with_an_empty_deck_exhausts_it() {
    let mut session = fresh_session();
    session.state.deck.clear();
    assert_eq!(deck_click_system(&mut session, true, Some(DECK_AT)), None);
    assert!(session.deck_pile.exhausted);
    assert!(session.cards.is_empty());
}

#[test]
fn hit_test_without_a_pointer_finds_nothing() {
    let cards = vec![hand_card(Vec2::zero(), 5)];
    assert_eq!(hit_test(&cards, None), None);
    assert_eq!(hit_test(&cards, Some(Vec2::zero())), Some(0));
    assert_eq!(hit_test(&Vec::new(), Some(Vec2::zero())), None);
}

#[test]
fn hit_test_takes_the_greatest_depth() {
    let cards = vec![
        hand_card(Vec2::zero(), 10),
        hand_card(Vec2::new(10, 0), 30),
        hand_card(Vec2::new(20, 0), 20),
        hand_card(Vec2::new(5_000, 0), 99),
    ];
    assert_eq!(hit_test(&cards, Some(Vec2::new(10, 0))), Some(1));
    // Only the first card reaches this far left.
    assert_eq!(hit_test(&cards, Some(Vec2::new(-50, 0))), Some(0));
    assert_eq!(hit_test(&cards, Some(Vec2::new(5_000, 100))), Some(3));
    assert_eq!(hit_test(&cards, Some(Vec2::new(0, 101))), None);
}

#[test]
fn hit_test_breaks_ties_by_the_later_card() {
    let cards = vec![
        hand_card(Vec2::zero(), 7),
        hand_card(Vec2::zero(), 7),
        hand_card(Vec2::zero(), 7),
        hand_card(Vec2::zero(), 6),
    ];
    assert_eq!(hit_test(&cards, Some(Vec2::zero())), Some(2));
}

#[test]
fn hit_test_passes_over_cards_outside_the_hand() {
    let mut held = hand_card(Vec2::zero(), 1000);
    held.zone = CardZone::Dragging { offset: Vec2::zero(), origin_index: 0 };
    let mut played = hand_card(Vec2::zero(), 500);
    played.zone = CardZone::PlayerSlot { slot: 0 };
    let mut fresh = hand_card(Vec2::zero(), 400);
    fresh.zone = CardZone::Deck;
    let cards = vec![hand_card(Vec2::zero(), -3), held, played, fresh];
    assert_eq!(hit_test(&cards, Some(Vec2::zero())), Some(0));
}

#[test]
fn hit_test_uses_the_drawn_scale() {
    let mut card = hand_card(Vec2::zero(), 0);
    assert_eq!(hit_test(&vec![hand_card(Vec2::zero(), 0)], Some(Vec2::new(51, 0))), None);
    card.scale = 1_300_000;
    let cards = vec![card];
    assert_eq!(hit_test(&cards, Some(Vec2::new(65, 130))), Some(0));
    assert_eq!(hit_test(&cards, Some(Vec2::new(66, 0))), None);
    assert_eq!(hit_test(&cards, Some(Vec2::new(0, -131))), None);
}

#[test]
fn hover_marks_the_topmost_card_only() {
    let mut session = session_with_hand(3);
    card_animation_system(&mut session, 0);
    assert_eq!(session.cards[0].z, 30);
    assert_eq!(session.cards[1].z, 20);
    assert_eq!(session.cards[2].z, 10);
    let target = card_hover_system(&mut session, Some(DEAL_AT));
    assert_eq!(target, Some(0));
    let flags: Vec<bool> = session.cards.iter().map(|c| c.is_hovered).collect();
    assert_eq!(flags, vec![true, false, false]);
    assert_eq!(session.cards[0].target_scale, 1_300_000);
    assert_eq!(session.cards[1].target_scale, 1_000_000);
    assert_eq!(flags.iter().filter(|&&f| f).count(), 1);
    check_consistency(&session);
}

#[test]
fn hover_ends_when_the_pointer_leaves() {
    let mut session = session_with_hand(2);
    card_animation_system(&mut session, 0);
    assert_eq!(card_hover_system(&mut session, Some(DEAL_AT)), Some(0));
    assert!(session.cards[0].is_hovered);
    assert_eq!(card_hover_system(&mut session, None), None);
    assert!(!session.cards[0].is_hovered);
    assert_eq!(session.cards[0].target_scale, 1_000_000);
    assert_eq!(card_hover_system(&mut session, Some(Vec2::new(0, 300_000))), None);
    assert!(session.cards.iter().all(|c| !c.is_hovered));
}

#[test]
fn hover_sets_the_scale_on_a_change_only() {
    let mut session = session_with_hand(1);
    session.cards[0].target_scale = 1_111_111;
    card_hover_system(&mut session, None);
    assert_eq!(session.cards[0].target_scale, 1_111_111);
    card_hover_system(&mut session, Some(DEAL_AT));
    assert_eq!(session.cards[0].target_scale, 1_300_000);
    session.cards[0].target_scale = 1_222_222;
    card_hover_system(&mut session, Some(DEAL_AT));
    assert_eq!(session.cards[0].target_scale, 1_222_222);
}

#[test]
fn hover_leaves_held_cards_alone() {
    let mut session = session_with_hand(1);
    card_hover_system(&mut session, Some(DEAL_AT));
    assert_eq!(begin_drag(&mut session, DEAL_AT), Some(0));
    card_hover_system(&mut session, None);
    assert!(session.cards[0].is_hovered);
    assert_eq!(session.cards[0].target_scale, 1_300_000);
}

#[test]
fn layout_of_a_single_card() {
    let mut session = session_with_hand(1);
    hand_layout_system(&mut session);
    assert_eq!(session.cards[0].target_position, Vec2::new(0, -169_200));
    assert_eq!(session.cards[0].rotation, 0);
    // The drawn centre is not touched by the layout.
    assert_eq!(session.cards[0].position, DEAL_AT);
}

#[test]
fn layout_of_three_cards_fans_out() {
    let mut session = session_with_hand(3);
    hand_layout_system(&mut session);
    let targets: Vec<Vec2> = session.cards.iter().map(|c| c.target_position).collect();
    assert_eq!(
        targets,
        vec![Vec2::new(-76_800, -182_000), Vec2::new(0, -169_200), Vec2::new(76_800, -182_000)]
    );
    let rotations: Vec<i64> = session.cards.iter().map(|c| c.rotation).collect();
    assert_eq!(rotations, vec![80, 0, -80]);
}

#[test]
fn layout_of_two_cards() {
    let mut session = session_with_hand(2);
    hand_layout_system(&mut session);
    // u is one half on both sides: the rise is three quarters of the arc.
    assert_eq!(session.cards[0].target_position, Vec2::new(-38_400, -176_400));
    assert_eq!(session.cards[1].target_position, Vec2::new(38_400, -176_400));
    assert_eq!(session.cards[0].rotation, 40);
    assert_eq!(session.cards[1].rotation, -40);
}

#[test]
fn layout_spreads_the_neighbours_of_the_hovered_card() {
    let mut session = session_with_hand(3);
    session.cards[1].is_hovered = true;
    hand_layout_system(&mut session);
    let xs: Vec<i64> = session.cards.iter().map(|c| c.target_position.x).collect();
    assert_eq!(xs, vec![-134_400, 0, 134_400]);
    session.cards[1].is_hovered = false;
    session.cards[0].is_hovered = true;
    hand_layout_system(&mut session);
    let xs: Vec<i64> = session.cards.iter().map(|c| c.target_position.x).collect();
    assert_eq!(xs, vec![-76_800, 57_600, 134_400]);
}

#[test]
fn layout_twice_gives_the_same() {
    let mut session = session_with_hand(4);
    session.cards[2].is_hovered = true;
    hand_layout_system(&mut session);
    let once: Vec<(Vec2, i64)> =
        session.cards.iter().map(|c| (c.target_position, c.rotation)).collect();
    hand_layout_system(&mut session);
    let twice: Vec<(Vec2, i64)> =
        session.cards.iter().map(|c| (c.target_position, c.rotation)).collect();
    assert_eq!(once, twice);
}

#[test]
fn layout_skips_held_cards_and_empty_hands() {
    let mut session = fresh_session();
    hand_layout_system(&mut session);
    assert!(session.cards.is_empty());
    let mut session = session_with_hand(2);
    assert_eq!(begin_drag(&mut session, DEAL_AT), Some(1));
    hand_layout_system(&mut session);
    assert_eq!(session.cards[1].target_position, Vec2::zero());
    assert_eq!(session.cards[1].rotation, 0);
    // The held card still counts toward the size of the hand.
    assert_eq!(session.cards[0].target_position, Vec2::new(-38_400, -176_400));
}

#[test]
fn hand_card_transform_follows_the_formulas() {
    let session = fresh_session();
    let (at, rotation) = hand_card_transform(&session.layout, &session.window, 5, 4, Some(1));
    // x: -(4 * 76800) / 2 + 4 * 76800 + 57600; y: -198000 + 28800 * (25 - 16) / 25.
    assert_eq!(at, Vec2::new(211_200, -187_632));
    assert_eq!(rotation, -160);
    // A place beyond the end of the hand dips below the hand row.
    let (at, rotation) = hand_card_transform(&session.layout, &session.window, 1, 1, None);
    assert_eq!(at, Vec2::new(76_800, -198_000));
    assert_eq!(rotation, -80);
    let (at, _) = hand_card_transform(&session.layout, &session.window, 1, 2, None);
    assert_eq!(at, Vec2::new(153_600, -198_000 + 28_800 * (4 - 16) / 4));
}

#[test]
fn hand_card_transform_stops_at_the_edge_of_the_world() {
    let dims = WindowDimensions { width: 100_000_000, height: 100_000_000 };
    let session = setup_gameplay(Some(dims), CardConfig::default());
    let (at, _) = hand_card_transform(&session.layout, &session.window, 1, 1_000_000, None);
    assert_eq!(at, Vec2::new(1_000_000_000, -1_000_000_000));
}

#[test]
fn hovered_index_is_that_of_the_first_hovered_hand_card() {
    let mut session = session_with_hand(3);
    assert_eq!(find_hovered_index(&session.cards), None);
    session.cards[2].is_hovered = true;
    assert_eq!(find_hovered_index(&session.cards), Some(2));
    session.cards[1].is_hovered = true;
    assert_eq!(find_hovered_index(&session.cards), Some(1));
    session.cards[1].zone = CardZone::Dragging { offset: Vec2::zero(), origin_index: 1 };
    assert_eq!(find_hovered_index(&session.cards), Some(2));
}

#[test]
fn press_picks_up_the_topmost_hand_card() {
    let mut session = session_with_hand(2);
    card_animation_system(&mut session, 0);
    let at = Vec2::new(10_000, -240_000);
    assert_eq!(begin_drag(&mut session, at), Some(0));
    assert_eq!(
        session.cards[0].zone,
        CardZone::Dragging { offset: Vec2::new(10_000, 10_000), origin_index: 0 }
    );
    assert_eq!(session.cards[1].zone, CardZone::Hand { index: 1 });
    // The hand list still holds the held card.
    assert_eq!(session.state.player_hand, vec![0, 1]);
    check_consistency(&session);
    // A second press finds the card below, not the held one.
    assert_eq!(begin_drag(&mut session, at), Some(1));
}

#[test]
fn press_beside_the_hand_picks_nothing() {
    let mut session = session_with_hand(1);
    assert_eq!(begin_drag(&mut session, Vec2::new(300_000, 0)), None);
    assert_eq!(session.cards[0].zone, CardZone::Hand { index: 0 });
    card_drag_system(&mut session, true, false, None);
    assert_eq!(session.cards[0].zone, CardZone::Hand { index: 0 });
}

#[test]
fn held_card_follows_the_pointer() {
    let mut session = session_with_hand(1);
    begin_drag(&mut session, Vec2::new(10_000, -240_000));
    carry_dragged(&mut session, Vec2::new(-90_000, 60_000));
    let card = &session.cards[0];
    assert_eq!(card.target_position, Vec2::new(-100_000, 50_000));
    assert_eq!(card.position, Vec2::new(-100_000, 50_000));
    assert_eq!(card.z, DRAG_Z);
    assert_eq!(card.z, 1000);
}

#[test]
fn held_card_stops_at_the_edge_of_the_world() {
    let mut session = session_with_hand(1);
    begin_drag(&mut session, Vec2::new(-96_000, -250_000));
    carry_dragged(&mut session, Vec2::new(1_000_000_000, -1_000_000_000));
    assert_eq!(session.cards[0].position, Vec2::new(1_000_000_000, -1_000_000_000));
}

#[test]
fn drop_on_a_free_slot_plays_the_card() {
    let mut session = session_with_hand(1);
    hand_layout_system(&mut session);
    session.cards[0].rotation = 80;
    drag(&mut session, Vec2::new(10_000, -240_000), Vec2::new(10_000, SLOT_Y + 10_000));
    let card = &session.cards[0];
    assert_eq!(card.zone, CardZone::PlayerSlot { slot: 2 });
    assert!(session.slots[2].occupied);
    assert!(session.state.player_hand.is_empty());
    assert_eq!(session.state.player_play_area, [None, None, Some(0), None, None]);
    assert_eq!(card.rotation, 0);
    assert_eq!(card.z, 0);
    assert_eq!(card.target_position, Vec2::new(0, SLOT_Y));
    assert_eq!(card.position, Vec2::zero());
    assert_eq!(card.scale, 1_000_000);
    for k in [0, 1, 3, 4, 5, 6, 7, 8, 9] {
        assert!(!session.slots[k].occupied);
    }
    check_consistency(&session);
}

#[test]
fn drop_on_an_occupied_slot_is_rejected() {
    let mut session = session_with_hand(2);
    // With equal depths the later card is on top: it is played first.
    drag(&mut session, DEAL_AT, Vec2::new(0, SLOT_Y));
    assert_eq!(session.cards[1].zone, CardZone::PlayerSlot { slot: 2 });
    hand_layout_system(&mut session);
    let arc = (session.cards[0].target_position, session.cards[0].rotation);
    assert_eq!(arc, (Vec2::new(0, -169_200), 0));

    drag(&mut session, DEAL_AT, Vec2::new(0, SLOT_Y));
    assert_eq!(session.cards[0].zone, CardZone::Hand { index: 0 });
    assert_eq!(session.state.player_hand, vec![0]);
    assert_eq!(session.state.player_play_area, [None, None, Some(1), None, None]);
    assert!(session.slots[2].occupied);
    assert_eq!(session.cards[0].position, Vec2::new(0, SLOT_Y));
    hand_layout_system(&mut session);
    assert_eq!((session.cards[0].target_position, session.cards[0].rotation), arc);
    check_consistency(&session);
}

#[test]
fn drop_beside_the_slots_returns_the_card() {
    let mut session = session_with_hand(3);
    card_animation_system(&mut session, 0);
    drag(&mut session, DEAL_AT, Vec2::new(0, 0));
    assert_eq!(session.cards[0].zone, CardZone::Hand { index: 0 });
    assert_eq!(session.state.player_hand, vec![0, 1, 2]);
    assert!(session.slots.iter().all(|s| !s.occupied));
    check_consistency(&session);
}

#[test]
fn drop_on_a_slot_of_the_opponent_is_rejected() {
    let mut session = session_with_hand(1);
    drag(&mut session, DEAL_AT, Vec2::new(0, -SLOT_Y));
    assert_eq!(session.cards[0].zone, CardZone::Hand { index: 0 });
    assert!(session.slots.iter().all(|s| !s.occupied));
}

#[test]
fn drop_on_a_slot_out_of_range_is_rejected() {
    let mut session = setup_gameplay(None, CardConfig::default());
    session.slots.push(CardSlot {
        zone: CardZone::PlayerSlot { slot: 7 },
        occupied: false,
        position: Vec2::new(0, SLOT_Y),
        size: Vec2::new(192_000, 288_000),
    });
    deck_click_system(&mut session, true, Some(DECK_AT));
    assert_eq!(find_drop_target(&session, Vec2::new(0, SLOT_Y)), None);
    drag(&mut session, DEAL_AT, Vec2::new(0, SLOT_Y));
    assert_eq!(session.cards[0].zone, CardZone::Hand { index: 0 });
    assert_eq!(session.state.player_hand, vec![0]);
    assert!(!session.slots[0].occupied);
}

#[test]
fn drop_takes_the_first_slot_not_the_nearest() {
    let mut session = setup_gameplay(None, CardConfig::default());
    let size = Vec2::new(192_000, 288_000);
    for (slot, x) in [(3, 90_000), (1, 0)] {
        session.slots.push(CardSlot {
            zone: CardZone::PlayerSlot { slot },
            occupied: false,
            position: Vec2::new(x, SLOT_Y),
            size,
        });
    }
    // The centre (0, SLOT_Y) is that of the second slot, and inside the first.
    assert_eq!(find_drop_target(&session, Vec2::new(0, SLOT_Y)), Some(0));
    assert_eq!(find_drop_target(&session, Vec2::new(-96_000, SLOT_Y)), Some(1));
    assert_eq!(find_drop_target(&session, Vec2::new(-96_001, SLOT_Y)), None);
    deck_click_system(&mut session, true, Some(DECK_AT));
    drag(&mut session, DEAL_AT, Vec2::new(0, SLOT_Y));
    assert_eq!(session.cards[0].zone, CardZone::PlayerSlot { slot: 3 });
    assert_eq!(session.state.player_play_area, [None, None, None, Some(0), None]);
    assert_eq!(session.cards[0].target_position, Vec2::new(90_000, SLOT_Y));
    // With the first slot taken the next card goes to the second.
    deck_click_system(&mut session, true, Some(DECK_AT));
    drag(&mut session, DEAL_AT, Vec2::new(0, SLOT_Y));
    assert_eq!(session.cards[1].zone, CardZone::PlayerSlot { slot: 1 });
    check_consistency(&session);
}

#[test]
fn drop_card_leaves_cards_alone_that_are_not_held() {
    let mut session = session_with_hand(1);
    session.cards[0].position = Vec2::new(0, SLOT_Y);
    drop_card(&mut session, 0);
    assert_eq!(session.cards[0].zone, CardZone::Hand { index: 0 });
    assert!(!session.slots[2].occupied);
}

#[test]
fn release_without_a_pointer_drops_where_the_card_is() {
    let mut session = session_with_hand(1);
    card_drag_system(&mut session, true, false, Some(DEAL_AT));
    card_drag_system(&mut session, false, false, Some(Vec2::new(230_400, SLOT_Y)));
    card_drag_system(&mut session, false, true, None);
    assert_eq!(session.cards[0].zone, CardZone::PlayerSlot { slot: 3 });
}

#[test]
fn press_and_release_in_one_tick() {
    let mut session = session_with_hand(1);
    card_drag_system(&mut session, true, true, Some(DEAL_AT));
    assert_eq!(session.cards[0].zone, CardZone::Hand { index: 0 });
    session.cards[0].position = Vec2::new(10, SLOT_Y);
    card_drag_system(&mut session, true, true, Some(Vec2::new(20, SLOT_Y)));
    assert_eq!(session.cards[0].zone, CardZone::PlayerSlot { slot: 2 });
}

#[test]
fn hand_indices_are_not_renumbered() {
    let mut session = session_with_hand(3);
    card_animation_system(&mut session, 0);
    // Card 0 is on top; it is played.
    drag(&mut session, DEAL_AT, Vec2::new(0, SLOT_Y));
    assert_eq!(session.cards[0].zone, CardZone::PlayerSlot { slot: 2 });
    assert_eq!(session.state.player_hand, vec![1, 2]);
    assert_eq!(session.cards[1].zone, CardZone::Hand { index: 1 });
    assert_eq!(session.cards[2].zone, CardZone::Hand { index: 2 });
    card_animation_system(&mut session, 0);
    // Place 1 of 2 lies at depth 10; place 2 is not below the count: kept.
    assert_eq!(session.cards[1].z, 10);
    assert_eq!(session.cards[2].z, 10);
    assert_eq!(session.cards[0].z, 0);
    // The next card is dealt to place 2 as well.
    assert_eq!(deck_click_system(&mut session, true, Some(DECK_AT)), Some(3));
    assert_eq!(session.cards[3].zone, CardZone::Hand { index: 2 });
    check_consistency(&session);
}

#[test]
fn resize_moves_the_deck_and_the_card_size() {
    let mut session = fresh_session();
    let large = WindowDimensions { width: 1_920_000, height: 1_080_000 };
    window_anchor_system(&mut session, large);
    assert_eq!(session.window, large);
    assert_eq!(session.layout.card_size, Vec2::new(288_000, 432_000));
    assert_eq!(session.deck_pile.position, Vec2::new(844_800, -376_800));
    assert_eq!(
        session.deck_pile.anchor,
        AnchorPosition::BottomRight { offset_x: -115_200, offset_y: 163_200 }
    );
    // The offset from the bottom right corner is what it was.
    assert_eq!(session.deck_pile.position.x - 960_000, DECK_AT.x - 640_000);
    assert_eq!(session.deck_pile.position.y + 540_000, DECK_AT.y + 360_000);
    // A card dealt now has the new size.
    let pile = session.deck_pile.position;
    deck_click_system(&mut session, true, Some(pile));
    assert_eq!(session.cards[0].base_size, Vec2::new(288_000, 432_000));
}

#[test]
fn resize_within_the_epsilon_changes_nothing() {
    let mut session = fresh_session();
    window_anchor_system(&mut session, WindowDimensions { width: 1_280_100, height: 719_900 });
    assert_eq!(session.window, WindowDimensions { width: 1_280_000, height: 720_000 });
    assert_eq!(session.deck_pile.position, DECK_AT);
    window_anchor_system(&mut session, WindowDimensions { width: 1_280_101, height: 720_000 });
    assert_eq!(session.window.width, 1_280_101);
    assert_eq!(session.deck_pile.position, Vec2::new(640_050 - 115_200, DECK_AT.y));
}

#[test]
fn tick_runs_the_passes_in_order() {
    let mut session = fresh_session();
    let window = Some(WindowDimensions { width: 1_280_000, height: 720_000 });
    let idle = TickInput { window, pointer: None, pressed: false, released: false, dt_micros: 0 };
    // A click on the deck deals a card; the animation of the same tick sets
    // its depth, and its target is still the origin.
    let dealt = tick(&mut session, TickInput { pointer: Some(DECK_AT), pressed: true, ..idle });
    assert_eq!(dealt, Some(0));
    assert_eq!(session.cards[0].z, 10);
    assert_eq!(session.cards[0].target_position, Vec2::zero());
    assert_eq!(session.cards[0].position, DEAL_AT);
    // The next tick lays the card out and moves it a share of the way.
    let dealt = tick(&mut session, TickInput { dt_micros: 100_000, ..idle });
    assert_eq!(dealt, None);
    assert_eq!(session.cards[0].target_position, Vec2::new(0, -169_200));
    assert_eq!(session.cards[0].position, Vec2::new(0, -250_000 + 40_400));
    // Hover, press, carry and release, one tick each.
    let at = session.cards[0].position;
    tick(&mut session, TickInput { pointer: Some(at), ..idle });
    assert!(session.cards[0].is_hovered);
    assert_eq!(session.cards[0].z, 110);
    tick(&mut session, TickInput { pointer: Some(at), pressed: true, ..idle });
    assert_eq!(session.cards[0].zone, CardZone::Dragging { offset: Vec2::zero(), origin_index: 0 });
    assert_eq!(session.cards[0].z, 1000);
    tick(&mut session, TickInput { pointer: Some(Vec2::new(-230_400, SLOT_Y)), ..idle });
    assert_eq!(session.cards[0].position, Vec2::new(-230_400, SLOT_Y));
    tick(
        &mut session,
        TickInput { pointer: Some(Vec2::new(-230_400, SLOT_Y)), released: true, ..idle },
    );
    assert_eq!(session.cards[0].zone, CardZone::PlayerSlot { slot: 1 });
    assert!(session.slots[1].occupied);
    assert_eq!(session.cards[0].z, 0);
    assert_eq!(session.cards[0].rotation, 0);
    check_consistency(&session);
}

#[test]
fn tick_without_a_window_skips_the_pointer() {
    let mut session = session_with_hand(1);
    let input = TickInput {
        window: None,
        pointer: Some(DEAL_AT),
        pressed: true,
        released: false,
        dt_micros: 0,
    };
    assert_eq!(tick(&mut session, input), None);
    assert!(!session.cards[0].is_hovered);
    assert_eq!(session.cards[0].zone, CardZone::Hand { index: 0 });
    // Layout and animation still ran.
    assert_eq!(session.cards[0].target_position, Vec2::new(0, -169_200));
    assert_eq!(session.cards[0].z, 10);
    // The deck is not clicked without a window either.
    let on_deck = TickInput { pointer: Some(DECK_AT), ..input };
    assert_eq!(tick(&mut session, on_deck), None);
    assert_eq!(session.cards.len(), 1);
}

#[test]
fn tick_follows_a_resize() {
    let mut session = fresh_session();
    let input = TickInput {
        window: Some(WindowDimensions { width: 1_920_000, height: 1_080_000 }),
        pointer: None,
        pressed: false,
        released: false,
        dt_micros: 16_000,
    };
    tick(&mut session, input);
    assert_eq!(session.deck_pile.position, Vec2::new(844_800, -376_800));
    assert_eq!(session.layout.card_height, 432_000);
}

#[test]
fn every_card_stays_in_one_place_through_a_game() {
    let mut session = fresh_session();
    let window = Some(WindowDimensions { width: 1_280_000, height: 720_000 });
    let idle =
        TickInput { window, pointer: None, pressed: false, released: false, dt_micros: 50_000 };
    let slot_xs = [-460_800, -230_400, 0, 230_400, 460_800, 0, 0];
    for round in 0..7 {
        tick(&mut session, TickInput { pointer: Some(DECK_AT), pressed: true, ..idle });
        check_consistency(&session);
        tick(&mut session, TickInput { pointer: Some(DECK_AT), pressed: true, ..idle });
        check_consistency(&session);
        for _ in 0..40 {
            tick(&mut session, idle);
        }
        // Pick up whatever is topmost at the left end of the hand.
        let at = session
            .cards
            .iter()
            .filter(|c| matches!(c.zone, CardZone::Hand { .. }))
            .map(|c| c.position)
            .min_by_key(|p| p.x)
            .unwrap();
        tick(&mut session, TickInput { pointer: Some(at), pressed: true, ..idle });
        check_consistency(&session);
        let to = Vec2::new(slot_xs[round], SLOT_Y);
        tick(&mut session, TickInput { pointer: Some(to), ..idle });
        check_consistency(&session);
        tick(&mut session, TickInput { pointer: Some(to), released: true, ..idle });
        check_consistency(&session);
        let hovered = session
            .cards
            .iter()
            .filter(|c| matches!(c.zone, CardZone::Hand { .. }) && c.is_hovered)
            .count();
        assert!(hovered <= 1);
    }
    // Five slots were filled; the drops of the last two rounds were rejected.
    assert!(session.slots[..5].iter().all(|s| s.occupied));
    assert_eq!(session.state.player_play_area.iter().filter(|s| s.is_some()).count(), 5);
    assert_eq!(session.state.player_hand.len(), 5);
    assert!(session.deck_pile.exhausted);
}
