//! The canonical game state: the deck, the hand and the play slots.

use vstd::prelude::*;
use vstd::string::StringExecFns;
use crate::card::{CardData, CardHandle, SLOTS_PER_SIDE};

verus! {

/// Number of cards in a fresh deck.
pub const DECK_SIZE: u32 = 10;

/// The character of a decimal digit.
pub open spec fn digit_char(d: nat) -> char {
    if d == 0 {
        '0'
    } else if d == 1 {
        '1'
    } else if d == 2 {
        '2'
    } else if d == 3 {
        '3'
    } else if d == 4 {
        '4'
    } else if d == 5 {
        '5'
    } else if d == 6 {
        '6'
    } else if d == 7 {
        '7'
    } else if d == 8 {
        '8'
    } else {
        '9'
    }
}

/// A number written in decimal digits, without leading zeros.
pub open spec fn decimal(n: nat) -> Seq<char>
    decreases n,
{
    if n < 10 {
        seq![digit_char(n)]
    } else {
        decimal(n / 10).push(digit_char(n % 10))
    }
}

/// The name of the card with a given number: the word `Card`, a space and
/// the number.
pub open spec fn spec_card_label(number: nat) -> Seq<char> {
    seq!['C', 'a', 'r', 'd', ' '] + decimal(number)
}

/// The decimal form of a number is never empty, and has at least two digits
/// from ten on.
pub proof fn lemma_decimal_len(n: nat)
    ensures
        decimal(n).len() >= 1,
        n >= 10 ==> decimal(n).len() >= 2,
    decreases n,
{
    if n >= 10 {
        lemma_decimal_len(n / 10);
    }
}

/// Different numbers are written differently.
pub proof fn lemma_decimal_injective(a: nat, b: nat)
    requires
        decimal(a) == decimal(b),
    ensures
        a == b,
    decreases a,
{
    lemma_decimal_len(a);
    lemma_decimal_len(b);
    if a < 10 && b < 10 {
        assert(decimal(a)[0] == digit_char(a));
    } else if a >= 10 && b >= 10 {
        assert(decimal(a).last() == digit_char(a % 10));
        assert(decimal(a).drop_last() =~= decimal(a / 10));
        assert(decimal(b).drop_last() =~= decimal(b / 10));
        lemma_decimal_injective(a / 10, b / 10);
    }
}

/// Different numbers give different card names.
pub proof fn lemma_card_labels_distinct(a: nat, b: nat)
    requires
        a != b,
    ensures
        spec_card_label(a) != spec_card_label(b),
{
    if spec_card_label(a) == spec_card_label(b) {
        assert(spec_card_label(a).subrange(5, spec_card_label(a).len() as int) =~= decimal(a));
        assert(spec_card_label(b).subrange(5, spec_card_label(b).len() as int) =~= decimal(b));
        lemma_decimal_injective(a, b);
    }
}

fn digit_str(d: u32) -> (s: &'static str)
    requires
        d < 10,
    ensures
        s@ == seq![digit_char(d as nat)],
{
    proof {
        reveal_strlit("0");
        reveal_strlit("1");
        reveal_strlit("2");
        reveal_strlit("3");
        reveal_strlit("4");
        reveal_strlit("5");
        reveal_strlit("6");
        reveal_strlit("7");
        reveal_strlit("8");
        reveal_strlit("9");
    }
    let s: &'static str = if d == 0 {
        "0"
    } else if d == 1 {
        "1"
    } else if d == 2 {
        "2"
    } else if d == 3 {
        "3"
    } else if d == 4 {
        "4"
    } else if d == 5 {
        "5"
    } else if d == 6 {
        "6"
    } else if d == 7 {
        "7"
    } else if d == 8 {
        "8"
    } else {
        "9"
    };
    s
}

fn append_decimal(text: &mut String, n: u32)
    ensures
        final(text)@ == old(text)@ + decimal(n as nat),
    decreases n,
{
    if n >= 10 {
        append_decimal(text, n / 10);
    }
    text.append(digit_str(n % 10));
}

/// The name of the card with the given number.
pub fn card_label(number: u32) -> (label: String)
    ensures
        label@ == spec_card_label(number as nat),
{
    proof {
        reveal_strlit("Card ");
    }
    let mut label: String = String::from_str("Card ");
    append_decimal(&mut label, number);
    label
}

/// A hand without a given handle: what is left, in the same order.
pub open spec fn without(hand: Seq<CardHandle>, handle: CardHandle) -> Seq<CardHandle>
    decreases hand.len(),
{
    if hand.len() == 0 {
        hand
    } else if hand.last() == handle {
        without(hand.drop_last(), handle)
    } else {
        without(hand.drop_last(), handle).push(hand.last())
    }
}

/// A sequence with one more element holds what it held before and that
/// element.
pub proof fn lemma_push_contains(s: Seq<CardHandle>, x: CardHandle, h: CardHandle)
    ensures
        s.push(x).contains(h) <==> s.contains(h) || x == h,
{
    let t = s.push(x);
    if s.contains(h) {
        let k = choose|k: int| 0 <= k < s.len() && s[k] == h;
        assert(t[k] == h);
    }
    if x == h {
        assert(t[s.len() as int] == h);
    }
    if t.contains(h) {
        let k = choose|k: int| 0 <= k < t.len() && t[k] == h;
        if k < s.len() {
            assert(s[k] == h);
        }
    }
}

/// `without` keeps exactly the other handles, and keeps them apart.
pub proof fn lemma_without(hand: Seq<CardHandle>, handle: CardHandle)
    ensures
        without(hand, handle).len() <= hand.len(),
        !without(hand, handle).contains(handle),
        forall|h: CardHandle|
            h != handle ==> (#[trigger] without(hand, handle).contains(h) <==> hand.contains(h)),
        hand.no_duplicates() ==> without(hand, handle).no_duplicates(),
        !hand.contains(handle) ==> without(hand, handle) == hand,
        hand.no_duplicates() && hand.contains(handle) ==> without(hand, handle).len() + 1
            == hand.len(),
    decreases hand.len(),
{
    if hand.len() > 0 {
        let rest = hand.drop_last();
        let last = hand.last();
        let kept = without(rest, handle);
        let out = without(hand, handle);
        lemma_without(rest, handle);
        assert(hand =~= rest.push(last));
        lemma_push_contains(rest, last, handle);
        lemma_push_contains(kept, last, handle);
        assert forall|h: CardHandle| h != handle implies (#[trigger] out.contains(h)
            <==> hand.contains(h)) by {
            lemma_push_contains(rest, last, h);
            lemma_push_contains(kept, last, h);
            assert(kept.contains(h) <==> rest.contains(h));
        }
        if hand.no_duplicates() {
            assert(rest.no_duplicates());
            assert(!rest.contains(last)) by {
                if rest.contains(last) {
                    let m = choose|m: int| 0 <= m < rest.len() && rest[m] == last;
                    assert(hand[m] == hand[hand.len() - 1]);
                }
            }
            if last != handle {
                assert(kept.contains(last) <==> rest.contains(last));
                assert(out =~= kept.push(last));
                assert(out.no_duplicates());
            }
        }
        if !hand.contains(handle) {
            assert(out =~= hand);
        }
    }
}

/// The mathematical content of a [`GameplayState`].
#[verifier::ext_equal]
pub struct GameplayStateView {
    pub deck: Seq<CardData>,
    pub player_hand: Seq<CardHandle>,
    pub player_play_area: Seq<Option<CardHandle>>,
    pub opponent_play_area: Seq<Option<CardHandle>>,
    pub opponent_hand: Seq<CardHandle>,
}

impl GameplayStateView {
    /// A slot of the player lists `handle`.
    pub open spec fn in_player_slot(self, handle: CardHandle) -> bool {
        exists|s: int| 0 <= s < SLOTS_PER_SIDE && self.player_play_area[s] == Some(handle)
    }

    /// A slot of the opponent lists `handle`.
    pub open spec fn in_opponent_slot(self, handle: CardHandle) -> bool {
        exists|s: int| 0 <= s < SLOTS_PER_SIDE && self.opponent_play_area[s] == Some(handle)
    }

    /// Some hand or slot lists `handle`.
    pub open spec fn lists(self, handle: CardHandle) -> bool {
        ||| self.player_hand.contains(handle)
        ||| self.opponent_hand.contains(handle)
        ||| self.in_player_slot(handle)
        ||| self.in_opponent_slot(handle)
    }

    /// No slot lists `handle`.
    pub open spec fn in_no_slot(self, handle: CardHandle) -> bool {
        &&& forall|s: int|
            0 <= s < SLOTS_PER_SIDE ==> #[trigger] self.player_play_area[s] != Some(handle)
        &&& forall|s: int|
            0 <= s < SLOTS_PER_SIDE ==> #[trigger] self.opponent_play_area[s] != Some(handle)
    }

    /// A handle is listed at most once: there are five slots on each side,
    /// no hand lists a handle twice, no two slots of a side list the same
    /// handle, and no handle is listed in two of the hands and the sides.
    pub open spec fn wf(self) -> bool {
        &&& self.player_play_area.len() == SLOTS_PER_SIDE
        &&& self.opponent_play_area.len() == SLOTS_PER_SIDE
        &&& self.player_hand.no_duplicates()
        &&& self.opponent_hand.no_duplicates()
        &&& forall|k: int|
            0 <= k < self.player_hand.len() ==> {
                &&& !self.opponent_hand.contains(#[trigger] self.player_hand[k])
                &&& self.in_no_slot(self.player_hand[k])
            }
        &&& forall|k: int|
            0 <= k < self.opponent_hand.len() ==> self.in_no_slot(#[trigger] self.opponent_hand[k])
        &&& forall|s: int, t: int|
            0 <= s < SLOTS_PER_SIDE && 0 <= t < SLOTS_PER_SIDE && (
            #[trigger] self.player_play_area[s]) is Some && self.player_play_area[s] == (
            #[trigger] self.player_play_area[t]) ==> s == t
        &&& forall|s: int, t: int|
            0 <= s < SLOTS_PER_SIDE && 0 <= t < SLOTS_PER_SIDE && (
            #[trigger] self.opponent_play_area[s]) is Some && self.opponent_play_area[s] == (
            #[trigger] self.opponent_play_area[t]) ==> s == t
        &&& forall|s: int, t: int|
            0 <= s < SLOTS_PER_SIDE && 0 <= t < SLOTS_PER_SIDE && (
            #[trigger] self.player_play_area[s]) is Some ==> self.player_play_area[s] != (
            #[trigger] self.opponent_play_area[t])
    }

    /// The player's slot `slot` exists and holds a card.
    pub open spec fn slot_occupied(self, slot: int) -> bool {
        0 <= slot < SLOTS_PER_SIDE && self.player_play_area[slot] is Some
    }

    /// The state after `handle` has left the hand.
    pub open spec fn remove_from_hand(self, handle: CardHandle) -> GameplayStateView {
        GameplayStateView { player_hand: without(self.player_hand, handle), ..self }
    }

    /// A card can be played to `slot`: the slot exists and is free.
    pub open spec fn can_play_to(self, slot: int) -> bool {
        0 <= slot < SLOTS_PER_SIDE && self.player_play_area[slot] is None
    }

    /// The state after `handle` went from the hand to the player's slot
    /// `slot`.
    pub open spec fn play_card_to_slot(self, handle: CardHandle, slot: int) -> GameplayStateView {
        GameplayStateView {
            player_hand: without(self.player_hand, handle),
            player_play_area: self.player_play_area.update(slot, Some(handle)),
            ..self
        }
    }
}

/// Taking a handle out of the hand lists every handle at most once, as
/// before.
pub proof fn lemma_remove_keeps_wf(state: GameplayStateView, handle: CardHandle)
    requires
        state.wf(),
    ensures
        state.remove_from_hand(handle).wf(),
        !state.remove_from_hand(handle).player_hand.contains(handle),
{
    let after = state.remove_from_hand(handle);
    lemma_without(state.player_hand, handle);
    assert forall|k: int| 0 <= k < after.player_hand.len() implies {
        &&& !after.opponent_hand.contains(#[trigger] after.player_hand[k])
        &&& after.in_no_slot(after.player_hand[k])
    } by {
        assert(after.player_hand.contains(after.player_hand[k]));
    }
}

/// Putting a handle that is listed nowhere at the end of the hand lists
/// every handle at most once, as before.
pub proof fn lemma_add_keeps_wf(state: GameplayStateView, handle: CardHandle)
    requires
        state.wf(),
        !state.player_hand.contains(handle),
        !state.opponent_hand.contains(handle),
        state.in_no_slot(handle),
    ensures
        (GameplayStateView { player_hand: state.player_hand.push(handle), ..state }).wf(),
{
}

/// Moving a handle that no slot lists from the hand to a free slot of the
/// player lists every handle at most once, as before.
pub proof fn lemma_play_keeps_wf(state: GameplayStateView, handle: CardHandle, slot: int)
    requires
        state.wf(),
        state.can_play_to(slot),
        !state.opponent_hand.contains(handle),
        state.in_no_slot(handle),
    ensures
        state.play_card_to_slot(handle, slot).wf(),
{
    let after = state.play_card_to_slot(handle, slot);
    lemma_without(state.player_hand, handle);
    assert forall|k: int| 0 <= k < after.player_hand.len() implies {
        &&& !after.opponent_hand.contains(#[trigger] after.player_hand[k])
        &&& after.in_no_slot(after.player_hand[k])
    } by {
        assert(after.player_hand.contains(after.player_hand[k]));
    }
}

/// The single source of truth for where the cards are: the deck, whose last
/// card is its top; the hand, from left to right; and five play slots on
/// each side.
#[derive(Debug)]
pub struct GameplayState {
    pub deck: Vec<CardData>,
    pub player_hand: Vec<CardHandle>,
    pub player_play_area: [Option<CardHandle>; 5],
    pub opponent_play_area: [Option<CardHandle>; 5],
    pub opponent_hand: Vec<CardHandle>,
}

impl View for GameplayState {
    type V = GameplayStateView;

    open spec fn view(&self) -> GameplayStateView {
        GameplayStateView {
            deck: self.deck@,
            player_hand: self.player_hand@,
            player_play_area: self.player_play_area@,
            opponent_play_area: self.opponent_play_area@,
            opponent_hand: self.opponent_hand@,
        }
    }
}

impl Default for GameplayState {
    /// A state with no cards at all.
    fn default() -> (state: Self)
        ensures
            state@.wf(),
            state@.deck.len() == 0,
            state@.player_hand.len() == 0,
            state@.opponent_hand.len() == 0,
            forall|s: int| 0 <= s < SLOTS_PER_SIDE ==> state@.player_play_area[s] is None,
            forall|s: int| 0 <= s < SLOTS_PER_SIDE ==> state@.opponent_play_area[s] is None,
    {
        GameplayState {
            deck: Vec::new(),
            player_hand: Vec::new(),
            player_play_area: [None, None, None, None, None],
            opponent_play_area: [None, None, None, None, None],
            opponent_hand: Vec::new(),
        }
    }
}

impl GameplayState {
    /// A fresh state: a deck of ten cards named `Card 1` to `Card 10`, with
    /// `Card 10` on top, an empty hand and empty slots.
    pub fn new() -> (state: Self)
        ensures
            state@.wf(),
            state@.deck.len() == DECK_SIZE,
            forall|i: int|
                0 <= i < DECK_SIZE ==> (#[trigger] state@.deck[i]).name@ == spec_card_label(
                    (i + 1) as nat,
                ),
            forall|i: int, j: int|
                0 <= i < DECK_SIZE && 0 <= j < DECK_SIZE && i != j ==> (#[trigger] state@.deck[i]).name@
                    != (#[trigger] state@.deck[j]).name@,
            state@.player_hand.len() == 0,
            state@.opponent_hand.len() == 0,
            forall|s: int| 0 <= s < SLOTS_PER_SIDE ==> state@.player_play_area[s] is None,
            forall|s: int| 0 <= s < SLOTS_PER_SIDE ==> state@.opponent_play_area[s] is None,
    {
        let mut deck: Vec<CardData> = Vec::new();
        let mut i: u32 = 1;
        while i <= DECK_SIZE
            invariant
                1 <= i <= DECK_SIZE + 1,
                deck.len() == i - 1,
                forall|k: int|
                    0 <= k < i - 1 ==> (#[trigger] deck[k]).name@ == spec_card_label((k + 1) as nat),
            decreases DECK_SIZE + 1 - i,
        {
            deck.push(CardData::new(card_label(i)));
            i = i + 1;
        }
        proof {
            assert forall|a: int, b: int|
                0 <= a < DECK_SIZE && 0 <= b < DECK_SIZE && a != b implies (#[trigger] deck[a]).name@
                != (#[trigger] deck[b]).name@ by {
                lemma_card_labels_distinct((a + 1) as nat, (b + 1) as nat);
            }
        }
        GameplayState {
            deck,
            player_hand: Vec::new(),
            player_play_area: [None, None, None, None, None],
            opponent_play_area: [None, None, None, None, None],
            opponent_hand: Vec::new(),
        }
    }

    /// Takes the top card off the deck, if there is one.
    pub fn draw_card(&mut self) -> (drawn: Option<CardData>)
        ensures
            old(self)@.wf() ==> final(self)@.wf(),
            old(self)@.deck.len() == 0 ==> drawn is None && final(self)@ == old(self)@,
            old(self)@.deck.len() > 0 ==> drawn == Some(old(self)@.deck.last()) && final(self)@ == (
            GameplayStateView { deck: old(self)@.deck.drop_last(), ..old(self)@ }),
    {
        self.deck.pop()
    }

    /// Puts a card at the right end of the hand. Where the card was listed
    /// nowhere before, every card is listed at most once afterwards.
    pub fn add_to_hand(&mut self, handle: CardHandle)
        ensures
            final(self)@ == (GameplayStateView {
                player_hand: old(self)@.player_hand.push(handle),
                ..old(self)@
            }),
            old(self)@.wf() && !old(self)@.lists(handle) ==> final(self)@.wf(),
    {
        proof {
            if self@.wf() && !self@.lists(handle) {
                lemma_add_keeps_wf(self@, handle);
            }
        }
        self.player_hand.push(handle);
    }

    /// Takes a card out of the hand; the others keep their order. A card
    /// that is not in the hand leaves the hand as it is.
    pub fn remove_from_hand(&mut self, handle: CardHandle)
        ensures
            final(self)@ == old(self)@.remove_from_hand(handle),
            !final(self)@.player_hand.contains(handle),
            old(self)@.wf() ==> final(self)@.wf(),
    {
        proof {
            lemma_without(self@.player_hand, handle);
            if self@.wf() {
                lemma_remove_keeps_wf(self@, handle);
            }
        }
        let mut kept: Vec<CardHandle> = Vec::new();
        let mut i: usize = 0;
        while i < self.player_hand.len()
            invariant
                *self == *old(self),
                0 <= i <= self.player_hand.len(),
                kept@ == without(self.player_hand@.take(i as int), handle),
            decreases self.player_hand.len() - i,
        {
            let h: CardHandle = self.player_hand[i];
            proof {
                assert(self.player_hand@.take(i + 1).drop_last() =~= self.player_hand@.take(
                    i as int,
                ));
            }
            if h != handle {
                kept.push(h);
            }
            i = i + 1;
        }
        proof {
            assert(self.player_hand@.take(i as int) =~= self.player_hand@);
        }
        self.player_hand = kept;
    }

    /// Moves a card from the hand to a slot of the player, if that slot
    /// exists and is free, and tells whether it did. Where no slot and not
    /// the opponent's hand listed the card before, every card is listed at
    /// most once afterwards.
    pub fn play_card_to_slot(&mut self, handle: CardHandle, slot: usize) -> (played: bool)
        ensures
            played == old(self)@.can_play_to(slot as int),
            played ==> final(self)@ == old(self)@.play_card_to_slot(handle, slot as int),
            !played ==> final(self)@ == old(self)@,
            old(self)@.wf() && old(self)@.in_no_slot(handle) && !old(
                self,
            )@.opponent_hand.contains(handle) ==> final(self)@.wf(),
    {
        proof {
            if self@.wf() && self@.can_play_to(slot as int) && self@.in_no_slot(handle)
                && !self@.opponent_hand.contains(handle) {
                lemma_play_keeps_wf(self@, handle, slot as int);
            }
        }
        if slot < 5 && self.player_play_area[slot].is_none() {
            self.remove_from_hand(handle);
            self.player_play_area[slot] = Some(handle);
            true
        } else {
            false
        }
    }

    /// Tells whether a slot of the player exists and holds a card.
    pub fn is_slot_occupied(&self, slot: usize) -> (occupied: bool)
        ensures
            occupied == self@.slot_occupied(slot as int),
    {
        slot < 5 && self.player_play_area[slot].is_some()
    }
}

} // verus!
