use vstd::prelude::*;
use vstd::string::*;

verus! {

/// The four suits of a standard deck.
#[derive(Clone, Copy, Debug, PartialEq, Eq, Structural)]
pub enum Suit {
    Spade,
    Heart,
    Diamond,
    Club,
}

/// A playing card. `value` is the rank: 1 is the ace, 11, 12 and 13 are
/// jack, queen and king.
#[derive(Clone, Copy, Debug, PartialEq, Eq, Structural)]
pub struct Card {
    pub suit: Suit,
    pub value: i32,
}

/// An ordered collection of card handles: each handle is the index of a card
/// in the round's card table. The last element is the top of the pile.
pub struct Deck(pub Vec<usize>);

/// The draw pile of a round.
pub struct Dealer {
    pub pile: Deck,
}

/// Raised when a card is drawn from an exhausted pile.
#[derive(Clone, Copy, Debug, PartialEq, Eq, Structural)]
pub struct EmptyPileError;

/// Number of cards in a standard deck.
pub const DECK_SIZE: usize = 52;

impl Deck {
    pub open spec fn view(&self) -> Seq<usize> {
        self.0@
    }
}

/// The suit of the card at position `i` of the canonical deck order:
/// spade, heart, diamond, club, repeated for each rank.
pub open spec fn suit_at(i: int) -> Suit {
    if i % 4 == 0 {
        Suit::Spade
    } else if i % 4 == 1 {
        Suit::Heart
    } else if i % 4 == 2 {
        Suit::Diamond
    } else {
        Suit::Club
    }
}

/// The canonical, unshuffled standard deck: ranks 1 to 13 in ascending order,
/// the four suits within each rank.
pub open spec fn standard_deck() -> Seq<Card> {
    Seq::new(DECK_SIZE as nat, |i: int| Card { suit: suit_at(i), value: (i / 4 + 1) as i32 })
}

/// The handles `0, 1, ..., n - 1`.
pub open spec fn handles(n: nat) -> Seq<usize> {
    Seq::new(n, |i: int| i as usize)
}

/// The suit's name in full.
pub open spec fn suit_name(s: Suit) -> Seq<char> {
    match s {
        Suit::Spade => "Spade"@,
        Suit::Heart => "Heart"@,
        Suit::Diamond => "Diamond"@,
        Suit::Club => "Club"@,
    }
}

/// The rank token shown after the suit initial: the rank in decimal, or the
/// face letter for 11, 12 and 13.
pub open spec fn rank_token(v: i32) -> Seq<char> {
    match v {
        0 => "0"@,
        1 => "1"@,
        2 => "2"@,
        3 => "3"@,
        4 => "4"@,
        5 => "5"@,
        6 => "6"@,
        7 => "7"@,
        8 => "8"@,
        9 => "9"@,
        10 => "10"@,
        11 => "J"@,
        12 => "Q"@,
        _ => "K"@,
    }
}

/// How a card is shown: the suit's initial followed by the rank token, or
/// `Error` for a rank outside 0..=13.
pub open spec fn card_label(c: Card) -> Seq<char> {
    if 0 <= c.value <= 13 {
        seq![suit_name(c.suit)[0]] + rank_token(c.value)
    } else {
        "Error"@
    }
}

impl Suit {
    /// The suit's name, such as `Spade`.
    pub fn name(&self) -> (r: &'static str)
        ensures
            r@ == suit_name(*self),
    {
        match self {
            Suit::Spade => "Spade",
            Suit::Heart => "Heart",
            Suit::Diamond => "Diamond",
            Suit::Club => "Club",
        }
    }

    /// The suit's initial letter.
    pub fn initial(&self) -> (r: &'static str)
        ensures
            r@ == seq![suit_name(*self)[0]],
    {
        proof {
            reveal_strlit("Spade");
            reveal_strlit("Heart");
            reveal_strlit("Diamond");
            reveal_strlit("Club");
            reveal_strlit("S");
            reveal_strlit("H");
            reveal_strlit("D");
            reveal_strlit("C");
        }
        match self {
            Suit::Spade => "S",
            Suit::Heart => "H",
            Suit::Diamond => "D",
            Suit::Club => "C",
        }
    }
}

fn rank_text(v: i32) -> (r: &'static str)
    requires
        0 <= v <= 13,
    ensures
        r@ == rank_token(v),
{
    match v {
        0 => "0",
        1 => "1",
        2 => "2",
        3 => "3",
        4 => "4",
        5 => "5",
        6 => "6",
        7 => "7",
        8 => "8",
        9 => "9",
        10 => "10",
        11 => "J",
        12 => "Q",
        _ => "K",
    }
}

impl Card {
    /// The card as shown to the player, such as `S7`, `HQ` or `D1`.
    pub fn label(&self) -> (r: String)
        ensures
            r@ == card_label(*self),
    {
        if 0 <= self.value && self.value <= 13 {
            let mut r = String::from_str(self.suit.initial());
            r.append(rank_text(self.value));
            r
        } else {
            String::from_str("Error")
        }
    }
}

/// Number of cards of suit `s` in `cards`.
pub open spec fn suit_count(cards: Seq<Card>, s: Suit) -> nat
    decreases cards.len(),
{
    if cards.len() == 0 {
        0
    } else {
        suit_count(cards.drop_last(), s) + if cards.last().suit == s {
            1nat
        } else {
            0nat
        }
    }
}

/// Position of a suit within each rank of the canonical order.
pub open spec fn suit_index(s: Suit) -> int {
    match s {
        Suit::Spade => 0,
        Suit::Heart => 1,
        Suit::Diamond => 2,
        Suit::Club => 3,
    }
}

proof fn lemma_suit_count_prefix(k: int, s: Suit)
    requires
        0 <= k <= 13,
    ensures
        suit_count(standard_deck().take(4 * k), s) == k,
    decreases k,
{
    if k > 0 {
        lemma_suit_count_prefix(k - 1, s);
        let d = standard_deck();
        let n = 4 * k;
        assert(d.take(n).drop_last() =~= d.take(n - 1));
        assert(d.take(n - 1).drop_last() =~= d.take(n - 2));
        assert(d.take(n - 2).drop_last() =~= d.take(n - 3));
        assert(d.take(n - 3).drop_last() =~= d.take(n - 4));
        assert(d[n - 4].suit == Suit::Spade);
        assert(d[n - 3].suit == Suit::Heart);
        assert(d[n - 2].suit == Suit::Diamond);
        assert(d[n - 1].suit == Suit::Club);
        let c4 = suit_count(d.take(n - 4), s);
        let c3 = suit_count(d.take(n - 3), s);
        let c2 = suit_count(d.take(n - 2), s);
        let c1 = suit_count(d.take(n - 1), s);
        assert(c3 == c4 + if s == Suit::Spade { 1nat } else { 0nat });
        assert(c2 == c3 + if s == Suit::Heart { 1nat } else { 0nat });
        assert(c1 == c2 + if s == Suit::Diamond { 1nat } else { 0nat });
        assert(suit_count(d.take(n), s) == c1 + if s == Suit::Club { 1nat } else { 0nat });
    }
}

/// Deck composition: the standard deck holds 52 cards, 13 of each suit; it
/// holds every rank from 1 to 13 in every suit, and no card twice.
pub proof fn lemma_deck_composition()
    ensures
        standard_deck().len() == DECK_SIZE,
        forall|s: Suit| suit_count(standard_deck(), s) == 13,
        forall|i: int| 0 <= i < DECK_SIZE ==> 1 <= #[trigger] standard_deck()[i].value <= 13,
        forall|s: Suit, v: i32|
            1 <= v <= 13 ==> standard_deck().contains(Card { suit: s, value: v }),
        forall|i: int, j: int|
            0 <= i < j < DECK_SIZE ==> standard_deck()[i] != standard_deck()[j],
{
    let d = standard_deck();
    assert forall|s: Suit| suit_count(d, s) == 13 by {
        lemma_suit_count_prefix(13, s);
        assert(d.take(52) =~= d);
    }
    assert forall|s: Suit, v: i32| 1 <= v <= 13 implies d.contains(Card { suit: s, value: v }) by {
        let i = 4 * (v - 1) + suit_index(s);
        assert(d[i] == Card { suit: s, value: v });
    }
    assert forall|i: int, j: int| 0 <= i < j < DECK_SIZE implies d[i] != d[j] by {
        if d[i] == d[j] {
            assert(i % 4 == j % 4);
            assert(i / 4 == j / 4);
        }
    }
}

/// Builds the 52 cards of a standard deck in canonical order: for each rank
/// from 1 to 13, a spade, a heart, a diamond and a club.
pub fn build_standard_deck() -> (r: Vec<Card>)
    ensures
        r@ == standard_deck(),
{
    let mut r: Vec<Card> = Vec::new();
    let mut i: i32 = 1;
    while i < 14
        invariant
            1 <= i <= 14,
            r@.len() == 4 * (i - 1),
            forall|k: int| 0 <= k < r@.len() ==> r@[k] == standard_deck()[k],
        decreases 14 - i,
    {
        r.push(Card { suit: Suit::Spade, value: i });
        r.push(Card { suit: Suit::Heart, value: i });
        r.push(Card { suit: Suit::Diamond, value: i });
        r.push(Card { suit: Suit::Club, value: i });
        i = i + 1;
    }
    assert(r@ =~= standard_deck());
    r
}

#[verifier::external_type_specification]
#[verifier::external_body]
pub struct ExStdRng(rand::rngs::StdRng);

/// Relies on rand's `SeedableRng::seed_from_u64` for `StdRng`: a generator
/// whose stream is fixed by the seed. Nothing is claimed about its output.
#[verifier::external_body]
fn seeded_rng(seed: u64) -> rand::rngs::StdRng {
    <rand::rngs::StdRng as rand::SeedableRng>::seed_from_u64(seed)
}

/// Relies on rand's `SliceRandom::shuffle`, which permutes the slice in place
/// by swapping elements: the result holds the same handles, each as often.
#[verifier::external_body]
fn shuffle_handles(v: &mut Vec<usize>, rng: &mut rand::rngs::StdRng)
    ensures
        final(v)@.to_multiset() == old(v)@.to_multiset(),
{
    rand::seq::SliceRandom::shuffle(v.as_mut_slice(), rng)
}

/// Builds the dealer's pile: the handles of all 52 cards of the standard deck,
/// shuffled by a generator seeded with `seed`.
pub fn create_dealer_deck(seed: u64) -> (r: Dealer)
    ensures
        r.pile@.to_multiset() == handles(DECK_SIZE as nat).to_multiset(),
        r.pile@.len() == DECK_SIZE,
{
    let mut v: Vec<usize> = Vec::new();
    let mut i: usize = 0;
    while i < DECK_SIZE
        invariant
            i <= DECK_SIZE,
            v@ == handles(i as nat),
        decreases DECK_SIZE - i,
    {
        v.push(i);
        i = i + 1;
        assert(v@ =~= handles(i as nat));
    }
    let mut rng = seeded_rng(seed);
    shuffle_handles(&mut v, &mut rng);
    proof {
        v@.to_multiset_ensures();
        handles(DECK_SIZE as nat).to_multiset_ensures();
    }
    Dealer { pile: Deck(v) }
}

/// Moves the top card of `dealer` (its last element) onto `deck`. Fails,
/// changing nothing, when `dealer` is empty.
pub fn draw_card(dealer: &mut Deck, deck: &mut Deck) -> (r: Result<(), EmptyPileError>)
    ensures
        old(dealer)@.len() == 0 <==> r is Err,
        r is Err ==> final(dealer)@ == old(dealer)@ && final(deck)@ == old(deck)@,
        r is Ok ==> final(dealer)@ == old(dealer)@.drop_last()
            && final(deck)@ == old(deck)@.push(old(dealer)@.last()),
{
    match dealer.0.pop() {
        Some(card) => {
            deck.0.push(card);
            Ok(())
        },
        None => Err(EmptyPileError),
    }
}

} // verus!
