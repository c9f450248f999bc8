use vstd::prelude::*;
use vstd::multiset::Multiset;
use crate::card::{
    build_standard_deck, create_dealer_deck, draw_card, handles, standard_deck, Card, Dealer,
    Deck, DECK_SIZE,
};
use crate::command::Command;
use crate::score::{hand_value, is_busted, score, MAX_HAND};

verus! {

/// The phases of a round. `Setup` is the initial phase and `GameOver` is
/// terminal.
#[derive(Clone, Copy, Debug, PartialEq, Eq, Structural)]
pub enum GameState {
    Setup,
    Input,
    Checking,
    GameOver,
}

/// A player's or the computer's hand, with the score and bust flag last
/// computed from it.
pub struct Hand {
    pub deck: Deck,
    pub score: i32,
    pub busted: bool,
}

/// Errors that the player can recover from by entering another command.
#[derive(Clone, Copy, Debug, PartialEq, Eq, Structural)]
pub enum RoundError {
    /// The input was neither `draw` nor `stand`.
    UnrecognizedCommand,
    /// A card was asked for while the dealer's pile was empty.
    EmptyPile,
}

/// What a finished round reports.
#[derive(Clone, Copy, Debug, PartialEq, Eq, Structural)]
pub struct Outcome {
    pub score: i32,
    pub won: bool,
}

/// One play-through: the table of all cards, indexed by handle, the dealer's
/// pile, the two hands and the current phase.
pub struct Round {
    pub cards: Vec<Card>,
    pub dealer: Dealer,
    pub player: Hand,
    pub computer: Hand,
    pub state: GameState,
}

/// The cards that a list of handles refers to.
pub open spec fn resolve(cards: Seq<Card>, hand: Seq<usize>) -> Seq<Card> {
    hand.map_values(|h: usize| cards[h as int])
}

/// The hand's score and bust flag agree with the cards it holds.
pub open spec fn scored(h: &Hand, cards: Seq<Card>) -> bool {
    &&& h.score == hand_value(resolve(cards, h.deck@))
    &&& h.busted == is_busted(resolve(cards, h.deck@))
}

impl Hand {
    /// An empty hand, with score 0 and not busted.
    pub fn new() -> (r: Hand)
        ensures
            r.deck@.len() == 0,
            r.score == 0,
            !r.busted,
    {
        Hand { deck: Deck(Vec::new()), score: 0, busted: false }
    }
}

/// The player's and the computer's empty hands.
pub fn create_players() -> (r: (Hand, Hand))
    ensures
        r.0.deck@.len() == 0 && r.0.score == 0 && !r.0.busted,
        r.1.deck@.len() == 0 && r.1.score == 0 && !r.1.busted,
{
    (Hand::new(), Hand::new())
}

fn hand_cards(cards: &Vec<Card>, hand: &Deck) -> (r: Vec<Card>)
    requires
        forall|k: int| 0 <= k < hand@.len() ==> hand@[k] < cards@.len(),
    ensures
        r@ == resolve(cards@, hand@),
{
    let mut r: Vec<Card> = Vec::new();
    let mut i: usize = 0;
    while i < hand.0.len()
        invariant
            i <= hand@.len(),
            forall|k: int| 0 <= k < hand@.len() ==> hand@[k] < cards@.len(),
            r@ =~= resolve(cards@, hand@.take(i as int)),
        decreases hand@.len() - i,
    {
        r.push(cards[hand.0[i]]);
        i = i + 1;
        assert(r@ =~= resolve(cards@, hand@.take(i as int)));
    }
    assert(hand@.take(i as int) =~= hand@);
    r
}

fn tally_hand(cards: &Vec<Card>, hand: &mut Hand)
    requires
        forall|k: int| 0 <= k < old(hand).deck@.len() ==> old(hand).deck@[k] < cards@.len(),
        old(hand).deck@.len() <= MAX_HAND,
    ensures
        final(hand).deck@ == old(hand).deck@,
        scored(final(hand), cards@),
{
    let held = hand_cards(cards, &hand.deck);
    let (value, busted) = score(held.as_slice());
    hand.score = value;
    hand.busted = busted;
}

impl Round {
    /// Every card handle, counted as often as it is held.
    pub open spec fn owned(&self) -> Multiset<usize> {
        self.dealer.pile@.to_multiset().add(self.player.deck@.to_multiset()).add(
            self.computer.deck@.to_multiset(),
        )
    }

    /// The round's invariant: the card table is the standard deck, each of
    /// its cards is held exactly once across the pile and the two hands, and
    /// outside `Checking` both hands' scores agree with their cards.
    pub open spec fn wf(&self) -> bool {
        &&& self.cards@ == standard_deck()
        &&& self.owned() == handles(DECK_SIZE as nat).to_multiset()
        &&& self.state != GameState::Checking ==> {
            &&& scored(&self.player, self.cards@)
            &&& scored(&self.computer, self.cards@)
        }
    }

    /// The pile and both hands hold the same handles in `self` and `other`.
    pub open spec fn same_cards(&self, other: &Round) -> bool {
        &&& self.cards@ == other.cards@
        &&& self.dealer.pile@ == other.dealer.pile@
        &&& self.player.deck@ == other.player.deck@
        &&& self.computer.deck@ == other.computer.deck@
    }

    /// The hands' scores and bust flags are the same in `self` and `other`.
    pub open spec fn same_scores(&self, other: &Round) -> bool {
        &&& self.player.score == other.player.score
        &&& self.player.busted == other.player.busted
        &&& self.computer.score == other.computer.score
        &&& self.computer.busted == other.computer.busted
    }

    /// The cards the player holds, in the order drawn.
    pub open spec fn player_hand(&self) -> Seq<Card> {
        resolve(self.cards@, self.player.deck@)
    }

    /// The cards the computer holds.
    pub open spec fn computer_hand(&self) -> Seq<Card> {
        resolve(self.cards@, self.computer.deck@)
    }

    proof fn lemma_held_in_range(&self)
        requires
            self.wf(),
        ensures
            forall|k: int|
                0 <= k < self.player.deck@.len() ==> self.player.deck@[k] < self.cards@.len(),
            forall|k: int|
                0 <= k < self.computer.deck@.len() ==> self.computer.deck@[k] < self.cards@.len(),
            self.player.deck@.len() <= DECK_SIZE,
            self.computer.deck@.len() <= DECK_SIZE,
    {
        broadcast use vstd::multiset::group_multiset_axioms;
        broadcast use vstd::seq_lib::group_to_multiset_ensures;

        let all = handles(DECK_SIZE as nat);
        assert forall|k: int| 0 <= k < self.player.deck@.len() implies self.player.deck@[k]
            < self.cards@.len() by {
            let h = self.player.deck@[k];
            assert(self.player.deck@.contains(h));
            assert(self.owned().count(h) > 0);
            assert(all.contains(h));
        }
        assert forall|k: int| 0 <= k < self.computer.deck@.len() implies self.computer.deck@[k]
            < self.cards@.len() by {
            let h = self.computer.deck@[k];
            assert(self.computer.deck@.contains(h));
            assert(self.owned().count(h) > 0);
            assert(all.contains(h));
        }
        self.lemma_conservation();
    }

    /// Conservation: at every point of a well-formed round, the pile and the
    /// two hands together hold exactly the 52 cards of the deck.
    pub proof fn lemma_conservation(&self)
        requires
            self.wf(),
        ensures
            self.dealer.pile@.len() + self.player.deck@.len() + self.computer.deck@.len()
                == DECK_SIZE,
    {
        broadcast use vstd::multiset::group_multiset_axioms;
        broadcast use vstd::seq_lib::group_to_multiset_ensures;

        let d = self.dealer.pile@.to_multiset();
        let p = self.player.deck@.to_multiset();
        let c = self.computer.deck@.to_multiset();
        assert(d.add(p).len() == d.len() + p.len());
        assert(d.add(p).add(c).len() == d.add(p).len() + c.len());
        assert(handles(DECK_SIZE as nat).to_multiset().len() == DECK_SIZE);
    }

    /// Performs the setup phase: builds the standard deck, shuffles the
    /// dealer's pile with a generator seeded by `seed`, and gives the player
    /// and the computer empty hands. The round then waits for input.
    pub fn setup(seed: u64) -> (r: Round)
        ensures
            r.wf(),
            r.state == GameState::Input,
            r.dealer.pile@.len() == DECK_SIZE,
            r.player.deck@.len() == 0,
            r.computer.deck@.len() == 0,
            r.player.score == 0 && !r.player.busted,
            r.computer.score == 0 && !r.computer.busted,
    {
        let cards = build_standard_deck();
        let dealer = create_dealer_deck(seed);
        let (player, computer) = create_players();
        let r = Round { cards, dealer, player, computer, state: GameState::Input };
        proof {
            broadcast use vstd::multiset::group_multiset_axioms;
            broadcast use vstd::seq_lib::group_to_multiset_ensures;

            assert(r.player.deck@ =~= Seq::<usize>::empty());
            assert(r.computer.deck@ =~= Seq::<usize>::empty());
            assert(r.player_hand() =~= Seq::<Card>::empty());
            assert(r.computer_hand() =~= Seq::<Card>::empty());
            assert(r.owned() =~= handles(DECK_SIZE as nat).to_multiset());
        }
        r
    }

    /// Handles one command in the `Input` phase. `Draw` moves the top card of
    /// the pile to the player's hand and moves to `Checking`, or reports an
    /// empty pile and changes nothing. `Stand` ends the game. Anything else
    /// is reported and changes nothing.
    pub fn input(&mut self, cmd: Command) -> (r: Result<(), RoundError>)
        requires
            old(self).wf(),
            old(self).state == GameState::Input,
        ensures
            final(self).wf(),
            final(self).same_scores(old(self)),
            cmd == Command::Draw && old(self).dealer.pile@.len() > 0 ==> {
                &&& r is Ok
                &&& final(self).state == GameState::Checking
                &&& final(self).cards@ == old(self).cards@
                &&& final(self).dealer.pile@ == old(self).dealer.pile@.drop_last()
                &&& final(self).player.deck@ == old(self).player.deck@.push(
                    old(self).dealer.pile@.last(),
                )
                &&& final(self).computer.deck@ == old(self).computer.deck@
            },
            cmd == Command::Draw && old(self).dealer.pile@.len() == 0 ==> {
                &&& r == Err::<(), RoundError>(RoundError::EmptyPile)
                &&& final(self).state == GameState::Input
                &&& final(self).same_cards(old(self))
            },
            cmd == Command::Stand ==> {
                &&& r is Ok
                &&& final(self).state == GameState::GameOver
                &&& final(self).same_cards(old(self))
            },
            cmd == Command::Unrecognized ==> {
                &&& r == Err::<(), RoundError>(RoundError::UnrecognizedCommand)
                &&& final(self).state == GameState::Input
                &&& final(self).same_cards(old(self))
            },
    {
        match cmd {
            Command::Draw => {
                let ghost before = self.dealer.pile@;
                let ghost hand_before = self.player.deck@;
                match draw_card(&mut self.dealer.pile, &mut self.player.deck) {
                    Ok(()) => {
                        self.state = GameState::Checking;
                        proof {
                            broadcast use vstd::multiset::group_multiset_axioms;
                            broadcast use vstd::seq_lib::group_to_multiset_ensures;

                            let x = before.last();
                            assert(before =~= self.dealer.pile@.push(x));
                            assert(self.owned() =~= old(self).owned());
                        }
                        Ok(())
                    },
                    Err(_) => Err(RoundError::EmptyPile),
                }
            },
            Command::Stand => {
                self.state = GameState::GameOver;
                Ok(())
            },
            Command::Unrecognized => Err(RoundError::UnrecognizedCommand),
        }
    }

    /// Handles the `Checking` phase: recomputes both hands' scores from their
    /// cards, then ends the game if the player is busted and otherwise waits
    /// for input again.
    pub fn check(&mut self)
        requires
            old(self).wf(),
            old(self).state == GameState::Checking,
        ensures
            final(self).wf(),
            final(self).same_cards(old(self)),
            final(self).player.score == hand_value(old(self).player_hand()),
            final(self).player.busted == is_busted(old(self).player_hand()),
            final(self).computer.score == hand_value(old(self).computer_hand()),
            final(self).computer.busted == is_busted(old(self).computer_hand()),
            final(self).state == if final(self).player.busted {
                GameState::GameOver
            } else {
                GameState::Input
            },
    {
        proof {
            self.lemma_held_in_range();
        }
        tally_hand(&self.cards, &mut self.player);
        tally_hand(&self.cards, &mut self.computer);
        if self.player.busted {
            self.state = GameState::GameOver;
        } else {
            self.state = GameState::Input;
        }
    }

    /// The cards in the player's hand, for display.
    pub fn player_cards(&self) -> (r: Vec<Card>)
        requires
            self.wf(),
        ensures
            r@ == self.player_hand(),
    {
        proof {
            self.lemma_held_in_range();
        }
        hand_cards(&self.cards, &self.player.deck)
    }

    /// The final report: the player's score, and a win unless busted.
    pub fn outcome(&self) -> (r: Outcome)
        ensures
            r.score == self.player.score,
            r.won == !self.player.busted,
    {
        Outcome { score: self.player.score, won: !self.player.busted }
    }
}

} // verus!
