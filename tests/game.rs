use blackjack::card::DECK_SIZE;
use blackjack::{
    build_standard_deck, command_from_token, create_dealer_deck, create_players, draw_card,
    parse_command, score, Card, Command, Dealer, Deck, EmptyPileError, GameState, Hand, Round,
    RoundError, Suit,
};

fn card(suit: Suit, value: i32) -> Card {
    Card { suit, value }
}

/// Handle of a card in the standard deck's canonical order.
fn handle_of(suit: Suit, value: i32) -> usize {
    let s = match suit {
        Suit::Spade => 0,
        Suit::Heart => 1,
        Suit::Diamond => 2,
        Suit::Club => 3,
    };
    (value as usize - 1) * 4 + s
}

fn pile_total(r: &Round) -> usize {
    r.dealer.pile.0.len() + r.player.deck.0.len() + r.computer.deck.0.len()
}

#[test]
fn ace_counts_high_when_it_fits() {
    assert_eq!(score(&[card(Suit::Spade, 1), card(Suit::Heart, 9)]), (20, false));
}

#[test]
fn second_ace_drops_to_one() {
    let hand = [card(Suit::Spade, 1), card(Suit::Heart, 1), card(Suit::Club, 9)];
    assert_eq!(score(&hand), (21, false));
}

#[test]
fn face_cards_bust() {
    let hand = [card(Suit::Spade, 13), card(Suit::Heart, 12), card(Suit::Club, 5)];
    assert_eq!(score(&hand), (25, true));
}

#[test]
fn empty_hand_scores_zero() {
    assert_eq!(score(&[]), (0, false));
}

#[test]
fn four_aces_score_fourteen() {
    let hand = [
        card(Suit::Spade, 1),
        card(Suit::Heart, 1),
        card(Suit::Diamond, 1),
        card(Suit::Club, 1),
    ];
    assert_eq!(score(&hand), (14, false));
}

#[test]
fn ace_after_face_card_makes_twenty_one() {
    assert_eq!(score(&[card(Suit::Diamond, 11), card(Suit::Club, 1)]), (21, false));
    assert_eq!(score(&[card(Suit::Club, 1), card(Suit::Diamond, 11)]), (21, false));
}

#[test]
fn exactly_twenty_one_is_not_bust_and_twenty_two_is() {
    let hand = [card(Suit::Spade, 10), card(Suit::Heart, 9), card(Suit::Club, 2)];
    assert_eq!(score(&hand), (21, false));
    let hand = [card(Suit::Spade, 10), card(Suit::Heart, 10), card(Suit::Club, 2)];
    assert_eq!(score(&hand), (22, true));
}

#[test]
fn scoring_twice_gives_the_same_result() {
    let hand = vec![card(Suit::Spade, 1), card(Suit::Heart, 7), card(Suit::Club, 12)];
    let first = score(&hand);
    let second = score(&hand);
    assert_eq!(first, second);
    assert_eq!(first, (18, false));
}

#[test]
fn standard_deck_has_every_card_once() {
    let deck = build_standard_deck();
    assert_eq!(deck.len(), 52);
    for suit in [Suit::Spade, Suit::Heart, Suit::Diamond, Suit::Club] {
        assert_eq!(deck.iter().filter(|c| c.suit == suit).count(), 13);
        for v in 1..14 {
            assert_eq!(deck.iter().filter(|c| c.suit == suit && c.value == v).count(), 1);
        }
    }
    assert_eq!(deck[0], card(Suit::Spade, 1));
    assert_eq!(deck[51], card(Suit::Club, 13));
}

#[test]
fn dealer_pile_is_a_shuffled_set_of_all_handles() {
    let dealer = create_dealer_deck(42);
    let mut handles = dealer.pile.0.clone();
    assert_eq!(handles.len(), DECK_SIZE);
    assert_ne!(handles, (0..DECK_SIZE).collect::<Vec<usize>>());
    handles.sort();
    assert_eq!(handles, (0..DECK_SIZE).collect::<Vec<usize>>());
}

#[test]
fn same_seed_gives_same_pile() {
    assert_eq!(create_dealer_deck(7).pile.0, create_dealer_deck(7).pile.0);
}

#[test]
fn draw_moves_top_card() {
    let mut dealer = Deck(vec![3, 8, 5]);
    let mut hand = Deck(vec![1]);
    assert_eq!(draw_card(&mut dealer, &mut hand), Ok(()));
    assert_eq!(dealer.0, vec![3, 8]);
    assert_eq!(hand.0, vec![1, 5]);
}

#[test]
fn draw_from_empty_pile_fails() {
    let mut dealer = Deck(Vec::new());
    let mut hand = Deck(vec![4]);
    assert_eq!(draw_card(&mut dealer, &mut hand), Err(EmptyPileError));
    assert!(dealer.0.is_empty());
    assert_eq!(hand.0, vec![4]);
}

#[test]
fn commands_are_trimmed_and_case_sensitive() {
    assert_eq!(parse_command("draw"), Command::Draw);
    assert_eq!(parse_command("  draw\n"), Command::Draw);
    assert_eq!(parse_command("stand\r\n"), Command::Stand);
    assert_eq!(parse_command("Draw"), Command::Unrecognized);
    assert_eq!(parse_command("dr aw"), Command::Unrecognized);
    assert_eq!(parse_command(""), Command::Unrecognized);
    assert_eq!(command_from_token("stand"), Command::Stand);
    assert_eq!(command_from_token(" stand"), Command::Unrecognized);
}

#[test]
fn card_labels() {
    assert_eq!(card(Suit::Spade, 1).label(), "S1");
    assert_eq!(card(Suit::Heart, 10).label(), "H10");
    assert_eq!(card(Suit::Diamond, 11).label(), "DJ");
    assert_eq!(card(Suit::Club, 12).label(), "CQ");
    assert_eq!(card(Suit::Heart, 13).label(), "HK");
    assert_eq!(card(Suit::Club, 14).label(), "Error");
    assert_eq!(Suit::Diamond.name(), "Diamond");
}

#[test]
fn players_start_empty() {
    let (player, computer) = create_players();
    assert!(player.deck.0.is_empty() && computer.deck.0.is_empty());
    assert_eq!((player.score, player.busted), (0, false));
    assert_eq!((computer.score, computer.busted), (0, false));
}

#[test]
fn setup_deals_nothing_and_waits_for_input() {
    let r = Round::setup(1);
    assert_eq!(r.state, GameState::Input);
    assert_eq!(r.dealer.pile.0.len(), 52);
    assert_eq!(r.cards, build_standard_deck());
    assert!(r.player_cards().is_empty());
}

#[test]
fn cards_are_conserved_across_draws() {
    let mut r = Round::setup(3);
    assert_eq!(pile_total(&r), 52);
    for _ in 0..6 {
        if r.state != GameState::Input {
            break;
        }
        r.input(Command::Draw).unwrap();
        assert_eq!(pile_total(&r), 52);
        r.check();
        assert_eq!(pile_total(&r), 52);
    }
    let mut all: Vec<usize> = r.dealer.pile.0.clone();
    all.extend(r.player.deck.0.iter());
    all.extend(r.computer.deck.0.iter());
    all.sort();
    assert_eq!(all, (0..52).collect::<Vec<usize>>());
}

#[test]
fn draw_moves_to_checking() {
    let mut r = Round::setup(5);
    let top = *r.dealer.pile.0.last().unwrap();
    assert_eq!(r.input(Command::Draw), Ok(()));
    assert_eq!(r.state, GameState::Checking);
    assert_eq!(r.player.deck.0, vec![top]);
    assert_eq!(r.dealer.pile.0.len(), 51);
    r.check();
    let (value, busted) = score(&r.player_cards());
    assert_eq!(r.player.score, value);
    assert_eq!(r.player.busted, busted);
    assert_eq!(r.state, GameState::Input);
}

#[test]
fn stand_ends_the_game() {
    let mut r = Round::setup(5);
    assert_eq!(r.input(Command::Stand), Ok(()));
    assert_eq!(r.state, GameState::GameOver);
    assert_eq!(r.dealer.pile.0.len(), 52);
}

#[test]
fn unrecognized_input_changes_nothing() {
    let mut r = Round::setup(9);
    let pile = r.dealer.pile.0.clone();
    assert_eq!(r.input(parse_command("hit")), Err(RoundError::UnrecognizedCommand));
    assert_eq!(r.state, GameState::Input);
    assert_eq!(r.dealer.pile.0, pile);
    assert!(r.player.deck.0.is_empty());
}

#[test]
fn draw_from_exhausted_pile_is_reported() {
    let mut r = Round {
        cards: build_standard_deck(),
        dealer: Dealer { pile: Deck(Vec::new()) },
        player: Hand { deck: Deck((0..52).collect()), score: 0, busted: false },
        computer: Hand::new(),
        state: GameState::Input,
    };
    assert_eq!(r.input(Command::Draw), Err(RoundError::EmptyPile));
    assert_eq!(r.state, GameState::Input);
    assert_eq!(r.player.deck.0.len(), 52);
}

#[test]
fn standing_at_once_wins_with_zero() {
    let mut r = Round::setup(11);
    assert_eq!(r.input(parse_command("stand\n")), Ok(()));
    assert_eq!(r.state, GameState::GameOver);
    let outcome = r.outcome();
    assert_eq!(outcome.score, 0);
    assert!(outcome.won);
}

#[test]
fn busted_hand_loses() {
    let held = vec![
        handle_of(Suit::Spade, 13),
        handle_of(Suit::Heart, 12),
        handle_of(Suit::Diamond, 13),
    ];
    let pile: Vec<usize> = (0..52).filter(|h| !held.contains(h)).collect();
    let mut r = Round {
        cards: build_standard_deck(),
        dealer: Dealer { pile: Deck(pile) },
        player: Hand { deck: Deck(held), score: 0, busted: false },
        computer: Hand::new(),
        state: GameState::Checking,
    };
    r.check();
    assert_eq!(r.player.score, 30);
    assert!(r.player.busted);
    assert_eq!(r.state, GameState::GameOver);
    let outcome = r.outcome();
    assert_eq!(outcome.score, 30);
    assert!(!outcome.won);
}

#[test]
fn computer_hand_is_scored_too() {
    let computer = vec![handle_of(Suit::Club, 1), handle_of(Suit::Club, 6)];
    let pile: Vec<usize> = (0..52).filter(|h| !computer.contains(h)).collect();
    let mut r = Round {
        cards: build_standard_deck(),
        dealer: Dealer { pile: Deck(pile) },
        player: Hand::new(),
        computer: Hand { deck: Deck(computer), score: 0, busted: false },
        state: GameState::Checking,
    };
    r.check();
    assert_eq!((r.computer.score, r.computer.busted), (17, false));
    assert_eq!(r.state, GameState::Input);
}
