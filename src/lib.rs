//! A single-round, blackjack-style card game against a passive computer hand:
//! the card and deck model, hand scoring with flexible aces, and the state
//! machine that drives a round.

pub mod card;
pub mod command;
pub mod round;
pub mod score;

pub use card::{build_standard_deck, create_dealer_deck, draw_card, Card, Dealer, Deck, EmptyPileError, Suit};
pub use command::{command_from_token, parse_command, Command};
pub use round::{create_players, GameState, Hand, Outcome, Round, RoundError};
pub use score::score;
