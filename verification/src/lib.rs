//! Monte Carlo estimation of how often a commander deck is starved of mana,
//! drowns in it, or plays a normal turn.
//!
//! The crate is layered bottom up. [`color`] and [`deck`] describe cards;
//! [`mana`] is the pool that pays for them; [`game`] holds one game's zones
//! and settles the opening hand; [`land`], [`cast`] and [`turn`] advance a
//! game by one turn; [`sim`] runs many games and [`stats`] adds them up.
//! [`shuffle`] is the only place where randomness enters, and [`first`] and
//! [`text`] are small helpers.
//!
//! Every function states what it returns over a mathematical model of its
//! arguments: a card is a [`deck::CardView`], a game a [`game::GameView`], a
//! turn's record a [`turn::TurnRecord`].

pub mod color;
pub mod text;
pub mod first;
pub mod deck;
pub mod mana;
pub mod shuffle;
pub mod game;
pub mod land;
pub mod cast;
pub mod turn;
pub mod stats;
pub mod sim;
