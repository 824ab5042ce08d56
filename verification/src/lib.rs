//! A hangman-style word-guessing game engine: games, players, matchmaking
//! and the notifications that state changes give rise to.

pub mod client;
pub mod events;
pub mod game;
pub mod game_laws;
pub mod identifiers;
pub mod manager;
pub mod random;
pub mod registry_laws;
pub mod request_data;
pub mod requests;
pub mod text;
pub mod words;
