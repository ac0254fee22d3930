//! The rules of Radish, a wave-defence game: the messages that the game
//! sends to its listeners, the player's purse and city, buildings, spells
//! and spell slots, the wave director, achievements, high scores and the
//! tutorial, and the order in which the music plays. Rendering, audio and the entity world live outside this crate.

pub mod achievements;
pub mod actions;
pub mod buildings;
pub mod controller;
pub mod director;
pub mod game_data;
pub mod game_message;
pub mod game_state;
pub mod health;
pub mod music;
pub mod options;
pub mod spell;
pub mod tutorial;
pub mod wave_menu;
