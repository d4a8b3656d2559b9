//! Page logic of the crossword web client: list projection, filtering and
//! sorting of game rows, the clue-entry state machine, form validation and
//! small text formatting helpers, each stated over plain values.

pub mod admin;
pub mod auth;
pub mod completed;
pub mod game_list;
pub mod game_new;
pub mod games;
pub mod generator;
pub mod home;
pub mod play;
pub mod query;
pub mod route;
pub mod text;
