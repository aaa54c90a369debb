//! Core rules of the xMahjong solitaire game: level progression, scoring,
//! player selection, achievements and persistent progress records.

pub mod levels;
pub mod text;
pub mod game_state;
pub mod order;
pub mod storage;
pub mod renderer;
