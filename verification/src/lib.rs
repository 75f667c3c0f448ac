//! Chess rules, notation, persistence formats and engine protocol of Omarchy Chess.
pub mod chess;
pub mod engine;
pub mod game;
pub mod headers;
pub mod pgn;
pub mod pieces;
pub mod preferences;
pub mod sound;
pub mod storage;
pub mod text;
pub mod theme;
