//! Hex-grid geometry and move representation for a turn-based board game,
//! together with its mapping onto an attributed, nested-element wire tree.

pub mod action;
pub mod board;
pub mod cube_dir;
pub mod cube_vec;
pub mod element;
pub mod error;
pub mod moves;
pub mod text;
