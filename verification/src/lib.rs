//! A backend-agnostic driver for a real-time simulation loop.

pub mod backend;
pub mod entries;
pub mod game;
pub mod geometry;
pub mod graphics;
pub mod input;
pub mod logic;
pub mod random;
pub mod sequence;

pub use crate::backend::{Backend, NullBackend, NullContext};
pub use crate::game::{Game, Scene};
