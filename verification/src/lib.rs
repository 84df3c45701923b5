//! The simulation core of a small tavern game: which things on screen can be
//! clicked, how customers arrive, wait, drink and leave, how the bar hands
//! out its three places, what the player earns, and how the view moves.
//!
//! Time is counted in milliseconds and lengths in thousandths of a world
//! unit, so that every rule is stated over whole numbers.

pub mod bar;
pub mod camera;
pub mod chance;
pub mod clicks;
pub mod customer;
pub mod drink;
pub mod geometry;
pub mod hover;
pub mod interact;
pub mod screen;
pub mod seating;
pub mod stats;
pub mod tavern;
pub mod timer;
