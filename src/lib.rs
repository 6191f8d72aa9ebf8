//! A brick breaker simulation in integer world units: a ball bounces off a paddle, the arena's
//! walls and a grid of bricks laid out to fit the arena; struck bricks are removed and scored.

pub mod geometry;
pub mod layout;
pub mod settings;
pub mod structures;
pub mod world;
