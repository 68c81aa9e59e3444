//! A turn-based grid simulation: a player walks an expandable tile map, clears
//! robots with a weapon found on the floor, grows the map cell by cell and
//! lives through nights during which the robots wander.

pub mod calls;
pub mod combat;
pub mod entities;
pub mod geometry;
pub mod laws;
pub mod level;
pub mod logic;
pub mod model;
pub mod night;
