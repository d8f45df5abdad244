//! Core of a colony simulation: autonomous rovers explore a terrain grid,
//! report what they have seen to a home base, and the base reconciles all
//! partial views into one canonical map, records each resource or science
//! site exactly once, settles returning cargo, and funds new rovers.
pub mod agent;
pub mod base;
pub mod fusion;
pub mod game;
pub mod grid;
pub mod terrain;
