//! The model of the snake game "rake": the grid and its objects, the snake,
//! food, items and the shop, and the step function that drives a round.

pub mod rng;
pub mod grid;
pub mod snake;
pub mod item;
pub mod food;
pub mod shop;
pub mod trigger;
pub mod game;
pub mod motion;
pub mod collision;
pub mod audio;
pub mod display;
pub mod sandbox;
