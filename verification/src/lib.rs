//! A resource-waste economic simulation engine with a batch balance-testing
//! harness.
//!
//! The library models a grid of cloud-resource tiles, each producing a
//! recurring waste cost until it is fixed. A tick-driven economy tracks
//! budget burn, waste decay, neighbour effects, fix combos and win/lose
//! conditions, and a Monte Carlo simulator replays many synthetic games with
//! a greedy heuristic to produce aggregate balance statistics.
//!
//! All money, waste and multiplier quantities are exact integers: multipliers
//! are held in thousandths (1000 = x1.0) or tenths (10 = x1.0), and every
//! derived figure is the floor of the corresponding rational product.

pub mod catalog;
pub mod economy;
pub mod game;
pub mod grid;
pub mod simulator;
pub mod rng;
