//! Collision, rotation, and movement engine for a falling-block puzzle game.
//!
//! The engine answers three questions about a board and a piece pose: does
//! the pose collide, what legal pose results from a rotation request (wall
//! kicks included), and what pose results from a directional slide or a
//! single gravity step. The board is a 10-wide, 6-row occupancy window packed
//! into one 64-bit word together with a 4-bit color tag; every coordinate
//! outside the window reads as occupied, so the higher-level queries are
//! correct at the edges without special cases.

pub mod kicks;
pub mod pc_utils;
pub mod piece;
pub mod vec2;
