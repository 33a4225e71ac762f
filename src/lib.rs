//! A tile-grid resource-flow simulation paced by a display interrupt.
//!
//! Tokens travel over a 40 by 25 grid of packed tile bytes ([`tile`],
//! [`grid`]), moving one cell per step along the direction of their tile
//! unless the next cell is taken ([`entity`]); spawners next to marker
//! tiles add tokens periodically ([`spawner`]); [`state`] runs one step of
//! both. [`frame`] holds the handshake with the interrupt that paces the
//! steps, and [`display`] and [`text`] fill the screen buffers.
pub mod display;
pub mod entity;
pub mod frame;
pub mod grid;
pub mod spawner;
pub mod state;
pub mod text;
pub mod tile;
