//! Verified core of an interactive editor for multiple-sequence alignments.
//!
//! The alignment is a rectangular grid of symbols: sequence rows, per-column
//! annotation rows and per-residue annotation rows, all kept column-synchronized
//! by the editing operations in [`grid`] and [`session`].  A consensus
//! secondary-structure annotation in bracket notation is parsed into a
//! symmetric base-pair table by [`pairing`] and memoized by [`cache`].  Every
//! mutation is made reversible through the snapshot stacks in [`undo`].

pub mod cache;
pub mod chars;
pub mod commands;
pub mod grid;
pub mod history;
pub mod laws;
pub mod pairing;
pub mod theme;
pub mod session;
pub mod undo;
