//! Building placement on a tile grid: terrain and occupancy, a catalogue of
//! building types, the preview session that validates a footprint under the
//! cursor, the all-or-nothing construction step, and the gold ledger with its
//! periodic wages.
//!
//! The engine that draws the city and reads the mouse is not part of this crate.
//! It hands in plain values (the hovered tile, a click, the time that passed) and
//! gets plain values back (what to show, what was built).

pub mod building;
pub mod cli;
pub mod cursor;
pub mod grid;
pub mod resources;
pub mod time;
pub mod ui;

use vstd::prelude::*;

verus! {

/// Whether the level is still being loaded or is being played.
#[derive(Debug, Clone, Copy, Eq, PartialEq, Hash, Structural)]
pub enum AppState {
    Loading,
    Level,
}

impl Default for AppState {
    fn default() -> (r: AppState)
        ensures
            r == AppState::Loading,
    {
        AppState::Loading
    }
}

} // verus!
