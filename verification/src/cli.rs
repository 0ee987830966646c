//! The options of the command line.

use vstd::prelude::*;

verus! {

/// The map size that is used when none is given.
pub const DEFAULT_TILEMAP_SIZE: u32 = 32;

/// What the command line can set.
#[derive(Debug, Clone, PartialEq, Eq)]
pub struct Args {
    /// Map file to load
    pub map: Option<String>,
    /// Map size in tiles
    pub tilemap_size: Option<u32>,
}

impl Default for Args {
    /// The options of an empty command line.
    fn default() -> (r: Args)
        ensures
            r.map is None,
            r.tilemap_size == Some(DEFAULT_TILEMAP_SIZE),
    {
        Args { map: None, tilemap_size: Some(DEFAULT_TILEMAP_SIZE) }
    }
}

} // verus!
