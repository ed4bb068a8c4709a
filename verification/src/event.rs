//! Input events driving the tile map.

use vstd::prelude::*;
use crate::map::MapTile;
use crate::map::TileMap;

verus! {

/// A handler of player input for a [`TileMap`]: an implementation turns
/// one input line into actions on the map.  Handling must keep the map
/// well-formed.
pub trait EventHandler: Sized {
    type Error;

    fn init() -> Self;

    fn handle<M: MapTile>(&mut self, player: usize, inp: &str, map: &mut TileMap<M>) -> (r: Result<
        (),
        Self::Error,
    >)
        requires
            old(map).wf(),
        ensures
            final(map).wf(),
    ;
}

} // verus!
