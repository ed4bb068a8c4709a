//! Players: the scored player of the guessing session, and the data the
//! tile map keeps about a player standing on it.

use vstd::prelude::*;

verus! {

/// A named player and their score.
#[derive(Debug)]
pub struct Player {
    pub name: String,
    pub score: u32,
}

impl Player {
    /// A new player with score 0.
    pub fn new(name: String) -> (p: Player)
        ensures
            p.name@ == name@,
            p.score == 0,
    {
        Player { name, score: 0 }
    }

    /// Adds one to the score.
    pub fn increment_score(&mut self)
        requires
            old(self).score < u32::MAX,
        ensures
            final(self).name@ == old(self).name@,
            final(self).score == old(self).score + 1,
    {
        self.score = self.score + 1;
    }
}

/// The way a player on the map faces, set by the last move.
#[derive(Clone, Copy, Debug, PartialEq, Eq, Structural)]
pub enum PlayerDirection {
    Up,
    Down,
    Left,
    Right,
}

/// The direction a non-empty relative move faces: the horizontal
/// component wins when both are non-zero.
pub open spec fn spec_dir_of(x: int, y: int) -> PlayerDirection {
    if x > 0 {
        PlayerDirection::Right
    } else if x < 0 {
        PlayerDirection::Left
    } else if y > 0 {
        PlayerDirection::Down
    } else {
        PlayerDirection::Up
    }
}

impl PlayerDirection {
    /// The direction of a relative move; none for the empty move.
    pub open spec fn spec_from_move(x: int, y: int) -> Option<PlayerDirection> {
        if x == 0 && y == 0 {
            None
        } else {
            Some(spec_dir_of(x, y))
        }
    }

    pub fn from_move(x: isize, y: isize) -> (r: Option<PlayerDirection>)
        ensures
            r == Self::spec_from_move(x as int, y as int),
    {
        if x > 0 {
            Some(PlayerDirection::Right)
        } else if x < 0 {
            Some(PlayerDirection::Left)
        } else if y > 0 {
            Some(PlayerDirection::Down)
        } else if y < 0 {
            Some(PlayerDirection::Up)
        } else {
            None
        }
    }
}

/// Everything the map tracks about one player: where they stand, how they
/// face, and the tile their marker covers.
pub struct PlayerMapData<T> {
    pub coord: (usize, usize),
    pub direction: PlayerDirection,
    pub tile_under: T,
}

impl<T: Copy> PlayerMapData<T> {
    /// Puts a player on `coord`, remembering the tile there.
    pub fn init(tile: T, coord: (usize, usize)) -> (r: PlayerMapData<T>)
        ensures
            r.coord == coord,
            r.tile_under == tile,
            r.direction == PlayerDirection::Down,
    {
        PlayerMapData { coord, direction: PlayerDirection::Down, tile_under: tile }
    }

    /// Registers the tile now under the player, handing back the one that
    /// was under before.
    pub fn replace_tile_under(&mut self, tile: T) -> (r: T)
        ensures
            final(self).tile_under == tile,
            r == old(self).tile_under,
            final(self).coord == old(self).coord,
            final(self).direction == old(self).direction,
    {
        let prev = self.tile_under;
        self.tile_under = tile;
        prev
    }
}

} // verus!
