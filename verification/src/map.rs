//! A small tile map with players that move around on it.
//!
//! The map is a grid of tiles of some [`MapTile`] type.  A player standing
//! on a tile covers it with a marker; the tile that was underneath is
//! remembered and restored when the player moves on.  Moves are relative
//! and clamped to the edges of the grid; a move onto a tile that cannot be
//! walked on only turns the player.

use vstd::prelude::*;
use crate::player::PlayerDirection;
use crate::player::PlayerMapData;
use crate::player::spec_dir_of;

verus! {

/// One tile of the map.  An implementation decides what tiles exist, how
/// each renders, which can be walked on, and what a tile occupied by a
/// player looks like; the executable methods are tied to the
/// implementation's own spec-level account, so [`TileMap`]'s movement logic is
/// verified over any tile type.
pub trait MapTile: Sized + Copy {
    /// The blank tile the map is initially filled with.
    spec fn spec_init() -> Self;

    /// This tile, covered by a player marker facing `direction`.
    spec fn spec_set_player(self, direction: PlayerDirection) -> Self;

    /// Whether a player may stand on this tile.
    spec fn spec_walkable(self) -> bool;

    /// The character this tile renders as.
    spec fn spec_repr(self) -> char;

    fn init() -> (r: Self)
        ensures
            r == Self::spec_init(),
    ;

    /// Marks the tile as covered by a player facing `direction`.
    fn set_player(&mut self, direction: PlayerDirection)
        ensures
            *final(self) == old(self).spec_set_player(direction),
    ;

    fn walkable(&self) -> (r: bool)
        ensures
            r == self.spec_walkable(),
    ;

    fn repr(&self) -> (c: char)
        ensures
            c == self.spec_repr(),
    ;
}

/// A minimal tile type: open floor, walls, and a player marker facing
/// some way.  Only the floor can be walked on.
#[derive(Clone, Copy, Debug, PartialEq, Eq, Structural)]
pub enum BasicTile {
    Floor,
    Wall,
    Occupied(PlayerDirection),
}

impl MapTile for BasicTile {
    open spec fn spec_init() -> Self {
        BasicTile::Floor
    }

    open spec fn spec_set_player(self, direction: PlayerDirection) -> Self {
        BasicTile::Occupied(direction)
    }

    open spec fn spec_walkable(self) -> bool {
        self == BasicTile::Floor
    }

    open spec fn spec_repr(self) -> char {
        match self {
            BasicTile::Floor => '.',
            BasicTile::Wall => '#',
            BasicTile::Occupied(PlayerDirection::Up) => '^',
            BasicTile::Occupied(PlayerDirection::Down) => 'v',
            BasicTile::Occupied(PlayerDirection::Left) => '<',
            BasicTile::Occupied(PlayerDirection::Right) => '>',
        }
    }

    fn init() -> (r: Self) {
        BasicTile::Floor
    }

    fn set_player(&mut self, direction: PlayerDirection) {
        *self = BasicTile::Occupied(direction);
    }

    fn walkable(&self) -> (r: bool) {
        match self {
            BasicTile::Floor => true,
            _ => false,
        }
    }

    fn repr(&self) -> (c: char) {
        match self {
            BasicTile::Floor => '.',
            BasicTile::Wall => '#',
            BasicTile::Occupied(PlayerDirection::Up) => '^',
            BasicTile::Occupied(PlayerDirection::Down) => 'v',
            BasicTile::Occupied(PlayerDirection::Left) => '<',
            BasicTile::Occupied(PlayerDirection::Right) => '>',
        }
    }
}

/// Moves a coordinate by a relative amount, clamped into `[min, max]`.
pub open spec fn spec_coord_move(coord: int, nmove: int, min: int, max: int) -> int {
    let t = coord + nmove;
    if t < min {
        min
    } else if t > max {
        max
    } else {
        t
    }
}

/// Changes a coordinate by a relative move, capped to `min` below and
/// saturated to `max` above.
pub fn coord_move(coord: usize, nmove: isize, min: usize, max: usize) -> (r: usize)
    requires
        min <= max,
    ensures
        r == spec_coord_move(coord as int, nmove as int, min as int, max as int),
{
    if nmove >= 0 {
        let m = nmove as usize;
        if coord > max || m > max - coord {
            max
        } else if coord + m < min {
            min
        } else {
            coord + m
        }
    } else {
        let m = ((-(nmove + 1)) as usize) + 1;
        if m > coord || coord - m < min {
            min
        } else if coord - m > max {
            max
        } else {
            coord - m
        }
    }
}

/// The map: a grid of `height` rows of `width` tiles, and the players
/// standing on it.
pub struct TileMap<T: MapTile> {
    pub players: Vec<PlayerMapData<T>>,
    pub width: usize,
    pub height: usize,
    pub grid: Vec<Vec<T>>,
}

impl<T: MapTile> TileMap<T> {
    /// The grid is `height` rows of `width` tiles and every player stands
    /// in bounds.
    pub open spec fn wf(self) -> bool {
        &&& self.grid@.len() == self.height
        &&& forall|y: int| 0 <= y < self.height ==> (#[trigger] self.grid@[y])@.len() == self.width
        &&& forall|i: int|
            0 <= i < self.players@.len() ==> (#[trigger] self.players@[i]).coord.0 < self.width
                && self.players@[i].coord.1 < self.height
    }

    /// The tile at a coordinate.
    pub open spec fn tile_at(self, x: int, y: int) -> T {
        self.grid@[y]@[x]
    }

    /// A fresh `width` by `height` map of blank tiles, with no players.
    pub fn init(width: usize, height: usize) -> (m: TileMap<T>)
        ensures
            m.wf(),
            m.width == width,
            m.height == height,
            m.players@.len() == 0,
            forall|x: int, y: int|
                0 <= x < width && 0 <= y < height ==> m.tile_at(x, y) == T::spec_init(),
    {
        let mut grid: Vec<Vec<T>> = Vec::new();
        let mut yy: usize = 0;
        while yy < height
            invariant
                yy <= height,
                grid@.len() == yy,
                forall|y: int| 0 <= y < yy ==> (#[trigger] grid@[y])@.len() == width,
                forall|x: int, y: int|
                    0 <= x < width && 0 <= y < yy ==> #[trigger] grid@[y]@[x] == T::spec_init(),
            decreases height - yy,
        {
            let mut line: Vec<T> = Vec::new();
            let mut xx: usize = 0;
            while xx < width
                invariant
                    xx <= width,
                    line@.len() == xx,
                    forall|x: int| 0 <= x < xx ==> #[trigger] line@[x] == T::spec_init(),
                decreases width - xx,
            {
                line.push(T::init());
                xx = xx + 1;
            }
            grid.push(line);
            yy = yy + 1;
        }
        TileMap { players: Vec::new(), width, height, grid }
    }

    /// A reference to the tile at `(x, y)`.
    pub fn from_coord(&self, x: usize, y: usize) -> (r: &T)
        requires
            self.wf(),
            x < self.width,
            y < self.height,
        ensures
            *r == self.tile_at(x as int, y as int),
    {
        &self.grid[y][x]
    }

    /// Replaces the tile at `(x, y)`.
    pub fn set_at(&mut self, x: usize, y: usize, t: T)
        requires
            old(self).wf(),
            x < old(self).width,
            y < old(self).height,
        ensures
            final(self).wf(),
            final(self).width == old(self).width,
            final(self).height == old(self).height,
            final(self).players == old(self).players,
            forall|cx: int, cy: int|
                0 <= cx < old(self).width && 0 <= cy < old(self).height ==> #[trigger] final(self).tile_at(cx, cy) == (if cx == x && cy == y {
                    t
                } else {
                    old(self).tile_at(cx, cy)
                }),
    {
        self.grid[y][x] = t;
    }

    /// The tile the player's marker currently covers.
    pub fn get_player_tile(&self, id: usize) -> (r: T)
        requires
            self.wf(),
            id < self.players@.len(),
        ensures
            r == self.tile_at(
                self.players@[id as int].coord.0 as int,
                self.players@[id as int].coord.1 as int,
            ),
    {
        let coord = self.players[id].coord;
        *self.from_coord(coord.0, coord.1)
    }

    /// The rendered characters of row `y`, in order.
    pub fn render_line(&self, y: usize) -> (r: Vec<char>)
        requires
            self.wf(),
            y < self.height,
        ensures
            r@.len() == self.width,
            forall|x: int|
                0 <= x < self.width ==> r@[x] == (#[trigger] self.tile_at(x, y as int)).spec_repr(),
    {
        let mut r: Vec<char> = Vec::new();
        let mut x: usize = 0;
        while x < self.width
            invariant
                self.wf(),
                y < self.height,
                x <= self.width,
                r@.len() == x,
                forall|k: int|
                    0 <= k < x ==> r@[k] == (#[trigger] self.tile_at(k, y as int)).spec_repr(),
            decreases self.width - x,
        {
            r.push(self.from_coord(x, y).repr());
            x = x + 1;
        }
        r
    }

    /// Where a relative move from the player's tile ends up, clamped to
    /// the grid.
    pub open spec fn move_dst(self, x: int, y: int, player: int) -> (int, int) {
        let src = self.players@[player].coord;
        (
            spec_coord_move(src.0 as int, x, 0, self.width - 1),
            spec_coord_move(src.1 as int, y, 0, self.height - 1),
        )
    }

    /// What one call of [`TileMap::move_player`] does: if the clamped
    /// destination is the player's own tile, or cannot be walked on, the
    /// player only turns; otherwise the player steps there, the tile left
    /// behind is restored, and the destination tile is covered.
    pub open spec fn spec_move_outcome(a: TileMap<T>, b: TileMap<T>, x: int, y: int, player: int) -> bool {
        let src = a.players@[player].coord;
        let dir = spec_dir_of(x, y);
        let dst = a.move_dst(x, y, player);
        let moved = (dst.0 != src.0 as int || dst.1 != src.1 as int) && a.tile_at(
            dst.0,
            dst.1,
        ).spec_walkable();
        &&& b.width == a.width
        &&& b.height == a.height
        &&& b.players@.len() == a.players@.len()
        &&& forall|i: int|
            0 <= i < a.players@.len() && i != player ==> b.players@[i] == a.players@[i]
        &&& if !moved {
            &&& b.players@[player] == a.players@[player]
            &&& forall|cx: int, cy: int|
                0 <= cx < a.width && 0 <= cy < a.height ==> #[trigger] b.tile_at(cx, cy) == (if cx
                    == src.0 as int && cy == src.1 as int {
                    a.tile_at(src.0 as int, src.1 as int).spec_set_player(dir)
                } else {
                    a.tile_at(cx, cy)
                })
        } else {
            &&& b.players@[player].coord.0 == dst.0
            &&& b.players@[player].coord.1 == dst.1
            &&& b.players@[player].tile_under == a.tile_at(dst.0, dst.1)
            &&& b.players@[player].direction == a.players@[player].direction
            &&& forall|cx: int, cy: int|
                0 <= cx < a.width && 0 <= cy < a.height ==> #[trigger] b.tile_at(cx, cy) == (if cx
                    == src.0 as int && cy == src.1 as int {
                    a.players@[player].tile_under
                } else if cx == dst.0 && cy == dst.1 {
                    a.tile_at(dst.0, dst.1).spec_set_player(dir)
                } else {
                    a.tile_at(cx, cy)
                })
        }
    }

    /// Moves a player by a relative, non-empty amount; the destination is
    /// clamped to the grid edges.
    pub fn move_player(&mut self, x: isize, y: isize, player: usize)
        requires
            old(self).wf(),
            player < old(self).players@.len(),
            x != 0 || y != 0,
        ensures
            final(self).wf(),
            Self::spec_move_outcome(*old(self), *final(self), x as int, y as int, player as int),
    {
        let src = self.players[player].coord;
        let direction = PlayerDirection::from_move(x, y).unwrap();
        let final_x = coord_move(src.0, x, 0, self.width - 1);
        let final_y = coord_move(src.1, y, 0, self.height - 1);
        let dst = (final_x, final_y);

        if src.0 == dst.0 && src.1 == dst.1 {
            let mut t = *self.from_coord(src.0, src.1);
            t.set_player(direction);
            self.set_at(src.0, src.1, t);
            return ;
        }
        let dst_tile = *self.from_coord(dst.0, dst.1);
        if !dst_tile.walkable() {
            let mut t = *self.from_coord(src.0, src.1);
            t.set_player(direction);
            self.set_at(src.0, src.1, t);
            return ;
        }
        let src_tile = self.players[player].tile_under;
        let direction_kept = self.players[player].direction;
        self.players[player] =
            PlayerMapData { coord: dst, direction: direction_kept, tile_under: dst_tile };

        self.set_at(src.0, src.1, src_tile);
        let mut t2 = *self.from_coord(dst.0, dst.1);
        t2.set_player(direction);
        self.set_at(dst.0, dst.1, t2);
    }

    /// Adds a new player standing on `coord`, covering the tile there;
    /// hands back the player's id.
    pub fn add_player(&mut self, coord: (usize, usize)) -> (id: usize)
        requires
            old(self).wf(),
            coord.0 < old(self).width,
            coord.1 < old(self).height,
        ensures
            final(self).wf(),
            id == old(self).players@.len(),
            final(self).width == old(self).width,
            final(self).height == old(self).height,
            final(self).players@.len() == old(self).players@.len() + 1,
            forall|i: int|
                0 <= i < old(self).players@.len() ==> final(self).players@[i] == old(self).players@[i],
            final(self).players@.last().coord == coord,
            final(self).players@.last().tile_under == old(self).tile_at(
                coord.0 as int,
                coord.1 as int,
            ),
            final(self).players@.last().direction == PlayerDirection::Down,
            forall|cx: int, cy: int|
                0 <= cx < old(self).width && 0 <= cy < old(self).height ==> #[trigger] final(self).tile_at(cx, cy) == (if cx == coord.0 && cy == coord.1 {
                    old(self).tile_at(coord.0 as int, coord.1 as int).spec_set_player(
                        PlayerDirection::Down,
                    )
                } else {
                    old(self).tile_at(cx, cy)
                }),
    {
        let data = PlayerMapData::init(*self.from_coord(coord.0, coord.1), coord);
        let mut t = *self.from_coord(data.coord.0, data.coord.1);
        t.set_player(data.direction);
        self.set_at(data.coord.0, data.coord.1, t);
        let ghost mid = *self;
        self.players.push(data);
        proof {
            assert forall|cx: int, cy: int|
                0 <= cx < old(self).width && 0 <= cy < old(self).height implies #[trigger] self.tile_at(
                cx,
                cy,
            ) == mid.tile_at(cx, cy) by {
                assert(self.grid@ == mid.grid@);
            }
        }
        self.players.len() - 1
    }
}

} // verus!
