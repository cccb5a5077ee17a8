use crate::geometry::Vec2;
use crate::sprite::{Sprite, SPRITE_SIZE};
use vstd::prelude::*;

verus! {

/// Column of the inner wall of a zone.
pub const INNER_WALL_COLUMN: usize = 10;

/// First of the two rows of the inner wall of a zone.
pub const INNER_WALL_ROW: usize = 6;

/// Largest number of columns or rows of a zone.
pub const MAX_ZONE_SIDE: usize = 65536;

/// One cell of a zone.
#[derive(Clone, Copy, Debug, PartialEq, Eq, Structural)]
pub struct Tile {
    pub sprite: Sprite,
    pub is_obstructed: bool,
}

impl Tile {
    pub open spec fn wall() -> Tile {
        Tile { sprite: Sprite::Wall, is_obstructed: true }
    }
}

/// A rectangular grid of tiles centred on the origin, indexed `tiles[x][y]`.
pub struct Zone {
    pub columns: usize,
    pub rows: usize,
    pub tiles: Vec<Vec<Option<Tile>>>,
}

/// The tile at `(x, y)` of a new zone: walls around the border and a short inner wall.
pub open spec fn zone_tile(columns: usize, rows: usize, x: int, y: int) -> Option<Tile> {
    if x == 0 || x == columns - 1 || y == 0 || y == rows - 1 || (x == INNER_WALL_COLUMN && (y
        == INNER_WALL_ROW || y == INNER_WALL_ROW + 1)) {
        Some(Tile::wall())
    } else {
        None
    }
}

/// Centre of tile `(x, y)` in a zone of `columns` by `rows` tiles.
pub open spec fn tile_center(columns: usize, rows: usize, x: int, y: int) -> Vec2 {
    Vec2 {
        x: (x * SPRITE_SIZE - (columns - 1) * (SPRITE_SIZE / 2)) as i32,
        y: (y * SPRITE_SIZE - (rows - 1) * (SPRITE_SIZE / 2)) as i32,
    }
}

/// Centres of the obstructed tiles of column `x` with row below `k`, by row.
pub open spec fn column_obstacles(z: Zone, x: int, k: int) -> Seq<Vec2>
    decreases k,
{
    if k <= 0 {
        seq![]
    } else {
        let prev = column_obstacles(z, x, k - 1);
        match z.tiles@[x]@[k - 1] {
            Some(t) => if t.is_obstructed {
                prev.push(tile_center(z.columns, z.rows, x, k - 1))
            } else {
                prev
            },
            None => prev,
        }
    }
}

/// Centres of the obstructed tiles of the columns below `k`, column by column.
pub open spec fn zone_obstacles(z: Zone, k: int) -> Seq<Vec2>
    decreases k,
{
    if k <= 0 {
        seq![]
    } else {
        zone_obstacles(z, k - 1) + column_obstacles(z, k - 1, z.rows as int)
    }
}

impl Zone {
    /// `self` is the zone of `columns` by `rows` tiles that `new` builds.
    pub open spec fn is_new(self, columns: usize, rows: usize) -> bool {
        &&& self.wf()
        &&& self.columns == columns
        &&& self.rows == rows
        &&& forall|x: int, y: int|
            0 <= x < columns && 0 <= y < rows ==> #[trigger] self.tiles@[x]@[y] == zone_tile(
                columns,
                rows,
                x,
                y,
            )
    }

    pub open spec fn wf(self) -> bool {
        &&& self.columns <= MAX_ZONE_SIDE
        &&& self.rows <= MAX_ZONE_SIDE
        &&& self.tiles@.len() == self.columns
        &&& forall|x: int| 0 <= x < self.columns ==> (#[trigger] self.tiles@[x])@.len() == self.rows
    }

    /// A zone of `columns` by `rows` tiles, walled in, with an inner wall.
    pub fn new(columns: usize, rows: usize) -> (r: Zone)
        requires
            INNER_WALL_COLUMN < columns <= MAX_ZONE_SIDE,
            INNER_WALL_ROW + 1 < rows <= MAX_ZONE_SIDE,
        ensures
            r.is_new(columns, rows),
    {
        let mut tiles: Vec<Vec<Option<Tile>>> = Vec::new();
        let mut x: usize = 0;
        while x < columns
            invariant
                x <= columns,
                tiles@.len() == x,
                forall|i: int| 0 <= i < x ==> (#[trigger] tiles@[i])@.len() == rows,
                forall|i: int, j: int|
                    0 <= i < x && 0 <= j < rows ==> #[trigger] tiles@[i]@[j] == zone_tile(
                        columns,
                        rows,
                        i,
                        j,
                    ),
            decreases columns - x,
        {
            let mut column: Vec<Option<Tile>> = Vec::new();
            let mut y: usize = 0;
            while y < rows
                invariant
                    y <= rows,
                    x < columns,
                    column@.len() == y,
                    forall|j: int| 0 <= j < y ==> #[trigger] column@[j] == zone_tile(columns, rows, x as int, j),
                decreases rows - y,
            {
                let wall = x == 0 || x == columns - 1 || y == 0 || y == rows - 1 || (x
                    == INNER_WALL_COLUMN && (y == INNER_WALL_ROW || y == INNER_WALL_ROW + 1));
                if wall {
                    column.push(Some(Tile { sprite: Sprite::Wall, is_obstructed: true }));
                } else {
                    column.push(None);
                }
                y = y + 1;
            }
            tiles.push(column);
            x = x + 1;
        }
        Zone { columns, rows, tiles }
    }

    /// Centre of tile `(x, y)`.
    pub fn tile_position(&self, x: usize, y: usize) -> (r: Vec2)
        requires
            self.wf(),
            x < self.columns,
            y < self.rows,
        ensures
            r == tile_center(self.columns, self.rows, x as int, y as int),
    {
        let px = x as i64 * SPRITE_SIZE as i64 - (self.columns as i64 - 1) * (SPRITE_SIZE as i64 / 2);
        let py = y as i64 * SPRITE_SIZE as i64 - (self.rows as i64 - 1) * (SPRITE_SIZE as i64 / 2);
        Vec2 { x: px as i32, y: py as i32 }
    }

    /// Centres of the obstructed tiles, column by column.
    pub fn obstacle_positions(&self) -> (r: Vec<Vec2>)
        requires
            self.wf(),
        ensures
            r@ == zone_obstacles(*self, self.columns as int),
    {
        let mut obstacles: Vec<Vec2> = Vec::new();
        let mut x: usize = 0;
        while x < self.columns
            invariant
                self.wf(),
                x <= self.columns,
                obstacles@ == zone_obstacles(*self, x as int),
            decreases self.columns - x,
        {
            let ghost start = obstacles@;
            let mut y: usize = 0;
            while y < self.rows
                invariant
                    self.wf(),
                    x < self.columns,
                    y <= self.rows,
                    obstacles@ == start + column_obstacles(*self, x as int, y as int),
                decreases self.rows - y,
            {
                assert(self.tiles@[x as int]@.len() == self.rows);
                if let Some(t) = self.tiles[x][y] {
                    if t.is_obstructed {
                        let p = self.tile_position(x, y);
                        obstacles.push(p);
                        assert(obstacles@ =~= start + column_obstacles(*self, x as int, y + 1));
                    }
                }
                y = y + 1;
            }
            x = x + 1;
        }
        obstacles
    }
}

} // verus!
