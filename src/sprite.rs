use vstd::prelude::*;

verus! {

/// Side length of a sprite, and of a tile, in world units.
pub const SPRITE_SIZE: i32 = 16;

/// Columns of the sprite sheet.
pub const SHEET_COLUMNS: usize = 3;

/// Rows of the sprite sheet.
pub const SHEET_ROWS: usize = 2;

/// The pictures of the sprite sheet.
#[derive(Clone, Copy, Debug, PartialEq, Eq, Structural)]
pub enum Sprite {
    Player,
    Goblin,
    TargetIndicator,
    Wall,
}

impl Sprite {
    /// Position of the picture in the sheet, row by row.
    pub open spec fn spec_index(self) -> usize {
        match self {
            Sprite::Player => 0,
            Sprite::Goblin => 1,
            Sprite::TargetIndicator => 2,
            Sprite::Wall => 3,
        }
    }

    pub fn index(&self) -> (r: usize)
        ensures
            r == self.spec_index(),
            r < SHEET_COLUMNS * SHEET_ROWS,
    {
        match self {
            Sprite::Player => 0,
            Sprite::Goblin => 1,
            Sprite::TargetIndicator => 2,
            Sprite::Wall => 3,
        }
    }
}

} // verus!
