use vstd::prelude::*;

verus! {

/// What occupies one cell of the ship's grid.
#[derive(Clone, Copy, Debug, PartialEq, Eq, Structural)]
pub enum TileType {
    Empty,
    Floor,
    Wall,
    Bed,
    DoorClosed,
    DoorOpen,
}

impl TileType {
    /// A breathable tile: one that can hold an atmosphere cell.
    pub open spec fn supports_atmos(self) -> bool {
        self == TileType::Floor || self == TileType::Bed || self == TileType::DoorOpen
            || self == TileType::DoorClosed
    }

    /// A tile that belongs to the pressure boundary of the ship.
    pub open spec fn is_hull(self) -> bool {
        self == TileType::Wall || self == TileType::DoorClosed || self == TileType::DoorOpen
    }

    /// A tile the pawn can stand on.
    pub open spec fn passable(self) -> bool {
        self == TileType::Floor || self == TileType::Bed || self == TileType::DoorOpen
    }

    /// The name of the variant, as spelled in snapshots.
    pub open spec fn name(self) -> Seq<char> {
        match self {
            TileType::Empty => "Empty"@,
            TileType::Floor => "Floor"@,
            TileType::Wall => "Wall"@,
            TileType::Bed => "Bed"@,
            TileType::DoorClosed => "DoorClosed"@,
            TileType::DoorOpen => "DoorOpen"@,
        }
    }

    pub fn as_str(&self) -> (s: &'static str)
        ensures
            s@ == self.name(),
    {
        match self {
            TileType::Empty => "Empty",
            TileType::Floor => "Floor",
            TileType::Wall => "Wall",
            TileType::Bed => "Bed",
            TileType::DoorClosed => "DoorClosed",
            TileType::DoorOpen => "DoorOpen",
        }
    }
}

/// One cell of the ship's grid.
#[derive(Clone, Copy, Debug)]
pub struct Tile {
    pub tile_type: TileType,
}

impl Tile {
    pub fn new(tile_type: TileType) -> (tile: Self)
        ensures
            tile.tile_type == tile_type,
    {
        Self { tile_type }
    }
}

/// Whether `(x, y)` is a tile of a `w` by `h` grid stored row by row.
pub open spec fn in_grid(w: int, h: int, x: int, y: int) -> bool {
    0 <= x < w && 0 <= y < h
}

/// The position of tile `(x, y)` in a grid of the given width.
pub fn tile_index(x: u32, y: u32, width: u32, height: u32) -> (i: usize)
    requires
        x < width,
        y < height,
        width * height <= usize::MAX,
    ensures
        i == y * width + x,
        i < width * height,
{
    assert(y * width + x < width * height) by (nonlinear_arith)
        requires
            x < width,
            y < height,
    ;
    assert(0 <= y * width <= width * height) by (nonlinear_arith)
        requires
            x < width,
            y < height,
    ;
    y as usize * width as usize + x as usize
}

/// Two tiles of a grid that stand at the same position are the same tile.
pub proof fn lemma_index_injective(w: int, x1: int, y1: int, x2: int, y2: int)
    requires
        0 <= x1 < w,
        0 <= x2 < w,
        y1 * w + x1 == y2 * w + x2,
    ensures
        x1 == x2,
        y1 == y2,
{
    assert(y1 == y2) by (nonlinear_arith)
        requires
            0 <= x1 < w,
            0 <= x2 < w,
            y1 * w + x1 == y2 * w + x2,
    {
        if y1 < y2 {
            assert((y2 - y1) * w >= w);
        } else if y2 < y1 {
            assert((y1 - y2) * w >= w);
        }
    }
}

/// A tile of the grid stands at a position below the size of the grid, and
/// rows follow one another.
pub proof fn lemma_index_bounds(w: int, h: int, x: int, y: int)
    requires
        0 <= x < w,
        0 <= y < h,
    ensures
        y * w <= y * w + x < (y + 1) * w,
        (y + 1) * w <= h * w,
        0 <= y * w,
        (y + 1) * w == y * w + w,
        h * w == w * h,
{
    assert((y + 1) * w <= h * w && 0 <= y * w && (y + 1) * w == y * w + w && h * w == w * h)
        by (nonlinear_arith)
        requires
            0 <= x < w,
            0 <= y < h,
    ;
}

} // verus!
