//! The level grid: an arena of tiles addressed by opaque handles, with a
//! bidirectional index between handles and row-major cell positions.

use vstd::prelude::*;

verus! {

/// Visual variant of a tile.
#[derive(Clone, Copy, Debug, PartialEq, Eq, Structural)]
pub enum TileType {
    Blank,
    EarthCentre,
    StoneCentre,
    OreCentre,
}

impl TileType {
    /// Texture index of each variant in the tile sprite sheet.
    pub open spec fn spec_value(self) -> usize {
        match self {
            TileType::Blank => 12,
            TileType::EarthCentre => 17,
            TileType::StoneCentre => 21,
            TileType::OreCentre => 25,
        }
    }

    pub fn value(&self) -> (v: usize)
        ensures
            v == self.spec_value(),
    {
        match *self {
            TileType::Blank => 12,
            TileType::EarthCentre => 17,
            TileType::StoneCentre => 21,
            TileType::OreCentre => 25,
        }
    }
}

/// One cell's worth of tile data: its visual variant, whether it takes part
/// in proximity collision, and whether it can support a standing actor.
#[derive(Clone, Copy, Debug, PartialEq, Eq, Structural)]
pub struct Tile {
    pub variant: TileType,
    pub collidable: bool,
    pub floor: bool,
}

/// An opaque reference to one tile: its index into the grid's arena.
#[derive(Clone, Copy, Debug, PartialEq, Eq, Structural)]
pub struct TileHandle(pub usize);

/// Number of tiles across and down.
#[derive(Clone, Copy, Debug)]
pub struct TilemapSize {
    pub width: usize,
    pub height: usize,
}

/// Grid dimensions plus the pixel size of one (square) tile.
#[derive(Clone, Copy, Debug)]
pub struct MapDimensions {
    pub map_size: TilemapSize,
    pub tile_size: u32,
}

/// Row-major grid of tile handles with a reverse index from handle to cell.
pub struct Tilemap {
    /// Arena of tile data; `TileHandle(h)` names `tiles[h]`.
    pub tiles: Vec<Tile>,
    /// The cells, row-major: cell `y * width + x` holds the handle placed there.
    pub tile: Vec<Option<TileHandle>>,
    /// Reverse index: `entity[h]` is the cell index where `TileHandle(h)` sits.
    pub entity: Vec<usize>,
    pub width: usize,
    pub height: usize,
}

/// The linear cell index of a coordinate is always `y * width + x`.
pub proof fn lemma_linear_index_bounds(x: int, y: int, w: int, h: int)
    requires
        0 <= x < w,
        0 <= y < h,
    ensures
        0 <= y * w + x < w * h,
{
    assert(y * w + x < w * h) by (nonlinear_arith)
        requires
            0 <= x < w,
            0 <= y < h,
    ;
    assert(y * w >= 0) by (nonlinear_arith)
        requires
            y >= 0,
            w > 0,
    ;
}

/// Distinct coordinates of one grid always have distinct linear indices.
pub proof fn lemma_linear_index_injective(w: int, x1: int, y1: int, x2: int, y2: int)
    requires
        0 <= x1 < w,
        0 <= x2 < w,
        0 <= y1,
        0 <= y2,
        !(x1 == x2 && y1 == y2),
    ensures
        y1 * w + x1 != y2 * w + x2,
{
    assert(y1 * w + x1 != y2 * w + x2) by (nonlinear_arith)
        requires
            0 <= x1 < w,
            0 <= x2 < w,
            0 <= y1,
            0 <= y2,
            !(x1 == x2 && y1 == y2),
    ;
}

impl Tilemap {
    /// Linear cell index of coordinate `(x, y)`.
    pub open spec fn linear(self, x: int, y: int) -> int {
        y * self.width + x
    }

    pub open spec fn valid_coord(self, x: int, y: int) -> bool {
        0 <= x < self.width && 0 <= y < self.height
    }

    /// Bidirectional-index well-formedness: there are exactly `width * height`
    /// cells, every placed handle names an arena tile, and the forward map
    /// (cell to handle) and the reverse map (handle to cell) agree exactly.
    pub open spec fn wf(self) -> bool {
        &&& self.tile@.len() == self.width * self.height
        &&& self.entity@.len() == self.tiles@.len()
        &&& forall|h: int|
            0 <= h < self.entity@.len() ==> #[trigger] self.entity@[h] < self.tile@.len()
                && self.tile@[self.entity@[h] as int] == Some(TileHandle(h as usize))
        &&& forall|i: int|
            0 <= i < self.tile@.len() ==> (#[trigger] self.tile@[i] matches Some(hh)
                ==> hh.0 < self.tiles@.len() && self.entity@[hh.0 as int] == i)
    }

    pub open spec fn occupied(self, x: int, y: int) -> bool {
        self.tile@[self.linear(x, y)] is Some
    }

    /// The handle sitting at a coordinate (meaningful when occupied).
    pub open spec fn handle_at(self, x: int, y: int) -> TileHandle {
        self.tile@[self.linear(x, y)]->Some_0
    }

    /// The tile data at a coordinate (meaningful when occupied).
    pub open spec fn data_at(self, x: int, y: int) -> Tile {
        self.tiles@[self.handle_at(x, y).0 as int]
    }

    pub open spec fn all_occupied(self) -> bool {
        forall|x: int, y: int| self.valid_coord(x, y) ==> #[trigger] self.occupied(x, y)
    }

    /// A grid of `width * height` cells, all empty.
    pub fn new(width: usize, height: usize) -> (g: Tilemap)
        requires
            width * height <= usize::MAX,
        ensures
            g.wf(),
            g.width == width,
            g.height == height,
            g.tiles@.len() == 0,
            forall|i: int| 0 <= i < g.tile@.len() ==> g.tile@[i] is None,
    {
        let count: usize = width * height;
        let mut cells: Vec<Option<TileHandle>> = Vec::new();
        let mut i: usize = 0;
        while i < count
            invariant
                i <= count,
                cells@.len() == i,
                forall|j: int| 0 <= j < i ==> cells@[j] is None,
            decreases count - i,
        {
            cells.push(None);
            i += 1;
        }
        Tilemap { tiles: Vec::new(), tile: cells, entity: Vec::new(), width, height }
    }

    /// Number of cells; always `width * height` on a well-formed grid.
    pub fn cell_count(&self) -> (n: usize)
        requires
            self.wf(),
        ensures
            n == self.width * self.height,
    {
        self.tile.len()
    }

    /// Place a fresh tile into an empty cell, extending the arena. Both
    /// directions of the index are updated to name the new handle.
    pub fn spawn_tile(&mut self, index: usize, t: Tile) -> (h: TileHandle)
        requires
            old(self).wf(),
            index < old(self).tile@.len(),
            old(self).tile@[index as int] is None,
        ensures
            final(self).wf(),
            final(self).width == old(self).width,
            final(self).height == old(self).height,
            h.0 == old(self).tiles@.len(),
            final(self).tiles@ == old(self).tiles@.push(t),
            final(self).tile@ == old(self).tile@.update(index as int, Some(h)),
            final(self).entity@ == old(self).entity@.push(index),
    {
        let h = TileHandle(self.tiles.len());
        self.tiles.push(t);
        self.entity.push(index);
        self.tile.set(index, Some(h));
        proof {
            assert forall|k: int| 0 <= k < self.entity@.len() implies #[trigger] self.entity@[k]
                < self.tile@.len() && self.tile@[self.entity@[k] as int] == Some(
                TileHandle(k as usize),
            ) by {
                if k < old(self).entity@.len() {
                    assert(old(self).tile@[old(self).entity@[k] as int] is Some);
                }
            }
        }
        h
    }

    /// Forward lookup: the handle in the cell at `(x, y)`.
    pub fn tile_at(&self, x: usize, y: usize) -> (r: Option<TileHandle>)
        requires
            self.wf(),
            x < self.width,
            y < self.height,
        ensures
            r == self.tile@[self.linear(x as int, y as int)],
    {
        let count: usize = self.tile.len();
        proof {
            lemma_linear_index_bounds(x as int, y as int, self.width as int, self.height as int);
            assert(y * self.width + x < count);
        }
        let idx: usize = y * self.width + x;
        self.tile[idx]
    }

    /// Reverse lookup: the cell index where a handle sits. Never disagrees
    /// with the forward map: the cell it returns holds exactly this handle.
    pub fn index_at(&self, h: TileHandle) -> (i: usize)
        requires
            self.wf(),
            h.0 < self.tiles@.len(),
        ensures
            i == self.entity@[h.0 as int],
            i < self.tile@.len(),
            self.tile@[i as int] == Some(h),
    {
        self.entity[h.0]
    }

    /// Tile data for a handle.
    pub fn get_tile(&self, h: TileHandle) -> (t: Tile)
        requires
            self.wf(),
            h.0 < self.tiles@.len(),
        ensures
            t == self.tiles@[h.0 as int],
    {
        self.tiles[h.0]
    }

    /// Overwrite the tile data behind a handle; the index structure and every
    /// other tile are untouched.
    pub fn set_tile(&mut self, h: TileHandle, t: Tile)
        requires
            old(self).wf(),
            h.0 < old(self).tiles@.len(),
        ensures
            final(self).wf(),
            final(self).tiles@ == old(self).tiles@.update(h.0 as int, t),
            final(self).tile@ == old(self).tile@,
            final(self).entity@ == old(self).entity@,
            final(self).width == old(self).width,
            final(self).height == old(self).height,
    {
        self.tiles.set(h.0, t);
    }
}

/// Bidirectional index law: on a well-formed grid, following the reverse map
/// from any handle leads to a cell holding exactly that handle, and following
/// the forward map from any occupied cell leads back to that cell's linear
/// index `y * width + x`.
pub proof fn lemma_bidirectional_index(g: Tilemap)
    requires
        g.wf(),
    ensures
        forall|h: int|
            0 <= h < g.tiles@.len() ==> g.tile@[#[trigger] g.entity@[h] as int] == Some(
                TileHandle(h as usize),
            ),
        forall|x: int, y: int|
            g.valid_coord(x, y) && g.occupied(x, y) ==> g.entity@[
                #[trigger] g.handle_at(x, y).0 as int
            ] == y * g.width + x,
{
    assert forall|x: int, y: int| g.valid_coord(x, y) && g.occupied(x, y) implies g.entity@[
        #[trigger] g.handle_at(x, y).0 as int
    ] == y * g.width + x by {
        lemma_linear_index_bounds(x, y, g.width as int, g.height as int);
        assert(g.tile@[g.linear(x, y)] matches Some(hh) && hh == g.handle_at(x, y));
    }
}

} // verus!
