//! Level generation: a border of stone walls, two fixed interior corridor
//! rows, and one randomly placed ore tile, stamped onto a freshly created
//! grid of blank tiles. Also derives the collision field: the world-space
//! centre of every collidable tile.

use vstd::prelude::*;

use crate::fixed::Vec3Fix;
use crate::fixed::WORLD_LIMIT;
use crate::fixed::lemma_mul_le;
use crate::grid::MapDimensions;
use crate::grid::Tile;
use crate::grid::TileHandle;
use crate::grid::TileType;
use crate::grid::Tilemap;
use crate::grid::TilemapSize;
use crate::grid::lemma_linear_index_bounds;
use crate::grid::lemma_linear_index_injective;

verus! {

/// Interior corridor row whose tiles support standing.
pub const FLOOR_ROW: usize = 8;

/// Interior corridor row acting as a ceiling.
pub const CEILING_ROW: usize = 20;

/// Sprite scale of a tile, in milli-units per pixel: every tile is drawn
/// at 1.5 times its pixel size.
pub const TILE_SCALE_MILLI: i64 = 1500;

/// The tile every cell starts out as.
pub open spec fn blank_tile() -> Tile {
    Tile { variant: TileType::Blank, collidable: false, floor: false }
}

/// A stone wall tile; `fl` says whether it supports standing.
pub open spec fn stone_tile(fl: bool) -> Tile {
    Tile { variant: TileType::StoneCentre, collidable: true, floor: fl }
}

/// The single randomly placed ore tile: not collidable; the ore pass only
/// rewrites the variant and the collision part, so any standing support the
/// cell already had (`fl`) is kept.
pub open spec fn ore_tile(fl: bool) -> Tile {
    Tile { variant: TileType::OreCentre, collidable: false, floor: fl }
}

/// What the wall passes leave at `(x, y)` on a `w` by `h` grid, before the
/// ore pass: stone on the border, on the corridor rows, and nowhere else,
/// with standing support exactly on the bottom corridor row and on row `h-1`.
pub open spec fn base_tile(w: int, h: int, x: int, y: int) -> Tile {
    if x == 0 || x == w - 1 || y == 0 || y == h - 1 || y == FLOOR_ROW || y == CEILING_ROW {
        stone_tile(y == h - 1 || y == FLOOR_ROW)
    } else {
        blank_tile()
    }
}

/// The grid holds the base pattern everywhere except at `(ox, oy)`, an
/// interior coordinate drawn from `[1, width-2) x [1, height-2)`, which holds
/// the ore tile.
pub open spec fn ore_placed(g: Tilemap, ox: int, oy: int) -> bool {
    &&& 1 <= ox < g.width - 2
    &&& 1 <= oy < g.height - 2
    &&& g.data_at(ox, oy) == ore_tile(base_tile(g.width as int, g.height as int, ox, oy).floor)
    &&& forall|x: int, y: int|
        g.valid_coord(x, y) && !(x == ox && y == oy) ==> #[trigger] g.data_at(x, y) == base_tile(
            g.width as int,
            g.height as int,
            x,
            y,
        )
}

/// A fully generated level of the given dimensions.
pub open spec fn generated(g: Tilemap, width: int, height: int) -> bool {
    &&& g.wf()
    &&& g.width == width
    &&& g.height == height
    &&& g.all_occupied()
    &&& exists|ox: int, oy: int| #[trigger] ore_placed(g, ox, oy)
}

/// Relies on fastrand::usize: a draw from the thread-local generator, lying
/// within the given half-open range; it panics only when the range is empty.
#[verifier::external_body]
fn random_in_range(lo: usize, hi: usize) -> (r: usize)
    requires
        lo < hi,
    ensures
        lo <= r < hi,
{
    fastrand::usize(lo..hi)
}

/// Overwrite the tile data at an occupied coordinate, leaving every other
/// cell's data and the whole index structure untouched.
fn write_tile_at(grid: &mut Tilemap, x: usize, y: usize, t: Tile)
    requires
        old(grid).wf(),
        old(grid).all_occupied(),
        old(grid).valid_coord(x as int, y as int),
    ensures
        final(grid).wf(),
        final(grid).all_occupied(),
        final(grid).width == old(grid).width,
        final(grid).height == old(grid).height,
        final(grid).tile@ == old(grid).tile@,
        final(grid).entity@ == old(grid).entity@,
        final(grid).data_at(x as int, y as int) == t,
        forall|x2: int, y2: int|
            old(grid).valid_coord(x2, y2) && !(x2 == x && y2 == y) ==> final(grid).data_at(x2, y2)
                == #[trigger] old(grid).data_at(x2, y2),
{
    proof {
        lemma_linear_index_bounds(x as int, y as int, old(grid).width as int, old(grid).height as int);
        assert(old(grid).occupied(x as int, y as int));
    }
    let looked_up: Option<TileHandle> = grid.tile_at(x, y);
    match looked_up {
        Some(hh) => {
            grid.set_tile(hh, t);
            proof {
                let g0 = *old(grid);
                assert forall|x2: int, y2: int| g0.valid_coord(x2, y2) implies #[trigger] grid.occupied(
                    x2,
                    y2,
                ) by {
                    assert(g0.occupied(x2, y2));
                }
                assert forall|x2: int, y2: int|
                    g0.valid_coord(x2, y2) && !(x2 == x && y2 == y) implies grid.data_at(x2, y2)
                    == #[trigger] g0.data_at(x2, y2) by {
                    lemma_linear_index_bounds(x2, y2, g0.width as int, g0.height as int);
                    lemma_linear_index_injective(
                        g0.width as int,
                        x2,
                        y2,
                        x as int,
                        y as int,
                    );
                    assert(g0.occupied(x2, y2));
                    let h2 = g0.handle_at(x2, y2);
                    assert(g0.entity@[h2.0 as int] == g0.linear(x2, y2));
                    assert(g0.entity@[hh.0 as int] == g0.linear(x as int, y as int));
                    assert(h2.0 != hh.0);
                }
            }
        },
        None => {
            proof {
                assert(false);
            }
        },
    }
}

/// Turn the tile at `(x, y)` into a stone wall, keeping any standing support
/// it already has and adding support when `make_floor` is set. This mirrors
/// marker insertion: a later wall pass never removes an earlier floor tag.
fn set_stone(grid: &mut Tilemap, x: usize, y: usize, make_floor: bool)
    requires
        old(grid).wf(),
        old(grid).all_occupied(),
        old(grid).valid_coord(x as int, y as int),
    ensures
        final(grid).wf(),
        final(grid).all_occupied(),
        final(grid).width == old(grid).width,
        final(grid).height == old(grid).height,
        final(grid).tile@ == old(grid).tile@,
        final(grid).entity@ == old(grid).entity@,
        final(grid).data_at(x as int, y as int) == stone_tile(
            old(grid).data_at(x as int, y as int).floor || make_floor,
        ),
        forall|x2: int, y2: int|
            old(grid).valid_coord(x2, y2) && !(x2 == x && y2 == y) ==> final(grid).data_at(x2, y2)
                == #[trigger] old(grid).data_at(x2, y2),
{
    proof {
        lemma_linear_index_bounds(x as int, y as int, old(grid).width as int, old(grid).height as int);
        assert(old(grid).occupied(x as int, y as int));
    }
    let looked_up: Option<TileHandle> = grid.tile_at(x, y);
    match looked_up {
        Some(hh) => {
            let cur: Tile = grid.get_tile(hh);
            let fl: bool = cur.floor || make_floor;
            write_tile_at(grid, x, y, Tile { variant: TileType::StoneCentre, collidable: true, floor: fl });
        },
        None => {
            proof {
                assert(false);
            }
        },
    }
}

/// Fill every cell of a fresh grid with a blank tile, in row-major order.
pub fn spawn_tiles(grid: &mut Tilemap)
    requires
        old(grid).wf(),
        old(grid).tiles@.len() == 0,
        forall|i: int| 0 <= i < old(grid).tile@.len() ==> old(grid).tile@[i] is None,
    ensures
        final(grid).wf(),
        final(grid).all_occupied(),
        final(grid).width == old(grid).width,
        final(grid).height == old(grid).height,
        forall|x: int, y: int|
            final(grid).valid_coord(x, y) ==> #[trigger] final(grid).data_at(x, y) == blank_tile(),
{
    let count: usize = grid.cell_count();
    let mut idx: usize = 0;
    while idx < count
        invariant
            grid.wf(),
            grid.width == old(grid).width,
            grid.height == old(grid).height,
            grid.tile@.len() == count,
            grid.tiles@.len() == idx,
            idx <= count,
            forall|j: int| 0 <= j < idx ==> #[trigger] grid.tile@[j] == Some(TileHandle(j as usize)),
            forall|j: int| idx <= j < count ==> #[trigger] grid.tile@[j] is None,
            forall|j: int| 0 <= j < idx ==> #[trigger] grid.tiles@[j] == blank_tile(),
        decreases count - idx,
    {
        grid.spawn_tile(idx, Tile { variant: TileType::Blank, collidable: false, floor: false });
        idx += 1;
    }
    proof {
        assert forall|x: int, y: int| grid.valid_coord(x, y) implies #[trigger] grid.occupied(
            x,
            y,
        ) by {
            lemma_linear_index_bounds(x, y, grid.width as int, grid.height as int);
        }
        assert forall|x: int, y: int| grid.valid_coord(x, y) implies #[trigger] grid.data_at(x, y)
            == blank_tile() by {
            lemma_linear_index_bounds(x, y, grid.width as int, grid.height as int);
        }
    }
}

/// Stamp the stone walls: the four border edges, then the two interior
/// corridor rows. Standing support goes on row `height-1` and on the
/// corridor floor row.
pub fn add_walls(grid: &mut Tilemap)
    requires
        old(grid).wf(),
        old(grid).all_occupied(),
        old(grid).width >= 1,
        old(grid).height >= 21,
        forall|x: int, y: int|
            old(grid).valid_coord(x, y) ==> #[trigger] old(grid).data_at(x, y) == blank_tile(),
    ensures
        final(grid).wf(),
        final(grid).all_occupied(),
        final(grid).width == old(grid).width,
        final(grid).height == old(grid).height,
        final(grid).tile@ == old(grid).tile@,
        final(grid).entity@ == old(grid).entity@,
        forall|x: int, y: int|
            final(grid).valid_coord(x, y) ==> #[trigger] final(grid).data_at(x, y) == base_tile(
                final(grid).width as int,
                final(grid).height as int,
                x,
                y,
            ),
{
    let ghost g0 = *old(grid);
    let width: usize = grid.width;
    let height: usize = grid.height;
    let ghost w: int = width as int;
    let ghost h1: int = height - 1;

    // Top and bottom edges.
    let mut i: usize = 0;
    while i < width
        invariant
            grid.wf(),
            grid.all_occupied(),
            grid.width == width,
            grid.height == height,
            grid.tile@ == g0.tile@,
            grid.entity@ == g0.entity@,
            width >= 1,
            height >= 21,
            w == width as int,
            h1 == height - 1,
            i <= width,
            forall|x: int, y: int|
                grid.valid_coord(x, y) ==> #[trigger] grid.data_at(x, y) == (
                if (y == 0 || y == h1) && x < i {
                    stone_tile(y == h1)
                } else {
                    blank_tile()
                }),
        decreases width - i,
    {
        let ghost ga = *grid;
        set_stone(grid, i, 0, false);
        let ghost gb = *grid;
        set_stone(grid, i, height - 1, true);
        proof {
            assert forall|x: int, y: int| ga.valid_coord(x, y) implies #[trigger] grid.data_at(
                x,
                y,
            ) == (
            if (y == 0 || y == h1) && x < i + 1 {
                stone_tile(y == h1)
            } else {
                blank_tile()
            }) by {
                if x == i && y == 0 {
                    assert(gb.data_at(x, y) == stone_tile(ga.data_at(x, y).floor || false));
                    assert(grid.data_at(x, y) == gb.data_at(x, y));
                } else if x == i && y == h1 {
                    assert(gb.data_at(x, y) == ga.data_at(x, y));
                    assert(grid.data_at(x, y) == stone_tile(gb.data_at(x, y).floor || true));
                } else {
                    assert(gb.data_at(x, y) == ga.data_at(x, y));
                    assert(grid.data_at(x, y) == gb.data_at(x, y));
                }
            }
        }
        i += 1;
    }

    // Left and right edges.
    let mut j: usize = 1;
    while j < height - 1
        invariant
            grid.wf(),
            grid.all_occupied(),
            grid.width == width,
            grid.height == height,
            grid.tile@ == g0.tile@,
            grid.entity@ == g0.entity@,
            width >= 1,
            height >= 21,
            w == width as int,
            h1 == height - 1,
            1 <= j <= height - 1,
            forall|x: int, y: int|
                grid.valid_coord(x, y) ==> #[trigger] grid.data_at(x, y) == (
                if y == 0 || y == h1 {
                    stone_tile(y == h1)
                } else if (x == 0 || x == w - 1) && 1 <= y < j {
                    stone_tile(false)
                } else {
                    blank_tile()
                }),
        decreases height - 1 - j,
    {
        let ghost ga = *grid;
        set_stone(grid, 0, j, false);
        let ghost gb = *grid;
        set_stone(grid, width - 1, j, false);
        proof {
            assert forall|x: int, y: int| ga.valid_coord(x, y) implies #[trigger] grid.data_at(
                x,
                y,
            ) == (
            if y == 0 || y == h1 {
                stone_tile(y == h1)
            } else if (x == 0 || x == w - 1) && 1 <= y < j + 1 {
                stone_tile(false)
            } else {
                blank_tile()
            }) by {
                if x == 0 && y == j {
                    assert(gb.data_at(x, y) == stone_tile(ga.data_at(x, y).floor || false));
                    if w == 1 {
                        assert(grid.data_at(x, y) == stone_tile(gb.data_at(x, y).floor || false));
                    } else {
                        assert(grid.data_at(x, y) == gb.data_at(x, y));
                    }
                } else if x == w - 1 && y == j {
                    assert(gb.data_at(x, y) == ga.data_at(x, y));
                    assert(grid.data_at(x, y) == stone_tile(gb.data_at(x, y).floor || false));
                } else {
                    assert(gb.data_at(x, y) == ga.data_at(x, y));
                    assert(grid.data_at(x, y) == gb.data_at(x, y));
                }
            }
        }
        j += 1;
    }

    // Central corridor: ceiling row, then floor row.
    let mut i2: usize = 0;
    while i2 < width
        invariant
            grid.wf(),
            grid.all_occupied(),
            grid.width == width,
            grid.height == height,
            grid.tile@ == g0.tile@,
            grid.entity@ == g0.entity@,
            width >= 1,
            height >= 21,
            w == width as int,
            h1 == height - 1,
            i2 <= width,
            forall|x: int, y: int|
                grid.valid_coord(x, y) ==> #[trigger] grid.data_at(x, y) == (
                if (y == FLOOR_ROW || y == CEILING_ROW) && x < i2 {
                    stone_tile(y == FLOOR_ROW || y == h1)
                } else if y == 0 || y == h1 {
                    stone_tile(y == h1)
                } else if (x == 0 || x == w - 1) && 1 <= y < h1 {
                    stone_tile(false)
                } else {
                    blank_tile()
                }),
        decreases width - i2,
    {
        let ghost ga = *grid;
        set_stone(grid, i2, CEILING_ROW, false);
        let ghost gb = *grid;
        set_stone(grid, i2, FLOOR_ROW, true);
        proof {
            assert forall|x: int, y: int| ga.valid_coord(x, y) implies #[trigger] grid.data_at(
                x,
                y,
            ) == (
            if (y == FLOOR_ROW || y == CEILING_ROW) && x < i2 + 1 {
                stone_tile(y == FLOOR_ROW || y == h1)
            } else if y == 0 || y == h1 {
                stone_tile(y == h1)
            } else if (x == 0 || x == w - 1) && 1 <= y < h1 {
                stone_tile(false)
            } else {
                blank_tile()
            }) by {
                if x == i2 && y == CEILING_ROW {
                    assert(gb.data_at(x, y) == stone_tile(ga.data_at(x, y).floor || false));
                    assert(grid.data_at(x, y) == gb.data_at(x, y));
                } else if x == i2 && y == FLOOR_ROW {
                    assert(gb.data_at(x, y) == ga.data_at(x, y));
                    assert(grid.data_at(x, y) == stone_tile(gb.data_at(x, y).floor || true));
                } else {
                    assert(gb.data_at(x, y) == ga.data_at(x, y));
                    assert(grid.data_at(x, y) == gb.data_at(x, y));
                }
            }
        }
        i2 += 1;
    }
    proof {
        assert forall|x: int, y: int| grid.valid_coord(x, y) implies #[trigger] grid.data_at(x, y)
            == base_tile(width as int, height as int, x, y) by {}
    }
}

/// The ore pass: draw one interior coordinate, `x` uniform in
/// `[1, width-2)` and `y` uniform in `[1, height-2)`, and turn that single
/// tile into the non-collidable ore tile, keeping its standing-support tag.
pub fn add_ore(grid: &mut Tilemap)
    requires
        old(grid).wf(),
        old(grid).all_occupied(),
        old(grid).width >= 4,
        old(grid).height >= 4,
    ensures
        final(grid).wf(),
        final(grid).all_occupied(),
        final(grid).width == old(grid).width,
        final(grid).height == old(grid).height,
        final(grid).tile@ == old(grid).tile@,
        final(grid).entity@ == old(grid).entity@,
        exists|ox: int, oy: int|
            {
                &&& 1 <= ox < old(grid).width - 2
                &&& 1 <= oy < old(grid).height - 2
                &&& final(grid).data_at(ox, oy) == ore_tile(old(grid).data_at(ox, oy).floor)
                &&& forall|x: int, y: int|
                    old(grid).valid_coord(x, y) && !(x == ox && y == oy)
                        ==> #[trigger] final(grid).data_at(x, y) == old(grid).data_at(x, y)
            },
{
    let chosen_x: usize = random_in_range(1, grid.width - 2);
    let chosen_y: usize = random_in_range(1, grid.height - 2);
    proof {
        lemma_linear_index_bounds(
            chosen_x as int,
            chosen_y as int,
            grid.width as int,
            grid.height as int,
        );
        assert(grid.occupied(chosen_x as int, chosen_y as int));
    }
    let looked_up: Option<TileHandle> = grid.tile_at(chosen_x, chosen_y);
    match looked_up {
        Some(hh) => {
            let cur: Tile = grid.get_tile(hh);
            write_tile_at(
                grid,
                chosen_x,
                chosen_y,
                Tile { variant: TileType::OreCentre, collidable: false, floor: cur.floor },
            );
        },
        None => {
            proof {
                assert(false);
            }
        },
    }
}

/// Generate a level: a `width` by `height` grid of blank tiles, stone walls
/// on the border, stone corridors on the two fixed interior rows, and a
/// single ore tile at a random interior coordinate.
pub fn generate(width: usize, height: usize) -> (g: Tilemap)
    requires
        width >= 4,
        height >= 21,
        width * height <= usize::MAX,
    ensures
        generated(g, width as int, height as int),
{
    let mut grid = Tilemap::new(width, height);
    spawn_tiles(&mut grid);
    add_walls(&mut grid);
    let ghost walled = grid;
    add_ore(&mut grid);
    proof {
        let (ox, oy) = choose|ox: int, oy: int|
            {
                &&& 1 <= ox < walled.width - 2
                &&& 1 <= oy < walled.height - 2
                &&& grid.data_at(ox, oy) == ore_tile(walled.data_at(ox, oy).floor)
                &&& forall|x: int, y: int|
                    walled.valid_coord(x, y) && !(x == ox && y == oy)
                        ==> #[trigger] grid.data_at(x, y) == walled.data_at(x, y)
            };
        assert(walled.data_at(ox, oy) == base_tile(width as int, height as int, ox, oy));
        assert(ore_placed(grid, ox, oy));
    }
    grid
}

/// Level properties: the cell count is exactly `width * height`; every
/// border cell is collidable; every corridor-row cell that is not the ore
/// tile is collidable; and exactly one ore tile exists, at an interior
/// coordinate with `1 <= x <= width-3` and `1 <= y <= height-3`.
pub proof fn lemma_generated_level(g: Tilemap, width: int, height: int)
    requires
        generated(g, width, height),
    ensures
        g.tile@.len() == width * height,
        forall|x: int, y: int|
            g.valid_coord(x, y) && (x == 0 || x == width - 1 || y == 0 || y == height - 1) ==> (
            #[trigger] g.data_at(x, y)).collidable,
        forall|x: int, y: int|
            g.valid_coord(x, y) && (y == FLOOR_ROW || y == CEILING_ROW) && !((
            #[trigger] g.data_at(x, y)).variant is OreCentre) ==> g.data_at(x, y).collidable,
        exists|x: int, y: int|
            g.valid_coord(x, y) && 1 <= x < width - 2 && 1 <= y < height - 2 && (
            #[trigger] g.data_at(x, y)).variant is OreCentre && !g.data_at(x, y).collidable,
        forall|x1: int, y1: int, x2: int, y2: int|
            g.valid_coord(x1, y1) && g.valid_coord(x2, y2) && (#[trigger] g.data_at(
                x1,
                y1,
            )).variant is OreCentre && (#[trigger] g.data_at(x2, y2)).variant is OreCentre ==> x1
                == x2 && y1 == y2,
{
    let (ox, oy) = choose|ox: int, oy: int| #[trigger] ore_placed(g, ox, oy);
    assert(g.valid_coord(ox, oy));
    assert forall|x: int, y: int|
        g.valid_coord(x, y) && (x == 0 || x == width - 1 || y == 0 || y == height - 1) implies (
    #[trigger] g.data_at(x, y)).collidable by {
        assert(!(x == ox && y == oy));
        assert(g.data_at(x, y) == base_tile(width, height, x, y));
    }
    assert forall|x1: int, y1: int, x2: int, y2: int|
        g.valid_coord(x1, y1) && g.valid_coord(x2, y2) && (#[trigger] g.data_at(
            x1,
            y1,
        )).variant is OreCentre && (#[trigger] g.data_at(x2, y2)).variant is OreCentre implies x1
        == x2 && y1 == y2 by {
        if !(x1 == ox && y1 == oy) {
            assert(g.data_at(x1, y1) == base_tile(width, height, x1, y1));
            assert(false);
        }
        if !(x2 == ox && y2 == oy) {
            assert(g.data_at(x2, y2) == base_tile(width, height, x2, y2));
            assert(false);
        }
    }
}

/// World-space centre of the tile at `(x, y)`: the grid is centred on the
/// origin, each tile spanning `tile_size * 1.5` world units, with `z` fixed
/// at one world unit for draw ordering.
pub open spec fn spec_tile_world(dims: MapDimensions, x: int, y: int) -> Vec3Fix {
    let step = dims.tile_size * TILE_SCALE_MILLI;
    let half = dims.tile_size * (TILE_SCALE_MILLI / 2);
    Vec3Fix {
        x: (x * step - dims.map_size.width * half) as i64,
        y: (y * step - dims.map_size.height * half) as i64,
        z: 1000,
    }
}

/// Dimensions small enough that every tile centre stays within `WORLD_LIMIT`.
pub open spec fn dims_bounded(dims: MapDimensions) -> bool {
    &&& 1 <= dims.tile_size <= 128
    &&& 1 <= dims.map_size.width <= 2000
    &&& 1 <= dims.map_size.height <= 2000
}

pub fn tile_world_position(dims: &MapDimensions, x: usize, y: usize) -> (v: Vec3Fix)
    requires
        dims_bounded(*dims),
        x < dims.map_size.width,
        y < dims.map_size.height,
    ensures
        v == spec_tile_world(*dims, x as int, y as int),
        v.abs_within(WORLD_LIMIT as int),
{
    let step: i64 = (dims.tile_size as i64) * TILE_SCALE_MILLI;
    let half: i64 = (dims.tile_size as i64) * (TILE_SCALE_MILLI / 2);
    proof {
        lemma_mul_le(x as int, step as int, 2000, 192000);
        lemma_mul_le(y as int, step as int, 2000, 192000);
        lemma_mul_le(dims.map_size.width as int, half as int, 2000, 96000);
        lemma_mul_le(dims.map_size.height as int, half as int, 2000, 96000);
    }
    let wx: i64 = (x as i64) * step - (dims.map_size.width as i64) * half;
    let wy: i64 = (y as i64) * step - (dims.map_size.height as i64) * half;
    Vec3Fix { x: wx, y: wy, z: 1000 }
}

/// The reference map configuration: a 40 by 30 grid of 16-pixel tiles.
pub fn standard_map_dimensions() -> (d: MapDimensions)
    ensures
        d.map_size.width == 40,
        d.map_size.height == 30,
        d.tile_size == 16,
        dims_bounded(d),
{
    MapDimensions { map_size: TilemapSize { width: 40, height: 30 }, tile_size: 16 }
}

/// A collision-field entry: the world position of some collidable tile.
pub open spec fn field_entry_ok(g: Tilemap, dims: MapDimensions, v: Vec3Fix) -> bool {
    exists|x: int, y: int|
        g.valid_coord(x, y) && (#[trigger] g.data_at(x, y)).collidable && v == spec_tile_world(
            dims,
            x,
            y,
        )
}

/// The collision field of a grid: the world position of every collidable
/// tile, and of nothing else.
pub fn collision_field(grid: &Tilemap, dims: &MapDimensions) -> (field: Vec<Vec3Fix>)
    requires
        grid.wf(),
        grid.all_occupied(),
        dims_bounded(*dims),
        dims.map_size.width == grid.width,
        dims.map_size.height == grid.height,
    ensures
        forall|k: int|
            0 <= k < field@.len() ==> (#[trigger] field@[k]).abs_within(WORLD_LIMIT as int),
        forall|k: int| 0 <= k < field@.len() ==> field_entry_ok(*grid, *dims, #[trigger] field@[k]),
        forall|x: int, y: int|
            grid.valid_coord(x, y) && (#[trigger] grid.data_at(x, y)).collidable ==> field@.contains(
                spec_tile_world(*dims, x, y),
            ),
{
    let width: usize = grid.width;
    let height: usize = grid.height;
    let mut field: Vec<Vec3Fix> = Vec::new();
    let mut y: usize = 0;
    while y < height
        invariant
            grid.wf(),
            grid.all_occupied(),
            dims_bounded(*dims),
            dims.map_size.width == grid.width,
            dims.map_size.height == grid.height,
            grid.width == width,
            grid.height == height,
            y <= height,
            forall|k: int|
                0 <= k < field@.len() ==> (#[trigger] field@[k]).abs_within(WORLD_LIMIT as int),
            forall|k: int|
                0 <= k < field@.len() ==> field_entry_ok(*grid, *dims, #[trigger] field@[k]),
            forall|x2: int, y2: int|
                grid.valid_coord(x2, y2) && y2 < y && (#[trigger] grid.data_at(
                    x2,
                    y2,
                )).collidable ==> field@.contains(spec_tile_world(*dims, x2, y2)),
        decreases height - y,
    {
        let mut x: usize = 0;
        while x < width
            invariant
                grid.wf(),
                grid.all_occupied(),
                dims_bounded(*dims),
                dims.map_size.width == grid.width,
                dims.map_size.height == grid.height,
                grid.width == width,
                grid.height == height,
                y < height,
                x <= width,
                forall|k: int|
                    0 <= k < field@.len() ==> (#[trigger] field@[k]).abs_within(WORLD_LIMIT as int),
                forall|k: int|
                    0 <= k < field@.len() ==> field_entry_ok(*grid, *dims, #[trigger] field@[k]),
                forall|x2: int, y2: int|
                    grid.valid_coord(x2, y2) && (y2 < y || (y2 == y && x2 < x)) && (
                    #[trigger] grid.data_at(x2, y2)).collidable ==> field@.contains(
                        spec_tile_world(*dims, x2, y2),
                    ),
            decreases width - x,
        {
            proof {
                lemma_linear_index_bounds(x as int, y as int, grid.width as int, grid.height as int);
                assert(grid.occupied(x as int, y as int));
            }
            let looked_up: Option<TileHandle> = grid.tile_at(x, y);
            match looked_up {
                Some(hh) => {
                    let t: Tile = grid.get_tile(hh);
                    proof {
                        assert(grid.data_at(x as int, y as int) == t);
                    }
                    if t.collidable {
                        let ghost old_field = field@;
                        let pos: Vec3Fix = tile_world_position(dims, x, y);
                        field.push(pos);
                        proof {
                            assert(field_entry_ok(*grid, *dims, pos));
                            assert forall|k: int| 0 <= k < field@.len() implies field_entry_ok(
                                *grid,
                                *dims,
                                #[trigger] field@[k],
                            ) by {
                                if k < old_field.len() {
                                    assert(field@[k] == old_field[k]);
                                } else {
                                    assert(field@[k] == pos);
                                }
                            }
                            assert forall|x2: int, y2: int|
                                grid.valid_coord(x2, y2) && (y2 < y || (y2 == y && x2 <= x)) && (
                                #[trigger] grid.data_at(x2, y2)).collidable implies field@.contains(
                                spec_tile_world(*dims, x2, y2),
                            ) by {
                                if x2 == x && y2 == y {
                                    assert(field@[field@.len() - 1] == spec_tile_world(
                                        *dims,
                                        x2,
                                        y2,
                                    ));
                                } else {
                                    let k = choose|k: int|
                                        0 <= k < old_field.len() && old_field[k]
                                            == spec_tile_world(*dims, x2, y2);
                                    assert(field@[k] == spec_tile_world(*dims, x2, y2));
                                }
                            }
                        }
                    }
                },
                None => {
                    proof {
                        assert(false);
                    }
                },
            }
            x += 1;
        }
        y += 1;
    }
    field
}

} // verus!
