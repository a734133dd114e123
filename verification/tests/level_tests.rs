use dwarf_dungeon::build_map::collision_field;
use dwarf_dungeon::build_map::generate;
use dwarf_dungeon::build_map::standard_map_dimensions;
use dwarf_dungeon::build_map::tile_world_position;
use dwarf_dungeon::fixed::Vec3Fix;
use dwarf_dungeon::grid::Tile;
use dwarf_dungeon::grid::TileType;
use dwarf_dungeon::grid::Tilemap;

fn data_at(g: &Tilemap, x: usize, y: usize) -> Tile {
    let h = g.tile_at(x, y).expect("generated grids are fully occupied");
    g.get_tile(h)
}

fn ore_positions(g: &Tilemap) -> Vec<(usize, usize)> {
    let mut found = Vec::new();
    for y in 0..g.height {
        for x in 0..g.width {
            if data_at(g, x, y).variant == TileType::OreCentre {
                found.push((x, y));
            }
        }
    }
    found
}

#[test]
fn generated_grid_has_all_cells() {
    let g = generate(40, 30);
    assert_eq!(g.cell_count(), 1200);
    assert_eq!(g.width, 40);
    assert_eq!(g.height, 30);
}

#[test]
fn borders_are_collidable_stone() {
    let g = generate(40, 30);
    for x in 0..40 {
        assert!(data_at(&g, x, 0).collidable);
        assert_eq!(data_at(&g, x, 0).variant, TileType::StoneCentre);
        assert!(data_at(&g, x, 29).collidable);
        assert!(data_at(&g, x, 29).floor);
    }
    for y in 0..30 {
        assert!(data_at(&g, 0, y).collidable);
        assert!(data_at(&g, 39, y).collidable);
    }
}

#[test]
fn corridor_rows_are_collidable_except_the_ore() {
    let g = generate(40, 30);
    for x in 0..40 {
        let floor_tile = data_at(&g, x, 8);
        let ceiling_tile = data_at(&g, x, 20);
        if floor_tile.variant == TileType::OreCentre {
            // the ore pass keeps the cell's standing support and only clears
            // its collision part
            assert!(floor_tile.floor);
            assert!(!floor_tile.collidable);
        } else {
            assert!(floor_tile.collidable);
            assert!(floor_tile.floor);
        }
        if ceiling_tile.variant != TileType::OreCentre {
            assert!(ceiling_tile.collidable);
            assert!(!ceiling_tile.floor);
        }
    }
}

#[test]
fn exactly_one_ore_in_the_sampling_range() {
    let g = generate(40, 30);
    let found = ore_positions(&g);
    assert_eq!(found.len(), 1);
    let (x, y) = found[0];
    assert!(1 <= x && x <= 37);
    assert!(1 <= y && y <= 27);
    assert!(!data_at(&g, x, y).collidable);
}

#[test]
fn smallest_grid_generates() {
    let g = generate(4, 21);
    assert_eq!(g.cell_count(), 84);
    let found = ore_positions(&g);
    assert_eq!(found.len(), 1);
    let (x, y) = found[0];
    assert_eq!(x, 1);
    assert!(1 <= y && y <= 18);
    // with height 21, the corridor ceiling row is the top border and keeps
    // its standing-support tag from the border pass
    if data_at(&g, 2, 20).variant != TileType::OreCentre {
        assert!(data_at(&g, 2, 20).floor);
    }
}

#[test]
fn interior_cells_are_blank() {
    let g = generate(40, 30);
    for &(x, y) in &[(5usize, 5usize), (17, 12), (38, 28), (1, 21)] {
        let t = data_at(&g, x, y);
        if t.variant != TileType::OreCentre {
            assert_eq!(t.variant, TileType::Blank);
            assert!(!t.collidable);
            assert!(!t.floor);
        }
    }
}

#[test]
fn ore_position_varies_across_generations() {
    // the ore pass draws from a real generator: eight generations of a 40x30
    // grid all but surely place the ore on at least two distinct cells
    let mut positions = Vec::new();
    for _ in 0..8 {
        let g = generate(40, 30);
        positions.push(ore_positions(&g)[0]);
    }
    let first = positions[0];
    assert!(positions.iter().any(|&p| p != first));
}

#[test]
fn world_positions_are_exact() {
    let dims = standard_map_dimensions();
    // 16-pixel tiles at 1.5 scale: 24 world units = 24000 milli-units per
    // tile, with the grid centred on the origin
    assert_eq!(
        tile_world_position(&dims, 0, 0),
        Vec3Fix { x: -480_000, y: -360_000, z: 1000 }
    );
    assert_eq!(
        tile_world_position(&dims, 20, 15),
        Vec3Fix { x: 0, y: 0, z: 1000 }
    );
    assert_eq!(
        tile_world_position(&dims, 39, 29),
        Vec3Fix { x: 456_000, y: 336_000, z: 1000 }
    );
}

#[test]
fn collision_field_holds_exactly_the_collidable_tiles() {
    let g = generate(40, 30);
    let dims = standard_map_dimensions();
    let field = collision_field(&g, &dims);
    let mut expected: usize = 0;
    for y in 0..30 {
        for x in 0..40 {
            let pos = tile_world_position(&dims, x, y);
            let in_field = field.iter().any(|&v| v == pos);
            if data_at(&g, x, y).collidable {
                expected += 1;
                assert!(in_field);
            } else {
                assert!(!in_field);
            }
        }
    }
    assert_eq!(field.len(), expected);
}
