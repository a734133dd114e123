use dwarf_dungeon::grid::Tile;
use dwarf_dungeon::grid::TileType;
use dwarf_dungeon::grid::Tilemap;

#[test]
fn texture_value_table() {
    assert_eq!(TileType::Blank.value(), 12);
    assert_eq!(TileType::EarthCentre.value(), 17);
    assert_eq!(TileType::StoneCentre.value(), 21);
    assert_eq!(TileType::OreCentre.value(), 25);
}

#[test]
fn new_grid_is_empty() {
    let g = Tilemap::new(5, 7);
    assert_eq!(g.width, 5);
    assert_eq!(g.height, 7);
    assert_eq!(g.cell_count(), 35);
    for y in 0..7 {
        for x in 0..5 {
            assert!(g.tile_at(x, y).is_none());
        }
    }
}

#[test]
fn spawn_tile_round_trip() {
    let mut g = Tilemap::new(3, 3);
    let t = Tile { variant: TileType::EarthCentre, collidable: false, floor: true };
    let h = g.spawn_tile(4, t);
    assert_eq!(g.index_at(h), 4);
    assert_eq!(g.tile_at(1, 1), Some(h));
    let back = g.get_tile(h);
    assert_eq!(back, t);
}

#[test]
fn set_tile_changes_only_data() {
    let mut g = Tilemap::new(2, 2);
    let blank = Tile { variant: TileType::Blank, collidable: false, floor: false };
    let h0 = g.spawn_tile(0, blank);
    let h3 = g.spawn_tile(3, blank);
    g.set_tile(h3, Tile { variant: TileType::StoneCentre, collidable: true, floor: false });
    assert_eq!(g.get_tile(h0), blank);
    assert_eq!(g.get_tile(h3).variant, TileType::StoneCentre);
    assert!(g.get_tile(h3).collidable);
    assert_eq!(g.tile_at(0, 0), Some(h0));
    assert_eq!(g.tile_at(1, 1), Some(h3));
    assert_eq!(g.index_at(h3), 3);
}

#[test]
fn bidirectional_index_on_generated_grid() {
    let g = dwarf_dungeon::build_map::generate(40, 30);
    for y in 0..30 {
        for x in 0..40 {
            let h = g.tile_at(x, y).expect("generated grids are fully occupied");
            assert_eq!(g.index_at(h), y * 40 + x);
        }
    }
}
