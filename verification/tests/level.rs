use isocity::grid::create_terrain_tilemap;
use isocity::grid::parse_terrain;
use isocity::grid::Grid;
use isocity::grid::Level;
use isocity::grid::Occupied;
use isocity::grid::Terrain;
use isocity::grid::TerrainType;
use isocity::grid::Tile;
use isocity::grid::TilePos;
use isocity::grid::TILE_H;
use isocity::grid::TILE_W;
use isocity::AppState;

fn grass() -> Terrain {
    Terrain { terrain_type: TerrainType::Grass, is_buildable: true }
}

fn water() -> Terrain {
    Terrain { terrain_type: TerrainType::Water, is_buildable: false }
}

fn level(text: &str) -> Level {
    Level { map: text.to_string(), width: 2, height: 3 }
}

#[test]
fn the_kinds_of_terrain() {
    assert_eq!(Terrain::create_grass(), grass());
    assert_eq!(Terrain::create_water(), water());
    assert_eq!(Terrain::default(), grass());
    assert_eq!(Terrain::from_char('G'), grass());
    assert_eq!(Terrain::from_char('R'), water());
    assert_eq!(Terrain::from_char('M'), grass());
    assert_eq!(Terrain::from_char('r'), grass());
    assert_eq!(Terrain::from_char(' '), grass());
    assert_eq!(TerrainType::Grass.texture_index(), 0);
    assert_eq!(TerrainType::Water.texture_index(), 1);
    assert_eq!((TILE_W, TILE_H), (64, 32));
}

#[test]
fn a_level_text_is_read_line_by_line() {
    assert_eq!(parse_terrain("GR\nRG"), vec![vec![grass(), water()], vec![water(), grass()]]);
    assert_eq!(parse_terrain("GR\nRG\n"), vec![vec![grass(), water()], vec![water(), grass()]]);
    assert_eq!(parse_terrain("GR\r\nRG\r\n"), vec![vec![grass(), water()], vec![water(), grass()]]);
    assert_eq!(parse_terrain(""), Vec::<Vec<Terrain>>::new());
    assert_eq!(parse_terrain("\n"), vec![Vec::<Terrain>::new()]);
    assert_eq!(parse_terrain("R\n\nR"), vec![vec![water()], vec![], vec![water()]]);
    assert_eq!(parse_terrain("\n\n"), vec![Vec::<Terrain>::new(), vec![]]);
    // A carriage return that no line feed follows is a character of the line.
    assert_eq!(parse_terrain("R\r"), vec![vec![water(), grass()]]);
    assert_eq!(parse_terrain("R\rR\n"), vec![vec![water(), grass(), water()]]);
    assert_eq!(parse_terrain("R\r\r\nG"), vec![vec![water(), grass()], vec![grass()]]);
    assert_eq!(parse_terrain("R\u{00e9}R"), vec![vec![water(), grass(), water()]]);
}

#[test]
fn a_level_text_reads_as_its_lines_do() {
    for text in ["", "G", "GR\nRG", "GR\r\nRG\r\n", "\n\nR\r", "R\r\n\r\n", "x\ny\n\nz"] {
        let rows: Vec<Vec<Terrain>> =
            text.lines().map(|line| line.chars().map(Terrain::from_char).collect()).collect();
        assert_eq!(parse_terrain(text), rows);
    }
}

#[test]
fn the_grid_has_a_tile_for_each_character() {
    let mut state = AppState::Loading;
    let grid = create_terrain_tilemap(&mut state, Some(&level("GRG\nRGX"))).unwrap();
    assert_eq!(state, AppState::Level);
    assert_eq!(grid.width(), 2);
    assert_eq!(grid.height(), 3);
    let expected = [[grass(), water(), grass()], [water(), grass(), grass()]];
    for x in 0..2 {
        for y in 0..3 {
            let pos = TilePos { x, y };
            assert!(grid.contains(pos));
            assert_eq!(
                grid.tile(pos),
                Some(Tile {
                    pos,
                    terrain: expected[x as usize][y as usize],
                    occupied: Occupied(None)
                })
            );
        }
    }
    assert!(!grid.contains(TilePos { x: 2, y: 0 }));
    assert!(!grid.contains(TilePos { x: 0, y: 3 }));
    assert_eq!(grid.tile(TilePos { x: 2, y: 0 }), None);
    assert_eq!(grid.tile(TilePos { x: u32::MAX, y: u32::MAX }), None);
}

#[test]
fn longer_lines_are_cut_to_the_first() {
    let mut state = AppState::Loading;
    let grid = create_terrain_tilemap(&mut state, Some(&level("GG\nRRRR\nGGR"))).unwrap();
    assert_eq!((grid.width(), grid.height()), (3, 2));
    assert_eq!(grid.tile(TilePos { x: 1, y: 1 }).unwrap().terrain, water());
    assert_eq!(grid.tile(TilePos { x: 2, y: 1 }).unwrap().terrain, grass());
    assert_eq!(grid.tile(TilePos { x: 2, y: 2 }), None);
}

#[test]
fn a_shorter_line_gives_no_grid() {
    let mut state = AppState::Loading;
    assert!(create_terrain_tilemap(&mut state, Some(&level("GGG\nGG\nGGG"))).is_none());
    assert_eq!(state, AppState::Loading);
    assert!(create_terrain_tilemap(&mut state, Some(&level("G\n\nG"))).is_none());
    assert!(Grid::from_rows(&vec![vec![grass(), grass()], vec![grass()]]).is_none());
    assert!(Grid::from_rows(&vec![vec![grass()], vec![grass(), water()]]).is_some());
}

#[test]
fn no_level_gives_no_grid() {
    let mut state = AppState::Loading;
    assert!(create_terrain_tilemap(&mut state, None).is_none());
    assert_eq!(state, AppState::Loading);
    let mut playing = AppState::Level;
    assert!(create_terrain_tilemap(&mut playing, None).is_none());
    assert_eq!(playing, AppState::Level);
}

#[test]
fn an_empty_text_gives_an_empty_grid() {
    let mut state = AppState::Loading;
    let grid = create_terrain_tilemap(&mut state, Some(&level(""))).unwrap();
    assert_eq!(state, AppState::Level);
    assert_eq!((grid.width(), grid.height()), (0, 0));
    assert_eq!(grid.tile(TilePos { x: 0, y: 0 }), None);

    let lines_without_tiles = create_terrain_tilemap(&mut state, Some(&level("\n\n"))).unwrap();
    assert_eq!((lines_without_tiles.width(), lines_without_tiles.height()), (2, 0));
    assert!(!lines_without_tiles.contains(TilePos { x: 0, y: 0 }));
}
