use isocity::building::bundle::BuildingBundle;
use isocity::building::bundle::BuildingMarkerBundle;
use isocity::building::check_buildable_status;
use isocity::building::components::BuildingSize;
use isocity::building::components::BuildingType;
use isocity::building::components::CanBuild;
use isocity::building::construct_building;
use isocity::building::region::covered_region;
use isocity::building::enable_building;
use isocity::building::region::position_is_in_region;
use isocity::building::update_building_cursor;
use isocity::building::template_offset_fits;
use isocity::building::placement::validate_placement;
use isocity::building::BuildableColor;
use isocity::building::BuildingEvent;
use isocity::building::BuildingMode;
use isocity::cursor::hover_tile;
use isocity::cursor::SelectedTile;
use isocity::grid::create_terrain_tilemap;
use isocity::grid::BuildingId;
use isocity::grid::Grid;
use isocity::grid::Level;
use isocity::grid::Occupied;
use isocity::grid::TerrainType;
use isocity::grid::TilePos;
use isocity::resources::GlobalResources;
use isocity::AppState;

fn grid_of(text: &str) -> Grid {
    let level = Level { map: text.to_string(), width: 4, height: 4 };
    let mut state = AppState::Loading;
    create_terrain_tilemap(&mut state, Some(&level)).expect("the level text is rectangular")
}

fn grass_4x4() -> Grid {
    grid_of("GGGG\nGGGG\nGGGG\nGGGG")
}

fn pos(x: u32, y: u32) -> TilePos {
    TilePos { x, y }
}

/// A city in building mode with a fresh theatre preview.
struct City {
    grid: Grid,
    resources: GlobalResources,
    buildings: Vec<BuildingBundle>,
    mode: BuildingMode,
    template: Option<BuildingMarkerBundle>,
}

fn city_on(grid: Grid, gold: i32) -> City {
    let mut mode = BuildingMode::Off;
    let mut template = None;
    enable_building(true, false, &mut mode, &mut template);
    City { grid, resources: GlobalResources { gold }, buildings: Vec::new(), mode, template }
}

fn check_at(city: &mut City, hovered: Option<TilePos>) {
    let template = city.template.as_mut().expect("a preview");
    check_buildable_status(&city.resources, &SelectedTile(hovered), template, &city.grid);
}

fn confirm(city: &mut City) -> Option<BuildingId> {
    construct_building(
        &mut city.grid,
        &mut city.resources,
        &mut city.buildings,
        &mut city.mode,
        &mut city.template,
    )
}

fn occupants(grid: &Grid) -> Vec<Option<BuildingId>> {
    let mut all = Vec::new();
    for x in 0..grid.width() {
        for y in 0..grid.height() {
            all.push(grid.tile(pos(x, y)).unwrap().occupied.0);
        }
    }
    all
}

#[test]
fn theatre_fits_on_open_grass() {
    let mut city = city_on(grass_4x4(), 1000);
    check_at(&mut city, Some(pos(0, 0)));
    let preview = city.template.as_ref().unwrap();
    assert!(preview.can_build.0);
    assert_eq!(preview.covering_tiles.0, vec![pos(0, 0), pos(0, 1), pos(1, 0), pos(1, 1)]);
    assert_eq!(preview.anchor, Some(pos(0, 0)));
    assert_eq!(preview.marker_type, BuildingType::Theatre);

    let built = confirm(&mut city);
    assert_eq!(built, Some(BuildingId(0)));
    assert_eq!(city.resources.gold, 990);
    for x in 0..4 {
        for y in 0..4 {
            let tile = city.grid.tile(pos(x, y)).unwrap();
            let expected = if x < 2 && y < 2 { Some(BuildingId(0)) } else { None };
            assert_eq!(tile.occupied, Occupied(expected));
            assert_eq!(tile.pos, pos(x, y));
            assert_eq!(tile.terrain.terrain_type, TerrainType::Grass);
        }
    }
    assert_eq!(city.mode, BuildingMode::Off);
    assert_eq!(city.template, None);
    assert_eq!(city.buildings.len(), 1);
    assert_eq!(city.buildings[0].building_type, BuildingType::Theatre);
    assert_eq!(city.buildings[0].position, pos(0, 0));
    assert_eq!(
        city.buildings[0].covering_tiles.0,
        vec![pos(0, 0), pos(0, 1), pos(1, 0), pos(1, 1)]
    );
}

#[test]
fn theatre_does_not_fit_over_the_edge() {
    let mut city = city_on(grass_4x4(), 1000);
    check_at(&mut city, Some(pos(3, 3)));
    let preview = city.template.as_ref().unwrap();
    assert!(!preview.can_build.0);
    assert_eq!(preview.covering_tiles.0, vec![pos(3, 3)]);
    assert_eq!(confirm(&mut city), None);
    assert_eq!(city.resources.gold, 1000);
    assert_eq!(city.mode, BuildingMode::On);
    assert!(city.template.is_some());
}

#[test]
fn theatre_half_over_the_edge_covers_what_exists() {
    let mut city = city_on(grass_4x4(), 1000);
    check_at(&mut city, Some(pos(3, 1)));
    let preview = city.template.as_ref().unwrap();
    assert!(!preview.can_build.0);
    assert_eq!(preview.covering_tiles.0, vec![pos(3, 1), pos(3, 2)]);
}

#[test]
fn too_little_gold_forbids_placement_whatever_the_terrain() {
    let mut city = city_on(grass_4x4(), 5);
    check_at(&mut city, Some(pos(0, 0)));
    let preview = city.template.as_ref().unwrap();
    assert!(!preview.can_build.0);
    assert!(preview.covering_tiles.0.is_empty());
    assert_eq!(confirm(&mut city), None);
    assert_eq!(city.resources.gold, 5);
    assert_eq!(occupants(&city.grid), vec![None; 16]);
}

#[test]
fn exactly_the_cost_is_enough() {
    let mut city = city_on(grass_4x4(), 10);
    check_at(&mut city, Some(pos(1, 1)));
    assert!(city.template.as_ref().unwrap().can_build.0);
    assert_eq!(confirm(&mut city), Some(BuildingId(0)));
    assert_eq!(city.resources.gold, 0);

    let mut poorer = city_on(grass_4x4(), 9);
    check_at(&mut poorer, Some(pos(1, 1)));
    assert!(!poorer.template.as_ref().unwrap().can_build.0);
}

#[test]
fn water_under_the_footprint_forbids_placement() {
    let mut city = city_on(grid_of("GGGG\nGRGG\nGGGG\nGGGG"), 1000);
    check_at(&mut city, Some(pos(0, 0)));
    let preview = city.template.as_ref().unwrap();
    assert!(!preview.can_build.0);
    assert_eq!(preview.covering_tiles.0, vec![pos(0, 0), pos(0, 1), pos(1, 0)]);
    assert_eq!(confirm(&mut city), None);
    assert_eq!(city.resources.gold, 1000);

    check_at(&mut city, Some(pos(2, 0)));
    assert!(city.template.as_ref().unwrap().can_build.0);
}

#[test]
fn no_hovered_tile_forbids_placement() {
    let mut city = city_on(grass_4x4(), 1000);
    check_at(&mut city, Some(pos(0, 0)));
    check_at(&mut city, None);
    let preview = city.template.as_ref().unwrap();
    assert!(!preview.can_build.0);
    assert!(preview.covering_tiles.0.is_empty());
    assert_eq!(preview.anchor, None);
    assert_eq!(confirm(&mut city), None);
}

#[test]
fn a_hovered_coordinate_off_the_grid_forbids_placement() {
    let mut city = city_on(grass_4x4(), 1000);
    check_at(&mut city, Some(pos(7, 0)));
    let preview = city.template.as_ref().unwrap();
    assert!(!preview.can_build.0);
    assert!(preview.covering_tiles.0.is_empty());
}

#[test]
fn checking_twice_changes_nothing() {
    let mut city = city_on(grid_of("GGGG\nGGRG\nGGGG\nGGGG"), 1000);
    for hovered in [Some(pos(0, 0)), Some(pos(0, 1)), Some(pos(3, 3)), None] {
        check_at(&mut city, hovered);
        let once = city.template.clone();
        check_at(&mut city, hovered);
        assert_eq!(city.template, once);
    }
}

#[test]
fn an_unchecked_preview_cannot_be_built() {
    let mut city = city_on(grass_4x4(), 1000);
    assert_eq!(confirm(&mut city), None);
    assert_eq!(city.resources.gold, 1000);
    assert_eq!(city.mode, BuildingMode::On);
}

#[test]
fn without_a_preview_a_confirmation_does_nothing() {
    let mut city = city_on(grass_4x4(), 1000);
    city.template = None;
    city.mode = BuildingMode::Off;
    assert_eq!(confirm(&mut city), None);
    assert_eq!(city.resources.gold, 1000);
    assert_eq!(city.mode, BuildingMode::Off);
    assert!(city.buildings.is_empty());
}

#[test]
fn a_stale_preview_is_rejected_without_any_change() {
    let mut city = city_on(grass_4x4(), 1000);
    check_at(&mut city, Some(pos(1, 1)));
    let stale = city.template.clone();
    assert!(stale.as_ref().unwrap().can_build.0);
    assert_eq!(confirm(&mut city), Some(BuildingId(0)));

    // Another preview, checked before that building stood, overlaps it in (1, 1).
    let mut overlapping = BuildingMarkerBundle::theatre();
    overlapping.can_build = CanBuild(true);
    overlapping.anchor = Some(pos(0, 0));
    overlapping.covering_tiles.0 = vec![pos(0, 0), pos(0, 1), pos(1, 0), pos(1, 1)];
    for preview in [stale.unwrap(), overlapping] {
        city.mode = BuildingMode::On;
        city.template = Some(preview.clone());
        let before = occupants(&city.grid);
        assert_eq!(confirm(&mut city), None);
        assert_eq!(occupants(&city.grid), before);
        assert_eq!(city.resources.gold, 990);
        assert_eq!(city.buildings.len(), 1);
        assert_eq!(city.mode, BuildingMode::On);
        assert_eq!(city.template, Some(preview));
    }
}

#[test]
fn gold_spent_after_the_check_stops_the_construction() {
    let mut city = city_on(grass_4x4(), 15);
    check_at(&mut city, Some(pos(0, 0)));
    assert!(city.template.as_ref().unwrap().can_build.0);
    city.resources.gold = 9;
    assert_eq!(confirm(&mut city), None);
    assert_eq!(city.resources.gold, 9);
    assert_eq!(occupants(&city.grid), vec![None; 16]);
}

#[test]
fn a_second_theatre_goes_beside_the_first() {
    let mut city = city_on(grass_4x4(), 1000);
    check_at(&mut city, Some(pos(0, 0)));
    assert_eq!(confirm(&mut city), Some(BuildingId(0)));

    enable_building(true, false, &mut city.mode, &mut city.template);
    check_at(&mut city, Some(pos(1, 1)));
    let preview = city.template.as_ref().unwrap();
    assert!(!preview.can_build.0);
    assert_eq!(preview.covering_tiles.0, vec![pos(1, 2), pos(2, 1), pos(2, 2)]);

    check_at(&mut city, Some(pos(2, 2)));
    assert_eq!(confirm(&mut city), Some(BuildingId(1)));
    assert_eq!(city.resources.gold, 980);
    assert_eq!(city.grid.tile(pos(3, 3)).unwrap().occupied, Occupied(Some(BuildingId(1))));
    assert_eq!(city.grid.tile(pos(1, 1)).unwrap().occupied, Occupied(Some(BuildingId(0))));
    assert_eq!(city.grid.tile(pos(1, 2)).unwrap().occupied, Occupied(None));
    assert_eq!(city.buildings[1].position, pos(2, 2));
}

#[test]
fn the_region_is_the_rectangle_cut_to_the_grid() {
    let grid = grass_4x4();
    assert_eq!(
        covered_region(&grid, pos(1, 2), BuildingSize((3, 1))),
        vec![pos(1, 2), pos(2, 2), pos(3, 2)]
    );
    assert_eq!(
        covered_region(&grid, pos(2, 3), BuildingSize((5, 5))),
        vec![pos(2, 3), pos(3, 3)]
    );
    assert_eq!(covered_region(&grid, pos(4, 0), BuildingSize((2, 2))), vec![]);
    assert_eq!(covered_region(&grid, pos(0, 0), BuildingSize((0, 3))), vec![]);
    assert_eq!(covered_region(&grid, pos(u32::MAX, u32::MAX), BuildingSize((u32::MAX, 2))), vec![]);
    let whole = covered_region(&grid, pos(0, 0), BuildingSize((u32::MAX, u32::MAX)));
    assert_eq!(whole.len(), 16);
    assert_eq!(whole[5], pos(1, 1));
}

#[test]
fn any_footprint_is_allowed_exactly_on_free_tiles() {
    let grid = grid_of("GGGG\nGGGR\nGGGG\nGGGG");
    let (can, cover) = validate_placement(&grid, 0, Some(pos(0, 0)), BuildingSize((4, 3)), 0);
    assert_eq!(can, CanBuild(true));
    assert_eq!(cover.0.len(), 12);
    let (can, cover) = validate_placement(&grid, 0, Some(pos(0, 0)), BuildingSize((4, 4)), 0);
    assert_eq!(can, CanBuild(false));
    assert_eq!(cover.0.len(), 15);
    assert!(!cover.0.contains(&pos(1, 3)));
    let (can, cover) = validate_placement(&grid, 0, Some(pos(0, 1)), BuildingSize((4, 4)), 0);
    assert_eq!(can, CanBuild(false));
    assert_eq!(cover.0.len(), 11);
    let (can, _) = validate_placement(&grid, -1, Some(pos(0, 0)), BuildingSize((1, 1)), 0);
    assert_eq!(can, CanBuild(false));
    let (can, _) = validate_placement(&grid, i32::MAX, Some(pos(0, 0)), BuildingSize((1, 1)), u32::MAX);
    assert_eq!(can, CanBuild(false));
}

#[test]
fn a_footprint_without_tiles_is_allowed_where_a_tile_is_hovered() {
    let grid = grass_4x4();
    let (can, cover) = validate_placement(&grid, 0, Some(pos(9, 9)), BuildingSize((0, 2)), 0);
    assert_eq!(can, CanBuild(true));
    assert!(cover.0.is_empty());
    let (can, _) = validate_placement(&grid, 0, None, BuildingSize((0, 2)), 0);
    assert_eq!(can, CanBuild(false));
}

#[test]
fn positions_in_a_region() {
    let start = pos(2, 3);
    assert!(position_is_in_region(&start, 2, 2, &pos(2, 3)));
    assert!(position_is_in_region(&start, 2, 2, &pos(3, 4)));
    assert!(!position_is_in_region(&start, 2, 2, &pos(4, 3)));
    assert!(!position_is_in_region(&start, 2, 2, &pos(2, 5)));
    assert!(!position_is_in_region(&start, 2, 2, &pos(1, 3)));
    assert!(!position_is_in_region(&start, 2, 2, &pos(2, 2)));
    assert!(!position_is_in_region(&start, 0, 2, &pos(2, 3)));
    let corner = pos(u32::MAX, u32::MAX);
    assert!(position_is_in_region(&corner, 1, 1, &corner));
    assert!(position_is_in_region(&pos(u32::MAX - 1, 0), u32::MAX, 1, &pos(u32::MAX, 0)));
}

#[test]
fn keys_enter_and_leave_the_building_mode() {
    let mut mode = BuildingMode::default();
    let mut template = None;
    assert_eq!(mode, BuildingMode::Off);

    enable_building(false, false, &mut mode, &mut template);
    assert_eq!((mode, template.clone()), (BuildingMode::Off, None));

    enable_building(true, false, &mut mode, &mut template);
    assert_eq!(mode, BuildingMode::On);
    let preview = template.clone().unwrap();
    assert_eq!(preview.marker_type, BuildingType::Theatre);
    assert_eq!(preview.can_build, CanBuild(false));
    assert!(preview.covering_tiles.0.is_empty());
    assert_eq!(preview.anchor, None);

    // Pressing the build key again starts the preview over.
    let grid = grass_4x4();
    let gold = GlobalResources { gold: 100 };
    check_buildable_status(&gold, &SelectedTile(Some(pos(0, 0))), template.as_mut().unwrap(), &grid);
    assert!(template.as_ref().unwrap().can_build.0);
    enable_building(true, true, &mut mode, &mut template);
    assert_eq!(mode, BuildingMode::On);
    assert_eq!(template, Some(BuildingMarkerBundle::theatre()));

    enable_building(false, true, &mut mode, &mut template);
    assert_eq!((mode, template.clone()), (BuildingMode::Off, None));
    enable_building(false, true, &mut mode, &mut template);
    assert_eq!((mode, template), (BuildingMode::Off, None));
}

#[test]
fn the_mode_has_no_other_transitions() {
    for from in [BuildingMode::Off, BuildingMode::On] {
        assert_eq!(from.transition(BuildingEvent::Enter), BuildingMode::On);
        assert_eq!(from.transition(BuildingEvent::Cancel), BuildingMode::Off);
        assert_eq!(from.transition(BuildingEvent::Built), BuildingMode::Off);
    }
}

#[test]
fn cancelling_leaves_grid_and_gold_alone() {
    let mut city = city_on(grass_4x4(), 1000);
    check_at(&mut city, Some(pos(0, 0)));
    enable_building(false, true, &mut city.mode, &mut city.template);
    assert_eq!(city.mode, BuildingMode::Off);
    assert_eq!(city.template, None);
    assert_eq!(city.resources.gold, 1000);
    assert_eq!(occupants(&city.grid), vec![None; 16]);
}

#[test]
fn the_preview_is_drawn_green_or_red_on_the_hovered_tile() {
    let mut city = city_on(grass_4x4(), 1000);
    check_at(&mut city, Some(pos(0, 0)));
    let shown = update_building_cursor(&SelectedTile(Some(pos(0, 0))), 4, &city.template).unwrap();
    assert_eq!(shown.tile, pos(0, 0));
    assert_eq!(shown.left, 64);
    assert_eq!(shown.up, 16);
    assert_eq!(shown.color, BuildableColor::Green);

    check_at(&mut city, Some(pos(3, 3)));
    let shown = update_building_cursor(&SelectedTile(Some(pos(3, 3))), 32, &city.template).unwrap();
    assert_eq!(shown.tile, pos(3, 3));
    assert_eq!(shown.left, 960);
    assert_eq!(shown.color, BuildableColor::Red);

    assert_eq!(update_building_cursor(&SelectedTile(None), 4, &city.template), None);
    assert_eq!(update_building_cursor(&SelectedTile(Some(pos(0, 0))), 4, &None), None);
    assert_eq!(BuildableColor::default(), BuildableColor::Green);
}

#[test]
fn the_preview_offset_needs_a_level_of_two_tiles() {
    assert!(!template_offset_fits(0));
    assert!(!template_offset_fits(1));
    assert!(template_offset_fits(2));
    assert!(template_offset_fits(3));
    assert!(template_offset_fits(134_217_729));
    assert!(!template_offset_fits(134_217_730));
    assert!(!template_offset_fits(u32::MAX));
    let preview = Some(BuildingMarkerBundle::theatre());
    let shown = update_building_cursor(&SelectedTile(Some(pos(0, 0))), 2, &preview).unwrap();
    assert_eq!(shown.left, 0);
    let shown = update_building_cursor(&SelectedTile(Some(pos(0, 0))), 134_217_729, &preview).unwrap();
    assert_eq!(shown.left, 4_294_967_232);
}

#[test]
fn hovering_selects_tiles_of_the_grid_only() {
    let grid = grass_4x4();
    let mut selected = SelectedTile::default();
    assert_eq!(selected, SelectedTile(None));
    hover_tile(&grid, Some(pos(2, 3)), &mut selected);
    assert_eq!(selected, SelectedTile(Some(pos(2, 3))));
    hover_tile(&grid, None, &mut selected);
    assert_eq!(selected, SelectedTile(Some(pos(2, 3))));
    hover_tile(&grid, Some(pos(4, 0)), &mut selected);
    assert_eq!(selected, SelectedTile(None));
    hover_tile(&grid, None, &mut selected);
    assert_eq!(selected, SelectedTile(None));
    hover_tile(&grid, Some(pos(0, 0)), &mut selected);
    assert_eq!(selected, SelectedTile(Some(pos(0, 0))));
}
