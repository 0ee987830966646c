use isocity::building::bundle::BuildingBundle;
use isocity::building::bundle::BuildingMarkerBundle;
use isocity::building::components::Building;
use isocity::building::components::BuildingTemplateMarker;
use isocity::building::components::BuildingType;
use isocity::building::components::CanBuild;
use isocity::building::components::CoveringTiles;
use isocity::cli::Args;
use isocity::grid::TilePos;
use isocity::resources::GlobalResources;
use isocity::AppState;

#[test]
fn the_theatre_of_the_catalogue() {
    let theatre = BuildingType::Theatre;
    assert_eq!(theatre.occupation(), 4);
    assert_eq!(theatre.cost(), 10);
    assert_eq!(theatre.name(), "Theatre");
    assert_eq!(theatre.size(), (2, 2));
    assert_eq!(theatre.sprite(), "buildings/theatre.png");
}

#[test]
fn a_new_preview_covers_nothing() {
    let preview = BuildingMarkerBundle::build_marker(BuildingType::Theatre);
    assert_eq!(preview.marker, BuildingTemplateMarker);
    assert_eq!(preview.marker_type, BuildingType::Theatre);
    assert_eq!(preview.can_build, CanBuild(false));
    assert_eq!(preview.covering_tiles, CoveringTiles(vec![]));
    assert_eq!(preview.anchor, None);
    assert_eq!(BuildingMarkerBundle::theatre(), preview);
}

#[test]
fn a_building_keeps_what_it_was_built_with() {
    let tiles = CoveringTiles(vec![TilePos { x: 5, y: 6 }, TilePos { x: 5, y: 7 }]);
    let building = BuildingBundle::build(BuildingType::Theatre, TilePos { x: 5, y: 6 }, tiles.clone());
    assert_eq!(building.building, Building);
    assert_eq!(building.building_type, BuildingType::Theatre);
    assert_eq!(building.position, TilePos { x: 5, y: 6 });
    assert_eq!(building.covering_tiles, tiles);
}

#[test]
fn a_city_starts_with_a_thousand_gold() {
    assert_eq!(GlobalResources::default().gold, 1000);
}

#[test]
fn the_options_of_an_empty_command_line() {
    let args = Args::default();
    assert_eq!(args.map, None);
    assert_eq!(args.tilemap_size, Some(32));
}

#[test]
fn the_app_starts_loading() {
    assert_eq!(AppState::default(), AppState::Loading);
}
