//! Placing buildings: the preview under the cursor, its check against the grid
//! and the ledger, the construction step and the wages.

pub mod bundle;
pub mod components;
pub mod placement;
pub mod region;

use vstd::prelude::*;
use crate::building::bundle::BuildingBundle;
use crate::building::bundle::BuildingMarkerBundle;
use crate::building::components::BuildingSize;
use crate::building::components::BuildingType;
use crate::building::components::CanBuild;
use crate::building::placement::lemma_placement_cover;
use crate::building::placement::placement_allowed;
use crate::building::placement::placement_cover;
use crate::building::placement::qualifies;
use crate::building::placement::validate_placement;
use crate::cursor::SelectedTile;
use crate::grid::BuildingId;
use crate::grid::Grid;
use crate::grid::Occupied;
use crate::grid::Tile;
use crate::grid::TilePos;
use crate::grid::TILE_H;
use crate::grid::TILE_W;
use crate::resources::GlobalResources;
use crate::time::GameTimer;
use crate::time::TimeState;

verus! {

/// Whether the player is placing a building.
#[derive(Debug, Clone, Copy, Eq, PartialEq, Hash, Structural)]
pub enum BuildingMode {
    Off,
    On,
}

impl Default for BuildingMode {
    fn default() -> (r: BuildingMode)
        ensures
            r == BuildingMode::Off,
    {
        BuildingMode::Off
    }
}

/// What can change the building mode.
#[derive(Debug, Clone, Copy, Eq, PartialEq, Hash, Structural)]
pub enum BuildingEvent {
    /// The player asks to place a building.
    Enter,
    /// The player gives up placing.
    Cancel,
    /// The previewed building has been built.
    Built,
}

impl BuildingMode {
    /// The mode after an event: asking to place a building turns the mode on,
    /// and giving up or having built turns it off.
    pub open spec fn spec_transition(self, event: BuildingEvent) -> BuildingMode {
        match event {
            BuildingEvent::Enter => BuildingMode::On,
            BuildingEvent::Cancel => BuildingMode::Off,
            BuildingEvent::Built => BuildingMode::Off,
        }
    }

    /// The mode after an event.
    pub fn transition(self, event: BuildingEvent) -> (r: BuildingMode)
        ensures
            r == self.spec_transition(event),
    {
        match event {
            BuildingEvent::Enter => BuildingMode::On,
            BuildingEvent::Cancel => BuildingMode::Off,
            BuildingEvent::Built => BuildingMode::Off,
        }
    }
}

/// The colour in which a preview is shown.
#[derive(Debug, Clone, Copy, Eq, PartialEq, Hash, Structural)]
pub enum BuildableColor {
    Green,
    Red,
}

impl Default for BuildableColor {
    fn default() -> (r: BuildableColor)
        ensures
            r == BuildableColor::Green,
    {
        BuildableColor::Green
    }
}

impl BuildableColor {
    /// Green for a preview that may be built, red for one that may not.
    pub open spec fn of(can_build: CanBuild) -> BuildableColor {
        if can_build.0 {
            BuildableColor::Green
        } else {
            BuildableColor::Red
        }
    }
}

/// Whether the preview and the mode agree: there is a preview exactly while the
/// building mode is on.
pub open spec fn preview_matches_mode(
    building_mode: BuildingMode,
    template: Option<BuildingMarkerBundle>,
) -> bool {
    template is Some <==> building_mode == BuildingMode::On
}

/// Enters or leaves the building mode on a key: the build key turns the mode on
/// and replaces any preview by a new preview of a theatre; else the cancel key
/// turns the mode off and discards the preview; else nothing changes.
pub fn enable_building(
    build_pressed: bool,
    cancel_pressed: bool,
    building_mode: &mut BuildingMode,
    template: &mut Option<BuildingMarkerBundle>,
)
    ensures
        build_pressed ==> *final(building_mode) == old(building_mode).spec_transition(
            BuildingEvent::Enter,
        ) && (*final(template) matches Some(t) && t.is_new(BuildingType::Theatre)),
        !build_pressed && cancel_pressed ==> *final(building_mode) == old(
            building_mode,
        ).spec_transition(BuildingEvent::Cancel) && *final(template) is None,
        !build_pressed && !cancel_pressed ==> *final(building_mode) == *old(building_mode)
            && *final(template) == *old(template),
        preview_matches_mode(*old(building_mode), *old(template)) ==> preview_matches_mode(
            *final(building_mode),
            *final(template),
        ),
{
    if build_pressed {
        *building_mode = building_mode.transition(BuildingEvent::Enter);
        *template = Some(BuildingMarkerBundle::theatre());
    } else if cancel_pressed {
        *building_mode = building_mode.transition(BuildingEvent::Cancel);
        *template = None;
    }
}

/// Whether `after` is the preview `before` once it has been checked against the
/// grid, the gold and the hovered tile: it keeps its type, remembers the hovered
/// tile, and holds the verdict and the tiles that the validation gives for the
/// footprint and the cost of its type.
pub open spec fn is_checked(
    after: &BuildingMarkerBundle,
    before: &BuildingMarkerBundle,
    grid: &Grid,
    gold: i32,
    hovered: Option<TilePos>,
) -> bool {
    let size = before.marker_type.spec_size();
    let cost = before.marker_type.spec_cost();
    &&& after.marker_type == before.marker_type
    &&& after.anchor == hovered
    &&& after.can_build.0 == placement_allowed(grid, gold, hovered, size, cost)
    &&& after.covering_tiles.0@ == placement_cover(grid, gold, hovered, size, cost)
}

/// Checks the preview against the grid, the gold and the hovered tile. Neither
/// the grid nor the gold is changed.
pub fn check_buildable_status(
    resources: &GlobalResources,
    selected_tile: &SelectedTile,
    template: &mut BuildingMarkerBundle,
    grid: &Grid,
)
    requires
        grid.wf(),
    ensures
        is_checked(final(template), old(template), grid, resources.gold, selected_tile.0),
{
    let building_type = template.marker_type;
    let size = BuildingSize(building_type.size());
    let (can_build, possible_tiles) = validate_placement(
        grid,
        resources.gold,
        selected_tile.0,
        size,
        building_type.cost(),
    );
    template.can_build = can_build;
    template.covering_tiles = possible_tiles;
    template.anchor = selected_tile.0;
}

/// Checking a preview twice while nothing else changes gives the same verdict
/// and the same tiles as checking it once.
pub proof fn lemma_check_is_idempotent(
    before: &BuildingMarkerBundle,
    once: &BuildingMarkerBundle,
    twice: &BuildingMarkerBundle,
    grid: &Grid,
    gold: i32,
    hovered: Option<TilePos>,
)
    requires
        is_checked(once, before, grid, gold, hovered),
        is_checked(twice, once, grid, gold, hovered),
    ensures
        twice.can_build == once.can_build,
        twice.covering_tiles.0@ == once.covering_tiles.0@,
        twice.anchor == once.anchor,
        twice.marker_type == once.marker_type,
{
}

/// Where and how the preview is drawn: the tile it is anchored to, how far it is
/// moved left and up from that tile's centre, in pixels, and its colour.
#[derive(Debug, Clone, Copy, Eq, PartialEq)]
pub struct TemplatePlacement {
    pub tile: TilePos,
    pub left: u32,
    pub up: u32,
    pub color: BuildableColor,
}

/// How far the preview is moved left on a level of the given width, in pixels.
pub open spec fn template_left(level_width: u32) -> int {
    TILE_W * (level_width / 2 - 1)
}

/// Says where and how to draw the preview: on the hovered tile, moved by the
/// level's offset, green if it may be built and red if not. Without a hovered
/// tile or without a preview nothing is to be drawn anew.
pub fn update_building_cursor(
    selected_tile: &SelectedTile,
    level_width: u32,
    template: &Option<BuildingMarkerBundle>,
) -> (r: Option<TemplatePlacement>)
    requires
        selected_tile.0 is Some && template is Some ==> 0 <= template_left(level_width)
            <= u32::MAX,
    ensures
        r is Some <==> selected_tile.0 is Some && template is Some,
        r matches Some(shown) ==> {
            &&& shown.tile == selected_tile.0->0
            &&& shown.left == template_left(level_width)
            &&& shown.up == TILE_H / 2
            &&& shown.color == BuildableColor::of(template->0.can_build)
        },
{
    match (selected_tile.0, template) {
        (Some(tile), Some(preview)) => {
            let color = if preview.can_build.0 {
                BuildableColor::Green
            } else {
                BuildableColor::Red
            };
            Some(
                TemplatePlacement {
                    tile,
                    left: TILE_W * ((level_width / 2) - 1),
                    up: TILE_H / 2,
                    color,
                },
            )
        },
        _ => None,
    }
}

/// Whether the preview's offset can be computed for a level of this width: the
/// width is at least 2, and small enough for the offset to fit.
pub fn template_offset_fits(level_width: u32) -> (r: bool)
    ensures
        r == (0 <= template_left(level_width) <= u32::MAX),
{
    level_width >= 2 && level_width / 2 - 1 <= u32::MAX / TILE_W
}

/// The tiles after building `id` has been put on the coordinates of `cover`:
/// their tiles are occupied by it, and all else is as before.
pub open spec fn occupied_by(tiles: Map<TilePos, Tile>, cover: Seq<TilePos>, id: BuildingId) -> Map<
    TilePos,
    Tile,
> {
    Map::new(
        |p: TilePos| tiles.contains_key(p),
        |p: TilePos|
            if cover.contains(p) {
                Tile { pos: tiles[p].pos, terrain: tiles[p].terrain, occupied: Occupied(Some(id)) }
            } else {
                tiles[p]
            },
    )
}

/// Whether the grid and the list of buildings agree: the building on an
/// occupied tile is in the list and covers that tile, and every tile that a
/// building of the list covers is occupied by it.
pub open spec fn buildings_stand(tiles: Map<TilePos, Tile>, buildings: Seq<BuildingBundle>) -> bool {
    &&& forall|p: TilePos|
        tiles.contains_key(p) && (#[trigger] tiles[p]).occupied.0 is Some ==> {
            let id = tiles[p].occupied.0->0;
            id.0 < buildings.len() && buildings[id.0 as int].covering_tiles.0@.contains(p)
        }
    &&& forall|i: int, p: TilePos|
        0 <= i < buildings.len() && #[trigger] buildings[i].covering_tiles.0@.contains(p)
            ==> tiles.contains_key(p) && tiles[p].occupied.0 == Some(BuildingId(i as usize))
}

/// Whether a confirmation builds the previewed building: there is a preview, it
/// was found buildable when it was last checked, and it still is on the grid and
/// with the gold of this moment.
pub open spec fn can_construct(
    grid: &Grid,
    gold: i32,
    template: Option<BuildingMarkerBundle>,
) -> bool {
    &&& template matches Some(preview)
    &&& preview.can_build.0
    &&& placement_allowed(
        grid,
        gold,
        preview.anchor,
        preview.marker_type.spec_size(),
        preview.marker_type.spec_cost(),
    )
}

/// The tiles on which a confirmation puts the previewed building.
pub open spec fn construction_site(
    grid: &Grid,
    gold: i32,
    template: Option<BuildingMarkerBundle>,
) -> Seq<TilePos> {
    let preview = template->0;
    placement_cover(
        grid,
        gold,
        preview.anchor,
        preview.marker_type.spec_size(),
        preview.marker_type.spec_cost(),
    )
}

/// A preview that was found buildable is built by a confirmation, on the tiles
/// it covers, as long as the grid and the gold are those it was checked against.
pub proof fn lemma_checked_preview_is_built(
    before: &BuildingMarkerBundle,
    checked: &BuildingMarkerBundle,
    grid: &Grid,
    gold: i32,
    hovered: Option<TilePos>,
)
    requires
        is_checked(checked, before, grid, gold, hovered),
    ensures
        can_construct(grid, gold, Some(*checked)) <==> checked.can_build.0,
        construction_site(grid, gold, Some(*checked)) == checked.covering_tiles.0@,
{
}

proof fn lemma_construction_keeps_record(
    tiles: Map<TilePos, Tile>,
    buildings: Seq<BuildingBundle>,
    tiles_after: Map<TilePos, Tile>,
    buildings_after: Seq<BuildingBundle>,
    site: Seq<TilePos>,
)
    requires
        buildings_stand(tiles, buildings),
        forall|p: TilePos| #[trigger] site.contains(p) ==> qualifies(tiles, p),
        buildings.len() <= usize::MAX,
        tiles_after == occupied_by(tiles, site, BuildingId(buildings.len() as usize)),
        buildings_after.len() == buildings.len() + 1,
        buildings_after.take(buildings.len() as int) == buildings,
        buildings_after[buildings.len() as int].covering_tiles.0@ == site,
    ensures
        buildings_stand(tiles_after, buildings_after),
{
    let n = buildings.len() as int;
    assert forall|i: int| 0 <= i < n implies buildings_after[i] == buildings[i] by {
        assert(buildings_after.take(n)[i] == buildings_after[i]);
    }
    assert forall|p: TilePos|
        tiles_after.contains_key(p) && (#[trigger] tiles_after[p]).occupied.0 is Some implies {
        let id = tiles_after[p].occupied.0->0;
        id.0 < buildings_after.len() && buildings_after[id.0 as int].covering_tiles.0@.contains(p)
    } by {
        if !site.contains(p) {
            assert(tiles[p].occupied.0 is Some);
        }
    }
    assert forall|i: int, p: TilePos|
        0 <= i < buildings_after.len() && #[trigger] buildings_after[i].covering_tiles.0@.contains(
            p,
        ) implies tiles_after.contains_key(p) && tiles_after[p].occupied.0 == Some(
        BuildingId(i as usize),
    ) by {
        if i < n {
            assert(buildings[i].covering_tiles.0@.contains(p));
            assert(!site.contains(p));
        }
    }
}

/// Builds the previewed building on a confirmation, or does nothing at all.
///
/// It builds if `can_construct` holds: the new building joins the list of
/// buildings, its tiles become occupied by it, its cost leaves the ledger, the
/// preview is discarded and the building mode ends. Otherwise the grid, the
/// ledger, the buildings, the preview and the mode stay as they are.
pub fn construct_building(
    grid: &mut Grid,
    resources: &mut GlobalResources,
    buildings: &mut Vec<BuildingBundle>,
    building_mode: &mut BuildingMode,
    template: &mut Option<BuildingMarkerBundle>,
) -> (built: Option<BuildingId>)
    requires
        old(grid).wf(),
    ensures
        final(grid).wf(),
        final(grid).spec_width() == old(grid).spec_width(),
        final(grid).spec_height() == old(grid).spec_height(),
        built is Some <==> can_construct(old(grid), old(resources).gold, *old(template)),
        built matches Some(id) ==> {
            let preview = old(template)->0;
            let site = construction_site(old(grid), old(resources).gold, *old(template));
            &&& id.0 == old(buildings)@.len()
            &&& final(buildings)@.len() == old(buildings)@.len() + 1
            &&& final(buildings)@.take(id.0 as int) == old(buildings)@
            &&& final(buildings)@[id.0 as int].building_type == preview.marker_type
            &&& final(buildings)@[id.0 as int].position == preview.anchor->0
            &&& final(buildings)@[id.0 as int].covering_tiles.0@ == site
            &&& final(grid)@ == occupied_by(old(grid)@, site, id)
            &&& final(resources).gold == old(resources).gold - preview.marker_type.spec_cost()
            &&& *final(building_mode) == old(building_mode).spec_transition(BuildingEvent::Built)
            &&& *final(template) is None
        },
        built is None ==> {
            &&& *final(grid) == *old(grid)
            &&& *final(resources) == *old(resources)
            &&& *final(buildings) == *old(buildings)
            &&& *final(building_mode) == *old(building_mode)
            &&& *final(template) == *old(template)
        },
        preview_matches_mode(*old(building_mode), *old(template)) ==> preview_matches_mode(
            *final(building_mode),
            *final(template),
        ),
        buildings_stand(old(grid)@, old(buildings)@) ==> buildings_stand(
            final(grid)@,
            final(buildings)@,
        ),
{
    let (flag, building_type, hovered) = match template {
        Some(preview) => (preview.can_build.0, preview.marker_type, preview.anchor),
        None => {
            return None;
        },
    };
    if !flag {
        return None;
    }
    let size = BuildingSize(building_type.size());
    let cost = building_type.cost();
    let (can_build, covering_tiles) = validate_placement(grid, resources.gold, hovered, size, cost);
    if !can_build.0 {
        return None;
    }
    let anchor = match hovered {
        Some(anchor) => anchor,
        None => {
            return None;
        },
    };
    let id = BuildingId(buildings.len());
    let ghost site = covering_tiles.0@;
    proof {
        lemma_placement_cover(grid, resources.gold, hovered, size, cost);
        assert(occupied_by(grid@, site.take(0), id) =~= grid@);
    }
    let mut i: usize = 0;
    while i < covering_tiles.0.len()
        invariant
            i <= covering_tiles.0@.len(),
            site == covering_tiles.0@,
            site.no_duplicates(),
            forall|p: TilePos| #[trigger] site.contains(p) ==> qualifies(old(grid)@, p),
            old(grid).wf(),
            grid.wf(),
            grid.spec_width() == old(grid).spec_width(),
            grid.spec_height() == old(grid).spec_height(),
            grid@ == occupied_by(old(grid)@, site.take(i as int), id),
        decreases covering_tiles.0@.len() - i,
    {
        let pos = covering_tiles.0[i];
        proof {
            assert(site.contains(pos));
            assert(!site.take(i as int).contains(pos));
        }
        let ghost tiles = grid@;
        grid.occupy(pos, id);
        proof {
            let done = site.take(i as int);
            let next = site.take(i + 1);
            assert forall|p: TilePos| next.contains(p) <==> (done.contains(p) || p == pos) by {
                if next.contains(p) {
                    let j = choose|j: int| 0 <= j < next.len() && next[j] == p;
                    if j < i {
                        assert(done[j] == p);
                    }
                }
                if done.contains(p) {
                    let j = choose|j: int| 0 <= j < done.len() && done[j] == p;
                    assert(next[j] == p);
                }
                assert(next[i as int] == pos);
            }
            old(grid).lemma_wf();
            assert(qualifies(old(grid)@, pos));
            assert(tiles[pos] == old(grid)@[pos]);
            assert forall|p: TilePos| grid@.contains_key(p) implies grid@[p] == occupied_by(
                old(grid)@,
                next,
                id,
            )[p] by {
                assert(next.contains(p) <==> (done.contains(p) || p == pos));
            }
            assert(grid@ =~= occupied_by(old(grid)@, next, id));
        }
        i = i + 1;
    }
    proof {
        assert(site.take(site.len() as int) =~= site);
    }
    resources.gold = resources.gold - cost as i32;
    buildings.push(BuildingBundle::build(building_type, anchor, covering_tiles));
    *building_mode = building_mode.transition(BuildingEvent::Built);
    *template = None;
    proof {
        assert(buildings@.take(id.0 as int) =~= old(buildings)@);
        if buildings_stand(old(grid)@, old(buildings)@) {
            lemma_construction_keeps_record(old(grid)@, old(buildings)@, grid@, buildings@, site);
        }
    }
    Some(id)
}

/// The gold that each worker of a building earns on a wage day.
pub const WAGE_PER_WORKER: u32 = 30;

/// The wages of one wage day: for every building its occupation times the wage
/// of a worker.
pub open spec fn total_wages(buildings: Seq<BuildingBundle>) -> int
    decreases buildings.len(),
{
    if buildings.len() == 0 {
        0
    } else {
        total_wages(buildings.drop_last()) + buildings.last().building_type.spec_occupation()
            * WAGE_PER_WORKER
    }
}

proof fn lemma_wages_grow(buildings: Seq<BuildingBundle>, i: int)
    requires
        0 <= i <= buildings.len(),
    ensures
        0 <= total_wages(buildings.take(i)) <= total_wages(buildings),
    decreases buildings.len(),
{
    if i == buildings.len() {
        assert(buildings.take(i) =~= buildings);
        if i > 0 {
            lemma_wages_grow(buildings.drop_last(), i - 1);
            assert(buildings.drop_last().take(i - 1) =~= buildings.drop_last());
        }
    } else {
        lemma_wages_grow(buildings.drop_last(), i);
        assert(buildings.drop_last().take(i) =~= buildings.take(i));
    }
}

proof fn lemma_wages_step(buildings: Seq<BuildingBundle>, i: int)
    requires
        0 <= i < buildings.len(),
    ensures
        total_wages(buildings.take(i + 1)) == total_wages(buildings.take(i))
            + buildings[i].building_type.spec_occupation() * WAGE_PER_WORKER,
{
    assert(buildings.take(i + 1).drop_last() =~= buildings.take(i));
}

/// Whether the ledger can hold what is left after a wage day.
pub fn wages_fit(resources: &GlobalResources, buildings: &Vec<BuildingBundle>) -> (r: bool)
    ensures
        r == (resources.gold - total_wages(buildings@) >= i32::MIN),
{
    let mut room: i64 = resources.gold as i64 - i32::MIN as i64;
    let mut i: usize = 0;
    proof {
        lemma_wages_grow(buildings@, 0);
        assert(total_wages(buildings@.take(0)) == 0);
    }
    while i < buildings.len()
        invariant
            i <= buildings.len(),
            0 <= room == resources.gold - i32::MIN - total_wages(buildings@.take(i as int)),
        decreases buildings.len() - i,
    {
        let wage: i64 = (buildings[i].building_type.occupation() * WAGE_PER_WORKER) as i64;
        proof {
            lemma_wages_step(buildings@, i as int);
            lemma_wages_grow(buildings@, i + 1);
        }
        if room < wage {
            return false;
        }
        room = room - wage;
        i = i + 1;
    }
    proof {
        assert(buildings@.take(buildings.len() as int) =~= buildings@);
    }
    true
}

/// Lets `delta_nanos` of game time pass and pays the wages if a wage day has
/// come. While time is paused nothing happens. Else the timer advances, and if
/// it finishes its interval, every building's wages leave the ledger, once,
/// however long `delta_nanos` is. The ledger may go below zero.
pub fn pay_wages(
    time_state: TimeState,
    delta_nanos: u64,
    timer: &mut GameTimer,
    resources: &mut GlobalResources,
    buildings: &Vec<BuildingBundle>,
) -> (paid: bool)
    requires
        time_state == TimeState::Running && old(timer).finishes(delta_nanos) ==> old(
            resources,
        ).gold - total_wages(buildings@) >= i32::MIN,
    ensures
        paid == (time_state == TimeState::Running && old(timer).finishes(delta_nanos)),
        *final(timer) == if time_state == TimeState::Running {
            old(timer).after(delta_nanos)
        } else {
            *old(timer)
        },
        final(resources).gold == if paid {
            old(resources).gold - total_wages(buildings@)
        } else {
            old(resources).gold as int
        },
{
    match time_state {
        TimeState::Paused => {
            return false;
        },
        TimeState::Running => {},
    }
    if !timer.tick(delta_nanos) {
        return false;
    }
    let mut i: usize = 0;
    proof {
        lemma_wages_grow(buildings@, 0);
        assert(total_wages(buildings@.take(0)) == 0);
    }
    while i < buildings.len()
        invariant
            i <= buildings.len(),
            old(resources).gold - total_wages(buildings@) >= i32::MIN,
            resources.gold == old(resources).gold - total_wages(buildings@.take(i as int)),
        decreases buildings.len() - i,
    {
        proof {
            lemma_wages_step(buildings@, i as int);
            lemma_wages_grow(buildings@, i + 1);
        }
        resources.gold = resources.gold - (buildings[i].building_type.occupation()
            * WAGE_PER_WORKER) as i32;
        i = i + 1;
    }
    proof {
        assert(buildings@.take(buildings.len() as int) =~= buildings@);
    }
    true
}

} // verus!
