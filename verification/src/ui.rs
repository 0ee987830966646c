//! What the panels show and what their buttons do.

use vstd::prelude::*;
use vstd::std_specs::cmp::PartialEqSpec;
use crate::building::bundle::BuildingBundle;
use crate::cursor::SelectedTile;
use crate::grid::Grid;
use crate::grid::Tile;
use crate::grid::TilePos;
use crate::time::GameTimer;
use crate::time::TimeSpeed;
use crate::time::TimeState;

verus! {

/// The colour of a button's label.
#[derive(Debug, Clone, Copy, PartialEq, Eq, Hash, Structural)]
pub enum ButtonColor {
    Green,
    White,
}

impl ButtonColor {
    /// Green for the setting that is in force, white for the others.
    pub open spec fn of(in_force: bool) -> ButtonColor {
        if in_force {
            ButtonColor::Green
        } else {
            ButtonColor::White
        }
    }
}

/// The colour of the button for the setting `new` while `current` is in force.
pub fn is_enabled<T: PartialEq>(new: &T, current: &T) -> (r: ButtonColor)
    ensures
        T::obeys_eq_spec() ==> r == ButtonColor::of(new.eq_spec(current)),
{
    if new == current {
        ButtonColor::Green
    } else {
        ButtonColor::White
    }
}

/// The buttons of the time panel.
#[derive(Debug, Clone, Copy, PartialEq, Eq, Hash, Structural)]
pub enum TimeButton {
    Pause,
    Normal,
    Fast,
    Faster,
    Fastest,
}

impl TimeButton {
    /// The speed that a button sets; the pause button sets none.
    pub open spec fn spec_speed(self) -> Option<TimeSpeed> {
        match self {
            TimeButton::Pause => None,
            TimeButton::Normal => Some(TimeSpeed::Normal),
            TimeButton::Fast => Some(TimeSpeed::Fast),
            TimeButton::Faster => Some(TimeSpeed::Faster),
            TimeButton::Fastest => Some(TimeSpeed::Fastest),
        }
    }

    /// The speed that a button sets; the pause button sets none.
    pub fn speed(self) -> (r: Option<TimeSpeed>)
        ensures
            r == self.spec_speed(),
    {
        match self {
            TimeButton::Pause => None,
            TimeButton::Normal => Some(TimeSpeed::Normal),
            TimeButton::Fast => Some(TimeSpeed::Fast),
            TimeButton::Faster => Some(TimeSpeed::Faster),
            TimeButton::Fastest => Some(TimeSpeed::Fastest),
        }
    }

    /// The colour of a button: the pause button is green while time is paused,
    /// and a speed button is green while its speed is set, paused or not.
    pub open spec fn spec_color(self, time_state: TimeState, speed: TimeSpeed) -> ButtonColor {
        match self.spec_speed() {
            None => ButtonColor::of(time_state == TimeState::Paused),
            Some(own) => ButtonColor::of(speed == own),
        }
    }

    /// The colour of a button under the given settings.
    pub fn color(self, time_state: TimeState, speed: TimeSpeed) -> (r: ButtonColor)
        ensures
            r == self.spec_color(time_state, speed),
    {
        match self.speed() {
            None => is_enabled(&time_state, &TimeState::Paused),
            Some(own) => is_enabled(&speed, &own),
        }
    }
}

/// Applies a click on a button of the time panel. The pause button pauses time
/// and leaves the speed and the timer alone. A speed button lets time run, sets
/// its speed and starts a fresh timer with that speed's interval.
pub fn ui_time_controls(
    clicked: TimeButton,
    time_state: &mut TimeState,
    speed: &mut TimeSpeed,
    game_timer: &mut GameTimer,
)
    ensures
        clicked.spec_speed() is None ==> {
            &&& *final(time_state) == TimeState::Paused
            &&& *final(speed) == *old(speed)
            &&& *final(game_timer) == *old(game_timer)
        },
        clicked.spec_speed() matches Some(chosen) ==> {
            &&& *final(time_state) == TimeState::Running
            &&& *final(speed) == chosen
            &&& *final(game_timer) == GameTimer::for_speed_spec(chosen)
        },
{
    match clicked.speed() {
        None => {
            *time_state = TimeState::Paused;
        },
        Some(chosen) => {
            *time_state = TimeState::Running;
            *speed = chosen;
            *game_timer = GameTimer::for_speed(chosen);
        },
    }
}

/// What the panel of a building shows.
#[derive(Debug, Clone, PartialEq, Eq)]
pub struct BuildingInfo {
    pub name: String,
    pub occupation: u32,
}

/// The building that stands on the tile at `selected`, if there is such a tile
/// and a building on it that is in `buildings`.
pub open spec fn building_under(
    selected: Option<TilePos>,
    tiles: Map<TilePos, Tile>,
    buildings: Seq<BuildingBundle>,
) -> Option<BuildingBundle> {
    match selected {
        Some(pos) => if tiles.contains_key(pos) {
            match tiles[pos].occupied.0 {
                Some(id) => if id.0 < buildings.len() {
                    Some(buildings[id.0 as int])
                } else {
                    None
                },
                None => None,
            }
        } else {
            None
        },
        None => None,
    }
}

/// What to show of the building under the cursor: its name and its occupation.
/// Nothing is shown where no building stands.
pub fn ui_building_tooltip(
    selected_tile: &SelectedTile,
    grid: &Grid,
    buildings: &Vec<BuildingBundle>,
) -> (r: Option<BuildingInfo>)
    requires
        grid.wf(),
    ensures
        r is Some <==> building_under(selected_tile.0, grid@, buildings@) is Some,
        r matches Some(info) ==> {
            let building = building_under(selected_tile.0, grid@, buildings@)->0;
            &&& info.name@ == building.building_type.spec_name()
            &&& info.occupation == building.building_type.spec_occupation()
        },
{
    if let Some(pos) = selected_tile.0 {
        if let Some(tile) = grid.tile(pos) {
            if let Some(id) = tile.occupied.0 {
                if id.0 < buildings.len() {
                    let building_type = buildings[id.0].building_type;
                    return Some(
                        BuildingInfo {
                            name: building_type.name(),
                            occupation: building_type.occupation(),
                        },
                    );
                }
            }
        }
    }
    None
}

} // verus!
