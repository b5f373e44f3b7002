use vstd::prelude::*;
use crate::consts::LABEL_CHECK_ASSETS;
use crate::map::level_names;
use crate::schedule::{Scheduler, SystemModel, SystemSpec};
use crate::state::{AppState, Gate, StateMachine};

verus! {

/// The files of the sprites.
pub open spec fn sprite_files() -> Seq<Seq<char>> {
    seq![
        "sprites/bus_stop.png"@,
        "sprites/house.png"@,
        "sprites/map_tiles.png"@,
        "sprites/shoe_animation.png"@,
        "sprites/suv.png"@,
        "sprites/victory_screen.png"@,
    ]
}

/// The files of the sounds.
pub open spec fn sfx_files() -> Seq<Seq<char>> {
    seq!["sfx/honk.ogg"@, "sfx/step.ogg"@]
}

/// The names in `files`.
pub open spec fn names_of(files: Seq<String>) -> Seq<Seq<char>> {
    Seq::new(files.len(), |i: int| files[i]@)
}

/// The files of the sprites to load before the game starts.
pub fn sprite_assets() -> (files: Vec<String>)
    ensures
        names_of(files@) == sprite_files(),
{
    let mut files: Vec<String> = Vec::new();
    files.push("sprites/bus_stop.png".to_owned());
    files.push("sprites/house.png".to_owned());
    files.push("sprites/map_tiles.png".to_owned());
    files.push("sprites/shoe_animation.png".to_owned());
    files.push("sprites/suv.png".to_owned());
    files.push("sprites/victory_screen.png".to_owned());
    assert(names_of(files@) =~= sprite_files());
    files
}

/// The files of the maps to load before the game starts: those of the levels.
pub fn map_assets() -> (files: Vec<String>)
    ensures
        names_of(files@) == level_names(),
{
    let mut files: Vec<String> = Vec::new();
    files.push("levels/2_slow_cars.map".to_owned());
    files.push("levels/4_cars.map".to_owned());
    files.push("levels/4_faster_cars.map".to_owned());
    files.push("levels/2_slow_cars_with_wall.map".to_owned());
    files.push("levels/6_slow_cars_with_walls.map".to_owned());
    files.push("levels/4_lanes_closed.map".to_owned());
    files.push("levels/too_busy.map".to_owned());
    assert(names_of(files@) =~= level_names());
    files
}

/// The files of the sounds to load before the game starts.
pub fn sfx_assets() -> (files: Vec<String>)
    ensures
        names_of(files@) == sfx_files(),
{
    let mut files: Vec<String> = Vec::new();
    files.push("sfx/honk.ogg".to_owned());
    files.push("sfx/step.ogg".to_owned());
    assert(names_of(files@) =~= sfx_files());
    files
}

/// Leaves the loading of assets once all of them are there: asks for
/// `Loading` then, and for nothing before.
pub fn track_assets_ready(all_loaded: bool, state: &mut StateMachine)
    ensures
        all_loaded ==> final(state)@ == old(state)@.requested(AppState::Loading),
        !all_loaded ==> final(state)@ == old(state)@,
{
    if all_loaded {
        state.request_transition(AppState::Loading);
    }
}

/// Asks for the assets and waits until they are there.
pub struct AssetsLoadingPlugin;

impl AssetsLoadingPlugin {
    /// The systems this plugin registers, in order, each with the state
    /// it runs in, its labels and the labels it runs before and after. None
    /// declares what it reads or writes: the game leaves that to the caller,
    /// who runs the systems of a pass one after the other, so the scheduler
    /// finds no conflict among them.
    pub open spec fn systems() -> Seq<SystemModel> {
        seq![
            SystemModel::named("setup_loader"@)
                .gate(Gate::OnEnter(AppState::AssetLoading))
                .before(LABEL_CHECK_ASSETS),
            SystemModel::named("track_assets_ready"@)
                .gate(Gate::OnUpdate(AppState::AssetLoading))
                .label(LABEL_CHECK_ASSETS),
        ]
    }

    /// Registers the plugin's systems with the scheduler, after those
    /// already registered.
    pub fn build(&self, app: &mut Scheduler)
        ensures
            final(app).systems() == old(app).systems() + Self::systems(),
    {
        app.register(SystemSpec::new("setup_loader")
            .gate(Gate::OnEnter(AppState::AssetLoading))
            .before(LABEL_CHECK_ASSETS));
        app.register(SystemSpec::new("track_assets_ready")
            .gate(Gate::OnUpdate(AppState::AssetLoading))
            .label(LABEL_CHECK_ASSETS));
        assert(app.systems() =~= old(app).systems() + Self::systems());
    }
}

} // verus!
