use vstd::prelude::*;
use crate::car::CarPlugin;
use crate::collisions::CollisionPlugin;
use crate::coordinates::MovementPlugin;
use crate::loader::AssetsLoadingPlugin;
use crate::map::MapPlugin;
use crate::particles::ParticleSystem;
use crate::player::PlayerPlugin;
use crate::schedule::{Scheduler, SystemModel, SystemSpec};
use crate::state::{AppState, Gate, StateMachine};
use crate::win_screen::WinScreenPlugin;

verus! {

/// Leaves the set-up state: asks for the loading of assets.
pub fn setup(state: &mut StateMachine)
    ensures
        final(state)@ == old(state)@.requested(AppState::AssetLoading),
{
    state.request_transition(AppState::AssetLoading);
}

/// The systems that the game registers besides those of its plugins.
pub open spec fn base_systems() -> Seq<SystemModel> {
    seq![
        SystemModel::named("close_on_esc"@),
        SystemModel::named("sprite_animation_system"@),
        SystemModel::named("setup"@).gate(Gate::OnEnter(AppState::Setup)),
    ]
}

/// All systems of the game, in the order of registration. They are
/// registered with their states and orderings and without declared access.
pub open spec fn game_systems() -> Seq<SystemModel> {
    base_systems() + AssetsLoadingPlugin::systems() + MovementPlugin::systems()
        + CollisionPlugin::systems() + MapPlugin::systems() + CarPlugin::systems()
        + PlayerPlugin::systems() + ParticleSystem::systems() + WinScreenPlugin::systems()
}

/// The scheduler of the game: its own systems, then those of each plugin.
pub fn game_scheduler() -> (app: Scheduler)
    ensures
        app.systems() == game_systems(),
{
    let mut app = Scheduler::new();
    app.register(SystemSpec::new("close_on_esc"));
    app.register(SystemSpec::new("sprite_animation_system"));
    app.register(SystemSpec::new("setup").gate(Gate::OnEnter(AppState::Setup)));
    assert(app.systems() =~= base_systems());
    AssetsLoadingPlugin.build(&mut app);
    MovementPlugin.build(&mut app);
    CollisionPlugin.build(&mut app);
    MapPlugin.build(&mut app);
    CarPlugin.build(&mut app);
    PlayerPlugin.build(&mut app);
    ParticleSystem.build(&mut app);
    WinScreenPlugin.build(&mut app);
    app
}

} // verus!
