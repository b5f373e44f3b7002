use vstd::prelude::*;
use crate::consts::{KIND_ROOT_NODE, KIND_VICTORY_SCREEN};
use crate::map::{defer_kind, having, lemma_to_set_concat, Levels};
use crate::schedule::{Scheduler, SystemModel, SystemSpec};
use crate::state::{AppState, Gate, StateMachine};
use crate::world::World;

verus! {

/// Restarts the game from the win screen while the restart key is held: the
/// first level is current again and `Loading` is asked for.
pub fn restart(pressed: bool, levels: &mut Levels, state: &mut StateMachine)
    ensures
        final(levels).levels == old(levels).levels,
        pressed ==> final(levels).current_level == 0 && final(state)@ == old(state)@.requested(
            AppState::Loading,
        ),
        !pressed ==> final(levels).current_level == old(levels).current_level && final(state)@
            == old(state)@,
{
    if pressed {
        levels.current_level = 0;
        state.request_transition(AppState::Loading);
    }
}

/// Asks for the win screen to be despawned at the end of the tick: the root
/// of its text and its picture.
pub fn despawn_win_screen<C>(world: &mut World<C>)
    requires
        old(world).wf(),
    ensures
        final(world).wf(),
        final(world)@.issued == old(world)@.issued,
        final(world)@.alive == old(world)@.alive,
        final(world)@.components == old(world)@.components,
        final(world)@.doomed.to_set() == old(world)@.doomed.to_set().union(
            having(old(world)@, KIND_ROOT_NODE).union(having(old(world)@, KIND_VICTORY_SCREEN)),
        ),
{
    let roots = defer_kind(world, KIND_ROOT_NODE);
    let ghost between = world@;
    let pictures = defer_kind(world, KIND_VICTORY_SCREEN);
    proof {
        assert(having(between, KIND_VICTORY_SCREEN) =~= having(old(world)@, KIND_VICTORY_SCREEN));
        lemma_to_set_concat(old(world)@.doomed, roots@);
        lemma_to_set_concat(old(world)@.doomed + roots@, pictures@);
        assert(world@.doomed.to_set() =~= old(world)@.doomed.to_set().union(
            having(old(world)@, KIND_ROOT_NODE).union(having(old(world)@, KIND_VICTORY_SCREEN)),
        ));
    }
}

/// Shows the win screen and restarts the game from it.
pub struct WinScreenPlugin;

impl WinScreenPlugin {
    /// The systems this plugin registers, in order, each with the state
    /// it runs in, its labels and the labels it runs before and after. None
    /// declares what it reads or writes: the game leaves that to the caller,
    /// who runs the systems of a pass one after the other, so the scheduler
    /// finds no conflict among them.
    pub open spec fn systems() -> Seq<SystemModel> {
        seq![
            SystemModel::named("spawn_end_screen"@).gate(Gate::OnEnter(AppState::Finished)),
            SystemModel::named("restart"@).gate(Gate::OnUpdate(AppState::Finished)),
            SystemModel::named("despawn_win_screen"@).gate(Gate::OnExit(AppState::Finished)),
        ]
    }

    /// Registers the plugin's systems with the scheduler, after those
    /// already registered.
    pub fn build(&self, app: &mut Scheduler)
        ensures
            final(app).systems() == old(app).systems() + Self::systems(),
    {
        app.register(SystemSpec::new("spawn_end_screen").gate(Gate::OnEnter(AppState::Finished)));
        app.register(SystemSpec::new("restart").gate(Gate::OnUpdate(AppState::Finished)));
        app.register(SystemSpec::new("despawn_win_screen").gate(Gate::OnExit(AppState::Finished)));
        assert(app.systems() =~= old(app).systems() + Self::systems());
    }
}

} // verus!
