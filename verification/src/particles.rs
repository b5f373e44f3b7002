use vstd::prelude::*;
use crate::schedule::{Scheduler, SystemModel, SystemSpec};
use crate::state::{AppState, Gate};

verus! {

/// Raises dust behind the rolling player.
pub struct ParticleSystem;

impl ParticleSystem {
    /// The systems this plugin registers, in order, each with the state
    /// it runs in, its labels and the labels it runs before and after. None
    /// declares what it reads or writes: the game leaves that to the caller,
    /// who runs the systems of a pass one after the other, so the scheduler
    /// finds no conflict among them.
    pub open spec fn systems() -> Seq<SystemModel> {
        seq![
            SystemModel::named("setup_dust"@).gate(Gate::OnEnter(AppState::InGame)),
            SystemModel::named("spawn_new_dust"@).gate(Gate::OnUpdate(AppState::InGame)),
            SystemModel::named("update_dust_lifetime"@).gate(Gate::OnUpdate(AppState::InGame)),
        ]
    }

    /// Registers the plugin's systems with the scheduler, after those
    /// already registered.
    pub fn build(&self, app: &mut Scheduler)
        ensures
            final(app).systems() == old(app).systems() + Self::systems(),
    {
        app.register(SystemSpec::new("setup_dust").gate(Gate::OnEnter(AppState::InGame)));
        app.register(SystemSpec::new("spawn_new_dust").gate(Gate::OnUpdate(AppState::InGame)));
        app.register(SystemSpec::new("update_dust_lifetime")
            .gate(Gate::OnUpdate(AppState::InGame)));
        assert(app.systems() =~= old(app).systems() + Self::systems());
    }
}

} // verus!
