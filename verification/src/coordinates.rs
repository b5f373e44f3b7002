use vstd::prelude::*;
use crate::consts::{LABEL_UPDATE_POSITION, LABEL_UPDATE_TRANSLATION};
use crate::schedule::{Scheduler, SystemModel, SystemSpec};
use crate::state::{AppState, Gate};

verus! {

/// Moves what has a velocity and places the sprites.
pub struct MovementPlugin;

impl MovementPlugin {
    /// The systems this plugin registers, in order, each with the state
    /// it runs in, its labels and the labels it runs before and after. None
    /// declares what it reads or writes: the game leaves that to the caller,
    /// who runs the systems of a pass one after the other, so the scheduler
    /// finds no conflict among them.
    pub open spec fn systems() -> Seq<SystemModel> {
        seq![
            SystemModel::named("update_velocity"@)
                .gate(Gate::OnUpdate(AppState::InGame))
                .before(LABEL_UPDATE_POSITION),
            SystemModel::named("update_position"@)
                .gate(Gate::OnUpdate(AppState::InGame))
                .label(LABEL_UPDATE_POSITION),
            SystemModel::named("update_translation"@)
                .gate(Gate::OnUpdate(AppState::InGame))
                .label(LABEL_UPDATE_TRANSLATION)
                .after(LABEL_UPDATE_POSITION),
            SystemModel::named("update_translation_atlas_sprite"@)
                .gate(Gate::OnUpdate(AppState::InGame))
                .label(LABEL_UPDATE_TRANSLATION)
                .after(LABEL_UPDATE_POSITION),
        ]
    }

    /// Registers the plugin's systems with the scheduler, after those
    /// already registered.
    pub fn build(&self, app: &mut Scheduler)
        ensures
            final(app).systems() == old(app).systems() + Self::systems(),
    {
        app.register(SystemSpec::new("update_velocity")
            .gate(Gate::OnUpdate(AppState::InGame))
            .before(LABEL_UPDATE_POSITION));
        app.register(SystemSpec::new("update_position")
            .gate(Gate::OnUpdate(AppState::InGame))
            .label(LABEL_UPDATE_POSITION));
        app.register(SystemSpec::new("update_translation")
            .gate(Gate::OnUpdate(AppState::InGame))
            .label(LABEL_UPDATE_TRANSLATION)
            .after(LABEL_UPDATE_POSITION));
        app.register(SystemSpec::new("update_translation_atlas_sprite")
            .gate(Gate::OnUpdate(AppState::InGame))
            .label(LABEL_UPDATE_TRANSLATION)
            .after(LABEL_UPDATE_POSITION));
        assert(app.systems() =~= old(app).systems() + Self::systems());
    }
}

} // verus!
