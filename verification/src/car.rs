use vstd::prelude::*;
use crate::consts::{
    KIND_FULLY_OFFSCREEN, LABEL_FULLY_OFFSCREEN, LABEL_LOAD_CURRENT_MAP, LABEL_SPAWN_ANOTHER_CAR,
    LABEL_SPAWN_INITIAL_CARS,
};
use crate::entity::EntityId;
use crate::map::{defer_kind, having};
use crate::rng_bag::RngBag;
use crate::schedule::{Scheduler, SystemModel, SystemSpec};
use crate::state::{AppState, Gate};
use crate::world::World;

verus! {

/// Marks the entities that are cars.
pub struct Car;

/// The bag the colours of new cars are drawn from: atlas cells, the first
/// three times as likely as each of the others.
pub struct ColorBag(pub RngBag<usize>);

/// The atlas cells a full colour bag holds.
pub open spec fn car_colors() -> Seq<usize> {
    seq![0, 0, 0, 1, 2, 3, 4, 5]
}

impl Default for ColorBag {
    fn default() -> (bag: ColorBag)
        ensures
            bag.0.items() == car_colors(),
            bag.0.original() == car_colors(),
    {
        let mut colors: Vec<usize> = Vec::new();
        colors.push(0);
        colors.push(0);
        colors.push(0);
        colors.push(1);
        colors.push(2);
        colors.push(3);
        colors.push(4);
        colors.push(5);
        assert(colors@ =~= car_colors());
        ColorBag(RngBag::new(colors))
    }
}

/// Asks for every car that is marked as fully off the screen to be despawned
/// at the end of the tick, and returns these cars.
pub fn despawn_out_of_bounds<C>(world: &mut World<C>) -> (ids: Vec<EntityId>)
    requires
        old(world).wf(),
    ensures
        final(world).wf(),
        ids@.to_set() == having(old(world)@, KIND_FULLY_OFFSCREEN),
        final(world)@ == old(world)@.deferred_all(ids@),
{
    defer_kind(world, KIND_FULLY_OFFSCREEN)
}

/// Spawns the cars, and replaces those that leave the screen.
pub struct CarPlugin;

impl CarPlugin {
    /// The systems this plugin registers, in order, each with the state
    /// it runs in, its labels and the labels it runs before and after. None
    /// declares what it reads or writes: the game leaves that to the caller,
    /// who runs the systems of a pass one after the other, so the scheduler
    /// finds no conflict among them.
    pub open spec fn systems() -> Seq<SystemModel> {
        seq![
            SystemModel::named("store_car_material"@)
                .gate(Gate::OnEnter(AppState::Loading))
                .before(LABEL_SPAWN_INITIAL_CARS),
            SystemModel::named("spawn_initial_cars"@)
                .gate(Gate::OnEnter(AppState::Loading))
                .label(LABEL_SPAWN_INITIAL_CARS)
                .after(LABEL_LOAD_CURRENT_MAP),
            SystemModel::named("fully_offscreen"@)
                .gate(Gate::OnUpdate(AppState::InGame))
                .label(LABEL_FULLY_OFFSCREEN)
                .before(LABEL_SPAWN_ANOTHER_CAR),
            SystemModel::named("spawn_another_car"@)
                .gate(Gate::OnUpdate(AppState::InGame))
                .label(LABEL_SPAWN_ANOTHER_CAR),
            SystemModel::named("despawn_out_of_bounds"@)
                .gate(Gate::OnUpdate(AppState::InGame))
                .after(LABEL_FULLY_OFFSCREEN),
        ]
    }

    /// Registers the plugin's systems with the scheduler, after those
    /// already registered.
    pub fn build(&self, app: &mut Scheduler)
        ensures
            final(app).systems() == old(app).systems() + Self::systems(),
    {
        app.register(SystemSpec::new("store_car_material")
            .gate(Gate::OnEnter(AppState::Loading))
            .before(LABEL_SPAWN_INITIAL_CARS));
        app.register(SystemSpec::new("spawn_initial_cars")
            .gate(Gate::OnEnter(AppState::Loading))
            .label(LABEL_SPAWN_INITIAL_CARS)
            .after(LABEL_LOAD_CURRENT_MAP));
        app.register(SystemSpec::new("fully_offscreen")
            .gate(Gate::OnUpdate(AppState::InGame))
            .label(LABEL_FULLY_OFFSCREEN)
            .before(LABEL_SPAWN_ANOTHER_CAR));
        app.register(SystemSpec::new("spawn_another_car")
            .gate(Gate::OnUpdate(AppState::InGame))
            .label(LABEL_SPAWN_ANOTHER_CAR));
        app.register(SystemSpec::new("despawn_out_of_bounds")
            .gate(Gate::OnUpdate(AppState::InGame))
            .after(LABEL_FULLY_OFFSCREEN));
        assert(app.systems() =~= old(app).systems() + Self::systems());
    }
}

} // verus!
