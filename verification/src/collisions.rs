use vstd::prelude::*;
use crate::consts::{LABEL_PLAYER_MOVEMENT, LABEL_UPDATE_TRANSLATION};
use crate::entity::EntityId;
use crate::event::EventBus;
use crate::schedule::{Scheduler, SystemModel, SystemSpec};
use crate::state::{AppState, Gate};

verus! {

/// The side of the hurt box on which a hit box touches it.
#[derive(Clone, Copy, Debug, PartialEq, Eq, Structural)]
pub enum Collision {
    Left,
    Right,
    Top,
    Bottom,
    Inside,
}

/// What a collision event tells: the entity that was run into, and on which side.
#[derive(Clone, Copy, Debug, PartialEq, Eq, Structural)]
pub struct CollisionData {
    pub collided_with: EntityId,
    pub collision: Collision,
}

/// One pair of a hurt box and a hit box, as the geometry test found it.
#[derive(Clone, Copy, Debug, PartialEq, Eq, Structural)]
pub struct Contact {
    /// Whether the hurt box belongs to the player.
    pub hurt_is_player: bool,
    /// The entity of the hit box.
    pub hit_entity: EntityId,
    /// Whether the hit box belongs to a car.
    pub hit_is_car: bool,
    /// Whether the hit box belongs to a wall.
    pub hit_is_wall: bool,
    /// The side on which the boxes touch; `None` when they do not.
    pub collision: Option<Collision>,
}

impl Contact {
    /// The event for the player being hit by a car, if this contact is one.
    pub open spec fn car_hit(self) -> Option<CollisionData> {
        match self.collision {
            Some(collision) => if self.hurt_is_player && self.hit_is_car {
                Some(CollisionData { collided_with: self.hit_entity, collision })
            } else {
                None
            },
            None => None,
        }
    }

    /// The event for the player running into a wall, if this contact is one.
    /// A hit box that is both a car and a wall counts as a car.
    pub open spec fn wall_hit(self) -> Option<CollisionData> {
        match self.collision {
            Some(collision) => if self.hurt_is_player && !self.hit_is_car && self.hit_is_wall {
                Some(CollisionData { collided_with: self.hit_entity, collision })
            } else {
                None
            },
            None => None,
        }
    }
}

/// The car events of `contacts`, in the order of the contacts.
pub open spec fn car_hits(contacts: Seq<Contact>) -> Seq<CollisionData>
    decreases contacts.len(),
{
    if contacts.len() == 0 {
        Seq::empty()
    } else {
        let rest = car_hits(contacts.drop_last());
        match contacts.last().car_hit() {
            Some(data) => rest.push(data),
            None => rest,
        }
    }
}

/// The wall events of `contacts`, in the order of the contacts.
pub open spec fn wall_hits(contacts: Seq<Contact>) -> Seq<CollisionData>
    decreases contacts.len(),
{
    if contacts.len() == 0 {
        Seq::empty()
    } else {
        let rest = wall_hits(contacts.drop_last());
        match contacts.last().wall_hit() {
            Some(data) => rest.push(data),
            None => rest,
        }
    }
}

/// Turns the contacts of this tick into events: for each contact in which the
/// boxes touch and the hurt box is the player's, an event on the car bus when
/// the hit box is a car's, else one on the wall bus when it is a wall's. The
/// events of each bus keep the order of the contacts.
pub fn collision_system(
    contacts: &Vec<Contact>,
    player_hitby_car: &mut EventBus<CollisionData>,
    player_hitby_wall: &mut EventBus<CollisionData>,
)
    requires
        old(player_hitby_car).wf(),
        old(player_hitby_wall).wf(),
        old(player_hitby_car)@.total() + contacts@.len() <= usize::MAX,
        old(player_hitby_wall)@.total() + contacts@.len() <= usize::MAX,
    ensures
        final(player_hitby_car).wf(),
        final(player_hitby_wall).wf(),
        final(player_hitby_car)@.base == old(player_hitby_car)@.base,
        final(player_hitby_car)@.carried == old(player_hitby_car)@.carried,
        final(player_hitby_car)@.events == old(player_hitby_car)@.events + car_hits(contacts@),
        final(player_hitby_wall)@.base == old(player_hitby_wall)@.base,
        final(player_hitby_wall)@.carried == old(player_hitby_wall)@.carried,
        final(player_hitby_wall)@.events == old(player_hitby_wall)@.events + wall_hits(contacts@),
{
    let mut i: usize = 0;
    assert(contacts@.take(0) =~= Seq::<Contact>::empty());
    while i < contacts.len()
        invariant
            i <= contacts@.len(),
            player_hitby_car.wf(),
            player_hitby_wall.wf(),
            old(player_hitby_car)@.total() + contacts@.len() <= usize::MAX,
            old(player_hitby_wall)@.total() + contacts@.len() <= usize::MAX,
            car_hits(contacts@.take(i as int)).len() <= i,
            wall_hits(contacts@.take(i as int)).len() <= i,
            player_hitby_car@.base == old(player_hitby_car)@.base,
            player_hitby_car@.carried == old(player_hitby_car)@.carried,
            player_hitby_car@.events == old(player_hitby_car)@.events + car_hits(
                contacts@.take(i as int),
            ),
            player_hitby_wall@.base == old(player_hitby_wall)@.base,
            player_hitby_wall@.carried == old(player_hitby_wall)@.carried,
            player_hitby_wall@.events == old(player_hitby_wall)@.events + wall_hits(
                contacts@.take(i as int),
            ),
        decreases contacts@.len() - i,
    {
        let contact = contacts[i];
        proof {
            assert(contacts@.take(i + 1).drop_last() =~= contacts@.take(i as int));
            assert(contacts@.take(i + 1).last() == contact);
        }
        match contact.collision {
            Some(collision) => {
                if contact.hurt_is_player && contact.hit_is_car {
                    player_hitby_car.send(
                        CollisionData { collided_with: contact.hit_entity, collision },
                    );
                } else if contact.hurt_is_player && contact.hit_is_wall {
                    player_hitby_wall.send(
                        CollisionData { collided_with: contact.hit_entity, collision },
                    );
                }
            },
            None => {},
        }
        i += 1;
    }
    assert(contacts@.take(i as int) =~= contacts@);
}

/// Finds what the player runs into.
pub struct CollisionPlugin;

impl CollisionPlugin {
    /// The systems this plugin registers, in order, each with the state
    /// it runs in, its labels and the labels it runs before and after. None
    /// declares what it reads or writes: the game leaves that to the caller,
    /// who runs the systems of a pass one after the other, so the scheduler
    /// finds no conflict among them.
    pub open spec fn systems() -> Seq<SystemModel> {
        seq![
            SystemModel::named("collision_system"@)
                .gate(Gate::OnUpdate(AppState::InGame))
                .before(LABEL_PLAYER_MOVEMENT)
                .after(LABEL_UPDATE_TRANSLATION),
        ]
    }

    /// Registers the plugin's systems with the scheduler, after those
    /// already registered.
    pub fn build(&self, app: &mut Scheduler)
        ensures
            final(app).systems() == old(app).systems() + Self::systems(),
    {
        app.register(SystemSpec::new("collision_system")
            .gate(Gate::OnUpdate(AppState::InGame))
            .before(LABEL_PLAYER_MOVEMENT)
            .after(LABEL_UPDATE_TRANSLATION));
        assert(app.systems() =~= old(app).systems() + Self::systems());
    }
}

} // verus!
