use vstd::prelude::*;
use crate::animation::Animator;
use crate::consts::{LABEL_LOAD_CURRENT_MAP, LABEL_PLAYER_MOVEMENT};
use crate::schedule::{Scheduler, SystemModel, SystemSpec};
use crate::state::{AppState, Gate};

verus! {

/// Marks the entity that is the player.
pub struct Player;

/// The number of the animation of the player standing.
pub const ANIMATION_IDLE: usize = 0;

/// The number of the animation of the player walking.
pub const ANIMATION_WALK: usize = 1;

/// The number of the animation of the player rolling home after a car hit it.
pub const ANIMATION_ROLL: usize = 2;

impl Animator {
    /// The animator at the first frame of animation `animation`.
    pub open spec fn playing(self, animation: usize) -> Animator {
        Animator { current_animation: animation, current_frame: 0, ..self }
    }

    /// Starts animation `animation` at its first frame.
    pub fn play(&mut self, animation: usize)
        ensures
            *final(self) == old(self).playing(animation),
    {
        self.current_animation = animation;
        self.current_frame = 0;
    }
}

/// Decides whether the step sound is due: while the player walks, whenever
/// the frame shown differs from the one noted on the tick before. Notes the
/// frame shown now.
pub fn player_step_sfx(animator: &Animator, last_frame: &mut usize) -> (play: bool)
    ensures
        play == (animator.current_animation == ANIMATION_WALK && *old(last_frame)
            != animator.current_frame),
        *final(last_frame) == animator.current_frame,
{
    let play = animator.current_animation == ANIMATION_WALK && *last_frame
        != animator.current_frame;
    *last_frame = animator.current_frame;
    play
}

/// The player arrived at the tile it walked to: it stands again.
pub fn player_movement_done(arrived: bool, animator: &mut Animator)
    ensures
        arrived ==> *final(animator) == old(animator).playing(ANIMATION_IDLE),
        !arrived ==> *final(animator) == *old(animator),
{
    if arrived {
        animator.play(ANIMATION_IDLE);
    }
}

/// A car hit the player, if `hit`. Unless the player rolls already, it
/// starts to roll; the result says whether it did, and so whether it is to
/// be sent home.
pub fn player_collides_car(hit: bool, animator: &mut Animator) -> (rolls: bool)
    ensures
        rolls == (hit && old(animator).current_animation != ANIMATION_ROLL),
        rolls ==> *final(animator) == old(animator).playing(ANIMATION_ROLL),
        !rolls ==> *final(animator) == *old(animator),
{
    if hit && animator.current_animation != ANIMATION_ROLL {
        animator.play(ANIMATION_ROLL);
        true
    } else {
        false
    }
}

/// The player ran into a wall, if `hit`. Unless the player rolls, it stands
/// again; the result says whether it did, and so whether it is to be put
/// back on its tile.
pub fn player_collides_wall(hit: bool, animator: &mut Animator) -> (stops: bool)
    ensures
        stops == (hit && old(animator).current_animation != ANIMATION_ROLL),
        stops ==> *final(animator) == old(animator).playing(ANIMATION_IDLE),
        !stops ==> *final(animator) == *old(animator),
{
    if hit && animator.current_animation != ANIMATION_ROLL {
        animator.play(ANIMATION_IDLE);
        true
    } else {
        false
    }
}

/// Spawns the player and moves it on input.
pub struct PlayerPlugin;

impl PlayerPlugin {
    /// The systems this plugin registers, in order, each with the state
    /// it runs in, its labels and the labels it runs before and after. None
    /// declares what it reads or writes: the game leaves that to the caller,
    /// who runs the systems of a pass one after the other, so the scheduler
    /// finds no conflict among them.
    pub open spec fn systems() -> Seq<SystemModel> {
        seq![
            SystemModel::named("setup_player"@)
                .gate(Gate::OnEnter(AppState::Loading))
                .after(LABEL_LOAD_CURRENT_MAP),
            SystemModel::named("player_input"@)
                .gate(Gate::OnUpdate(AppState::InGame))
                .before(LABEL_PLAYER_MOVEMENT),
            SystemModel::named("player_step_sfx"@)
                .gate(Gate::OnUpdate(AppState::InGame))
                .after(LABEL_PLAYER_MOVEMENT),
            SystemModel::named("player_movement_done"@)
                .gate(Gate::OnUpdate(AppState::InGame))
                .label(LABEL_PLAYER_MOVEMENT),
            SystemModel::named("level_complete"@)
                .gate(Gate::OnUpdate(AppState::InGame))
                .after(LABEL_PLAYER_MOVEMENT),
            SystemModel::named("player_collides_car"@)
                .gate(Gate::OnUpdate(AppState::InGame))
                .after(LABEL_PLAYER_MOVEMENT),
            SystemModel::named("player_collides_wall"@)
                .gate(Gate::OnUpdate(AppState::InGame))
                .after(LABEL_PLAYER_MOVEMENT),
        ]
    }

    /// Registers the plugin's systems with the scheduler, after those
    /// already registered.
    pub fn build(&self, app: &mut Scheduler)
        ensures
            final(app).systems() == old(app).systems() + Self::systems(),
    {
        app.register(SystemSpec::new("setup_player")
            .gate(Gate::OnEnter(AppState::Loading))
            .after(LABEL_LOAD_CURRENT_MAP));
        app.register(SystemSpec::new("player_input")
            .gate(Gate::OnUpdate(AppState::InGame))
            .before(LABEL_PLAYER_MOVEMENT));
        app.register(SystemSpec::new("player_step_sfx")
            .gate(Gate::OnUpdate(AppState::InGame))
            .after(LABEL_PLAYER_MOVEMENT));
        app.register(SystemSpec::new("player_movement_done")
            .gate(Gate::OnUpdate(AppState::InGame))
            .label(LABEL_PLAYER_MOVEMENT));
        app.register(SystemSpec::new("level_complete")
            .gate(Gate::OnUpdate(AppState::InGame))
            .after(LABEL_PLAYER_MOVEMENT));
        app.register(SystemSpec::new("player_collides_car")
            .gate(Gate::OnUpdate(AppState::InGame))
            .after(LABEL_PLAYER_MOVEMENT));
        app.register(SystemSpec::new("player_collides_wall")
            .gate(Gate::OnUpdate(AppState::InGame))
            .after(LABEL_PLAYER_MOVEMENT));
        assert(app.systems() =~= old(app).systems() + Self::systems());
    }
}

} // verus!
