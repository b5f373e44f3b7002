use vstd::prelude::*;

verus! {

pub use crate::state::AppState;

/// The labels by which systems are ordered against each other.
#[derive(Debug, Hash, Clone, Copy, PartialEq, Eq, Structural)]
pub enum SystemLabels {
    PlayerMovement,
}

impl SystemLabels {
    /// The label's number in the scheduler.
    pub fn label(&self) -> (l: usize)
        ensures
            l == LABEL_PLAYER_MOVEMENT,
    {
        LABEL_PLAYER_MOVEMENT
    }
}

/// The label of the system that ends the player's step.
pub const LABEL_PLAYER_MOVEMENT: usize = 0;

/// The label of the system that moves positions by velocities.
pub const LABEL_UPDATE_POSITION: usize = 1;

/// The label of the systems that place sprites at their positions.
pub const LABEL_UPDATE_TRANSLATION: usize = 2;

/// The label of the system that loads the current level's map.
pub const LABEL_LOAD_CURRENT_MAP: usize = 3;

/// The label of the system that waits for the assets.
pub const LABEL_CHECK_ASSETS: usize = 4;

/// The label of the system that spawns the cars of a level.
pub const LABEL_SPAWN_INITIAL_CARS: usize = 5;

/// The label of the system that replaces a car that left the screen.
pub const LABEL_SPAWN_ANOTHER_CAR: usize = 6;

/// The label of the system that marks cars that left the screen.
pub const LABEL_FULLY_OFFSCREEN: usize = 7;

/// The edge length of a tile, in pixels.
pub const TILE_SIZE: i32 = 8;

/// The number of tile columns of the screen.
pub const TILE_COLUMNS: i32 = 16;

/// The number of tile rows of the screen.
pub const TILE_ROWS: i32 = 16;

/// The width of the screen, in pixels.
pub const SCREEN_X_MAX: i32 = TILE_COLUMNS * TILE_SIZE;

/// The height of the screen, in pixels.
pub const SCREEN_Y_MAX: i32 = TILE_ROWS * TILE_SIZE;

/// Component kind: a plain sprite.
pub const KIND_SPRITE: usize = 0;

/// Component kind: a sprite cut from a texture atlas.
pub const KIND_ATLAS_SPRITE: usize = 1;

/// Component kind: where the sprite is drawn.
pub const KIND_TRANSFORM: usize = 2;

/// Component kind: the position of a sprite's top left corner, in pixels.
pub const KIND_PIXEL_POSITION: usize = 3;

/// Component kind: velocity, in pixels per second.
pub const KIND_VELOCITY: usize = 4;

/// Component kind: acceleration, in pixels per second squared.
pub const KIND_ACCELERATION: usize = 5;

/// Component kind: the size of a sprite.
pub const KIND_SPRITE_SIZE: usize = 6;

/// Component kind: the drawing layer.
pub const KIND_LAYER: usize = 7;

/// Component kind: the box that hurts what it touches.
pub const KIND_HITBOX: usize = 8;

/// Component kind: the box that can be hurt.
pub const KIND_HURTBOX: usize = 9;

/// Component kind: marks a car.
pub const KIND_CAR: usize = 10;

/// Component kind: marks the player.
pub const KIND_PLAYER: usize = 11;

/// Component kind: marks a wall.
pub const KIND_WALL: usize = 12;

/// Component kind: marks a car that has left the screen.
pub const KIND_FULLY_OFFSCREEN: usize = 13;

/// Component kind: the tile the player stands on.
pub const KIND_CURRENT_POSITION: usize = 14;

/// Component kind: the tile the player walks to.
pub const KIND_NEXT_POSITION: usize = 15;

/// Component kind: the state of a sprite's animation.
pub const KIND_ANIMATOR: usize = 16;

/// Component kind: the animations of a sprite.
pub const KIND_ANIMATIONS: usize = 17;

/// Component kind: marks a dust particle.
pub const KIND_PARTICLE: usize = 18;

/// Component kind: the time a particle has left.
pub const KIND_LIFETIME: usize = 19;

/// Component kind: marks the root of the win screen's text.
pub const KIND_ROOT_NODE: usize = 20;

/// Component kind: marks the win screen's picture.
pub const KIND_VICTORY_SCREEN: usize = 21;

} // verus!
