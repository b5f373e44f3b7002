use shoe_crossing::animation::{
    sprite_animation_system, Animation, AnimationFrame, AnimationStep, Animations, Animator,
};
use shoe_crossing::car::{despawn_out_of_bounds, CarPlugin, ColorBag};
use shoe_crossing::collisions::{collision_system, Collision, CollisionData, Contact};
use shoe_crossing::consts::{
    SystemLabels, KIND_ATLAS_SPRITE, KIND_FULLY_OFFSCREEN, KIND_ROOT_NODE, KIND_SPRITE,
    KIND_VICTORY_SCREEN, LABEL_PLAYER_MOVEMENT, SCREEN_X_MAX, SCREEN_Y_MAX, TILE_SIZE,
};
use shoe_crossing::entity::EntityId;
use shoe_crossing::event::{EventBus, EventReader};
use shoe_crossing::game::{game_scheduler, setup};
use shoe_crossing::loader::{map_assets, sfx_assets, sprite_assets, track_assets_ready};
use shoe_crossing::map::{
    defer_kind, tile_grid, unload_level, wall_tiles, Levels, MapRow, MapWallRow, TilePlacement,
    WALL_SPRITE,
};
use shoe_crossing::player::{
    player_collides_car, player_collides_wall, player_movement_done, player_step_sfx,
    ANIMATION_IDLE, ANIMATION_ROLL, ANIMATION_WALK,
};
use shoe_crossing::rng_bag::RngBag;
use shoe_crossing::schedule::Scheduler;
use shoe_crossing::state::{AppState, Gate, StateMachine};
use shoe_crossing::win_screen::{despawn_win_screen, restart};
use shoe_crossing::world::World;

fn frame(atlas_index: usize) -> AnimationFrame {
    AnimationFrame { atlas_index, duration_nanos: 66_666_668 }
}

fn player_animations() -> Animations {
    Animations {
        animations: vec![
            Animation { frames: vec![frame(0), frame(3)] },
            Animation { frames: vec![frame(1), frame(2)] },
            Animation { frames: vec![frame(4), frame(5), frame(6), frame(7)] },
            Animation { frames: vec![] },
        ],
    }
}

#[test]
fn a_running_timer_stops_the_animation_system() {
    let animations = player_animations();
    let mut animator = Animator::default();
    let step = sprite_animation_system(&animations, &mut animator, false);
    assert_eq!(step, AnimationStep::Stop);
    assert_eq!(animator, Animator::default());
}

#[test]
fn frames_advance_and_wrap_around() {
    let animations = player_animations();
    let mut animator = Animator { current_animation: 2, last_animation: 2, current_frame: 2 };
    assert_eq!(
        sprite_animation_system(&animations, &mut animator, true),
        AnimationStep::Show(frame(7))
    );
    assert_eq!(animator.current_frame, 3);
    assert_eq!(
        sprite_animation_system(&animations, &mut animator, true),
        AnimationStep::Show(frame(4))
    );
    assert_eq!(animator.current_frame, 0);
}

#[test]
fn a_new_animation_steps_even_while_the_timer_runs() {
    let animations = player_animations();
    let mut animator = Animator { current_animation: 1, last_animation: 0, current_frame: 0 };
    assert_eq!(
        sprite_animation_system(&animations, &mut animator, false),
        AnimationStep::Show(frame(2))
    );
    assert_eq!(animator, Animator { current_animation: 1, last_animation: 1, current_frame: 1 });
}

#[test]
fn an_animation_without_frames_shows_nothing() {
    let animations = player_animations();
    let mut empty = Animator { current_animation: 3, last_animation: 0, current_frame: 5 };
    assert_eq!(sprite_animation_system(&animations, &mut empty, true), AnimationStep::Unchanged);
    assert_eq!(empty, Animator { current_animation: 3, last_animation: 3, current_frame: 0 });
    let mut unknown = Animator { current_animation: 9, last_animation: 0, current_frame: 5 };
    assert_eq!(sprite_animation_system(&animations, &mut unknown, true), AnimationStep::Unchanged);
    assert_eq!(unknown, Animator { current_animation: 9, last_animation: 9, current_frame: 5 });
    let mut last = Animator { current_animation: 0, last_animation: 0, current_frame: usize::MAX };
    assert_eq!(
        sprite_animation_system(&animations, &mut last, true),
        AnimationStep::Show(frame(0))
    );
}

fn contact(player: bool, index: usize, car: bool, wall: bool, side: Option<Collision>) -> Contact {
    Contact {
        hurt_is_player: player,
        hit_entity: EntityId { index, generation: 0 },
        hit_is_car: car,
        hit_is_wall: wall,
        collision: side,
    }
}

#[test]
fn collisions_of_the_player_become_events() {
    let mut cars: EventBus<CollisionData> = EventBus::new();
    let mut walls: EventBus<CollisionData> = EventBus::new();
    let contacts = vec![
        contact(true, 1, true, false, Some(Collision::Left)),
        contact(true, 2, false, true, Some(Collision::Top)),
        contact(true, 3, true, false, None),
        contact(false, 4, true, false, Some(Collision::Inside)),
        contact(true, 5, true, true, Some(Collision::Right)),
        contact(true, 6, false, false, Some(Collision::Bottom)),
    ];
    collision_system(&contacts, &mut cars, &mut walls);
    let mut reader = EventReader::new();
    let hit = |index: usize, collision: Collision| CollisionData {
        collided_with: EntityId { index, generation: 0 },
        collision,
    };
    assert_eq!(reader.drain(&cars), &[hit(1, Collision::Left), hit(5, Collision::Right)]);
    let mut reader = EventReader::new();
    assert_eq!(reader.drain(&walls), &[hit(2, Collision::Top)]);
}

#[test]
fn the_levels_start_at_the_first() {
    let levels = Levels::new();
    assert_eq!(levels.current_level, 0);
    assert_eq!(
        levels.levels,
        vec![
            "levels/2_slow_cars.map",
            "levels/4_cars.map",
            "levels/4_faster_cars.map",
            "levels/2_slow_cars_with_wall.map",
            "levels/6_slow_cars_with_walls.map",
            "levels/4_lanes_closed.map",
            "levels/too_busy.map",
        ]
    );
    assert_eq!(levels.current().map(|s| s.as_str()), Some("levels/2_slow_cars.map"));
    let beyond = Levels { current_level: 7, levels: levels.levels };
    assert_eq!(beyond.current(), None);
}

#[test]
fn the_ground_is_laid_from_the_top_row_down() {
    let mut rows = [MapRow { sprite: 0 }; 16];
    rows[0] = MapRow { sprite: 4 };
    rows[15] = MapRow { sprite: 9 };
    let tiles = tile_grid(&rows);
    assert_eq!(tiles.len(), 256);
    assert_eq!(tiles[0], TilePlacement { column: 0, row: 15, sprite: 4 });
    assert_eq!(tiles[15], TilePlacement { column: 15, row: 15, sprite: 4 });
    assert_eq!(tiles[16], TilePlacement { column: 0, row: 14, sprite: 0 });
    assert_eq!(tiles[255], TilePlacement { column: 15, row: 0, sprite: 9 });
}

#[test]
fn walls_stand_where_the_columns_say() {
    let mut first = [false; 16];
    first[3] = true;
    first[15] = true;
    let mut second = [false; 16];
    second[0] = true;
    let walls = vec![
        MapWallRow { row: 4, columns: first },
        MapWallRow { row: 20, columns: [false; 16] },
        MapWallRow { row: -1, columns: second },
    ];
    assert_eq!(WALL_SPRITE, 2);
    assert_eq!(
        wall_tiles(&walls),
        vec![
            TilePlacement { column: 3, row: 11, sprite: 2 },
            TilePlacement { column: 15, row: 11, sprite: 2 },
            TilePlacement { column: 0, row: 16, sprite: 2 },
        ]
    );
    assert_eq!(wall_tiles(&vec![]), vec![]);
}

#[test]
fn unloading_a_level_clears_what_is_drawn_and_moves_on() {
    let mut world: World<u8> = World::new();
    let sprite = world.spawn();
    let atlas = world.spawn();
    let plain = world.spawn();
    world.insert(sprite, KIND_SPRITE, 0).unwrap();
    world.insert(atlas, KIND_ATLAS_SPRITE, 0).unwrap();
    world.insert(plain, 30, 0).unwrap();
    let mut levels = Levels::new();
    let mut state = StateMachine::new(AppState::LevelDone);
    unload_level(&mut world, &mut levels, &mut state);
    assert_eq!(levels.current_level, 1);
    assert_eq!(state.pending(), Some(AppState::Loading));
    assert!(world.is_alive(sprite));
    world.apply_deferred();
    assert!(!world.is_alive(sprite));
    assert!(!world.is_alive(atlas));
    assert!(world.is_alive(plain));
}

#[test]
fn after_the_last_level_the_game_is_finished() {
    let mut world: World<u8> = World::new();
    let mut levels = Levels::new();
    levels.current_level = 6;
    let mut state = StateMachine::new(AppState::LevelDone);
    unload_level(&mut world, &mut levels, &mut state);
    assert_eq!(levels.current_level, 6);
    assert_eq!(state.pending(), Some(AppState::Finished));
    levels.current_level = 5;
    unload_level(&mut world, &mut levels, &mut state);
    assert_eq!(levels.current_level, 6);
    assert_eq!(state.pending(), Some(AppState::Loading));
}

#[test]
fn restart_goes_back_to_the_first_level() {
    let mut levels = Levels::new();
    levels.current_level = 6;
    let mut state = StateMachine::new(AppState::Finished);
    restart(false, &mut levels, &mut state);
    assert_eq!(levels.current_level, 6);
    assert_eq!(state.pending(), None);
    restart(true, &mut levels, &mut state);
    assert_eq!(levels.current_level, 0);
    assert_eq!(state.pending(), Some(AppState::Loading));
}

#[test]
fn the_win_screen_is_despawned_at_the_end_of_the_tick() {
    let mut world: World<u8> = World::new();
    let root = world.spawn();
    let picture = world.spawn();
    let other = world.spawn();
    world.insert(root, KIND_ROOT_NODE, 0).unwrap();
    world.insert(picture, KIND_VICTORY_SCREEN, 0).unwrap();
    despawn_win_screen(&mut world);
    world.apply_deferred();
    assert!(!world.is_alive(root));
    assert!(!world.is_alive(picture));
    assert!(world.is_alive(other));
}

#[test]
fn cars_off_the_screen_are_despawned() {
    let mut world: World<u8> = World::new();
    let gone = world.spawn();
    let here = world.spawn();
    world.insert(gone, KIND_FULLY_OFFSCREEN, 0).unwrap();
    assert_eq!(despawn_out_of_bounds(&mut world), vec![gone]);
    world.apply_deferred();
    assert!(!world.is_alive(gone));
    assert!(world.is_alive(here));
    assert_eq!(defer_kind(&mut world, KIND_FULLY_OFFSCREEN), vec![]);
}

#[test]
fn the_colour_bag_holds_the_first_colour_three_times() {
    let mut bag = ColorBag::default();
    assert_eq!(bag.0.len(), 8);
    let mut drawn: Vec<usize> = (0..8).map(|_| bag.0.get()).collect();
    drawn.sort();
    assert_eq!(drawn, vec![0, 0, 0, 1, 2, 3, 4, 5]);
    assert_eq!(bag.0.len(), 0);
}

#[test]
fn a_bag_gives_every_item_once_before_it_is_filled_again() {
    let mut bag = RngBag::new(vec![10, 20, 30]);
    for _ in 0..5 {
        let mut round = vec![bag.get(), bag.get(), bag.get()];
        round.sort();
        assert_eq!(round, vec![10, 20, 30]);
        assert_eq!(bag.len(), 0);
    }
    assert_eq!(bag.capacity(), 3);
    let first = bag.get();
    assert_eq!(bag.len(), 2);
    let second = bag.get();
    assert_ne!(first, second);
}

#[test]
fn take_draws_the_item_at_a_position() {
    let mut bag = RngBag::new(vec!['a', 'b', 'c']);
    assert_eq!(bag.take(1), 'b');
    assert_eq!(bag.len(), 2);
    assert_eq!(bag.take(1), 'c');
    assert_eq!(bag.take(0), 'a');
    assert_eq!(bag.len(), 0);
    assert_eq!(bag.take(2), 'c');
    assert_eq!(bag.len(), 2);
}

#[test]
fn the_step_sound_follows_the_walk_frames() {
    let mut last_frame = 0;
    let walking = Animator { current_animation: ANIMATION_WALK, last_animation: 1, current_frame: 1 };
    assert!(player_step_sfx(&walking, &mut last_frame));
    assert_eq!(last_frame, 1);
    assert!(!player_step_sfx(&walking, &mut last_frame));
    let idle = Animator { current_animation: ANIMATION_IDLE, last_animation: 0, current_frame: 0 };
    assert!(!player_step_sfx(&idle, &mut last_frame));
    assert_eq!(last_frame, 0);
}

#[test]
fn a_car_sends_the_player_rolling_once() {
    let mut animator = Animator { current_animation: ANIMATION_WALK, last_animation: 1, current_frame: 1 };
    assert!(!player_collides_car(false, &mut animator));
    assert_eq!(animator.current_animation, ANIMATION_WALK);
    assert!(player_collides_car(true, &mut animator));
    assert_eq!(animator, Animator { current_animation: ANIMATION_ROLL, last_animation: 1, current_frame: 0 });
    animator.current_frame = 2;
    assert!(!player_collides_car(true, &mut animator));
    assert_eq!(animator.current_frame, 2);
    assert!(!player_collides_wall(true, &mut animator));
    assert_eq!(animator.current_animation, ANIMATION_ROLL);
}

#[test]
fn a_wall_or_an_arrival_stops_the_player() {
    let mut animator = Animator { current_animation: ANIMATION_WALK, last_animation: 1, current_frame: 1 };
    player_movement_done(false, &mut animator);
    assert_eq!(animator.current_animation, ANIMATION_WALK);
    assert!(player_collides_wall(true, &mut animator));
    assert_eq!(animator, Animator { current_animation: ANIMATION_IDLE, last_animation: 1, current_frame: 0 });
    animator.play(ANIMATION_WALK);
    animator.current_frame = 1;
    player_movement_done(true, &mut animator);
    assert_eq!(animator, Animator { current_animation: ANIMATION_IDLE, last_animation: 1, current_frame: 0 });
}

#[test]
fn the_assets_are_listed_and_awaited() {
    assert_eq!(
        sprite_assets(),
        vec![
            "sprites/bus_stop.png",
            "sprites/house.png",
            "sprites/map_tiles.png",
            "sprites/shoe_animation.png",
            "sprites/suv.png",
            "sprites/victory_screen.png",
        ]
    );
    assert_eq!(sfx_assets(), vec!["sfx/honk.ogg", "sfx/step.ogg"]);
    assert_eq!(map_assets(), Levels::new().levels);
    assert_eq!(map_assets()[6], "levels/too_busy.map");
    let mut state = StateMachine::new(AppState::AssetLoading);
    track_assets_ready(false, &mut state);
    assert_eq!(state.pending(), None);
    track_assets_ready(true, &mut state);
    assert_eq!(state.pending(), Some(AppState::Loading));
    let mut fresh = StateMachine::new(AppState::Setup);
    setup(&mut fresh);
    assert_eq!(fresh.pending(), Some(AppState::AssetLoading));
}

#[test]
fn the_screen_is_sixteen_tiles_wide() {
    assert_eq!(TILE_SIZE, 8);
    assert_eq!(SCREEN_X_MAX, 128);
    assert_eq!(SCREEN_Y_MAX, 128);
    assert_eq!(SystemLabels::PlayerMovement.label(), LABEL_PLAYER_MOVEMENT);
}

#[test]
fn the_game_schedule_is_valid_and_honours_its_constraints() {
    let scheduler = game_scheduler();
    assert_eq!(scheduler.len(), 31);
    let schedule = scheduler.build().unwrap();
    let names = |gate: Gate| -> Vec<String> {
        schedule.order(gate).iter().map(|id| schedule.name(*id).unwrap().clone()).collect()
    };
    let place = |order: &Vec<String>, name: &str| order.iter().position(|n| n == name).unwrap();
    let playing = names(Gate::OnUpdate(AppState::InGame));
    assert_eq!(playing.len(), 18);
    assert!(place(&playing, "update_velocity") < place(&playing, "update_position"));
    assert!(place(&playing, "update_position") < place(&playing, "update_translation"));
    assert!(place(&playing, "update_position") < place(&playing, "update_translation_atlas_sprite"));
    assert!(place(&playing, "update_translation") < place(&playing, "collision_system"));
    assert!(place(&playing, "collision_system") < place(&playing, "player_movement_done"));
    assert!(place(&playing, "player_input") < place(&playing, "player_movement_done"));
    assert!(place(&playing, "player_movement_done") < place(&playing, "player_collides_car"));
    assert!(place(&playing, "player_movement_done") < place(&playing, "level_complete"));
    assert!(place(&playing, "fully_offscreen") < place(&playing, "spawn_another_car"));
    assert!(place(&playing, "fully_offscreen") < place(&playing, "despawn_out_of_bounds"));
    assert!(playing.contains(&"sprite_animation_system".to_string()));
    let loading = names(Gate::OnEnter(AppState::Loading));
    assert_eq!(loading.len(), 5);
    assert!(place(&loading, "load_current_map") < place(&loading, "load_map_atlas"));
    assert!(place(&loading, "load_current_map") < place(&loading, "setup_player"));
    assert!(place(&loading, "load_current_map") < place(&loading, "spawn_initial_cars"));
    assert!(place(&loading, "store_car_material") < place(&loading, "spawn_initial_cars"));
    assert_eq!(names(Gate::OnEnter(AppState::Setup)), vec!["setup"]);
    assert_eq!(names(Gate::OnEnter(AppState::LevelDone)), vec!["unload_level"]);
    assert_eq!(names(Gate::OnExit(AppState::Finished)), vec!["despawn_win_screen"]);
    assert_eq!(
        names(Gate::OnUpdate(AppState::Finished)),
        vec!["close_on_esc", "sprite_animation_system", "restart"]
    );
}

#[test]
fn a_plugin_adds_its_systems_after_those_registered() {
    let mut scheduler = Scheduler::new();
    CarPlugin.build(&mut scheduler);
    assert_eq!(scheduler.len(), 5);
    CarPlugin.build(&mut scheduler);
    assert_eq!(scheduler.len(), 10);
}
