use shoe_crossing::error::EcsError;
use shoe_crossing::order::{flatten, layers};
use shoe_crossing::schedule::{overlap, Schedule, Scheduler, SystemSpec};
use shoe_crossing::state::{AppState, Gate, StateMachine};
use shoe_crossing::world::{Query, World};

const IN_GAME: Gate = Gate::OnUpdate(AppState::InGame);
const LABEL_A: usize = 1;
const LABEL_B: usize = 2;
const LABEL_C: usize = 3;
const HEALTH: usize = 5;

fn position(order: &[usize], id: usize) -> usize {
    order.iter().position(|x| *x == id).unwrap()
}

fn build(systems: Vec<SystemSpec>) -> Result<Schedule, EcsError> {
    let mut scheduler = Scheduler::new();
    for system in systems {
        scheduler.register(system);
    }
    scheduler.build()
}

#[test]
fn constraints_order_the_systems() {
    let mut scheduler = Scheduler::new();
    let c = scheduler.register(SystemSpec::new("c").gate(IN_GAME).label(LABEL_C).after(LABEL_B));
    let b = scheduler.register(SystemSpec::new("b").gate(IN_GAME).label(LABEL_B).after(LABEL_A));
    let a = scheduler.register(SystemSpec::new("a").gate(IN_GAME).label(LABEL_A));
    assert_eq!((c, b, a), (0, 1, 2));
    assert_eq!(scheduler.len(), 3);
    let schedule = scheduler.build().unwrap();
    let order = schedule.order(IN_GAME);
    assert_eq!(order, vec![a, b, c]);
    assert_eq!(schedule.waves(IN_GAME), &vec![vec![a], vec![b], vec![c]]);
    assert_eq!(schedule.order(Gate::OnEnter(AppState::InGame)), Vec::<usize>::new());
}

#[test]
fn after_and_before_are_both_respected() {
    let schedule = build(vec![
        SystemSpec::new("c").gate(IN_GAME).label(LABEL_C),
        SystemSpec::new("b").gate(IN_GAME).label(LABEL_B).after(LABEL_A).before(LABEL_C),
        SystemSpec::new("a").gate(IN_GAME).label(LABEL_A),
        SystemSpec::new("free").gate(IN_GAME),
    ])
    .unwrap();
    let order = schedule.order(IN_GAME);
    assert_eq!(order.len(), 4);
    assert!(position(&order, 2) < position(&order, 1));
    assert!(position(&order, 1) < position(&order, 0));
    let mut counter = 0;
    let mut seen_by_b = None;
    let mut seen_by_c = None;
    for id in order {
        match schedule.name(id).unwrap().as_str() {
            "a" => counter += 1,
            "b" => {
                seen_by_b = Some(counter);
                counter += 10;
            },
            "c" => seen_by_c = Some(counter),
            _ => {},
        }
    }
    assert_eq!(seen_by_b, Some(1));
    assert_eq!(seen_by_c, Some(11));
}

#[test]
fn a_cycle_is_a_scheduling_error_at_start_up() {
    let result = build(vec![
        SystemSpec::new("a").gate(IN_GAME).label(LABEL_A).before(LABEL_B),
        SystemSpec::new("b").gate(IN_GAME).label(LABEL_B).before(LABEL_C),
        SystemSpec::new("c").gate(IN_GAME).label(LABEL_C).before(LABEL_A),
    ]);
    assert_eq!(result.err(), Some(EcsError::SchedulingError));
}

#[test]
fn a_system_before_itself_is_a_scheduling_error() {
    let result = build(vec![SystemSpec::new("a").gate(IN_GAME).label(LABEL_A).before(LABEL_A)]);
    assert_eq!(result.err(), Some(EcsError::SchedulingError));
}

#[test]
fn a_cycle_across_different_passes_is_none() {
    let result = build(vec![
        SystemSpec::new("a").gate(IN_GAME).label(LABEL_A).before(LABEL_B),
        SystemSpec::new("b").gate(Gate::OnEnter(AppState::InGame)).label(LABEL_B).before(LABEL_A),
    ]);
    assert!(result.is_ok());
}

#[test]
fn two_gates_on_one_system_are_a_scheduling_error() {
    let result = build(vec![SystemSpec::new("a")
        .gate(IN_GAME)
        .gate(Gate::OnEnter(AppState::Loading))]);
    assert_eq!(result.err(), Some(EcsError::SchedulingError));
    let same_twice = build(vec![SystemSpec::new("a").gate(IN_GAME).gate(IN_GAME)]);
    assert!(same_twice.is_ok());
}

#[test]
fn two_writers_of_one_kind_are_a_query_conflict() {
    let result = build(vec![
        SystemSpec::new("heal").gate(IN_GAME).writes(HEALTH),
        SystemSpec::new("hurt").gate(IN_GAME).writes(HEALTH),
    ]);
    assert_eq!(result.err(), Some(EcsError::QueryConflict));
}

#[test]
fn a_writer_and_a_reader_of_one_wave_conflict() {
    let result = build(vec![
        SystemSpec::new("show").gate(IN_GAME).reads(HEALTH),
        SystemSpec::new("hurt").gate(IN_GAME).writes(HEALTH),
    ]);
    assert_eq!(result.err(), Some(EcsError::QueryConflict));
    let resources = build(vec![
        SystemSpec::new("show").gate(IN_GAME).reads_resource(1),
        SystemSpec::new("hurt").gate(IN_GAME).writes_resource(1),
    ]);
    assert_eq!(resources.err(), Some(EcsError::QueryConflict));
}

#[test]
fn ordered_or_separated_writers_do_not_conflict() {
    let ordered = build(vec![
        SystemSpec::new("heal").gate(IN_GAME).label(LABEL_A).writes(HEALTH),
        SystemSpec::new("hurt").gate(IN_GAME).after(LABEL_A).writes(HEALTH),
    ]);
    assert!(ordered.is_ok());
    let other_states = build(vec![
        SystemSpec::new("heal").gate(IN_GAME).writes(HEALTH),
        SystemSpec::new("hurt").gate(Gate::OnUpdate(AppState::Finished)).writes(HEALTH),
    ]);
    assert!(other_states.is_ok());
    let readers = build(vec![
        SystemSpec::new("one").gate(IN_GAME).reads(HEALTH),
        SystemSpec::new("two").gate(IN_GAME).reads(HEALTH),
    ]);
    assert!(readers.is_ok());
    let kinds_and_resources = build(vec![
        SystemSpec::new("one").gate(IN_GAME).writes(HEALTH),
        SystemSpec::new("two").gate(IN_GAME).writes_resource(HEALTH),
    ]);
    assert!(kinds_and_resources.is_ok());
}

#[test]
fn a_cycle_is_reported_before_a_conflict() {
    let result = build(vec![
        SystemSpec::new("heal").gate(IN_GAME).writes(HEALTH),
        SystemSpec::new("hurt").gate(IN_GAME).writes(HEALTH),
        SystemSpec::new("loop").gate(Gate::OnExit(AppState::Setup)).label(LABEL_A).after(LABEL_A),
    ]);
    assert_eq!(result.err(), Some(EcsError::SchedulingError));
}

#[test]
fn a_system_without_a_gate_runs_in_every_update_pass() {
    let schedule = build(vec![
        SystemSpec::new("always").label(LABEL_A),
        SystemSpec::new("playing").gate(IN_GAME).after(LABEL_A),
        SystemSpec::new("entering").gate(Gate::OnEnter(AppState::InGame)),
    ])
    .unwrap();
    assert_eq!(schedule.len(), 3);
    assert_eq!(schedule.order(IN_GAME), vec![0, 1]);
    assert_eq!(schedule.order(Gate::OnUpdate(AppState::Setup)), vec![0]);
    assert_eq!(schedule.order(Gate::OnEnter(AppState::InGame)), vec![2]);
    assert_eq!(schedule.order(Gate::OnExit(AppState::InGame)), Vec::<usize>::new());
    assert_eq!(schedule.name(2).map(|s| s.as_str()), Some("entering"));
    assert_eq!(schedule.name(3), None);
}

#[test]
fn a_tick_runs_exit_enter_and_update_in_that_order() {
    let schedule = build(vec![
        SystemSpec::new("update_setup").gate(Gate::OnUpdate(AppState::Setup)),
        SystemSpec::new("enter_setup").gate(Gate::OnEnter(AppState::Setup)),
        SystemSpec::new("exit_setup").gate(Gate::OnExit(AppState::Setup)),
        SystemSpec::new("enter_game").gate(Gate::OnEnter(AppState::InGame)),
        SystemSpec::new("update_game").gate(IN_GAME),
    ])
    .unwrap();
    let mut machine = StateMachine::new(AppState::Setup);
    assert_eq!(schedule.tick_plan(&mut machine), vec![1, 0]);
    assert_eq!(schedule.tick_plan(&mut machine), vec![0]);
    machine.request_transition(AppState::InGame);
    assert_eq!(schedule.tick_plan(&mut machine), vec![2, 3, 4]);
    assert_eq!(schedule.tick_plan(&mut machine), vec![4]);
    assert_eq!(machine.current(), AppState::InGame);
}

#[derive(Debug, PartialEq, Clone, Copy)]
enum Component {
    Position(i64, i64),
    Velocity(i64, i64),
}

const POSITION: usize = 0;
const VELOCITY: usize = 1;

fn move_by_velocity(world: &mut World<Component>) {
    let moving = Query::new(vec![POSITION, VELOCITY], vec![]).unwrap();
    for id in world.query(&moving) {
        if let Ok(Some((Component::Position(x, y), Component::Velocity(dx, dy)))) =
            world.get_pair_mut(id, POSITION, VELOCITY)
        {
            *x += *dx;
            *y += *dy;
        }
    }
}

#[test]
fn one_tick_moves_a_position_by_its_velocity() {
    let mut world: World<Component> = World::new();
    let entity = world.spawn();
    world.insert(entity, POSITION, Component::Position(0, 0)).unwrap();
    world.insert(entity, VELOCITY, Component::Velocity(1, 0)).unwrap();
    let still = world.spawn();
    world.insert(still, POSITION, Component::Position(5, 5)).unwrap();
    let mut scheduler = Scheduler::new();
    let mover = scheduler.register(
        SystemSpec::new("move_by_velocity").gate(IN_GAME).reads(VELOCITY).writes(POSITION),
    );
    let schedule = scheduler.build().unwrap();
    let mut machine = StateMachine::new(AppState::InGame);
    for id in schedule.tick_plan(&mut machine) {
        if id == mover {
            move_by_velocity(&mut world);
        }
    }
    world.apply_deferred();
    assert_eq!(world.get(entity, POSITION), Ok(Some(&Component::Position(1, 0))));
    assert_eq!(world.get(entity, VELOCITY), Ok(Some(&Component::Velocity(1, 0))));
    assert_eq!(world.get(still, POSITION), Ok(Some(&Component::Position(5, 5))));
}

#[test]
fn layers_splits_a_graph_into_waves() {
    let t = true;
    let f = false;
    let rel = vec![
        vec![f, t, t, f],
        vec![f, f, f, t],
        vec![f, f, f, t],
        vec![f, f, f, f],
    ];
    let all = vec![t, t, t, t];
    assert_eq!(layers(&rel, &all), Some(vec![vec![0], vec![1, 2], vec![3]]));
    let without_zero = vec![f, t, t, t];
    assert_eq!(layers(&rel, &without_zero), Some(vec![vec![1, 2], vec![3]]));
    let none = vec![f, f, f, f];
    assert_eq!(layers(&rel, &none), Some(vec![]));
    let cycle = vec![vec![f, t], vec![t, f]];
    assert_eq!(layers(&cycle, &vec![t, t]), None);
    assert_eq!(layers(&cycle, &vec![t, f]), Some(vec![vec![0]]));
    assert_eq!(flatten(&vec![vec![0], vec![1, 2], vec![3]]), vec![0, 1, 2, 3]);
    assert_eq!(flatten(&vec![]), Vec::<usize>::new());
}

#[test]
fn overlap_finds_a_shared_value() {
    assert!(overlap(&vec![1, 2, 3], &vec![9, 3]));
    assert!(!overlap(&vec![1, 2, 3], &vec![4, 5]));
    assert!(!overlap(&vec![], &vec![1]));
}

#[test]
fn a_system_spec_answers_what_it_declares() {
    let a = SystemSpec::new("a").gate(IN_GAME).label(LABEL_A).before(LABEL_B).writes(HEALTH);
    let b = SystemSpec::new("b").label(LABEL_B).reads(HEALTH);
    let c = SystemSpec::new("c").after(LABEL_A);
    assert_eq!(a.name().as_str(), "a");
    assert!(a.runs_in(IN_GAME));
    assert!(!a.runs_in(Gate::OnUpdate(AppState::Setup)));
    assert!(b.runs_in(Gate::OnUpdate(AppState::Setup)));
    assert!(!b.runs_in(Gate::OnEnter(AppState::Setup)));
    assert!(!a.has_gate_conflict());
    assert!(a.precedes(&b));
    assert!(!b.precedes(&a));
    assert!(a.precedes(&c));
    assert!(a.conflicts_with(&b));
    assert!(b.conflicts_with(&a));
    assert!(!b.conflicts_with(&c));
}
