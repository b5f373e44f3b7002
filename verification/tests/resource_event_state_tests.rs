use shoe_crossing::error::EcsError;
use shoe_crossing::event::{EventBus, EventReader};
use shoe_crossing::report::{Diagnostic, Failures, RECURRING_FAILURE_TICKS};
use shoe_crossing::resource::Resources;
use shoe_crossing::state::{AppState, Gate, StateMachine, GATE_COUNT, STATE_COUNT};

#[test]
fn a_missing_resource_fails_with_missing_resource() {
    let mut resources: Resources<u32> = Resources::new();
    assert_eq!(resources.get(0), None);
    assert_eq!(resources.fetch(0), Err(EcsError::MissingResource));
    assert!(matches!(resources.fetch_mut(5), Err(EcsError::MissingResource)));
    assert!(resources.get_mut(5).is_none());
    assert!(!resources.is_initialized(0));
    assert_eq!(resources.remove(3), None);
}

#[test]
fn an_inserted_resource_is_read_and_written() {
    let mut resources: Resources<u32> = Resources::new();
    assert_eq!(resources.insert(2, 10), None);
    assert!(resources.is_initialized(2));
    assert_eq!(resources.fetch(2), Ok(&10));
    *resources.fetch_mut(2).unwrap() += 1;
    assert_eq!(resources.get(2), Some(&11));
    assert_eq!(resources.insert(2, 20), Some(11));
    assert_eq!(resources.get(1), None);
    assert_eq!(resources.remove(2), Some(20));
    assert_eq!(resources.fetch(2), Err(EcsError::MissingResource));
}

#[test]
fn a_registered_fallback_creates_the_resource_on_first_access() {
    let mut resources: Resources<u32> = Resources::new();
    assert!(resources.register_default(1, 7));
    assert!(!resources.register_default(1, 8));
    assert!(!resources.is_initialized(1));
    assert_eq!(resources.get(1), Some(&7));
    assert!(!resources.is_initialized(1));
    if let Some(value) = resources.get_mut(1) {
        *value = 9;
    }
    assert!(resources.is_initialized(1));
    assert_eq!(resources.fetch(1), Ok(&9));
    assert_eq!(resources.remove(1), Some(9));
    assert_eq!(resources.fetch(1), Err(EcsError::MissingResource));
    resources.insert(4, 1);
    assert!(!resources.register_default(4, 2));
    assert_eq!(resources.get(4), Some(&1));
}

#[test]
fn a_reader_sees_events_in_publish_order_once() {
    let mut bus: EventBus<u32> = EventBus::new();
    let mut reader = EventReader::new();
    assert_eq!(reader.drain(&bus), &[] as &[u32]);
    bus.send(1);
    bus.send(2);
    assert_eq!(bus.total(), 2);
    assert_eq!(reader.drain(&bus), &[1, 2]);
    assert_eq!(reader.drain(&bus), &[] as &[u32]);
    bus.send(3);
    assert_eq!(reader.drain(&bus), &[3]);
}

#[test]
fn two_readers_do_not_disturb_each_other() {
    let mut bus: EventBus<u32> = EventBus::new();
    let mut early = EventReader::new();
    let mut late = EventReader::new();
    let mut seen_early: Vec<u32> = Vec::new();
    bus.send(10);
    seen_early.extend_from_slice(early.drain(&bus));
    bus.send(20);
    bus.end_tick();
    bus.send(30);
    seen_early.extend_from_slice(early.drain(&bus));
    let seen_late: Vec<u32> = late.drain(&bus).to_vec();
    assert_eq!(seen_early, vec![10, 20, 30]);
    assert_eq!(seen_late, vec![10, 20, 30]);
    assert_eq!(early.missed(&bus), 0);
    assert_eq!(late.missed(&bus), 0);
}

#[test]
fn events_are_kept_for_two_ticks() {
    let mut bus: EventBus<u32> = EventBus::new();
    let mut diligent = EventReader::new();
    let mut lazy = EventReader::new();
    bus.send(1);
    assert_eq!(diligent.drain(&bus), &[1]);
    bus.end_tick();
    bus.send(2);
    assert_eq!(diligent.drain(&bus), &[2]);
    bus.end_tick();
    bus.send(3);
    assert_eq!(lazy.missed(&bus), 1);
    assert_eq!(lazy.drain(&bus), &[2, 3]);
    assert_eq!(diligent.drain(&bus), &[3]);
    assert_eq!(bus.total(), 3);
    bus.end_tick();
    bus.end_tick();
    bus.send(4);
    assert_eq!(lazy.drain(&bus), &[4]);
}

#[test]
fn hooks_fire_once_per_transition() {
    let mut machine = StateMachine::new(AppState::Loading);
    let mut fired: Vec<Gate> = Vec::new();
    fired.extend(machine.advance());
    for next in [AppState::InGame, AppState::LevelDone, AppState::Loading] {
        machine.request_transition(next);
        fired.extend(machine.advance());
        fired.extend(machine.advance());
    }
    let count = |g: Gate| fired.iter().filter(|x| **x == g).count();
    assert_eq!(count(Gate::OnExit(AppState::InGame)), 1);
    assert_eq!(count(Gate::OnEnter(AppState::LevelDone)), 1);
    assert_eq!(count(Gate::OnEnter(AppState::Loading)), 2);
    assert_eq!(count(Gate::OnExit(AppState::Loading)), 1);
    assert_eq!(
        fired,
        vec![
            Gate::OnEnter(AppState::Loading),
            Gate::OnExit(AppState::Loading),
            Gate::OnEnter(AppState::InGame),
            Gate::OnExit(AppState::InGame),
            Gate::OnEnter(AppState::LevelDone),
            Gate::OnExit(AppState::LevelDone),
            Gate::OnEnter(AppState::Loading),
        ]
    );
    assert_eq!(machine.current(), AppState::Loading);
}

#[test]
fn the_last_request_before_the_apply_point_wins() {
    let mut machine = StateMachine::new(AppState::default());
    assert_eq!(machine.current(), AppState::Setup);
    assert_eq!(machine.advance(), vec![Gate::OnEnter(AppState::Setup)]);
    assert_eq!(machine.advance(), Vec::<Gate>::new());
    machine.request_transition(AppState::InGame);
    machine.request_transition(AppState::Finished);
    assert_eq!(machine.pending(), Some(AppState::Finished));
    assert_eq!(machine.current(), AppState::Setup);
    assert_eq!(
        machine.advance(),
        vec![Gate::OnExit(AppState::Setup), Gate::OnEnter(AppState::Finished)]
    );
    assert_eq!(machine.pending(), None);
    assert_eq!(machine.update_gate(), Gate::OnUpdate(AppState::Finished));
}

#[test]
fn finished_is_not_terminal() {
    let mut machine = StateMachine::new(AppState::Finished);
    machine.advance();
    machine.request_transition(AppState::Loading);
    assert_eq!(
        machine.advance(),
        vec![Gate::OnExit(AppState::Finished), Gate::OnEnter(AppState::Loading)]
    );
}

#[test]
fn a_request_before_the_first_tick_skips_the_exit() {
    let mut machine = StateMachine::new(AppState::Setup);
    machine.request_transition(AppState::Loading);
    assert_eq!(machine.advance(), vec![Gate::OnEnter(AppState::Loading)]);
}

#[test]
fn states_and_gates_are_numbered() {
    assert_eq!(STATE_COUNT, 6);
    assert_eq!(GATE_COUNT, 18);
    for i in 0..STATE_COUNT {
        assert_eq!(AppState::from_index(i).unwrap().index(), i);
    }
    assert_eq!(AppState::from_index(6), None);
    for i in 0..GATE_COUNT {
        assert_eq!(Gate::from_index(i).unwrap().index(), i);
    }
    assert_eq!(Gate::from_index(18), None);
    assert_eq!(Gate::OnUpdate(AppState::InGame).index(), 10);
    assert_eq!(Gate::from_index(17), Some(Gate::OnExit(AppState::Finished)));
}

#[test]
fn a_failed_system_is_logged_and_skipped_for_the_tick() {
    let mut failures = Failures::new(3);
    assert!(!failures.should_skip(1));
    failures.report(1, EcsError::MissingResource);
    assert!(failures.should_skip(1));
    assert!(!failures.should_skip(0));
    assert!(!failures.should_skip(9));
    assert_eq!(
        failures.diagnostics(),
        &vec![Diagnostic { system: 1, error: EcsError::MissingResource }]
    );
    assert_eq!(failures.end_tick(), None);
    assert!(!failures.should_skip(1));
}

#[test]
fn a_failure_that_recurs_every_tick_is_fatal() {
    assert_eq!(RECURRING_FAILURE_TICKS, 3);
    let mut failures = Failures::new(4);
    failures.report(2, EcsError::StaleEntity);
    failures.report(3, EcsError::StaleEntity);
    assert_eq!(failures.end_tick(), None);
    failures.report(2, EcsError::StaleEntity);
    assert_eq!(failures.end_tick(), None);
    failures.report(2, EcsError::StaleEntity);
    failures.report(3, EcsError::StaleEntity);
    assert_eq!(failures.end_tick(), Some(2));
    assert_eq!(failures.end_tick(), None);
    assert_eq!(failures.diagnostics().len(), 5);
}
