use shoe_crossing::console_debug::{
    console_actions, console_args, input_pause, parse_input, pause, read_command, ConsoleAction,
    ConsoleDebugPlugin, ConsoleOutcome, ParsedCommand, ShouldRun,
};
use shoe_crossing::schedule::Scheduler;

fn actions(line: &str) -> Vec<ConsoleAction> {
    match parse_input(line) {
        ConsoleOutcome::Actions(actions) => actions,
        ConsoleOutcome::Rejected(text) => panic!("rejected: {}", text),
    }
}

fn rejected(line: &str) -> String {
    match parse_input(line) {
        ConsoleOutcome::Actions(actions) => panic!("accepted: {:?}", actions),
        ConsoleOutcome::Rejected(text) => text,
    }
}

#[test]
fn plain_commands_are_understood() {
    assert_eq!(actions("resume"), vec![ConsoleAction::Resume]);
    assert_eq!(actions("quit"), vec![ConsoleAction::Quit]);
    assert_eq!(actions("counts"), vec![ConsoleAction::Counts]);
    assert_eq!(actions(""), vec![]);
    assert_eq!(actions("   "), vec![]);
}

#[test]
fn list_takes_a_type() {
    assert_eq!(actions("list archetypes"), vec![ConsoleAction::ListArchetypes]);
    assert_eq!(actions("list entities"), vec![ConsoleAction::ListEntities]);
    assert_eq!(actions("list resources"), vec![ConsoleAction::ListResources]);
    assert_eq!(actions("list components"), vec![ConsoleAction::ListComponents]);
    assert_eq!(actions("list systems"), vec![]);
    assert_eq!(actions("list entities --filter car"), vec![ConsoleAction::ListEntities]);
    assert!(!rejected("list").is_empty());
    assert!(!rejected("list entity").is_empty());
    assert!(!rejected("list cars").is_empty());
}

#[test]
fn find_searches_by_the_numbers_given() {
    assert_eq!(
        actions("find archetypes --componentid 3 --entityid 4"),
        vec![ConsoleAction::FindArchetypesByComponent(3), ConsoleAction::FindArchetypesByEntity(4)]
    );
    assert_eq!(
        actions("find archetype --entityid 9"),
        vec![ConsoleAction::FindArchetypesByEntity(9)]
    );
    assert_eq!(
        actions("find entities --componentid 2"),
        vec![ConsoleAction::FindEntitiesByComponent(2)]
    );
    assert_eq!(actions("find entity --componentid 12"), vec![ConsoleAction::FindEntitiesByComponent(12)]);
    assert_eq!(actions("find entities --entityid 2"), vec![]);
    assert_eq!(actions("find entities --componentid two"), vec![]);
    assert_eq!(actions("find archetypes --entityid=-1"), vec![]);
    assert!(!rejected("find archetypes --entityid -1").is_empty());
    assert_eq!(actions("find systems --componentid 1"), vec![]);
    assert_eq!(actions("find archetypes"), vec![]);
    assert_eq!(actions("find"), vec![]);
}

#[test]
fn info_asks_for_one_thing() {
    assert_eq!(actions("info archetype --id 1"), vec![ConsoleAction::InfoArchetype(1)]);
    assert_eq!(actions("info component --id 5"), vec![ConsoleAction::InfoComponent(5)]);
    assert_eq!(actions("info component"), vec![]);
    assert_eq!(actions("info entity --id 5"), vec![]);
    assert_eq!(actions("info"), vec![ConsoleAction::InvalidType]);
    assert!(!rejected("info archetypes --id 1").is_empty());
}

#[test]
fn words_are_split_at_any_white_space() {
    assert_eq!(
        actions("  find \t archetype   --componentid   7 "),
        vec![ConsoleAction::FindArchetypesByComponent(7)]
    );
    assert_eq!(actions("info component --id +5"), vec![ConsoleAction::InfoComponent(5)]);
    assert_eq!(actions("info component --id 007"), vec![ConsoleAction::InfoComponent(7)]);
    assert_eq!(actions("info component --id 99999999999999999999999"), vec![]);
    assert_eq!(actions("find archetype --entityid 4294967296"), vec![]);
    assert_eq!(
        actions("find archetype --entityid 4294967295"),
        vec![ConsoleAction::FindArchetypesByEntity(4294967295)]
    );
}

#[test]
fn what_the_grammar_rejects_gives_a_text() {
    assert!(!rejected("frobnicate").is_empty());
    assert!(!rejected("resume now").is_empty());
    let help = rejected("help");
    assert!(help.contains("resume"));
    assert!(help.contains("quit"));
    assert!(help.contains("counts"));
}

fn parsed(name: Option<&str>, kind: Option<&str>) -> ParsedCommand {
    ParsedCommand {
        name: name.map(|s| s.to_string()),
        kind: kind.map(|s| s.to_string()),
        component_id: Some(1),
        entity_id: Some(2),
        id: Some(3),
    }
}

#[test]
fn the_actions_follow_the_parsed_command() {
    assert_eq!(console_actions(&parsed(None, None)), vec![]);
    assert_eq!(console_actions(&parsed(Some("resume"), Some("x"))), vec![ConsoleAction::Resume]);
    assert_eq!(console_actions(&parsed(Some("list"), Some("entity"))), vec![ConsoleAction::ListEntities]);
    assert_eq!(console_actions(&parsed(Some("list"), Some("resource"))), vec![ConsoleAction::ListResources]);
    assert_eq!(console_actions(&parsed(Some("list"), None)), vec![]);
    assert_eq!(
        console_actions(&parsed(Some("find"), Some("archetype"))),
        vec![ConsoleAction::FindArchetypesByComponent(1), ConsoleAction::FindArchetypesByEntity(2)]
    );
    assert_eq!(
        console_actions(&parsed(Some("find"), Some("entities"))),
        vec![ConsoleAction::FindEntitiesByComponent(1)]
    );
    assert_eq!(console_actions(&parsed(Some("info"), Some("archetype"))), vec![ConsoleAction::InfoArchetype(3)]);
    assert_eq!(console_actions(&parsed(Some("info"), Some("component"))), vec![ConsoleAction::InfoComponent(3)]);
    assert_eq!(console_actions(&parsed(Some("info"), Some("archetypes"))), vec![]);
    assert_eq!(console_actions(&parsed(Some("info"), None)), vec![ConsoleAction::InvalidType]);
    assert_eq!(console_actions(&parsed(Some("Resume"), None)), vec![]);
}

#[test]
fn the_console_runs_while_the_game_is_paused() {
    let mut last = false;
    assert_eq!(pause(false, &mut last), (false, ShouldRun::No));
    assert_eq!(pause(true, &mut last), (true, ShouldRun::YesAndCheckAgain));
    assert!(last);
    assert_eq!(pause(true, &mut last), (false, ShouldRun::YesAndCheckAgain));
    assert_eq!(pause(false, &mut last), (false, ShouldRun::No));
    assert!(!last);
    let mut paused = false;
    input_pause(false, &mut paused);
    assert!(!paused);
    input_pause(true, &mut paused);
    assert!(paused);
    input_pause(false, &mut paused);
    assert!(paused);
}

#[test]
fn the_console_plugin_registers_two_systems() {
    let mut scheduler = Scheduler::new();
    ConsoleDebugPlugin.build(&mut scheduler);
    assert_eq!(scheduler.len(), 2);
    assert!(scheduler.build().is_ok());
}

#[test]
fn the_words_to_match_start_with_an_empty_program_name() {
    assert_eq!(console_args("  find \t x "), vec!["", "find", "x"]);
    assert_eq!(console_args(""), vec![""]);
    assert_eq!(console_args("resume"), vec!["", "resume"]);
}

#[test]
fn what_clap_found_is_read_into_plain_values() {
    let grammar = || {
        clap::Command::new("").subcommand(
            clap::Command::new("find")
                .arg(clap::Arg::new("type").index(1))
                .arg(clap::Arg::new("componentid").long("componentid").takes_value(true))
                .arg(clap::Arg::new("entityid").long("entityid").takes_value(true)),
        )
    };
    let found = grammar()
        .try_get_matches_from(vec!["", "find", "entity", "--componentid", "4", "--entityid", "x"])
        .unwrap();
    assert_eq!(
        read_command(&found),
        ParsedCommand {
            name: Some("find".to_string()),
            kind: Some("entity".to_string()),
            component_id: Some(4),
            entity_id: None,
            id: None,
        }
    );
    let bare = grammar().try_get_matches_from(vec!["", "find", "--entityid", "7"]).unwrap();
    assert_eq!(
        read_command(&bare),
        ParsedCommand {
            name: Some("find".to_string()),
            kind: None,
            component_id: None,
            entity_id: Some(7),
            id: None,
        }
    );
    let nothing = grammar().try_get_matches_from(vec![""]).unwrap();
    assert_eq!(
        read_command(&nothing),
        ParsedCommand { name: None, kind: None, component_id: None, entity_id: None, id: None }
    );
}
