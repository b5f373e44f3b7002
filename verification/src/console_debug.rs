use vstd::prelude::*;
use crate::schedule::{Scheduler, SystemModel, SystemSpec};

verus! {

/// clap's description of a command and its arguments. Opaque here.
#[verifier::external_type_specification]
#[verifier::external_body]
pub struct ExCommand<'help>(clap::App<'help>);

/// clap's description of one argument. Opaque here.
#[verifier::external_type_specification]
#[verifier::external_body]
pub struct ExArg<'help>(clap::Arg<'help>);

/// What clap found on a command line. Opaque here.
#[verifier::external_type_specification]
#[verifier::external_body]
pub struct ExArgMatches(clap::ArgMatches);

/// clap's report of a rejected command line. Opaque here.
#[verifier::external_type_specification]
#[verifier::external_body]
pub struct ExClapError(clap::Error);

/// The words of `line`: what std's `split_whitespace` yields for it.
pub uninterp spec fn whitespace_words(line: Seq<char>) -> Seq<Seq<char>>;

/// The number that `text` spells, by std's `parse` for `u64`.
pub uninterp spec fn parsed_u64(text: Seq<char>) -> Option<u64>;

/// The number that `text` spells, by std's `parse` for `u32`.
pub uninterp spec fn parsed_u32(text: Seq<char>) -> Option<u32>;

/// One argument of a command, as far as the console relies on it: the name
/// it is read by, its place if it is positional, the values it may take if
/// these are listed, and whether it must be given.
pub struct ArgModel {
    pub id: Seq<char>,
    pub index: Option<usize>,
    pub values: Seq<Seq<char>>,
    pub required: bool,
}

/// One command of a grammar: its name, its help text and the arguments it
/// was given, in order.
pub struct CommandModel {
    pub name: Seq<char>,
    pub about: Seq<char>,
    pub arguments: Seq<ArgModel>,
}

/// The subcommands that a clap command holds, in the order they were added.
pub uninterp spec fn subcommands(app: clap::App<'static>) -> Seq<CommandModel>;

/// What a clap argument holds of the four things an `ArgModel` lists.
pub uninterp spec fn argument(arg: clap::Arg<'static>) -> ArgModel;

/// The argument that clap's usage syntax makes of `usage`.
pub uninterp spec fn usage_argument(usage: Seq<char>) -> ArgModel;

/// The first value of each argument that clap found with a text value, by
/// the argument's name.
pub uninterp spec fn arg_values(matches: clap::ArgMatches) -> Map<Seq<char>, Seq<char>>;

/// The name of the subcommand that clap found, if it found one.
pub uninterp spec fn subcommand_name(matches: clap::ArgMatches) -> Option<Seq<char>>;

/// What `arg_values` is of the matches of the subcommand that clap found.
pub uninterp spec fn subcommand_values(matches: clap::ArgMatches) -> Map<Seq<char>, Seq<char>>;

/// What clap finds when it matches `words` against `app`: the name of the
/// subcommand, if any, and the values of its arguments; `None` when clap
/// rejects the words.
pub uninterp spec fn matched(app: clap::App<'static>, words: Seq<Seq<char>>) -> Option<
    (Option<Seq<char>>, Map<Seq<char>, Seq<char>>),
>;

/// The texts of `words`.
pub open spec fn strings(words: Seq<String>) -> Seq<Seq<char>> {
    Seq::new(words.len(), |i: int| words[i]@)
}

/// The texts of `words`.
pub open spec fn texts(words: Seq<&'static str>) -> Seq<Seq<char>> {
    Seq::new(words.len(), |i: int| words[i]@)
}

/// What the clap arguments in `arguments` hold, in order.
pub open spec fn arguments_of(arguments: Seq<clap::Arg<'static>>) -> Seq<ArgModel> {
    Seq::new(arguments.len(), |i: int| argument(arguments[i]))
}

/// Splits `line` at white space. Calls `str::split_whitespace` and copies
/// each word; the contract only names the result.
#[verifier::external_body]
fn words(line: &str) -> (out: Vec<String>)
    ensures
        out@.len() == whitespace_words(line@).len(),
        forall|i: int| 0 <= i < out@.len() ==> out@[i]@ == whitespace_words(line@)[i],
{
    line.split_whitespace().map(|word| word.to_string()).collect()
}

/// Reads `text` as a `u64`. Calls `str::parse`; `None` stands for its
/// error. The contract only names the result.
#[verifier::external_body]
fn parse_u64(text: &str) -> (n: Option<u64>)
    ensures
        n == parsed_u64(text@),
{
    text.parse::<u64>().ok()
}

/// Reads `text` as a `u32`. Calls `str::parse`; `None` stands for its
/// error. The contract only names the result.
#[verifier::external_body]
fn parse_u32(text: &str) -> (n: Option<u32>)
    ensures
        n == parsed_u32(text@),
{
    text.parse::<u32>().ok()
}

/// A command named `name` without subcommands. Calls clap's `App::new`,
/// which gives the command no subcommand.
#[verifier::external_body]
fn root_command(name: &'static str) -> (app: clap::App<'static>)
    ensures
        subcommands(app) == Seq::<CommandModel>::empty(),
{
    clap::App::new(name)
}

/// `app` with one more subcommand, named `name`, with the help text `about`
/// and the arguments `arguments`. Calls clap's `App::new`, `App::about` and
/// `App::args` for the subcommand and `App::subcommand` to add it; each of
/// the last two appends to what the command holds.
#[verifier::external_body]
fn with_command(
    app: clap::App<'static>,
    name: &'static str,
    about: &'static str,
    arguments: Vec<clap::Arg<'static>>,
) -> (r: clap::App<'static>)
    ensures
        subcommands(r) == subcommands(app).push(
            (CommandModel { name: name@, about: about@, arguments: arguments_of(arguments@) }),
        ),
{
    app.subcommand(clap::App::new(name).about(about).args(arguments))
}

/// The positional argument at place `index`, counted from 1, named `name`,
/// which takes one of `values`. Calls clap's `Arg::new`, `index`,
/// `possible_values` and `required`, each of which stores what it is given.
#[verifier::external_body]
fn positional(
    name: &'static str,
    index: usize,
    values: Vec<&'static str>,
    required: bool,
) -> (arg: clap::Arg<'static>)
    ensures
        argument(arg) == (ArgModel {
            id: name@,
            index: Some(index),
            values: texts(values@),
            required,
        }),
{
    clap::Arg::new(name).index(index).possible_values(values).required(required)
}

/// The option that the usage string `usage` describes. Calls clap's
/// `Arg::from_usage`, which panics on some texts that are no usage; the
/// usage must be one of the console's. The contract only names the result.
#[verifier::external_body]
fn option_from_usage(usage: &'static str) -> (arg: clap::Arg<'static>)
    requires
        console_usage(usage@),
    ensures
        argument(arg) == usage_argument(usage@),
{
    clap::Arg::from_usage(usage)
}

/// Matches `args` against `app`. Calls clap's `App::try_get_matches_from`,
/// which panics on a grammar that contradicts itself, such as two arguments
/// of one name; the grammar must hold the console's commands. What clap
/// answers depends on the grammar and the words alone, and the contract
/// names it: on success the subcommand found and the values of its
/// arguments, on a rejection nothing.
#[verifier::external_body]
fn match_args(app: clap::App<'static>, args: Vec<String>) -> (r: Result<
    clap::ArgMatches,
    clap::Error,
>)
    requires
        subcommands(app) == console_commands(),
    ensures
        match r {
            Ok(found) => matched(app, strings(args@)) == Some(
                (subcommand_name(found), subcommand_values(found)),
            ),
            Err(_) => matched(app, strings(args@)) is None,
        },
{
    app.try_get_matches_from(args)
}

/// The subcommand that was given, with what was found of its arguments.
/// Calls clap's `ArgMatches::subcommand` and copies both parts. The contract
/// only names the two parts.
#[verifier::external_body]
fn subcommand_of(matches: &clap::ArgMatches) -> (r: Option<(String, clap::ArgMatches)>)
    ensures
        match r {
            Some((name, sub)) => {
                &&& subcommand_name(*matches) == Some(name@)
                &&& arg_values(sub) == subcommand_values(*matches)
            },
            None => subcommand_name(*matches) is None,
        },
{
    matches.subcommand().map(|(name, sub)| (name.to_string(), sub.clone()))
}

/// The first value given for the argument `id`; `None` when none was given
/// or the command has no such argument. Calls clap's
/// `ArgMatches::try_get_one`, which does not panic on an unknown argument.
/// The contract only names the result.
#[verifier::external_body]
fn string_value(matches: &clap::ArgMatches, id: &str) -> (r: Option<String>)
    ensures
        match r {
            Some(text) => arg_values(*matches).dom().contains(id@) && arg_values(*matches)[id@]
                == text@,
            None => !arg_values(*matches).dom().contains(id@),
        },
{
    matches.try_get_one::<String>(id).ok().flatten().cloned()
}

/// The text of clap's report, as its `Display` gives it. Nothing is claimed
/// of the result.
#[verifier::external_body]
fn error_text(error: &clap::Error) -> String {
    error.to_string()
}

/// Whether the debugging console runs its commands this tick.
#[derive(Clone, Copy, Debug, PartialEq, Eq, Structural)]
pub enum ShouldRun {
    YesAndCheckAgain,
    No,
}

/// Decides whether the console runs: as long as the game is paused. Also
/// tells whether the pause has just begun, which is when the console greets,
/// and notes the pause for the next tick.
pub fn pause(paused: bool, last_pause: &mut bool) -> (r: (bool, ShouldRun))
    ensures
        r.0 == (paused != *old(last_pause) && paused),
        r.1 == if paused {
            ShouldRun::YesAndCheckAgain
        } else {
            ShouldRun::No
        },
        *final(last_pause) == paused,
{
    let entering_console = (paused != *last_pause) && paused;
    *last_pause = paused;
    if paused {
        (entering_console, ShouldRun::YesAndCheckAgain)
    } else {
        (entering_console, ShouldRun::No)
    }
}

/// Pauses the game while the pause key is held; an earlier pause stays.
pub fn input_pause(pressed: bool, pause: &mut bool)
    ensures
        *final(pause) == (pressed || *old(pause)),
{
    if pressed {
        *pause = true;
    }
}

/// What a console command asks for.
#[derive(Clone, Copy, Debug, PartialEq, Eq, Structural)]
pub enum ConsoleAction {
    Resume,
    Quit,
    ListArchetypes,
    ListEntities,
    ListResources,
    ListComponents,
    Counts,
    FindArchetypesByComponent(usize),
    FindArchetypesByEntity(u32),
    FindEntitiesByComponent(usize),
    InfoArchetype(usize),
    InfoComponent(usize),
    /// `info` was given no type: the console says so.
    InvalidType,
}

/// What the console made of a line.
#[derive(Clone, Debug, PartialEq, Eq)]
pub enum ConsoleOutcome {
    /// The line is no command, or asks for help: the text to print.
    Rejected(String),
    /// The actions to carry out, in order.
    Actions(Vec<ConsoleAction>),
}

/// A command line as the grammar understood it, in plain values.
#[derive(Clone, Debug, PartialEq, Eq)]
pub struct ParsedCommand {
    /// The subcommand, if one was given.
    pub name: Option<String>,
    /// The value of the argument `type`.
    pub kind: Option<String>,
    /// The value of `--componentid`, if it spells a number.
    pub component_id: Option<usize>,
    /// The value of `--entityid`, if it spells a number.
    pub entity_id: Option<u32>,
    /// The value of `--id`, if it spells a number.
    pub id: Option<usize>,
}

/// A parsed command line, as mathematics.
pub struct ParsedModel {
    pub name: Option<Seq<char>>,
    pub kind: Option<Seq<char>>,
    pub component_id: Option<usize>,
    pub entity_id: Option<u32>,
    pub id: Option<usize>,
}

/// The text of an optional string.
pub open spec fn text_of(s: Option<String>) -> Option<Seq<char>> {
    match s {
        Some(s) => Some(s@),
        None => None,
    }
}

impl View for ParsedCommand {
    type V = ParsedModel;

    open spec fn view(&self) -> ParsedModel {
        ParsedModel {
            name: text_of(self.name),
            kind: text_of(self.kind),
            component_id: self.component_id,
            entity_id: self.entity_id,
            id: self.id,
        }
    }
}

/// Whether `text` is `a` or `b`.
pub open spec fn either(text: Option<Seq<char>>, a: Seq<char>, b: Seq<char>) -> bool {
    text == Some(a) || text == Some(b)
}

impl ParsedModel {
    /// The actions of a `list` command.
    pub open spec fn list_actions(self) -> Seq<ConsoleAction> {
        if either(self.kind, "archetypes"@, "archetype"@) {
            seq![ConsoleAction::ListArchetypes]
        } else if either(self.kind, "entities"@, "entity"@) {
            seq![ConsoleAction::ListEntities]
        } else if either(self.kind, "resources"@, "resource"@) {
            seq![ConsoleAction::ListResources]
        } else if either(self.kind, "components"@, "component"@) {
            seq![ConsoleAction::ListComponents]
        } else {
            Seq::empty()
        }
    }

    /// The actions of a `find` command: for archetypes one search by
    /// component and one by entity, each if its number was given; for
    /// entities the search by component.
    pub open spec fn find_actions(self) -> Seq<ConsoleAction> {
        if either(self.kind, "archetypes"@, "archetype"@) {
            let by_component = match self.component_id {
                Some(c) => seq![ConsoleAction::FindArchetypesByComponent(c)],
                None => Seq::empty(),
            };
            let by_entity = match self.entity_id {
                Some(e) => seq![ConsoleAction::FindArchetypesByEntity(e)],
                None => Seq::empty(),
            };
            by_component + by_entity
        } else if either(self.kind, "entities"@, "entity"@) {
            match self.component_id {
                Some(c) => seq![ConsoleAction::FindEntitiesByComponent(c)],
                None => Seq::empty(),
            }
        } else {
            Seq::empty()
        }
    }

    /// The actions of an `info` command.
    pub open spec fn info_actions(self) -> Seq<ConsoleAction> {
        if self.kind is None {
            seq![ConsoleAction::InvalidType]
        } else if self.kind == Some("archetype"@) {
            match self.id {
                Some(i) => seq![ConsoleAction::InfoArchetype(i)],
                None => Seq::empty(),
            }
        } else if self.kind == Some("component"@) {
            match self.id {
                Some(i) => seq![ConsoleAction::InfoComponent(i)],
                None => Seq::empty(),
            }
        } else {
            Seq::empty()
        }
    }

    /// The actions that the command asks for, in order.
    pub open spec fn actions(self) -> Seq<ConsoleAction> {
        if self.name == Some("resume"@) {
            seq![ConsoleAction::Resume]
        } else if self.name == Some("quit"@) {
            seq![ConsoleAction::Quit]
        } else if self.name == Some("list"@) {
            self.list_actions()
        } else if self.name == Some("counts"@) {
            seq![ConsoleAction::Counts]
        } else if self.name == Some("find"@) {
            self.find_actions()
        } else if self.name == Some("info"@) {
            self.info_actions()
        } else {
            Seq::empty()
        }
    }
}

/// Whether `text` is the word `word`.
fn is_word(text: &Option<String>, word: &str) -> (b: bool)
    ensures
        b == (text_of(*text) == Some(word@)),
{
    match text {
        Some(s) => *s == word.to_owned(),
        None => false,
    }
}

/// Whether `text` is one of the words `a` and `b`.
fn is_either(text: &Option<String>, a: &str, b: &str) -> (r: bool)
    ensures
        r == either(text_of(*text), a@, b@),
{
    is_word(text, a) || is_word(text, b)
}

/// Decides what a parsed command asks for.
pub fn console_actions(parsed: &ParsedCommand) -> (actions: Vec<ConsoleAction>)
    ensures
        actions@ == parsed@.actions(),
{
    let mut actions: Vec<ConsoleAction> = Vec::new();
    if is_word(&parsed.name, "resume") {
        actions.push(ConsoleAction::Resume);
    } else if is_word(&parsed.name, "quit") {
        actions.push(ConsoleAction::Quit);
    } else if is_word(&parsed.name, "list") {
        if is_either(&parsed.kind, "archetypes", "archetype") {
            actions.push(ConsoleAction::ListArchetypes);
        } else if is_either(&parsed.kind, "entities", "entity") {
            actions.push(ConsoleAction::ListEntities);
        } else if is_either(&parsed.kind, "resources", "resource") {
            actions.push(ConsoleAction::ListResources);
        } else if is_either(&parsed.kind, "components", "component") {
            actions.push(ConsoleAction::ListComponents);
        }
    } else if is_word(&parsed.name, "counts") {
        actions.push(ConsoleAction::Counts);
    } else if is_word(&parsed.name, "find") {
        if is_either(&parsed.kind, "archetypes", "archetype") {
            if let Some(c) = parsed.component_id {
                actions.push(ConsoleAction::FindArchetypesByComponent(c));
            }
            if let Some(e) = parsed.entity_id {
                actions.push(ConsoleAction::FindArchetypesByEntity(e));
            }
        } else if is_either(&parsed.kind, "entities", "entity") {
            if let Some(c) = parsed.component_id {
                actions.push(ConsoleAction::FindEntitiesByComponent(c));
            }
        }
    } else if is_word(&parsed.name, "info") {
        if parsed.kind.is_none() {
            actions.push(ConsoleAction::InvalidType);
        } else if is_word(&parsed.kind, "archetype") {
            if let Some(i) = parsed.id {
                actions.push(ConsoleAction::InfoArchetype(i));
            }
        } else if is_word(&parsed.kind, "component") {
            if let Some(i) = parsed.id {
                actions.push(ConsoleAction::InfoComponent(i));
            }
        }
    }
    assert(actions@ =~= parsed@.actions());
    actions
}

/// The number that `text` spells, if it fits the machine's word.
pub open spec fn parsed_usize(text: Seq<char>) -> Option<usize> {
    match parsed_u64(text) {
        Some(n) => if n <= usize::MAX {
            Some(n as usize)
        } else {
            None
        },
        None => None,
    }
}

/// The number that an optional text spells, as a `usize`.
fn number_of(text: &Option<String>) -> (n: Option<usize>)
    ensures
        n == match text_of(*text) {
            Some(t) => parsed_usize(t),
            None => None,
        },
{
    match text {
        Some(t) => match parse_u64(t.as_str()) {
            Some(n) => if n <= usize::MAX as u64 {
                Some(n as usize)
            } else {
                None
            },
            None => None,
        },
        None => None,
    }
}

/// The number that an optional text spells, as a `u32`.
fn small_number_of(text: &Option<String>) -> (n: Option<u32>)
    ensures
        n == match text_of(*text) {
            Some(t) => parsed_u32(t),
            None => None,
        },
{
    match text {
        Some(t) => parse_u32(t.as_str()),
        None => None,
    }
}

/// The usage of the option `--filter` of `list`.
pub open spec fn filter_usage() -> Seq<char> {
    "--filter [Filter] 'filter list'"@
}

/// The usage of the option `--componentid` of `find`.
pub open spec fn component_id_usage() -> Seq<char> {
    "--componentid   [ComponentId]   'find types that have components with ComponentId'"@
}

/// The usage of the option `--componentname` of `find`.
pub open spec fn component_name_usage() -> Seq<char> {
    "--componentname [ComponentName] 'find types that have components with ComponentName'"@
}

/// The usage of the option `--entityid` of `find`.
pub open spec fn entity_id_usage() -> Seq<char> {
    "--entityid      [EntityId]      'find types that have entities with EntityId, only works for archetypes"@
}

/// The usage of the option `--id` of `info`.
pub open spec fn id_usage() -> Seq<char> {
    "--id   [Id]   'id to get'"@
}

/// The usage of the option `--name` of `info`.
pub open spec fn name_usage() -> Seq<char> {
    "--name [Name] 'name to get, only works for component and system'"@
}

/// Whether `usage` is the usage of one of the console's options.
pub open spec fn console_usage(usage: Seq<char>) -> bool {
    ||| usage == filter_usage()
    ||| usage == component_id_usage()
    ||| usage == component_name_usage()
    ||| usage == entity_id_usage()
    ||| usage == id_usage()
    ||| usage == name_usage()
}

/// The first positional argument, `type`, which takes one of `values`.
pub open spec fn type_argument(values: Seq<Seq<char>>, required: bool) -> ArgModel {
    ArgModel { id: "type"@, index: Some(1usize), values, required }
}

/// The arguments of `list`: the type, which must be given, and a filter.
pub open spec fn list_arguments() -> Seq<ArgModel> {
    seq![
        type_argument(
            seq!["archetypes"@, "components"@, "entities"@, "systems"@, "resources"@],
            true,
        ),
        usage_argument(filter_usage()),
    ]
}

/// The arguments of `find`: the type, and the numbers and the name to find by.
pub open spec fn find_arguments() -> Seq<ArgModel> {
    seq![
        type_argument(
            seq!["archetypes"@, "archetype"@, "entities"@, "entity"@, "systems"@, "system"@],
            false,
        ),
        usage_argument(component_id_usage()),
        usage_argument(component_name_usage()),
        usage_argument(entity_id_usage()),
    ]
}

/// The arguments of `info`: the type, and the number or the name to look up.
pub open spec fn info_arguments() -> Seq<ArgModel> {
    seq![
        type_argument(seq!["archetype"@, "component"@, "entity"@, "system"@], false),
        usage_argument(id_usage()),
        usage_argument(name_usage()),
    ]
}

/// The commands of the console, in the order the help lists them.
pub open spec fn console_commands() -> Seq<CommandModel> {
    seq![
        CommandModel {
            name: "resume"@,
            about: "resume running game"@,
            arguments: Seq::empty(),
        },
        CommandModel { name: "quit"@, about: "quit game"@, arguments: Seq::empty() },
        CommandModel {
            name: "counts"@,
            about: "print counts of archetypes, components, and entities"@,
            arguments: Seq::empty(),
        },
        CommandModel {
            name: "list"@,
            about: "print a list of <type>"@,
            arguments: list_arguments(),
        },
        CommandModel {
            name: "find"@,
            about: "find archetypes, systems, and entities"@,
            arguments: find_arguments(),
        },
        CommandModel {
            name: "info"@,
            about: "get info about a single thing"@,
            arguments: info_arguments(),
        },
    ]
}

/// Builds the arguments of `list`.
fn build_list_arguments() -> (arguments: Vec<clap::Arg<'static>>)
    ensures
        arguments_of(arguments@) == list_arguments(),
{
    let mut types: Vec<&'static str> = Vec::new();
    types.push("archetypes");
    types.push("components");
    types.push("entities");
    types.push("systems");
    types.push("resources");
    assert(texts(types@) =~= seq![
        "archetypes"@,
        "components"@,
        "entities"@,
        "systems"@,
        "resources"@,
    ]);
    let mut arguments: Vec<clap::Arg<'static>> = Vec::new();
    arguments.push(positional("type", 1, types, true));
    arguments.push(option_from_usage("--filter [Filter] 'filter list'"));
    assert(arguments_of(arguments@) =~= list_arguments());
    arguments
}

/// Builds the arguments of `find`.
fn build_find_arguments() -> (arguments: Vec<clap::Arg<'static>>)
    ensures
        arguments_of(arguments@) == find_arguments(),
{
    let mut types: Vec<&'static str> = Vec::new();
    types.push("archetypes");
    types.push("archetype");
    types.push("entities");
    types.push("entity");
    types.push("systems");
    types.push("system");
    assert(texts(types@) =~= seq![
        "archetypes"@,
        "archetype"@,
        "entities"@,
        "entity"@,
        "systems"@,
        "system"@,
    ]);
    let mut arguments: Vec<clap::Arg<'static>> = Vec::new();
    arguments.push(positional("type", 1, types, false));
    arguments.push(
        option_from_usage(
            "--componentid   [ComponentId]   'find types that have components with ComponentId'",
        ),
    );
    arguments.push(
        option_from_usage(
            "--componentname [ComponentName] 'find types that have components with ComponentName'",
        ),
    );
    arguments.push(
        option_from_usage(
            "--entityid      [EntityId]      'find types that have entities with EntityId, only works for archetypes",
        ),
    );
    assert(arguments_of(arguments@) =~= find_arguments());
    arguments
}

/// Builds the arguments of `info`.
fn build_info_arguments() -> (arguments: Vec<clap::Arg<'static>>)
    ensures
        arguments_of(arguments@) == info_arguments(),
{
    let mut types: Vec<&'static str> = Vec::new();
    types.push("archetype");
    types.push("component");
    types.push("entity");
    types.push("system");
    assert(texts(types@) =~= seq!["archetype"@, "component"@, "entity"@, "system"@]);
    let mut arguments: Vec<clap::Arg<'static>> = Vec::new();
    arguments.push(positional("type", 1, types, false));
    arguments.push(option_from_usage("--id   [Id]   'id to get'"));
    arguments.push(
        option_from_usage("--name [Name] 'name to get, only works for component and system'"),
    );
    assert(arguments_of(arguments@) =~= info_arguments());
    arguments
}

/// The grammar of the console: a command without a name that holds the
/// commands `resume`, `quit`, `counts`, `list`, `find` and `info`, each with
/// its help text and its arguments.
fn console_grammar() -> (app: clap::App<'static>)
    ensures
        subcommands(app) == console_commands(),
{
    let app = root_command("");
    let app = with_command(app, "resume", "resume running game", Vec::new());
    let app = with_command(app, "quit", "quit game", Vec::new());
    let app = with_command(
        app,
        "counts",
        "print counts of archetypes, components, and entities",
        Vec::new(),
    );
    assert(arguments_of(Seq::<clap::Arg<'static>>::empty()) =~= Seq::<ArgModel>::empty());
    let app = with_command(app, "list", "print a list of <type>", build_list_arguments());
    let app = with_command(
        app,
        "find",
        "find archetypes, systems, and entities",
        build_find_arguments(),
    );
    let app = with_command(app, "info", "get info about a single thing", build_info_arguments());
    assert(subcommands(app) =~= console_commands());
    app
}

/// The value that `values` holds for the argument `id`, if any.
pub open spec fn value_of(values: Map<Seq<char>, Seq<char>>, id: Seq<char>) -> Option<Seq<char>> {
    if values.dom().contains(id) {
        Some(values[id])
    } else {
        None
    }
}

/// The number that the value of the argument `id` spells, as a `usize`.
pub open spec fn number_in(values: Map<Seq<char>, Seq<char>>, id: Seq<char>) -> Option<usize> {
    match value_of(values, id) {
        Some(text) => parsed_usize(text),
        None => None,
    }
}

/// The number that the value of the argument `id` spells, as a `u32`.
pub open spec fn small_number_in(values: Map<Seq<char>, Seq<char>>, id: Seq<char>) -> Option<
    u32,
> {
    match value_of(values, id) {
        Some(text) => parsed_u32(text),
        None => None,
    }
}

/// The command that a subcommand's name and the values of its arguments
/// stand for. Without a subcommand nothing is set. With one, the type is
/// the value of `type`, and each number is what the value of its option
/// spells: `componentid` and `id` as `usize`, `entityid` as `u32`.
pub open spec fn command_of(name: Option<Seq<char>>, values: Map<Seq<char>, Seq<char>>) -> ParsedModel {
    match name {
        None => ParsedModel {
            name: None,
            kind: None,
            component_id: None,
            entity_id: None,
            id: None,
        },
        Some(name) => ParsedModel {
            name: Some(name),
            kind: value_of(values, "type"@),
            component_id: number_in(values, "componentid"@),
            entity_id: small_number_in(values, "entityid"@),
            id: number_in(values, "id"@),
        },
    }
}

/// Reads what clap found on a command line into plain values: the
/// subcommand's name, the value of its argument `type`, and the numbers
/// that the values of `componentid`, `entityid` and `id` spell.
pub fn read_command(matches: &clap::ArgMatches) -> (parsed: ParsedCommand)
    ensures
        parsed@ == command_of(subcommand_name(*matches), subcommand_values(*matches)),
{
    match subcommand_of(matches) {
        None => ParsedCommand {
            name: None,
            kind: None,
            component_id: None,
            entity_id: None,
            id: None,
        },
        Some((name, sub)) => {
            let kind = string_value(&sub, "type");
            let component_id = number_of(&string_value(&sub, "componentid"));
            let entity_id = small_number_of(&string_value(&sub, "entityid"));
            let id = number_of(&string_value(&sub, "id"));
            ParsedCommand { name: Some(name), kind, component_id, entity_id, id }
        },
    }
}

/// The words handed to clap for `line`: an empty program name, then the
/// words of the line.
pub open spec fn console_words(line: Seq<char>) -> Seq<Seq<char>> {
    seq![Seq::<char>::empty()] + whitespace_words(line)
}

/// Splits a line typed at the console into the words to match: an empty
/// program name, then the words of the line.
pub fn console_args(line: &str) -> (args: Vec<String>)
    ensures
        strings(args@) == console_words(line@),
{
    let mut args: Vec<String> = Vec::new();
    args.push(String::new());
    let mut typed = words(line);
    let ghost typed_words = typed@;
    args.append(&mut typed);
    assert forall|i: int| 0 <= i < args@.len() implies args@[i]@ == console_words(line@)[i] by {
        if i > 0 {
            assert(args@[i] == typed_words[i - 1]);
        }
    }
    assert(strings(args@) =~= console_words(line@));
    args
}

/// Interprets one line typed at the console. The line is split at white
/// space and matched by clap against the console's grammar. A line that
/// clap rejects, a call for help among them, gives the text to print. Any
/// other line gives the actions of the command that clap found.
pub fn parse_input(line: &str) -> (outcome: ConsoleOutcome)
    ensures
        exists|app: clap::App<'static>|
            #[trigger] subcommands(app) == console_commands() && match matched(
                app,
                console_words(line@),
            ) {
                Some(found) => outcome matches ConsoleOutcome::Actions(actions) && actions@
                    == command_of(found.0, found.1).actions(),
                None => outcome is Rejected,
            },
{
    let app = console_grammar();
    let ghost grammar = app;
    let outcome = match match_args(app, console_args(line)) {
        Err(error) => ConsoleOutcome::Rejected(error_text(&error)),
        Ok(found) => ConsoleOutcome::Actions(console_actions(&read_command(&found))),
    };
    assert(subcommands(grammar) == console_commands() && match matched(
        grammar,
        console_words(line@),
    ) {
        Some(found) => outcome matches ConsoleOutcome::Actions(actions) && actions@ == command_of(
            found.0,
            found.1,
        ).actions(),
        None => outcome is Rejected,
    });
    outcome
}

/// Pauses the game on a key and reads debugging commands.
pub struct ConsoleDebugPlugin;

impl ConsoleDebugPlugin {
    /// The systems this plugin registers, in order. Both are registered for
    /// every tick and without declared access. The scheduler knows no run
    /// criterion: the caller runs `parse_input` only in a tick for which
    /// `pause` answers `YesAndCheckAgain`.
    pub open spec fn systems() -> Seq<SystemModel> {
        seq![SystemModel::named("input_pause"@), SystemModel::named("parse_input"@)]
    }

    /// Registers the plugin's systems with the scheduler, after those
    /// already registered.
    pub fn build(&self, app: &mut Scheduler)
        ensures
            final(app).systems() == old(app).systems() + Self::systems(),
    {
        app.register(SystemSpec::new("input_pause"));
        app.register(SystemSpec::new("parse_input"));
        assert(app.systems() =~= old(app).systems() + Self::systems());
    }
}

} // verus!
