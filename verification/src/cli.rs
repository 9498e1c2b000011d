//! The command line: its grammar, built with `clap`'s builder, the arguments it
//! parses into, and the decisions taken on them (what to run, whether a profile
//! to switch to exists, where the picker starts).
use vstd::prelude::*;
use vstd::string::*;
use clap::{Arg, ArgAction, ArgMatches, Command};
use crate::text::{opt_view, str_eq, strings_view};

verus! {

#[verifier::external_type_specification]
#[verifier::external_body]
pub struct ExCommand(Command);

#[verifier::external_type_specification]
#[verifier::external_body]
pub struct ExArg(Arg);

#[verifier::external_type_specification]
#[verifier::external_body]
pub struct ExArgMatches(ArgMatches);

// ---------------------------------------------------------------------------
// What the grammar and the matches hold
// ---------------------------------------------------------------------------

/// What an argument was made with, as clap's getters report it: its id (`Arg::get_id`), its
/// long option name (`Arg::get_long`), whether it is required (`Arg::is_required_set`), and
/// whether its action is `ArgAction::SetTrue` (`Arg::get_action`).
pub uninterp spec fn arg_model(arg: Arg) -> (Seq<char>, Option<Seq<char>>, bool, bool);

/// Whether every other setting of an argument is clap's default: all but its id, long option
/// name, required setting, help text and value name, with no action set other than `SetTrue`
/// and at most one value name.
pub uninterp spec fn arg_plain(arg: Arg) -> bool;

/// The grammar of a command, as clap's getters report it: its name (`Command::get_name`),
/// its arguments in the order they were added (`Command::get_arguments`, each as `arg_model`
/// reports it), its subcommands in the order they were added (`Command::get_subcommands`,
/// each by its name and arguments), and whether its arguments conflict with its subcommands
/// (`Command::is_args_conflicts_with_subcommands_set`).
pub uninterp spec fn command_model(cmd: Command) -> (
    Seq<char>,
    Seq<(Seq<char>, Option<Seq<char>>, bool, bool)>,
    Seq<(Seq<char>, Seq<(Seq<char>, Option<Seq<char>>, bool, bool)>)>,
    bool,
);

/// Whether every other setting of a command, of its arguments and of its subcommands is
/// clap's default: all but what `command_model` reports, descriptions, help texts, value
/// names (at most one per argument), display order and help headings. Its subcommands thus
/// have no subcommands of their own, and their arguments conflict with nothing.
pub uninterp spec fn command_plain(cmd: Command) -> bool;

/// What clap's parse of the arguments (the first being the program's name) by a plain command
/// with this grammar gives: `None` when clap reports an error (a request for help among
/// them), else the parse's `bool` values, `String` values and subcommand, as
/// `matches_flags`, `matches_strings` and `matches_subcommand` read them.
pub uninterp spec fn clap_parse(
    grammar: (
        Seq<char>,
        Seq<(Seq<char>, Option<Seq<char>>, bool, bool)>,
        Seq<(Seq<char>, Seq<(Seq<char>, Option<Seq<char>>, bool, bool)>)>,
        bool,
    ),
    args: Seq<Seq<char>>,
) -> Option<(Map<Seq<char>, bool>, Map<Seq<char>, Seq<char>>, Option<(Seq<char>, Map<Seq<char>, Seq<char>>)>)>;

/// The arguments of a parse whose first value is a `bool`, with that value.
pub uninterp spec fn matches_flags(m: ArgMatches) -> Map<Seq<char>, bool>;

/// The arguments of a parse whose first value is a `String`, with that value.
pub uninterp spec fn matches_strings(m: ArgMatches) -> Map<Seq<char>, Seq<char>>;

/// The subcommand of a parse, if one was given: its name and the string values of its
/// arguments (as `matches_strings` of its own matches).
pub uninterp spec fn matches_subcommand(m: ArgMatches) -> Option<(Seq<char>, Map<Seq<char>, Seq<char>>)>;

/// Views of string slices.
pub open spec fn str_slices_view(s: Seq<&str>) -> Seq<Seq<char>> {
    s.map_values(|x: &str| x@)
}

/// The grammar `awsx_command` builds: `awsx [--list] [PROFILE]`, the `--list` flag set to
/// true when given, and the subcommands `init SHELL` (the shell required), `switch
/// [PROFILE]`, `list-profiles` and `current-profile`, the arguments and the subcommands
/// excluding each other.
pub open spec fn awsx_grammar() -> (
    Seq<char>,
    Seq<(Seq<char>, Option<Seq<char>>, bool, bool)>,
    Seq<(Seq<char>, Seq<(Seq<char>, Option<Seq<char>>, bool, bool)>)>,
    bool,
) {
    (
        "awsx"@,
        seq![("list"@, Some("list"@), false, true), ("profile"@, None, false, false)],
        seq![
            ("init"@, seq![("shell"@, None, true, false)]),
            ("switch"@, seq![("profile"@, None, false, false)]),
            ("list-profiles"@, Seq::empty()),
            ("current-profile"@, Seq::empty()),
        ],
        true,
    )
}

// ---------------------------------------------------------------------------
// Trusted wrappers of clap's builder and matches. The builder's wrappers state what
// each call does to the grammar of a command (`command_model`) or to what an argument
// was made with (`arg_model`), and that it keeps every other setting at clap's default
// (`command_plain`, `arg_plain`); the texts they set (descriptions, help texts, value
// names) are not modelled.
// ---------------------------------------------------------------------------

/// `Command::new`: a command of that name, with no arguments, no subcommands and default
/// settings.
#[verifier::external_body]
fn command_new(name: &'static str) -> (r: Command)
    ensures
        command_model(r) == (
            name@,
            Seq::<(Seq<char>, Option<Seq<char>>, bool, bool)>::empty(),
            Seq::<(Seq<char>, Seq<(Seq<char>, Option<Seq<char>>, bool, bool)>)>::empty(),
            false,
        ),
        command_plain(r),
{
    Command::new(name)
}

/// `Command::about`: the command with that description, its grammar unchanged.
#[verifier::external_body]
fn command_about(cmd: Command, about: &'static str) -> (r: Command)
    ensures
        command_model(r) == command_model(cmd),
        command_plain(cmd) ==> command_plain(r),
{
    cmd.about(about)
}

/// `Command::arg`: the command with the argument added after the others (clap sets only its
/// display order and help heading).
#[verifier::external_body]
fn command_arg(cmd: Command, arg: Arg) -> (r: Command)
    ensures
        command_model(r) == (
            command_model(cmd).0,
            command_model(cmd).1.push(arg_model(arg)),
            command_model(cmd).2,
            command_model(cmd).3,
        ),
        command_plain(cmd) && arg_plain(arg) ==> command_plain(r),
{
    cmd.arg(arg)
}

/// `Command::subcommand`: the command with the subcommand added after the others (clap sets
/// only its display order).
#[verifier::external_body]
fn command_subcommand(cmd: Command, sub: Command) -> (r: Command)
    ensures
        command_model(r) == (
            command_model(cmd).0,
            command_model(cmd).1,
            command_model(cmd).2.push((command_model(sub).0, command_model(sub).1)),
            command_model(cmd).3,
        ),
        command_plain(cmd) && command_plain(sub) && command_model(sub).2.len() == 0 && !command_model(sub).3
            ==> command_plain(r),
{
    cmd.subcommand(sub)
}

/// `Command::args_conflicts_with_subcommands`: the command with that setting, the rest of its
/// grammar unchanged.
#[verifier::external_body]
fn command_args_conflicts_with_subcommands(cmd: Command, yes: bool) -> (r: Command)
    ensures
        command_model(r) == (command_model(cmd).0, command_model(cmd).1, command_model(cmd).2, yes),
        command_plain(cmd) ==> command_plain(r),
{
    cmd.args_conflicts_with_subcommands(yes)
}

/// `Arg::new`: an argument with that id, no long option name, not required, no action set,
/// and default settings.
#[verifier::external_body]
fn arg_new(id: &'static str) -> (r: Arg)
    ensures
        arg_model(r) == (id@, None::<Seq<char>>, false, false),
        arg_plain(r),
{
    Arg::new(id)
}

/// `Arg::long`: the argument with that long option name.
#[verifier::external_body]
fn arg_long(arg: Arg, long: &'static str) -> (r: Arg)
    ensures
        arg_model(r) == (arg_model(arg).0, Some(long@), arg_model(arg).2, arg_model(arg).3),
        arg_plain(arg) ==> arg_plain(r),
{
    arg.long(long)
}

/// `Arg::help`: the argument with that help text, what it was made with unchanged.
#[verifier::external_body]
fn arg_help(arg: Arg, help: &'static str) -> (r: Arg)
    ensures
        arg_model(r) == arg_model(arg),
        arg_plain(arg) ==> arg_plain(r),
{
    arg.help(help)
}

/// `Arg::value_name`: the argument with that one value name, what it was made with
/// unchanged.
#[verifier::external_body]
fn arg_value_name(arg: Arg, name: &'static str) -> (r: Arg)
    ensures
        arg_model(r) == arg_model(arg),
        arg_plain(arg) ==> arg_plain(r),
{
    arg.value_name(name)
}

/// `Arg::required`: the argument with that setting.
#[verifier::external_body]
fn arg_required(arg: Arg, yes: bool) -> (r: Arg)
    ensures
        arg_model(r) == (arg_model(arg).0, arg_model(arg).1, yes, arg_model(arg).3),
        arg_plain(arg) ==> arg_plain(r),
{
    arg.required(yes)
}

/// `Arg::action` with `ArgAction::SetTrue`: the argument made a flag that takes no value and
/// is set to true when given.
#[verifier::external_body]
fn arg_flag(arg: Arg) -> (r: Arg)
    ensures
        arg_model(r) == (arg_model(arg).0, arg_model(arg).1, arg_model(arg).2, true),
        arg_plain(arg) ==> arg_plain(r),
{
    arg.action(ArgAction::SetTrue)
}

/// `Command::try_get_matches_from`: clap's parse of the arguments (the first being the
/// program's name), `None` when clap reports an error (a request for help among them). In
/// debug builds clap first checks the grammar and panics on a contradictory one; the
/// command is required to be the plain grammar of `awsx_command`, which those checks pass.
#[verifier::external_body]
fn command_try_get_matches_from(cmd: Command, args: &[&str]) -> (r: Option<ArgMatches>)
    requires
        command_plain(cmd),
        command_model(cmd) == awsx_grammar(),
    ensures
        match (r, clap_parse(command_model(cmd), str_slices_view(args@))) {
            (None, None) => true,
            (Some(m), Some(p)) => p == (matches_flags(m), matches_strings(m), matches_subcommand(m)),
            _ => false,
        },
{
    cmd.try_get_matches_from(args.iter().copied()).ok()
}

/// `ArgMatches::try_get_one::<bool>`: the first value of the argument when it is a `bool`,
/// else `None` (an unknown id, a value of another type and no value alike).
#[verifier::external_body]
fn matches_flag(m: &ArgMatches, id: &str) -> (r: Option<bool>)
    ensures
        r == matches_flags(*m).get(id@),
{
    m.try_get_one::<bool>(id).ok().flatten().copied()
}

/// `ArgMatches::try_get_one::<String>`: the first value of the argument when it is a
/// `String`, else `None` (an unknown id, a value of another type and no value alike).
#[verifier::external_body]
fn matches_value(m: &ArgMatches, id: &str) -> (r: Option<String>)
    ensures
        opt_view(r) == matches_strings(*m).get(id@),
{
    m.try_get_one::<String>(id).ok().flatten().cloned()
}

/// `ArgMatches::remove_subcommand`: the name and matches of the subcommand given, taken
/// out of `m`, whose argument values stay.
#[verifier::external_body]
fn matches_remove_subcommand(m: &mut ArgMatches) -> (r: Option<(String, ArgMatches)>)
    ensures
        matches_flags(*final(m)) == matches_flags(*old(m)),
        matches_strings(*final(m)) == matches_strings(*old(m)),
        matches_subcommand(*final(m)) is None,
        match (r, matches_subcommand(*old(m))) {
            (None, None) => true,
            (Some((name, sub)), Some((n, values))) => name@ == n && matches_strings(sub) == values,
            _ => false,
        },
{
    m.remove_subcommand()
}

// ---------------------------------------------------------------------------
// The grammar
// ---------------------------------------------------------------------------

/// The command line: `awsx [--list] [PROFILE]` or one of the subcommands `init SHELL`,
/// `switch [PROFILE]`, `list-profiles`, `current-profile` (the last three are internal,
/// for the shell hooks), the options and the subcommands excluding each other.
pub fn awsx_command() -> (r: Command)
    ensures
        command_model(r) == awsx_grammar(),
        command_plain(r),
{
    let list = arg_help(arg_flag(arg_long(arg_new("list"), "list")), "List available AWS profiles with metadata");
    let profile = arg_help(
        arg_value_name(arg_new("profile"), "PROFILE"),
        "Profile name to switch to directly (e.g., `awsx dev`)",
    );
    let shell = arg_help(
        arg_required(arg_value_name(arg_new("shell"), "SHELL"), true),
        "The shell to generate hooks for (bash, zsh, fish, powershell)",
    );
    let init = command_arg(command_about(command_new("init"), "Initialize the shell hook (e.g. `awsx init bash`)"), shell);
    let switch_profile = arg_help(
        arg_value_name(arg_new("profile"), "PROFILE"),
        "Optional profile to switch to without interactive prompt",
    );
    let switch = command_arg(
        command_about(command_new("switch"), "Internal command to perform the switch (used by shell hook)"),
        switch_profile,
    );
    let list_profiles = command_about(command_new("list-profiles"), "Internal command to get profiles for autocomplete");
    let current_profile = command_new("current-profile");
    let mut cmd = command_about(command_new("awsx"), "Interactive AWS profile switcher");
    cmd = command_args_conflicts_with_subcommands(cmd, true);
    cmd = command_arg(cmd, list);
    cmd = command_arg(cmd, profile);
    cmd = command_subcommand(cmd, init);
    cmd = command_subcommand(cmd, switch);
    cmd = command_subcommand(cmd, list_profiles);
    cmd = command_subcommand(cmd, current_profile);
    cmd
}

// ---------------------------------------------------------------------------
// Parsed arguments
// ---------------------------------------------------------------------------

/// The subcommands.
#[derive(Debug, PartialEq, Eq)]
pub enum Commands {
    /// Initialize the shell hook (e.g. `awsx init bash`)
    Init { shell: String },
    /// Internal command to perform the switch (used by shell hook)
    Switch { profile: Option<String> },
    /// Internal command to get profiles for autocomplete
    ListProfiles,
    CurrentProfile,
}

/// The arguments of one run.
#[derive(Debug, PartialEq, Eq)]
pub struct Cli {
    pub list: bool,
    pub profile: Option<String>,
    pub command: Option<Commands>,
}

/// The message clap gives for a required argument that is missing.
pub open spec fn missing_message(id: Seq<char>) -> Seq<char> {
    "the following required argument was not provided: "@ + id
}

/// The subcommand that a subcommand name and its arguments stand for: `Ok(None)` for a
/// name that is none of them, an error when `init` lacks its shell.
pub open spec fn commands_spec(name: Seq<char>, shell: Option<Seq<char>>, profile: Option<Seq<char>>) -> Result<
    Option<CommandsView>,
    Seq<char>,
> {
    if name == "init"@ {
        match shell {
            Some(s) => Ok(Some(CommandsView::Init { shell: s })),
            None => Err(missing_message("shell"@)),
        }
    } else if name == "switch"@ {
        Ok(Some(CommandsView::Switch { profile }))
    } else if name == "list-profiles"@ {
        Ok(Some(CommandsView::ListProfiles))
    } else if name == "current-profile"@ {
        Ok(Some(CommandsView::CurrentProfile))
    } else {
        Ok(None)
    }
}

/// The mathematical content of a subcommand.
pub enum CommandsView {
    Init { shell: Seq<char> },
    Switch { profile: Option<Seq<char>> },
    ListProfiles,
    CurrentProfile,
}

impl View for Commands {
    type V = CommandsView;

    open spec fn view(&self) -> CommandsView {
        match self {
            Commands::Init { shell } => CommandsView::Init { shell: shell@ },
            Commands::Switch { profile } => CommandsView::Switch { profile: opt_view(*profile) },
            Commands::ListProfiles => CommandsView::ListProfiles,
            Commands::CurrentProfile => CommandsView::CurrentProfile,
        }
    }
}

/// View of an optional subcommand.
pub open spec fn opt_commands_view(o: Option<Commands>) -> Option<CommandsView> {
    match o {
        Some(c) => Some(c@),
        None => None,
    }
}

/// The mathematical content of the arguments of one run.
pub struct CliView {
    pub list: bool,
    pub profile: Option<Seq<char>>,
    pub command: Option<CommandsView>,
}

impl View for Cli {
    type V = CliView;

    open spec fn view(&self) -> CliView {
        CliView { list: self.list, profile: opt_view(self.profile), command: opt_commands_view(self.command) }
    }
}

/// View of the arguments read, or of the message of the error.
pub open spec fn cli_result_view(r: Result<Cli, String>) -> Result<CliView, Seq<char>> {
    match r {
        Ok(cli) => Ok(cli@),
        Err(e) => Err(e@),
    }
}

/// The arguments that the values clap found stand for (see `Cli::from_parts`): the
/// `--list` flag, the direct profile, and the subcommand's name with its `shell` and
/// `profile` values.
pub open spec fn cli_from_parts_spec(
    list: Option<bool>,
    profile: Option<Seq<char>>,
    command: Option<(Seq<char>, Option<Seq<char>>, Option<Seq<char>>)>,
) -> Result<CliView, Seq<char>> {
    match list {
        None => Err(missing_message("list"@)),
        Some(l) => match command {
            None => Ok(CliView { list: l, profile, command: None }),
            Some((name, shell, sub_profile)) => match commands_spec(name, shell, sub_profile) {
                Ok(c) => Ok(CliView { list: l, profile, command: c }),
                Err(m) => Err(m),
            },
        },
    }
}

/// Views of the subcommand's name and values as `Cli::from_parts` takes them.
pub open spec fn command_parts_view(command: Option<(String, Option<String>, Option<String>)>) -> Option<
    (Seq<char>, Option<Seq<char>>, Option<Seq<char>>),
> {
    match command {
        Some((name, shell, profile)) => Some((name@, opt_view(shell), opt_view(profile))),
        None => None,
    }
}

/// The arguments that a parse's `bool` values, `String` values and subcommand stand for: the
/// `list` flag, the `profile` value, and the subcommand's name with its `shell` and
/// `profile` values.
pub open spec fn cli_from_values_spec(
    flags: Map<Seq<char>, bool>,
    strings: Map<Seq<char>, Seq<char>>,
    sub: Option<(Seq<char>, Map<Seq<char>, Seq<char>>)>,
) -> Result<CliView, Seq<char>> {
    cli_from_parts_spec(
        flags.get("list"@),
        strings.get("profile"@),
        match sub {
            Some((name, values)) => Some((name, values.get("shell"@), values.get("profile"@))),
            None => None,
        },
    )
}

/// What `Cli::from_matches` reads out of a parse.
pub open spec fn cli_from_matches_spec(m: ArgMatches) -> Result<CliView, Seq<char>> {
    cli_from_values_spec(matches_flags(m), matches_strings(m), matches_subcommand(m))
}

/// What parsing `args` by the grammar of `awsx_command` gives: `None` when clap refuses
/// them, else what is read out of its parse.
pub open spec fn cli_parse_spec(args: Seq<Seq<char>>) -> Option<Result<CliView, Seq<char>>> {
    match clap_parse(awsx_grammar(), args) {
        None => None,
        Some((flags, strings, sub)) => Some(cli_from_values_spec(flags, strings, sub)),
    }
}

/// View of a parse's outcome: `None` when clap refused the arguments, else what was read
/// or the message of the error.
pub open spec fn parse_result_view(r: Result<Cli, CliParseError>) -> Option<Result<CliView, Seq<char>>> {
    match r {
        Ok(cli) => Some(Ok(cli@)),
        Err(CliParseError::Rejected) => None,
        Err(CliParseError::MissingArgument(m)) => Some(Err(m@)),
    }
}

impl Commands {
    /// The subcommand called `name`, given the values clap found for its arguments.
    pub fn from_parts(name: &str, shell: Option<String>, profile: Option<String>) -> (r: Result<Option<Commands>, String>)
        ensures
            match (r, commands_spec(name@, opt_view(shell), opt_view(profile))) {
                (Ok(c), Ok(v)) => opt_commands_view(c) == v,
                (Err(e), Err(m)) => e@ == m,
                _ => false,
            },
    {
        if str_eq(name, "init") {
            match shell {
                Some(s) => Ok(Some(Commands::Init { shell: s })),
                None => {
                    let mut m: String = "the following required argument was not provided: ".to_owned();
                    m.append("shell");
                    Err(m)
                },
            }
        } else if str_eq(name, "switch") {
            Ok(Some(Commands::Switch { profile }))
        } else if str_eq(name, "list-profiles") {
            Ok(Some(Commands::ListProfiles))
        } else if str_eq(name, "current-profile") {
            Ok(Some(Commands::CurrentProfile))
        } else {
            Ok(None)
        }
    }
}

impl Cli {
    /// The arguments given the values clap found: the `--list` flag (which clap always
    /// sets, to false when absent), the direct profile, and the subcommand with its
    /// arguments.
    pub fn from_parts(
        list: Option<bool>,
        profile: Option<String>,
        command: Option<(String, Option<String>, Option<String>)>,
    ) -> (r: Result<Cli, String>)
        ensures
            list is None ==> (r matches Err(e) && e@ == missing_message("list"@)),
            list matches Some(l) ==> match command {
                None => (r matches Ok(cli) && cli.list == l && opt_view(cli.profile) == opt_view(profile)
                    && cli.command is None),
                Some((name, shell, sub_profile)) => match commands_spec(
                    name@,
                    opt_view(shell),
                    opt_view(sub_profile),
                ) {
                    Ok(v) => (r matches Ok(cli) && cli.list == l && opt_view(cli.profile) == opt_view(profile)
                        && opt_commands_view(cli.command) == v),
                    Err(m) => (r matches Err(e) && e@ == m),
                },
            },
            cli_result_view(r) == cli_from_parts_spec(list, opt_view(profile), command_parts_view(command)),
    {
        let list = match list {
            Some(l) => l,
            None => {
                let mut m: String = "the following required argument was not provided: ".to_owned();
                m.append("list");
                return Err(m);
            },
        };
        let command = match command {
            None => None,
            Some((name, shell, sub_profile)) => match Commands::from_parts(name.as_str(), shell, sub_profile) {
                Ok(c) => c,
                Err(e) => {
                    return Err(e);
                },
            },
        };
        Ok(Cli { list, profile, command })
    }

    /// Reads what clap matched by the grammar of `awsx_command` (see `Cli::from_parts`).
    pub fn from_matches(matches: ArgMatches) -> (r: Result<Cli, String>)
        ensures
            cli_result_view(r) == cli_from_matches_spec(matches),
    {
        let mut matches = matches;
        let list = matches_flag(&matches, "list");
        let profile = matches_value(&matches, "profile");
        let command = match matches_remove_subcommand(&mut matches) {
            Some((name, sub)) => {
                let shell = matches_value(&sub, "shell");
                let sub_profile = matches_value(&sub, "profile");
                Some((name, shell, sub_profile))
            },
            None => None,
        };
        Cli::from_parts(list, profile, command)
    }

    /// Parses the arguments (the first being the program's name) by the grammar of
    /// `awsx_command`. Clap decides what parses; what it accepts is read by
    /// `Cli::from_matches`.
    pub fn try_parse_from(args: &[&str]) -> (r: Result<Cli, CliParseError>)
        ensures
            parse_result_view(r) == cli_parse_spec(str_slices_view(args@)),
    {
        match command_try_get_matches_from(awsx_command(), args) {
            Some(matches) => match Cli::from_matches(matches) {
                Ok(cli) => Ok(cli),
                Err(message) => Err(CliParseError::MissingArgument(message)),
            },
            None => Err(CliParseError::Rejected),
        }
    }
}

/// Why arguments did not parse.
#[derive(Debug, PartialEq, Eq)]
pub enum CliParseError {
    /// Clap refused them (or they asked for help or the version).
    Rejected,
    /// A required argument had no value.
    MissingArgument(String),
}

// ---------------------------------------------------------------------------
// Decisions on the parsed arguments
// ---------------------------------------------------------------------------

/// What one run does.
#[derive(Debug, PartialEq, Eq)]
pub enum CliAction {
    /// Print the table of profiles.
    ListTable,
    /// Print the hook for a shell.
    InitHook { shell: String },
    /// Print the profile names, one per line.
    ListProfiles,
    /// Print the remembered profile, if any.
    CurrentProfile,
    /// Switch to the profile given, or to one picked interactively; `from_hook` when the
    /// shell hook asked (it reads the profile's name back), not the user directly.
    Switch { profile: Option<String>, from_hook: bool },
}

/// What a run with these arguments does: `--list` with a subcommand is an error; `--list`
/// prints the table; a subcommand does its part (`switch` as asked by the hook); with
/// neither, the run switches to the profile given, or asks for one.
pub fn plan_command(args: Cli) -> (r: Result<CliAction, String>)
    ensures
        args.list && args.command is Some ==> (r matches Err(e) && e@ == "--list cannot be combined with subcommands."@),
        args.list && args.command is None ==> r == Ok::<CliAction, String>(CliAction::ListTable),
        !args.list ==> match args.command {
            Some(Commands::Init { shell }) => (r matches Ok(CliAction::InitHook { shell: s }) && s@ == shell@),
            Some(Commands::ListProfiles) => r == Ok::<CliAction, String>(CliAction::ListProfiles),
            Some(Commands::CurrentProfile) => r == Ok::<CliAction, String>(CliAction::CurrentProfile),
            Some(Commands::Switch { profile }) => (r matches Ok(CliAction::Switch { profile: p, from_hook: true })
                && opt_view(p) == opt_view(profile)),
            None => (r matches Ok(CliAction::Switch { profile: p, from_hook: false }) && opt_view(p) == opt_view(
                args.profile,
            )),
        },
{
    if args.list && args.command.is_some() {
        return Err("--list cannot be combined with subcommands.".to_owned());
    }
    if args.list {
        return Ok(CliAction::ListTable);
    }
    match args.command {
        Some(Commands::Init { shell }) => Ok(CliAction::InitHook { shell }),
        Some(Commands::ListProfiles) => Ok(CliAction::ListProfiles),
        Some(Commands::CurrentProfile) => Ok(CliAction::CurrentProfile),
        Some(Commands::Switch { profile }) => Ok(CliAction::Switch { profile, from_hook: true }),
        None => Ok(CliAction::Switch { profile: args.profile, from_hook: false }),
    }
}

/// The error for a profile to switch to that does not exist.
pub open spec fn missing_profile_message(target: Seq<char>, from_hook: bool) -> Seq<char> {
    if from_hook {
        "Error: Profile '"@ + target + "' not found."@
    } else {
        "Profile '"@ + target + "' not found."@
    }
}

/// Whether the profile to switch to is one of `profiles`; if not, the error to report.
pub fn check_switch_target(profiles: &[String], target: &str, from_hook: bool) -> (r: Result<(), String>)
    ensures
        r is Ok <==> strings_view(profiles@).contains(target@),
        r matches Err(e) ==> e@ == missing_profile_message(target@, from_hook),
{
    let mut i: usize = 0;
    while i < profiles.len()
        invariant
            i <= profiles@.len(),
            forall|j: int| 0 <= j < i ==> profiles@[j]@ != target@,
        decreases profiles.len() - i,
    {
        if str_eq(profiles[i].as_str(), target) {
            assert(strings_view(profiles@)[i as int] == target@);
            return Ok(());
        }
        i = i + 1;
    }
    assert forall|j: int| 0 <= j < strings_view(profiles@).len() implies strings_view(profiles@)[j] != target@ by {
        assert(strings_view(profiles@)[j] == profiles@[j]@);
    }
    let mut e: String = if from_hook {
        "Error: Profile '".to_owned()
    } else {
        "Profile '".to_owned()
    };
    e.append(target);
    e.append("' not found.");
    Err(e)
}

/// Where the interactive picker starts: at the first profile named `current` (the
/// profile the shell has set), else at the top.
pub fn initial_cursor(profiles: &[String], current: &str) -> (r: usize)
    ensures
        (exists|j: int| 0 <= j < profiles@.len() && profiles@[j]@ == current@) ==> (r < profiles@.len()
            && profiles@[r as int]@ == current@ && forall|j: int| 0 <= j < r ==> profiles@[j]@ != current@),
        !(exists|j: int| 0 <= j < profiles@.len() && profiles@[j]@ == current@) ==> r == 0,
{
    let mut i: usize = 0;
    while i < profiles.len()
        invariant
            i <= profiles@.len(),
            forall|j: int| 0 <= j < i ==> profiles@[j]@ != current@,
        decreases profiles.len() - i,
    {
        if str_eq(profiles[i].as_str(), current) {
            return i;
        }
        i = i + 1;
    }
    0
}

} // verus!
