//! awsx: switching between the profiles of the shared AWS `config` and
//! `credentials` files. The library reads the profiles those files define,
//! summarises them, lists them as a table, makes one of them the default,
//! remembers the selected one, and holds the command-line grammar and the shell
//! hooks; reading and writing the files is left to the program around it.

pub mod assoc;
pub mod cli;
pub mod ini_store;
pub mod output;
pub mod profiles;
pub mod selection;
pub mod shell_hooks;
pub mod summary;
pub mod table;
pub mod text;

pub use cli::{awsx_command, check_switch_target, initial_cursor, plan_command, Cli, CliAction, CliParseError, Commands};
pub use selection::{
    get_persisted_profile, get_selected_profile, parse_persisted_profile, persist_active_profile, read_persisted_profile,
    set_selected_profile, switch_rewrites_default, update_default_profile, update_default_profile_outcome, DefaultProfileUpdate,
};
pub use ini_store::load_ini_text;
pub use output::{current_profile_output, hook_output, profile_lines, switch_output, table_output};
pub use shell_hooks::get_hook_script;
pub use summary::{
    build_profile_summaries, config_profile_names, get_aws_profile_summaries, get_aws_profiles, parse_ini_content,
    AwsProfileSummary,
};
pub use table::format_profile_summaries;
