# awsx

Switch between the profiles of the shared AWS `config` and `credentials`
files from the terminal, with shell hooks for Bash, Zsh, Fish and PowerShell.

The crate is a library verified with Verus, and a small program around it.

## Layout

- `src/` — the verified library
  - `text.rs`: string helpers (equality, prefixes, Unicode white space and
    trimming, `split(..).nth(..)`, padding, joining, the byte order of strings)
  - `assoc.rs`: lists of key/value pairs read as maps
  - `ini_store.rs`: the `rust-ini` documents, modelled as their list of
    sections, and the trusted wrappers of the methods used
  - `profiles.rs`: collecting the profile records from `config` and
    `credentials`
  - `summary.rs`: account ids (following `source_profile`, stopping on
    cycles), kinds of authentication, details, and the listing order
  - `table.rs`: the `--list` table
  - `selection.rs`: remembering the selected profile, reading it back, and
    making a profile the `[default]` one
  - `shell_hooks.rs`: the hook scripts
  - `cli.rs`: the command-line grammar (built with clap's builder), the parsed
    arguments and the decisions taken on them
  - `output.rs`: what each action prints
- `app/main.rs` — the program: finds and reads the files, writes them back,
  prompts, prints
- `tests/` — tests of the library

Every function of the library's own in `src/` carries a contract that Verus
proves. The calls into `rust-ini` and `clap` go through small trusted wrappers
(marked `#[verifier::external_body]`, in `ini_store.rs` and `cli.rs`): their
contracts state what those crates' sources show and are believed, not proved.
The laws that relate several functions (reading back a remembered profile, what
switching leaves in `[default]`, the listing order, which sections define a
profile, that `credentials` settings win over `config` ones, that the profile
list is the summaries' names, where account ids come from, the alignment of the table) are
proof functions next to the code they speak of.
