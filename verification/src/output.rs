//! What a run prints, given what it read: the text for standard output and for
//! standard error of each action.
use vstd::prelude::*;
use vstd::string::*;
use crate::shell_hooks::{get_hook_script, hook_source};
use crate::summary::AwsProfileSummary;
use crate::table::{format_profile_summaries, profile_table, summaries_view};
use crate::text::{opt_view, strings_view, trim_spec};

verus! {

/// Each name on a line of its own.
pub open spec fn lines_of(names: Seq<Seq<char>>) -> Seq<char>
    decreases names.len(),
{
    if names.len() == 0 {
        Seq::empty()
    } else {
        lines_of(names.drop_last()) + names.last() + "\n"@
    }
}

/// What `--list` prints: the table of the profiles, then a line end.
pub fn table_output(summaries: &[AwsProfileSummary]) -> (r: String)
    ensures
        r@ == profile_table(summaries_view(summaries@)) + "\n"@,
{
    let mut out = format_profile_summaries(summaries);
    out.append("\n");
    out
}

/// What `list-profiles` prints: each profile on a line of its own, in order.
pub fn profile_lines(profiles: &[String]) -> (r: String)
    ensures
        r@ == lines_of(strings_view(profiles@)),
{
    let mut out = String::new();
    let mut i: usize = 0;
    while i < profiles.len()
        invariant
            i <= profiles@.len(),
            out@ == lines_of(strings_view(profiles@).take(i as int)),
        decreases profiles.len() - i,
    {
        let ghost before = out@;
        out.append(profiles[i].as_str());
        out.append("\n");
        proof {
            let s = strings_view(profiles@);
            assert(s.take(i + 1).drop_last() =~= s.take(i as int));
            assert(s.take(i + 1).last() == profiles@[i as int]@);
        }
        i = i + 1;
    }
    assert(strings_view(profiles@).take(profiles@.len() as int) =~= strings_view(profiles@));
    out
}

/// What `current-profile` prints: the remembered profile on a line, or nothing.
pub fn current_profile_output(profile: Option<String>) -> (r: String)
    ensures
        r@ == match opt_view(profile) {
            Some(p) => p + "\n"@,
            None => Seq::<char>::empty(),
        },
{
    match profile {
        Some(p) => {
            let mut out = p;
            out.append("\n");
            out
        },
        None => String::new(),
    }
}

/// What a switch to `profile` reports, as standard output and standard error: the hook
/// reads the name back from standard output, a user reads a sentence on standard error.
pub fn switch_output(profile: &str, from_hook: bool) -> (r: (String, String))
    ensures
        from_hook ==> r.0@ == profile@ + "\n"@ && r.1@ == Seq::<char>::empty(),
        !from_hook ==> r.0@ == Seq::<char>::empty() && r.1@ == "Switched to AWS profile: "@ + profile@ + "\n"@,
{
    if from_hook {
        let mut out: String = profile.to_owned();
        out.append("\n");
        (out, String::new())
    } else {
        let mut err: String = "Switched to AWS profile: ".to_owned();
        err.append(profile);
        err.append("\n");
        (String::new(), err)
    }
}

/// What `init SHELL` prints: the hook for the shell, then a line end, on standard output;
/// for a shell without a hook, the message for standard error (the run then fails).
pub fn hook_output(shell: &str) -> (r: Result<String, String>)
    ensures
        match hook_source(shell@) {
            Some(script) => r matches Ok(s) && s@ == trim_spec(script) + "\n"@,
            None => r matches Err(e) && e@ == "Unsupported shell: "@ + shell@
                + ". Supported shells are bash, zsh, fish, powershell.\n"@,
        },
{
    match get_hook_script(shell) {
        Some(script) => {
            let mut out = script;
            out.append("\n");
            Ok(out)
        },
        None => {
            let mut e: String = "Unsupported shell: ".to_owned();
            e.append(shell);
            e.append(". Supported shells are bash, zsh, fish, powershell.\n");
            Err(e)
        },
    }
}

} // verus!
