use vstd::prelude::*;

use crate::pkg::{DNFAction, PackageState, PackageStateV, action_for_state, action_for_state_spec};

verus! {

/// The subcommand of the package manager for each action.
pub open spec fn verb_spec(a: DNFAction) -> Seq<char> {
    match a {
        DNFAction::Install => "install"@,
        DNFAction::Upgrade => "upgrade"@,
        DNFAction::Remove => "remove"@,
    }
}

/// The subcommand passed to the package manager for each action.
pub fn action_verb(a: DNFAction) -> (v: &'static str)
    ensures
        v@ == verb_spec(a),
{
    match a {
        DNFAction::Install => "install",
        DNFAction::Upgrade => "upgrade",
        DNFAction::Remove => "remove",
    }
}

/// The trailing positional argument of the mutating command: the package file
/// path when a file is installed or upgraded, the bare package name when an
/// installed package is removed (removal does not reference a file).
pub open spec fn target_for_state_spec(
    s: PackageStateV,
    path: Seq<char>,
    name: Seq<char>,
) -> Seq<char> {
    if action_for_state_spec(s) == DNFAction::Remove {
        name
    } else {
        path
    }
}

/// The full argument list handed to the elevation wrapper: the wrapper's
/// interactive agent fallback is disabled, then the package manager runs the
/// action verb non-interactively (`-y`) on the target.
pub open spec fn elevated_args_spec(a: DNFAction, target: Seq<char>) -> Seq<Seq<char>> {
    seq!["--disable-internal-agent"@, "/usr/bin/dnf"@, verb_spec(a), "-y"@, target]
}

/// The privilege-elevation launcher that wraps every mutating command.
pub fn elevation_command() -> (c: &'static str)
    ensures
        c@ == "/usr/bin/pkexec"@,
{
    "/usr/bin/pkexec"
}

/// The package manager binary, both for the read-only listing and (under the
/// elevation wrapper) for the mutating actions.
pub fn package_manager_command() -> (c: &'static str)
    ensures
        c@ == "/usr/bin/dnf"@,
{
    "/usr/bin/dnf"
}

/// The arguments of the read-only command that lists installed packages.
pub fn listing_args() -> (args: Vec<String>)
    ensures
        args@.map_values(|s: String| s@) == seq!["list"@, "--installed"@],
{
    let mut args: Vec<String> = Vec::new();
    args.push(String::from_str("list"));
    args.push(String::from_str("--installed"));
    proof {
        assert(args@.map_values(|s: String| s@) =~= seq!["list"@, "--installed"@]);
    }
    args
}

/// Builds the argument list for the elevation wrapper running the given
/// action on the given target.
pub fn elevated_args(a: DNFAction, target: &str) -> (args: Vec<String>)
    ensures
        args@.map_values(|s: String| s@) == elevated_args_spec(a, target@),
{
    let mut args: Vec<String> = Vec::new();
    args.push(String::from_str("--disable-internal-agent"));
    args.push(String::from_str("/usr/bin/dnf"));
    args.push(String::from_str(action_verb(a)));
    args.push(String::from_str("-y"));
    args.push(target.to_owned());
    proof {
        assert(args@.map_values(|s: String| s@) =~= elevated_args_spec(a, target@));
    }
    args
}

/// Maps a detected state plus the package file path and package name to the
/// action taken and the argument list of the elevated mutating command.
pub fn dispatch(state: &PackageState, package_path: &str, package_name: &str) -> (r: (
    DNFAction,
    Vec<String>,
))
    ensures
        r.0 == action_for_state_spec(state@),
        r.1@.map_values(|s: String| s@) == elevated_args_spec(
            action_for_state_spec(state@),
            target_for_state_spec(state@, package_path@, package_name@),
        ),
{
    let a = action_for_state(state);
    let args = if a == DNFAction::Remove {
        elevated_args(a, package_name)
    } else {
        elevated_args(a, package_path)
    };
    (a, args)
}

} // verus!
