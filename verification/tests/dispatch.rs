use rpmi::action::{action_verb, dispatch, elevated_args, elevation_command, listing_args,
    package_manager_command};
use rpmi::pkg::{DNFAction, PackageEntry, PackageState, action_for_state, action_label,
    append_log};

#[test]
fn commands_are_fixed_paths() {
    assert_eq!(elevation_command(), "/usr/bin/pkexec");
    assert_eq!(package_manager_command(), "/usr/bin/dnf");
    assert_eq!(listing_args(), vec!["list".to_string(), "--installed".to_string()]);
}

#[test]
fn action_follows_state() {
    assert_eq!(action_for_state(&PackageState::NewPackage), DNFAction::Install);
    assert_eq!(action_for_state(&PackageState::UpToDate), DNFAction::Remove);
    let installed = PackageEntry {
        name: "foo".to_string(),
        arch: "x86_64".to_string(),
        version: "1.0".to_string(),
        release: "1".to_string(),
    };
    assert_eq!(
        action_for_state(&PackageState::Upgradable(installed)),
        DNFAction::Upgrade
    );
}

#[test]
fn labels_name_the_actions() {
    assert_eq!(action_label(DNFAction::Install), "Install");
    assert_eq!(action_label(DNFAction::Upgrade), "Upgrade");
    assert_eq!(action_label(DNFAction::Remove), "Remove");
    assert_eq!(action_verb(DNFAction::Install), "install");
    assert_eq!(action_verb(DNFAction::Upgrade), "upgrade");
    assert_eq!(action_verb(DNFAction::Remove), "remove");
}

#[test]
fn install_argv_ends_with_verb_yes_path() {
    let (a, args) = dispatch(&PackageState::NewPackage, "/tmp/x.rpm", "foo");
    assert_eq!(a, DNFAction::Install);
    assert_eq!(
        args,
        vec![
            "--disable-internal-agent".to_string(),
            "/usr/bin/dnf".to_string(),
            "install".to_string(),
            "-y".to_string(),
            "/tmp/x.rpm".to_string(),
        ]
    );
}

#[test]
fn remove_argv_ends_with_verb_yes_name() {
    let (a, args) = dispatch(&PackageState::UpToDate, "/tmp/x.rpm", "foo");
    assert_eq!(a, DNFAction::Remove);
    assert_eq!(args[args.len() - 3..], ["remove", "-y", "foo"]);
}

#[test]
fn upgrade_argv_targets_the_file() {
    let installed = PackageEntry {
        name: "foo".to_string(),
        arch: "x86_64".to_string(),
        version: "1.0".to_string(),
        release: "1".to_string(),
    };
    let (a, args) = dispatch(&PackageState::Upgradable(installed), "/tmp/x.rpm", "foo");
    assert_eq!(a, DNFAction::Upgrade);
    assert_eq!(args[args.len() - 3..], ["upgrade", "-y", "/tmp/x.rpm"]);
}

#[test]
fn elevated_args_disable_the_interactive_agent_first() {
    let args = elevated_args(DNFAction::Remove, "foo");
    assert_eq!(args[0], "--disable-internal-agent");
    assert_eq!(args[1], "/usr/bin/dnf");
}

#[test]
fn append_log_adds_one_line() {
    let mut log = String::new();
    append_log(&mut log, "first");
    append_log(&mut log, "second");
    assert_eq!(log, "first\nsecond\n");
}
