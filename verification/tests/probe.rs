use rpmi::pkg::{PackageEntry, PackageState};
use rpmi::probe::{probe_lines, probe_step};

fn target() -> PackageEntry {
    PackageEntry {
        name: "foo".to_string(),
        arch: "x86_64".to_string(),
        version: "1.2.3".to_string(),
        release: "4".to_string(),
    }
}

fn lines(v: &[&str]) -> Vec<String> {
    v.iter().map(|s| s.to_string()).collect()
}

#[test]
fn probe_reports_up_to_date_on_exact_match() {
    let listing = lines(&[
        "Installed Packages",
        "bar.noarch 0.1-1 @System",
        "foo.x86_64 1.2.3-4 @updates",
    ]);
    assert_eq!(probe_lines(&target(), &listing), PackageState::UpToDate);
}

#[test]
fn probe_reports_upgradable_with_installed_identity() {
    let listing = lines(&["foo.x86_64 1.2.2-1 @updates"]);
    let expected = PackageEntry {
        name: "foo".to_string(),
        arch: "x86_64".to_string(),
        version: "1.2.2".to_string(),
        release: "1".to_string(),
    };
    assert_eq!(
        probe_lines(&target(), &listing),
        PackageState::Upgradable(expected)
    );
}

#[test]
fn probe_reports_new_package_when_absent() {
    let listing = lines(&[
        "Installed Packages",
        "bar.x86_64 1.2.3-4 @System",
        "foo.aarch64 1.2.3-4 @System",
    ]);
    assert_eq!(probe_lines(&target(), &listing), PackageState::NewPackage);
}

#[test]
fn probe_skips_noisy_lines() {
    let clean = lines(&["foo.x86_64 1.2.2-1 @updates"]);
    let noisy = lines(&[
        "",
        "Installed Packages",
        "foo.x86_64 1.2.2-1 @updates extra",
        "foo.x86_64 1.2.2-1 @updates",
        "trailing junk",
    ]);
    assert_eq!(probe_lines(&target(), &clean), probe_lines(&target(), &noisy));
    assert_eq!(
        probe_lines(&target(), &noisy),
        PackageState::Upgradable(PackageEntry {
            name: "foo".to_string(),
            arch: "x86_64".to_string(),
            version: "1.2.2".to_string(),
            release: "1".to_string(),
        })
    );
}

#[test]
fn probe_first_matching_line_decides() {
    let listing = lines(&[
        "foo.x86_64 1.0-1 @old",
        "foo.x86_64 1.2.3-4 @updates",
    ]);
    match probe_lines(&target(), &listing) {
        PackageState::Upgradable(e) => {
            assert_eq!(e.version, "1.0");
            assert_eq!(e.release, "1");
        }
        other => panic!("expected Upgradable, got {:?}", other),
    }
}

#[test]
fn probe_ignores_epoch_in_comparison() {
    let listing = lines(&["foo.x86_64 3:1.2.3-4 @updates"]);
    assert_eq!(probe_lines(&target(), &listing), PackageState::UpToDate);
}

#[test]
fn probe_step_decides_only_on_matching_lines() {
    assert_eq!(probe_step(&target(), "bar.x86_64 1.0-1 repo"), None);
    assert_eq!(probe_step(&target(), "not a listing line at all"), None);
    assert_eq!(
        probe_step(&target(), "foo.x86_64 1.2.3-4 repo"),
        Some(PackageState::UpToDate)
    );
}
