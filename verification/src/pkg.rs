use vstd::prelude::*;

verus! {

/// The action offered to the user for a package, derived from its detected
/// install state: a package not yet installed is installed, an older installed
/// build is upgraded, and an exactly matching installed build is removed.
#[derive(PartialEq, Eq, Structural, Debug, Clone, Copy)]
pub enum DNFAction {
    Install,
    Upgrade,
    Remove,
}

/// The four fields that uniquely key a package for comparison, read once from
/// the package file's metadata and immutable afterwards.
#[derive(Debug, Clone)]
pub struct PackageEntry {
    pub name: String,
    pub arch: String,
    pub version: String,
    pub release: String,
}

/// The mathematical value of a `PackageEntry`: its four fields as character
/// sequences.
#[verifier::ext_equal]
pub struct PackageEntryV {
    pub name: Seq<char>,
    pub arch: Seq<char>,
    pub version: Seq<char>,
    pub release: Seq<char>,
}

/// Field-wise equality of two package identities.
pub open spec fn entry_eq(a: PackageEntryV, b: PackageEntryV) -> bool {
    a.name == b.name && a.arch == b.arch && a.version == b.version && a.release == b.release
}

impl View for PackageEntry {
    type V = PackageEntryV;

    open spec fn view(&self) -> PackageEntryV {
        PackageEntryV {
            name: self.name@,
            arch: self.arch@,
            version: self.version@,
            release: self.release@,
        }
    }
}

impl PartialEq for PackageEntry {
    fn eq(&self, other: &Self) -> (r: bool) {
        self.name == other.name && self.arch == other.arch && self.version == other.version
            && self.release == other.release
    }
}

impl vstd::std_specs::cmp::PartialEqSpecImpl for PackageEntry {
    open spec fn obeys_eq_spec() -> bool {
        true
    }

    open spec fn eq_spec(&self, other: &Self) -> bool {
        entry_eq(self@, other@)
    }
}

/// The detected install state of the target package.
#[derive(Debug, Clone)]
pub enum PackageState {
    /// No installed package matches the target's name and architecture.
    NewPackage,
    /// An installed package matches name, architecture, version and release
    /// exactly.
    UpToDate,
    /// An installed package matches name and architecture but differs in
    /// version or release; carries the installed identity for display.
    Upgradable(PackageEntry),
}

/// The mathematical value of a `PackageState`.
pub enum PackageStateV {
    NewPackage,
    UpToDate,
    Upgradable(PackageEntryV),
}

impl View for PackageState {
    type V = PackageStateV;

    open spec fn view(&self) -> PackageStateV {
        match self {
            PackageState::NewPackage => PackageStateV::NewPackage,
            PackageState::UpToDate => PackageStateV::UpToDate,
            PackageState::Upgradable(e) => PackageStateV::Upgradable(e@),
        }
    }
}

/// Equality of two state values, comparing carried identities field-wise.
pub open spec fn state_eq(a: PackageStateV, b: PackageStateV) -> bool {
    match (a, b) {
        (PackageStateV::NewPackage, PackageStateV::NewPackage) => true,
        (PackageStateV::UpToDate, PackageStateV::UpToDate) => true,
        (PackageStateV::Upgradable(x), PackageStateV::Upgradable(y)) => entry_eq(x, y),
        _ => false,
    }
}

impl PartialEq for PackageState {
    fn eq(&self, other: &Self) -> (r: bool) {
        match (self, other) {
            (PackageState::NewPackage, PackageState::NewPackage) => true,
            (PackageState::UpToDate, PackageState::UpToDate) => true,
            (PackageState::Upgradable(a), PackageState::Upgradable(b)) => a == b,
            _ => false,
        }
    }
}

impl vstd::std_specs::cmp::PartialEqSpecImpl for PackageState {
    open spec fn obeys_eq_spec() -> bool {
        true
    }

    open spec fn eq_spec(&self, other: &Self) -> bool {
        state_eq(self@, other@)
    }
}

/// The ghost view of an optional parse result.
pub open spec fn entry_opt_view(r: Option<PackageEntry>) -> Option<PackageEntryV> {
    match r {
        Some(e) => Some(e@),
        None => None,
    }
}

/// The ghost view of an optional probe decision.
pub open spec fn state_opt_view(r: Option<PackageState>) -> Option<PackageStateV> {
    match r {
        Some(s) => Some(s@),
        None => None,
    }
}

/// The action derived from a detected state: a fresh package is installed, an
/// older installed build is upgraded, and an exact match is offered removal.
pub open spec fn action_for_state_spec(s: PackageStateV) -> DNFAction {
    match s {
        PackageStateV::NewPackage => DNFAction::Install,
        PackageStateV::UpToDate => DNFAction::Remove,
        PackageStateV::Upgradable(_) => DNFAction::Upgrade,
    }
}

/// Maps the detected state to the action offered to the user.
pub fn action_for_state(s: &PackageState) -> (a: DNFAction)
    ensures
        a == action_for_state_spec(s@),
{
    match s {
        PackageState::NewPackage => DNFAction::Install,
        PackageState::UpToDate => DNFAction::Remove,
        PackageState::Upgradable(_) => DNFAction::Upgrade,
    }
}

/// The label shown on the confirmation button for each action.
pub fn action_label(a: DNFAction) -> (l: &'static str)
    ensures
        a == DNFAction::Install ==> l@ == "Install"@,
        a == DNFAction::Upgrade ==> l@ == "Upgrade"@,
        a == DNFAction::Remove ==> l@ == "Remove"@,
{
    match a {
        DNFAction::Install => "Install",
        DNFAction::Upgrade => "Upgrade",
        DNFAction::Remove => "Remove",
    }
}

/// Appends one line of process output to a display log, terminated by a
/// newline, as the presentation layer accumulates the live stream.
pub fn append_log(log: &mut String, line: &str)
    ensures
        final(log)@ == old(log)@ + line@ + seq!['\n'],
{
    log.append(line);
    log.append("\n");
    proof {
        reveal_strlit("\n");
        assert(log@ =~= old(log)@ + line@ + seq!['\n']);
    }
}

} // verus!
