use vstd::prelude::*;

use crate::listing::{parse_line_spec, parse_listing_line, tokens_of};
use crate::pkg::{PackageEntry, PackageEntryV, PackageState, PackageStateV, state_opt_view};

verus! {

/// An installed entry answers the probe when its name and architecture are
/// the target's.
pub open spec fn matches_target(target: PackageEntryV, e: PackageEntryV) -> bool {
    e.name == target.name && e.arch == target.arch
}

/// Classification of a matching installed entry: an exact version and release
/// match is up to date, anything else is upgradable and carries the installed
/// identity.
pub open spec fn classify_spec(target: PackageEntryV, e: PackageEntryV) -> PackageStateV {
    if e.version == target.version && e.release == target.release {
        PackageStateV::UpToDate
    } else {
        PackageStateV::Upgradable(e)
    }
}

/// The decision one listing line contributes: `Some` of the final state when
/// the line parses and matches the target, `None` when the scan must go on.
pub open spec fn probe_step_spec(target: PackageEntryV, line: Seq<char>) -> Option<PackageStateV> {
    match parse_line_spec(line) {
        Some(e) => if matches_target(target, e) {
            Some(classify_spec(target, e))
        } else {
            None
        },
        None => None,
    }
}

/// The state of the target over a whole listing: the first line that parses
/// and matches the target's name and architecture decides; a listing with no
/// such line means the package is new.
pub open spec fn probe_spec(target: PackageEntryV, lines: Seq<Seq<char>>) -> PackageStateV
    decreases lines.len(),
{
    if lines.len() == 0 {
        PackageStateV::NewPackage
    } else {
        match probe_step_spec(target, lines[0]) {
            Some(st) => st,
            None => probe_spec(target, lines.drop_first()),
        }
    }
}

/// Scans one listing line for the target, as the prober reads the listing as
/// it arrives: a `Some` result ends the scan and is the probe's answer.
pub fn probe_step(target: &PackageEntry, line: &str) -> (r: Option<PackageState>)
    ensures
        state_opt_view(r) == probe_step_spec(target@, line@),
{
    match parse_listing_line(line) {
        Some(e) => {
            if e.name == target.name && e.arch == target.arch {
                if e.version == target.version && e.release == target.release {
                    Some(PackageState::UpToDate)
                } else {
                    Some(PackageState::Upgradable(e))
                }
            } else {
                None
            }
        },
        None => None,
    }
}

/// The state of the target over a fully collected listing, one line per
/// element.
pub fn probe_lines(target: &PackageEntry, lines: &Vec<String>) -> (r: PackageState)
    ensures
        r@ == probe_spec(target@, lines@.map_values(|l: String| l@)),
{
    let ghost all = lines@.map_values(|l: String| l@);
    let mut i: usize = 0;
    proof {
        assert(all.skip(0) =~= all);
    }
    while i < lines.len()
        invariant
            i <= lines.len(),
            all == lines@.map_values(|l: String| l@),
            probe_spec(target@, all) == probe_spec(target@, all.skip(i as int)),
        decreases lines.len() - i,
    {
        let r = probe_step(target, lines[i].as_str());
        proof {
            assert(all.skip(i as int)[0] == all[i as int]);
            assert(all.skip(i as int).drop_first() =~= all.skip(i as int + 1));
        }
        match r {
            Some(st) => {
                return st;
            },
            None => {},
        }
        i = i + 1;
    }
    proof {
        assert(all.skip(lines@.len() as int) =~= Seq::<Seq<char>>::empty());
    }
    PackageState::NewPackage
}

/// A line that does not split into exactly three whitespace-separated tokens
/// is skipped: inserting it anywhere in a listing leaves the probe's answer
/// unchanged.
pub proof fn lemma_noisy_line_skipped(
    target: PackageEntryV,
    lines: Seq<Seq<char>>,
    i: int,
    noisy: Seq<char>,
)
    requires
        0 <= i <= lines.len(),
        tokens_of(noisy).len() != 3,
    ensures
        probe_spec(target, lines.insert(i, noisy)) == probe_spec(target, lines),
    decreases i,
{
    let with = lines.insert(i, noisy);
    if i == 0 {
        assert(with[0] == noisy);
        assert(parse_line_spec(noisy) is None);
        assert(with.drop_first() =~= lines);
    } else {
        assert(with[0] == lines[0]);
        assert(with.drop_first() =~= lines.drop_first().insert(i - 1, noisy));
        lemma_noisy_line_skipped(target, lines.drop_first(), i - 1, noisy);
    }
}

} // verus!
