//! The per-plugin upgrade decision.
//!
//! One unit of work handles one (registry, plugin name) pair. The caller
//! runs the installed-version read and the latest-version fetch, hands both
//! results in, performs the download and the writes that the decision asks
//! for, and reports back; every decision in between is made here. A unit
//! ends in exactly one of the three outcomes, and one unit's failure never
//! touches another unit.

use vstd::prelude::*;

use crate::errors::UpdateError;
use crate::version::Version;

verus! {

/// The terminal state of one plugin's update unit.
#[derive(Debug)]
pub enum Outcome {
    /// The installed version equals the latest published one; nothing was
    /// downloaded.
    Skipped,
    /// The archive was downloaded and its writes planned.
    Installed,
    /// The unit failed; other units are unaffected.
    Failed(UpdateError),
}

/// What to do once both concurrent lookups have finished.
#[derive(Debug)]
pub enum UpgradeStep {
    /// The installed version equals the latest: download nothing.
    Skip,
    /// Download the archive at this URL and install it.
    Fetch(String),
    /// One of the lookups failed; the unit is over.
    Fail(UpdateError),
}

/// Decides one unit's next step from the two lookups: a lookup failure ends
/// the unit; an installed version equal to the latest skips, even when the
/// installed version is the greater one; an absent or differing installed
/// version downloads.
pub fn plan_upgrade(
    installed: Result<Option<Version>, UpdateError>,
    latest: Result<(Version, String), UpdateError>,
) -> (r: UpgradeStep)
    ensures
        installed matches Err(e) ==> r == UpgradeStep::Fail(e),
        latest matches Err(e) ==> (installed is Ok ==> r == UpgradeStep::Fail(e)),
        installed matches Ok(inst) ==> (latest matches Ok(l) ==> r == (if inst == Some(l.0) {
            UpgradeStep::Skip
        } else {
            UpgradeStep::Fetch(l.1)
        })),
{
    let inst = match installed {
        Ok(i) => i,
        Err(e) => {
            return UpgradeStep::Fail(e);
        },
    };
    let (ver, url) = match latest {
        Ok(p) => p,
        Err(e) => {
            return UpgradeStep::Fail(e);
        },
    };
    match inst {
        Some(v) => {
            if v.major == ver.major && v.minor == ver.minor && v.patch == ver.patch {
                UpgradeStep::Skip
            } else {
                UpgradeStep::Fetch(url)
            }
        },
        None => UpgradeStep::Fetch(url),
    }
}

/// Concludes one unit after the download and install the decision asked
/// for: success installed the plugin, failure ends only this unit.
pub fn conclude(result: Result<(), UpdateError>) -> (r: Outcome)
    ensures
        result is Ok ==> r == Outcome::Installed,
        result matches Err(e) ==> r == Outcome::Failed(e),
{
    match result {
        Ok(()) => Outcome::Installed,
        Err(e) => Outcome::Failed(e),
    }
}

} // verus!
