//! Which update the shell offers: pre-releases only on the beta channel.

use vstd::prelude::*;
use crate::text::{contains, occurs_in};

verus! {

/// A version is a pre-release when it mentions `beta`, `alpha` or `rc`.
pub open spec fn spec_is_prerelease(version: Seq<char>) -> bool {
    occurs_in(version, "beta"@) || occurs_in(version, "alpha"@) || occurs_in(version, "rc"@)
}

/// Whether a version is a pre-release.
pub fn is_prerelease(version: &str) -> (r: bool)
    ensures
        r == spec_is_prerelease(version@),
{
    contains(version, "beta") || contains(version, "alpha") || contains(version, "rc")
}

/// Whether a found update is offered: always on the beta channel, else only
/// when it is not a pre-release.
pub fn offers_update(version: &str, beta_channel: bool) -> (r: bool)
    ensures
        r == (beta_channel || !spec_is_prerelease(version@)),
{
    beta_channel || !is_prerelease(version)
}

/// What the UI is told about updates.
#[derive(Debug)]
pub struct UpdateInfo {
    pub version: String,
    pub current_version: String,
    pub available: bool,
    pub is_prerelease: bool,
    pub changelog: Option<String>,
}

/// No update: the current version, marked unavailable.
pub fn no_update(current: &str) -> (r: UpdateInfo)
    ensures
        r.version@ == current@,
        r.current_version@ == current@,
        !r.available,
        !r.is_prerelease,
        r.changelog is None,
{
    UpdateInfo {
        version: String::from_str(current),
        current_version: String::from_str(current),
        available: false,
        is_prerelease: false,
        changelog: None,
    }
}

/// The answer to an update check that found `found` (if anything): an
/// offered update with its changelog, or no update when nothing was found
/// or a pre-release was found off the beta channel.
pub fn update_info(
    current: &str,
    found: Option<&str>,
    beta_channel: bool,
    changelog: Option<String>,
) -> (r: UpdateInfo)
    ensures
        match found {
            Some(v) => if beta_channel || !spec_is_prerelease(v@) {
                &&& r.version@ == v@
                &&& r.current_version@ == current@
                &&& r.available
                &&& r.is_prerelease == spec_is_prerelease(v@)
                &&& r.changelog == changelog
            } else {
                &&& r.version@ == current@
                &&& r.current_version@ == current@
                &&& !r.available
                &&& !r.is_prerelease
                &&& r.changelog is None
            },
            None => {
                &&& r.version@ == current@
                &&& r.current_version@ == current@
                &&& !r.available
                &&& !r.is_prerelease
                &&& r.changelog is None
            },
        },
{
    match found {
        Some(v) => {
            if offers_update(v, beta_channel) {
                UpdateInfo {
                    version: String::from_str(v),
                    current_version: String::from_str(current),
                    available: true,
                    is_prerelease: is_prerelease(v),
                    changelog,
                }
            } else {
                no_update(current)
            }
        },
        None => no_update(current),
    }
}

/// The release page whose body is a version's changelog.
pub fn release_url(version: &str) -> (r: String)
    ensures
        r@ == "https://api.github.com/repos/Drizzyt77/DaeBotJS/releases/tags/v"@ + version@,
{
    let mut r = String::from_str("https://api.github.com/repos/Drizzyt77/DaeBotJS/releases/tags/v");
    r.append(version);
    r
}

} // verus!
