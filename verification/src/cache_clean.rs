//! What clearing the cache does and reports, apart from touching the disk.

use vstd::prelude::*;
use vstd::string::StringExecFns;
use crate::text::{decimal, push_decimal};

verus! {

/// How the cache is cleared.
#[derive(Debug, Clone, Copy, PartialEq, Eq, Structural)]
pub enum CleanPlan {
    /// There is no cache: say so and stop.
    NoCache,
    /// Clearing in the background was asked for single packages, which is
    /// not supported.
    BackgroundWithPackages,
    /// Move the cache aside and delete it in the background.
    Background,
    /// Take the lock, then clear the whole cache.
    ClearAll,
    /// Take the lock, then remove the given packages from the cache.
    RemovePackages,
}

/// How the cache is cleared: a cache that is not there is left alone;
/// clearing in the background takes the whole cache or nothing.
pub open spec fn spec_plan(exists: bool, background: bool, packages: nat) -> CleanPlan {
    if !exists {
        CleanPlan::NoCache
    } else if background && packages > 0 {
        CleanPlan::BackgroundWithPackages
    } else if background {
        CleanPlan::Background
    } else if packages == 0 {
        CleanPlan::ClearAll
    } else {
        CleanPlan::RemovePackages
    }
}

/// Decides how the cache is cleared, given whether it exists, whether the
/// background was asked for, and for how many packages.
pub fn plan_cache_clean(exists: bool, background: bool, packages: usize) -> (plan: CleanPlan)
    ensures
        plan == spec_plan(exists, background, packages as nat),
{
    if !exists {
        CleanPlan::NoCache
    } else if background && packages > 0 {
        CleanPlan::BackgroundWithPackages
    } else if background {
        CleanPlan::Background
    } else if packages == 0 {
        CleanPlan::ClearAll
    } else {
        CleanPlan::RemovePackages
    }
}

/// What to do where another process holds the cache.
#[derive(Debug, Clone, Copy, PartialEq, Eq, Structural)]
pub enum WhenInUse {
    /// Go on without the lock.
    Proceed,
    /// Tell the user and wait for the lock.
    Wait,
}

/// Decides what to do where another process holds the cache: go on where
/// the user forces it, wait otherwise.
pub fn when_in_use(force: bool) -> (res: WhenInUse)
    ensures
        res == (if force {
            WhenInUse::Proceed
        } else {
            WhenInUse::Wait
        }),
{
    if force {
        WhenInUse::Proceed
    } else {
        WhenInUse::Wait
    }
}

/// What the user is told of what was removed: files where any were, else
/// directories, in the singular for one.
pub open spec fn summary_text(files: u64, dirs: u64) -> Seq<char> {
    if files == 0 && dirs == 0 {
        "No cache entries found"@
    } else if files == 0 && dirs == 1 {
        "Removed 1 directory"@
    } else if files == 0 {
        "Removed "@ + decimal(dirs as nat) + " directories"@
    } else if files == 1 {
        "Removed 1 file"@
    } else {
        "Removed "@ + decimal(files as nat) + " files"@
    }
}

/// What the user is told of what was removed.
pub fn removal_summary(files: u64, dirs: u64) -> (text: String)
    ensures
        text@ == summary_text(files, dirs),
{
    if files == 0 && dirs == 0 {
        String::from_str("No cache entries found")
    } else if files == 0 && dirs == 1 {
        String::from_str("Removed 1 directory")
    } else if files == 0 {
        let mut text = String::from_str("Removed ");
        push_decimal(&mut text, dirs);
        text.append(" directories");
        text
    } else if files == 1 {
        String::from_str("Removed 1 file")
    } else {
        let mut text = String::from_str("Removed ");
        push_decimal(&mut text, files);
        text.append(" files");
        text
    }
}

/// How a number of bytes is shown.
#[derive(Debug, Clone, Copy, PartialEq, Eq, Structural)]
pub enum BytesShown {
    /// Not at all: nothing was removed.
    Hidden,
    /// As it is, followed by `B`.
    Plain,
    /// In a larger unit, with one decimal.
    Scaled,
}

/// Decides how the total of bytes removed is shown: not at all for none, as
/// it is below 1024, in a larger unit from there on.
pub fn bytes_shown(total_bytes: u64) -> (res: BytesShown)
    ensures
        res == (if total_bytes == 0 {
            BytesShown::Hidden
        } else if total_bytes < 1024 {
            BytesShown::Plain
        } else {
            BytesShown::Scaled
        }),
{
    if total_bytes == 0 {
        BytesShown::Hidden
    } else if total_bytes < 1024 {
        BytesShown::Plain
    } else {
        BytesShown::Scaled
    }
}

/// A number of bytes below 1024 as it is shown.
pub fn plain_bytes(total_bytes: u64) -> (text: String)
    ensures
        text@ == decimal(total_bytes as nat) + "B"@,
{
    let mut text = String::new();
    push_decimal(&mut text, total_bytes);
    text.append("B");
    text
}

/// The name of the directory that the cache is moved to before it is
/// deleted in the background; `id` makes it unique.
pub fn temp_cache_name(id: &str) -> (name: String)
    ensures
        name@ == ".uv-cache-clean-"@ + id@,
{
    let mut name = String::from_str(".uv-cache-clean-");
    name.append(id);
    name
}

} // verus!
