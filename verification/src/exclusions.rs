//! The installed packages that a resolution must not pick as they are,
//! because they are to be reinstalled or upgraded.

use vstd::prelude::*;
use crate::name_table::NameMap;
use crate::upgrade::LoweredUpgrade;

verus! {

/// Which installed packages are to be installed anew.
pub enum Reinstall {
    /// None of them.
    Nothing,
    /// All of them.
    All,
    /// The given packages.
    Packages(NameMap<()>),
}

impl Reinstall {
    /// Whether the set inside is in order.
    pub open spec fn wf(&self) -> bool {
        match self {
            Reinstall::Packages(packages) => packages.wf(),
            _ => true,
        }
    }

    /// Whether `package` is to be installed anew.
    pub open spec fn spec_contains_package(self, package: Seq<char>) -> bool {
        match self {
            Reinstall::Nothing => false,
            Reinstall::All => true,
            Reinstall::Packages(packages) => packages.contents().contains_key(package),
        }
    }

    /// Whether `package` is to be installed anew.
    pub fn contains_package(&self, package: &str) -> (res: bool)
        requires
            self.wf(),
        ensures
            res == self.spec_contains_package(package@),
    {
        match self {
            Reinstall::Nothing => false,
            Reinstall::All => true,
            Reinstall::Packages(packages) => packages.position(package).is_some(),
        }
    }
}

/// Tracks locally installed packages that should not be selected during
/// resolution.
pub struct Exclusions {
    reinstall: Reinstall,
    upgrade: LoweredUpgrade,
}

impl Exclusions {
    /// Whether the sets inside are in order.
    pub closed spec fn wf(&self) -> bool {
        self.reinstall.wf() && self.upgrade.wf()
    }

    /// What is to be installed anew.
    pub closed spec fn reinstalled(&self) -> Reinstall {
        self.reinstall
    }

    /// What may be upgraded.
    pub closed spec fn upgraded(&self) -> LoweredUpgrade {
        self.upgrade
    }

    /// The exclusions that follow from what is reinstalled and what is
    /// upgraded.
    pub fn new(reinstall: Reinstall, upgrade: LoweredUpgrade) -> (res: Exclusions)
        requires
            reinstall.wf(),
            upgrade.wf(),
        ensures
            res.wf(),
            res.reinstalled() == reinstall,
            res.upgraded() == upgrade,
    {
        Exclusions { reinstall, upgrade }
    }

    /// Whether `package` is to be installed anew.
    pub fn reinstall(&self, package: &str) -> (res: bool)
        requires
            self.wf(),
        ensures
            res == self.reinstalled().spec_contains_package(package@),
    {
        self.reinstall.contains_package(package)
    }

    /// Whether `package` may be upgraded.
    pub fn upgrade(&self, package: &str) -> (res: bool)
        requires
            self.wf(),
        ensures
            res == self.upgraded().spec_contains(package@),
    {
        self.upgrade.contains(package)
    }

    /// Whether `package` is excluded: it is to be reinstalled or may be
    /// upgraded.
    pub fn contains(&self, package: &str) -> (res: bool)
        requires
            self.wf(),
        ensures
            res == (self.reinstalled().spec_contains_package(package@)
                || self.upgraded().spec_contains(package@)),
    {
        self.reinstall(package) || self.upgrade(package)
    }
}

} // verus!
