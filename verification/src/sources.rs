//! Whether the sources that a project configures for its dependencies are
//! used when resolving.

use vstd::prelude::*;
use crate::text::same_text;

verus! {

/// Whether configured sources are used.
#[derive(Debug)]
pub enum SourceStrategy {
    /// Use the configured sources when resolving dependencies.
    Enabled,
    /// Ignore them.
    Disabled,
    /// Ignore them for the given packages.
    Packages(Vec<String>),
}

/// Whether `package` stands in `packages`.
pub open spec fn lists(packages: Seq<String>, package: Seq<char>) -> bool {
    exists|i: int| 0 <= i < packages.len() && (#[trigger] packages[i])@ == package
}

impl SourceStrategy {
    /// The strategy that the command line asks for: the switch decides where
    /// it is given; otherwise sources are ignored for the packages listed,
    /// and used where none is listed.
    pub fn from_args(no_sources: Option<bool>, no_sources_package: Vec<String>) -> (res:
        SourceStrategy)
        ensures
            res == (match no_sources {
                Some(true) => SourceStrategy::Disabled,
                Some(false) => SourceStrategy::Enabled,
                None => if no_sources_package@.len() == 0 {
                    SourceStrategy::Enabled
                } else {
                    SourceStrategy::Packages(no_sources_package)
                },
            }),
    {
        match no_sources {
            Some(true) => SourceStrategy::Disabled,
            Some(false) => SourceStrategy::Enabled,
            None => {
                if no_sources_package.len() == 0 {
                    SourceStrategy::Enabled
                } else {
                    SourceStrategy::Packages(no_sources_package)
                }
            },
        }
    }

    /// Whether sources are ignored for `package`.
    pub open spec fn spec_no_sources_package(self, package: Seq<char>) -> bool {
        match self {
            SourceStrategy::Enabled => false,
            SourceStrategy::Disabled => true,
            SourceStrategy::Packages(packages) => lists(packages@, package),
        }
    }

    /// Returns `true` if sources should be disabled for the given package.
    pub fn no_sources_package(&self, package_name: &str) -> (res: bool)
        ensures
            res == self.spec_no_sources_package(package_name@),
    {
        match self {
            SourceStrategy::Enabled => false,
            SourceStrategy::Disabled => true,
            SourceStrategy::Packages(packages) => {
                let mut i: usize = 0;
                while i < packages.len()
                    invariant
                        i <= packages.len(),
                        self.spec_no_sources_package(package_name@) == lists(
                            packages@,
                            package_name@,
                        ),
                        forall|k: int| 0 <= k < i ==> (#[trigger] packages@[k])@ != package_name@,
                    decreases packages.len() - i,
                {
                    if same_text(packages[i].as_str(), package_name) {
                        assert(packages@[i as int]@ == package_name@);
                        return true;
                    }
                    i += 1;
                }
                false
            },
        }
    }

    /// Returns `true` if sources are enabled globally (for all packages).
    pub fn is_enabled(&self) -> (res: bool)
        ensures
            res == (*self is Enabled),
    {
        matches!(self, SourceStrategy::Enabled)
    }

    /// Returns `true` if sources are disabled globally (for all packages).
    pub fn is_disabled(&self) -> (res: bool)
        ensures
            res == (*self is Disabled),
    {
        matches!(self, SourceStrategy::Disabled)
    }
}

} // verus!
