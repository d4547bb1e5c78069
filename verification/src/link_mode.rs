//! The strategy by which a wheel's files reach the installation directory.

use vstd::prelude::*;

verus! {

/// How the files of a wheel are placed into the installation directory.
#[derive(Debug, Clone, Copy, PartialEq, Eq, Structural)]
pub enum LinkMode {
    /// Clone (copy-on-write) each file.
    Clone,
    /// Copy each file.
    Copy,
    /// Hard link each file.
    Hardlink,
    /// Symbolically link each file.
    Symlink,
}

/// The operating system that the installation runs on, as far as the
/// choice of filesystem operations depends on it.
#[derive(Debug, Clone, Copy, PartialEq, Eq, Structural)]
pub enum TargetOs {
    /// macOS: whole directories can be cloned at once, and code signatures
    /// are cached per inode.
    MacOs,
    /// iOS: whole directories can be cloned at once.
    Ios,
    /// Linux: only single files can be cloned.
    Linux,
    /// Windows: only single files can be cloned.
    Windows,
    /// Any other system, on which whole directories are not known to be
    /// cloned.
    Other,
}

impl TargetOs {
    /// Whether cloning works on single files only, so that every directory
    /// has to be created at the destination and walked. It does wherever
    /// whole directories cannot be cloned: anywhere but on macOS and iOS.
    pub open spec fn spec_clones_files_only(self) -> bool {
        self != TargetOs::MacOs && self != TargetOs::Ios
    }

    /// Whether cloning works on single files only.
    pub fn clones_files_only(&self) -> (res: bool)
        ensures
            res == self.spec_clones_files_only(),
    {
        !matches!(self, TargetOs::MacOs | TargetOs::Ios)
    }
}

impl LinkMode {
    /// The strategy used when none is configured: cloning where copy-on-write
    /// filesystems are typically available, hard links elsewhere.
    pub open spec fn spec_default_for(os: TargetOs) -> LinkMode {
        if os == TargetOs::MacOs || os == TargetOs::Ios {
            LinkMode::Clone
        } else {
            LinkMode::Hardlink
        }
    }

    /// The platform default: `Clone` on macOS and iOS, `Hardlink` elsewhere.
    pub fn default_for(os: TargetOs) -> (mode: LinkMode)
        ensures
            mode == Self::spec_default_for(os),
    {
        match os {
            TargetOs::MacOs | TargetOs::Ios => LinkMode::Clone,
            TargetOs::Linux | TargetOs::Windows | TargetOs::Other => LinkMode::Hardlink,
        }
    }

    /// The configured strategy if there is one, else the platform default.
    pub fn select(configured: Option<LinkMode>, os: TargetOs) -> (mode: LinkMode)
        ensures
            mode == (match configured {
                Some(m) => m,
                None => Self::spec_default_for(os),
            }),
    {
        match configured {
            Some(m) => m,
            None => Self::default_for(os),
        }
    }

    /// Returns `true` if the link mode is [`LinkMode::Symlink`].
    pub fn is_symlink(&self) -> (res: bool)
        ensures
            res == (*self == LinkMode::Symlink),
    {
        matches!(self, LinkMode::Symlink)
    }

    /// Whether this strategy first tries an accelerated operation that may
    /// turn out to be unsupported. Only `Copy` does not.
    pub open spec fn spec_is_accelerated(self) -> bool {
        self != LinkMode::Copy
    }

    /// Whether this strategy first tries an accelerated operation.
    pub fn is_accelerated(&self) -> (res: bool)
        ensures
            res == self.spec_is_accelerated(),
    {
        !matches!(self, LinkMode::Copy)
    }
}

} // verus!
