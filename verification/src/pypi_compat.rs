//! Which wheels the Python Package Index takes, by their platform tags.
//!
//! The index accepts only some platform tags. Checking a wheel before it is
//! uploaded saves a rejected upload.

use vstd::prelude::*;
use vstd::string::StringExecFns;
use crate::text::{decimal, push_decimal};

verus! {

/// The architecture that a platform tag names.
#[derive(Debug, Clone, Copy, PartialEq, Eq, Structural)]
pub enum Arch {
    /// `aarch64`
    Aarch64,
    /// `armv5tel`
    Armv5TEL,
    /// `armv6l`
    Armv6L,
    /// `armv7l`
    Armv7L,
    /// `ppc64le`
    Powerpc64Le,
    /// `ppc64`
    Powerpc64,
    /// `ppc`
    Powerpc,
    /// `i686`
    X86,
    /// `x86_64`
    X86_64,
    /// `s390x`
    S390X,
    /// `loongarch64`
    LoongArch64,
    /// `riscv64`
    Riscv64,
    /// `wasm32`
    Wasm32,
}

impl Arch {
    /// The name as it stands in a tag.
    pub open spec fn spec_name(self) -> Seq<char> {
        match self {
            Arch::Aarch64 => "aarch64"@,
            Arch::Armv5TEL => "armv5tel"@,
            Arch::Armv6L => "armv6l"@,
            Arch::Armv7L => "armv7l"@,
            Arch::Powerpc64Le => "ppc64le"@,
            Arch::Powerpc64 => "ppc64"@,
            Arch::Powerpc => "ppc"@,
            Arch::X86 => "i686"@,
            Arch::X86_64 => "x86_64"@,
            Arch::S390X => "s390x"@,
            Arch::LoongArch64 => "loongarch64"@,
            Arch::Riscv64 => "riscv64"@,
            Arch::Wasm32 => "wasm32"@,
        }
    }

    /// The name as it stands in a tag.
    pub fn name(&self) -> (text: &'static str)
        ensures
            text@ == self.spec_name(),
    {
        match self {
            Arch::Aarch64 => "aarch64",
            Arch::Armv5TEL => "armv5tel",
            Arch::Armv6L => "armv6l",
            Arch::Armv7L => "armv7l",
            Arch::Powerpc64Le => "ppc64le",
            Arch::Powerpc64 => "ppc64",
            Arch::Powerpc => "ppc",
            Arch::X86 => "i686",
            Arch::X86_64 => "x86_64",
            Arch::S390X => "s390x",
            Arch::LoongArch64 => "loongarch64",
            Arch::Riscv64 => "riscv64",
            Arch::Wasm32 => "wasm32",
        }
    }
}

/// The binary format that a macOS platform tag names.
#[derive(Debug, Clone, Copy, PartialEq, Eq, Structural)]
pub enum BinaryFormat {
    /// `arm64`
    Arm64,
    /// `fat`
    Fat,
    /// `fat32`
    Fat32,
    /// `fat64`
    Fat64,
    /// `i386`
    I386,
    /// `intel`
    Intel,
    /// `ppc`
    Ppc,
    /// `ppc64`
    Ppc64,
    /// `universal`
    Universal,
    /// `universal2`
    Universal2,
    /// `x86_64`
    X86_64,
}

impl BinaryFormat {
    /// The name as it stands in a tag.
    pub open spec fn spec_name(self) -> Seq<char> {
        match self {
            BinaryFormat::Arm64 => "arm64"@,
            BinaryFormat::Fat => "fat"@,
            BinaryFormat::Fat32 => "fat32"@,
            BinaryFormat::Fat64 => "fat64"@,
            BinaryFormat::I386 => "i386"@,
            BinaryFormat::Intel => "intel"@,
            BinaryFormat::Ppc => "ppc"@,
            BinaryFormat::Ppc64 => "ppc64"@,
            BinaryFormat::Universal => "universal"@,
            BinaryFormat::Universal2 => "universal2"@,
            BinaryFormat::X86_64 => "x86_64"@,
        }
    }

    /// The name as it stands in a tag.
    pub fn name(&self) -> (text: &'static str)
        ensures
            text@ == self.spec_name(),
    {
        match self {
            BinaryFormat::Arm64 => "arm64",
            BinaryFormat::Fat => "fat",
            BinaryFormat::Fat32 => "fat32",
            BinaryFormat::Fat64 => "fat64",
            BinaryFormat::I386 => "i386",
            BinaryFormat::Intel => "intel",
            BinaryFormat::Ppc => "ppc",
            BinaryFormat::Ppc64 => "ppc64",
            BinaryFormat::Universal => "universal",
            BinaryFormat::Universal2 => "universal2",
            BinaryFormat::X86_64 => "x86_64",
        }
    }
}

/// The architecture and device kind that an iOS platform tag names.
#[derive(Debug, Clone, Copy, PartialEq, Eq, Structural)]
pub enum IosMultiarch {
    /// `arm64_iphoneos`
    Arm64Device,
    /// `arm64_iphonesimulator`
    Arm64Simulator,
    /// `x86_64_iphonesimulator`
    X86_64Simulator,
}

impl IosMultiarch {
    /// The name as it stands in a tag.
    pub open spec fn spec_name(self) -> Seq<char> {
        match self {
            IosMultiarch::Arm64Device => "arm64_iphoneos"@,
            IosMultiarch::Arm64Simulator => "arm64_iphonesimulator"@,
            IosMultiarch::X86_64Simulator => "x86_64_iphonesimulator"@,
        }
    }

    /// The name as it stands in a tag.
    pub fn name(&self) -> (text: &'static str)
        ensures
            text@ == self.spec_name(),
    {
        match self {
            IosMultiarch::Arm64Device => "arm64_iphoneos",
            IosMultiarch::Arm64Simulator => "arm64_iphonesimulator",
            IosMultiarch::X86_64Simulator => "x86_64_iphonesimulator",
        }
    }
}

/// The binary interface that an Android platform tag names.
#[derive(Debug, Clone, Copy, PartialEq, Eq, Structural)]
pub enum AndroidAbi {
    /// `armeabi_v7a`
    ArmeabiV7a,
    /// `arm64_v8a`
    Arm64V8a,
    /// `x86`
    X86,
    /// `x86_64`
    X86_64,
}

impl AndroidAbi {
    /// The name as it stands in a tag.
    pub open spec fn spec_name(self) -> Seq<char> {
        match self {
            AndroidAbi::ArmeabiV7a => "armeabi_v7a"@,
            AndroidAbi::Arm64V8a => "arm64_v8a"@,
            AndroidAbi::X86 => "x86"@,
            AndroidAbi::X86_64 => "x86_64"@,
        }
    }

    /// The name as it stands in a tag.
    pub fn name(&self) -> (text: &'static str)
        ensures
            text@ == self.spec_name(),
    {
        match self {
            AndroidAbi::ArmeabiV7a => "armeabi_v7a",
            AndroidAbi::Arm64V8a => "arm64_v8a",
            AndroidAbi::X86 => "x86",
            AndroidAbi::X86_64 => "x86_64",
        }
    }
}

/// The platform that a wheel is built for.
#[derive(Debug)]
pub enum PlatformTag {
    /// Any platform.
    Any,
    /// `manylinux_<major>_<minor>_<arch>`
    Manylinux { major: u16, minor: u16, arch: Arch },
    /// `manylinux1_<arch>`
    Manylinux1 { arch: Arch },
    /// `manylinux2010_<arch>`
    Manylinux2010 { arch: Arch },
    /// `manylinux2014_<arch>`
    Manylinux2014 { arch: Arch },
    /// `linux_<arch>`
    Linux { arch: Arch },
    /// `musllinux_<major>_<minor>_<arch>`
    Musllinux { major: u16, minor: u16, arch: Arch },
    /// `macosx_<major>_<minor>_<format>`
    Macos { major: u16, minor: u16, binary_format: BinaryFormat },
    /// `win32`
    Win32,
    /// `win_amd64`
    WinAmd64,
    /// `win_arm64`
    WinArm64,
    /// `win_ia64`
    WinIa64,
    /// `android_<level>_<abi>`
    Android { api_level: u16, abi: AndroidAbi },
    /// `freebsd_<release>_<arch>`
    FreeBsd { release_arch: String },
    /// `netbsd_<release>_<arch>`
    NetBsd { release_arch: String },
    /// `openbsd_<release>_<arch>`
    OpenBsd { release_arch: String },
    /// `dragonfly_<release>_<arch>`
    Dragonfly { release_arch: String },
    /// `haiku_<release>_<arch>`
    Haiku { release_arch: String },
    /// `illumos_<release>_<arch>`
    Illumos { release_arch: String },
    /// `solaris_<release>_<arch>_64bit`
    Solaris { release_arch: String },
    /// `pyodide_<major>_<minor>_wasm32`
    Pyodide { major: u16, minor: u16 },
    /// `ios_<major>_<minor>_<multiarch>`
    Ios { major: u16, minor: u16, multiarch: IosMultiarch },
}

/// Whether the index takes wheels for macOS of this major version, for
/// versions above 10.
pub open spec fn is_macos_major(major: u16) -> bool {
    major == 11 || major == 12 || major == 13 || major == 14 || major == 15 || major == 26
}

/// Whether the index takes `manylinux` wheels for this architecture.
pub open spec fn is_manylinux_arch(arch: Arch) -> bool {
    arch == Arch::X86_64 || arch == Arch::X86 || arch == Arch::Aarch64 || arch == Arch::Armv7L
        || arch == Arch::Powerpc64Le || arch == Arch::S390X || arch == Arch::Riscv64 || arch
        == Arch::Powerpc64
}

/// Whether the index takes `musllinux` wheels for this architecture: the
/// same as for `manylinux` but `ppc64`.
pub open spec fn is_musllinux_arch(arch: Arch) -> bool {
    is_manylinux_arch(arch) && arch != Arch::Powerpc64
}

/// Whether the index takes wheels with this platform tag. For macOS every
/// binary format is taken and the version decides: any 10.x, and the `.0` of
/// the later major versions.
pub open spec fn accepted(tag: PlatformTag) -> bool {
    match tag {
        PlatformTag::Any => true,
        PlatformTag::Win32 | PlatformTag::WinAmd64 | PlatformTag::WinArm64 | PlatformTag::WinIa64 => true,
        PlatformTag::Manylinux1 { arch } => arch == Arch::X86_64 || arch == Arch::X86,
        PlatformTag::Manylinux2010 { arch } => arch == Arch::X86_64 || arch == Arch::X86,
        PlatformTag::Manylinux2014 { arch } => arch == Arch::X86_64 || arch == Arch::X86 || arch
            == Arch::Aarch64 || arch == Arch::Armv7L || arch == Arch::Powerpc64 || arch
            == Arch::Powerpc64Le || arch == Arch::S390X,
        PlatformTag::Manylinux { arch, .. } => is_manylinux_arch(arch),
        PlatformTag::Musllinux { arch, .. } => is_musllinux_arch(arch),
        PlatformTag::Linux { arch } => arch == Arch::Armv6L || arch == Arch::Armv7L,
        PlatformTag::Macos { major, minor, .. } => major == 10 || (is_macos_major(major) && minor
            == 0),
        PlatformTag::Ios { .. } => true,
        PlatformTag::Android { .. } => true,
        PlatformTag::FreeBsd { .. } => false,
        PlatformTag::NetBsd { .. } => false,
        PlatformTag::OpenBsd { .. } => false,
        PlatformTag::Dragonfly { .. } => false,
        PlatformTag::Haiku { .. } => false,
        PlatformTag::Illumos { .. } => false,
        PlatformTag::Solaris { .. } => false,
        PlatformTag::Pyodide { .. } => false,
    }
}

/// Why the index does not take wheels with this platform tag; meaningful for
/// a tag that is not accepted.
pub open spec fn reason(tag: PlatformTag) -> Seq<char> {
    match tag {
        PlatformTag::Manylinux1 { arch } => ": manylinux1 only supports x86_64 and i686 architectures, not "@
            + arch.spec_name(),
        PlatformTag::Manylinux2010 { arch } => ": manylinux2010 only supports x86_64 and i686 architectures, not "@
            + arch.spec_name(),
        PlatformTag::Manylinux2014 { arch } => ": manylinux2014 does not support architecture "@
            + arch.spec_name(),
        PlatformTag::Manylinux { arch, .. } => ": manylinux does not support architecture "@
            + arch.spec_name(),
        PlatformTag::Musllinux { arch, .. } => ": musllinux does not support architecture "@
            + arch.spec_name(),
        PlatformTag::Linux { arch } => ": linux_"@ + arch.spec_name()
            + " is not accepted by PyPI. Use manylinux or musllinux tags instead"@,
        PlatformTag::Macos { major, minor, .. } => if !is_macos_major(major) {
            ": macOS major version "@ + decimal(major as nat)
                + " is not accepted by PyPI. Accepted versions: 10.x, 11, 12, 13, 14, 15, 26"@
        } else {
            ": macOS "@ + decimal(major as nat) + "."@ + decimal(minor as nat)
                + " is not accepted by PyPI. For macOS "@ + decimal(major as nat)
                + ", only "@ + decimal(major as nat) + ".0 is allowed"@
        },
        PlatformTag::FreeBsd { .. } => ": FreeBSD is not supported by PyPI"@,
        PlatformTag::NetBsd { .. } => ": NetBSD is not supported by PyPI"@,
        PlatformTag::OpenBsd { .. } => ": OpenBSD is not supported by PyPI"@,
        PlatformTag::Dragonfly { .. } => ": DragonFly BSD is not supported by PyPI"@,
        PlatformTag::Haiku { .. } => ": Haiku is not supported by PyPI"@,
        PlatformTag::Illumos { .. } => ": illumos is not supported by PyPI"@,
        PlatformTag::Solaris { .. } => ": Solaris is not supported by PyPI"@,
        PlatformTag::Pyodide { .. } => ": Pyodide/WASM is not supported by PyPI"@,
        _ => Seq::empty(),
    }
}

/// The text `start` followed by `end`.
fn joined(start: &str, end: &str) -> (text: String)
    ensures
        text@ == start@ + end@,
{
    let mut text = String::from_str(start);
    text.append(end);
    text
}

/// Whether the index takes wheels for macOS of this major version.
fn macos_major_accepted(major: u16) -> (res: bool)
    ensures
        res == is_macos_major(major),
{
    major == 11 || major == 12 || major == 13 || major == 14 || major == 15 || major == 26
}

/// Why a macOS tag of this version is not accepted.
fn macos_reason(major: u16, minor: u16) -> (text: String)
    ensures
        text@ == (if !is_macos_major(major) {
            ": macOS major version "@ + decimal(major as nat)
                + " is not accepted by PyPI. Accepted versions: 10.x, 11, 12, 13, 14, 15, 26"@
        } else {
            ": macOS "@ + decimal(major as nat) + "."@ + decimal(minor as nat)
                + " is not accepted by PyPI. For macOS "@ + decimal(major as nat)
                + ", only "@ + decimal(major as nat) + ".0 is allowed"@
        }),
{
    if !macos_major_accepted(major) {
        let mut text = String::from_str(": macOS major version ");
        push_decimal(&mut text, major as u64);
        text.append(" is not accepted by PyPI. Accepted versions: 10.x, 11, 12, 13, 14, 15, 26");
        text
    } else {
        let mut text = String::from_str(": macOS ");
        push_decimal(&mut text, major as u64);
        text.append(".");
        push_decimal(&mut text, minor as u64);
        text.append(" is not accepted by PyPI. For macOS ");
        push_decimal(&mut text, major as u64);
        text.append(", only ");
        push_decimal(&mut text, major as u64);
        text.append(".0 is allowed");
        text
    }
}

/// Checks whether the index takes wheels with this platform tag, and says
/// why where it does not.
pub fn is_valid_pypi_platform_tag(tag: &PlatformTag) -> (res: Result<(), String>)
    ensures
        res is Ok == accepted(*tag),
        res matches Err(why) ==> why@ == reason(*tag),
{
    match tag {
        PlatformTag::Any => Ok(()),
        PlatformTag::Win32 | PlatformTag::WinAmd64 | PlatformTag::WinArm64 | PlatformTag::WinIa64 => Ok(
            (),
        ),
        PlatformTag::Manylinux1 { arch } => {
            if matches!(arch, Arch::X86_64 | Arch::X86) {
                Ok(())
            } else {
                Err(
                    joined(
                        ": manylinux1 only supports x86_64 and i686 architectures, not ",
                        arch.name(),
                    ),
                )
            }
        },
        PlatformTag::Manylinux2010 { arch } => {
            if matches!(arch, Arch::X86_64 | Arch::X86) {
                Ok(())
            } else {
                Err(
                    joined(
                        ": manylinux2010 only supports x86_64 and i686 architectures, not ",
                        arch.name(),
                    ),
                )
            }
        },
        PlatformTag::Manylinux2014 { arch } => {
            if matches!(
                arch,
                Arch::X86_64 | Arch::X86 | Arch::Aarch64 | Arch::Armv7L | Arch::Powerpc64
                    | Arch::Powerpc64Le | Arch::S390X
            ) {
                Ok(())
            } else {
                Err(joined(": manylinux2014 does not support architecture ", arch.name()))
            }
        },
        PlatformTag::Manylinux { arch, .. } => {
            if matches!(
                arch,
                Arch::X86_64 | Arch::X86 | Arch::Aarch64 | Arch::Armv7L | Arch::Powerpc64Le
                    | Arch::S390X | Arch::Riscv64 | Arch::Powerpc64
            ) {
                Ok(())
            } else {
                Err(joined(": manylinux does not support architecture ", arch.name()))
            }
        },
        PlatformTag::Musllinux { arch, .. } => {
            if matches!(
                arch,
                Arch::X86_64 | Arch::X86 | Arch::Aarch64 | Arch::Armv7L | Arch::Powerpc64Le
                    | Arch::S390X | Arch::Riscv64
            ) {
                Ok(())
            } else {
                Err(joined(": musllinux does not support architecture ", arch.name()))
            }
        },
        PlatformTag::Linux { arch } => {
            if matches!(arch, Arch::Armv6L | Arch::Armv7L) {
                Ok(())
            } else {
                let mut text = joined(": linux_", arch.name());
                text.append(" is not accepted by PyPI. Use manylinux or musllinux tags instead");
                Err(text)
            }
        },
        PlatformTag::Macos { major, minor, .. } => {
            if *major == 10 {
                return Ok(());
            }
            if macos_major_accepted(*major) && *minor == 0 {
                return Ok(());
            }
            Err(macos_reason(*major, *minor))
        },
        PlatformTag::Ios { .. } => Ok(()),
        PlatformTag::Android { .. } => Ok(()),
        PlatformTag::FreeBsd { .. } => Err(String::from_str(": FreeBSD is not supported by PyPI")),
        PlatformTag::NetBsd { .. } => Err(String::from_str(": NetBSD is not supported by PyPI")),
        PlatformTag::OpenBsd { .. } => Err(String::from_str(": OpenBSD is not supported by PyPI")),
        PlatformTag::Dragonfly { .. } => Err(
            String::from_str(": DragonFly BSD is not supported by PyPI"),
        ),
        PlatformTag::Haiku { .. } => Err(String::from_str(": Haiku is not supported by PyPI")),
        PlatformTag::Illumos { .. } => Err(String::from_str(": illumos is not supported by PyPI")),
        PlatformTag::Solaris { .. } => Err(String::from_str(": Solaris is not supported by PyPI")),
        PlatformTag::Pyodide { .. } => Err(
            String::from_str(": Pyodide/WASM is not supported by PyPI"),
        ),
    }
}

impl PlatformTag {
    /// The tag as it stands in a wheel's file name.
    pub open spec fn spec_text(self) -> Seq<char> {
        match self {
            PlatformTag::Any => "any"@,
            PlatformTag::Manylinux { major, minor, arch } => "manylinux_"@ + decimal(major as nat)
                + "_"@ + decimal(minor as nat) + "_"@ + arch.spec_name(),
            PlatformTag::Manylinux1 { arch } => "manylinux1_"@ + arch.spec_name(),
            PlatformTag::Manylinux2010 { arch } => "manylinux2010_"@ + arch.spec_name(),
            PlatformTag::Manylinux2014 { arch } => "manylinux2014_"@ + arch.spec_name(),
            PlatformTag::Linux { arch } => "linux_"@ + arch.spec_name(),
            PlatformTag::Musllinux { major, minor, arch } => "musllinux_"@ + decimal(major as nat)
                + "_"@ + decimal(minor as nat) + "_"@ + arch.spec_name(),
            PlatformTag::Macos { major, minor, binary_format } => "macosx_"@ + decimal(
                major as nat,
            ) + "_"@ + decimal(minor as nat) + "_"@ + binary_format.spec_name(),
            PlatformTag::Win32 => "win32"@,
            PlatformTag::WinAmd64 => "win_amd64"@,
            PlatformTag::WinArm64 => "win_arm64"@,
            PlatformTag::WinIa64 => "win_ia64"@,
            PlatformTag::Android { api_level, abi } => "android_"@ + decimal(api_level as nat)
                + "_"@ + abi.spec_name(),
            PlatformTag::FreeBsd { release_arch } => "freebsd_"@ + release_arch@,
            PlatformTag::NetBsd { release_arch } => "netbsd_"@ + release_arch@,
            PlatformTag::OpenBsd { release_arch } => "openbsd_"@ + release_arch@,
            PlatformTag::Dragonfly { release_arch } => "dragonfly_"@ + release_arch@,
            PlatformTag::Haiku { release_arch } => "haiku_"@ + release_arch@,
            PlatformTag::Illumos { release_arch } => "illumos_"@ + release_arch@,
            PlatformTag::Solaris { release_arch } => "solaris_"@ + release_arch@ + "_64bit"@,
            PlatformTag::Pyodide { major, minor } => "pyodide_"@ + decimal(major as nat) + "_"@
                + decimal(minor as nat) + "_wasm32"@,
            PlatformTag::Ios { major, minor, multiarch } => "ios_"@ + decimal(major as nat)
                + "_"@ + decimal(minor as nat) + "_"@ + multiarch.spec_name(),
        }
    }

    /// The tag as it stands in a wheel's file name.
    pub fn text(&self) -> (text: String)
        ensures
            text@ == self.spec_text(),
    {
        match self {
            PlatformTag::Any => String::from_str("any"),
            PlatformTag::Manylinux { major, minor, arch } => versioned(
                "manylinux_",
                *major,
                *minor,
                arch.name(),
            ),
            PlatformTag::Manylinux1 { arch } => joined("manylinux1_", arch.name()),
            PlatformTag::Manylinux2010 { arch } => joined("manylinux2010_", arch.name()),
            PlatformTag::Manylinux2014 { arch } => joined("manylinux2014_", arch.name()),
            PlatformTag::Linux { arch } => joined("linux_", arch.name()),
            PlatformTag::Musllinux { major, minor, arch } => versioned(
                "musllinux_",
                *major,
                *minor,
                arch.name(),
            ),
            PlatformTag::Macos { major, minor, binary_format } => versioned(
                "macosx_",
                *major,
                *minor,
                binary_format.name(),
            ),
            PlatformTag::Win32 => String::from_str("win32"),
            PlatformTag::WinAmd64 => String::from_str("win_amd64"),
            PlatformTag::WinArm64 => String::from_str("win_arm64"),
            PlatformTag::WinIa64 => String::from_str("win_ia64"),
            PlatformTag::Android { api_level, abi } => {
                let mut text = String::from_str("android_");
                push_decimal(&mut text, *api_level as u64);
                text.append("_");
                text.append(abi.name());
                text
            },
            PlatformTag::FreeBsd { release_arch } => joined("freebsd_", release_arch.as_str()),
            PlatformTag::NetBsd { release_arch } => joined("netbsd_", release_arch.as_str()),
            PlatformTag::OpenBsd { release_arch } => joined("openbsd_", release_arch.as_str()),
            PlatformTag::Dragonfly { release_arch } => joined("dragonfly_", release_arch.as_str()),
            PlatformTag::Haiku { release_arch } => joined("haiku_", release_arch.as_str()),
            PlatformTag::Illumos { release_arch } => joined("illumos_", release_arch.as_str()),
            PlatformTag::Solaris { release_arch } => {
                let mut text = joined("solaris_", release_arch.as_str());
                text.append("_64bit");
                text
            },
            PlatformTag::Pyodide { major, minor } => {
                let mut text = String::from_str("pyodide_");
                push_decimal(&mut text, *major as u64);
                text.append("_");
                push_decimal(&mut text, *minor as u64);
                text.append("_wasm32");
                text
            },
            PlatformTag::Ios { major, minor, multiarch } => versioned(
                "ios_",
                *major,
                *minor,
                multiarch.name(),
            ),
        }
    }
}

/// A tag that carries a version: `start`, the two numbers and `end`, with
/// `_` between them.
fn versioned(start: &str, major: u16, minor: u16, end: &str) -> (text: String)
    ensures
        text@ == start@ + decimal(major as nat) + "_"@ + decimal(minor as nat) + "_"@ + end@,
{
    let mut text = String::from_str(start);
    push_decimal(&mut text, major as u64);
    text.append("_");
    push_decimal(&mut text, minor as u64);
    text.append("_");
    text.append(end);
    text
}

/// What keeps a distribution from being uploaded to the index.
#[derive(Debug)]
pub enum PypiCompatError {
    /// A wheel has a platform tag not accepted by the index.
    UnsupportedPlatformTag { filename: String, platform_tag: String, reason: String },
}

/// An issue as text.
pub struct IssueView {
    /// The wheel's file name.
    pub filename: Seq<char>,
    /// The platform tag that is not accepted.
    pub platform_tag: Seq<char>,
    /// Why it is not.
    pub reason: Seq<char>,
}

impl View for PypiCompatError {
    type V = IssueView;

    open spec fn view(&self) -> IssueView {
        match self {
            PypiCompatError::UnsupportedPlatformTag { filename, platform_tag, reason } => IssueView {
                filename: filename@,
                platform_tag: platform_tag@,
                reason: reason@,
            },
        }
    }
}

/// The sentence that tells of an issue.
pub open spec fn issue_text(issue: IssueView) -> Seq<char> {
    "Wheel `"@ + issue.filename + "` has platform tag `"@ + issue.platform_tag
        + "` which is not accepted by PyPI"@ + issue.reason
}

impl PypiCompatError {
    /// The sentence that tells of the issue.
    pub fn message(&self) -> (text: String)
        ensures
            text@ == issue_text(self@),
    {
        match self {
            PypiCompatError::UnsupportedPlatformTag { filename, platform_tag, reason } => {
                let mut text = String::from_str("Wheel `");
                text.append(filename.as_str());
                text.append("` has platform tag `");
                text.append(platform_tag.as_str());
                text.append("` which is not accepted by PyPI");
                text.append(reason.as_str());
                text
            },
        }
    }
}

/// Result of checking a distribution for compatibility with the index.
#[derive(Debug)]
pub struct PypiCompatResult {
    /// The filename that was checked.
    pub filename: String,
    /// Any compatibility issues found.
    pub issues: Vec<PypiCompatError>,
}

impl PypiCompatResult {
    /// Returns `true` if the distribution is compatible with the index.
    pub fn is_compatible(&self) -> (res: bool)
        ensures
            res == (self.issues@.len() == 0),
    {
        self.issues.len() == 0
    }
}

/// The name of a wheel file, as far as the check depends on it.
#[derive(Debug)]
pub struct WheelFilename {
    /// The file name as text.
    pub text: String,
    /// The platform tags that the name carries.
    pub platform_tags: Vec<PlatformTag>,
}

/// The name of a distribution file.
#[derive(Debug)]
pub enum DistFilename {
    /// A source distribution, by its file name.
    SourceDistFilename(String),
    /// A wheel.
    WheelFilename(WheelFilename),
}

/// The issue that a tag that is not accepted gives rise to.
pub open spec fn issue_of(filename: Seq<char>, tag: PlatformTag) -> IssueView {
    IssueView { filename, platform_tag: tag.spec_text(), reason: reason(tag) }
}

/// The issues of a wheel: one for each of its platform tags that is not
/// accepted, in the order of the tags.
pub open spec fn issues_of(filename: Seq<char>, tags: Seq<PlatformTag>) -> Seq<IssueView>
    decreases tags.len(),
{
    if tags.len() == 0 {
        Seq::empty()
    } else if accepted(tags.last()) {
        issues_of(filename, tags.drop_last())
    } else {
        issues_of(filename, tags.drop_last()).push(issue_of(filename, tags.last()))
    }
}

/// The issues of a list as text.
pub open spec fn issue_views(issues: Seq<PypiCompatError>) -> Seq<IssueView> {
    Seq::new(issues.len(), |i: int| issues[i]@)
}

/// A wheel with no platform tag that is refused has no issues, and a wheel
/// with issues has a platform tag that is refused.
pub proof fn no_issues_means_all_accepted(filename: Seq<char>, tags: Seq<PlatformTag>)
    ensures
        issues_of(filename, tags).len() == 0 <==> forall|i: int|
            0 <= i < tags.len() ==> accepted(#[trigger] tags[i]),
    decreases tags.len(),
{
    if tags.len() > 0 {
        no_issues_means_all_accepted(filename, tags.drop_last());
        if issues_of(filename, tags).len() == 0 {
            assert forall|i: int| 0 <= i < tags.len() implies accepted(#[trigger] tags[i]) by {
                if i < tags.len() - 1 {
                    assert(tags.drop_last()[i] == tags[i]);
                }
            }
        } else if accepted(tags.last()) {
            let rest = tags.drop_last();
            let i = choose|i: int| 0 <= i < rest.len() && !accepted(#[trigger] rest[i]);
            assert(tags[i] == rest[i]);
        }
    }
}

/// Checks a wheel's platform tags: one issue for each that the index does
/// not take, in the order of the tags.
pub fn check_wheel_filename(wheel: &WheelFilename) -> (issues: Vec<PypiCompatError>)
    ensures
        issue_views(issues@) == issues_of(wheel.text@, wheel.platform_tags@),
{
    let mut issues: Vec<PypiCompatError> = Vec::new();
    let mut i: usize = 0;
    while i < wheel.platform_tags.len()
        invariant
            i <= wheel.platform_tags.len(),
            issue_views(issues@) == issues_of(wheel.text@, wheel.platform_tags@.take(i as int)),
        decreases wheel.platform_tags.len() - i,
    {
        let tag = &wheel.platform_tags[i];
        let ghost before = issue_views(issues@);
        proof {
            let upto = wheel.platform_tags@.take(i + 1);
            assert(upto.drop_last() =~= wheel.platform_tags@.take(i as int));
            assert(upto.last() == *tag);
        }
        if let Err(why) = is_valid_pypi_platform_tag(tag) {
            let issue = PypiCompatError::UnsupportedPlatformTag {
                filename: wheel.text.clone(),
                platform_tag: tag.text(),
                reason: why,
            };
            issues.push(issue);
            assert(issue_views(issues@) =~= before.push(issue_of(wheel.text@, *tag)));
        } else {
            assert(issue_views(issues@) =~= before);
        }
        i += 1;
    }
    assert(wheel.platform_tags@.take(wheel.platform_tags.len() as int) =~= wheel.platform_tags@);
    issues
}

/// Checks whether the index would take a distribution file, by its platform
/// tags. A source distribution is tied to no platform and always taken.
pub fn check_pypi_compat(filename: &DistFilename) -> (res: PypiCompatResult)
    ensures
        match *filename {
            DistFilename::WheelFilename(wheel) => res.filename@ == wheel.text@ && issue_views(
                res.issues@,
            ) == issues_of(wheel.text@, wheel.platform_tags@),
            DistFilename::SourceDistFilename(name) => res.filename@ == name@ && res.issues@.len()
                == 0,
        },
{
    match filename {
        DistFilename::WheelFilename(wheel) => PypiCompatResult {
            filename: wheel.text.clone(),
            issues: check_wheel_filename(wheel),
        },
        DistFilename::SourceDistFilename(name) => PypiCompatResult {
            filename: name.clone(),
            issues: Vec::new(),
        },
    }
}

} // verus!
