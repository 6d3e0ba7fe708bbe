use vstd::prelude::*;
use crate::error::InstallError;
use crate::text::str_eq;

verus! {

/// The six supported host platform / CPU combinations.
#[derive(Clone, Copy, Debug, PartialEq, Eq, Structural)]
pub enum Architecture {
    WindowsX64,
    WindowsArm64,
    LinuxX64,
    LinuxArm64,
    MacOSX64,
    MacOSArm64,
}

/// The architecture named by an OS identifier and a CPU identifier, if the
/// pair is supported.
pub open spec fn arch_of(os: Seq<char>, arch: Seq<char>) -> Option<Architecture> {
    if os == "windows"@ && arch == "x86_64"@ {
        Some(Architecture::WindowsX64)
    } else if os == "windows"@ && arch == "aarch64"@ {
        Some(Architecture::WindowsArm64)
    } else if os == "linux"@ && arch == "x86_64"@ {
        Some(Architecture::LinuxX64)
    } else if os == "linux"@ && arch == "aarch64"@ {
        Some(Architecture::LinuxArm64)
    } else if os == "macos"@ && arch == "x86_64"@ {
        Some(Architecture::MacOSX64)
    } else if os == "macos"@ && arch == "aarch64"@ {
        Some(Architecture::MacOSArm64)
    } else {
        None
    }
}

/// The ordered, deliberately overlapping lowercase patterns matched against
/// asset names for each architecture.
pub open spec fn patterns_of(a: Architecture) -> Seq<Seq<char>> {
    match a {
        Architecture::WindowsX64 => seq!["windows"@, "win"@, "x64"@, "x86_64"@, "amd64"@],
        Architecture::WindowsArm64 => seq!["windows"@, "win"@, "arm64"@, "aarch64"@],
        Architecture::LinuxX64 => seq!["linux"@, "x64"@, "x86_64"@, "amd64"@],
        Architecture::LinuxArm64 => seq!["linux"@, "arm64"@, "aarch64"@],
        Architecture::MacOSX64 => seq!["macos"@, "darwin"@, "x64"@, "x86_64"@],
        Architecture::MacOSArm64 => seq!["macos"@, "darwin"@, "arm64"@, "aarch64"@],
    }
}

impl Architecture {
    /// Map OS and CPU identifiers (as `std::env::consts` reports them) to
    /// the architecture, or fail on an unsupported pair.
    pub fn detect(os: &str, arch: &str) -> (r: Result<Architecture, InstallError>)
        ensures
            match arch_of(os@, arch@) {
                Some(a) => r matches Ok(x) && x == a,
                None => r matches Err(e) && e is UnsupportedPlatform,
            },
    {
        let windows = str_eq(os, "windows");
        let linux = str_eq(os, "linux");
        let macos = str_eq(os, "macos");
        let x64 = str_eq(arch, "x86_64");
        let arm = str_eq(arch, "aarch64");
        if windows && x64 {
            Ok(Architecture::WindowsX64)
        } else if windows && arm {
            Ok(Architecture::WindowsArm64)
        } else if linux && x64 {
            Ok(Architecture::LinuxX64)
        } else if linux && arm {
            Ok(Architecture::LinuxArm64)
        } else if macos && x64 {
            Ok(Architecture::MacOSX64)
        } else if macos && arm {
            Ok(Architecture::MacOSArm64)
        } else {
            Err(InstallError::UnsupportedPlatform)
        }
    }

    /// The patterns used for fuzzy matching against asset names.
    pub fn asset_patterns(&self) -> (r: Vec<&'static str>)
        ensures
            r@.map_values(|p: &str| p@) == patterns_of(*self),
    {
        let r: Vec<&'static str> = match self {
            Architecture::WindowsX64 => vec!["windows", "win", "x64", "x86_64", "amd64"],
            Architecture::WindowsArm64 => vec!["windows", "win", "arm64", "aarch64"],
            Architecture::LinuxX64 => vec!["linux", "x64", "x86_64", "amd64"],
            Architecture::LinuxArm64 => vec!["linux", "arm64", "aarch64"],
            Architecture::MacOSX64 => vec!["macos", "darwin", "x64", "x86_64"],
            Architecture::MacOSArm64 => vec!["macos", "darwin", "arm64", "aarch64"],
        };
        proof {
            assert(r@.map_values(|p: &str| p@) =~= patterns_of(*self));
        }
        r
    }

    /// Is this one of the Windows platforms?
    pub fn is_windows(&self) -> (r: bool)
        ensures
            r == (self is WindowsX64 || self is WindowsArm64),
    {
        matches!(self, Architecture::WindowsX64 | Architecture::WindowsArm64)
    }
}

} // verus!
