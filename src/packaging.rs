//! Names of the release artifacts: build targets, their triples, operating
//! systems and architectures, and the build configurations.

use vstd::prelude::*;

verus! {

#[derive(Clone, Copy, PartialEq, Eq, Debug)]
pub enum Target {
    LinuxAthena,
    WindowsX86_64,
    WindowsArm64,
    OsxUniversal,
    OsxX86_64,
    OsxArm64,
    LinuxX86_64,
    LinuxArm64,
    LinuxArm32,
}

#[derive(Clone, Copy, PartialEq, Eq, Debug)]
pub enum OperatingSystem {
    Linux,
    Windows,
    Osx,
}

/// The name of an operating system in artifact paths.
pub open spec fn os_name(os: OperatingSystem) -> Seq<char> {
    match os {
        OperatingSystem::Linux => "linux"@,
        OperatingSystem::Windows => "windows"@,
        OperatingSystem::Osx => "osx"@,
    }
}

/// The file suffixes of a shared-library build for an operating system.
pub open spec fn os_shared_artifacts(os: OperatingSystem) -> Seq<Seq<char>> {
    match os {
        OperatingSystem::Linux => seq![".so"@],
        OperatingSystem::Windows => seq![".pdb"@, ".lib"@, ".dll"@],
        OperatingSystem::Osx => seq![".dylib"@],
    }
}

/// The file suffixes of a static-library build for an operating system.
pub open spec fn os_static_artifacts(os: OperatingSystem) -> Seq<Seq<char>> {
    match os {
        OperatingSystem::Linux => seq![".a"@],
        OperatingSystem::Windows => seq![".lib"@],
        OperatingSystem::Osx => seq![".a"@],
    }
}

/// The views of a list of names.
pub open spec fn names_view(v: Seq<&'static str>) -> Seq<Seq<char>> {
    v.map_values(|s: &'static str| s@)
}

impl OperatingSystem {
    /// The name used in artifact paths.
    pub fn name(&self) -> (r: &'static str)
        ensures
            r@ == os_name(*self),
    {
        match self {
            OperatingSystem::Linux => "linux",
            OperatingSystem::Windows => "windows",
            OperatingSystem::Osx => "osx",
        }
    }

    /// The file suffixes of a shared-library build.
    pub fn shared_artifacts(&self) -> (r: &'static [&'static str])
        ensures
            names_view(r@) == os_shared_artifacts(*self),
    {
        let r: &'static [&'static str] = match self {
            OperatingSystem::Linux => &[".so"],
            OperatingSystem::Windows => &[".pdb", ".lib", ".dll"],
            OperatingSystem::Osx => &[".dylib"],
        };
        assert(names_view(r@) =~= os_shared_artifacts(*self));
        r
    }

    /// The file suffixes of a static-library build.
    pub fn static_artifacts(&self) -> (r: &'static [&'static str])
        ensures
            names_view(r@) == os_static_artifacts(*self),
    {
        let r: &'static [&'static str] = match self {
            OperatingSystem::Linux => &[".a"],
            OperatingSystem::Windows => &[".lib"],
            OperatingSystem::Osx => &[".a"],
        };
        assert(names_view(r@) =~= os_static_artifacts(*self));
        r
    }
}

#[derive(Clone, Copy, PartialEq, Eq, Debug)]
pub enum Architecture {
    Athena,
    X86_64,
    Arm32,
    Arm64,
    OsxUniversal,
}

/// The name of an architecture in artifact paths.
pub open spec fn arch_name(a: Architecture) -> Seq<char> {
    match a {
        Architecture::Athena => "athena"@,
        Architecture::X86_64 => "x86-64"@,
        Architecture::Arm32 => "arm32"@,
        Architecture::Arm64 => "arm64"@,
        Architecture::OsxUniversal => "universal"@,
    }
}

impl Architecture {
    /// The name used in artifact paths.
    pub fn name(&self) -> (r: &'static str)
        ensures
            r@ == arch_name(*self),
    {
        match self {
            Architecture::Athena => "athena",
            Architecture::X86_64 => "x86-64",
            Architecture::Arm32 => "arm32",
            Architecture::Arm64 => "arm64",
            Architecture::OsxUniversal => "universal",
        }
    }
}

/// The toolchain triple, operating system and architecture of a target.
pub struct TargetInfo {
    pub triple: &'static str,
    pub os: OperatingSystem,
    pub arch: Architecture,
}

/// The toolchain triple of a target.
pub open spec fn target_triple(t: Target) -> Seq<char> {
    match t {
        Target::LinuxAthena => "arm-unknown-linux-gnueabi"@,
        Target::WindowsX86_64 => "x86_64-pc-windows-msvc"@,
        Target::WindowsArm64 => "aarch64-pc-windows-msvc"@,
        Target::OsxUniversal => "universal-apple-darwin"@,
        Target::OsxArm64 => "aarch64-apple-darwin"@,
        Target::OsxX86_64 => "x86_64-apple-darwin"@,
        Target::LinuxX86_64 => "x86_64-unknown-linux-gnu"@,
        Target::LinuxArm64 => "aarch64-unknown-linux-gnu"@,
        Target::LinuxArm32 => "arm-unknown-linux-gnueabihf"@,
    }
}

/// The operating system of a target.
pub open spec fn target_os(t: Target) -> OperatingSystem {
    match t {
        Target::LinuxAthena | Target::LinuxX86_64 | Target::LinuxArm64 | Target::LinuxArm32 => OperatingSystem::Linux,
        Target::WindowsX86_64 | Target::WindowsArm64 => OperatingSystem::Windows,
        Target::OsxUniversal | Target::OsxArm64 | Target::OsxX86_64 => OperatingSystem::Osx,
    }
}

/// The architecture of a target.
pub open spec fn target_arch(t: Target) -> Architecture {
    match t {
        Target::LinuxAthena => Architecture::Athena,
        Target::WindowsX86_64 | Target::OsxX86_64 | Target::LinuxX86_64 => Architecture::X86_64,
        Target::WindowsArm64 | Target::OsxArm64 | Target::LinuxArm64 => Architecture::Arm64,
        Target::OsxUniversal => Architecture::OsxUniversal,
        Target::LinuxArm32 => Architecture::Arm32,
    }
}

impl Target {
    /// The triple, operating system and architecture of this target.
    pub fn info(&self) -> (r: TargetInfo)
        ensures
            r.triple@ == target_triple(*self),
            r.os == target_os(*self),
            r.arch == target_arch(*self),
    {
        match self {
            Target::LinuxAthena => TargetInfo {
                triple: "arm-unknown-linux-gnueabi",
                os: OperatingSystem::Linux,
                arch: Architecture::Athena,
            },
            Target::WindowsX86_64 => TargetInfo {
                triple: "x86_64-pc-windows-msvc",
                os: OperatingSystem::Windows,
                arch: Architecture::X86_64,
            },
            Target::WindowsArm64 => TargetInfo {
                triple: "aarch64-pc-windows-msvc",
                os: OperatingSystem::Windows,
                arch: Architecture::Arm64,
            },
            Target::OsxUniversal => TargetInfo {
                triple: "universal-apple-darwin",
                os: OperatingSystem::Osx,
                arch: Architecture::OsxUniversal,
            },
            Target::OsxArm64 => TargetInfo {
                triple: "aarch64-apple-darwin",
                os: OperatingSystem::Osx,
                arch: Architecture::Arm64,
            },
            Target::OsxX86_64 => TargetInfo {
                triple: "x86_64-apple-darwin",
                os: OperatingSystem::Osx,
                arch: Architecture::X86_64,
            },
            Target::LinuxX86_64 => TargetInfo {
                triple: "x86_64-unknown-linux-gnu",
                os: OperatingSystem::Linux,
                arch: Architecture::X86_64,
            },
            Target::LinuxArm64 => TargetInfo {
                triple: "aarch64-unknown-linux-gnu",
                os: OperatingSystem::Linux,
                arch: Architecture::Arm64,
            },
            Target::LinuxArm32 => TargetInfo {
                triple: "arm-unknown-linux-gnueabihf",
                os: OperatingSystem::Linux,
                arch: Architecture::Arm32,
            },
        }
    }
}

#[derive(Clone, Copy, PartialEq, Eq, Debug)]
pub enum BuildConfig {
    Shared,
    Static,
    SharedDebug,
    StaticDebug,
}

/// The artifact-name suffix of a build configuration.
pub open spec fn config_suffix(c: BuildConfig) -> Seq<char> {
    match c {
        BuildConfig::Shared => ""@,
        BuildConfig::Static => "static"@,
        BuildConfig::SharedDebug => "debug"@,
        BuildConfig::StaticDebug => "staticdebug"@,
    }
}

impl BuildConfig {
    /// Is this a static-library build?
    pub fn is_static(&self) -> (r: bool)
        ensures
            r == (*self == BuildConfig::Static || *self == BuildConfig::StaticDebug),
    {
        match self {
            BuildConfig::Shared => false,
            BuildConfig::Static => true,
            BuildConfig::SharedDebug => false,
            BuildConfig::StaticDebug => true,
        }
    }

    /// Is this a debug build?
    pub fn is_debug(&self) -> (r: bool)
        ensures
            r == (*self == BuildConfig::SharedDebug || *self == BuildConfig::StaticDebug),
    {
        match self {
            BuildConfig::Shared => false,
            BuildConfig::Static => false,
            BuildConfig::SharedDebug => true,
            BuildConfig::StaticDebug => true,
        }
    }

    /// The suffix of the artifact name of this configuration.
    pub fn suffix(&self) -> (r: &'static str)
        ensures
            r@ == config_suffix(*self),
    {
        match self {
            BuildConfig::Shared => "",
            BuildConfig::Static => "static",
            BuildConfig::SharedDebug => "debug",
            BuildConfig::StaticDebug => "staticdebug",
        }
    }
}

} // verus!
