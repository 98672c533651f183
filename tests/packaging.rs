use rdxusb::packaging::{Architecture, BuildConfig, OperatingSystem, Target};

#[test]
fn os_names_and_artifacts() {
    assert_eq!(OperatingSystem::Linux.name(), "linux");
    assert_eq!(OperatingSystem::Windows.name(), "windows");
    assert_eq!(OperatingSystem::Osx.name(), "osx");
    assert_eq!(OperatingSystem::Windows.shared_artifacts(), &[".pdb", ".lib", ".dll"]);
    assert_eq!(OperatingSystem::Linux.shared_artifacts(), &[".so"]);
    assert_eq!(OperatingSystem::Osx.static_artifacts(), &[".a"]);
    assert_eq!(OperatingSystem::Windows.static_artifacts(), &[".lib"]);
}

#[test]
fn target_info_table() {
    let i = Target::LinuxAthena.info();
    assert_eq!(i.triple, "arm-unknown-linux-gnueabi");
    assert_eq!(i.os, OperatingSystem::Linux);
    assert_eq!(i.arch, Architecture::Athena);
    let o = Target::OsxUniversal.info();
    assert_eq!(o.triple, "universal-apple-darwin");
    assert_eq!(o.arch.name(), "universal");
    assert_eq!(Target::WindowsArm64.info().triple, "aarch64-pc-windows-msvc");
    assert_eq!(Target::LinuxX86_64.info().arch.name(), "x86-64");
}

#[test]
fn build_configs() {
    assert!(BuildConfig::StaticDebug.is_static() && BuildConfig::StaticDebug.is_debug());
    assert!(!BuildConfig::Shared.is_static() && !BuildConfig::Shared.is_debug());
    assert_eq!(BuildConfig::Shared.suffix(), "");
    assert_eq!(BuildConfig::StaticDebug.suffix(), "staticdebug");
    assert_eq!(BuildConfig::SharedDebug.suffix(), "debug");
}
