use tilepad_manifest::plugin::MBinNative;
use tilepad_manifest::system::{platform_arch, platform_os, Arch, OperatingSystem};

#[test]
fn test_is_usable_true_when_matches() {
    let bin = MBinNative {
        os: OperatingSystem::Linux,
        arch: Arch::X64,
        path: "bin/linux-x64".to_string(),
    };
    assert!(bin.is_usable(&OperatingSystem::Linux, &Arch::X64));
}

#[test]
fn test_is_usable_false_when_os_mismatch() {
    let bin = MBinNative {
        os: OperatingSystem::Linux,
        arch: Arch::X64,
        path: "bin/linux-x64".to_string(),
    };
    assert!(!bin.is_usable(&OperatingSystem::Windows, &Arch::X64));
}

#[test]
fn test_is_usable_false_when_arch_mismatch() {
    let bin = MBinNative {
        os: OperatingSystem::Linux,
        arch: Arch::X64,
        path: "bin/linux-x64".to_string(),
    };
    assert!(!bin.is_usable(&OperatingSystem::Linux, &Arch::X86));
}

#[test]
fn test_find_usable_finds_correct_bin() {
    let bins = vec![
        MBinNative {
            os: OperatingSystem::Windows,
            arch: Arch::X64,
            path: "bin/win-x64".to_string(),
        },
        MBinNative {
            os: OperatingSystem::Linux,
            arch: Arch::X64,
            path: "bin/linux-x64".to_string(),
        },
    ];
    let result = MBinNative::find_usable(&bins, &OperatingSystem::Linux, &Arch::X64);
    assert!(result.is_some());
    assert_eq!(result.unwrap().path, "bin/linux-x64");
}

#[test]
fn test_find_usable_returns_none_if_no_match() {
    let bins = vec![
        MBinNative {
            os: OperatingSystem::Windows,
            arch: Arch::X64,
            path: "bin/win-x64".to_string(),
        },
        MBinNative {
            os: OperatingSystem::MacOs,
            arch: Arch::Arm64,
            path: "bin/macos-arm64".to_string(),
        },
    ];
    let result = MBinNative::find_usable(&bins, &OperatingSystem::Linux, &Arch::X64);
    assert!(result.is_none());
}

#[test]
fn test_find_usable_returns_first_match() {
    let bins = vec![
        MBinNative {
            os: OperatingSystem::Linux,
            arch: Arch::X64,
            path: "bin/linux-x64-v1".to_string(),
        },
        MBinNative {
            os: OperatingSystem::Linux,
            arch: Arch::X64,
            path: "bin/linux-x64-v2".to_string(),
        },
    ];
    let result = MBinNative::find_usable(&bins, &OperatingSystem::Linux, &Arch::X64);
    assert!(result.is_some());
    assert_eq!(result.unwrap().path, "bin/linux-x64-v1");
}

fn native(os: OperatingSystem, arch: Arch, path: &str) -> MBinNative {
    MBinNative {
        os,
        arch,
        path: path.to_string(),
    }
}

#[test]
fn find_usable_on_an_empty_list_finds_nothing() {
    let bins: Vec<MBinNative> = Vec::new();
    assert!(MBinNative::find_usable(&bins, &OperatingSystem::Linux, &Arch::X64).is_none());
}

#[test]
fn find_usable_skips_partial_matches_before_the_first_full_match() {
    let bins = vec![
        native(OperatingSystem::Linux, Arch::Arm64, "a"),
        native(OperatingSystem::Windows, Arch::X64, "b"),
        native(OperatingSystem::Linux, Arch::X64, "c"),
        native(OperatingSystem::Linux, Arch::X64, "d"),
    ];
    let found = MBinNative::find_usable(&bins, &OperatingSystem::Linux, &Arch::X64).unwrap();
    assert_eq!(found.path, "c");
    assert!(std::ptr::eq(found, &bins[2]));
}

#[test]
fn platform_os_knows_the_three_systems() {
    assert_eq!(platform_os("windows"), Some(OperatingSystem::Windows));
    assert_eq!(platform_os("macos"), Some(OperatingSystem::MacOs));
    assert_eq!(platform_os("linux"), Some(OperatingSystem::Linux));
}

#[test]
fn platform_os_knows_no_other_name() {
    assert_eq!(platform_os("freebsd"), None);
    assert_eq!(platform_os(""), None);
    assert_eq!(platform_os("Linux"), None);
    assert_eq!(platform_os("linux "), None);
    assert_eq!(platform_os("linu"), None);
}

#[test]
fn platform_arch_follows_width_and_family() {
    assert_eq!(platform_arch(64, false), Some(Arch::X64));
    assert_eq!(platform_arch(32, false), Some(Arch::X86));
    assert_eq!(platform_arch(64, true), Some(Arch::Arm64));
    assert_eq!(platform_arch(32, true), Some(Arch::Arm));
}

#[test]
fn platform_arch_knows_no_other_width() {
    assert_eq!(platform_arch(16, false), None);
    assert_eq!(platform_arch(128, true), None);
    assert_eq!(platform_arch(0, false), None);
}

#[test]
fn find_current_resolves_the_platform_first() {
    let bins = vec![
        native(OperatingSystem::Windows, Arch::X64, "win"),
        native(OperatingSystem::Linux, Arch::Arm64, "linux-arm64"),
        native(OperatingSystem::Linux, Arch::X64, "linux-x64"),
    ];
    let found = MBinNative::find_current(&bins, "linux", 64, false).unwrap();
    assert_eq!(found.path, "linux-x64");
    let found = MBinNative::find_current(&bins, "linux", 64, true).unwrap();
    assert_eq!(found.path, "linux-arm64");
    assert!(MBinNative::find_current(&bins, "macos", 64, true).is_none());
    assert!(MBinNative::find_current(&bins, "linux", 32, false).is_none());
}

#[test]
fn find_current_finds_nothing_on_a_platform_without_a_name() {
    let bins = vec![native(OperatingSystem::Linux, Arch::X64, "linux-x64")];
    assert!(MBinNative::find_current(&bins, "plan9", 64, false).is_none());
    assert!(MBinNative::find_current(&bins, "linux", 16, false).is_none());
}
