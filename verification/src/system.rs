//! The platforms that a native binary can be built for.

use crate::chars::chars_of;
use vstd::prelude::*;

verus! {

/// Operating systems
#[derive(Debug, Clone, Copy, PartialEq, Eq, Structural)]
pub enum OperatingSystem {
    Windows,
    MacOs,
    Linux,
}

/// CPU architecture the binary is compiled as
#[derive(Debug, Clone, Copy, PartialEq, Eq, Structural)]
pub enum Arch {
    X86,
    X64,
    Arm,
    Arm64,
}

/// Whether two strings hold the same text.
pub fn same_text(a: &str, b: &str) -> (same: bool)
    ensures
        same == (a@ == b@),
{
    let left = chars_of(a);
    let right = chars_of(b);
    if left.len() != right.len() {
        return false;
    }
    let mut i: usize = 0;
    while i < left.len()
        invariant
            i <= left.len(),
            left.len() == right.len(),
            left@ == a@,
            right@ == b@,
            left@.take(i as int) == right@.take(i as int),
        decreases left.len() - i,
    {
        if left[i] != right[i] {
            proof {
                assert(a@[i as int] != b@[i as int]);
            }
            return false;
        }
        proof {
            assert(left@.take(i + 1) == left@.take(i as int).push(left@[i as int]));
            assert(right@.take(i + 1) == right@.take(i as int).push(right@[i as int]));
        }
        i = i + 1;
    }
    proof {
        assert(left@.take(left.len() as int) == left@);
        assert(right@.take(right.len() as int) == right@);
    }
    true
}

/// The operating system that goes by `name` in a manifest.
pub open spec fn os_named(name: Seq<char>) -> Option<OperatingSystem> {
    if name == "windows"@ {
        Some(OperatingSystem::Windows)
    } else if name == "macos"@ {
        Some(OperatingSystem::MacOs)
    } else if name == "linux"@ {
        Some(OperatingSystem::Linux)
    } else {
        None
    }
}

/// The architecture of a target with pointers of `pointer_width` bits that
/// is, or is not, of the ARM family.
pub open spec fn arch_of(pointer_width: u32, arm: bool) -> Option<Arch> {
    if pointer_width == 64 {
        Some(
            if arm {
                Arch::Arm64
            } else {
                Arch::X64
            },
        )
    } else if pointer_width == 32 {
        Some(
            if arm {
                Arch::Arm
            } else {
                Arch::X86
            },
        )
    } else {
        None
    }
}

/// The operating system of the platform whose name is `target_os`, as the
/// compiler names its target: `None` for a system that no plugin can name.
pub fn platform_os(target_os: &str) -> (os: Option<OperatingSystem>)
    ensures
        os == os_named(target_os@),
{
    if same_text(target_os, "windows") {
        Some(OperatingSystem::Windows)
    } else if same_text(target_os, "macos") {
        Some(OperatingSystem::MacOs)
    } else if same_text(target_os, "linux") {
        Some(OperatingSystem::Linux)
    } else {
        None
    }
}

/// The architecture of the platform: 64 bits without ARM is `X64`, 32 bits
/// without ARM is `X86`, and with ARM they are `Arm64` and `Arm`. `None` for
/// any other pointer width.
pub fn platform_arch(pointer_width: u32, arm: bool) -> (arch: Option<Arch>)
    ensures
        arch == arch_of(pointer_width, arm),
{
    if pointer_width == 64 {
        if arm {
            Some(Arch::Arm64)
        } else {
            Some(Arch::X64)
        }
    } else if pointer_width == 32 {
        if arm {
            Some(Arch::Arm)
        } else {
            Some(Arch::X86)
        }
    } else {
        None
    }
}

} // verus!
