//! The name of the platform that the launcher runs on.

use vstd::prelude::*;
use vstd::string::*;

verus! {

/// What stands between the operating system and the architecture in the
/// name of a platform.
pub const PLATFORM_SEPARATOR: &'static str = "-";

/// The name of the platform with this operating system and architecture.
pub open spec fn platform_text(os: Seq<char>, arch: Seq<char>) -> Seq<char> {
    os + PLATFORM_SEPARATOR@ + arch
}

/// Returns the name of a platform: the operating system, a hyphen, and the
/// architecture. Some examples: `windows-x86_64`, `linux-x86`, `macos-aarch64`.
pub fn get_platform(os: &str, arch: &str) -> (platform: String)
    ensures
        platform@ == platform_text(os@, arch@),
{
    let mut platform = os.to_owned();
    platform.append(PLATFORM_SEPARATOR);
    platform.append(arch);
    platform
}

} // verus!
