//! Composition of the platform-specific filename under which a plugin module
//! is discovered: given a directory and a logical plugin name, the host looks
//! the composed filename up literally in that directory.

use vstd::prelude::*;

verus! {

/// The operating-system family whose naming convention for dynamically
/// loadable modules applies.
#[derive(Clone, Copy, PartialEq, Eq, Structural, Debug)]
pub enum TargetOs {
    Windows,
    MacOs,
    Linux,
}

/// The module filename for a logical plugin name under an OS convention:
/// `<name>.dll` on Windows, `lib<name>.dylib` on macOS, `lib<name>.so`
/// elsewhere.
pub open spec fn spec_platform_library_name(os: TargetOs, name: Seq<char>) -> Seq<char> {
    match os {
        TargetOs::Windows => name + ".dll"@,
        TargetOs::MacOs => "lib"@ + name + ".dylib"@,
        TargetOs::Linux => "lib"@ + name + ".so"@,
    }
}

/// Builds the filename of a dynamically loadable plugin module from a logical
/// plugin name, following the target platform's prefix/extension convention.
pub fn platform_library_name(os: TargetOs, name: &str) -> (r: String)
    ensures
        r@ == spec_platform_library_name(os, name@),
{
    match os {
        TargetOs::Windows => String::from_str(name).concat(".dll"),
        TargetOs::MacOs => String::from_str("lib").concat(name).concat(".dylib"),
        TargetOs::Linux => String::from_str("lib").concat(name).concat(".so"),
    }
}

} // verus!
