//! The identifiers of the host: operating system, processor architecture and
//! family of operating systems.

use vstd::prelude::*;
use vstd::string::*;

verus! {

/// The identifiers of the host. They are fixed for the life of a process.
#[derive(Clone, Debug, PartialEq, Eq)]
pub struct SystemInfo {
    /// The operating system, such as `linux`.
    pub os: String,
    /// The processor architecture, such as `x86_64`.
    pub arch: String,
    /// The family of operating systems, such as `unix`.
    pub family: String,
}

/// The record of the host's identifiers. It holds each one as given, and
/// there is no input on which it fails.
pub fn get_system_info(os: &str, arch: &str, family: &str) -> (info: SystemInfo)
    ensures
        info.os@ == os@,
        info.arch@ == arch@,
        info.family@ == family@,
{
    SystemInfo {
        os: String::from_str(os),
        arch: String::from_str(arch),
        family: String::from_str(family),
    }
}

} // verus!
