//! Host platforms.

use vstd::prelude::*;

verus! {

/// The desktop platform that a node runs on.
#[derive(Clone, Copy, Debug, PartialEq, Eq, Structural)]
pub enum HostPlatform {
    LinuxWayland,
    Windows,
}

} // verus!
