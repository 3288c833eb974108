//! The host platforms the installer distinguishes.

use vstd::prelude::*;

verus! {

/// The family of operating systems the installer runs on. The caller says which
/// one it is; nothing in the library looks at the host.
#[derive(Clone, Copy, Debug, PartialEq, Eq, Structural)]
pub enum Platform {
    Windows,
    Unix,
}

} // verus!
