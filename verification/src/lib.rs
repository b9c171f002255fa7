//! The instance registry of a virtual machine manager: it assigns identities to
//! virtual machines, tracks the running ones without keeping them alive, and
//! offers a small, permission-gated surface for debugging.

use vstd::prelude::*;

pub mod access;
pub mod aidl;
pub mod instance;
pub mod laws;
pub mod model;
pub mod state;
pub mod status;

verus! {

/// The identity of a virtual machine, by which it is addressed over vsock.
pub type Cid = u32;

/// The first identity given to a guest. Lower values are reserved for the host and other uses.
pub const FIRST_GUEST_CID: Cid = 10;

} // verus!
