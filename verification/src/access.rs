//! The access gate: who may call the debug operations.

use vstd::prelude::*;

verus! {

/// The user ids of the principals that may call the debug operations: the
/// superuser and the shell.
pub const DEBUG_ALLOWED_UIDS: [u32; 2] = [0, 2000];

/// Whether `uid` is on the allow-list of the debug operations.
pub open spec fn is_debug_uid(uid: u32) -> bool {
    uid == 0 || uid == 2000
}

/// Decides whether the principal `uid`, the caller of the request at hand, may
/// call the debug operations.
pub fn debug_access_allowed(uid: u32) -> (allowed: bool)
    ensures
        allowed == is_debug_uid(uid),
{
    let mut i: usize = 0;
    while i < DEBUG_ALLOWED_UIDS.len()
        invariant
            i <= 2,
            forall|j: int| 0 <= j < i ==> DEBUG_ALLOWED_UIDS[j] != uid,
        decreases 2 - i,
    {
        if DEBUG_ALLOWED_UIDS[i] == uid {
            return true;
        }
        i += 1;
    }
    false
}

} // verus!
