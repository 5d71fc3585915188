use vstd::prelude::*;

verus! {

/// The distinguished administrator role. Holders of this role bypass ACL
/// checks entirely, so it is never stored in encoded ACLs.
pub const ROLE_ADMIN: &'static str = "ROLE_ADMIN";

} // verus!
