use vstd::prelude::*;
use crate::entry::{Permissions, PermissionsModel, vec_contains_string};

verus! {

/// Whether a requester identified by a namespace and a principal may update
/// an entry that already exists and carries these permissions: the entry must
/// be marked modifiable, and the requester must be admitted by public access,
/// by namespace, or by principal.
pub open spec fn spec_write_allowed(
    p: PermissionsModel,
    requester_network: Seq<char>,
    requester_user: Seq<char>,
) -> bool {
    &&& p.can_modify
    &&& {
        ||| p.public_access
        ||| p.allowed_networks.contains(requester_network)
        ||| p.allowed_users.contains(requester_user)
    }
}

/// Whether a requester may read an entry carrying these permissions back
/// through a query: public access, or admission by namespace or principal.
pub open spec fn spec_query_allowed(
    p: PermissionsModel,
    requester_network: Seq<char>,
    requester_user: Seq<char>,
) -> bool {
    ||| p.public_access
    ||| p.allowed_networks.contains(requester_network)
    ||| p.allowed_users.contains(requester_user)
}

/// Decides write authorization for an update to an existing entry.
/// First writes are not gated here: the store grants them unconditionally.
pub fn write_allowed(
    p: &Permissions,
    requester_network: &String,
    requester_user: &String,
) -> (b: bool)
    ensures
        b == spec_write_allowed(p@, requester_network@, requester_user@),
{
    p.can_modify && (p.public_access || vec_contains_string(&p.allowed_networks, requester_network)
        || vec_contains_string(&p.allowed_users, requester_user))
}

/// Decides query authorization against a stored entry's permissions.
pub fn query_allowed(
    p: &Permissions,
    requester_network: &String,
    requester_user: &String,
) -> (b: bool)
    ensures
        b == spec_query_allowed(p@, requester_network@, requester_user@),
{
    p.public_access || vec_contains_string(&p.allowed_networks, requester_network)
        || vec_contains_string(&p.allowed_users, requester_user)
}

} // verus!
