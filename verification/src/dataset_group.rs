//! Dataset groups: who may make one.

use vstd::prelude::*;

verus! {

/// The request to make a dataset group.
#[derive(Debug)]
pub struct PostDatasetGroupRequest {
    pub name: String,
}

/// Why a request is refused: the status to answer with, and what to say.
#[derive(Debug, PartialEq, Eq)]
pub struct Refusal {
    pub status: u16,
    pub reason: &'static str,
}

/// The status that says that a request is not allowed.
pub const FORBIDDEN: u16 = 403;

/// The status that says that the server failed.
pub const INTERNAL_SERVER_ERROR: u16 = 500;

/// Whether a user may make a dataset group, given what was found of the
/// user: the organization, where the lookup did not fail (`Err`) and the
/// user has one, and whether the user administers the workspace or its
/// data, where that lookup was made and did not fail. The user must belong
/// to an organization and administer it.
pub fn post_dataset_group<O>(organization: Result<Option<O>, ()>, is_admin: Result<bool, ()>) -> (r:
    Result<O, Refusal>)
    ensures
        match organization {
            Err(_) => r matches Err(refusal) && refusal.status == INTERNAL_SERVER_ERROR
                && refusal.reason@ == "Error getting user organization id"@,
            Ok(None) => r matches Err(refusal) && refusal.status == FORBIDDEN && refusal.reason@
                == "User does not belong to any organization"@,
            Ok(Some(id)) => match is_admin {
                Err(_) => r matches Err(refusal) && refusal.status == INTERNAL_SERVER_ERROR
                    && refusal.reason@ == "Error checking user permissions"@,
                Ok(false) => r matches Err(refusal) && refusal.status == FORBIDDEN
                    && refusal.reason@ == "Insufficient permissions"@,
                Ok(true) => r == Ok::<O, Refusal>(id),
            },
        },
{
    match organization {
        Err(_) => Err(
            Refusal { status: INTERNAL_SERVER_ERROR, reason: "Error getting user organization id" },
        ),
        Ok(None) => Err(
            Refusal { status: FORBIDDEN, reason: "User does not belong to any organization" },
        ),
        Ok(Some(id)) => match is_admin {
            Err(_) => Err(
                Refusal {
                    status: INTERNAL_SERVER_ERROR,
                    reason: "Error checking user permissions",
                },
            ),
            Ok(false) => Err(Refusal { status: FORBIDDEN, reason: "Insufficient permissions" }),
            Ok(true) => Ok(id),
        },
    }
}

} // verus!
