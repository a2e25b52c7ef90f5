//! The user profile endpoint.

use vstd::prelude::*;

verus! {

/// A user's profile. It holds nothing yet.
#[derive(Debug, Clone, Copy, PartialEq, Eq, Default)]
pub struct GetProfileResponse {}

/// Why the profile cannot be read. No case arises yet.
#[derive(Debug, Clone, Copy, PartialEq, Eq)]
pub struct GetProfileError {}

/// Reads the user's profile: always the empty profile.
pub fn get_user_profile() -> (r: Result<GetProfileResponse, GetProfileError>)
    ensures
        r is Ok,
{
    Ok(GetProfileResponse {})
}

} // verus!
