//! Requests that only administrators make, and the per-address request
//! delays.

use vstd::prelude::*;
use vstd::hash_map::StringHashMap;
use std::time::{Duration, Instant};
use crate::authstruct::{delete_user, AuthStruct};

verus! {

#[verifier::external_type_specification]
#[verifier::external_body]
pub struct ExInstant(Instant);

/// A request to delete a user.
pub struct UserDelete {
    pub user: String,
}

/// How long an address must wait between requests, and when it last made one.
pub struct RequestDelayStruct {
    _delay: Duration,
    _last: Instant,
}

/// The request delays, by address.
pub struct DelayMap {
    delays: StringHashMap<RequestDelayStruct>,
}

impl View for DelayMap {
    type V = Map<Seq<char>, RequestDelayStruct>;

    closed spec fn view(&self) -> Map<Seq<char>, RequestDelayStruct> {
        self.delays@
    }
}

impl DelayMap {
    /// No delays recorded.
    pub fn new() -> (r: DelayMap)
        ensures
            r@ == Map::<Seq<char>, RequestDelayStruct>::empty(),
    {
        DelayMap { delays: StringHashMap::new() }
    }
}

/// Deletes the user that the request names; an error where there is no
/// such user. Saving the changed user list is the caller's.
pub fn rocket_route_user_delete(auth: &mut AuthStruct, input: &UserDelete) -> (r: Result<
    (),
    String,
>)
    ensures
        r is Ok <==> old(auth)@.contains_key(input.user@),
        r matches Err(e) ==> e@ == "Failed to Delete"@,
        final(auth)@ == old(auth)@.remove(input.user@),
{
    if !delete_user(auth, input.user.as_str()) {
        return Err("Failed to Delete".to_owned());
    }
    Ok(())
}

} // verus!
