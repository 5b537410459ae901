//! Plain shapes shared with the HTTP layer: roles, request options and replies.
use vstd::prelude::*;

verus! {

/// The role of an account in a community.
#[derive(Debug, Clone, Copy, PartialEq, Eq, Structural)]
pub enum UserRole {
    Participant,
    Manager,
    UserManager,
}

/// The role of a participant in a community.
#[derive(Debug, Clone, Copy, PartialEq, Eq, Structural)]
pub enum ParticipantRole {
    User,
    Manager,
    UserManager,
}

/// The order of a listing.
#[derive(Debug, Clone, Copy, PartialEq, Eq, Structural)]
pub enum OrderDirection {
    Ascending,
    Descending,
}

impl Default for OrderDirection {
    /// Listings are newest first unless asked otherwise.
    fn default() -> (r: OrderDirection)
        ensures
            r == OrderDirection::Descending,
    {
        OrderDirection::Descending
    }
}

/// The bucket size of aggregated statistics.
#[derive(Debug, Clone, Copy, PartialEq, Eq, Structural)]
pub enum StatsGranularity {
    All,
    Daily,
    Weekly,
    Monthly,
    Yearly,
}

/// The reply to a revocation.
#[derive(Debug)]
pub struct RevokeResponse {
    pub message: String,
}

/// A request body that has passed its field rules.
#[derive(Debug)]
pub struct ValidatedJson<T>(pub T);

} // verus!
