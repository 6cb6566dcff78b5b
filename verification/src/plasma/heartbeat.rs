use crate::ids::visitor::UserId;
use vstd::prelude::*;

verus! {

/// What a server tells of a player in an arena who signed in.
#[derive(Clone, Debug, PartialEq, Eq, Structural)]
pub struct ActiveHeartbeat {
    /// Who the player is, so that friends can be told.
    pub user_id: UserId,
}

} // verus!
