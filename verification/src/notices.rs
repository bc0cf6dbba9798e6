//! Notices for the fire-and-forget observer at the system's edge.
//!
//! The ledger's own operations report what an observer needs through
//! their return values (endowment and dust in `MutationOutcome`, rewards
//! and repatriations in their results). The ticket-sale collaborator
//! built on top of the ledger announces its staffing changes through the
//! record declared here.

use vstd::prelude::*;

verus! {

use crate::types::AccountId;

/// Notice that an inspector was removed from a venue's check-in staff.
#[derive(Clone, Copy, PartialEq, Eq, Structural, Debug)]
pub struct InspectorRemoved {
    /// The account whose inspector role was revoked.
    pub inspector: AccountId,
}

} // verus!
