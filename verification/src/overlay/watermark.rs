//! Authorization status shown by the watermark.
use vstd::prelude::*;

verus! {

/// Authorization status.
#[derive(Debug, Clone, Copy, PartialEq, Eq, Structural)]
pub enum AuthorizationStatus {
    /// Pre-authorization (current state)
    Pending,
    /// Under review by EA/DICE
    UnderReview,
    /// Approved by EA/DICE
    Approved,
    /// Rejected (deployment blocked)
    Rejected,
}

impl AuthorizationStatus {
    /// Status label of each status.
    pub open spec fn label_text(self) -> Seq<char> {
        match self {
            AuthorizationStatus::Pending => "PENDING"@,
            AuthorizationStatus::UnderReview => "UNDER_REVIEW"@,
            AuthorizationStatus::Approved => "APPROVED"@,
            AuthorizationStatus::Rejected => "REJECTED"@,
        }
    }

    /// Get status string.
    pub fn label(&self) -> (s: &'static str)
        ensures
            s@ == self.label_text(),
    {
        match self {
            AuthorizationStatus::Pending => "PENDING",
            AuthorizationStatus::UnderReview => "UNDER_REVIEW",
            AuthorizationStatus::Approved => "APPROVED",
            AuthorizationStatus::Rejected => "REJECTED",
        }
    }
}

} // verus!
