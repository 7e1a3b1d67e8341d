//! Types exchanged between the cache server and its clients.

use vstd::prelude::*;

verus! {

/// Root path in a pin.
#[derive(Debug, PartialEq, Eq)]
pub struct PinRoot {
    pub drv_id: String,
    pub drv_full: String,
}

/// Pin with its roots (API response).
#[derive(Debug, PartialEq, Eq)]
pub struct PinResponse {
    pub id: i32,
    pub name: String,
    pub description: Option<String>,
    pub created: String,
    pub expires: Option<String>,
    pub abandoned: bool,
    pub leave_after_abandon: Option<i64>,
    pub roots: Vec<PinRoot>,
}

/// Request to check which paths are not in the cache.
#[derive(Debug, PartialEq, Eq)]
pub struct CheckRequest {
    pub paths: Vec<String>,
}

/// Response with paths that need to be uploaded.
#[derive(Debug, PartialEq, Eq)]
pub struct CheckResponse {
    pub need: Vec<String>,
}

/// Lock response.
#[derive(Debug, PartialEq, Eq)]
pub struct LockResponse {
    pub lock: i32,
    pub deadline: String,
}

/// Request to extend or clear a lock.
#[derive(Debug, PartialEq, Eq)]
pub struct LockRequest {
    pub lock: i32,
}

/// Generic success response.
#[derive(Debug, PartialEq, Eq)]
pub struct OkResponse {
    pub ok: bool,
}

/// How a pin is shown: abandoned, expiring, or active.
#[derive(Debug, Clone, Copy, PartialEq, Eq)]
pub enum PinStatus {
    Abandoned,
    Expiring,
    Active,
}

/// A pin's status: abandoned first, then expiring when it has an expiry.
pub open spec fn pin_status_spec(abandoned: bool, has_expiry: bool) -> PinStatus {
    if abandoned {
        PinStatus::Abandoned
    } else if has_expiry {
        PinStatus::Expiring
    } else {
        PinStatus::Active
    }
}

impl PinResponse {
    /// The pin's status.
    pub fn status(&self) -> (s: PinStatus)
        ensures
            s == pin_status_spec(self.abandoned, self.expires is Some),
    {
        if self.abandoned {
            PinStatus::Abandoned
        } else if self.expires.is_some() {
            PinStatus::Expiring
        } else {
            PinStatus::Active
        }
    }
}

impl PinStatus {
    /// The status word shown by the client.
    pub fn label(&self) -> (s: String)
        ensures
            s@ == match *self {
                PinStatus::Abandoned => "abandoned"@,
                PinStatus::Expiring => "expiring"@,
                PinStatus::Active => "active"@,
            },
    {
        match self {
            PinStatus::Abandoned => crate::text::owned("abandoned"),
            PinStatus::Expiring => crate::text::owned("expiring"),
            PinStatus::Active => crate::text::owned("active"),
        }
    }
}

} // verus!
