//! Retrying NAR uploads: each path gets up to four attempts, the retries
//! waiting 5, 10 and 20 seconds; of many failed uploads the first is
//! reported.

use vstd::prelude::*;
use crate::text::{nat_to_decimal, owned, push_str, push_u64_decimal};

verus! {

/// Retries after the first attempt.
pub const MAX_UPLOAD_RETRIES: u32 = 3;
/// Wait before the first retry, in seconds; it doubles with each retry.
pub const RETRY_BASE_DELAY_SECS: u64 = 5;

/// Seconds to wait before attempt `attempt` (counting from zero): none
/// before the first, then 5 s times 2^(attempt - 1).
pub open spec fn retry_delay_spec(attempt: nat) -> nat
    decreases attempt,
{
    if attempt == 0 {
        0
    } else if attempt == 1 {
        RETRY_BASE_DELAY_SECS as nat
    } else {
        2 * retry_delay_spec((attempt - 1) as nat)
    }
}

/// Seconds to wait before attempt `attempt`.
pub fn retry_delay_secs(attempt: u32) -> (d: u64)
    requires
        attempt <= MAX_UPLOAD_RETRIES,
    ensures
        d == retry_delay_spec(attempt as nat),
{
    if attempt == 0 {
        0
    } else if attempt == 1 {
        5
    } else if attempt == 2 {
        proof {
            assert(retry_delay_spec(2) == 10) by {
                reveal_with_fuel(retry_delay_spec, 3);
            }
        }
        10
    } else {
        proof {
            assert(retry_delay_spec(3) == 20) by {
                reveal_with_fuel(retry_delay_spec, 4);
            }
        }
        20
    }
}

/// What follows an upload attempt.
#[derive(Debug, Clone, PartialEq, Eq)]
pub enum UploadNext {
    /// The path is uploaded.
    Uploaded,
    /// Wait this many seconds, then make attempt `attempt`.
    Retry { attempt: u32, delay_secs: u64 },
    /// All attempts failed: the message says so; the last attempt's error
    /// is the cause.
    GiveUp { message: String, cause: String },
}

/// The message when every attempt at uploading `path` failed.
pub open spec fn give_up_message(path: Seq<char>) -> Seq<char> {
    "Failed to upload "@ + path + " after "@ + nat_to_decimal((MAX_UPLOAD_RETRIES + 1) as nat)
        + " attempts"@
}

/// Decide what follows attempt `attempt` at uploading `path`, given the
/// attempt's error (`None` when it succeeded).
pub fn after_attempt(path: &str, attempt: u32, error: Option<String>) -> (n: UploadNext)
    requires
        attempt <= MAX_UPLOAD_RETRIES,
    ensures
        match error {
            None => n == UploadNext::Uploaded,
            Some(e) => if attempt < MAX_UPLOAD_RETRIES {
                n == UploadNext::Retry {
                    attempt: (attempt + 1) as u32,
                    delay_secs: retry_delay_spec((attempt + 1) as nat) as u64,
                }
            } else {
                n matches UploadNext::GiveUp { message, cause } && message@ == give_up_message(
                    path@,
                ) && cause@ == e@
            },
        },
{
    match error {
        None => UploadNext::Uploaded,
        Some(e) => if attempt < MAX_UPLOAD_RETRIES {
            UploadNext::Retry { attempt: attempt + 1, delay_secs: retry_delay_secs(attempt + 1) }
        } else {
            let mut m = owned("Failed to upload ");
            push_str(&mut m, path);
            push_str(&mut m, " after ");
            push_u64_decimal(&mut m, (MAX_UPLOAD_RETRIES + 1) as u64);
            push_str(&mut m, " attempts");
            UploadNext::GiveUp { message: m, cause: e }
        },
    }
}

/// Index of the first failed result.
pub open spec fn first_error_index(results: Seq<Result<(), String>>) -> Option<nat>
    decreases results.len(),
{
    if results.len() == 0 {
        None
    } else if results[0] is Err {
        Some(0)
    } else {
        match first_error_index(results.drop_first()) {
            Some(i) => Some(i + 1),
            None => None,
        }
    }
}

/// The error reported for a batch of uploads: the first that failed, or
/// `None` when all succeeded.
pub fn first_error(results: &Vec<Result<(), String>>) -> (r: Option<String>)
    ensures
        match first_error_index(results@) {
            None => r is None,
            Some(i) => r matches Some(e) && results@[i as int] matches Err(f) && e@ == f@,
        },
{
    let mut i: usize = 0;
    while i < results.len()
        invariant
            i <= results.len(),
            forall|j: int| 0 <= j < i ==> results@[j] is Ok,
        decreases results.len() - i,
    {
        match &results[i] {
            Err(e) => {
                proof {
                    lemma_first_error_at(results@, i as int);
                }
                return Some(e.clone());
            },
            Ok(_) => {},
        }
        i += 1;
    }
    proof {
        lemma_first_error_at(results@, results@.len() as int);
    }
    None
}

proof fn lemma_first_error_at(results: Seq<Result<(), String>>, k: int)
    requires
        0 <= k <= results.len(),
        forall|j: int| 0 <= j < k ==> results[j] is Ok,
    ensures
        k < results.len() && results[k] is Err ==> first_error_index(results) == Some(k as nat),
        k == results.len() ==> first_error_index(results) is None,
    decreases k,
{
    if k > 0 {
        let t = results.drop_first();
        assert forall|j: int| 0 <= j < k - 1 implies t[j] is Ok by {
            assert(t[j] == results[j + 1]);
        }
        lemma_first_error_at(t, k - 1);
    }
}

} // verus!
