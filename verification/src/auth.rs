//! The API-key gate that guards mutating routes. One decision function
//! serves both variants: enforcing (reject bad credentials) and
//! log-only (let every request through; the caller may log).

use vstd::prelude::*;
use vstd::string::StringExecFns;

use crate::error::ErrorResponse;

verus! {

/// Whether a request may continue, or the error to answer it with.
pub enum GateOutcome {
    /// Invoke the downstream handler.
    Proceed,
    /// Stop and answer with this error; only `Unauthorized` is ever used.
    Reject(ErrorResponse),
}

/// Decide whether a request passes the API-key gate. `provided` is the
/// value of the key header, if the request carried one; `expected` is
/// the pre-shared key. A missing or mismatched key is rejected only
/// when `enforce` is true; a matching key never stops a request. No
/// state survives from one request to the next.
pub fn gate_api_key(provided: Option<&String>, expected: &String, enforce: bool) -> (r: GateOutcome)
    ensures
        !enforce ==> r is Proceed,
        (provided matches Some(k) && k@ == expected@) ==> r is Proceed,
        enforce && provided is None ==> (r matches GateOutcome::Reject(e)
            && e matches ErrorResponse::Unauthorized(d) && d@ == "missing api key"@),
        enforce && (provided matches Some(k) && k@ != expected@) ==> (r
            matches GateOutcome::Reject(e) && e matches ErrorResponse::Unauthorized(d) && d@
            == "incorrect api key"@),
{
    match provided {
        Some(key) => {
            if key.eq(expected) {
                GateOutcome::Proceed
            } else if enforce {
                GateOutcome::Reject(
                    ErrorResponse::Unauthorized(String::from_str("incorrect api key")),
                )
            } else {
                GateOutcome::Proceed
            }
        },
        None => {
            if enforce {
                GateOutcome::Reject(
                    ErrorResponse::Unauthorized(String::from_str("missing api key")),
                )
            } else {
                GateOutcome::Proceed
            }
        },
    }
}

} // verus!
