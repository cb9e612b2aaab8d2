//! The gated removal path: the strict API-key gate composed with the
//! store's delete, as the DELETE route runs it. The other routes call
//! the store operations directly; their gates either do not exist or
//! let every request through.

use vstd::prelude::*;

use crate::auth::GateOutcome;
use crate::auth::gate_api_key;
use crate::error::ErrorResponse;
use crate::error::id_detail;
use crate::store::ConfigStore;
use crate::store::has_id;
use crate::store::keeps;

verus! {

/// Remove the record with the given id, but only for a request that
/// carries the pre-shared key: a missing key is rejected as
/// unauthorized with reason "missing api key", a mismatched one with
/// reason "incorrect api key", and neither touches the store. With the
/// right key the removal proceeds as `ConfigStore::delete`.
pub fn handle_delete(
    store: &mut ConfigStore,
    id: i32,
    provided: Option<&String>,
    expected: &String,
) -> (r: Result<(), ErrorResponse>)
    requires
        old(store).wf(),
    ensures
        final(store).wf(),
        provided is None ==> (r matches Err(e) && e matches ErrorResponse::Unauthorized(d) && d@
            == "missing api key"@),
        (provided matches Some(k) && k@ != expected@) ==> (r matches Err(e)
            && e matches ErrorResponse::Unauthorized(d) && d@ == "incorrect api key"@),
        (provided is None || (provided matches Some(k) && k@ != expected@)) ==> final(store)@
            == old(store)@,
        (provided matches Some(k) && k@ == expected@ && !has_id(old(store)@, id as int)) ==> (r
            matches Err(e) && e matches ErrorResponse::NotFound(d) && d@ == id_detail(id as int)
            && final(store)@ == old(store)@),
        (provided matches Some(k) && k@ == expected@ && has_id(old(store)@, id as int)) ==> (r
            is Ok && final(store)@ == old(store)@.filter(keeps(id as int))),
{
    match gate_api_key(provided, expected, true) {
        GateOutcome::Reject(e) => Err(e),
        GateOutcome::Proceed => store.delete(id),
    }
}

} // verus!
