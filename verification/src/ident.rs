//! Identifiers of jobs.

use vstd::prelude::*;

verus! {

/// `uuid::Uuid::new_v4().to_string()`: a random identifier in its hyphenated
/// form. Nothing is claimed of it but its length, which that form always has.
#[verifier::external_body]
pub(crate) fn new_job_id() -> (r: String)
    ensures
        r@.len() == 36,
{
    uuid::Uuid::new_v4().to_string()
}

} // verus!
