//! Translation of store outcomes to the HTTP surface: the status code of
//! every outcome, the error bodies, and the liveness body. Every successful
//! operation answers 200; a missing region 404; a duplicate slug on create
//! 400; an underlying data-access failure 500.

use vstd::prelude::*;

use crate::region::RegionError;

verus! {

/// The status of every successful request, listing and delete included.
pub const STATUS_OK: u16 = 200;

/// The HTTP status an error translates to.
pub open spec fn spec_error_status(e: RegionError) -> u16 {
    match e {
        RegionError::NotFound => 404,
        RegionError::Conflict => 400,
        RegionError::DataAccess(_) => 500,
    }
}

/// Maps an error to its HTTP status: a missing region is 404, a duplicate
/// slug on create is 400, an underlying data-access failure is 500.
pub fn error_status(e: &RegionError) -> (s: u16)
    ensures
        s == spec_error_status(*e),
{
    match e {
        RegionError::NotFound => 404,
        RegionError::Conflict => 400,
        RegionError::DataAccess(_) => 500,
    }
}

/// The body of a not-found response.
pub fn not_found_message() -> (m: String)
    ensures
        m@ == "Region not found"@,
{
    "Region not found".to_owned()
}

/// The body of a conflict response for a duplicate slug on create.
pub fn conflict_message(slug: &str) -> (m: String)
    ensures
        m@ == "Region with slug '"@ + slug@ + "' already exists"@,
{
    let mut m = "Region with slug '".to_owned();
    m.append(slug);
    m.append("' already exists");
    m
}

/// The body of the liveness endpoint.
pub fn health() -> (r: &'static str)
    ensures
        r@ == "OK"@,
{
    "OK"
}

} // verus!
