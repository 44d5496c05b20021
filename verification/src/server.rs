//! The answer of the query service.
//!
//! The service takes the 20 bytes of a SHA-1 hash as the body of a request
//! and answers with a status alone.

use vstd::prelude::*;
use crate::filter::{contains, filter_model};
use crate::parse::HASH_LEN;

verus! {

/// The hash is not in the filter.
pub const STATUS_ABSENT: u16 = 204;

/// The hash is in the filter, as far as the filter can tell.
pub const STATUS_PRESENT: u16 = 205;

/// The body of the request is no hash.
pub const STATUS_BAD_REQUEST: u16 = 400;

/// The status that answers a request with the body `hash`: 400 where the
/// body is not 20 bytes long, else 205 where the filter holds the hash and
/// 204 where it does not.
pub fn check_hash(hash: &[u8], filter: &qfilter::Filter) -> (status: u16)
    ensures
        status == if hash@.len() != HASH_LEN {
            STATUS_BAD_REQUEST
        } else if filter_model(*filter).contains(hash@) {
            STATUS_PRESENT
        } else {
            STATUS_ABSENT
        },
{
    if hash.len() != HASH_LEN {
        STATUS_BAD_REQUEST
    } else if contains(filter, hash) {
        STATUS_PRESENT
    } else {
        STATUS_ABSENT
    }
}

} // verus!
