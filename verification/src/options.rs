//! Optional values and their models.

use vstd::prelude::*;

use crate::digest::Digest;

verus! {

/// The model of an optional value.
pub open spec fn option_view<T: View>(value: Option<T>) -> Option<T::V> {
    match value {
        Some(value) => Some(value@),
        None => None,
    }
}

/// The model of an optional reference.
pub open spec fn option_ref_view<T: View>(value: Option<&T>) -> Option<T::V> {
    match value {
        Some(value) => Some(value@),
        None => None,
    }
}

/// The bytes of an optional digest.
pub open spec fn option_digest(value: Option<Digest>) -> Option<Seq<u8>> {
    match value {
        Some(digest) => Some(digest@),
        None => None,
    }
}

/// Tests two optional digests for equality.
pub fn same_digests(a: Option<Digest>, b: Option<Digest>) -> (r: bool)
    ensures
        r == (option_digest(a) == option_digest(b)),
{
    match (a, b) {
        (Some(a), Some(b)) => a == b,
        (None, None) => true,
        _ => false,
    }
}

} // verus!
