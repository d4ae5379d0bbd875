//! Item identities: the 128 bits of a random UUID.

use uuid::Uuid;
use vstd::prelude::*;

verus! {

/// Whether the 128 bits carry the marks of a random (version 4) UUID: the
/// version digit is 4 and the variant bits are `10`.
pub open spec fn is_random_uuid(id: u128) -> bool {
    id & 0x0000_0000_0000_f000_c000_0000_0000_0000u128
        == 0x0000_0000_0000_4000_8000_0000_0000_0000u128
}

/// `Uuid::new_v4`, as the 128 bits that `Uuid::as_u128` gives: a random UUID.
/// Which one is left open; all of them carry the version and variant marks.
#[verifier::external_body]
pub(crate) fn fresh_uuid() -> (r: u128)
    ensures
        is_random_uuid(r),
{
    Uuid::new_v4().as_u128()
}

} // verus!
