//! Input validation: decides whether a caller-supplied buffer description may
//! be read as a stroke before any typed view of the memory is constructed.
use vstd::prelude::*;

verus! {

/// A scalar count describes a stroke when it is non-zero and a whole number of
/// `(x, y, pressure)` triplets.
pub open spec fn valid_stroke_len(len: nat) -> bool {
    len != 0 && len % 3 == 0
}

/// A (pointer, count) description is accepted when the pointer is non-null and
/// the count describes a stroke.
pub open spec fn accepted_input(is_null: bool, len: nat) -> bool {
    !is_null && valid_stroke_len(len)
}

/// The validation decision for a raw buffer description. The caller reports
/// whether the pointer was null; a rejected description must answer with the
/// null sentinel and no buffer may be allocated for it.
pub fn validate_input(is_null: bool, len: usize) -> (ok: bool)
    ensures
        ok == accepted_input(is_null, len as nat),
{
    !is_null && len != 0 && len % 3 == 0
}

} // verus!
