//! The switch which tells the verification to recompute the operation ids that readers hand over.
use vstd::prelude::*;

verus! {

/// Tells by the value of the `RGB_VERIFY_OPID_MEMO_ASSERT` variable whether the verification has
/// to recompute the operation ids and to compare them with those which come from the reader: it
/// has to when the variable is set, whatever its value. Off by default.
pub fn opid_memo_assert_enabled(value: Option<&str>) -> (enabled: bool)
    ensures
        enabled == value is Some,
{
    value.is_some()
}

} // verus!
