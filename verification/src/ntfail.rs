use vstd::prelude::*;

verus! {

/// Status code returned by kernel routines.
pub type NtStatus = i32;

/// The status that reports success.
pub const STATUS_SUCCESS: NtStatus = 0;

/// Whether a status reports success; a caller that gets `false` stops and returns the
/// status.
pub fn nt_success(status: NtStatus) -> (ok: bool)
    ensures
        ok == (status == STATUS_SUCCESS),
{
    status == STATUS_SUCCESS
}

} // verus!
