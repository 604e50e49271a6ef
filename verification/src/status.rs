use vstd::prelude::*;

verus! {

/// An NT status code, as `NTSTATUS` holds it.
pub type NtStatus = i32;

/// `STATUS_SUCCESS`.
pub const STATUS_SUCCESS: i32 = 0i32;

/// `STATUS_UNSUCCESSFUL` (0xC0000001).
pub const STATUS_UNSUCCESSFUL: i32 = -1073741823i32;

/// `STATUS_INVALID_PARAMETER` (0xC000000D).
pub const STATUS_INVALID_PARAMETER: i32 = -1073741811i32;

/// `STATUS_ALREADY_REGISTERED` (0xC0000718).
pub const STATUS_ALREADY_REGISTERED: i32 = -1073740008i32;

/// `STATUS_NO_MEMORY` (0xC0000017).
pub const STATUS_NO_MEMORY: i32 = -1073741801i32;

/// `STATUS_INFO_LENGTH_MISMATCH` (0xC0000004).
pub const STATUS_INFO_LENGTH_MISMATCH: i32 = -1073741820i32;

/// `STATUS_NOT_FOUND` (0xC0000225).
pub const STATUS_NOT_FOUND: i32 = -1073741275i32;

/// The result a native call reports through its status: `Ok` exactly on
/// `STATUS_SUCCESS`, otherwise the status as the error.
pub open spec fn status_result(status: NtStatus) -> Result<(), NtStatus> {
    if status == STATUS_SUCCESS {
        Ok(())
    } else {
        Err(status)
    }
}

/// `Ok` exactly when `status` is `STATUS_SUCCESS`, otherwise `Err(status)`.
pub fn status_to_result(status: NtStatus) -> (r: Result<(), NtStatus>)
    ensures
        r == status_result(status),
{
    if status == STATUS_SUCCESS {
        Ok(())
    } else {
        Err(status)
    }
}

} // verus!
