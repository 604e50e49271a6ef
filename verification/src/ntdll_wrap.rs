use vstd::prelude::*;

use crate::string::{str_to_unicode_string, utf16_encode, byte_len_u16, SafeUnicodeString};

verus! {

/// The privilege that allows loading and unloading drivers.
pub const SE_LOAD_DRIVER_PRIVILEGE: u32 = 10u32;

/// The debug privilege.
pub const SE_DEBUG_PRIVILEGE: u32 = 20u32;

/// The registry path under which the kernel looks up a driver service.
pub open spec fn driver_service_key(service_name: Seq<char>) -> Seq<char> {
    "\\Registry\\Machine\\System\\CurrentControlSet\\Services\\"@ + service_name
}

/// The counted, zero-terminated UTF-16 form of `s`: byte length, capacity
/// in bytes, and units.
pub open spec fn unicode_string_model(s: Seq<char>) -> (u16, u16, Seq<u16>) {
    (
        byte_len_u16(utf16_encode(s).len()),
        byte_len_u16(utf16_encode(s).len() + 1),
        utf16_encode(s).push(0),
    )
}

/// The model of a counted string that owns its buffer.
pub open spec fn safe_unicode_model(s: SafeUnicodeString) -> (u16, u16, Seq<u16>) {
    (s.unicode_string.length, s.unicode_string.maximum_length, s.unicode_string.buffer@)
}

/// The registry path of the driver service `service_name`.
pub fn service_key_path(service_name: &str) -> (r: String)
    ensures
        r@ == driver_service_key(service_name@),
{
    let mut path = String::from_str("\\Registry\\Machine\\System\\CurrentControlSet\\Services\\");
    path.append(service_name);
    path
}

/// The service name handed to `NtLoadDriver` and `NtUnloadDriver` for the
/// driver service `service_name`.
pub fn driver_service_name(service_name: &str) -> (r: SafeUnicodeString)
    ensures
        safe_unicode_model(r) == unicode_string_model(driver_service_key(service_name@)),
{
    let path = service_key_path(service_name);
    str_to_unicode_string(path.as_str())
}

} // verus!
