use vstd::prelude::*;
use vstd::slice::slice_subrange;

use crate::random::{name_from_indices, requested_name_len, valid_letter_indices};
use crate::string::{u16_slice_to_string, utf16_decode};

verus! {

/// The capacity, in UTF-16 units, of a buffer for a path.
pub const MAX_PATH: u32 = 260u32;

/// The text a path query wrote into `buffer`: `None` when it reports no
/// units or more than `MAX_PATH` (the query failed); otherwise the first
/// `written` units decoded, the empty string if they hold an unpaired
/// surrogate.
pub fn path_from_wide_buffer(buffer: &[u16], written: u32) -> (r: Option<String>)
    requires
        MAX_PATH <= buffer@.len(),
    ensures
        (written == 0 || written > MAX_PATH) ==> r is None,
        (0 < written <= MAX_PATH) ==> r is Some && match utf16_decode(
            buffer@.take(written as int),
        ) {
            Some(t) => r->0@ == t,
            None => r->0@ == Seq::<char>::empty(),
        },
{
    if written == 0 || written > MAX_PATH {
        return None;
    }
    let units = slice_subrange(buffer, 0, written as usize);
    assert(units@ =~= buffer@.take(written as int));
    Some(u16_slice_to_string(units))
}

/// A random file name of `len` lower-case letters (15 without `len`).
pub fn random_file_name(len: Option<u8>) -> (r: String)
    ensures
        exists|indices: Seq<usize>|
            indices.len() == requested_name_len(len) && valid_letter_indices(indices) && r@
                == name_from_indices(indices),
{
    crate::random::random_file_name(len)
}

} // verus!
