use vstd::prelude::*;

verus! {

/// `TokenElevationTypeFull`: the token of an elevated administrator.
pub const TOKEN_ELEVATION_TYPE_FULL: i32 = 2i32;

/// A process runs as administrator when its token's elevation type is full.
pub fn elevation_is_admin(elevation_type: i32) -> (r: bool)
    ensures
        r == (elevation_type == TOKEN_ELEVATION_TYPE_FULL),
{
    elevation_type == TOKEN_ELEVATION_TYPE_FULL
}

} // verus!
