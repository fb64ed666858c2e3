//! The permission model: a file's mode word, its read-only test, and the
//! mode transformations used to lock and unlock files and to mark installed
//! hook scripts executable. Locking clears every write bit; unlocking
//! restores the owner's write bit and leaves all other bits untouched.

use vstd::prelude::*;

verus! {

/// A file counts as read-only when the owner write bit of its mode is clear.
pub open spec fn readonly_mode(mode: u32) -> bool {
    mode & 0o200 == 0
}

/// Decides whether a mode word is read-only.
pub fn is_readonly_mode(mode: u32) -> (r: bool)
    ensures
        r == readonly_mode(mode),
{
    mode & 0o200 == 0
}

/// The mode with every write bit cleared: the locked form of `mode`.
pub fn lock_mode(mode: u32) -> (r: u32)
    ensures
        r == mode & !0o222u32,
        readonly_mode(r),
        r & !0o222u32 == mode & !0o222u32,
{
    proof {
        assert((mode & !0o222u32) & 0o200u32 == 0) by (bit_vector);
        assert((mode & !0o222u32) & !0o222u32 == mode & !0o222u32) by (bit_vector);
    }
    mode & !0o222
}

/// The mode with the owner write bit restored: the unlocked form of `mode`.
/// Every bit other than the owner write bit keeps its value.
pub fn unlock_mode(mode: u32) -> (r: u32)
    ensures
        r == mode | 0o200u32,
        !readonly_mode(r),
        r & !0o200u32 == mode & !0o200u32,
{
    proof {
        assert((mode | 0o200u32) & 0o200u32 != 0) by (bit_vector);
        assert((mode | 0o200u32) & !0o200u32 == mode & !0o200u32) by (bit_vector);
    }
    mode | 0o200
}

/// The mode given to an installed hook script: readable and executable by
/// everyone, writable by the owner.
pub fn make_executable() -> (r: u32)
    ensures
        r == 0o755u32,
{
    0o755
}

} // verus!
