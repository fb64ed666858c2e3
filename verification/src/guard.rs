//! The outside check: a destructive command must run from a working
//! directory strictly outside the protected tree it targets. The test is a
//! directory-containment test on canonical, symlink-free absolute paths —
//! handed in by the caller — not a plain string-prefix test, so `..`-laden
//! or symlinked spellings of the same directory cannot evade it.

use vstd::prelude::*;

use crate::text::is_prefix;
use crate::text::str_eq;
use crate::text::text_starts_with;

verus! {

/// `cwd` lies within `target`: it is the same directory or a descendant.
/// Both are canonical absolute paths; only the filesystem root ends in a
/// separator, so a proper descendant continues with one right after the
/// target, or the target is the root itself.
pub open spec fn dir_within(cwd: Seq<char>, target: Seq<char>) -> bool {
    cwd == target || (cwd.len() > target.len() && cwd.subrange(0, target.len() as int) == target
        && (cwd[target.len() as int] == '/' || (target.len() > 0 && target[target.len() - 1]
        == '/')))
}

/// The verdict of the outside check.
#[derive(Clone, Copy, Debug, PartialEq, Eq, Structural)]
pub enum GuardVerdict {
    /// The command may proceed against this target.
    Allowed,
    /// The target holds no configuration document.
    NoConfig,
    /// The working directory is the target or lies inside it.
    InsideTarget,
}

/// Judges whether a destructive command aimed at `target` may run from
/// `cwd`. Both paths are canonical; `config_exists` reports whether the
/// target holds a configuration document. Refused exactly when the target
/// has no configuration, or when the working directory is the target or
/// any descendant of it.
pub fn assert_outside(target: &str, cwd: &str, config_exists: bool) -> (v: GuardVerdict)
    ensures
        (v == GuardVerdict::NoConfig) == !config_exists,
        (v == GuardVerdict::InsideTarget) == (config_exists && dir_within(cwd@, target@)),
        (v == GuardVerdict::Allowed) == (config_exists && !dir_within(cwd@, target@)),
{
    if !config_exists {
        return GuardVerdict::NoConfig;
    }
    if str_eq(cwd, target) {
        return GuardVerdict::InsideTarget;
    }
    let tlen = target.unicode_len();
    let clen = cwd.unicode_len();
    if clen > tlen && text_starts_with(cwd, target) {
        let boundary = cwd.get_char(tlen) == '/' || (tlen > 0 && target.get_char(tlen - 1) == '/');
        if boundary {
            return GuardVerdict::InsideTarget;
        }
    }
    proof {
        if dir_within(cwd@, target@) {
            assert(cwd@ != target@);
            assert(is_prefix(cwd@, target@));
        }
    }
    GuardVerdict::Allowed
}

} // verus!
