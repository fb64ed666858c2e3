//! Glob patterns: compilation validity and matching.
//!
//! The glob language itself is supplied by the `glob` crate; this module
//! names its two observable outcomes — whether a pattern string compiles,
//! and whether a compiled pattern matches a path — and builds the verified
//! pattern-list operations on top of those names.

use vstd::prelude::*;

verus! {

/// Whether `glob::Pattern::new` accepts the pattern string.
pub uninterp spec fn glob_ok(pattern: Seq<char>) -> bool;

/// Whether the pattern, once compiled, matches the path. Meaningful only
/// when `glob_ok(pattern)` holds.
pub uninterp spec fn glob_matches(pattern: Seq<char>, path: Seq<char>) -> bool;

/// Relies on `glob::Pattern::new`: it is deterministic in the pattern string
/// alone, returns `Ok` or `Err` and never panics.
#[verifier::external_body]
pub(crate) fn pattern_is_valid(pattern: &str) -> (r: bool)
    ensures
        r == glob_ok(pattern@),
{
    glob::Pattern::new(pattern).is_ok()
}

/// Relies on `glob::Pattern::new` and `glob::Pattern::matches`: the compiled
/// pattern is a function of its source string, matching (with default
/// options) is a function of the pattern and the path alone, and neither
/// call panics.
#[verifier::external_body]
pub(crate) fn pattern_match(pattern: &str, path: &str) -> (r: bool)
    requires
        glob_ok(pattern@),
    ensures
        r == glob_matches(pattern@, path@),
{
    match glob::Pattern::new(pattern) {
        Ok(p) => p.matches(path),
        Err(_) => false,
    }
}

/// Validity as a predicate value.
pub open spec fn valid_pred() -> spec_fn(Seq<char>) -> bool {
    |p: Seq<char>| glob_ok(p)
}

/// "Protects this file" as a predicate value: the pattern compiles and
/// matches the file.
pub open spec fn why_pred(file: Seq<char>) -> spec_fn(Seq<char>) -> bool {
    |p: Seq<char>| glob_ok(p) && glob_matches(p, file)
}

/// Some pattern in the list compiles and matches the path.
pub open spec fn matches_any(patterns: Seq<Seq<char>>, path: Seq<char>) -> bool {
    exists|i: int|
        0 <= i < patterns.len() && glob_ok(#[trigger] patterns[i]) && glob_matches(
            patterns[i],
            path,
        )
}

/// Whether one pattern string compiles: what first-time setup uses to
/// accept or reject each pattern the user enters.
pub fn pattern_compiles(pattern: &str) -> (r: bool)
    ensures
        r == glob_ok(pattern@),
{
    pattern_is_valid(pattern)
}

/// Keeps the patterns that compile, in their given order; invalid patterns
/// are dropped, never fatal.
pub fn compile_patterns(raw: &Vec<String>) -> (valid: Vec<String>)
    ensures
        valid.deep_view() == raw.deep_view().filter(valid_pred()),
{
    let mut valid: Vec<String> = Vec::new();
    proof {
        reveal(Seq::filter);
        assert(valid.deep_view() =~= raw.deep_view().subrange(0, 0).filter(valid_pred()));
    }
    let n = raw.len();
    let mut i: usize = 0;
    while i < n
        invariant
            n == raw.len(),
            0 <= i <= n,
            valid.deep_view() == raw.deep_view().subrange(0, i as int).filter(valid_pred()),
        decreases n - i,
    {
        let ghost dv = raw.deep_view();
        let ghost pre = dv.subrange(0, i as int);
        let ghost pre1 = dv.subrange(0, i as int + 1);
        let keep = pattern_is_valid(raw[i].as_str());
        proof {
            reveal(Seq::filter);
            assert(pre1.drop_last() =~= pre);
            assert(pre1.last() == dv[i as int]);
            assert(dv[i as int] == raw[i as int]@);
        }
        if keep {
            let ghost before = valid.deep_view();
            let p = raw[i].clone();
            valid.push(p);
            proof {
                assert(valid.deep_view() =~= before.push(dv[i as int]));
            }
        }
        i = i + 1;
    }
    proof {
        assert(raw.deep_view().subrange(0, n as int) =~= raw.deep_view());
    }
    valid
}

/// Whether the path is matched by at least one valid pattern of the list.
pub fn any_pattern_matches(patterns: &Vec<String>, path: &str) -> (r: bool)
    ensures
        r == matches_any(patterns.deep_view(), path@),
{
    let n = patterns.len();
    let mut i: usize = 0;
    while i < n
        invariant
            n == patterns.len(),
            0 <= i <= n,
            forall|k: int|
                0 <= k < i ==> !(glob_ok(#[trigger] patterns.deep_view()[k]) && glob_matches(
                    patterns.deep_view()[k],
                    path@,
                )),
        decreases n - i,
    {
        if pattern_is_valid(patterns[i].as_str()) {
            if pattern_match(patterns[i].as_str(), path) {
                proof {
                    assert(patterns.deep_view()[i as int] == patterns[i as int]@);
                }
                return true;
            }
        }
        i = i + 1;
    }
    false
}

/// The patterns of the list that compile and match `file`: the explanation
/// behind "why is this file protected".
pub fn matching_patterns(patterns: &Vec<String>, file: &str) -> (matched: Vec<String>)
    ensures
        matched.deep_view() == patterns.deep_view().filter(why_pred(file@)),
{
    let mut matched: Vec<String> = Vec::new();
    proof {
        reveal(Seq::filter);
        assert(matched.deep_view() =~= patterns.deep_view().subrange(0, 0).filter(
            why_pred(file@),
        ));
    }
    let n = patterns.len();
    let mut i: usize = 0;
    while i < n
        invariant
            n == patterns.len(),
            0 <= i <= n,
            matched.deep_view() == patterns.deep_view().subrange(0, i as int).filter(
                why_pred(file@),
            ),
        decreases n - i,
    {
        let ghost dv = patterns.deep_view();
        let ghost pre = dv.subrange(0, i as int);
        let ghost pre1 = dv.subrange(0, i as int + 1);
        let mut keep = pattern_is_valid(patterns[i].as_str());
        if keep {
            keep = pattern_match(patterns[i].as_str(), file);
        }
        proof {
            reveal(Seq::filter);
            assert(pre1.drop_last() =~= pre);
            assert(pre1.last() == dv[i as int]);
            assert(dv[i as int] == patterns[i as int]@);
        }
        if keep {
            let ghost before = matched.deep_view();
            let p = patterns[i].clone();
            matched.push(p);
            proof {
                assert(matched.deep_view() =~= before.push(dv[i as int]));
            }
        }
        i = i + 1;
    }
    proof {
        assert(patterns.deep_view().subrange(0, n as int) =~= patterns.deep_view());
    }
    matched
}

} // verus!
