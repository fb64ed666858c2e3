//! File discovery: which files of a walked project tree are protected, and
//! in what order they are reported. A file is protected when its
//! root-relative path (with forward-slash segments) matches at least one
//! valid pattern and no segment of the path is an infrastructure directory
//! (version-control internals, build output, dependency caches). Discovery
//! reports each protected file once, sorted by path.

use vstd::prelude::*;
use vstd::relations::total_ordering;
use vstd::relations::sorted_by;

use crate::pattern::matches_any;
use crate::pattern::any_pattern_matches;
use crate::text::lex_le;
use crate::text::lemma_lex_le_antisym;
use crate::text::lemma_lex_le_total;
use crate::text::lemma_lex_le_trans;
use crate::text::split_full;
use crate::text::split_on;
use crate::text::str_eq;
use crate::text::str_lex_le;

verus! {

/// A file matched by a protection pattern, with its probed permission
/// state: the root-relative path and whether the file is currently
/// read-only. The permission bit is probed fresh on every run, never
/// cached.
pub struct ProtectedFile {
    pub path: String,
    pub readonly: bool,
}

/// The mathematical value of a file entry: its path and permission bit.
pub open spec fn pf_view(e: ProtectedFile) -> (Seq<char>, bool) {
    (e.path@, e.readonly)
}

/// The mathematical value of a file listing.
pub open spec fn files_view(s: Seq<ProtectedFile>) -> Seq<(Seq<char>, bool)> {
    s.map_values(|e: ProtectedFile| pf_view(e))
}

/// Copies one file entry.
pub fn clone_file(e: &ProtectedFile) -> (r: ProtectedFile)
    ensures
        pf_view(r) == pf_view(*e),
{
    ProtectedFile { path: e.path.clone(), readonly: e.readonly }
}

/// The report order on file entries: by path, read-only entries after
/// writable ones among equal paths.
pub open spec fn file_le(a: (Seq<char>, bool), b: (Seq<char>, bool)) -> bool {
    if a.0 == b.0 {
        !a.1 || b.1
    } else {
        lex_le(a.0, b.0)
    }
}

/// The report order as a relation value.
pub open spec fn file_le_rel() -> spec_fn((Seq<char>, bool), (Seq<char>, bool)) -> bool {
    |a: (Seq<char>, bool), b: (Seq<char>, bool)| file_le(a, b)
}

/// The report order is a total order.
pub proof fn lemma_file_le_total_ordering()
    ensures
        total_ordering(file_le_rel()),
{
    let r = file_le_rel();
    assert forall|x: (Seq<char>, bool)| #[trigger] r(x, x) by {}
    assert forall|x: (Seq<char>, bool), y: (Seq<char>, bool)| #[trigger] r(x, y) && #[trigger] r(
        y,
        x,
    ) implies x == y by {
        if x.0 != y.0 {
            lemma_lex_le_antisym(x.0, y.0);
        }
    }
    assert forall|x: (Seq<char>, bool), y: (Seq<char>, bool), z: (Seq<char>, bool)| #[trigger] r(
        x,
        y,
    ) && #[trigger] r(y, z) implies r(x, z) by {
        if x.0 != y.0 && y.0 != z.0 {
            lemma_lex_le_trans(x.0, y.0, z.0);
            if x.0 == z.0 {
                lemma_lex_le_antisym(x.0, y.0);
            }
        }
    }
    assert forall|x: (Seq<char>, bool), y: (Seq<char>, bool)| #[trigger] r(x, y) || #[trigger] r(
        y,
        x,
    ) by {
        if x.0 != y.0 {
            lemma_lex_le_total(x.0, y.0);
        }
    }
}

/// Decides the report order on two file entries.
pub fn file_le_test(a: &ProtectedFile, b: &ProtectedFile) -> (r: bool)
    ensures
        r == file_le(pf_view(*a), pf_view(*b)),
{
    if str_eq(a.path.as_str(), b.path.as_str()) {
        !a.readonly || b.readonly
    } else {
        str_lex_le(a.path.as_str(), b.path.as_str())
    }
}

/// A path segment that names an infrastructure directory: version-control
/// internals, build output, or a dependency cache.
pub open spec fn is_infra_component(seg: Seq<char>) -> bool {
    seg == ".git"@ || seg == "target"@ || seg == "node_modules"@
}

/// Some segment of the path names an infrastructure directory; such paths
/// are never reported as protected.
pub open spec fn in_infra_dir(path: Seq<char>) -> bool {
    exists|i: int|
        0 <= i < split_full(path, '/').len() && is_infra_component(
            #[trigger] split_full(path, '/')[i],
        )
}

/// Decides whether the path runs through an infrastructure directory.
pub fn infra_test(path: &str) -> (r: bool)
    ensures
        r == in_infra_dir(path@),
{
    let segs = split_on(path, '/');
    let n = segs.len();
    let ghost dv = segs.deep_view();
    let mut i: usize = 0;
    while i < n
        invariant
            n == segs.len(),
            dv == segs.deep_view(),
            dv == split_full(path@, '/'),
            0 <= i <= n,
            forall|k: int| 0 <= k < i ==> !is_infra_component(#[trigger] dv[k]),
        decreases n - i,
    {
        let s = segs[i].as_str();
        let hit = str_eq(s, ".git") || str_eq(s, "target") || str_eq(s, "node_modules");
        proof {
            assert(dv[i as int] == segs[i as int]@);
        }
        if hit {
            return true;
        }
        i = i + 1;
    }
    false
}

/// A path is protected when it matches a valid pattern and does not run
/// through an infrastructure directory.
pub open spec fn is_protected(patterns: Seq<Seq<char>>, path: Seq<char>) -> bool {
    matches_any(patterns, path) && !in_infra_dir(path)
}

/// Decides whether a path is protected.
pub fn protected_test(patterns: &Vec<String>, path: &str) -> (r: bool)
    ensures
        r == is_protected(patterns.deep_view(), path@),
{
    any_pattern_matches(patterns, path) && !infra_test(path)
}

/// Protection as a predicate on file-entry values.
pub open spec fn protected_pred(patterns: Seq<Seq<char>>) -> spec_fn((Seq<char>, bool)) -> bool {
    |f: (Seq<char>, bool)| is_protected(patterns, f.0)
}

/// The protected entries of a file listing, in listing order.
pub open spec fn view_protected(
    files: Seq<(Seq<char>, bool)>,
    patterns: Seq<Seq<char>>,
) -> Seq<(Seq<char>, bool)> {
    files.filter(protected_pred(patterns))
}

/// What discovery returns: the protected entries of the listing, sorted by
/// the report order.
pub open spec fn discover_spec(
    files: Seq<(Seq<char>, bool)>,
    patterns: Seq<Seq<char>>,
) -> Seq<(Seq<char>, bool)> {
    view_protected(files, patterns).sort_by(file_le_rel())
}

/// Discovery returns exactly the entries of the walked listing whose path
/// matches at least one valid pattern outside the infrastructure
/// directories — every such entry and no other — sorted by the report
/// order.
pub proof fn lemma_discover_properties(files: Seq<(Seq<char>, bool)>, patterns: Seq<Seq<char>>)
    ensures
        sorted_by(discover_spec(files, patterns), file_le_rel()),
        forall|i: int|
            0 <= i < discover_spec(files, patterns).len() ==> is_protected(
                patterns,
                (#[trigger] discover_spec(files, patterns)[i]).0,
            ),
        forall|i: int|
            0 <= i < discover_spec(files, patterns).len() ==> files.contains(
                #[trigger] discover_spec(files, patterns)[i],
            ),
        forall|i: int|
            0 <= i < files.len() && is_protected(patterns, (#[trigger] files[i]).0)
                ==> discover_spec(files, patterns).contains(files[i]),
{
    let pred = protected_pred(patterns);
    let filtered = view_protected(files, patterns);
    let rel = file_le_rel();
    let out = discover_spec(files, patterns);
    lemma_file_le_total_ordering();
    filtered.lemma_sort_by_ensures(rel);
    filtered.to_multiset_ensures();
    out.to_multiset_ensures();
    lemma_filter_elems(files, pred);
    assert forall|i: int| 0 <= i < out.len() implies is_protected(
        patterns,
        (#[trigger] out[i]).0,
    ) && files.contains(out[i]) by {
        assert(out.contains(out[i]));
        assert(out.to_multiset().count(out[i]) > 0);
        assert(filtered.contains(out[i]));
        let k = choose|k: int| 0 <= k < filtered.len() && filtered[k] == out[i];
        files.lemma_filter_pred(pred, k);
    }
    assert forall|i: int|
        0 <= i < files.len() && is_protected(patterns, (#[trigger] files[i]).0) implies out.contains(
        files[i],
    ) by {
        files.lemma_filter_contains(pred, i);
        assert(filtered.contains(files[i]));
        assert(filtered.to_multiset().count(files[i]) > 0);
        assert(out.to_multiset().count(files[i]) > 0);
    }
}

/// Mapping to views commutes with inserting one entry.
proof fn lemma_files_view_insert(s: Seq<ProtectedFile>, p: int, e: ProtectedFile)
    requires
        0 <= p <= s.len(),
    ensures
        files_view(s.insert(p, e)) =~= files_view(s).insert(p, pf_view(e)),
{
    s.insert_ensures(p, e);
    files_view(s).insert_ensures(p, pf_view(e));
}

/// Filters a walked file listing down to the protected entries and sorts
/// them by path: exactly the files whose root-relative path matches at
/// least one valid pattern, excluding files under infrastructure
/// directories, in report order.
pub fn discover_files(entries: &Vec<ProtectedFile>, patterns: &Vec<String>) -> (r: Vec<
    ProtectedFile,
>)
    ensures
        files_view(r@) == discover_spec(files_view(entries@), patterns.deep_view()),
{
    let ghost pats = patterns.deep_view();
    let ghost ev = files_view(entries@);
    let mut kept: Vec<ProtectedFile> = Vec::new();
    proof {
        reveal(Seq::filter);
        assert(files_view(kept@) =~= view_protected(ev.subrange(0, 0), pats));
    }
    let n = entries.len();
    let mut i: usize = 0;
    while i < n
        invariant
            n == entries.len(),
            pats == patterns.deep_view(),
            ev == files_view(entries@),
            0 <= i <= n,
            files_view(kept@) == view_protected(ev.subrange(0, i as int), pats),
        decreases n - i,
    {
        let keep = protected_test(patterns, entries[i].path.as_str());
        proof {
            reveal(Seq::filter);
            let pre = ev.subrange(0, i as int);
            let pre1 = ev.subrange(0, i as int + 1);
            assert(pre1.drop_last() =~= pre);
            assert(ev[i as int] == pf_view(entries@[i as int]));
            assert(pre1.last() == ev[i as int]);
        }
        if keep {
            let ghost before = files_view(kept@);
            let e = clone_file(&entries[i]);
            kept.push(e);
            proof {
                assert(files_view(kept@) =~= before.push(ev[i as int]));
                assert(files_view(kept@) =~= view_protected(ev.subrange(0, i as int + 1), pats));
            }
        } else {
            proof {
                assert(files_view(kept@) =~= view_protected(ev.subrange(0, i as int + 1), pats));
            }
        }
        i = i + 1;
    }
    proof {
        assert(ev.subrange(0, n as int) =~= ev);
    }
    let ghost kv = files_view(kept@);
    let ghost rel = file_le_rel();
    let mut out: Vec<ProtectedFile> = Vec::new();
    proof {
        lemma_file_le_total_ordering();
        assert(files_view(out@) =~= kv.subrange(0, 0));
    }
    let m = kept.len();
    let mut j: usize = 0;
    while j < m
        invariant
            m == kept.len(),
            kv == files_view(kept@),
            rel == file_le_rel(),
            total_ordering(rel),
            0 <= j <= m,
            sorted_by(files_view(out@), rel),
            files_view(out@).to_multiset() == kv.subrange(0, j as int).to_multiset(),
            out@.len() == j,
        decreases m - j,
    {
        let x = clone_file(&kept[j]);
        let ghost xv = pf_view(x);
        let ghost ov = files_view(out@);
        proof {
            assert(kv[j as int] == pf_view(kept@[j as int]));
            assert(xv == kv[j as int]);
        }
        let olen = out.len();
        let mut p: usize = 0;
        while p < olen && file_le_test(&out[p], &x)
            invariant
                olen == out@.len(),
                ov == files_view(out@),
                0 <= p <= olen,
                forall|k: int| 0 <= k < p ==> rel(#[trigger] ov[k], xv),
                rel == file_le_rel(),
                xv == pf_view(x),
            decreases olen - p,
        {
            proof {
                assert(ov[p as int] == pf_view(out@[p as int]));
            }
            p = p + 1;
        }
        proof {
            if p < olen {
                assert(ov[p as int] == pf_view(out@[p as int]));
                assert(!file_le(ov[p as int], xv));
                assert(!rel(ov[p as int], xv));
                assert(rel(xv, ov[p as int]) || rel(ov[p as int], xv));
                assert(rel(xv, ov[p as int]));
            }
        }
        let ghost out_before = out@;
        out.insert(p, x);
        proof {
            lemma_files_view_insert(out_before, p as int, x);
            let ov2 = files_view(out@);
            assert(ov2 =~= ov.insert(p as int, xv));
            ov.insert_ensures(p as int, xv);
            assert forall|a: int, b: int| 0 <= a < b < ov2.len() implies #[trigger] rel(
                ov2[a],
                ov2[b],
            ) by {
                let pa = ov2[a];
                let pb = ov2[b];
                if a < p && b < p {
                    assert(pa == ov[a] && pb == ov[b]);
                } else if a < p && b == p {
                    assert(pa == ov[a] && pb == xv);
                } else if a < p && b > p {
                    assert(pa == ov[a] && pb == ov[b - 1]);
                    if p < ov.len() {
                        assert(rel(xv, ov[p as int]));
                    }
                } else if a == p {
                    assert(b <= ov.len());
                    assert(p < ov.len());
                    assert(pa == xv && pb == ov[b - 1]);
                    assert(rel(xv, ov[p as int]));
                    if b - 1 > p {
                        assert(rel(ov[p as int], ov[b - 1]));
                    }
                } else {
                    assert(pa == ov[a - 1] && pb == ov[b - 1]);
                }
            }
            vstd::seq_lib::to_multiset_insert(ov, p as int, xv);
            let prej = kv.subrange(0, j as int);
            let prej1 = kv.subrange(0, j as int + 1);
            prej.to_multiset_ensures();
            assert(prej1 =~= prej.push(kv[j as int]));
            assert(ov2.to_multiset() =~= prej1.to_multiset());
        }
        j = j + 1;
    }
    proof {
        assert(kv.subrange(0, m as int) =~= kv);
        kv.lemma_sort_by_ensures(rel);
        vstd::seq_lib::lemma_sorted_unique(files_view(out@), kv.sort_by(rel), rel);
    }
    out
}

/// Filtering keeps only elements of the original sequence, and keeps a
/// duplicate-free sequence duplicate-free.
pub(crate) proof fn lemma_filter_elems<A>(s: Seq<A>, pred: spec_fn(A) -> bool)
    ensures
        forall|x: A| s.filter(pred).contains(x) ==> s.contains(x),
        s.no_duplicates() ==> s.filter(pred).no_duplicates(),
    decreases s.len(),
{
    reveal(Seq::filter);
    if s.len() > 0 {
        let dl = s.drop_last();
        lemma_filter_elems(dl, pred);
        assert forall|x: A| dl.contains(x) implies s.contains(x) by {
            let k = choose|k: int| 0 <= k < dl.len() && dl[k] == x;
            assert(s[k] == x);
        }
        let f = s.filter(pred);
        let df = dl.filter(pred);
        assert forall|x: A| f.contains(x) implies s.contains(x) by {
            if pred(s.last()) {
                assert(f == df.push(s.last()));
                let k = choose|k: int| 0 <= k < f.len() && f[k] == x;
                if k < df.len() {
                    assert(df[k] == x);
                } else {
                    assert(x == s.last());
                }
            } else {
                assert(f == df);
            }
        }
        if s.no_duplicates() {
            assert(dl.no_duplicates());
            assert(!dl.contains(s.last())) by {
                if dl.contains(s.last()) {
                    let k = choose|k: int| 0 <= k < dl.len() && dl[k] == s.last();
                    assert(s[k] == s[s.len() - 1]);
                }
            }
            if pred(s.last()) {
                assert(f == df.push(s.last()));
                assert forall|i: int, j: int|
                    0 <= i < f.len() && 0 <= j < f.len() && i != j implies f[i] != f[j] by {
                    if i < df.len() && j < df.len() {
                        assert(f[i] == df[i] && f[j] == df[j]);
                    } else if i < df.len() {
                        assert(f[j] == s.last());
                        if f[i] == s.last() {
                            assert(df.contains(s.last()));
                        }
                    } else if j < df.len() {
                        assert(f[i] == s.last());
                        if f[j] == s.last() {
                            assert(df.contains(s.last()));
                        }
                    }
                }
            }
        }
    }
}

/// When the walked listing has no two entries with the same path — as a
/// directory walk always yields — the discovery result has no two entries
/// with the same path either: each protected file is reported once.
pub proof fn lemma_discover_no_duplicate_paths(
    files: Seq<(Seq<char>, bool)>,
    patterns: Seq<Seq<char>>,
)
    requires
        forall|i: int, j: int|
            0 <= i < j < files.len() ==> (#[trigger] files[i]).0 != (#[trigger] files[j]).0,
    ensures
        forall|i: int, j: int|
            0 <= i < j < discover_spec(files, patterns).len() ==> (#[trigger] discover_spec(
                files,
                patterns,
            )[i]).0 != (#[trigger] discover_spec(files, patterns)[j]).0,
{
    let pred = protected_pred(patterns);
    let filtered = view_protected(files, patterns);
    let rel = file_le_rel();
    let out = discover_spec(files, patterns);
    assert(files.no_duplicates()) by {
        assert forall|i: int, j: int|
            0 <= i < files.len() && 0 <= j < files.len() && i != j implies files[i]
            != files[j] by {
            if i < j {
                assert(files[i].0 != files[j].0);
            } else {
                assert(files[j].0 != files[i].0);
            }
        }
    }
    lemma_filter_elems(files, pred);
    assert(filtered.no_duplicates());
    lemma_file_le_total_ordering();
    filtered.lemma_sort_by_ensures(rel);
    assert(out.to_multiset() == filtered.to_multiset());
    filtered.lemma_multiset_has_no_duplicates();
    out.lemma_multiset_has_no_duplicates_conv();
    assert(out.no_duplicates());
    filtered.to_multiset_ensures();
    out.to_multiset_ensures();
    assert forall|i: int, j: int| 0 <= i < j < out.len() implies (#[trigger] out[i]).0
        != (#[trigger] out[j]).0 by {
        if out[i].0 == out[j].0 {
            assert(out.contains(out[i]));
            assert(out.contains(out[j]));
            assert(filtered.contains(out[i])) by {
                assert(out.to_multiset().count(out[i]) > 0);
            }
            assert(filtered.contains(out[j])) by {
                assert(out.to_multiset().count(out[j]) > 0);
            }
            assert(files.contains(out[i]));
            assert(files.contains(out[j]));
            let k1 = choose|k: int| 0 <= k < files.len() && files[k] == out[i];
            let k2 = choose|k: int| 0 <= k < files.len() && files[k] == out[j];
            assert(files[k1].0 == files[k2].0);
            if k1 < k2 {
                assert(files[k1].0 != files[k2].0);
            } else if k2 < k1 {
                assert(files[k2].0 != files[k1].0);
            }
            assert(k1 == k2);
            assert(out[i] == out[j]);
        }
    }
}

} // verus!
