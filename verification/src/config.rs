//! The protection configuration: the pattern list and the `enabled` flag,
//! the text of freshly written configuration documents, and the line-level
//! rewrite that flips the `enabled` flag in an existing document while
//! leaving every other line — comments, ordering, formatting — untouched.

use vstd::prelude::*;

use crate::text::has_substring;
use crate::text::is_prefix;
use crate::text::join_lines;
use crate::text::join_nl;
use crate::text::lines_of;
use crate::text::split_lines;
use crate::text::text_contains;
use crate::text::text_has_char;
use crate::text::text_starts_with;
use crate::text::trim_slice;
use crate::text::trim_spec;
use crate::text::str_eq;

verus! {

/// A parsed protection configuration: the glob patterns to protect and the
/// `enabled` flag (read as true when the document has no such key).
pub struct Config {
    pub patterns: Vec<String>,
    pub enabled: bool,
}

/// The `enabled` flag of a configuration defaults to true when the
/// document has no such key.
pub fn default_enabled() -> (b: bool)
    ensures
        b == true,
{
    true
}

/// A line that expresses the `enabled` key: it starts, after whitespace,
/// with `enabled`, and carries an `=`.
pub open spec fn is_enabled_line(l: Seq<char>) -> bool {
    is_prefix(trim_spec(l), "enabled"@) && l.contains('=')
}

/// The canonical text of an `enabled` line.
pub open spec fn enabled_line_text(b: bool) -> Seq<char> {
    if b {
        "enabled = true"@
    } else {
        "enabled = false"@
    }
}

/// A line that is exactly the protection section header, up to surrounding
/// whitespace.
pub open spec fn is_protect_header(l: Seq<char>) -> bool {
    trim_spec(l) == "[protect]"@
}

/// Every `enabled` line replaced by the canonical line for `b`; all other
/// lines unchanged.
pub open spec fn rewrite_lines(lines: Seq<Seq<char>>, b: bool) -> Seq<Seq<char>> {
    lines.map_values(
        |l: Seq<char>|
            if is_enabled_line(l) {
                enabled_line_text(b)
            } else {
                l
            },
    )
}

/// Index of the first protection section header among the lines, or -1.
pub open spec fn find_protect(lines: Seq<Seq<char>>) -> int
    decreases lines.len(),
{
    if lines.len() == 0 {
        -1
    } else if is_protect_header(lines[0]) {
        0
    } else {
        let r = find_protect(lines.subrange(1, lines.len() as int));
        if r < 0 {
            -1
        } else {
            r + 1
        }
    }
}

/// `find_protect` returns the first header position.
pub proof fn lemma_find_protect(lines: Seq<Seq<char>>)
    ensures
        find_protect(lines) < 0 ==> forall|k: int|
            0 <= k < lines.len() ==> !is_protect_header(#[trigger] lines[k]),
        find_protect(lines) >= 0 ==> 0 <= find_protect(lines) < lines.len() && is_protect_header(
            lines[find_protect(lines)],
        ) && forall|k: int|
            0 <= k < find_protect(lines) ==> !is_protect_header(#[trigger] lines[k]),
    decreases lines.len(),
{
    if lines.len() > 0 && !is_protect_header(lines[0]) {
        let rest = lines.subrange(1, lines.len() as int);
        lemma_find_protect(rest);
        let r = find_protect(rest);
        if r < 0 {
            assert forall|k: int| 0 <= k < lines.len() implies !is_protect_header(
                #[trigger] lines[k],
            ) by {
                if k > 0 {
                    assert(rest[k - 1] == lines[k]);
                }
            }
        } else {
            assert(lines[r + 1] == rest[r]);
            assert forall|k: int| 0 <= k < r + 1 implies !is_protect_header(
                #[trigger] lines[k],
            ) by {
                if k > 0 {
                    assert(rest[k - 1] == lines[k]);
                }
            }
        }
    }
}

/// The document after setting the `enabled` flag: when the text mentions
/// `enabled` anywhere, every `enabled` line is replaced in place; otherwise
/// a canonical `enabled` line is inserted right after the first protection
/// section header, if one exists. The result is newline-terminated.
pub open spec fn set_enabled_doc(doc: Seq<char>, b: bool) -> Seq<char> {
    let lines = lines_of(doc);
    if has_substring(doc, "enabled"@) {
        join_nl(rewrite_lines(lines, b)) + seq!['\n']
    } else {
        let f = find_protect(lines);
        if 0 <= f < lines.len() {
            join_nl(
                lines.subrange(0, f + 1) + seq![enabled_line_text(b)] + lines.subrange(
                    f + 1,
                    lines.len() as int,
                ),
            ) + seq!['\n']
        } else {
            join_nl(lines) + seq!['\n']
        }
    }
}

/// Whether a line expresses the `enabled` key.
pub fn enabled_line_test(l: &str) -> (r: bool)
    ensures
        r == is_enabled_line(l@),
{
    let t = trim_slice(l);
    text_starts_with(t, "enabled") && text_has_char(l, '=')
}

/// Whether a line is the protection section header.
pub fn protect_header_test(l: &str) -> (r: bool)
    ensures
        r == is_protect_header(l@),
{
    let t = trim_slice(l);
    str_eq(t, "[protect]")
}

/// The canonical `enabled` line for `b`.
pub fn enabled_line_string(b: bool) -> (r: String)
    ensures
        r@ == enabled_line_text(b),
{
    if b {
        "enabled = true".to_owned()
    } else {
        "enabled = false".to_owned()
    }
}

/// Rewrites the `enabled` flag of a configuration document, preserving all
/// other content: comments, ordering, and the pattern list's formatting.
pub fn set_enabled_text(doc: &str, enabled: bool) -> (r: String)
    ensures
        r@ == set_enabled_doc(doc@, enabled),
{
    let lines = split_lines(doc);
    let n = lines.len();
    let ghost dv = lines.deep_view();
    let mut out: Vec<String> = Vec::new();
    if text_contains(doc, "enabled") {
        proof {
            assert(out.deep_view() =~= rewrite_lines(dv.subrange(0, 0), enabled));
        }
        let mut i: usize = 0;
        while i < n
            invariant
                n == lines.len(),
                dv == lines.deep_view(),
                0 <= i <= n,
                out.deep_view() == rewrite_lines(dv.subrange(0, i as int), enabled),
            decreases n - i,
        {
            let ghost before = out.deep_view();
            let is_en = enabled_line_test(lines[i].as_str());
            if is_en {
                out.push(enabled_line_string(enabled));
            } else {
                out.push(lines[i].clone());
            }
            proof {
                assert(dv[i as int] == lines[i as int]@);
                if is_en {
                    assert(out.deep_view() =~= before.push(enabled_line_text(enabled)));
                } else {
                    assert(out.deep_view() =~= before.push(dv[i as int]));
                }
                assert(out.deep_view() =~= rewrite_lines(dv.subrange(0, i as int + 1), enabled));
            }
            i = i + 1;
        }
        proof {
            assert(dv.subrange(0, n as int) =~= dv);
        }
    } else {
        let mut f: usize = 0;
        let mut found: bool = false;
        while f < n
            invariant_except_break
                !found,
            invariant
                n == lines.len(),
                dv == lines.deep_view(),
                0 <= f <= n,
                forall|k: int| 0 <= k < f ==> !is_protect_header(#[trigger] dv[k]),
            ensures
                0 <= f <= n,
                found ==> f < n && is_protect_header(dv[f as int]) && forall|k: int|
                    0 <= k < f ==> !is_protect_header(#[trigger] dv[k]),
                !found ==> forall|k: int| 0 <= k < n ==> !is_protect_header(#[trigger] dv[k]),
            decreases n - f,
        {
            if protect_header_test(lines[f].as_str()) {
                proof {
                    assert(dv[f as int] == lines[f as int]@);
                }
                found = true;
                break;
            }
            proof {
                assert(dv[f as int] == lines[f as int]@);
            }
            f = f + 1;
        }
        proof {
            lemma_find_protect(dv);
        }
        if found {
            proof {
                if find_protect(dv) != f as int {
                    assert(is_protect_header(dv[find_protect(dv)]));
                }
                assert(find_protect(dv) == f as int);
            }
            let mut i: usize = 0;
            while i < n
                invariant
                    n == lines.len(),
                    dv == lines.deep_view(),
                    0 <= i <= n,
                    f < n,
                    i <= f ==> out.deep_view() == dv.subrange(0, i as int),
                    i > f ==> out.deep_view() == dv.subrange(0, f as int + 1) + seq![
                        enabled_line_text(enabled),
                    ] + dv.subrange(f as int + 1, i as int),
                decreases n - i,
            {
                let ghost before = out.deep_view();
                out.push(lines[i].clone());
                proof {
                    assert(dv[i as int] == lines[i as int]@);
                    assert(out.deep_view() =~= before.push(dv[i as int]));
                }
                if i == f {
                    let ghost before2 = out.deep_view();
                    out.push(enabled_line_string(enabled));
                    proof {
                        assert(out.deep_view() =~= before2.push(enabled_line_text(enabled)));
                        assert(out.deep_view() =~= dv.subrange(0, f as int + 1) + seq![
                            enabled_line_text(enabled),
                        ] + dv.subrange(f as int + 1, i as int + 1));
                    }
                } else {
                    proof {
                        if i <= f {
                            assert(out.deep_view() =~= dv.subrange(0, i as int + 1));
                        } else {
                            assert(out.deep_view() =~= dv.subrange(0, f as int + 1) + seq![
                                enabled_line_text(enabled),
                            ] + dv.subrange(f as int + 1, i as int + 1));
                        }
                    }
                }
                i = i + 1;
            }
            proof {
                assert(n > 0);
                assert(out.deep_view() =~= dv.subrange(0, f as int + 1) + seq![
                    enabled_line_text(enabled),
                ] + dv.subrange(f as int + 1, n as int));
            }
        } else {
            proof {
                if find_protect(dv) >= 0 {
                    assert(is_protect_header(dv[find_protect(dv)]));
                }
                assert(find_protect(dv) < 0);
            }
            let mut i: usize = 0;
            while i < n
                invariant
                    n == lines.len(),
                    dv == lines.deep_view(),
                    0 <= i <= n,
                    out.deep_view() == dv.subrange(0, i as int),
                decreases n - i,
            {
                let ghost before = out.deep_view();
                out.push(lines[i].clone());
                proof {
                    assert(dv[i as int] == lines[i as int]@);
                    assert(out.deep_view() =~= before.push(dv[i as int]));
                }
                i = i + 1;
            }
            proof {
                assert(dv.subrange(0, n as int) =~= dv);
            }
        }
    }
    let mut r = join_lines(&out);
    proof {
        reveal_strlit("\n");
        assert("\n"@ =~= seq!['\n']);
    }
    r.append("\n");
    r
}

/// The fixed head of every freshly written configuration document.
pub open spec fn config_head() -> Seq<char> {
    "# donttouch configuration\n# Protect files from being modified by AI coding agents and accidental changes.\n\n[protect]\nenabled = true\n"@
}

/// The default document written by `init`: the head and an empty pattern
/// list.
pub open spec fn default_config_doc() -> Seq<char> {
    config_head() + "patterns = []\n"@
}

/// Writes the default configuration document.
pub fn default_config_text() -> (r: String)
    ensures
        r@ == default_config_doc(),
{
    let mut r =
        "# donttouch configuration\n# Protect files from being modified by AI coding agents and accidental changes.\n\n[protect]\nenabled = true\n".to_owned();
    r.append("patterns = []\n");
    r
}

/// One quoted entry of a written pattern list.
pub open spec fn pattern_entry(p: Seq<char>) -> Seq<char> {
    "    \""@ + p + "\","@
}

/// The document written when initialization collected patterns: the head
/// and the quoted patterns, one per line.
pub open spec fn config_doc_with_patterns(ps: Seq<Seq<char>>) -> Seq<char> {
    config_head() + "patterns = [\n"@ + join_nl(ps.map_values(|p: Seq<char>| pattern_entry(p)))
        + "\n]\n"@
}

/// Writes a configuration document holding the given patterns.
pub fn config_text_with_patterns(patterns: &Vec<String>) -> (r: String)
    ensures
        r@ == config_doc_with_patterns(patterns.deep_view()),
{
    let ghost dv = patterns.deep_view();
    let mut entries: Vec<String> = Vec::new();
    proof {
        assert(entries.deep_view() =~= dv.subrange(0, 0).map_values(
            |p: Seq<char>| pattern_entry(p),
        ));
    }
    let n = patterns.len();
    let mut i: usize = 0;
    while i < n
        invariant
            n == patterns.len(),
            dv == patterns.deep_view(),
            0 <= i <= n,
            entries.deep_view() == dv.subrange(0, i as int).map_values(
                |p: Seq<char>| pattern_entry(p),
            ),
        decreases n - i,
    {
        let mut entry = "    \"".to_owned();
        entry.append(patterns[i].as_str());
        entry.append("\",");
        let ghost before = entries.deep_view();
        let ghost entry_view = entry@;
        entries.push(entry);
        proof {
            assert(dv[i as int] == patterns[i as int]@);
            assert(entry_view == pattern_entry(dv[i as int]));
            assert(entries.deep_view() =~= before.push(entry_view));
            assert(entries.deep_view() =~= dv.subrange(0, i as int + 1).map_values(
                |p: Seq<char>| pattern_entry(p),
            ));
        }
        i = i + 1;
    }
    proof {
        assert(dv.subrange(0, n as int) =~= dv);
    }
    let joined = join_lines(&entries);
    let mut r =
        "# donttouch configuration\n# Protect files from being modified by AI coding agents and accidental changes.\n\n[protect]\nenabled = true\n".to_owned();
    r.append("patterns = [\n");
    r.append(joined.as_str());
    r.append("\n]\n");
    proof {
        assert(r@ =~= config_doc_with_patterns(dv));
    }
    r
}

/// The canonical `enabled` line expresses the `enabled` key, holds no
/// newline, and holds the key as a substring.
pub proof fn lemma_enabled_line_props(b: bool)
    ensures
        is_enabled_line(enabled_line_text(b)),
        !enabled_line_text(b).contains('\n'),
        has_substring(enabled_line_text(b), "enabled"@),
{
    reveal_strlit("enabled = true");
    reveal_strlit("enabled = false");
    reveal_strlit("enabled");
    if b {
        let l = "enabled = true"@;
        assert(crate::text::trim_spec(l) == l);
        assert(is_prefix(crate::text::trim_spec(l), "enabled"@)) by {
            assert(l.subrange(0, 7) =~= "enabled"@);
        }
        assert(l[8] == '=');
        assert(l.contains('='));
        assert(!l.contains('\n'));
        crate::text::lemma_trim_prefix_occurs(l, "enabled"@);
    } else {
        let l = "enabled = false"@;
        assert(crate::text::trim_spec(l) == l);
        assert(is_prefix(crate::text::trim_spec(l), "enabled"@)) by {
            assert(l.subrange(0, 7) =~= "enabled"@);
        }
        assert(l[8] == '=');
        assert(l.contains('='));
        assert(!l.contains('\n'));
        crate::text::lemma_trim_prefix_occurs(l, "enabled"@);
    }
}

/// For a document that mentions the `enabled` key, the lines of the
/// rewritten document are exactly the rewritten lines of the original.
pub proof fn lemma_set_enabled_lines(doc: Seq<char>, b: bool)
    requires
        has_substring(doc, "enabled"@),
    ensures
        lines_of(set_enabled_doc(doc, b)) == rewrite_lines(lines_of(doc), b),
{
    reveal_strlit("enabled");
    assert(doc.len() > 0) by {
        let i = choose|i: int| crate::text::occurs_at(doc, "enabled"@, i);
    }
    let lines = lines_of(doc);
    crate::text::lemma_lines_nonempty(doc);
    crate::text::lemma_lines_no_nl(doc);
    let rewritten = rewrite_lines(lines, b);
    lemma_enabled_line_props(b);
    assert forall|i: int| 0 <= i < rewritten.len() implies !#[trigger] rewritten[i].contains(
        '\n',
    ) by {
        if is_enabled_line(lines[i]) {
            assert(rewritten[i] == enabled_line_text(b));
        } else {
            assert(rewritten[i] == lines[i]);
        }
    }
    crate::text::lemma_lines_of_terminated_join(rewritten);
}

/// Setting the flag never alters a line that does not express the `enabled`
/// key, and rewrites every line that does to the canonical form.
pub proof fn lemma_set_enabled_preserves_unrelated(doc: Seq<char>, b: bool)
    requires
        has_substring(doc, "enabled"@),
    ensures
        lines_of(set_enabled_doc(doc, b)).len() == lines_of(doc).len(),
        forall|i: int|
            0 <= i < lines_of(doc).len() && !is_enabled_line(#[trigger] lines_of(doc)[i])
                ==> lines_of(set_enabled_doc(doc, b))[i] == lines_of(doc)[i],
        forall|i: int|
            0 <= i < lines_of(doc).len() && is_enabled_line(#[trigger] lines_of(doc)[i])
                ==> lines_of(set_enabled_doc(doc, b))[i] == enabled_line_text(b),
{
    lemma_set_enabled_lines(doc, b);
}

/// Disabling and then re-enabling yields the same document as enabling
/// directly: the flag is restored to `enabled = true` and no unrelated
/// document content is altered by the round trip.
pub proof fn lemma_enable_disable_round_trip(doc: Seq<char>)
    requires
        has_substring(doc, "enabled"@),
        exists|i: int|
            0 <= i < lines_of(doc).len() && is_enabled_line(#[trigger] lines_of(doc)[i]),
    ensures
        set_enabled_doc(set_enabled_doc(doc, false), true) == set_enabled_doc(doc, true),
{
    let lines = lines_of(doc);
    let d1 = set_enabled_doc(doc, false);
    lemma_set_enabled_lines(doc, false);
    let l1 = rewrite_lines(lines, false);
    let i = choose|i: int| 0 <= i < lines.len() && is_enabled_line(#[trigger] lines[i]);
    lemma_enabled_line_props(false);
    lemma_enabled_line_props(true);
    assert(l1[i] == enabled_line_text(false));
    crate::text::lemma_join_part_substring(l1, i, "enabled"@);
    let j1 = join_nl(l1);
    assert(d1 == j1 + seq!['\n']);
    assert(d1.subrange(0, d1.len() - 1) =~= j1);
    crate::text::lemma_has_substring_subrange(d1, 0, d1.len() - 1, "enabled"@);
    assert(lines_of(d1) == l1);
    assert(set_enabled_doc(d1, true) == join_nl(rewrite_lines(l1, true)) + seq!['\n']);
    assert(rewrite_lines(l1, true) =~= rewrite_lines(lines, true)) by {
        assert forall|k: int| 0 <= k < lines.len() implies rewrite_lines(l1, true)[k]
            == rewrite_lines(lines, true)[k] by {
            if is_enabled_line(lines[k]) {
                assert(l1[k] == enabled_line_text(false));
                assert(is_enabled_line(l1[k]));
            } else {
                assert(l1[k] == lines[k]);
            }
        }
    }
}

} // verus!
