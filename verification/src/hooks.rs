//! Hook management: the idempotent shell snippets installed into pre-commit
//! and pre-push hook files, and their removal. A hook file counts as
//! holding the tool when the marker substring occurs anywhere in it;
//! installation appends (or creates) a guarded snippet, and removal strips
//! the marked block, deleting the file when nothing meaningful remains.

use vstd::prelude::*;

use crate::context::tool_marker;
use crate::text::has_substring;
use crate::text::is_prefix;
use crate::text::join_lines;
use crate::text::join_nl;
use crate::text::lines_of;
use crate::text::split_lines;
use crate::text::text_contains;
use crate::text::text_starts_with;
use crate::text::trim_slice;
use crate::text::trim_spec;
use crate::text::str_eq;
use crate::context::opt_text_view;

verus! {

/// What installation decided for one hook file.
#[derive(Clone, Copy, Debug, PartialEq, Eq, Structural)]
pub enum HookActionKind {
    /// The file already holds the tool's marker: nothing to do.
    AlreadyInstalled,
    /// The file exists without the marker: append the snippet and mark the
    /// file executable.
    Append,
    /// The file does not exist: create it with a shebang and the snippet,
    /// and mark it executable.
    Create,
}

/// The decision for one hook file, with the full content to write. For
/// `AlreadyInstalled` the content is the existing text, unchanged.
pub struct HookAction {
    pub kind: HookActionKind,
    pub content: String,
}

/// The guarded snippet appended to a hook file: it invokes the tool only
/// when the tool is installed, so a machine without it degrades gracefully.
pub open spec fn hook_snippet(hook_name: Seq<char>, cmd: Seq<char>) -> Seq<char> {
    "\n# donttouch "@ + hook_name + " hook\nif command -v donttouch >/dev/null 2>&1; then\n    "@
        + cmd + "\nfi\n"@
}

/// What kind of action installation takes for an existing content.
pub open spec fn install_kind(existing: Option<Seq<char>>) -> HookActionKind {
    match existing {
        Option::Some(t) => if has_substring(t, tool_marker()) {
            HookActionKind::AlreadyInstalled
        } else {
            HookActionKind::Append
        },
        Option::None => HookActionKind::Create,
    }
}

/// The hook file's content after installation.
pub open spec fn install_content(
    existing: Option<Seq<char>>,
    hook_name: Seq<char>,
    cmd: Seq<char>,
) -> Seq<char> {
    match existing {
        Option::Some(t) => if has_substring(t, tool_marker()) {
            t
        } else {
            t + hook_snippet(hook_name, cmd)
        },
        Option::None => "#!/bin/sh\n"@ + hook_snippet(hook_name, cmd),
    }
}

/// Builds the guarded snippet for a hook.
fn hook_snippet_string(hook_name: &str, cmd: &str) -> (r: String)
    ensures
        r@ == hook_snippet(hook_name@, cmd@),
{
    let mut r = "\n# donttouch ".to_owned();
    r.append(hook_name);
    r.append(" hook\nif command -v donttouch >/dev/null 2>&1; then\n    ");
    r.append(cmd);
    r.append("\nfi\n");
    proof {
        assert(r@ =~= hook_snippet(hook_name@, cmd@));
    }
    r
}

/// Decides what to do for one hook file: a no-op when the marker is
/// already present, an append to an existing file, or a fresh file with a
/// shebang. Idempotent: running it on its own output changes nothing.
pub fn install_hook_file(existing: Option<&String>, hook_name: &str, cmd: &str) -> (a: HookAction)
    ensures
        a.kind == install_kind(opt_text_view(existing)),
        a.content@ == install_content(opt_text_view(existing), hook_name@, cmd@),
{
    match existing {
        Option::Some(t) => {
            if text_contains(t.as_str(), "donttouch") {
                HookAction { kind: HookActionKind::AlreadyInstalled, content: t.clone() }
            } else {
                let mut content = t.clone();
                let snippet = hook_snippet_string(hook_name, cmd);
                content.append(snippet.as_str());
                HookAction { kind: HookActionKind::Append, content }
            }
        },
        Option::None => {
            let mut content = "#!/bin/sh\n".to_owned();
            let snippet = hook_snippet_string(hook_name, cmd);
            content.append(snippet.as_str());
            HookAction { kind: HookActionKind::Create, content }
        },
    }
}

/// The two hook file paths for a context: Husky's when a Husky directory
/// is used, git's own otherwise. Returns (pre-commit path, pre-push path).
pub fn hook_paths(has_husky: bool) -> (r: (String, String))
    ensures
        has_husky ==> r.0@ == ".husky/pre-commit"@ && r.1@ == ".husky/pre-push"@,
        !has_husky ==> r.0@ == ".git/hooks/pre-commit"@ && r.1@ == ".git/hooks/pre-push"@,
{
    if has_husky {
        (".husky/pre-commit".to_owned(), ".husky/pre-push".to_owned())
    } else {
        (".git/hooks/pre-commit".to_owned(), ".git/hooks/pre-push".to_owned())
    }
}

/// Plans the installation of both git hooks: the check snippet into the
/// pre-commit hook and the push-time check snippet into the pre-push hook.
pub fn install_git_hooks(pre_commit: Option<&String>, pre_push: Option<&String>) -> (r: (
    HookAction,
    HookAction,
))
    ensures
        r.0.kind == install_kind(opt_text_view(pre_commit)),
        r.0.content@ == install_content(
            opt_text_view(pre_commit),
            "pre-commit"@,
            "donttouch check"@,
        ),
        r.1.kind == install_kind(opt_text_view(pre_push)),
        r.1.content@ == install_content(
            opt_text_view(pre_push),
            "pre-push"@,
            "donttouch check-push"@,
        ),
{
    let a = install_hook_file(pre_commit, "pre-commit", "donttouch check");
    let b = install_hook_file(pre_push, "pre-push", "donttouch check-push");
    (a, b)
}

/// Plans the installation of both Husky hooks; the snippets are the same
/// as for git's own hook files.
pub fn install_husky_hooks(pre_commit: Option<&String>, pre_push: Option<&String>) -> (r: (
    HookAction,
    HookAction,
))
    ensures
        r.0.kind == install_kind(opt_text_view(pre_commit)),
        r.0.content@ == install_content(
            opt_text_view(pre_commit),
            "pre-commit"@,
            "donttouch check"@,
        ),
        r.1.kind == install_kind(opt_text_view(pre_push)),
        r.1.content@ == install_content(
            opt_text_view(pre_push),
            "pre-push"@,
            "donttouch check-push"@,
        ),
{
    let a = install_hook_file(pre_commit, "pre-commit", "donttouch check");
    let b = install_hook_file(pre_push, "pre-push", "donttouch check-push");
    (a, b)
}

/// What removal decided for one hook file.
#[derive(Clone, Copy, Debug, PartialEq, Eq, Structural)]
pub enum HookRemovalKind {
    /// No file, or no marker in it: nothing to do.
    NotPresent,
    /// Only a shebang and blank lines would remain: delete the file.
    Delete,
    /// Rewrite the file with the marked block stripped.
    Rewrite,
}

/// The removal decision for one hook file; the content is meaningful only
/// for `Rewrite` and is empty otherwise.
pub struct HookRemoval {
    pub kind: HookRemovalKind,
    pub content: String,
}

/// The lines kept when the marked block is stripped: from a line holding
/// the block's comment marker through the closing `fi`, lines are dropped;
/// all others are kept.
pub open spec fn strip_hook_block(lines: Seq<Seq<char>>, skipping: bool) -> Seq<Seq<char>>
    decreases lines.len(),
{
    if lines.len() == 0 {
        Seq::empty()
    } else {
        let l = lines[0];
        let rest = lines.subrange(1, lines.len() as int);
        if !skipping {
            if has_substring(l, "# donttouch"@) {
                strip_hook_block(rest, true)
            } else {
                seq![l] + strip_hook_block(rest, false)
            }
        } else {
            if trim_spec(l) == "fi"@ {
                strip_hook_block(rest, false)
            } else {
                strip_hook_block(rest, true)
            }
        }
    }
}

/// A line that keeps a rewritten hook file alive: not blank and not a
/// shebang.
pub open spec fn meaningful_line(l: Seq<char>) -> bool {
    trim_spec(l).len() > 0 && !is_prefix(l, "#!"@)
}

/// What removal does to a hook file with the given content.
pub open spec fn removal_kind(content: Seq<char>) -> HookRemovalKind {
    if !has_substring(content, tool_marker()) {
        HookRemovalKind::NotPresent
    } else {
        let kept = strip_hook_block(lines_of(content), false);
        if exists|i: int| 0 <= i < kept.len() && meaningful_line(#[trigger] kept[i]) {
            HookRemovalKind::Rewrite
        } else {
            HookRemovalKind::Delete
        }
    }
}

/// The rewritten content: the kept lines, newline-terminated.
pub open spec fn removal_content(content: Seq<char>) -> Seq<char> {
    join_nl(strip_hook_block(lines_of(content), false)) + seq!['\n']
}

/// Decides what removal does to one hook file: nothing when the tool's
/// marker is absent, deletion when only a shebang and blank lines would
/// remain, and otherwise a rewrite with the marked block stripped.
pub fn remove_hook_file(content: &str) -> (r: HookRemoval)
    ensures
        r.kind == removal_kind(content@),
        r.kind is Rewrite ==> r.content@ == removal_content(content@),
{
    if !text_contains(content, "donttouch") {
        return HookRemoval { kind: HookRemovalKind::NotPresent, content: String::new() };
    }
    let lines = split_lines(content);
    let n = lines.len();
    let ghost dv = lines.deep_view();
    let mut kept: Vec<String> = Vec::new();
    let mut skipping: bool = false;
    proof {
        assert(dv.subrange(0, n as int) =~= dv);
        assert(kept.deep_view() =~= Seq::<Seq<char>>::empty());
    }
    let mut i: usize = 0;
    while i < n
        invariant
            n == lines.len(),
            dv == lines.deep_view(),
            0 <= i <= n,
            strip_hook_block(dv, false) == kept.deep_view() + strip_hook_block(
                dv.subrange(i as int, n as int),
                skipping,
            ),
        decreases n - i,
    {
        let ghost rest = dv.subrange(i as int, n as int);
        proof {
            assert(rest[0] == dv[i as int]);
            assert(rest.subrange(1, rest.len() as int) =~= dv.subrange(i as int + 1, n as int));
            assert(dv[i as int] == lines[i as int]@);
        }
        if !skipping {
            if text_contains(lines[i].as_str(), "# donttouch") {
                skipping = true;
            } else {
                let ghost before = kept.deep_view();
                kept.push(lines[i].clone());
                proof {
                    assert(kept.deep_view() =~= before.push(dv[i as int]));
                    assert(before.push(dv[i as int]) + strip_hook_block(
                        dv.subrange(i as int + 1, n as int),
                        false,
                    ) =~= before + (seq![dv[i as int]] + strip_hook_block(
                        dv.subrange(i as int + 1, n as int),
                        false,
                    )));
                }
            }
        } else {
            let t = trim_slice(lines[i].as_str());
            if str_eq(t, "fi") {
                skipping = false;
            }
        }
        i = i + 1;
    }
    proof {
        assert(dv.subrange(n as int, n as int) =~= Seq::<Seq<char>>::empty());
        assert(strip_hook_block(dv, false) =~= kept.deep_view());
    }
    let m = kept.len();
    let ghost kv = kept.deep_view();
    let mut any_meaningful: bool = false;
    let mut j: usize = 0;
    while j < m
        invariant
            m == kept.len(),
            kv == kept.deep_view(),
            0 <= j <= m,
            any_meaningful == exists|k: int| 0 <= k < j && meaningful_line(#[trigger] kv[k]),
        decreases m - j,
    {
        proof {
            assert(kv[j as int] == kept[j as int]@);
        }
        let t = trim_slice(kept[j].as_str());
        if !t.is_empty() && !text_starts_with(kept[j].as_str(), "#!") {
            any_meaningful = true;
        }
        j = j + 1;
    }
    if !any_meaningful {
        return HookRemoval { kind: HookRemovalKind::Delete, content: String::new() };
    }
    let mut content_out = join_lines(&kept);
    proof {
        reveal_strlit("\n");
        assert("\n"@ =~= seq!['\n']);
    }
    content_out.append("\n");
    HookRemoval { kind: HookRemovalKind::Rewrite, content: content_out }
}

/// What removal does when the hook file may be absent.
pub open spec fn hook_removal_opt_kind(o: Option<Seq<char>>) -> HookRemovalKind {
    match o {
        Option::None => HookRemovalKind::NotPresent,
        Option::Some(c) => removal_kind(c),
    }
}

/// A hook removal decision is exact for the probed content.
pub open spec fn hook_removal_ok(r: HookRemoval, o: Option<Seq<char>>) -> bool {
    &&& r.kind == hook_removal_opt_kind(o)
    &&& r.kind is Rewrite ==> match o {
        Option::Some(c) => r.content@ == removal_content(c),
        Option::None => false,
    }
}

/// Decides removal for a hook file that may be absent.
pub fn remove_hook_opt(content: Option<&String>) -> (r: HookRemoval)
    ensures
        hook_removal_ok(r, opt_text_view(content)),
{
    match content {
        Option::None => HookRemoval { kind: HookRemovalKind::NotPresent, content: String::new() },
        Option::Some(c) => remove_hook_file(c.as_str()),
    }
}

} // verus!
