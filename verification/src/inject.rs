//! Collaborator-instruction injection: a fixed allowlist of well-known
//! instruction files receives a single marker-prefixed note pointing at the
//! tool's status command. Injection is idempotent — the marker substring is
//! the sole "already injected" signal — and removal strips marker-bearing
//! lines, deleting the one file the tool creates for itself.

use vstd::prelude::*;

use crate::context::opt_text_view;
use crate::text::has_substring;
use crate::text::join_lines;
use crate::text::join_nl;
use crate::text::lines_of;
use crate::text::split_lines;
use crate::text::text_contains;
use crate::text::trim_end_slice;
use crate::text::trimmed_end;

verus! {

/// The marker substring whose presence means "already injected".
pub open spec fn marker_text() -> Seq<char> {
    "<!-- donttouch:managed -->"@
}

/// The injected note: the marker followed by the instruction, one line.
pub open spec fn instruction_text() -> Seq<char> {
    marker_text()
        + " donttouch is active in this project. Files marked read-only are protected - do not modify, rename, or delete them. Run 'donttouch status' to see which files are protected."@
}

/// The document created for the Cursor rules file: a front-matter block
/// and the instruction line.
pub open spec fn cursor_doc() -> Seq<char> {
    "---\ndescription: donttouch file protection\n---\n"@ + instruction_text() + "\n"@
}

/// Builds the instruction line.
fn instruction_string() -> (r: String)
    ensures
        r@ == instruction_text(),
{
    let mut r = "<!-- donttouch:managed -->".to_owned();
    r.append(
        " donttouch is active in this project. Files marked read-only are protected - do not modify, rename, or delete them. Run 'donttouch status' to see which files are protected.",
    );
    r
}

/// Builds the Cursor rules document.
fn cursor_doc_string() -> (r: String)
    ensures
        r@ == cursor_doc(),
{
    let mut r = "---\ndescription: donttouch file protection\n---\n".to_owned();
    let instr = instruction_string();
    r.append(instr.as_str());
    r.append("\n");
    proof {
        assert(r@ =~= cursor_doc());
    }
    r
}

/// What injection decided for one instruction file.
#[derive(Clone, Copy, Debug, PartialEq, Eq, Structural)]
pub enum InjectKind {
    /// The file does not exist and is not one the tool creates.
    SkipMissing,
    /// The file already holds the marker.
    AlreadyInjected,
    /// Append the instruction line to the existing content.
    Append,
    /// Create the file with the tool's own document.
    Create,
}

/// The decision for one instruction file; for `Append` and `Create` the
/// content is the full text to write, otherwise it is empty.
pub struct InjectAction {
    pub kind: InjectKind,
    pub content: String,
}

/// What kind of action injection takes for one file.
pub open spec fn inject_kind(existing: Option<Seq<char>>, create: bool) -> InjectKind {
    match existing {
        Option::Some(c) => if has_substring(c, marker_text()) {
            InjectKind::AlreadyInjected
        } else {
            InjectKind::Append
        },
        Option::None => if create {
            InjectKind::Create
        } else {
            InjectKind::SkipMissing
        },
    }
}

/// The existing content with the instruction line appended: separated by a
/// blank line when the content does not already end in a newline.
pub open spec fn appended_doc(c: Seq<char>) -> Seq<char> {
    if c.len() > 0 && c[c.len() - 1] == '\n' {
        c + "\n"@ + instruction_text() + "\n"@
    } else {
        c + "\n\n"@ + instruction_text() + "\n"@
    }
}

/// The file's content after the injection action is applied: unchanged
/// when nothing is to be done, the appended document, or the created one.
pub open spec fn inject_result(existing: Option<Seq<char>>, create: bool) -> Option<Seq<char>> {
    match existing {
        Option::Some(c) => if has_substring(c, marker_text()) {
            Option::Some(c)
        } else {
            Option::Some(appended_doc(c))
        },
        Option::None => if create {
            Option::Some(cursor_doc())
        } else {
            Option::None
        },
    }
}

/// Decides what injection does to one instruction file.
pub fn inject_file_action(existing: Option<&String>, create: bool) -> (a: InjectAction)
    ensures
        a.kind == inject_kind(opt_text_view(existing), create),
        a.kind is Append ==> Option::Some(a.content@) == inject_result(
            opt_text_view(existing),
            create,
        ),
        a.kind is Create ==> a.content@ == cursor_doc(),
{
    match existing {
        Option::Some(c) => {
            if text_contains(c.as_str(), "<!-- donttouch:managed -->") {
                InjectAction { kind: InjectKind::AlreadyInjected, content: String::new() }
            } else {
                let mut content = c.clone();
                let len = c.as_str().unicode_len();
                let ends_nl = len > 0 && c.as_str().get_char(len - 1) == '\n';
                if ends_nl {
                    content.append("\n");
                } else {
                    content.append("\n\n");
                }
                let instr = instruction_string();
                content.append(instr.as_str());
                content.append("\n");
                proof {
                    assert(content@ =~= appended_doc(c@));
                }
                InjectAction { kind: InjectKind::Append, content }
            }
        },
        Option::None => {
            if create {
                InjectAction { kind: InjectKind::Create, content: cursor_doc_string() }
            } else {
                InjectAction { kind: InjectKind::SkipMissing, content: String::new() }
            }
        },
    }
}

/// The fixed allowlist of instruction files, root-relative: the files the
/// tool injects into when present, and — for the Cursor rules file alone —
/// creates when absent.
pub fn agent_target_paths() -> (r: Vec<String>)
    ensures
        r.deep_view() =~= seq![
            "GEMINI.md"@,
            "AGENTS.md"@,
            ".cursor/rules/donttouch.mdc"@,
            "codex.md"@,
            ".github/copilot-instructions.md"@,
        ],
{
    let mut r: Vec<String> = Vec::new();
    r.push("GEMINI.md".to_owned());
    r.push("AGENTS.md".to_owned());
    r.push(".cursor/rules/donttouch.mdc".to_owned());
    r.push("codex.md".to_owned());
    r.push(".github/copilot-instructions.md".to_owned());
    r
}

/// The probed contents of the five instruction files, in allowlist order.
pub struct AgentFiles {
    pub gemini_md: Option<String>,
    pub agents_md: Option<String>,
    pub cursor_rules: Option<String>,
    pub codex_md: Option<String>,
    pub copilot_md: Option<String>,
}

/// The view of one probed content.
pub open spec fn owned_text_view(o: Option<String>) -> Option<Seq<char>> {
    match o {
        Option::Some(s) => Option::Some(s@),
        Option::None => Option::None,
    }
}

/// Whether an action counts as an injection.
pub open spec fn kind_injects(k: InjectKind) -> int {
    if k is Append || k is Create {
        1
    } else {
        0
    }
}

/// Whether an action counts as skipped because already injected.
pub open spec fn kind_skips(k: InjectKind) -> int {
    if k is AlreadyInjected {
        1
    } else {
        0
    }
}

/// The injection plan over the whole allowlist, with the counts the run
/// reports.
pub struct InjectReport {
    pub gemini_md: InjectAction,
    pub agents_md: InjectAction,
    pub cursor_rules: InjectAction,
    pub codex_md: InjectAction,
    pub copilot_md: InjectAction,
    pub injected: usize,
    pub skipped: usize,
    pub dry_run: bool,
}

/// One injection action is as `inject_file_action` decides for the probed
/// content and the target's create flag.
pub open spec fn action_ok(a: InjectAction, existing: Option<Seq<char>>, create: bool) -> bool {
    &&& a.kind == inject_kind(existing, create)
    &&& a.kind is Append ==> Option::Some(a.content@) == inject_result(existing, create)
    &&& a.kind is Create ==> a.content@ == cursor_doc()
}

/// Counts one action toward the injected tally.
fn count_injects(k: InjectKind) -> (c: usize)
    ensures
        c == kind_injects(k),
{
    if matches!(k, InjectKind::Append | InjectKind::Create) {
        1
    } else {
        0
    }
}

/// Counts one action toward the skipped tally.
fn count_skips(k: InjectKind) -> (c: usize)
    ensures
        c == kind_skips(k),
{
    if matches!(k, InjectKind::AlreadyInjected) {
        1
    } else {
        0
    }
}

/// An injection report is exact for the probed contents: each action is
/// as decided for its file, and the counts tally the actions.
pub open spec fn inject_report_ok(r: InjectReport, files: AgentFiles, dry_run: bool) -> bool {
    &&& action_ok(r.gemini_md, owned_text_view(files.gemini_md), false)
    &&& action_ok(r.agents_md, owned_text_view(files.agents_md), false)
    &&& action_ok(r.cursor_rules, owned_text_view(files.cursor_rules), true)
    &&& action_ok(r.codex_md, owned_text_view(files.codex_md), false)
    &&& action_ok(r.copilot_md, owned_text_view(files.copilot_md), false)
    &&& r.injected == kind_injects(r.gemini_md.kind) + kind_injects(r.agents_md.kind)
        + kind_injects(r.cursor_rules.kind) + kind_injects(r.codex_md.kind) + kind_injects(
        r.copilot_md.kind,
    )
    &&& r.skipped == kind_skips(r.gemini_md.kind) + kind_skips(r.agents_md.kind) + kind_skips(
        r.cursor_rules.kind,
    ) + kind_skips(r.codex_md.kind) + kind_skips(r.copilot_md.kind)
    &&& r.dry_run == dry_run
}

/// Plans the injection run over the allowlist: only the Cursor rules file
/// is created when absent; the others are only appended to when present.
/// The preview mode computes the same plan without anything being written.
pub fn do_inject(files: &AgentFiles, dry_run: bool) -> (r: InjectReport)
    ensures
        inject_report_ok(r, *files, dry_run),
{
    let gemini_md = inject_file_action(files.gemini_md.as_ref(), false);
    let agents_md = inject_file_action(files.agents_md.as_ref(), false);
    let cursor_rules = inject_file_action(files.cursor_rules.as_ref(), true);
    let codex_md = inject_file_action(files.codex_md.as_ref(), false);
    let copilot_md = inject_file_action(files.copilot_md.as_ref(), false);
    let injected: usize = count_injects(gemini_md.kind) + count_injects(agents_md.kind)
        + count_injects(cursor_rules.kind) + count_injects(codex_md.kind) + count_injects(
        copilot_md.kind,
    );
    let skipped: usize = count_skips(gemini_md.kind) + count_skips(agents_md.kind) + count_skips(
        cursor_rules.kind,
    ) + count_skips(codex_md.kind) + count_skips(copilot_md.kind);
    InjectReport {
        gemini_md,
        agents_md,
        cursor_rules,
        codex_md,
        copilot_md,
        injected,
        skipped,
        dry_run,
    }
}

/// Keeping a line during removal: it does not hold the marker.
pub open spec fn marker_free_pred() -> spec_fn(Seq<char>) -> bool {
    |l: Seq<char>| !has_substring(l, marker_text())
}

/// The lines kept by removal: those without the marker.
pub open spec fn strip_marker_lines(lines: Seq<Seq<char>>) -> Seq<Seq<char>> {
    lines.filter(marker_free_pred())
}

/// The lines with trailing blank lines dropped.
pub open spec fn drop_trailing_blank(lines: Seq<Seq<char>>) -> Seq<Seq<char>>
    decreases lines.len(),
{
    if lines.len() == 0 {
        lines
    } else if trimmed_end(lines.last()).len() == 0 {
        drop_trailing_blank(lines.drop_last())
    } else {
        lines
    }
}

/// The lines with the last one's trailing whitespace removed.
pub open spec fn rtrim_last(lines: Seq<Seq<char>>) -> Seq<Seq<char>> {
    if lines.len() == 0 {
        lines
    } else {
        lines.update(lines.len() - 1, trimmed_end(lines.last()))
    }
}

/// The content a rewrite leaves behind: the marker-free lines, with
/// trailing blank space dropped, newline-terminated.
pub open spec fn removal_doc(c: Seq<char>) -> Seq<char> {
    join_nl(rtrim_last(drop_trailing_blank(strip_marker_lines(lines_of(c))))) + seq!['\n']
}

/// Dropping trailing blank lines keeps the prefix up to the last
/// non-blank line.
proof fn lemma_drop_trailing_blank_at(s: Seq<Seq<char>>, k: int)
    requires
        0 <= k <= s.len(),
        forall|i: int| k <= i < s.len() ==> trimmed_end(#[trigger] s[i]).len() == 0,
        k > 0 ==> trimmed_end(s[k - 1]).len() > 0,
    ensures
        drop_trailing_blank(s) == s.subrange(0, k),
    decreases s.len(),
{
    if s.len() == 0 {
        assert(s.subrange(0, 0) =~= s);
    } else if k == s.len() {
        assert(trimmed_end(s.last()).len() > 0);
        assert(s.subrange(0, k) =~= s);
    } else {
        assert(trimmed_end(s[s.len() - 1]).len() == 0);
        let dl = s.drop_last();
        assert(forall|i: int| k <= i < dl.len() ==> dl[i] == s[i]);
        lemma_drop_trailing_blank_at(dl, k);
        assert(dl.subrange(0, k) =~= s.subrange(0, k));
    }
}

/// Dropping trailing blank lines keeps a prefix of the lines.
proof fn lemma_drop_trailing_blank_shape(s: Seq<Seq<char>>)
    ensures
        drop_trailing_blank(s).len() <= s.len(),
        forall|i: int|
            0 <= i < drop_trailing_blank(s).len() ==> #[trigger] drop_trailing_blank(s)[i] == s[i],
    decreases s.len(),
{
    if s.len() > 0 && trimmed_end(s.last()).len() == 0 {
        lemma_drop_trailing_blank_shape(s.drop_last());
    }
}

/// What removal decided for one instruction file.
#[derive(Clone, Copy, Debug, PartialEq, Eq, Structural)]
pub enum AgentRemovalKind {
    /// No file, or no marker in it: nothing to do.
    NotPresent,
    /// The file is the tool's own artifact: delete it.
    DeleteFile,
    /// Rewrite the file with the marker-bearing lines stripped.
    Rewrite,
}

/// The removal decision for one instruction file; the content is
/// meaningful only for `Rewrite` and is empty otherwise.
pub struct AgentRemoval {
    pub kind: AgentRemovalKind,
    pub content: String,
}

/// What kind of action removal takes for one file. `tool_created` marks
/// the one allowlist entry the tool creates for itself.
pub open spec fn agent_removal_kind(
    existing: Option<Seq<char>>,
    tool_created: bool,
) -> AgentRemovalKind {
    match existing {
        Option::None => AgentRemovalKind::NotPresent,
        Option::Some(c) => if !has_substring(c, marker_text()) {
            AgentRemovalKind::NotPresent
        } else if tool_created {
            AgentRemovalKind::DeleteFile
        } else {
            AgentRemovalKind::Rewrite
        },
    }
}

/// A removal decision is exact for the probed content.
pub open spec fn removal_ok(r: AgentRemoval, existing: Option<Seq<char>>, tool_created: bool) -> bool {
    &&& r.kind == agent_removal_kind(existing, tool_created)
    &&& r.kind is Rewrite ==> match existing {
        Option::Some(c) => r.content@ == removal_doc(c),
        Option::None => false,
    }
}

/// Decides what removal does to one instruction file: nothing when the
/// marker is absent, deletion of the tool's own artifact, and otherwise a
/// rewrite that strips every marker-bearing line and trailing blank space.
pub fn remove_agent_file(existing: Option<&String>, tool_created: bool) -> (r: AgentRemoval)
    ensures
        removal_ok(r, opt_text_view(existing), tool_created),
{
    let c = match existing {
        Option::None => {
            return AgentRemoval { kind: AgentRemovalKind::NotPresent, content: String::new() };
        },
        Option::Some(c) => c,
    };
    if !text_contains(c.as_str(), "<!-- donttouch:managed -->") {
        return AgentRemoval { kind: AgentRemovalKind::NotPresent, content: String::new() };
    }
    if tool_created {
        return AgentRemoval { kind: AgentRemovalKind::DeleteFile, content: String::new() };
    }
    let lines = split_lines(c.as_str());
    let n = lines.len();
    let ghost dv = lines.deep_view();
    let mut kept: Vec<String> = Vec::new();
    proof {
        reveal(Seq::filter);
        assert(kept.deep_view() =~= dv.subrange(0, 0).filter(marker_free_pred()));
    }
    let mut i: usize = 0;
    while i < n
        invariant
            n == lines.len(),
            dv == lines.deep_view(),
            0 <= i <= n,
            kept.deep_view() == dv.subrange(0, i as int).filter(marker_free_pred()),
        decreases n - i,
    {
        let hit = text_contains(lines[i].as_str(), "<!-- donttouch:managed -->");
        proof {
            reveal(Seq::filter);
            let pre = dv.subrange(0, i as int);
            let pre1 = dv.subrange(0, i as int + 1);
            assert(pre1.drop_last() =~= pre);
            assert(dv[i as int] == lines[i as int]@);
            assert(pre1.last() == dv[i as int]);
        }
        if !hit {
            let ghost before = kept.deep_view();
            kept.push(lines[i].clone());
            proof {
                assert(kept.deep_view() =~= before.push(dv[i as int]));
            }
        }
        i = i + 1;
    }
    proof {
        assert(dv.subrange(0, n as int) =~= dv);
    }
    let m = kept.len();
    let ghost kv = kept.deep_view();
    let mut k: usize = m;
    while k > 0 && trim_end_slice(kept[k - 1].as_str()).is_empty()
        invariant
            m == kept.len(),
            kv == kept.deep_view(),
            0 <= k <= m,
            forall|i: int| k <= i < m ==> trimmed_end(#[trigger] kv[i]).len() == 0,
        decreases k,
    {
        proof {
            assert(kv[k - 1] == kept[k as int - 1]@);
        }
        k = k - 1;
    }
    proof {
        if k > 0 {
            assert(kv[k - 1] == kept[k as int - 1]@);
        }
        lemma_drop_trailing_blank_at(kv, k as int);
    }
    let ghost dtb = drop_trailing_blank(kv);
    let mut out: Vec<String> = Vec::new();
    proof {
        assert(out.deep_view() =~= dtb.subrange(0, 0));
    }
    if k > 0 {
        let mut j: usize = 0;
        while j < k - 1
            invariant
                m == kept.len(),
                kv == kept.deep_view(),
                0 < k <= m,
                dtb == drop_trailing_blank(kv),
                dtb == kv.subrange(0, k as int),
                0 <= j <= k - 1,
                out.deep_view() == dtb.subrange(0, j as int),
            decreases k - j,
        {
            let ghost before = out.deep_view();
            out.push(kept[j].clone());
            proof {
                assert(kv[j as int] == kept[j as int]@);
                assert(dtb[j as int] == kv[j as int]);
                assert(out.deep_view() =~= before.push(dtb[j as int]));
                assert(out.deep_view() =~= dtb.subrange(0, j as int + 1));
            }
            j = j + 1;
        }
        let ghost before = out.deep_view();
        let last = trim_end_slice(kept[k - 1].as_str()).to_owned();
        out.push(last);
        proof {
            assert(kv[k - 1] == kept[k as int - 1]@);
            assert(dtb.last() == kv[k - 1]);
            assert(out.deep_view() =~= before.push(trimmed_end(dtb.last())));
            assert(out.deep_view() =~= rtrim_last(dtb));
        }
    } else {
        proof {
            assert(dtb =~= Seq::<Seq<char>>::empty());
            assert(out.deep_view() =~= rtrim_last(dtb));
        }
    }
    let mut content_out = join_lines(&out);
    proof {
        reveal_strlit("\n");
        assert("\n"@ =~= seq!['\n']);
    }
    content_out.append("\n");
    AgentRemoval { kind: AgentRemovalKind::Rewrite, content: content_out }
}

/// Injection is idempotent: the content an injection action leaves behind
/// is left unchanged by a second injection run — no duplicate markers are
/// ever written.
pub proof fn lemma_inject_idempotent(existing: Option<Seq<char>>, create: bool)
    ensures
        inject_result(inject_result(existing, create), create) == inject_result(existing, create),
{
    let m = marker_text();
    assert(instruction_text().subrange(0, m.len() as int) =~= m);
    match existing {
        Option::Some(c) => {
            if !has_substring(c, m) {
                reveal_strlit("\n");
                reveal_strlit("\n\n");
                let c2 = appended_doc(c);
                let off: int = if c.len() > 0 && c[c.len() - 1] == '\n' {
                    c.len() as int + 1
                } else {
                    c.len() as int + 2
                };
                assert(c2.subrange(off, off + m.len() as int) =~= m);
                assert(crate::text::occurs_at(c2, m, off));
                assert(has_substring(c2, m));
            }
        },
        Option::None => {
            if create {
                let d = cursor_doc();
                let off = "---\ndescription: donttouch file protection\n---\n"@.len() as int;
                assert(d.subrange(off, off + m.len() as int) =~= m);
                assert(crate::text::occurs_at(d, m, off));
                assert(has_substring(d, m));
            }
        },
    }
}

/// After removal, no line of the rewritten content holds the marker.
pub proof fn lemma_removal_no_marker_line(c: Seq<char>)
    ensures
        forall|i: int|
            0 <= i < lines_of(removal_doc(c)).len() ==> !has_substring(
                #[trigger] lines_of(removal_doc(c))[i],
                marker_text(),
            ),
{
    let s0 = lines_of(c);
    let s1 = strip_marker_lines(s0);
    let s2 = drop_trailing_blank(s1);
    let s3 = rtrim_last(s2);
    let d = removal_doc(c);
    crate::text::lemma_lines_no_nl(c);
    crate::fileset::lemma_filter_elems(s0, marker_free_pred());
    assert forall|i: int| 0 <= i < s1.len() implies !has_substring(#[trigger] s1[i], marker_text())
        && !s1[i].contains('\n') by {
        s0.lemma_filter_pred(marker_free_pred(), i);
        assert(s1.contains(s1[i]));
        assert(s0.contains(s1[i]));
        let k = choose|k: int| 0 <= k < s0.len() && s0[k] == s1[i];
        assert(!s0[k].contains('\n'));
    }
    lemma_drop_trailing_blank_shape(s1);
    assert forall|i: int| 0 <= i < s3.len() implies !has_substring(#[trigger] s3[i], marker_text())
        && !s3[i].contains('\n') by {
        if i < s2.len() - 1 {
            assert(s3[i] == s2[i]);
            assert(s2[i] == s1[i]);
        } else {
            let l = s2.last();
            assert(l == s1[s2.len() - 1]);
            assert(s3[i] == trimmed_end(l));
            crate::text::lemma_trimmed_end_subrange(l);
            let j = choose|j: int|
                0 <= j <= l.len() && trimmed_end(l) == #[trigger] l.subrange(0, j);
            if has_substring(trimmed_end(l), marker_text()) {
                crate::text::lemma_has_substring_subrange(l, 0, j, marker_text());
            }
            if trimmed_end(l).contains('\n') {
                let x = choose|x: int| 0 <= x < trimmed_end(l).len() && trimmed_end(l)[x] == '\n';
                assert(l[x] == '\n');
            }
        }
    }
    if s3.len() == 0 {
        assert(join_nl(s3) == Seq::<char>::empty());
        assert(d =~= seq!['\n']);
        assert(d.len() == 1 && d[0] == '\n');
        assert(d.subrange(0, 0) =~= Seq::<char>::empty());
        assert(lines_of(d) =~= seq![Seq::<char>::empty()]);
        reveal_strlit("<!-- donttouch:managed -->");
        assert(marker_text().len() == 26);
        assert forall|i: int| 0 <= i < lines_of(d).len() implies !has_substring(
            #[trigger] lines_of(d)[i],
            marker_text(),
        ) by {
            assert(lines_of(d)[i].len() == 0);
        }
    } else {
        crate::text::lemma_lines_of_terminated_join(s3);
        assert(lines_of(d) == s3);
    }
}

} // verus!
