//! The command handlers: for each command, a pure function from the
//! derived state and the probed world to a report that names exactly which
//! files are touched, what is written, and what the run tells the user.
//! The shell around the engine applies the reported effects; nothing here
//! touches the filesystem.

use vstd::prelude::*;

use crate::config::Config;
use crate::config::set_enabled_doc;
use crate::config::set_enabled_text;
use crate::context::Context;
use crate::fileset::ProtectedFile;
use crate::fileset::files_view;
use crate::fileset::pf_view;
use crate::inject::AgentRemoval;
use crate::pattern::matches_any;
use crate::pattern::any_pattern_matches;
use crate::pattern::matching_patterns;

verus! {

/// A writable entry.
pub open spec fn writable_pred() -> spec_fn((Seq<char>, bool)) -> bool {
    |f: (Seq<char>, bool)| !f.1
}

/// A read-only entry.
pub open spec fn readonly_pred() -> spec_fn((Seq<char>, bool)) -> bool {
    |f: (Seq<char>, bool)| f.1
}

/// The path of an entry.
pub open spec fn path_of() -> spec_fn((Seq<char>, bool)) -> Seq<char> {
    |f: (Seq<char>, bool)| f.0
}

/// The paths of the currently writable entries, in listing order.
pub open spec fn writable_paths(fv: Seq<(Seq<char>, bool)>) -> Seq<Seq<char>> {
    fv.filter(writable_pred()).map_values(path_of())
}

/// The paths of the currently read-only entries, in listing order.
pub open spec fn readonly_paths(fv: Seq<(Seq<char>, bool)>) -> Seq<Seq<char>> {
    fv.filter(readonly_pred()).map_values(path_of())
}

/// How many entries are currently read-only.
pub open spec fn count_readonly(fv: Seq<(Seq<char>, bool)>) -> nat {
    fv.filter(readonly_pred()).len()
}

/// The listing with every permission bit set to `b`: the modelled outcome
/// of locking (`true`) or unlocking (`false`) the whole set.
pub open spec fn set_all(fv: Seq<(Seq<char>, bool)>, b: bool) -> Seq<(Seq<char>, bool)> {
    fv.map_values(|f: (Seq<char>, bool)| (f.0, b))
}

/// The paths of a listing, in order.
pub open spec fn paths_of(fv: Seq<(Seq<char>, bool)>) -> Seq<Seq<char>> {
    fv.map_values(path_of())
}

/// What `lock` does: which files it will make read-only, whether the
/// configuration document itself needs locking, and what was already
/// read-only.
pub struct LockReport {
    /// The writable protected files, to be made read-only, in order.
    pub to_lock: Vec<String>,
    /// The configuration document is writable and will be locked too.
    pub lock_config: bool,
    /// How many protected files were already read-only.
    pub already_files: usize,
    /// The configuration document was already read-only.
    pub config_already: bool,
}

/// A lock report is exact for the given listing and configuration bit.
pub open spec fn lock_report_ok(
    r: LockReport,
    fv: Seq<(Seq<char>, bool)>,
    config_readonly: bool,
) -> bool {
    &&& r.to_lock.deep_view() == writable_paths(fv)
    &&& r.lock_config == !config_readonly
    &&& r.already_files == count_readonly(fv)
    &&& r.config_already == config_readonly
}

/// The paths of the currently writable files, in listing order: what a
/// lock would touch, and what a check reports as violations.
fn writable_list(files: &Vec<ProtectedFile>) -> (r: Vec<String>)
    ensures
        r.deep_view() == writable_paths(files_view(files@)),
{
    let ghost fv = files_view(files@);
    let mut r: Vec<String> = Vec::new();
    proof {
        reveal(Seq::filter);
        assert(r.deep_view() =~= writable_paths(fv.subrange(0, 0)));
    }
    let n = files.len();
    let mut i: usize = 0;
    while i < n
        invariant
            n == files.len(),
            fv == files_view(files@),
            0 <= i <= n,
            r.deep_view() == writable_paths(fv.subrange(0, i as int)),
        decreases n - i,
    {
        proof {
            reveal(Seq::filter);
            let pre = fv.subrange(0, i as int);
            let pre1 = fv.subrange(0, i as int + 1);
            assert(pre1.drop_last() =~= pre);
            assert(fv[i as int] == pf_view(files@[i as int]));
            assert(pre1.last() == fv[i as int]);
        }
        if !files[i].readonly {
            let ghost before = r.deep_view();
            r.push(files[i].path.clone());
            proof {
                assert(r.deep_view() =~= before.push(fv[i as int].0));
                let pre1 = fv.subrange(0, i as int + 1);
                assert(pre1.filter(writable_pred()) =~= fv.subrange(0, i as int).filter(
                    writable_pred(),
                ).push(fv[i as int]));
                assert(r.deep_view() =~= writable_paths(pre1));
            }
        } else {
            proof {
                assert(r.deep_view() =~= writable_paths(fv.subrange(0, i as int + 1)));
            }
        }
        i = i + 1;
    }
    proof {
        assert(fv.subrange(0, n as int) =~= fv);
    }
    r
}

/// How many of the files are already read-only.
fn count_readonly_files(files: &Vec<ProtectedFile>) -> (c: usize)
    ensures
        c == count_readonly(files_view(files@)),
{
    let ghost fv = files_view(files@);
    let mut c: usize = 0;
    proof {
        reveal(Seq::filter);
        assert(count_readonly(fv.subrange(0, 0)) == 0);
    }
    let n = files.len();
    let mut i: usize = 0;
    while i < n
        invariant
            n == files.len(),
            fv == files_view(files@),
            0 <= i <= n,
            c == count_readonly(fv.subrange(0, i as int)),
            c <= i,
        decreases n - i,
    {
        proof {
            reveal(Seq::filter);
            let pre = fv.subrange(0, i as int);
            let pre1 = fv.subrange(0, i as int + 1);
            assert(pre1.drop_last() =~= pre);
            assert(fv[i as int] == pf_view(files@[i as int]));
            assert(pre1.last() == fv[i as int]);
        }
        if files[i].readonly {
            c = c + 1;
        }
        i = i + 1;
    }
    proof {
        assert(fv.subrange(0, n as int) =~= fv);
    }
    c
}

/// Plans the `lock` command: every currently writable protected file is to
/// be made read-only, as is the configuration document itself; files
/// already read-only are only counted.
pub fn do_lock(files: &Vec<ProtectedFile>, config_readonly: bool) -> (r: LockReport)
    ensures
        lock_report_ok(r, files_view(files@), config_readonly),
{
    LockReport {
        to_lock: writable_list(files),
        lock_config: !config_readonly,
        already_files: count_readonly_files(files),
        config_already: config_readonly,
    }
}

/// What `unlock` does: which files it will make writable again, and
/// whether the configuration document needs unlocking.
pub struct UnlockReport {
    /// The read-only protected files, to be made writable, in order.
    pub to_unlock: Vec<String>,
    /// The configuration document is read-only and will be unlocked too.
    pub unlock_config: bool,
}

/// An unlock report is exact for the given listing and configuration bit.
pub open spec fn unlock_report_ok(
    r: UnlockReport,
    fv: Seq<(Seq<char>, bool)>,
    config_readonly: bool,
) -> bool {
    &&& r.to_unlock.deep_view() == readonly_paths(fv)
    &&& r.unlock_config == config_readonly
}

/// Plans the `unlock` command: every currently read-only protected file is
/// to be made writable, as is the configuration document when it is
/// read-only.
pub fn do_unlock(files: &Vec<ProtectedFile>, config_readonly: bool) -> (r: UnlockReport)
    ensures
        unlock_report_ok(r, files_view(files@), config_readonly),
{
    let ghost fv = files_view(files@);
    let mut to_unlock: Vec<String> = Vec::new();
    proof {
        reveal(Seq::filter);
        assert(to_unlock.deep_view() =~= readonly_paths(fv.subrange(0, 0)));
    }
    let n = files.len();
    let mut i: usize = 0;
    while i < n
        invariant
            n == files.len(),
            fv == files_view(files@),
            0 <= i <= n,
            to_unlock.deep_view() == readonly_paths(fv.subrange(0, i as int)),
        decreases n - i,
    {
        proof {
            reveal(Seq::filter);
            let pre = fv.subrange(0, i as int);
            let pre1 = fv.subrange(0, i as int + 1);
            assert(pre1.drop_last() =~= pre);
            assert(fv[i as int] == pf_view(files@[i as int]));
            assert(pre1.last() == fv[i as int]);
        }
        if files[i].readonly {
            let ghost before = to_unlock.deep_view();
            to_unlock.push(files[i].path.clone());
            proof {
                assert(to_unlock.deep_view() =~= before.push(fv[i as int].0));
                let pre1 = fv.subrange(0, i as int + 1);
                assert(pre1.filter(readonly_pred()) =~= fv.subrange(0, i as int).filter(
                    readonly_pred(),
                ).push(fv[i as int]));
                assert(to_unlock.deep_view() =~= readonly_paths(pre1));
            }
        } else {
            proof {
                assert(to_unlock.deep_view() =~= readonly_paths(fv.subrange(0, i as int + 1)));
            }
        }
        i = i + 1;
    }
    proof {
        assert(fv.subrange(0, n as int) =~= fv);
    }
    UnlockReport { to_unlock, unlock_config: config_readonly }
}

/// Locking an already-locked file set changes nothing: the plan names no
/// file, and every file is counted as already read-only.
pub proof fn lemma_lock_idempotent(fv: Seq<(Seq<char>, bool)>, r: LockReport)
    requires
        forall|i: int| 0 <= i < fv.len() ==> (#[trigger] fv[i]).1,
        lock_report_ok(r, fv, true),
    ensures
        r.to_lock.deep_view().len() == 0,
        r.already_files == fv.len(),
        !r.lock_config,
        r.config_already,
{
    lemma_filter_all(fv);
    assert(fv.filter(writable_pred()).len() == 0);
    assert(fv.filter(readonly_pred()) == fv);
}

/// On a listing whose entries are all read-only, the read-only filter
/// keeps everything and the writable filter keeps nothing.
proof fn lemma_filter_all(fv: Seq<(Seq<char>, bool)>)
    requires
        forall|i: int| 0 <= i < fv.len() ==> (#[trigger] fv[i]).1,
    ensures
        fv.filter(readonly_pred()) == fv,
        fv.filter(writable_pred()) == Seq::<(Seq<char>, bool)>::empty(),
    decreases fv.len(),
{
    reveal(Seq::filter);
    if fv.len() > 0 {
        let dl = fv.drop_last();
        assert(forall|i: int| 0 <= i < dl.len() ==> dl[i] == fv[i]);
        lemma_filter_all(dl);
        assert(fv.filter(readonly_pred()) =~= fv);
    }
}

/// Unlocking after locking makes every protected file writable again: the
/// unlock plan on the locked set names exactly the protected paths — the
/// files that were read-only before the lock and those the lock made
/// read-only, and no other — and the resulting set keeps every path with
/// every permission bit clear.
pub proof fn lemma_lock_unlock_round_trip(fv: Seq<(Seq<char>, bool)>)
    ensures
        readonly_paths(set_all(fv, true)) == paths_of(fv),
        writable_paths(set_all(fv, true)) == Seq::<Seq<char>>::empty(),
        paths_of(set_all(set_all(fv, true), false)) == paths_of(fv),
        forall|i: int| 0 <= i < fv.len() ==> !(#[trigger] set_all(set_all(fv, true), false)[i]).1,
{
    let locked = set_all(fv, true);
    assert(forall|i: int| 0 <= i < locked.len() ==> (#[trigger] locked[i]).1);
    lemma_filter_all(locked);
    assert(readonly_paths(locked) =~= paths_of(fv));
    assert(writable_paths(locked) =~= Seq::<Seq<char>>::empty());
    assert(paths_of(set_all(locked, false)) =~= paths_of(fv));
}

/// What `check` found: the protected files that are writable, and the
/// staged files that match a protection pattern.
pub struct CheckReport {
    /// Paths of protected files that are currently writable.
    pub writable: Vec<String>,
    /// Staged paths that match a protection pattern (git context only).
    pub staged_violations: Vec<String>,
    /// The staging area could not be queried in a git context; this alone
    /// fails the check.
    pub staged_unavailable: bool,
    /// The check passed: nothing writable, nothing staged, nothing unknown.
    pub ok: bool,
}

/// A staged path that violates protection.
pub open spec fn staged_pred(pats: Seq<Seq<char>>) -> spec_fn(Seq<char>) -> bool {
    |p: Seq<char>| matches_any(pats, p)
}

/// The view of a staging-area query: the staged paths, or nothing when the
/// query failed.
pub open spec fn staged_view(staged: Option<&Vec<String>>) -> Option<Seq<Seq<char>>> {
    match staged {
        Option::Some(s) => Option::Some(s.deep_view()),
        Option::None => Option::None,
    }
}

/// A check report is exact for the given listing, staging query, patterns
/// and context.
pub open spec fn check_report_ok(
    r: CheckReport,
    fv: Seq<(Seq<char>, bool)>,
    staged: Option<Seq<Seq<char>>>,
    pats: Seq<Seq<char>>,
    ctx: Context,
) -> bool {
    &&& r.writable.deep_view() == writable_paths(fv)
    &&& (ctx is Git ==> match staged {
        Option::Some(s) => r.staged_violations.deep_view() == s.filter(staged_pred(pats))
            && !r.staged_unavailable,
        Option::None => r.staged_violations.deep_view() == Seq::<Seq<char>>::empty()
            && r.staged_unavailable,
    })
    &&& (!(ctx is Git) ==> r.staged_violations.deep_view() == Seq::<Seq<char>>::empty()
        && !r.staged_unavailable)
    &&& r.ok == (r.writable.deep_view().len() == 0 && r.staged_violations.deep_view().len() == 0
        && !r.staged_unavailable)
}

/// Runs the `check` command's judgement: it fails exactly when some
/// protected file is writable, or — in a git context — when some staged
/// path matches a protection pattern or the staging area could not be
/// queried at all.
pub fn do_check(
    files: &Vec<ProtectedFile>,
    staged: Option<&Vec<String>>,
    patterns: &Vec<String>,
    context: &Context,
) -> (r: CheckReport)
    ensures
        check_report_ok(
            r,
            files_view(files@),
            staged_view(staged),
            patterns.deep_view(),
            *context,
        ),
{
    let writable = writable_list(files);
    let mut staged_violations: Vec<String> = Vec::new();
    let mut staged_unavailable: bool = false;
    let ghost pats = patterns.deep_view();
    if context.is_git() {
        match staged {
            Option::None => {
                staged_unavailable = true;
                proof {
                    assert(staged_violations.deep_view() =~= Seq::<Seq<char>>::empty());
                }
            },
            Option::Some(staged) => {
                let ghost sv = staged.deep_view();
                proof {
                    reveal(Seq::filter);
                    assert(staged_violations.deep_view() =~= sv.subrange(0, 0).filter(
                        staged_pred(pats),
                    ));
                }
                let n = staged.len();
                let mut i: usize = 0;
                while i < n
                    invariant
                        n == staged.len(),
                        sv == staged.deep_view(),
                        pats == patterns.deep_view(),
                        0 <= i <= n,
                        staged_violations.deep_view() == sv.subrange(0, i as int).filter(
                            staged_pred(pats),
                        ),
                    decreases n - i,
                {
                    let hit = any_pattern_matches(patterns, staged[i].as_str());
                    proof {
                        reveal(Seq::filter);
                        let pre = sv.subrange(0, i as int);
                        let pre1 = sv.subrange(0, i as int + 1);
                        assert(pre1.drop_last() =~= pre);
                        assert(sv[i as int] == staged[i as int]@);
                        assert(pre1.last() == sv[i as int]);
                    }
                    if hit {
                        let ghost before = staged_violations.deep_view();
                        staged_violations.push(staged[i].clone());
                        proof {
                            assert(staged_violations.deep_view() =~= before.push(sv[i as int]));
                        }
                    }
                    i = i + 1;
                }
                proof {
                    assert(sv.subrange(0, n as int) =~= sv);
                }
            },
        }
    } else {
        proof {
            assert(staged_violations.deep_view() =~= Seq::<Seq<char>>::empty());
        }
    }
    let ok = writable.len() == 0 && staged_violations.len() == 0 && !staged_unavailable;
    CheckReport { writable, staged_violations, staged_unavailable, ok }
}

/// The verdict of the push-time check: it ignores nothing — a disabled
/// protection blocks the push until protection is re-enabled.
#[derive(Clone, Copy, Debug, PartialEq, Eq, Structural)]
pub enum CheckPushVerdict {
    /// No git repository: the command is meaningless here.
    NotGit,
    /// Protection is disabled: the push is blocked.
    BlockedDisabled,
    /// Protection is enabled: the push may proceed.
    Allowed,
}

/// Judges the push-time check from the `enabled` flag and the context.
/// The flag cannot be bypassed from inside the tree: a disabled state
/// still blocks the push.
pub fn do_check_push(enabled: bool, context: &Context) -> (v: CheckPushVerdict)
    ensures
        (v == CheckPushVerdict::NotGit) == !(*context is Git),
        (v == CheckPushVerdict::BlockedDisabled) == (*context is Git && !enabled),
        (v == CheckPushVerdict::Allowed) == (*context is Git && enabled),
{
    if !context.is_git() {
        CheckPushVerdict::NotGit
    } else if !enabled {
        CheckPushVerdict::BlockedDisabled
    } else {
        CheckPushVerdict::Allowed
    }
}

/// What `enable` does: rewrite the flag, then re-lock what is writable.
pub struct EnableReport {
    /// The configuration document rewritten with `enabled = true`.
    pub new_config_text: String,
    /// The writable protected files, to be locked, in order.
    pub to_lock: Vec<String>,
    /// The configuration document is writable and will be locked too.
    pub lock_config: bool,
}

/// An enable report is exact for the given document, listing and bit.
pub open spec fn enable_report_ok(
    r: EnableReport,
    doc: Seq<char>,
    fv: Seq<(Seq<char>, bool)>,
    config_readonly: bool,
) -> bool {
    &&& r.new_config_text@ == set_enabled_doc(doc, true)
    &&& r.to_lock.deep_view() == writable_paths(fv)
    &&& r.lock_config == !config_readonly
}

/// Plans the `enable` command: the document's flag is rewritten to true —
/// leaving every other line untouched — and every currently writable
/// protected file is re-locked, along with the document itself.
pub fn do_enable(files: &Vec<ProtectedFile>, config_text: &str, config_readonly: bool) -> (r:
    EnableReport)
    ensures
        enable_report_ok(r, config_text@, files_view(files@), config_readonly),
{
    let new_config_text = set_enabled_text(config_text, true);
    let plan = do_lock(files, config_readonly);
    EnableReport { new_config_text, to_lock: plan.to_lock, lock_config: plan.lock_config }
}

/// What `disable` does: unlock the document, rewrite the flag, then
/// unlock every read-only protected file.
pub struct DisableReport {
    /// The configuration document is read-only and must be unlocked before
    /// the rewrite.
    pub unlock_config_first: bool,
    /// The configuration document rewritten with `enabled = false`.
    pub new_config_text: String,
    /// The read-only protected files, to be unlocked, in order.
    pub to_unlock: Vec<String>,
}

/// A disable report is exact for the given document, listing and bit.
pub open spec fn disable_report_ok(
    r: DisableReport,
    doc: Seq<char>,
    fv: Seq<(Seq<char>, bool)>,
    config_readonly: bool,
) -> bool {
    &&& r.unlock_config_first == config_readonly
    &&& r.new_config_text@ == set_enabled_doc(doc, false)
    &&& r.to_unlock.deep_view() == readonly_paths(fv)
}

/// Plans the `disable` command: the document's flag is rewritten to false
/// and every currently read-only protected file is unlocked. The disabled
/// state still blocks the push-time check until protection is re-enabled.
pub fn do_disable(files: &Vec<ProtectedFile>, config_text: &str, config_readonly: bool) -> (r:
    DisableReport)
    ensures
        disable_report_ok(r, config_text@, files_view(files@), config_readonly),
{
    let new_config_text = set_enabled_text(config_text, false);
    let plan = do_unlock(files, config_readonly);
    DisableReport {
        unlock_config_first: config_readonly,
        new_config_text,
        to_unlock: plan.to_unlock,
    }
}

/// What `status` shows: the derived state echoed back for display —
/// protection flag, context, configured patterns, and the discovered
/// protected files with their probed permission bits.
pub struct StatusReport {
    pub enabled: bool,
    pub context: Context,
    pub patterns: Vec<String>,
    pub files: Vec<ProtectedFile>,
}

/// A status report echoes the derived state exactly.
pub open spec fn status_report_ok(
    r: StatusReport,
    enabled: bool,
    pats: Seq<Seq<char>>,
    fv: Seq<(Seq<char>, bool)>,
    ctx: Context,
) -> bool {
    &&& r.enabled == enabled
    &&& r.context == ctx
    &&& r.patterns.deep_view() == pats
    &&& files_view(r.files@) == fv
}

/// Reports the derived state: the single source of truth for display, all
/// of it re-derived from disk on this run.
pub fn do_status(
    config: &Config,
    files: &Vec<ProtectedFile>,
    enabled: bool,
    context: &Context,
) -> (r: StatusReport)
    ensures
        status_report_ok(r, enabled, config.patterns.deep_view(), files_view(files@), *context),
{
    let patterns = config.patterns.clone();
    proof {
        broadcast use vstd::std_specs::vec::vec_clone_deep_view_proof;
        assert(patterns.deep_view() =~= config.patterns.deep_view());
    }
    let mut files_c: Vec<ProtectedFile> = Vec::new();
    proof {
        assert(files_view(files_c@) =~= files_view(files@).subrange(0, 0));
    }
    let n = files.len();
    let mut i: usize = 0;
    while i < n
        invariant
            n == files.len(),
            0 <= i <= n,
            files_view(files_c@) == files_view(files@).subrange(0, i as int),
        decreases n - i,
    {
        let ghost before = files_view(files_c@);
        let e = crate::fileset::clone_file(&files[i]);
        files_c.push(e);
        proof {
            assert(files_view(files@)[i as int] == pf_view(files@[i as int]));
            assert(files_view(files_c@) =~= before.push(files_view(files@)[i as int]));
            assert(files_view(files_c@) =~= files_view(files@).subrange(0, i as int + 1));
        }
        i = i + 1;
    }
    proof {
        assert(files_view(files@).subrange(0, n as int) =~= files_view(files@));
    }
    StatusReport { enabled, context: *context, patterns, files: files_c }
}

/// The removal decisions for the five collaborator-instruction files.
pub struct AgentRemovals {
    pub gemini_md: AgentRemoval,
    pub agents_md: AgentRemoval,
    pub cursor_rules: AgentRemoval,
    pub codex_md: AgentRemoval,
    pub copilot_md: AgentRemoval,
}

/// What `remove` does: unlock everything, delete the configuration
/// document, strip the tool from the hook files of a git context, and
/// strip the injected instructions.
pub struct RemoveReport {
    /// The read-only protected files, to be unlocked before removal.
    pub to_unlock: Vec<String>,
    /// The configuration document is read-only and must be unlocked before
    /// it is deleted.
    pub unlock_config: bool,
    /// Removal decisions for the pre-commit and pre-push hook files.
    pub pre_commit: crate::hooks::HookRemoval,
    pub pre_push: crate::hooks::HookRemoval,
    /// Removal decisions for the instruction files.
    pub agents: AgentRemovals,
}

/// A remove report is exact for the derived state and probed contents.
pub open spec fn remove_report_ok(
    r: RemoveReport,
    fv: Seq<(Seq<char>, bool)>,
    config_readonly: bool,
    ctx: Context,
    pre_commit: Option<Seq<char>>,
    pre_push: Option<Seq<char>>,
    agents: crate::inject::AgentFiles,
) -> bool {
    &&& r.to_unlock.deep_view() == readonly_paths(fv)
    &&& r.unlock_config == config_readonly
    &&& (ctx is Git ==> crate::hooks::hook_removal_ok(r.pre_commit, pre_commit)
        && crate::hooks::hook_removal_ok(r.pre_push, pre_push))
    &&& (!(ctx is Git) ==> r.pre_commit.kind is NotPresent && r.pre_push.kind is NotPresent)
    &&& crate::inject::removal_ok(
        r.agents.gemini_md,
        crate::inject::owned_text_view(agents.gemini_md),
        false,
    )
    &&& crate::inject::removal_ok(
        r.agents.agents_md,
        crate::inject::owned_text_view(agents.agents_md),
        false,
    )
    &&& crate::inject::removal_ok(
        r.agents.cursor_rules,
        crate::inject::owned_text_view(agents.cursor_rules),
        true,
    )
    &&& crate::inject::removal_ok(
        r.agents.codex_md,
        crate::inject::owned_text_view(agents.codex_md),
        false,
    )
    &&& crate::inject::removal_ok(
        r.agents.copilot_md,
        crate::inject::owned_text_view(agents.copilot_md),
        false,
    )
}

/// Plans the `remove` command: every read-only protected file is
/// unlocked, the configuration document is unlocked and deleted, the
/// tool's hook snippets are stripped in a git context, and the injected
/// instructions are stripped from the collaborator files.
pub fn do_remove(
    files: &Vec<ProtectedFile>,
    config_readonly: bool,
    context: &Context,
    pre_commit: Option<&String>,
    pre_push: Option<&String>,
    agent_files: &crate::inject::AgentFiles,
) -> (r: RemoveReport)
    ensures
        remove_report_ok(
            r,
            files_view(files@),
            config_readonly,
            *context,
            crate::context::opt_text_view(pre_commit),
            crate::context::opt_text_view(pre_push),
            *agent_files,
        ),
{
    let unlock_plan = do_unlock(files, config_readonly);
    let (pre_commit_r, pre_push_r) = if context.is_git() {
        (crate::hooks::remove_hook_opt(pre_commit), crate::hooks::remove_hook_opt(pre_push))
    } else {
        (
            crate::hooks::HookRemoval {
                kind: crate::hooks::HookRemovalKind::NotPresent,
                content: String::new(),
            },
            crate::hooks::HookRemoval {
                kind: crate::hooks::HookRemovalKind::NotPresent,
                content: String::new(),
            },
        )
    };
    let agents = AgentRemovals {
        gemini_md: crate::inject::remove_agent_file(agent_files.gemini_md.as_ref(), false),
        agents_md: crate::inject::remove_agent_file(agent_files.agents_md.as_ref(), false),
        cursor_rules: crate::inject::remove_agent_file(agent_files.cursor_rules.as_ref(), true),
        codex_md: crate::inject::remove_agent_file(agent_files.codex_md.as_ref(), false),
        copilot_md: crate::inject::remove_agent_file(agent_files.copilot_md.as_ref(), false),
    };
    RemoveReport {
        to_unlock: unlock_plan.to_unlock,
        unlock_config: unlock_plan.unlock_config,
        pre_commit: pre_commit_r,
        pre_push: pre_push_r,
        agents,
    }
}

/// The patterns of the configuration that protect the given file: the
/// explanation the `why` command prints.
pub fn do_why(file: &str, config: &Config) -> (matched: Vec<String>)
    ensures
        matched.deep_view() == config.patterns.deep_view().filter(
            crate::pattern::why_pred(file@),
        ),
{
    matching_patterns(&config.patterns, file)
}

} // verus!
