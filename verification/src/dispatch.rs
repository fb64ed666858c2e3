//! The state machine: one authoritative runtime state derived afresh from
//! the filesystem on every invocation, and a total dispatch of every
//! command against every state. No (command, state) pair is unhandled; a
//! command that is not meaningful in the derived state yields an explicit
//! invalid-for-state result, never a silent default.

use vstd::prelude::*;

use crate::config::Config;
use crate::config::default_config_doc;
use crate::config::default_config_text;
use crate::context::Context;
use crate::fileset::ProtectedFile;
use crate::fileset::files_view;
use crate::inject::AgentFiles;
use crate::inject::InjectReport;
use crate::inject::inject_report_ok;
use crate::inject::owned_text_view;
use crate::ops::CheckPushVerdict;
use crate::ops::CheckReport;
use crate::ops::DisableReport;
use crate::ops::EnableReport;
use crate::ops::LockReport;
use crate::ops::RemoveReport;
use crate::ops::StatusReport;
use crate::ops::UnlockReport;
use crate::ops::check_report_ok;
use crate::ops::disable_report_ok;
use crate::ops::do_check;
use crate::ops::do_check_push;
use crate::ops::do_disable;
use crate::ops::do_enable;
use crate::ops::do_lock;
use crate::ops::do_remove;
use crate::ops::do_status;
use crate::ops::do_unlock;
use crate::ops::do_why;
use crate::ops::enable_report_ok;
use crate::ops::lock_report_ok;
use crate::ops::remove_report_ok;
use crate::ops::status_report_ok;
use crate::ops::unlock_report_ok;
use crate::pattern::why_pred;

verus! {

/// One invocation's command, as parsed by the shell around the engine.
pub enum Command {
    /// Write a default configuration document here.
    Init,
    /// List protected files and their current state.
    Status,
    /// Make all protected files read-only.
    Lock,
    /// Restore write permissions; must run from outside the target tree.
    Unlock { target: String },
    /// Fail when any protected file is writable or staged.
    Check,
    /// The push-time check; cannot be bypassed by disabling protection.
    CheckPush,
    /// Turn protection off; must run from outside the target tree.
    Disable { target: String },
    /// Turn protection back on and re-lock.
    Enable,
    /// Remove the tool from a tree; must run from outside the target tree.
    Remove { target: String },
    /// Show which patterns protect a given file.
    Why { file: String },
    /// Add the instruction note to collaborator files.
    Inject { dry_run: bool },
}

/// The single authoritative runtime state, re-derived from the
/// configuration document, the live permission bits and the repository
/// context on every invocation. Nothing is cached across runs.
pub enum RuntimeState {
    /// No configuration document could be read.
    Uninitialized,
    /// The document exists and its `enabled` flag is true.
    Enabled { config: Config, files: Vec<ProtectedFile>, context: Context },
    /// The document exists and its `enabled` flag is false.
    Disabled { config: Config, files: Vec<ProtectedFile>, context: Context },
}

/// Composes the parsed configuration, the discovered files and the
/// detected context into the runtime state: `Uninitialized` exactly when
/// no document was read, and otherwise the variant named by the document's
/// `enabled` flag.
pub fn resolve_state(config: Option<Config>, files: Vec<ProtectedFile>, context: Context) -> (s:
    RuntimeState)
    ensures
        (s is Uninitialized) == (config is None),
        match config {
            Option::Some(c) => {
                &&& c.enabled ==> (s matches RuntimeState::Enabled { config: c2, files: f2, context: x2 }
                    && c2.enabled == c.enabled && c2.patterns.deep_view() == c.patterns.deep_view()
                    && files_view(f2@) == files_view(files@) && x2 == context)
                &&& !c.enabled ==> (s matches RuntimeState::Disabled { config: c2, files: f2, context: x2 }
                    && c2.enabled == c.enabled && c2.patterns.deep_view() == c.patterns.deep_view()
                    && files_view(f2@) == files_view(files@) && x2 == context)
            },
            Option::None => s is Uninitialized,
        },
{
    match config {
        Option::None => RuntimeState::Uninitialized,
        Option::Some(c) => {
            if c.enabled {
                RuntimeState::Enabled { config: c, files, context }
            } else {
                RuntimeState::Disabled { config: c, files, context }
            }
        },
    }
}

/// A terminal notice with no further payload.
#[derive(Clone, Copy, Debug, PartialEq, Eq, Structural)]
pub enum Notice {
    /// No configuration document: initialize first.
    NeedInit,
    /// A document already exists: nothing to initialize.
    AlreadyInitialized,
    /// Protection is already enabled.
    AlreadyEnabled,
    /// Protection is already disabled.
    AlreadyDisabled,
    /// Protection is disabled: the check is skipped, benignly.
    CheckSkipped,
    /// Protection is disabled: enable it before locking.
    LockWhileDisabled,
}

/// What `init` writes.
pub struct InitReport {
    /// The default configuration document to write at the root.
    pub config_text: String,
}

/// What `why` found.
pub struct WhyReport {
    /// The configured patterns that protect the file, in order.
    pub matched: Vec<String>,
}

/// The payload of a transition result.
pub enum Report {
    Init(InitReport),
    Status(StatusReport),
    Lock(LockReport),
    Unlock(UnlockReport),
    Check(CheckReport),
    CheckPush(CheckPushVerdict),
    Enable(EnableReport),
    Disable(DisableReport),
    Remove(RemoveReport),
    Why(WhyReport),
    Inject(InjectReport),
    Notice(Notice),
}

/// How a transition ended.
#[derive(Clone, Copy, Debug, PartialEq, Eq, Structural)]
pub enum TransitionKind {
    /// The command did its work, or skipped it benignly.
    Success,
    /// The command is not meaningful in the derived state.
    InvalidForState,
    /// The command ran and found a violation, or could not proceed.
    Failure,
}

/// A terminal transition result: its kind and its payload.
pub struct Transition {
    pub kind: TransitionKind,
    pub report: Report,
}

/// The process exit code for a transition: zero for success or a benign
/// skip, one for any failure or invalid-for-state action.
pub fn exit_code(kind: &TransitionKind) -> (c: i32)
    ensures
        (c == 0) == (*kind is Success),
        c == 0 || c == 1,
{
    if matches!(kind, TransitionKind::Success) {
        0
    } else {
        1
    }
}

/// What the shell probed from the world for this invocation, beside the
/// derived state: the raw configuration text and its permission bit, the
/// staged paths, and the hook and instruction file contents.
pub struct WorldInputs {
    /// The raw text of the configuration document.
    pub config_text: String,
    /// Whether the configuration document is currently read-only.
    pub config_readonly: bool,
    /// Paths in the version-control staging area; nothing when the
    /// staging area could not be queried.
    pub staged: Option<Vec<String>>,
    /// The pre-commit hook file governing the tree, when readable.
    pub pre_commit: Option<String>,
    /// The pre-push hook file governing the tree, when readable.
    pub pre_push: Option<String>,
    /// The contents of the collaborator-instruction files.
    pub agent_files: AgentFiles,
}

/// The view of an owned staging-area query.
pub open spec fn owned_staged_view(staged: Option<Vec<String>>) -> Option<Seq<Seq<char>>> {
    match staged {
        Option::Some(s) => Option::Some(s.deep_view()),
        Option::None => Option::None,
    }
}

/// The transition table against the `Uninitialized` state: `init` writes
/// the default document; every other command directs the user to
/// initialize first.
pub open spec fn uninit_transition_ok(t: Transition, cmd: Command) -> bool {
    match cmd {
        Command::Init => t.kind is Success && (t.report matches Report::Init(r) && r.config_text@
            == default_config_doc()),
        _ => t.kind is InvalidForState && (t.report matches Report::Notice(n)
            && n is NeedInit),
    }
}

/// The transition table against the `Enabled` state.
pub open spec fn enabled_transition_ok(
    t: Transition,
    cmd: Command,
    pats: Seq<Seq<char>>,
    fv: Seq<(Seq<char>, bool)>,
    ctx: Context,
    w: WorldInputs,
) -> bool {
    match cmd {
        Command::Init => t.kind is InvalidForState && (t.report matches Report::Notice(n)
            && n is AlreadyInitialized),
        Command::Status => t.kind is Success && (t.report matches Report::Status(r)
            && status_report_ok(r, true, pats, fv, ctx)),
        Command::Lock => t.kind is Success && (t.report matches Report::Lock(r)
            && lock_report_ok(r, fv, w.config_readonly)),
        Command::Unlock { .. } => t.kind is Success && (t.report matches Report::Unlock(r)
            && unlock_report_ok(r, fv, w.config_readonly)),
        Command::Check => t.report matches Report::Check(r) && check_report_ok(
            r,
            fv,
            owned_staged_view(w.staged),
            pats,
            ctx,
        ) && t.kind == (if r.ok {
            TransitionKind::Success
        } else {
            TransitionKind::Failure
        }),
        Command::CheckPush => t.report matches Report::CheckPush(v) && ((v
            == CheckPushVerdict::Allowed) == (ctx is Git)) && ((v == CheckPushVerdict::NotGit)
            == !(ctx is Git)) && t.kind == (if ctx is Git {
            TransitionKind::Success
        } else {
            TransitionKind::Failure
        }),
        Command::Enable => t.kind is Success && (t.report matches Report::Notice(n)
            && n is AlreadyEnabled),
        Command::Disable { .. } => t.kind is Success && (t.report matches Report::Disable(r)
            && disable_report_ok(r, w.config_text@, fv, w.config_readonly)),
        Command::Remove { .. } => t.kind is Success && (t.report matches Report::Remove(r)
            && remove_report_ok(
            r,
            fv,
            w.config_readonly,
            ctx,
            owned_text_view(w.pre_commit),
            owned_text_view(w.pre_push),
            w.agent_files,
        )),
        Command::Why { file } => t.kind is Success && (t.report matches Report::Why(r)
            && r.matched.deep_view() == pats.filter(why_pred(file@))),
        Command::Inject { dry_run } => t.kind is Success && (t.report matches Report::Inject(r)
            && inject_report_ok(r, w.agent_files, dry_run)),
    }
}

/// The transition table against the `Disabled` state: `lock` is refused,
/// `check` is skipped benignly, and the push-time check still blocks —
/// protection cannot be weakened further nor bypassed from here.
pub open spec fn disabled_transition_ok(
    t: Transition,
    cmd: Command,
    pats: Seq<Seq<char>>,
    fv: Seq<(Seq<char>, bool)>,
    ctx: Context,
    w: WorldInputs,
) -> bool {
    match cmd {
        Command::Init => t.kind is InvalidForState && (t.report matches Report::Notice(n)
            && n is AlreadyInitialized),
        Command::Status => t.kind is Success && (t.report matches Report::Status(r)
            && status_report_ok(r, false, pats, fv, ctx)),
        Command::Lock => t.kind is InvalidForState && (t.report matches Report::Notice(n)
            && n is LockWhileDisabled),
        Command::Unlock { .. } => t.kind is Success && (t.report matches Report::Unlock(r)
            && unlock_report_ok(r, fv, w.config_readonly)),
        Command::Check => t.kind is Success && (t.report matches Report::Notice(n)
            && n is CheckSkipped),
        Command::CheckPush => t.report matches Report::CheckPush(v) && ((v
            == CheckPushVerdict::BlockedDisabled) == (ctx is Git)) && ((v
            == CheckPushVerdict::NotGit) == !(ctx is Git)) && t.kind is Failure,
        Command::Enable => t.kind is Success && (t.report matches Report::Enable(r)
            && enable_report_ok(r, w.config_text@, fv, w.config_readonly)),
        Command::Disable { .. } => t.kind is Success && (t.report matches Report::Notice(n)
            && n is AlreadyDisabled),
        Command::Remove { .. } => t.kind is Success && (t.report matches Report::Remove(r)
            && remove_report_ok(
            r,
            fv,
            w.config_readonly,
            ctx,
            owned_text_view(w.pre_commit),
            owned_text_view(w.pre_push),
            w.agent_files,
        )),
        Command::Why { file } => t.kind is Success && (t.report matches Report::Why(r)
            && r.matched.deep_view() == pats.filter(why_pred(file@))),
        Command::Inject { dry_run } => t.kind is Success && (t.report matches Report::Inject(r)
            && inject_report_ok(r, w.agent_files, dry_run)),
    }
}

/// Dispatches a command against the `Enabled` state.
pub fn dispatch_enabled(
    cmd: &Command,
    config: &Config,
    files: &Vec<ProtectedFile>,
    context: &Context,
    world: &WorldInputs,
) -> (t: Transition)
    ensures
        enabled_transition_ok(
            t,
            *cmd,
            config.patterns.deep_view(),
            files_view(files@),
            *context,
            *world,
        ),
{
    match cmd {
        Command::Init => Transition {
            kind: TransitionKind::InvalidForState,
            report: Report::Notice(Notice::AlreadyInitialized),
        },
        Command::Status => Transition {
            kind: TransitionKind::Success,
            report: Report::Status(do_status(config, files, true, context)),
        },
        Command::Lock => Transition {
            kind: TransitionKind::Success,
            report: Report::Lock(do_lock(files, world.config_readonly)),
        },
        Command::Unlock { .. } => Transition {
            kind: TransitionKind::Success,
            report: Report::Unlock(do_unlock(files, world.config_readonly)),
        },
        Command::Check => {
            let r = do_check(files, world.staged.as_ref(), &config.patterns, context);
            let kind = if r.ok {
                TransitionKind::Success
            } else {
                TransitionKind::Failure
            };
            Transition { kind, report: Report::Check(r) }
        },
        Command::CheckPush => {
            let v = do_check_push(true, context);
            let kind = if matches!(v, CheckPushVerdict::Allowed) {
                TransitionKind::Success
            } else {
                TransitionKind::Failure
            };
            Transition { kind, report: Report::CheckPush(v) }
        },
        Command::Enable => Transition {
            kind: TransitionKind::Success,
            report: Report::Notice(Notice::AlreadyEnabled),
        },
        Command::Disable { .. } => Transition {
            kind: TransitionKind::Success,
            report: Report::Disable(
                do_disable(files, world.config_text.as_str(), world.config_readonly),
            ),
        },
        Command::Remove { .. } => Transition {
            kind: TransitionKind::Success,
            report: Report::Remove(
                do_remove(
                    files,
                    world.config_readonly,
                    context,
                    world.pre_commit.as_ref(),
                    world.pre_push.as_ref(),
                    &world.agent_files,
                ),
            ),
        },
        Command::Why { file } => Transition {
            kind: TransitionKind::Success,
            report: Report::Why(WhyReport { matched: do_why(file.as_str(), config) }),
        },
        Command::Inject { dry_run } => Transition {
            kind: TransitionKind::Success,
            report: Report::Inject(crate::inject::do_inject(&world.agent_files, *dry_run)),
        },
    }
}

/// Dispatches a command against the `Disabled` state.
pub fn dispatch_disabled(
    cmd: &Command,
    config: &Config,
    files: &Vec<ProtectedFile>,
    context: &Context,
    world: &WorldInputs,
) -> (t: Transition)
    ensures
        disabled_transition_ok(
            t,
            *cmd,
            config.patterns.deep_view(),
            files_view(files@),
            *context,
            *world,
        ),
{
    match cmd {
        Command::Init => Transition {
            kind: TransitionKind::InvalidForState,
            report: Report::Notice(Notice::AlreadyInitialized),
        },
        Command::Status => Transition {
            kind: TransitionKind::Success,
            report: Report::Status(do_status(config, files, false, context)),
        },
        Command::Lock => Transition {
            kind: TransitionKind::InvalidForState,
            report: Report::Notice(Notice::LockWhileDisabled),
        },
        Command::Unlock { .. } => Transition {
            kind: TransitionKind::Success,
            report: Report::Unlock(do_unlock(files, world.config_readonly)),
        },
        Command::Check => Transition {
            kind: TransitionKind::Success,
            report: Report::Notice(Notice::CheckSkipped),
        },
        Command::CheckPush => {
            let v = do_check_push(false, context);
            Transition { kind: TransitionKind::Failure, report: Report::CheckPush(v) }
        },
        Command::Enable => Transition {
            kind: TransitionKind::Success,
            report: Report::Enable(
                do_enable(files, world.config_text.as_str(), world.config_readonly),
            ),
        },
        Command::Disable { .. } => Transition {
            kind: TransitionKind::Success,
            report: Report::Notice(Notice::AlreadyDisabled),
        },
        Command::Remove { .. } => Transition {
            kind: TransitionKind::Success,
            report: Report::Remove(
                do_remove(
                    files,
                    world.config_readonly,
                    context,
                    world.pre_commit.as_ref(),
                    world.pre_push.as_ref(),
                    &world.agent_files,
                ),
            ),
        },
        Command::Why { file } => Transition {
            kind: TransitionKind::Success,
            report: Report::Why(WhyReport { matched: do_why(file.as_str(), config) }),
        },
        Command::Inject { dry_run } => Transition {
            kind: TransitionKind::Success,
            report: Report::Inject(crate::inject::do_inject(&world.agent_files, *dry_run)),
        },
    }
}

/// Executes one command against the derived state: the total transition
/// table of the engine. Every (command, state) pair is handled here or in
/// the two dispatch tables it delegates to.
pub fn execute(state: &RuntimeState, cmd: &Command, world: &WorldInputs) -> (t: Transition)
    ensures
        state is Uninitialized ==> uninit_transition_ok(t, *cmd),
        state matches RuntimeState::Enabled { config, files, context }
            ==> enabled_transition_ok(
            t,
            *cmd,
            config.patterns.deep_view(),
            files_view(files@),
            *context,
            *world,
        ),
        state matches RuntimeState::Disabled { config, files, context }
            ==> disabled_transition_ok(
            t,
            *cmd,
            config.patterns.deep_view(),
            files_view(files@),
            *context,
            *world,
        ),
{
    match state {
        RuntimeState::Uninitialized => match cmd {
            Command::Init => Transition {
                kind: TransitionKind::Success,
                report: Report::Init(InitReport { config_text: default_config_text() }),
            },
            _ => Transition {
                kind: TransitionKind::InvalidForState,
                report: Report::Notice(Notice::NeedInit),
            },
        },
        RuntimeState::Enabled { config, files, context } => dispatch_enabled(
            cmd,
            config,
            files,
            context,
            world,
        ),
        RuntimeState::Disabled { config, files, context } => dispatch_disabled(
            cmd,
            config,
            files,
            context,
            world,
        ),
    }
}

} // verus!
