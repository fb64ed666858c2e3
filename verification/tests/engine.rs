use donttouch::config::Config;
use donttouch::context::Context;
use donttouch::dispatch::Command;
use donttouch::dispatch::Notice;
use donttouch::dispatch::Report;
use donttouch::dispatch::RuntimeState;
use donttouch::dispatch::Transition;
use donttouch::dispatch::TransitionKind;
use donttouch::dispatch::WorldInputs;
use donttouch::dispatch::execute;
use donttouch::dispatch::exit_code;
use donttouch::dispatch::resolve_state;
use donttouch::fileset::ProtectedFile;
use donttouch::fileset::discover_files;
use donttouch::inject::AgentFiles;
use donttouch::ops::CheckPushVerdict;
use donttouch::ops::do_check;
use donttouch::ops::do_check_push;
use donttouch::ops::do_disable;
use donttouch::ops::do_enable;
use donttouch::ops::do_lock;
use donttouch::ops::do_status;
use donttouch::ops::do_unlock;

fn entry(path: &str, readonly: bool) -> ProtectedFile {
    ProtectedFile { path: path.to_string(), readonly }
}

fn no_agents() -> AgentFiles {
    AgentFiles {
        gemini_md: None,
        agents_md: None,
        cursor_rules: None,
        codex_md: None,
        copilot_md: None,
    }
}

fn world() -> WorldInputs {
    WorldInputs {
        config_text: "[protect]\nenabled = true\npatterns = []\n".to_string(),
        config_readonly: false,
        staged: Some(Vec::new()),
        pre_commit: None,
        pre_push: None,
        agent_files: no_agents(),
    }
}

fn config(patterns: &[&str], enabled: bool) -> Config {
    Config { patterns: patterns.iter().map(|p| p.to_string()).collect(), enabled }
}

fn run(state: &RuntimeState, cmd: Command) -> Transition {
    execute(state, &cmd, &world())
}

#[test]
fn protect_lock_check_scenario() {
    // Two protected writable files and an unrelated one.
    let patterns = vec![".env".to_string(), "secrets/**".to_string()];
    let tree = vec![
        entry(".env", false),
        entry("secrets/a.txt", false),
        entry("readme.md", false),
    ];
    let files = discover_files(&tree, &patterns);

    // Status lists the two protected files, both writable.
    let cfg = config(&[".env", "secrets/**"], true);
    let ctx = Context::Plain;
    let status = do_status(&cfg, &files, true, &ctx);
    assert_eq!(status.files.len(), 2);
    assert!(status.files.iter().all(|f| !f.readonly));

    // Lock names exactly the two protected files; readme.md is untouched.
    let lock = do_lock(&files, false);
    assert_eq!(lock.to_lock, vec![".env".to_string(), "secrets/a.txt".to_string()]);
    assert!(lock.lock_config);
    assert_eq!(lock.already_files, 0);

    // With both files read-only the check passes.
    let locked = vec![entry(".env", true), entry("secrets/a.txt", true)];
    let staged: Vec<String> = Vec::new();
    let check = do_check(&locked, Some(&staged), &cfg.patterns, &ctx);
    assert!(check.ok);
    assert!(check.writable.is_empty());

    // A new writable file under secrets/ fails the check until locked again.
    let tree2 = vec![
        entry(".env", true),
        entry("secrets/a.txt", true),
        entry("secrets/b.txt", false),
        entry("readme.md", false),
    ];
    let files2 = discover_files(&tree2, &patterns);
    let check2 = do_check(&files2, Some(&staged), &cfg.patterns, &ctx);
    assert!(!check2.ok);
    assert_eq!(check2.writable, vec!["secrets/b.txt".to_string()]);
    let lock2 = do_lock(&files2, true);
    assert_eq!(lock2.to_lock, vec!["secrets/b.txt".to_string()]);
    assert_eq!(lock2.already_files, 2);
    let relocked = vec![
        entry(".env", true),
        entry("secrets/a.txt", true),
        entry("secrets/b.txt", true),
    ];
    assert!(do_check(&relocked, Some(&staged), &cfg.patterns, &ctx).ok);
}

#[test]
fn disabled_check_skips_but_push_still_blocks() {
    let ctx = Context::Git { has_husky: false, hooks_installed: true };
    let files = vec![entry(".env", false)];
    let state = resolve_state(Some(config(&[".env"], false)), files, ctx);

    // Check is a benign skipped success even though a file is writable.
    let t = run(&state, Command::Check);
    assert!(matches!(t.kind, TransitionKind::Success));
    assert!(matches!(t.report, Report::Notice(Notice::CheckSkipped)));
    assert_eq!(exit_code(&t.kind), 0);

    // The push-time check still fails, regardless of the flag.
    let t = run(&state, Command::CheckPush);
    assert!(matches!(t.kind, TransitionKind::Failure));
    assert!(matches!(t.report, Report::CheckPush(CheckPushVerdict::BlockedDisabled)));
    assert_eq!(exit_code(&t.kind), 1);

    // After enable, the push-time check passes.
    assert!(matches!(
        do_check_push(true, &ctx),
        CheckPushVerdict::Allowed
    ));
}

#[test]
fn uninitialized_accepts_only_init() {
    let state = RuntimeState::Uninitialized;
    let t = run(&state, Command::Init);
    assert!(matches!(t.kind, TransitionKind::Success));
    match t.report {
        Report::Init(r) => assert!(r.config_text.contains("[protect]\nenabled = true")),
        _ => panic!("expected an init report"),
    }
    let t = run(&state, Command::Status);
    assert!(matches!(t.kind, TransitionKind::InvalidForState));
    assert!(matches!(t.report, Report::Notice(Notice::NeedInit)));
    let t = run(&state, Command::Lock);
    assert!(matches!(t.kind, TransitionKind::InvalidForState));
}

#[test]
fn init_refused_once_initialized() {
    let state = resolve_state(Some(config(&[], true)), Vec::new(), Context::Plain);
    let t = run(&state, Command::Init);
    assert!(matches!(t.kind, TransitionKind::InvalidForState));
    assert!(matches!(t.report, Report::Notice(Notice::AlreadyInitialized)));
}

#[test]
fn lock_refused_while_disabled() {
    let state = resolve_state(Some(config(&[".env"], false)), vec![entry(".env", false)], Context::Plain);
    let t = run(&state, Command::Lock);
    assert!(matches!(t.kind, TransitionKind::InvalidForState));
    assert!(matches!(t.report, Report::Notice(Notice::LockWhileDisabled)));
}

#[test]
fn enable_and_disable_are_noops_when_already_set() {
    let enabled = resolve_state(Some(config(&[], true)), Vec::new(), Context::Plain);
    let t = run(&enabled, Command::Enable);
    assert!(matches!(t.kind, TransitionKind::Success));
    assert!(matches!(t.report, Report::Notice(Notice::AlreadyEnabled)));

    let disabled = resolve_state(Some(config(&[], false)), Vec::new(), Context::Plain);
    let t = run(&disabled, Command::Disable { target: "x".to_string() });
    assert!(matches!(t.kind, TransitionKind::Success));
    assert!(matches!(t.report, Report::Notice(Notice::AlreadyDisabled)));
}

#[test]
fn check_push_requires_git() {
    assert!(matches!(do_check_push(true, &Context::Plain), CheckPushVerdict::NotGit));
    assert!(matches!(do_check_push(false, &Context::Plain), CheckPushVerdict::NotGit));
}

#[test]
fn check_flags_staged_protected_files() {
    let ctx = Context::Git { has_husky: false, hooks_installed: true };
    let patterns = vec![".env".to_string()];
    let files = vec![entry(".env", true)];
    let staged = vec![".env".to_string(), "src/main.rs".to_string()];
    let r = do_check(&files, Some(&staged), &patterns, &ctx);
    assert!(!r.ok);
    assert_eq!(r.staged_violations, vec![".env".to_string()]);

    // Outside a git context staged files are not considered.
    let r = do_check(&files, Some(&staged), &patterns, &Context::Plain);
    assert!(r.ok);
    assert!(r.staged_violations.is_empty());
}

#[test]
fn check_fails_when_staging_area_cannot_be_queried() {
    let ctx = Context::Git { has_husky: false, hooks_installed: true };
    let patterns = vec![".env".to_string()];
    let files = vec![entry(".env", true)];
    let r = do_check(&files, None, &patterns, &ctx);
    assert!(!r.ok);
    assert!(r.staged_unavailable);
    // Outside a git context the staging area is irrelevant.
    let r = do_check(&files, None, &patterns, &Context::Plain);
    assert!(r.ok);
    assert!(!r.staged_unavailable);
}

#[test]
fn lock_is_idempotent_on_locked_set() {
    let files = vec![entry(".env", true), entry("b.txt", true)];
    let r = do_lock(&files, true);
    assert!(r.to_lock.is_empty());
    assert!(!r.lock_config);
    assert_eq!(r.already_files, 2);
    assert!(r.config_already);
}

#[test]
fn unlock_restores_exactly_the_locked_files() {
    let before = vec![entry(".env", false), entry("a.txt", true)];
    // Lock everything, as the lock command would.
    let locked: Vec<ProtectedFile> = before
        .iter()
        .map(|f| entry(f.path.as_str(), true))
        .collect();
    let r = do_unlock(&locked, true);
    assert_eq!(r.to_unlock, vec![".env".to_string(), "a.txt".to_string()]);
    assert!(r.unlock_config);
    // Unlocking the already-writable set names nothing.
    let writable: Vec<ProtectedFile> = before
        .iter()
        .map(|f| entry(f.path.as_str(), false))
        .collect();
    let r2 = do_unlock(&writable, false);
    assert!(r2.to_unlock.is_empty());
    assert!(!r2.unlock_config);
}

#[test]
fn enable_relocks_and_disable_unlocks() {
    let doc = "[protect]\nenabled = true\npatterns = [\n    \".env\",\n]\n";
    let files = vec![entry(".env", true), entry("notes.txt", false)];
    let dis = do_disable(&files, doc, true);
    assert!(dis.unlock_config_first);
    assert!(dis.new_config_text.contains("enabled = false"));
    assert_eq!(dis.to_unlock, vec![".env".to_string()]);

    let after_disable = vec![entry(".env", false), entry("notes.txt", false)];
    let en = do_enable(&after_disable, dis.new_config_text.as_str(), false);
    assert_eq!(en.new_config_text, doc);
    assert_eq!(en.to_lock, vec![".env".to_string(), "notes.txt".to_string()]);
    assert!(en.lock_config);
}

#[test]
fn resolve_state_follows_the_flag() {
    assert!(matches!(resolve_state(None, Vec::new(), Context::Plain), RuntimeState::Uninitialized));
    assert!(matches!(
        resolve_state(Some(config(&[], true)), Vec::new(), Context::Plain),
        RuntimeState::Enabled { .. }
    ));
    assert!(matches!(
        resolve_state(Some(config(&[], false)), Vec::new(), Context::Plain),
        RuntimeState::Disabled { .. }
    ));
}
