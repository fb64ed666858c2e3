use donttouch::hooks::HookActionKind;
use donttouch::hooks::HookRemovalKind;
use donttouch::hooks::hook_paths;
use donttouch::hooks::install_git_hooks;
use donttouch::hooks::install_hook_file;
use donttouch::hooks::install_husky_hooks;
use donttouch::hooks::remove_hook_file;
use donttouch::inject::AgentFiles;
use donttouch::inject::AgentRemovalKind;
use donttouch::inject::InjectKind;
use donttouch::inject::agent_target_paths;
use donttouch::inject::do_inject;
use donttouch::inject::inject_file_action;
use donttouch::inject::remove_agent_file;

const SNIPPET_PRE_COMMIT: &str = "\n# donttouch pre-commit hook\nif command -v donttouch >/dev/null 2>&1; then\n    donttouch check\nfi\n";

#[test]
fn hook_create_writes_shebang_and_snippet() {
    let a = install_hook_file(None, "pre-commit", "donttouch check");
    assert!(matches!(a.kind, HookActionKind::Create));
    assert_eq!(a.content, format!("#!/bin/sh\n{SNIPPET_PRE_COMMIT}"));
}

#[test]
fn hook_append_keeps_existing_content() {
    let existing = "#!/bin/sh\nnpm test\n".to_string();
    let a = install_hook_file(Some(&existing), "pre-commit", "donttouch check");
    assert!(matches!(a.kind, HookActionKind::Append));
    assert_eq!(a.content, format!("#!/bin/sh\nnpm test\n{SNIPPET_PRE_COMMIT}"));
}

#[test]
fn hook_install_is_idempotent() {
    let first = install_hook_file(None, "pre-commit", "donttouch check");
    let again = install_hook_file(Some(&first.content), "pre-commit", "donttouch check");
    assert!(matches!(again.kind, HookActionKind::AlreadyInstalled));
    assert_eq!(again.content, first.content);
}

#[test]
fn hook_paths_follow_context() {
    let (pc, pp) = hook_paths(true);
    assert_eq!(pc, ".husky/pre-commit");
    assert_eq!(pp, ".husky/pre-push");
    let (pc, pp) = hook_paths(false);
    assert_eq!(pc, ".git/hooks/pre-commit");
    assert_eq!(pp, ".git/hooks/pre-push");
}

#[test]
fn both_hooks_get_their_commands() {
    let (pc, pp) = install_git_hooks(None, None);
    assert!(pc.content.contains("donttouch check\n"));
    assert!(pp.content.contains("donttouch check-push\n"));
    let (hc, hp) = install_husky_hooks(None, None);
    assert_eq!(hc.content, pc.content);
    assert_eq!(hp.content, pp.content);
}

#[test]
fn hook_removal_strips_block_and_keeps_rest() {
    let existing = "#!/bin/sh\nnpm test\n".to_string();
    let a = install_hook_file(Some(&existing), "pre-commit", "donttouch check");
    let r = remove_hook_file(a.content.as_str());
    assert!(matches!(r.kind, HookRemovalKind::Rewrite));
    assert_eq!(r.content, "#!/bin/sh\nnpm test\n\n");
}

#[test]
fn hook_removal_deletes_tool_only_file() {
    let a = install_hook_file(None, "pre-commit", "donttouch check");
    let r = remove_hook_file(a.content.as_str());
    assert!(matches!(r.kind, HookRemovalKind::Delete));
}

#[test]
fn hook_removal_leaves_unrelated_files_alone() {
    let r = remove_hook_file("#!/bin/sh\nnpm test\n");
    assert!(matches!(r.kind, HookRemovalKind::NotPresent));
}

#[test]
fn agent_allowlist_is_fixed() {
    let paths = agent_target_paths();
    assert_eq!(
        paths,
        vec![
            "GEMINI.md".to_string(),
            "AGENTS.md".to_string(),
            ".cursor/rules/donttouch.mdc".to_string(),
            "codex.md".to_string(),
            ".github/copilot-instructions.md".to_string(),
        ]
    );
}

#[test]
fn inject_appends_marker_line_once() {
    let existing = "# Project notes\n".to_string();
    let a = inject_file_action(Some(&existing), false);
    assert!(matches!(a.kind, InjectKind::Append));
    assert!(a.content.starts_with("# Project notes\n\n<!-- donttouch:managed -->"));
    assert!(a.content.ends_with("\n"));
    let again = inject_file_action(Some(&a.content), false);
    assert!(matches!(again.kind, InjectKind::AlreadyInjected));
}

#[test]
fn inject_separates_with_blank_line_when_no_trailing_newline() {
    let existing = "# Project notes".to_string();
    let a = inject_file_action(Some(&existing), false);
    assert!(matches!(a.kind, InjectKind::Append));
    assert!(a.content.starts_with("# Project notes\n\n<!-- donttouch:managed -->"));
}

#[test]
fn inject_creates_only_the_cursor_file() {
    let create = inject_file_action(None, true);
    assert!(matches!(create.kind, InjectKind::Create));
    assert!(create.content.starts_with("---\ndescription: donttouch file protection\n---\n"));
    assert!(create.content.contains("<!-- donttouch:managed -->"));
    let skip = inject_file_action(None, false);
    assert!(matches!(skip.kind, InjectKind::SkipMissing));
}

#[test]
fn inject_run_counts_actions() {
    let files = AgentFiles {
        gemini_md: Some("# Notes\n".to_string()),
        agents_md: None,
        cursor_rules: None,
        codex_md: Some("<!-- donttouch:managed --> already here\n".to_string()),
        copilot_md: None,
    };
    let r = do_inject(&files, false);
    assert!(matches!(r.gemini_md.kind, InjectKind::Append));
    assert!(matches!(r.agents_md.kind, InjectKind::SkipMissing));
    assert!(matches!(r.cursor_rules.kind, InjectKind::Create));
    assert!(matches!(r.codex_md.kind, InjectKind::AlreadyInjected));
    assert!(matches!(r.copilot_md.kind, InjectKind::SkipMissing));
    assert_eq!(r.injected, 2);
    assert_eq!(r.skipped, 1);
    assert!(!r.dry_run);
    let dry = do_inject(&files, true);
    assert_eq!(dry.injected, 2);
    assert!(dry.dry_run);
}

#[test]
fn inject_twice_is_byte_identical() {
    let existing = "# Project notes\n".to_string();
    let once = inject_file_action(Some(&existing), false);
    let twice = inject_file_action(Some(&once.content), false);
    assert!(matches!(twice.kind, InjectKind::AlreadyInjected));
}

#[test]
fn remove_strips_every_marker_line() {
    let existing = "# Project notes\n".to_string();
    let a = inject_file_action(Some(&existing), false);
    let r = remove_agent_file(Some(&a.content), false);
    assert!(matches!(r.kind, AgentRemovalKind::Rewrite));
    assert_eq!(r.content, "# Project notes\n");
    assert!(!r.content.contains("<!-- donttouch:managed -->"));
}

#[test]
fn remove_deletes_tool_created_cursor_file() {
    let a = inject_file_action(None, true);
    let r = remove_agent_file(Some(&a.content), true);
    assert!(matches!(r.kind, AgentRemovalKind::DeleteFile));
}

#[test]
fn remove_skips_files_without_marker() {
    let content = "# Plain file\n".to_string();
    let r = remove_agent_file(Some(&content), false);
    assert!(matches!(r.kind, AgentRemovalKind::NotPresent));
    let r2 = remove_agent_file(None, false);
    assert!(matches!(r2.kind, AgentRemovalKind::NotPresent));
}
