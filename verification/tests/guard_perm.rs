use donttouch::context::Context;
use donttouch::guard::GuardVerdict;
use donttouch::guard::assert_outside;
use donttouch::perm::is_readonly_mode;
use donttouch::perm::lock_mode;
use donttouch::perm::make_executable;
use donttouch::perm::unlock_mode;
use donttouch::text::split_lines;
use donttouch::text::str_lex_le;
use donttouch::text::text_contains;
use donttouch::text::trim_slice;

#[test]
fn guard_refuses_cwd_equal_to_target() {
    let v = assert_outside("/home/user/project", "/home/user/project", true);
    assert!(matches!(v, GuardVerdict::InsideTarget));
}

#[test]
fn guard_refuses_cwd_nested_in_target() {
    let v = assert_outside("/home/user/project", "/home/user/project/src/deep", true);
    assert!(matches!(v, GuardVerdict::InsideTarget));
}

#[test]
fn guard_allows_sibling_and_ancestor() {
    let v = assert_outside("/home/user/project", "/home/user/other", true);
    assert!(matches!(v, GuardVerdict::Allowed));
    let v = assert_outside("/home/user/project", "/home/user", true);
    assert!(matches!(v, GuardVerdict::Allowed));
    // A sibling whose name extends the target's is not inside it.
    let v = assert_outside("/home/user/project", "/home/user/project2", true);
    assert!(matches!(v, GuardVerdict::Allowed));
}

#[test]
fn guard_handles_filesystem_root_target() {
    let v = assert_outside("/", "/home/user", true);
    assert!(matches!(v, GuardVerdict::InsideTarget));
}

#[test]
fn guard_requires_a_configuration() {
    let v = assert_outside("/home/user/project", "/tmp", false);
    assert!(matches!(v, GuardVerdict::NoConfig));
}

#[test]
fn lock_clears_every_write_bit() {
    assert_eq!(lock_mode(0o777), 0o555);
    assert_eq!(lock_mode(0o644), 0o444);
    assert!(is_readonly_mode(lock_mode(0o666)));
}

#[test]
fn unlock_restores_owner_write_only() {
    assert_eq!(unlock_mode(0o444), 0o644);
    assert_eq!(unlock_mode(0o555), 0o755);
    assert!(!is_readonly_mode(unlock_mode(0o400)));
}

#[test]
fn readonly_means_no_owner_write() {
    assert!(is_readonly_mode(0o444));
    assert!(!is_readonly_mode(0o644));
}

#[test]
fn hook_files_become_executable() {
    assert_eq!(make_executable(), 0o755);
}

#[test]
fn detect_requires_git_directory() {
    assert!(matches!(Context::detect(false, false, false, None, None), Context::Plain));
    assert!(matches!(Context::detect(true, true, true, None, None), Context::Plain));
}

#[test]
fn detect_reads_the_governing_hook() {
    let husky_hook = "npx donttouch check\n".to_string();
    let c = Context::detect(false, true, true, Some(&husky_hook), None);
    assert!(matches!(c, Context::Git { has_husky: true, hooks_installed: true }));
    let git_hook = "#!/bin/sh\nnpm test\n".to_string();
    let c = Context::detect(false, true, false, None, Some(&git_hook));
    assert!(matches!(c, Context::Git { has_husky: false, hooks_installed: false }));
    // With Husky present, git's own hook is not consulted.
    let c = Context::detect(false, true, true, None, Some(&husky_hook));
    assert!(matches!(c, Context::Git { has_husky: true, hooks_installed: false }));
    assert!(c.is_git());
}

#[test]
fn text_utilities_behave() {
    assert!(text_contains("hello world", "lo wo"));
    assert!(!text_contains("hello", "world"));
    assert!(text_contains("abc", ""));
    assert_eq!(trim_slice("  a b \t"), "a b");
    assert_eq!(split_lines("a\nb\n"), vec!["a".to_string(), "b".to_string()]);
    assert_eq!(split_lines("a\n\nb"), vec!["a".to_string(), String::new(), "b".to_string()]);
    assert!(split_lines("").is_empty());
    assert!(str_lex_le("a", "b"));
    assert!(str_lex_le("a", "ab"));
    assert!(!str_lex_le("b", "ab"));
    assert!(str_lex_le("a", "a"));
}
