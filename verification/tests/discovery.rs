use donttouch::fileset::ProtectedFile;
use donttouch::fileset::discover_files;
use donttouch::fileset::infra_test;
use donttouch::fileset::protected_test;
use donttouch::pattern::any_pattern_matches;
use donttouch::pattern::compile_patterns;
use donttouch::pattern::matching_patterns;
use donttouch::pattern::pattern_compiles;

fn entry(path: &str, readonly: bool) -> ProtectedFile {
    ProtectedFile { path: path.to_string(), readonly }
}

fn paths(files: &[ProtectedFile]) -> Vec<String> {
    files.iter().map(|f| f.path.clone()).collect()
}

#[test]
fn invalid_patterns_are_dropped_not_fatal() {
    let raw = vec!["[".to_string(), "*.md".to_string(), "a[".to_string()];
    let valid = compile_patterns(&raw);
    assert_eq!(valid, vec!["*.md".to_string()]);
}

#[test]
fn pattern_compiles_accepts_and_rejects() {
    assert!(pattern_compiles("secrets/**"));
    assert!(pattern_compiles(".env"));
    assert!(!pattern_compiles("["));
}

#[test]
fn matching_distinguishes_files() {
    let patterns = vec!["*.env".to_string(), "secrets/**".to_string()];
    assert!(any_pattern_matches(&patterns, "prod.env"));
    assert!(any_pattern_matches(&patterns, "secrets/a/b.txt"));
    assert!(!any_pattern_matches(&patterns, "readme.md"));
}

#[test]
fn why_lists_only_matching_patterns() {
    let patterns = vec![
        ".env".to_string(),
        "secrets/**".to_string(),
        "[".to_string(),
        "*.env".to_string(),
    ];
    let matched = matching_patterns(&patterns, ".env");
    assert_eq!(matched, vec![".env".to_string(), "*.env".to_string()]);
    let none = matching_patterns(&patterns, "readme.md");
    assert!(none.is_empty());
}

#[test]
fn discover_matches_sorts_and_excludes_infra() {
    let patterns = vec![".env".to_string(), "secrets/**".to_string()];
    let entries = vec![
        entry("secrets/b.txt", false),
        entry("readme.md", false),
        entry(".env", true),
        entry("secrets/a.txt", false),
        entry(".git/secrets/hidden.txt", false),
        entry("node_modules/secrets/dep.txt", false),
    ];
    let found = discover_files(&entries, &patterns);
    assert_eq!(
        paths(&found),
        vec![".env".to_string(), "secrets/a.txt".to_string(), "secrets/b.txt".to_string()]
    );
    assert!(found[0].readonly);
    assert!(!found[1].readonly);
}

#[test]
fn discover_reports_each_path_once_under_many_patterns() {
    let patterns = vec![".env".to_string(), "*.env".to_string(), "**".to_string()];
    let entries = vec![entry(".env", false), entry("a.txt", false)];
    let found = discover_files(&entries, &patterns);
    assert_eq!(paths(&found), vec![".env".to_string(), "a.txt".to_string()]);
}

#[test]
fn discover_empty_patterns_finds_nothing() {
    let patterns: Vec<String> = Vec::new();
    let entries = vec![entry(".env", false)];
    let found = discover_files(&entries, &patterns);
    assert!(found.is_empty());
}

#[test]
fn infra_components_recognized() {
    assert!(infra_test(".git/config"));
    assert!(infra_test("a/node_modules/b.js"));
    assert!(infra_test("target/debug/x"));
    assert!(infra_test("sub/target"));
    assert!(!infra_test("src/targets/x.rs"));
    assert!(!infra_test("gitignore"));
}

#[test]
fn protected_requires_match_and_no_infra() {
    let patterns = vec!["**".to_string()];
    assert!(protected_test(&patterns, "src/main.rs"));
    assert!(!protected_test(&patterns, ".git/config"));
}
