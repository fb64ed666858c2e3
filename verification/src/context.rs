//! The context a run operates in: a plain directory, or a git repository —
//! and, for a repository, whether a Husky hook directory is present and
//! whether this tool's hooks are already installed. The context is derived
//! afresh on every invocation from what was probed on disk; "installed"
//! means the relevant pre-commit hook file holds this tool's marker
//! substring, nothing stronger.

use vstd::prelude::*;

use crate::text::has_substring;
use crate::text::text_contains;

verus! {

/// The substring whose presence in a hook file counts as "installed".
pub open spec fn tool_marker() -> Seq<char> {
    "donttouch"@
}

/// The environment the tool runs in.
#[derive(Clone, Copy, Debug, PartialEq, Eq, Structural)]
pub enum Context {
    /// Plain directory, no version control.
    Plain,
    /// Git repository.
    Git { has_husky: bool, hooks_installed: bool },
}

/// The view of an optional probed file content.
pub open spec fn opt_text_view(o: Option<&String>) -> Option<Seq<char>> {
    match o {
        Option::Some(s) => Option::Some(s@),
        Option::None => Option::None,
    }
}

/// The context derived from the probed facts: ignoring git, or having no
/// git directory, yields a plain context; otherwise the repository context
/// records whether Husky is in use and whether the pre-commit hook that
/// governs the tree — Husky's when present, git's own otherwise — already
/// holds the tool's marker.
pub open spec fn detect_spec(
    ignoregit: bool,
    git_dir_exists: bool,
    has_husky: bool,
    husky_pre_commit: Option<Seq<char>>,
    git_pre_commit: Option<Seq<char>>,
) -> Context {
    if ignoregit || !git_dir_exists {
        Context::Plain
    } else {
        let chosen = if has_husky {
            husky_pre_commit
        } else {
            git_pre_commit
        };
        Context::Git {
            has_husky,
            hooks_installed: match chosen {
                Option::Some(t) => has_substring(t, tool_marker()),
                Option::None => false,
            },
        }
    }
}

impl Context {
    /// Derives the context for a directory from the probed facts: whether a
    /// `.git` directory exists, whether a `.husky` directory exists, and the
    /// contents of the two candidate pre-commit hook files, when readable.
    pub fn detect(
        ignoregit: bool,
        git_dir_exists: bool,
        has_husky: bool,
        husky_pre_commit: Option<&String>,
        git_pre_commit: Option<&String>,
    ) -> (c: Context)
        ensures
            c == detect_spec(
                ignoregit,
                git_dir_exists,
                has_husky,
                opt_text_view(husky_pre_commit),
                opt_text_view(git_pre_commit),
            ),
    {
        if ignoregit {
            return Context::Plain;
        }
        if !git_dir_exists {
            return Context::Plain;
        }
        let chosen = if has_husky {
            husky_pre_commit
        } else {
            git_pre_commit
        };
        let hooks_installed = match chosen {
            Option::Some(t) => text_contains(t.as_str(), "donttouch"),
            Option::None => false,
        };
        Context::Git { has_husky, hooks_installed }
    }

    /// Whether the context is a git repository.
    pub fn is_git(&self) -> (r: bool)
        ensures
            r == (self is Git),
    {
        match self {
            Context::Git { .. } => true,
            Context::Plain => false,
        }
    }
}

} // verus!
