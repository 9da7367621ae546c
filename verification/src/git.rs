//! Git worktree classification for a project directory.
//!
//! A project is classified by the `.git` entry at its resolved path: a
//! directory means a main repository, a file holding `gitdir: <path>`
//! pointing into `<main>/.git/worktrees/<branch>` means a linked
//! worktree, anything else means no (recognised) git working tree.
//! Reading the filesystem entry happens outside; the decision logic on
//! what was read lives here.

use vstd::prelude::*;
use vstd::string::StrSliceExecFns;
use crate::chars::find_substring;
use crate::chars::match_at;
use crate::chars::str_concat2;
use crate::chars::str_has_prefix;
use crate::chars::has_prefix;
use crate::chars::trim_str;
use crate::chars::trim_spec;
use crate::paths::parent_spec;
use crate::paths::parent_path;

verus! {

/// How a project relates to a git working tree.
#[derive(Clone, Copy, Debug, PartialEq, Eq, Structural)]
pub enum GitWorktreeType {
    /// The project holds the main repository: `.git` is a directory.
    Main,
    /// The project is a linked worktree: `.git` is a file pointing at
    /// the main repository's worktree records.
    Linked,
    /// No git working tree was recognised.
    NotGit,
}

/// Classification of a project path's relation to a git working tree.
/// `main_project_path` is populated only for a linked worktree.
#[derive(Clone, Debug)]
pub struct GitInfo {
    pub worktree_type: GitWorktreeType,
    pub main_project_path: Option<String>,
}

/// What the filesystem reports at a project's `.git` path.
#[derive(Clone, Copy, Debug, PartialEq, Eq, Structural)]
pub enum GitEntryKind {
    /// No entry exists at the path.
    Missing,
    /// The entry is a directory.
    Directory,
    /// The entry is a regular file.
    File,
    /// The entry exists but is neither a regular file nor a directory.
    Other,
}

/// The position of the worktree marker in a `gitdir` value, if any.
pub open spec fn worktrees_marker_at(gitdir: Seq<char>) -> Option<int> {
    if exists|j: int| match_at(gitdir, "/.git/worktrees/"@, j) {
        Some(choose|j: int|
            match_at(gitdir, "/.git/worktrees/"@, j) && forall|k: int|
                0 <= k < j ==> !match_at(gitdir, "/.git/worktrees/"@, k))
    } else {
        None
    }
}

/// The main repository's `.git` directory named by a worktree `gitdir`
/// value: everything before the first `/.git/worktrees/` marker, with
/// `/.git` appended; `None` when the marker does not occur.
pub fn extract_main_git_dir(gitdir: &str) -> (r: Option<String>)
    ensures
        (match r {
            Some(d) => exists|j: int|
                {
                    &&& match_at(gitdir@, "/.git/worktrees/"@, j)
                    &&& forall|k: int| 0 <= k < j ==> !match_at(gitdir@, "/.git/worktrees/"@, k)
                    &&& d@ == gitdir@.subrange(0, j) + "/.git"@
                },
            None => forall|j: int| !match_at(gitdir@, "/.git/worktrees/"@, j),
        }),
{
    match find_substring(gitdir, "/.git/worktrees/") {
        Some(i) => {
            let head = gitdir.substring_char(0, i);
            Some(str_concat2(head, "/.git"))
        },
        None => None,
    }
}

/// What the classification owes for the content of a `.git` file: a
/// recognised `gitdir: ` line pointing into a worktree record yields a
/// linked worktree whose main project is the marker prefix's parent;
/// everything else safely yields `NotGit`.
pub open spec fn linked_info_of(content: Seq<char>) -> (GitWorktreeType, Option<Seq<char>>) {
    if !has_prefix(content, "gitdir: "@) {
        (GitWorktreeType::NotGit, None::<Seq<char>>)
    } else {
        let gitdir = trim_spec(content.subrange("gitdir: "@.len() as int, content.len() as int));
        match worktrees_marker_at(gitdir) {
            None => (GitWorktreeType::NotGit, None::<Seq<char>>),
            Some(j) => (
                GitWorktreeType::Linked,
                match parent_spec(gitdir.subrange(0, j) + "/.git"@) {
                    Some(p) => Some(p),
                    None => None::<Seq<char>>,
                },
            ),
        }
    }
}

/// Law: what a `.git` file's content classifies to carries a main
/// project path exactly when it is a linked worktree — and the other
/// entry kinds never carry one, so a classification's main path is
/// populated if and only if its type is `Linked`.
pub proof fn lemma_linked_iff_main_path(content: Seq<char>)
    ensures
        (linked_info_of(content).0 == GitWorktreeType::Linked) <==> (linked_info_of(content).1
            is Some),
{
    if has_prefix(content, "gitdir: "@) {
        let gitdir = trim_spec(content.subrange("gitdir: "@.len() as int, content.len() as int));
        match worktrees_marker_at(gitdir) {
            None => {},
            Some(j) => {
                proof_git_dir_has_parent(gitdir.subrange(0, j));
            },
        }
    }
}

/// The path `x + "/.git"` always has a parent: it holds a separator and
/// is longer than the bare root.
proof fn proof_git_dir_has_parent(x: Seq<char>)
    ensures
        parent_spec(x + "/.git"@) is Some,
{
    reveal_strlit("/.git");
    let d = x + "/.git"@;
    assert(d.len() == x.len() + 5);
    assert(d[x.len() as int] == '/');
    crate::chars::lemma_last_index_bounds(d, '/');
    let j = crate::chars::last_index_of(d, '/');
    assert(j >= 0) by {
        if j == -1 {
            assert(d[x.len() as int] != '/');
        }
    }
}

/// The views of an optional owned path.
pub open spec fn opt_string_view(o: Option<String>) -> Option<Seq<char>> {
    match o {
        Some(s) => Some(s@),
        None => None,
    }
}

/// Classify a project from what the filesystem reported at its `.git`
/// path: the entry's kind, and the file content where the entry is a
/// regular file that could be read.
pub fn detect_from_git_entry(kind: GitEntryKind, content: Option<&str>) -> (r: GitInfo)
    ensures
        kind == GitEntryKind::Missing || kind == GitEntryKind::Other ==> r.worktree_type
            == GitWorktreeType::NotGit && r.main_project_path is None,
        kind == GitEntryKind::Directory ==> r.worktree_type == GitWorktreeType::Main
            && r.main_project_path is None,
        kind == GitEntryKind::File && content is None ==> r.worktree_type == GitWorktreeType::NotGit
            && r.main_project_path is None,
        kind == GitEntryKind::File && content is Some ==> r.worktree_type == linked_info_of(
            content->Some_0@,
        ).0 && opt_string_view(r.main_project_path) == linked_info_of(content->Some_0@).1,
{
    match kind {
        GitEntryKind::Missing | GitEntryKind::Other => GitInfo {
            worktree_type: GitWorktreeType::NotGit,
            main_project_path: None,
        },
        GitEntryKind::Directory => GitInfo {
            worktree_type: GitWorktreeType::Main,
            main_project_path: None,
        },
        GitEntryKind::File => {
            match content {
                None => GitInfo { worktree_type: GitWorktreeType::NotGit, main_project_path: None },
                Some(text) => {
                    if !str_has_prefix(text, "gitdir: ") {
                        return GitInfo {
                            worktree_type: GitWorktreeType::NotGit,
                            main_project_path: None,
                        };
                    }
                    let n = text.unicode_len();
                    let plen = "gitdir: ".unicode_len();
                    let rest = text.substring_char(plen, n);
                    let gitdir = trim_str(rest);
                    match extract_main_git_dir(gitdir) {
                        None => GitInfo {
                            worktree_type: GitWorktreeType::NotGit,
                            main_project_path: None,
                        },
                        Some(main_git_dir) => {
                            let main_project_path = parent_path(main_git_dir.as_str());
                            GitInfo { worktree_type: GitWorktreeType::Linked, main_project_path }
                        },
                    }
                },
            }
        },
    }
}

} // verus!
