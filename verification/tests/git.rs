use sessionfs::git::detect_from_git_entry;
use sessionfs::git::extract_main_git_dir;
use sessionfs::git::GitEntryKind;
use sessionfs::git::GitWorktreeType;

#[test]
fn test_extract_main_git_dir_valid() {
    assert_eq!(
        extract_main_git_dir("/Users/jack/main/.git/worktrees/feature"),
        Some("/Users/jack/main/.git".to_string())
    );
}

#[test]
fn test_extract_main_git_dir_invalid() {
    assert_eq!(extract_main_git_dir("/some/path/without/worktrees"), None);
}

#[test]
fn test_detect_git_worktree_info_not_git() {
    // No .git file or directory
    let info = detect_from_git_entry(GitEntryKind::Missing, None);
    assert_eq!(info.worktree_type, GitWorktreeType::NotGit);
    assert!(info.main_project_path.is_none());
}

#[test]
fn test_detect_git_worktree_info_main_repo() {
    let info = detect_from_git_entry(GitEntryKind::Directory, None);
    assert_eq!(info.worktree_type, GitWorktreeType::Main);
    assert!(info.main_project_path.is_none());
}

#[test]
fn test_detect_git_worktree_info_linked() {
    let content = "gitdir: /Users/jack/main-project/.git/worktrees/feature-branch\n";
    let info = detect_from_git_entry(GitEntryKind::File, Some(content));
    assert_eq!(info.worktree_type, GitWorktreeType::Linked);
    assert_eq!(
        info.main_project_path,
        Some("/Users/jack/main-project".to_string())
    );
}

#[test]
fn test_detect_git_worktree_info_unreadable_file() {
    let info = detect_from_git_entry(GitEntryKind::File, None);
    assert_eq!(info.worktree_type, GitWorktreeType::NotGit);
    assert!(info.main_project_path.is_none());
}

#[test]
fn test_detect_git_worktree_info_file_without_gitdir_prefix() {
    let info = detect_from_git_entry(GitEntryKind::File, Some("not a gitdir line"));
    assert_eq!(info.worktree_type, GitWorktreeType::NotGit);
    assert!(info.main_project_path.is_none());
}
