use sessionfs::delete::DeleteError;
use sessionfs::delete::DeleteFlow;
use sessionfs::delete::DeleteProbe;
use sessionfs::delete::DeleteReply;
use sessionfs::delete::DeleteSessionResult;
use sessionfs::delete::DeleteStep;

/// Pump the deletion flow against a simulated filesystem of `files` and
/// `dirs` (no symlinks; canonicalization is the identity; the home
/// directory is `home`). Mutates the sets as removals happen.
fn run_delete(
    path: &str,
    files: &mut Vec<String>,
    dirs: &mut Vec<String>,
    home: &str,
) -> Result<DeleteSessionResult, DeleteError> {
    let begun = DeleteFlow::begin(path);
    let mut machine = begun.0;
    let mut step = begun.1;
    loop {
        match step {
            DeleteStep::Ask(probe) => {
                let reply = match probe {
                    DeleteProbe::Exists(q) => {
                        DeleteReply::Answer(files.contains(&q) || dirs.contains(&q))
                    }
                    DeleteProbe::IsSymlink(_) => DeleteReply::Answer(false),
                    DeleteProbe::Canonicalize(q) => DeleteReply::Resolved(Some(q)),
                    DeleteProbe::HomeDir => DeleteReply::Resolved(Some(home.to_string())),
                    DeleteProbe::RemoveFile(q) => {
                        let had = files.contains(&q);
                        files.retain(|x| x != &q);
                        DeleteReply::Answer(had)
                    }
                    DeleteProbe::IsDir(q) => DeleteReply::Answer(dirs.contains(&q)),
                    DeleteProbe::RemoveDirAll(q) => {
                        let had = dirs.contains(&q);
                        dirs.retain(|x| x != &q);
                        DeleteReply::Answer(had)
                    }
                };
                step = machine.step(reply);
            }
            DeleteStep::Finished(out) => return out,
        }
    }
}

#[test]
fn test_validate_delete_path_rejects_relative_path() {
    let begun = DeleteFlow::begin("relative/path/file.jsonl");
    let mut machine = begun.0;
    // the target exists, but the path is not absolute
    let step = machine.step(DeleteReply::Answer(true));
    match step {
        DeleteStep::Finished(Err(e)) => {
            assert_eq!(e, DeleteError::PathNotAbsolute);
            assert!(e.message().contains("must be absolute"));
        }
        _ => panic!("expected a finished validation failure"),
    }
}

#[test]
fn test_validate_delete_path_rejects_outside_directory() {
    let mut files = vec!["/tmp/validfilename.jsonl".to_string()];
    let mut dirs = Vec::new();
    let result = run_delete("/tmp/validfilename.jsonl", &mut files, &mut dirs, "/home/u");
    assert!(result.is_err());
    assert_eq!(result.unwrap_err(), DeleteError::OutsideAllowedRoot);
}

#[test]
fn test_validate_delete_path_valid_path() {
    let path = "/home/u/.sessions/projects/proj/abc123.jsonl";
    let mut files = vec![path.to_string()];
    let mut dirs = Vec::new();
    let result = run_delete(path, &mut files, &mut dirs, "/home/u");
    assert!(result.is_ok(), "Validation failed for valid path");
}

#[test]
fn test_delete_rejects_bad_filename_stem() {
    let path = "/home/u/.sessions/projects/proj/evil name!.jsonl";
    let mut files = vec![path.to_string()];
    let mut dirs = Vec::new();
    let result = run_delete(path, &mut files, &mut dirs, "/home/u");
    assert_eq!(result.unwrap_err(), DeleteError::InvalidFilename);
}

#[test]
fn test_delete_missing_file_not_found() {
    let mut files = Vec::new();
    let mut dirs = Vec::new();
    let result = run_delete(
        "/home/u/.sessions/projects/proj/gone.jsonl",
        &mut files,
        &mut dirs,
        "/home/u",
    );
    assert_eq!(result.unwrap_err(), DeleteError::NotFound);
}

#[test]
fn test_delete_rejects_symlink_in_path() {
    let path = "/home/u/.sessions/projects/proj/abc.jsonl";
    let begun = DeleteFlow::begin(path);
    let mut machine = begun.0;
    let mut step = machine.step(DeleteReply::Answer(true));
    // answer the first symlink query positively
    match step {
        DeleteStep::Ask(DeleteProbe::IsSymlink(_)) => {
            step = machine.step(DeleteReply::Answer(true));
        }
        _ => panic!("expected a symlink query"),
    }
    match step {
        DeleteStep::Finished(Err(e)) => assert_eq!(e, DeleteError::SymlinkRejected),
        _ => panic!("expected a symlink rejection"),
    }
}

#[test]
fn test_delete_canonicalize_failure() {
    let path = "/home/u/.sessions/projects/proj/abc.jsonl";
    let begun = DeleteFlow::begin(path);
    let mut machine = begun.0;
    let mut step = machine.step(DeleteReply::Answer(true));
    loop {
        match step {
            DeleteStep::Ask(DeleteProbe::IsSymlink(_)) => {
                step = machine.step(DeleteReply::Answer(false));
            }
            DeleteStep::Ask(DeleteProbe::Canonicalize(_)) => {
                step = machine.step(DeleteReply::Resolved(None));
            }
            DeleteStep::Finished(out) => {
                assert_eq!(out.unwrap_err(), DeleteError::CanonicalizeFailure);
                return;
            }
            _ => panic!("unexpected request"),
        }
    }
}

#[test]
fn test_delete_removal_io_error() {
    // The file exists for the check but its removal is answered as failed
    let path = "/home/u/.sessions/projects/proj/abc.jsonl";
    let begun = DeleteFlow::begin(path);
    let mut machine = begun.0;
    let mut step = begun.1;
    loop {
        match step {
            DeleteStep::Ask(DeleteProbe::Exists(_)) => {
                step = machine.step(DeleteReply::Answer(true));
            }
            DeleteStep::Ask(DeleteProbe::IsSymlink(_)) => {
                step = machine.step(DeleteReply::Answer(false));
            }
            DeleteStep::Ask(DeleteProbe::Canonicalize(q)) => {
                step = machine.step(DeleteReply::Resolved(Some(q)));
            }
            DeleteStep::Ask(DeleteProbe::HomeDir) => {
                step = machine.step(DeleteReply::Resolved(Some("/home/u".to_string())));
            }
            DeleteStep::Ask(DeleteProbe::RemoveFile(_)) => {
                step = machine.step(DeleteReply::Answer(false));
            }
            DeleteStep::Finished(out) => {
                assert_eq!(out.unwrap_err(), DeleteError::DeletionIOError);
                return;
            }
            _ => panic!("unexpected request"),
        }
    }
}

#[test]
fn test_delete_companion_dir_failure_is_distinct() {
    let path = "/home/u/.sessions/projects/proj/abc.jsonl";
    let begun = DeleteFlow::begin(path);
    let mut machine = begun.0;
    let mut step = begun.1;
    loop {
        match step {
            DeleteStep::Ask(DeleteProbe::Exists(_)) => {
                step = machine.step(DeleteReply::Answer(true));
            }
            DeleteStep::Ask(DeleteProbe::IsSymlink(_)) => {
                step = machine.step(DeleteReply::Answer(false));
            }
            DeleteStep::Ask(DeleteProbe::Canonicalize(q)) => {
                step = machine.step(DeleteReply::Resolved(Some(q)));
            }
            DeleteStep::Ask(DeleteProbe::HomeDir) => {
                step = machine.step(DeleteReply::Resolved(Some("/home/u".to_string())));
            }
            DeleteStep::Ask(DeleteProbe::RemoveFile(_)) => {
                step = machine.step(DeleteReply::Answer(true));
            }
            DeleteStep::Ask(DeleteProbe::IsDir(_)) => {
                step = machine.step(DeleteReply::Answer(true));
            }
            DeleteStep::Ask(DeleteProbe::RemoveDirAll(_)) => {
                step = machine.step(DeleteReply::Answer(false));
            }
            DeleteStep::Finished(out) => {
                assert_eq!(out.unwrap_err(), DeleteError::CompanionDirDeletionFailed);
                return;
            }
        }
    }
}

#[test]
fn test_delete_session_end_to_end_with_companion() {
    let path = "/home/u/.sessions/projects/p/abc123.jsonl";
    let companion = "/home/u/.sessions/projects/p/abc123";
    let mut files = vec![path.to_string()];
    let mut dirs = vec![companion.to_string()];

    let result = run_delete(path, &mut files, &mut dirs, "/home/u").unwrap();
    assert!(result.success);
    assert_eq!(result.file_path, path);
    assert!(result.companion_dir_deleted);
    assert!(files.is_empty());
    assert!(dirs.is_empty());

    // deleting again: the file no longer exists
    let second = run_delete(path, &mut files, &mut dirs, "/home/u");
    assert_eq!(second.unwrap_err(), DeleteError::NotFound);
}

#[test]
fn test_delete_session_without_companion() {
    let path = "/home/u/.sessions/projects/p/xyz.jsonl";
    let mut files = vec![path.to_string()];
    let mut dirs = Vec::new();
    let result = run_delete(path, &mut files, &mut dirs, "/home/u").unwrap();
    assert!(result.success);
    assert!(!result.companion_dir_deleted);
    assert!(files.is_empty());
}
