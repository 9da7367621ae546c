//! Secure deletion of a session file and its companion directory.
//!
//! Deleting is destructive, so a strict validation sequence runs first,
//! in a fixed order that reports the most specific failure: existence,
//! absoluteness, a symlink check on every ancestor and on the target,
//! the safe-filename pattern, and canonical containment in the storage
//! root. The decisions live here, verified; the filesystem queries and
//! the removals themselves are requests the [`DeleteFlow`] machine hands
//! to its caller.

use vstd::prelude::*;
use vstd::string::StrSliceExecFns;
use vstd::string::StringExecFns;
use crate::chars::str_concat2;
use crate::names::is_safe_name;
use crate::names::is_safe_name_spec;
use crate::paths::ancestor_chain;
use crate::paths::ancestors_spec;
use crate::paths::strings_as_seqs;
use crate::paths::is_absolute_path;
use crate::paths::is_absolute_spec;
use crate::paths::file_stem_of;
use crate::paths::stem_spec;
use crate::paths::strip_extension;
use crate::paths::strip_extension_spec;
use crate::paths::is_path_prefix_of;
use crate::paths::path_has_prefix;

verus! {

/// Why a deletion was refused (or only partially completed).
#[derive(Clone, Copy, Debug, PartialEq, Eq, Structural)]
pub enum DeleteError {
    /// The target does not exist.
    NotFound,
    /// The supplied path is not absolute.
    PathNotAbsolute,
    /// A symlink stands in the path, or the target is one.
    SymlinkRejected,
    /// The filename stem fails the safe pattern.
    InvalidFilename,
    /// The canonical path does not lie under the storage root.
    OutsideAllowedRoot,
    /// The path (or the home directory) could not be resolved.
    CanonicalizeFailure,
    /// Removing the file failed.
    DeletionIOError,
    /// The file was removed, but removing its companion directory
    /// failed: a partial success the caller must see as such.
    CompanionDirDeletionFailed,
}

impl DeleteError {
    /// A human-readable description of the failure, distinct per kind.
    pub fn message(&self) -> (r: String)
        ensures
            r@.len() > 0,
            *self == DeleteError::NotFound ==> r@ == "Session file not found"@,
            *self == DeleteError::PathNotAbsolute ==> r@ == "File path must be absolute"@,
            *self == DeleteError::SymlinkRejected ==> r@ == "Symlinks are not allowed in path"@,
            *self == DeleteError::InvalidFilename ==> r@
                == "Filename must contain only alphanumeric characters, underscores, and hyphens"@,
            *self == DeleteError::OutsideAllowedRoot ==> r@
                == "File path must be within the session storage directory"@,
            *self == DeleteError::CanonicalizeFailure ==> r@ == "Failed to resolve path"@,
            *self == DeleteError::DeletionIOError ==> r@ == "Failed to delete session file"@,
            *self == DeleteError::CompanionDirDeletionFailed ==> r@
                == "Session file deleted but failed to remove companion directory"@,
    {
        let text = match self {
            DeleteError::NotFound => "Session file not found",
            DeleteError::PathNotAbsolute => "File path must be absolute",
            DeleteError::SymlinkRejected => "Symlinks are not allowed in path",
            DeleteError::InvalidFilename => "Filename must contain only alphanumeric characters, underscores, and hyphens",
            DeleteError::OutsideAllowedRoot => "File path must be within the session storage directory",
            DeleteError::CanonicalizeFailure => "Failed to resolve path",
            DeleteError::DeletionIOError => "Failed to delete session file",
            DeleteError::CompanionDirDeletionFailed => "Session file deleted but failed to remove companion directory",
        };
        let r = String::from_str(text);
        proof {
            reveal_strlit("Session file not found");
            reveal_strlit("File path must be absolute");
            reveal_strlit("Symlinks are not allowed in path");
            reveal_strlit(
                "Filename must contain only alphanumeric characters, underscores, and hyphens",
            );
            reveal_strlit("File path must be within the session storage directory");
            reveal_strlit("Failed to resolve path");
            reveal_strlit("Failed to delete session file");
            reveal_strlit("Session file deleted but failed to remove companion directory");
        }
        r
    }
}

/// What a completed deletion reports.
#[derive(Clone, Debug)]
pub struct DeleteSessionResult {
    pub success: bool,
    pub file_path: String,
    pub companion_dir_deleted: bool,
}

/// One request of the deletion flow to its caller.
#[derive(Debug)]
pub enum DeleteProbe {
    /// Does an entry exist at this path (following symlinks)?
    Exists(String),
    /// Is the entry at this path a symlink, by a symlink-unaware
    /// metadata query (no entry or unreadable metadata answers no)?
    IsSymlink(String),
    /// Canonicalize this path, `None` on failure.
    Canonicalize(String),
    /// The caller's home directory, if it can be determined.
    HomeDir,
    /// Remove the file at this path; answer whether that succeeded.
    RemoveFile(String),
    /// Is the entry at this path a directory (following symlinks)?
    IsDir(String),
    /// Remove the directory at this path recursively; answer whether
    /// that succeeded.
    RemoveDirAll(String),
}

/// The caller's reply to the last request.
#[derive(Debug)]
pub enum DeleteReply {
    /// A yes/no answer.
    Answer(bool),
    /// A resolved path, or `None` on failure.
    Resolved(Option<String>),
}

/// A step of the deletion flow: the next request, or the outcome.
#[derive(Debug)]
pub enum DeleteStep {
    Ask(DeleteProbe),
    Finished(Result<DeleteSessionResult, DeleteError>),
}

#[derive(Clone, Copy, Debug, PartialEq, Eq, Structural)]
enum DeletePhase {
    AwaitExists,
    AwaitAncestor,
    AwaitTarget,
    AwaitCanonical,
    AwaitHome,
    AwaitRoot,
    AwaitRemove,
    AwaitIsDir,
    AwaitRemoveDir,
    Settled,
}

/// Whether a step asks for a resolved path (rather than a yes/no
/// answer): exactly the canonicalization and home-directory requests.
pub open spec fn asks_resolved(r: DeleteStep) -> bool {
    match r {
        DeleteStep::Ask(p) => (match p {
            DeleteProbe::Canonicalize(_) => true,
            DeleteProbe::HomeDir => true,
            _ => false,
        }),
        DeleteStep::Finished(_) => false,
    }
}

/// The yes/no content of a reply (a resolved reply answers no).
pub open spec fn answer_of(reply: DeleteReply) -> bool {
    match reply {
        DeleteReply::Answer(b) => b,
        DeleteReply::Resolved(_) => false,
    }
}

/// The resolved path a reply carries, if any.
pub open spec fn resolved_of(reply: DeleteReply) -> Option<Seq<char>> {
    match reply {
        DeleteReply::Resolved(o) => match o {
            Some(s) => Some(s@),
            None => None,
        },
        DeleteReply::Answer(_) => None,
    }
}

/// The target of the symlink check at position `idx` of the walk: the
/// ancestors from the nearest parent upward, then the target itself.
pub open spec fn symlink_target_at(p: Seq<char>, idx: int) -> Seq<char> {
    if 0 <= idx < ancestors_spec(p).len() {
        ancestors_spec(p)[idx]
    } else {
        p
    }
}

/// Whether the filename stem of `p` exists and matches the safe
/// pattern.
pub open spec fn stem_ok(p: Seq<char>) -> bool {
    match stem_spec(p) {
        Some(s) => is_safe_name_spec(s),
        None => false,
    }
}

/// The deletion flow for one session file: validation queries in the
/// specified order, then the removal of the file, then of its companion
/// directory if one exists. Pump it: answer each request until it
/// reports `Finished`.
pub struct DeleteFlow {
    path: String,
    ancestors: Vec<String>,
    idx: usize,
    canonical: String,
    root: String,
    companion: String,
    tag: DeletePhase,
}

impl DeleteFlow {
    /// The path under deletion.
    pub closed spec fn path(self) -> Seq<char> {
        self.path@
    }

    /// The canonical form of the path, once resolved.
    pub closed spec fn canonical(self) -> Seq<char> {
        self.canonical@
    }

    /// The storage root the canonical path is held against, before its
    /// own canonicalization.
    pub closed spec fn root(self) -> Seq<char> {
        self.root@
    }

    /// The companion directory path, once computed.
    pub closed spec fn companion(self) -> Seq<char> {
        self.companion@
    }

    /// Whether the flow waits for a reply; only then may it be stepped.
    pub closed spec fn awaiting(self) -> bool {
        !(self.tag is Settled)
    }

    /// Whether the outstanding request asks for a resolved path (else
    /// it asks for a yes/no answer).
    pub closed spec fn wants_resolved(self) -> bool {
        self.tag is AwaitCanonical || self.tag is AwaitHome || self.tag is AwaitRoot
    }

    /// Which position of the symlink walk the flow stands at.
    pub closed spec fn ancestor_idx(self) -> int {
        self.idx as int
    }

    /// The flow's internal consistency.
    pub closed spec fn wf(self) -> bool {
        &&& (self.tag is AwaitAncestor ==> self.idx < self.ancestors@.len())
        &&& strings_as_seqs(self.ancestors@) == ancestors_spec(self.path@)
    }

    /// An upper bound on the requests still to come: every step that
    /// asks again strictly decreases it, so any pump loop terminates.
    pub closed spec fn remaining(self) -> int {
        let pending = self.ancestors@.len() - self.idx;
        match self.tag {
            DeletePhase::AwaitExists => self.ancestors@.len() as int + 8,
            DeletePhase::AwaitAncestor => pending + 7,
            DeletePhase::AwaitTarget => 7,
            DeletePhase::AwaitCanonical => 6,
            DeletePhase::AwaitHome => 5,
            DeletePhase::AwaitRoot => 4,
            DeletePhase::AwaitRemove => 3,
            DeletePhase::AwaitIsDir => 2,
            DeletePhase::AwaitRemoveDir => 1,
            DeletePhase::Settled => 0,
        }
    }

    /// Whether the flow waits for a reply.
    pub fn is_awaiting(&self) -> (r: bool)
        ensures
            r == self.awaiting(),
    {
        match self.tag {
            DeletePhase::Settled => false,
            _ => true,
        }
    }

    /// Whether the outstanding request asks for a resolved path.
    pub fn is_awaiting_resolved(&self) -> (r: bool)
        ensures
            r == self.wants_resolved(),
    {
        match self.tag {
            DeletePhase::AwaitCanonical => true,
            DeletePhase::AwaitHome => true,
            DeletePhase::AwaitRoot => true,
            _ => false,
        }
    }

    /// Start deleting `file_path`. The first request asks whether the
    /// target exists at all.
    pub fn begin(file_path: &str) -> (r: (DeleteFlow, DeleteStep))
        ensures
            r.0.wf(),
            r.0.awaiting(),
            r.0.tag_exists(),
            !r.0.wants_resolved(),
            r.0.remaining() >= 0,
            r.0.path() == file_path@,
            r.0.wants_resolved() == asks_resolved(r.1),
            (r.1 matches DeleteStep::Ask(p) && (p matches DeleteProbe::Exists(q) && q@
                == file_path@)),
    {
        let ancestors = ancestor_chain(file_path);
        let m = DeleteFlow {
            path: String::from_str(file_path),
            ancestors,
            idx: 0,
            canonical: String::new(),
            root: String::new(),
            companion: String::new(),
            tag: DeletePhase::AwaitExists,
        };
        let probe = DeleteProbe::Exists(String::from_str(file_path));
        (m, DeleteStep::Ask(probe))
    }

    /// Ask for the next symlink check: the ancestor at `idx`, or the
    /// target itself once the ancestors are done.
    fn ask_symlink(&mut self) -> (r: DeleteStep)
        requires
            old(self).idx <= old(self).ancestors@.len(),
            strings_as_seqs(old(self).ancestors@) == ancestors_spec(old(self).path@),
        ensures
            final (self).wf(),
            final (self).awaiting(),
            !final (self).wants_resolved(),
            final (self).path() == old(self).path(),
            final (self).remaining() <= old(self).ancestors@.len() - old(self).idx + 7,
            final (self).ancestor_idx() == old(self).idx,
            final (self).tag_ancestor() <==> old(self).idx < old(self).ancestors@.len(),
            final (self).tag_target() <==> old(self).idx >= old(self).ancestors@.len(),
            !final (self).wants_resolved(),
            asks_resolved(r) == false,
            (r matches DeleteStep::Ask(p) && (p matches DeleteProbe::IsSymlink(q) && q@
                == symlink_target_at(old(self).path@, old(self).idx as int))),
    {
        if self.idx < self.ancestors.len() {
            let a = self.ancestors[self.idx].clone();
            self.tag = DeletePhase::AwaitAncestor;
            DeleteStep::Ask(DeleteProbe::IsSymlink(a))
        } else {
            self.tag = DeletePhase::AwaitTarget;
            DeleteStep::Ask(DeleteProbe::IsSymlink(self.path.clone()))
        }
    }

    /// Feed the flow the reply to its outstanding request. Validation
    /// failures surface as the error the violated rule names, in the
    /// fixed order; after the file's removal only the companion
    /// directory's fate can still change the outcome.
    pub fn step(&mut self, reply: DeleteReply) -> (r: DeleteStep)
        requires
            old(self).wf(),
            old(self).awaiting(),
            (reply is Resolved) == old(self).wants_resolved(),
        ensures
            final (self).wf(),
            (r is Ask) == final (self).awaiting(),
            final (self).path() == old(self).path(),
            final (self).remaining() >= 0,
            r is Ask ==> final (self).remaining() < old(self).remaining(),
            r is Ask ==> (final (self).wants_resolved() == asks_resolved(r)),
            old(self).tag_exists() && !answer_of(reply) ==> r == DeleteStep::Finished(
                Result::<DeleteSessionResult, DeleteError>::Err(DeleteError::NotFound),
            ),
            old(self).tag_exists() && answer_of(reply) && !is_absolute_spec(old(self).path())
                ==> r == DeleteStep::Finished(
                Result::<DeleteSessionResult, DeleteError>::Err(DeleteError::PathNotAbsolute),
            ),
            old(self).tag_exists() && answer_of(reply) && is_absolute_spec(old(self).path()) ==> (r
                matches DeleteStep::Ask(p) && (p matches DeleteProbe::IsSymlink(q) && q@
                == symlink_target_at(old(self).path(), 0))) && final (self).ancestor_idx() == 0 && (
            final (self).tag_ancestor() <==> ancestors_spec(old(self).path()).len() > 0) && (final (
            self).tag_target() <==> ancestors_spec(old(self).path()).len() == 0),
            (old(self).tag_ancestor() || old(self).tag_target()) && answer_of(reply) ==> r
                == DeleteStep::Finished(
                Result::<DeleteSessionResult, DeleteError>::Err(DeleteError::SymlinkRejected),
            ),
            old(self).tag_ancestor() && !answer_of(reply) ==> (r matches DeleteStep::Ask(p) && (p
                matches DeleteProbe::IsSymlink(q) && q@ == symlink_target_at(
                old(self).path(),
                old(self).ancestor_idx() + 1,
            ))) && final (self).ancestor_idx() == old(self).ancestor_idx() + 1 && (final (
            self).tag_ancestor() <==> old(self).ancestor_idx() + 1 < ancestors_spec(
                old(self).path(),
            ).len()) && (final (self).tag_target() <==> old(self).ancestor_idx() + 1
                >= ancestors_spec(old(self).path()).len()),
            old(self).tag_target() && !answer_of(reply) && !stem_ok(old(self).path()) ==> r
                == DeleteStep::Finished(
                Result::<DeleteSessionResult, DeleteError>::Err(DeleteError::InvalidFilename),
            ),
            old(self).tag_target() && !answer_of(reply) && stem_ok(old(self).path()) ==> (r matches
                DeleteStep::Ask(p) && (p matches DeleteProbe::Canonicalize(q) && q@ == old(
                self,
            ).path())) && final (self).tag_canonical(),
            old(self).tag_canonical() && resolved_of(reply) is None ==> r == DeleteStep::Finished(
                Result::<DeleteSessionResult, DeleteError>::Err(DeleteError::CanonicalizeFailure),
            ),
            old(self).tag_canonical() && resolved_of(reply) is Some ==> (r matches DeleteStep::Ask(
                p,
            ) && p is HomeDir && final (self).canonical() == resolved_of(reply)->Some_0) && final (
            self).tag_home(),
            old(self).tag_home() && resolved_of(reply) is None ==> r == DeleteStep::Finished(
                Result::<DeleteSessionResult, DeleteError>::Err(DeleteError::CanonicalizeFailure),
            ),
            old(self).tag_home() && resolved_of(reply) is Some ==> (r matches DeleteStep::Ask(p)
                && (p matches DeleteProbe::Canonicalize(q) && q@ == resolved_of(reply)->Some_0
                + "/.sessions"@ && final (self).root() == q@)) && final (self).tag_root() && final (
            self).canonical() == old(self).canonical(),
            old(self).tag_root() ==> final (self).root() == old(self).root(),
            old(self).tag_root() && !path_has_prefix(
                old(self).canonical(),
                root_or_reply(old(self).root(), reply),
            ) ==> r == DeleteStep::Finished(
                Result::<DeleteSessionResult, DeleteError>::Err(DeleteError::OutsideAllowedRoot),
            ),
            old(self).tag_root() && path_has_prefix(
                old(self).canonical(),
                root_or_reply(old(self).root(), reply),
            ) ==> (r matches DeleteStep::Ask(p) && (p matches DeleteProbe::RemoveFile(q) && q@
                == old(self).path())) && final (self).tag_remove(),
            old(self).tag_remove() && !answer_of(reply) ==> r == DeleteStep::Finished(
                Result::<DeleteSessionResult, DeleteError>::Err(DeleteError::DeletionIOError),
            ),
            old(self).tag_remove() && answer_of(reply) ==> (r matches DeleteStep::Ask(p) && (p
                matches DeleteProbe::IsDir(q) && q@ == strip_extension_spec(old(self).path())
                && final (self).companion() == q@)) && final (self).tag_isdir(),
            old(self).tag_isdir() && !answer_of(reply) ==> (r matches DeleteStep::Finished(out)
                && (out matches Ok(d) && d.success == true && d.file_path@ == old(self).path()
                && d.companion_dir_deleted == false)),
            old(self).tag_isdir() && answer_of(reply) ==> (r matches DeleteStep::Ask(p) && (p
                matches DeleteProbe::RemoveDirAll(q) && q@ == old(self).companion())) && final (
            self).tag_removedir(),
            old(self).tag_removedir() && !answer_of(reply) ==> r == DeleteStep::Finished(
                Result::<DeleteSessionResult, DeleteError>::Err(
                    DeleteError::CompanionDirDeletionFailed,
                ),
            ),
            old(self).tag_removedir() && answer_of(reply) ==> (r matches DeleteStep::Finished(out)
                && (out matches Ok(d) && d.success == true && d.file_path@ == old(self).path()
                && d.companion_dir_deleted == true)),
    {
        match self.tag {
            DeletePhase::AwaitExists => {
                let b = match reply {
                    DeleteReply::Answer(x) => x,
                    DeleteReply::Resolved(_) => false,
                };
                if !b {
                    self.tag = DeletePhase::Settled;
                    DeleteStep::Finished(Err(DeleteError::NotFound))
                } else if !is_absolute_path(self.path.as_str()) {
                    self.tag = DeletePhase::Settled;
                    DeleteStep::Finished(Err(DeleteError::PathNotAbsolute))
                } else {
                    self.idx = 0;
                    self.ask_symlink()
                }
            },
            DeletePhase::AwaitAncestor => {
                let b = match reply {
                    DeleteReply::Answer(x) => x,
                    DeleteReply::Resolved(_) => false,
                };
                if b {
                    self.tag = DeletePhase::Settled;
                    DeleteStep::Finished(Err(DeleteError::SymlinkRejected))
                } else {
                    let total = self.ancestors.len();
                    proof {
                        assert(self.idx < total);
                    }
                    self.idx = self.idx + 1;
                    self.ask_symlink()
                }
            },
            DeletePhase::AwaitTarget => {
                let b = match reply {
                    DeleteReply::Answer(x) => x,
                    DeleteReply::Resolved(_) => false,
                };
                if b {
                    self.tag = DeletePhase::Settled;
                    DeleteStep::Finished(Err(DeleteError::SymlinkRejected))
                } else {
                    let stem_is_safe = match file_stem_of(self.path.as_str()) {
                        Some(stem) => is_safe_name(stem.as_str()),
                        None => false,
                    };
                    if !stem_is_safe {
                        self.tag = DeletePhase::Settled;
                        DeleteStep::Finished(Err(DeleteError::InvalidFilename))
                    } else {
                        self.tag = DeletePhase::AwaitCanonical;
                        DeleteStep::Ask(DeleteProbe::Canonicalize(self.path.clone()))
                    }
                }
            },
            DeletePhase::AwaitCanonical => {
                let o = match reply {
                    DeleteReply::Resolved(x) => x,
                    DeleteReply::Answer(_) => None,
                };
                match o {
                    None => {
                        self.tag = DeletePhase::Settled;
                        DeleteStep::Finished(Err(DeleteError::CanonicalizeFailure))
                    },
                    Some(c) => {
                        self.canonical = c;
                        self.tag = DeletePhase::AwaitHome;
                        DeleteStep::Ask(DeleteProbe::HomeDir)
                    },
                }
            },
            DeletePhase::AwaitHome => {
                let o = match reply {
                    DeleteReply::Resolved(x) => x,
                    DeleteReply::Answer(_) => None,
                };
                match o {
                    None => {
                        self.tag = DeletePhase::Settled;
                        DeleteStep::Finished(Err(DeleteError::CanonicalizeFailure))
                    },
                    Some(home) => {
                        let root = str_concat2(home.as_str(), "/.sessions");
                        self.root = root.clone();
                        self.tag = DeletePhase::AwaitRoot;
                        DeleteStep::Ask(DeleteProbe::Canonicalize(root))
                    },
                }
            },
            DeletePhase::AwaitRoot => {
                let o = match reply {
                    DeleteReply::Resolved(x) => x,
                    DeleteReply::Answer(_) => None,
                };
                let root_canon = match o {
                    Some(c) => c,
                    None => self.root.clone(),
                };
                if !is_path_prefix_of(root_canon.as_str(), self.canonical.as_str()) {
                    self.tag = DeletePhase::Settled;
                    DeleteStep::Finished(Err(DeleteError::OutsideAllowedRoot))
                } else {
                    self.tag = DeletePhase::AwaitRemove;
                    DeleteStep::Ask(DeleteProbe::RemoveFile(self.path.clone()))
                }
            },
            DeletePhase::AwaitRemove => {
                let b = match reply {
                    DeleteReply::Answer(x) => x,
                    DeleteReply::Resolved(_) => false,
                };
                if !b {
                    self.tag = DeletePhase::Settled;
                    DeleteStep::Finished(Err(DeleteError::DeletionIOError))
                } else {
                    let companion = strip_extension(self.path.as_str());
                    self.companion = companion.clone();
                    self.tag = DeletePhase::AwaitIsDir;
                    DeleteStep::Ask(DeleteProbe::IsDir(companion))
                }
            },
            DeletePhase::AwaitIsDir => {
                let b = match reply {
                    DeleteReply::Answer(x) => x,
                    DeleteReply::Resolved(_) => false,
                };
                if !b {
                    self.tag = DeletePhase::Settled;
                    DeleteStep::Finished(
                        Ok(
                            DeleteSessionResult {
                                success: true,
                                file_path: self.path.clone(),
                                companion_dir_deleted: false,
                            },
                        ),
                    )
                } else {
                    self.tag = DeletePhase::AwaitRemoveDir;
                    DeleteStep::Ask(DeleteProbe::RemoveDirAll(self.companion.clone()))
                }
            },
            DeletePhase::AwaitRemoveDir => {
                let b = match reply {
                    DeleteReply::Answer(x) => x,
                    DeleteReply::Resolved(_) => false,
                };
                self.tag = DeletePhase::Settled;
                if !b {
                    DeleteStep::Finished(Err(DeleteError::CompanionDirDeletionFailed))
                } else {
                    DeleteStep::Finished(
                        Ok(
                            DeleteSessionResult {
                                success: true,
                                file_path: self.path.clone(),
                                companion_dir_deleted: true,
                            },
                        ),
                    )
                }
            },
            DeletePhase::Settled => {
                proof {
                    assert(false);
                }
                DeleteStep::Finished(Err(DeleteError::NotFound))
            },
        }
    }

    /// Whether the flow awaits the existence answer.
    pub closed spec fn tag_exists(self) -> bool {
        self.tag is AwaitExists
    }

    /// Whether the flow awaits a symlink answer for an ancestor.
    pub closed spec fn tag_ancestor(self) -> bool {
        self.tag is AwaitAncestor
    }

    /// Whether the flow awaits the symlink answer for the target.
    pub closed spec fn tag_target(self) -> bool {
        self.tag is AwaitTarget
    }

    /// Whether the flow awaits the target's canonical path.
    pub closed spec fn tag_canonical(self) -> bool {
        self.tag is AwaitCanonical
    }

    /// Whether the flow awaits the home directory.
    pub closed spec fn tag_home(self) -> bool {
        self.tag is AwaitHome
    }

    /// Whether the flow awaits the storage root's canonical path.
    pub closed spec fn tag_root(self) -> bool {
        self.tag is AwaitRoot
    }

    /// Whether the flow awaits the file-removal answer.
    pub closed spec fn tag_remove(self) -> bool {
        self.tag is AwaitRemove
    }

    /// Whether the flow awaits the companion-directory check.
    pub closed spec fn tag_isdir(self) -> bool {
        self.tag is AwaitIsDir
    }

    /// Whether the flow awaits the companion-directory removal answer.
    pub closed spec fn tag_removedir(self) -> bool {
        self.tag is AwaitRemoveDir
    }
}

/// The storage root to hold the canonical path against: the reply's
/// resolved form when canonicalization succeeded, else the
/// unresolved root itself.
pub open spec fn root_or_reply(root: Seq<char>, reply: DeleteReply) -> Seq<char> {
    match resolved_of(reply) {
        Some(c) => c,
        None => root,
    }
}

} // verus!
