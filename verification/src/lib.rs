//! Utilities for locating, interpreting, and safely mutating on-disk
//! session records: a line-boundary scanner for append-only log buffers,
//! a best-effort decoder for the lossy directory-name encoding of project
//! paths, a git-worktree classifier, and a secure deletion validator.
//!
//! Everything that decides or computes lives here, verified. Filesystem
//! access is driven from outside: the decoder and the deletion flow are
//! step machines that emit probe requests and consume their answers.

pub mod chars;
pub mod decode;
pub mod delete;
pub mod git;
pub mod lines;
pub mod names;
pub mod paths;
pub mod probe;

use vstd::prelude::*;

verus! {

/// Estimate how many messages a session log of `file_size` bytes holds,
/// assuming an average message size of 1000 bytes: the ceiling of
/// `file_size / 1000`, floored at a minimum of 1.
pub open spec fn estimate_spec(file_size: u64) -> nat {
    let c: int = if file_size % 1000 == 0 {
        file_size as int / 1000
    } else {
        file_size as int / 1000 + 1
    };
    if c < 1 {
        1
    } else {
        c as nat
    }
}

/// Estimated message count for a session file of the given size.
pub fn estimate_message_count_from_size(file_size: u64) -> (r: usize)
    ensures
        r >= 1,
        estimate_spec(file_size) <= usize::MAX ==> r == estimate_spec(file_size),
        estimate_spec(file_size) > usize::MAX ==> r == usize::MAX,
{
    let q = file_size / 1000;
    let m: u64 = if file_size % 1000 != 0 {
        q + 1
    } else {
        q
    };
    let m: u64 = if m < 1 {
        1
    } else {
        m
    };
    if m > usize::MAX as u64 {
        usize::MAX
    } else {
        m as usize
    }
}

} // verus!
