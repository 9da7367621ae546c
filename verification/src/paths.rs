//! Path manipulation on plain strings.
//!
//! Paths are handled as strings with `/` (or, for decoded drive-style
//! paths, `\`) separators; no filesystem access happens here. The
//! functions mirror the usual component-wise path semantics for the
//! normal, separator-terminated-free paths this library deals with.

use vstd::prelude::*;
use vstd::string::StrSliceExecFns;
use vstd::string::StringExecFns;
use crate::chars::last_index_of;
use crate::chars::lemma_last_index_bounds;
use crate::chars::has_prefix;
use crate::chars::rfind_char;
use crate::chars::str_has_prefix;

verus! {

/// An absolute path: one that starts with the separator `/`.
pub open spec fn is_absolute_spec(p: Seq<char>) -> bool {
    p.len() > 0 && p[0] == '/'
}

/// Whether `path` is absolute.
pub fn is_absolute_path(path: &str) -> (r: bool)
    ensures
        r == is_absolute_spec(path@),
{
    if path.unicode_len() == 0 {
        false
    } else {
        path.get_char(0) == '/'
    }
}

/// The parent of a path: the path up to (excluding) the last separator;
/// `/x` has parent `/`, a bare name has parent the empty string, and the
/// root `/` (or an empty path) has none.
pub open spec fn parent_spec(p: Seq<char>) -> Option<Seq<char>> {
    let j = last_index_of(p, '/');
    if p.len() == 0 {
        None
    } else if j < 0 {
        Some(Seq::empty())
    } else if j == 0 {
        if p.len() == 1 {
            None
        } else {
            Some(seq!['/'])
        }
    } else {
        Some(p.subrange(0, j))
    }
}

/// The parent directory of `path`, if it has one.
pub fn parent_path(path: &str) -> (r: Option<String>)
    ensures
        (match r {
            Some(q) => parent_spec(path@) == Some(q@),
            None => parent_spec(path@) is None,
        }),
{
    let n = path.unicode_len();
    if n == 0 {
        return None;
    }
    match rfind_char(path, '/') {
        None => {
            let out = String::from_str("");
            proof {
                reveal_strlit("");
                assert(out@ =~= Seq::<char>::empty());
            }
            Some(out)
        },
        Some(j) => {
            if j == 0 {
                if n == 1 {
                    None
                } else {
                    let out = String::from_str("/");
                    proof {
                        reveal_strlit("/");
                        assert(out@ =~= seq!['/']);
                    }
                    Some(out)
                }
            } else {
                let out = path.substring_char(0, j);
                Some(String::from_str(out))
            }
        },
    }
}

proof fn lemma_parent_shorter(p: Seq<char>)
    requires
        parent_spec(p) is Some,
    ensures
        parent_spec(p)->Some_0.len() < p.len(),
{
    lemma_last_index_bounds(p, '/');
}

/// The chain of ancestor directories of `path`, nearest first, stopping
/// before an empty component: `/a/b/c` yields `/a/b`, `/a`, `/`.
pub open spec fn ancestors_spec(p: Seq<char>) -> Seq<Seq<char>>
    decreases p.len(),
        when true
        via ancestors_spec_dec
{
    match parent_spec(p) {
        None => Seq::empty(),
        Some(q) => if q.len() == 0 {
            Seq::empty()
        } else {
            seq![q] + ancestors_spec(q)
        },
    }
}

#[via_fn]
proof fn ancestors_spec_dec(p: Seq<char>) {
    if parent_spec(p) is Some {
        lemma_parent_shorter(p);
    }
}

/// The views of a vector of strings.
pub open spec fn strings_as_seqs(v: Seq<String>) -> Seq<Seq<char>> {
    Seq::new(v.len(), |i: int| v[i]@)
}

/// Every ancestor directory of `path`, nearest first.
pub fn ancestor_chain(path: &str) -> (r: Vec<String>)
    ensures
        strings_as_seqs(r@) == ancestors_spec(path@),
{
    let mut out: Vec<String> = Vec::new();
    let mut current = String::from_str(path);
    proof {
        assert(strings_as_seqs(out@) + ancestors_spec(current@) =~= ancestors_spec(path@));
    }
    loop
        invariant_except_break
            strings_as_seqs(out@) + ancestors_spec(current@) == ancestors_spec(path@),
        ensures
            strings_as_seqs(out@) == ancestors_spec(path@),
        decreases current@.len(),
    {
        match parent_path(current.as_str()) {
            None => {
                proof {
                    assert(strings_as_seqs(out@) + Seq::<Seq<char>>::empty() =~= strings_as_seqs(
                        out@,
                    ));
                }
                break ;
            },
            Some(par) => {
                if par.unicode_len() == 0 {
                    proof {
                        assert(strings_as_seqs(out@) + Seq::<Seq<char>>::empty()
                            =~= strings_as_seqs(out@));
                    }
                    break ;
                }
                proof {
                    lemma_parent_shorter(current@);
                }
                let ghost before = out@;
                out.push(par.clone());
                proof {
                    assert(strings_as_seqs(out@) =~= strings_as_seqs(before) + seq![par@]);
                    assert(strings_as_seqs(before) + (seq![par@] + ancestors_spec(par@)) =~= (
                    strings_as_seqs(before) + seq![par@]) + ancestors_spec(par@));
                }
                current = par;
            },
        }
    }
    out
}

/// The final component of a path: everything after the last separator,
/// or the whole path if it has none.
pub open spec fn file_name_spec(p: Seq<char>) -> Seq<char> {
    let j = last_index_of(p, '/');
    p.subrange(j + 1, p.len() as int)
}

/// The stem of a file name: the part before the last `.`, except that a
/// name whose only `.` is leading (or that has none) is its own stem; an
/// empty name has none.
pub open spec fn stem_of_name(name: Seq<char>) -> Option<Seq<char>> {
    if name.len() == 0 {
        None
    } else {
        let k = last_index_of(name, '.');
        if k <= 0 {
            Some(name)
        } else {
            Some(name.subrange(0, k))
        }
    }
}

/// The filename stem of a path.
pub open spec fn stem_spec(p: Seq<char>) -> Option<Seq<char>> {
    stem_of_name(file_name_spec(p))
}

/// The filename stem of `path`: its final component without extension.
pub fn file_stem_of(path: &str) -> (r: Option<String>)
    ensures
        (match r {
            Some(q) => stem_spec(path@) == Some(q@),
            None => stem_spec(path@) is None,
        }),
{
    let n = path.unicode_len();
    let start = match rfind_char(path, '/') {
        Some(j) => j + 1,
        None => 0,
    };
    let name = path.substring_char(start, n);
    let m = name.unicode_len();
    if m == 0 {
        return None;
    }
    match rfind_char(name, '.') {
        Some(k) if k > 0 => Some(String::from_str(name.substring_char(0, k))),
        _ => Some(String::from_str(name)),
    }
}

/// The path with its extension stripped: the last component loses the
/// part after its last `.`, unless that `.` is leading or absent.
pub open spec fn strip_extension_spec(p: Seq<char>) -> Seq<char> {
    let j = last_index_of(p, '/');
    let name = p.subrange(j + 1, p.len() as int);
    let k = last_index_of(name, '.');
    if k <= 0 {
        p
    } else {
        p.subrange(0, j + 1 + k)
    }
}

/// The companion path of a session file: the same path without its
/// extension.
pub fn strip_extension(path: &str) -> (r: String)
    ensures
        r@ == strip_extension_spec(path@),
{
    let n = path.unicode_len();
    let start = match rfind_char(path, '/') {
        Some(j) => j + 1,
        None => 0,
    };
    let name = path.substring_char(start, n);
    match rfind_char(name, '.') {
        Some(k) if k > 0 => {
            let out = String::from_str(path.substring_char(0, start + k));
            proof {
                assert(path@.subrange(0, (start + k) as int) =~= strip_extension_spec(path@));
            }
            out
        },
        _ => String::from_str(path),
    }
}

/// Component-wise path prefix: `path` equals `prefix`, or extends it at
/// a separator boundary.
pub open spec fn path_has_prefix(path: Seq<char>, prefix: Seq<char>) -> bool {
    has_prefix(path, prefix) && (path.len() == prefix.len() || path[prefix.len() as int] == '/'
        || (prefix.len() > 0 && prefix[prefix.len() - 1] == '/'))
}

/// Whether `path` lies at or below `prefix`, comparing whole components.
pub fn is_path_prefix_of(prefix: &str, path: &str) -> (r: bool)
    ensures
        r == path_has_prefix(path@, prefix@),
{
    if !str_has_prefix(path, prefix) {
        return false;
    }
    let m = prefix.unicode_len();
    let n = path.unicode_len();
    if n == m {
        return true;
    }
    if path.get_char(m) == '/' {
        return true;
    }
    if m > 0 && prefix.get_char(m - 1) == '/' {
        return true;
    }
    false
}

} // verus!
