//! Best-effort decoding of encoded session-storage names back into real
//! project paths.
//!
//! A project's sessions are stored under a directory whose name is the
//! project's path with every separator replaced by `-`. The encoding is
//! lossy: a `-` may also be a literal character of a directory name, so
//! exact decoding needs the live filesystem. The machines in this module
//! drive that probing; the heuristics here are the pure fallbacks used
//! when probing fails.

use vstd::prelude::*;
use vstd::string::StrSliceExecFns;
use vstd::string::StringExecFns;
use crate::chars::next_char;
use crate::chars::find_char_from;
use crate::chars::find_substring;
use crate::chars::str_concat2;
use crate::chars::str_concat3;
use crate::paths::is_absolute_path;
use crate::probe::PathProbe;
use crate::probe::ProbeKind;
use crate::probe::ProbeStep;
use crate::probe::ProbeDecode;
use crate::probe::PrefixWalk;
use crate::probe::WalkStep;

verus! {

/// Number of occurrences of `c` in `s`.
pub open spec fn count_char(s: Seq<char>, c: char) -> int
    decreases s.len(),
{
    if s.len() == 0 {
        0
    } else {
        (if s[s.len() - 1] == c {
            1int
        } else {
            0int
        }) + count_char(s.drop_last(), c)
    }
}

proof fn lemma_count_char_push(s: Seq<char>, c: char, d: char)
    ensures
        count_char(s.push(d), c) == count_char(s, c) + (if d == c {
            1int
        } else {
            0int
        }),
{
    assert(s.push(d).drop_last() =~= s);
}

/// Count the occurrences of `c` in `s`.
pub fn count_char_in(s: &str, c: char) -> (r: usize)
    ensures
        r == count_char(s@, c),
{
    let n = s.unicode_len();
    let mut i: usize = 0;
    let mut count: usize = 0;
    while i < n
        invariant
            0 <= i <= n,
            n == s@.len(),
            count == count_char(s@.subrange(0, i as int), c),
            count <= i,
        decreases n - i,
    {
        let is_hit = s.get_char(i) == c;
        proof {
            lemma_count_char_push(s@.subrange(0, i as int), c, s@[i as int]);
            assert(s@.subrange(0, i as int).push(s@[i as int]) =~= s@.subrange(0, i + 1));
        }
        if is_hit {
            count = count + 1;
        }
        i = i + 1;
    }
    proof {
        assert(s@.subrange(0, n as int) =~= s@);
    }
    count
}

/// Whether an encoded name has the drive-letter shape `X--rest`: a
/// single ASCII letter followed by a doubled delimiter.
pub open spec fn is_windows_encoded(e: Seq<char>) -> bool {
    e.len() >= 3 && is_ascii_letter(e[0]) && e[1] == '-' && e[2] == '-'
}

/// An ASCII letter.
pub open spec fn is_ascii_letter(c: char) -> bool {
    ('a' <= c && c <= 'z') || ('A' <= c && c <= 'Z')
}

/// Whether `e` has the drive-letter shape `X--rest`.
pub fn check_windows_encoded(e: &str) -> (r: bool)
    ensures
        r == is_windows_encoded(e@),
{
    if e.unicode_len() < 3 {
        return false;
    }
    let c = e.get_char(0);
    (('a' <= c && c <= 'z') || ('A' <= c && c <= 'Z')) && e.get_char(1) == '-' && e.get_char(2)
        == '-'
}

/// The positional fallback for a delimiter-prefixed encoded name: split
/// on the first three delimiters and reassemble with `/`, degrading to
/// fewer components when fewer delimiters are present.
pub open spec fn unix_heuristic_spec(e: Seq<char>) -> Seq<char>
    recommends
        e.len() > 0,
        e[0] == '-',
{
    let a = next_char(e, '-', 1);
    if a == e.len() {
        seq!['/'] + e.subrange(1, e.len() as int)
    } else {
        let b = next_char(e, '-', a + 1);
        if b == e.len() {
            seq!['/'] + e.subrange(1, a) + seq!['/'] + e.subrange(a + 1, e.len() as int)
        } else {
            seq!['/'] + e.subrange(1, a) + seq!['/'] + e.subrange(a + 1, b) + seq!['/'] + e.subrange(
                b + 1,
                e.len() as int,
            )
        }
    }
}

/// Reassemble a `-`-prefixed encoded name as an absolute `/` path by the
/// positional three-level convention.
pub fn unix_heuristic(e: &str) -> (r: String)
    requires
        e@.len() > 0,
        e@[0] == '-',
    ensures
        r@ == unix_heuristic_spec(e@),
{
    let n = e.unicode_len();
    proof {
        reveal_strlit("/");
    }
    match find_char_from(e, '-', 1) {
        None => str_concat2("/", e.substring_char(1, n)),
        Some(a) => {
            match find_char_from(e, '-', a + 1) {
                None => {
                    let first = str_concat3("/", e.substring_char(1, a), "/");
                    str_concat2(first.as_str(), e.substring_char(a + 1, n))
                },
                Some(b) => {
                    let first = str_concat3("/", e.substring_char(1, a), "/");
                    let second = str_concat3(e.substring_char(a + 1, b), "/", e.substring_char(
                        b + 1,
                        n,
                    ));
                    str_concat2(first.as_str(), second.as_str())
                },
            }
        },
    }
}

/// The positional fallback for a drive-letter encoded name: the drive,
/// then the first segments split on delimiters, joined with `\`, the
/// third segment keeping any further delimiters.
pub open spec fn windows_heuristic_spec(e: Seq<char>) -> Seq<char>
    recommends
        is_windows_encoded(e),
{
    let after = e.subrange(3, e.len() as int);
    let drive = seq![e[0], ':', '\\'];
    let a = next_char(after, '-', 0);
    if a == after.len() {
        drive + after
    } else {
        let b = next_char(after, '-', a + 1);
        if b == after.len() {
            drive + after.subrange(0, a) + seq!['\\'] + after.subrange(a + 1, after.len() as int)
        } else {
            drive + after.subrange(0, a) + seq!['\\'] + after.subrange(a + 1, b) + seq!['\\']
                + after.subrange(b + 1, after.len() as int)
        }
    }
}

/// Reassemble a drive-letter encoded name as a `X:\...` path by the
/// positional convention.
pub fn windows_heuristic(e: &str) -> (r: String)
    requires
        is_windows_encoded(e@),
    ensures
        r@ == windows_heuristic_spec(e@),
{
    let n = e.unicode_len();
    let drive = e.substring_char(0, 1);
    let head = str_concat2(drive, ":\\");
    let after = e.substring_char(3, n);
    let m = after.unicode_len();
    proof {
        reveal_strlit(":\\");
        reveal_strlit("\\");
        assert(head@ =~= seq![e@[0], ':', '\\']);
    }
    match find_char_from(after, '-', 0) {
        None => {
            let r = str_concat2(head.as_str(), after);
            proof {
                assert(r@ =~= windows_heuristic_spec(e@));
            }
            r
        },
        Some(a) => {
            match find_char_from(after, '-', a + 1) {
                None => {
                    let mid = str_concat2(after.substring_char(0, a), "\\");
                    let tail = str_concat2(mid.as_str(), after.substring_char(a + 1, m));
                    let r = str_concat2(head.as_str(), tail.as_str());
                    proof {
                        assert(r@ =~= windows_heuristic_spec(e@));
                    }
                    r
                },
                Some(b) => {
                    let mid = str_concat3(after.substring_char(0, a), "\\", after.substring_char(
                        a + 1,
                        b,
                    ));
                    let tail = str_concat2("\\", after.substring_char(b + 1, m));
                    let whole = str_concat2(mid.as_str(), tail.as_str());
                    let r = str_concat2(head.as_str(), whole.as_str());
                    proof {
                        assert(r@ =~= windows_heuristic_spec(e@));
                    }
                    r
                },
            }
        },
    }
}

/// The display name the positional convention gives a raw storage
/// directory name: the part after the conventional home prefix.
pub open spec fn extract_project_name_spec(raw: Seq<char>) -> Seq<char> {
    if raw.len() > 0 && raw[0] == '-' {
        let a = next_char(raw, '-', 1);
        if a == raw.len() {
            raw
        } else {
            let b = next_char(raw, '-', a + 1);
            if b == raw.len() {
                raw
            } else {
                raw.subrange(b + 1, raw.len() as int)
            }
        }
    } else if is_windows_encoded(raw) {
        let after = raw.subrange(3, raw.len() as int);
        let a = next_char(after, '-', 0);
        if a == after.len() {
            raw
        } else {
            let b = next_char(after, '-', a + 1);
            if b == after.len() {
                raw
            } else {
                after.subrange(b + 1, after.len() as int)
            }
        }
    } else {
        raw
    }
}

/// The display name for a project's raw storage directory name, by the
/// positional convention alone. A drive-letter name can be refined
/// further with filesystem knowledge: see
/// [`extract_project_name_with_fs`].
pub fn extract_project_name(raw_project_name: &str) -> (r: String)
    ensures
        r@ == extract_project_name_spec(raw_project_name@),
{
    let raw = raw_project_name;
    let n = raw.unicode_len();
    if n > 0 && raw.get_char(0) == '-' {
        match find_char_from(raw, '-', 1) {
            None => String::from_str(raw),
            Some(a) => {
                match find_char_from(raw, '-', a + 1) {
                    None => String::from_str(raw),
                    Some(b) => String::from_str(raw.substring_char(b + 1, n)),
                }
            },
        }
    } else if check_windows_encoded(raw) {
        let after = raw.substring_char(3, n);
        let m = after.unicode_len();
        match find_char_from(after, '-', 0) {
            None => String::from_str(raw),
            Some(a) => {
                match find_char_from(after, '-', a + 1) {
                    None => String::from_str(raw),
                    Some(b) => String::from_str(after.substring_char(b + 1, m)),
                }
            },
        }
    } else {
        String::from_str(raw)
    }
}

/// Refine a drive-letter storage name with what a deepest-prefix walk of
/// the filesystem found: when the walk got past a `Users\<name>` prefix
/// (three separators deep) and left a non-empty remainder, that
/// remainder is the project name. Anything shallower is unreliable and
/// yields `None`, leaving the positional convention in force.
pub fn extract_project_name_with_fs(raw_project_name: &str, deepest: &str, remaining: &str) -> (r:
    Option<String>)
    ensures
        (match r {
            Some(name) => is_windows_encoded(raw_project_name@) && remaining@.len() > 0
                && count_char(deepest@, '\\') >= 3 && name@ == remaining@,
            None => !(is_windows_encoded(raw_project_name@) && remaining@.len() > 0 && count_char(
                deepest@,
                '\\',
            ) >= 3),
        }),
{
    if !check_windows_encoded(raw_project_name) {
        return None;
    }
    let sep_count = count_char_in(deepest, '\\');
    if remaining.unicode_len() > 0 && sep_count >= 3 {
        Some(String::from_str(remaining))
    } else {
        None
    }
}

/// The deepest-walk outcome folded into a final windows-style path:
/// trust the walk only when it got three separators deep, appending any
/// remainder; otherwise fall back to the positional convention.
pub open spec fn win_finish_spec(encoded: Seq<char>, deepest: Seq<char>, remaining: Seq<
    char,
>) -> Seq<char> {
    if count_char(deepest, '\\') >= 3 && remaining.len() > 0 {
        deepest + seq!['\\'] + remaining
    } else if count_char(deepest, '\\') >= 3 {
        deepest
    } else {
        windows_heuristic_spec(encoded)
    }
}

/// Fold a deepest-walk outcome into the decoded path for a drive-letter
/// encoded name.
pub fn win_finish(encoded: &str, deepest: String, remaining: &str) -> (r: String)
    requires
        is_windows_encoded(encoded@),
    ensures
        r@ == win_finish_spec(encoded@, deepest@, remaining@),
{
    let sep_count = count_char_in(deepest.as_str(), '\\');
    if sep_count >= 3 && remaining.unicode_len() > 0 {
        let r = str_concat3(deepest.as_str(), "\\", remaining);
        proof {
            reveal_strlit("\\");
            assert(r@ =~= win_finish_spec(encoded@, deepest@, remaining@));
        }
        r
    } else if sep_count >= 3 {
        deepest
    } else {
        windows_heuristic(encoded)
    }
}

/// Name for what serde_json extracts from a sessions-index file: the
/// `originalPath` string field of the JSON object the text holds, if the
/// text parses and has one. The extraction is a function of the text
/// alone.
pub uninterp spec fn index_original_path_of(content: Seq<char>) -> Option<Seq<char>>;

/// Relies on serde_json — `from_str`, `Value::get` and `Value::as_str` —
/// to parse an index file's text and extract its `originalPath` string
/// field.
#[verifier::external_body]
fn index_original_path(content: &str) -> (r: Option<String>)
    ensures
        (match r {
            Some(s) => index_original_path_of(content@) == Some(s@),
            None => index_original_path_of(content@) is None,
        }),
{
    serde_json::from_str::<serde_json::Value>(content).ok().and_then(
        |v| v.get("originalPath").and_then(|p| p.as_str()).map(|s| s.to_string()),
    )
}

/// What the project-path decoder asks its caller to do next.
#[derive(Debug)]
pub enum DecodeQuery {
    /// Read this file's text, if it exists and is readable.
    IndexFile(String),
    /// Answer this filesystem probe.
    Probe(PathProbe),
}

/// A step of the project-path decoder: a request, or the decoded path.
#[derive(Debug)]
pub enum DecodeStep {
    Ask(DecodeQuery),
    Done(String),
}

/// The caller's reply to the decoder's last request.
#[derive(Debug)]
pub enum DecodeReply {
    /// The requested file's text, or `None` if it could not be read.
    Content(Option<String>),
    /// The probe's answer.
    Answer(bool),
}

/// Where the project-path decode stands.
#[derive(Clone, Copy, Debug, PartialEq, Eq, Structural)]
enum PhaseTag {
    /// The sessions-index override has been requested.
    AwaitIndex,
    /// Exact probing of a `-`-prefixed name is under way.
    UnixProbe,
    /// Exact probing of a drive-letter name is under way.
    WinProbe,
    /// Partial deepest-prefix walk of a drive-letter name is under way.
    WinWalk,
    /// Decoding has finished.
    Idle,
}

/// Whether the storage-root marker occurs in the path, in either
/// spelling.
pub open spec fn has_storage_marker(p: Seq<char>) -> bool {
    (exists|j: int| crate::chars::match_at(p, ".sessions/projects/"@, j)) || (exists|j: int|
        crate::chars::match_at(p, ".sessions\\projects\\"@, j))
}

/// The position of the storage-root marker in a path: the first
/// occurrence of the forward-slash spelling or, failing that, of the
/// backslash spelling. Meaningful only when `has_storage_marker` holds.
pub open spec fn storage_marker_at(p: Seq<char>) -> int {
    if exists|j: int| crate::chars::match_at(p, ".sessions/projects/"@, j) {
        choose|j: int|
            crate::chars::match_at(p, ".sessions/projects/"@, j) && (forall|k: int|
                0 <= k < j ==> !crate::chars::match_at(p, ".sessions/projects/"@, k))
    } else {
        choose|j: int|
            crate::chars::match_at(p, ".sessions\\projects\\"@, j) && (forall|k: int|
                0 <= k < j ==> !crate::chars::match_at(p, ".sessions\\projects\\"@, k))
    }
}

/// The encoded directory name after the storage-root marker.
pub open spec fn encoded_tail(p: Seq<char>) -> Seq<char> {
    if exists|j: int| crate::chars::match_at(p, ".sessions/projects/"@, j) {
        p.subrange(storage_marker_at(p) + ".sessions/projects/"@.len(), p.len() as int)
    } else {
        p.subrange(storage_marker_at(p) + ".sessions\\projects\\"@.len(), p.len() as int)
    }
}

/// An encoded name in the delimiter-prefixed (absolute-path) form.
pub open spec fn unix_shaped(t: Seq<char>) -> bool {
    t.len() > 0 && t[0] == '-'
}

/// Whether a step asks for file content (rather than a probe answer).
pub open spec fn asks_content(r: DecodeStep) -> bool {
    match r {
        DecodeStep::Ask(q) => (match q {
            DecodeQuery::IndexFile(_) => true,
            DecodeQuery::Probe(_) => false,
        }),
        DecodeStep::Done(_) => false,
    }
}

/// The yes/no content of a reply (file content answers no).
pub open spec fn reply_answer(reply: DecodeReply) -> bool {
    match reply {
        DecodeReply::Answer(b) => b,
        DecodeReply::Content(_) => false,
    }
}

/// An inner exact-decoder outcome seen through the delimiter-prefixed
/// phase: probes pass through; a decoded path is the result; a failed
/// decode falls back to the positional heuristic of the tail.
pub open spec fn lift_unix(pr: ProbeStep, r: DecodeStep, t: Seq<char>) -> bool {
    match pr {
        ProbeStep::Ask(p) => (match r {
            DecodeStep::Ask(q) => (match q {
                DecodeQuery::Probe(qq) => qq.kind == p.kind && qq.path@ == p.path@,
                DecodeQuery::IndexFile(_) => false,
            }),
            DecodeStep::Done(_) => false,
        }),
        ProbeStep::Done(o) => (match o {
            Some(s) => (match r {
                DecodeStep::Done(out) => out@ == s@,
                DecodeStep::Ask(_) => false,
            }),
            None => (match r {
                DecodeStep::Done(out) => out@ == unix_heuristic_spec(t),
                DecodeStep::Ask(_) => false,
            }),
        }),
    }
}

/// Law: whatever the delimiter-prefixed strategy reports is an
/// absolute path — whether the positional heuristic fired or the exact
/// decoder confirmed a path under the root.
pub proof fn lemma_unix_decode_absolute(t: Seq<char>, s: Seq<char>)
    requires
        unix_shaped(t),
        s == unix_heuristic_spec(t) || (t.len() > 1 && crate::probe::decoded_shape(
            t.subrange(1, t.len() as int),
            Seq::<char>::empty(),
            s,
        )),
    ensures
        crate::paths::is_absolute_spec(s),
{
    if s == unix_heuristic_spec(t) {
        let a = next_char(t, '-', 1);
        crate::chars::lemma_next_char_bounds(t, '-', 1);
        if a == t.len() {
            assert(s[0] == (seq!['/'] + t.subrange(1, t.len() as int))[0]);
        } else {
            let b = next_char(t, '-', a + 1);
            crate::chars::lemma_next_char_bounds(t, '-', a + 1);
            assert(s[0] == '/');
        }
    } else {
        crate::probe::lemma_decoded_shape_head(
            t.subrange(1, t.len() as int),
            Seq::<char>::empty(),
            s,
        );
    }
}

/// An inner walk outcome seen through the drive-letter phase: probes
/// pass through as directory probes; a finished walk is folded by
/// `win_finish_spec` into the result.
pub open spec fn lift_walk(wr: WalkStep, r: DecodeStep, enc: Seq<char>) -> bool {
    match wr {
        WalkStep::Ask(path) => (match r {
            DecodeStep::Ask(q) => (match q {
                DecodeQuery::Probe(p) => p.kind == ProbeKind::RealDir && p.path@ == path@,
                DecodeQuery::IndexFile(_) => false,
            }),
            DecodeStep::Done(_) => false,
        }),
        WalkStep::Done(d, rem) => (match r {
            DecodeStep::Done(out) => out@ == win_finish_spec(enc, d@, rem@),
            DecodeStep::Ask(_) => false,
        }),
    }
}

/// An inner exact-decoder outcome seen through the drive-letter phase:
/// probes pass through; a decoded path is the result; a failed decode
/// hands over to a freshly begun deepest-prefix walk, whose own first
/// outcome is lifted by `lift_walk`.
pub open spec fn lift_win_probe(pr: ProbeStep, r: DecodeStep, m: ProjectPathDecoder, enc: Seq<
    char,
>) -> bool {
    match pr {
        ProbeStep::Ask(p) => (match r {
            DecodeStep::Ask(q) => (match q {
                DecodeQuery::Probe(qq) => qq.kind == p.kind && qq.path@ == p.path@,
                DecodeQuery::IndexFile(_) => false,
            }),
            DecodeStep::Done(_) => false,
        }),
        ProbeStep::Done(o) => (match o {
            Some(s) => (match r {
                DecodeStep::Done(out) => out@ == s@,
                DecodeStep::Ask(_) => false,
            }),
            None => (exists|wr: WalkStep|
                #![trigger lift_walk(wr, r, enc)]
                crate::probe::walk_begin_post(
                    m.walk_machine(),
                    wr,
                    win_after_of(enc),
                    win_base_of(enc),
                    "\\"@,
                ) && lift_walk(wr, r, enc)),
        }),
    }
}

/// The authoritative project path a reply to the index-file request
/// carries, if any: an `originalPath` field that is non-empty and
/// absolute.
pub open spec fn content_override(reply: DecodeReply) -> Option<Seq<char>> {
    match reply {
        DecodeReply::Content(c) => match c {
            Some(text) => match index_original_path_of(text@) {
                Some(orig) => if orig.len() > 0 && crate::paths::is_absolute_spec(orig) {
                    Some(orig)
                } else {
                    None
                },
                None => None,
            },
            None => None,
        },
        DecodeReply::Answer(_) => None,
    }
}

/// What a step owes while a `-`-prefixed name is probed: any decoded
/// path it finishes with either has the probe-confirmed shape — the
/// suffix after the leading delimiter placed under the root, some
/// delimiters as separators — or is the positional fallback.
pub open spec fn unix_step_ok(r: DecodeStep, enc: Seq<char>) -> bool {
    match r {
        DecodeStep::Done(s) => s@ == unix_heuristic_spec(enc) || crate::probe::decoded_shape(
            enc.subrange(1, enc.len() as int),
            Seq::<char>::empty(),
            s@,
        ),
        DecodeStep::Ask(_) => true,
    }
}

/// The suffix of a drive-letter encoded name after `X--`.
pub open spec fn win_after_of(enc: Seq<char>) -> Seq<char> {
    enc.subrange(3, enc.len() as int)
}

/// The drive base a drive-letter encoded name is decoded under.
pub open spec fn win_base_of(enc: Seq<char>) -> Seq<char> {
    enc.subrange(0, 1) + ":"@
}

/// What a step owes while a drive-letter name is probed or walked: any
/// decoded path it finishes with either has the probe-confirmed shape
/// under the drive base, or folds a genuine deepest-prefix walk outcome
/// (which itself degrades to the positional fallback when too shallow).
pub open spec fn win_step_ok(r: DecodeStep, enc: Seq<char>) -> bool {
    match r {
        DecodeStep::Done(s) => {
            ||| crate::probe::decoded_shape(win_after_of(enc), win_base_of(enc), s@)
            ||| (exists|d: Seq<char>, rem: Seq<char>|
                #![trigger win_finish_spec(enc, d, rem)]
                crate::probe::walk_reaches(win_after_of(enc), win_base_of(enc), "\\"@, rem, d) && s@
                    == win_finish_spec(enc, d, rem))
        },
        DecodeStep::Ask(_) => true,
    }
}

/// What dispatching a delimiter-prefixed tail owes: the machine holds
/// the tail, enters exact probing of the stripped tail under the root
/// exactly when a probe goes out, and otherwise already reports the
/// heuristic.
pub open spec fn unix_dispatch_post(r: DecodeStep, m: ProjectPathDecoder, t: Seq<char>) -> bool {
    &&& m.encoded_name() == t
    &&& (m.in_unix_probe() == (r is Ask))
    &&& (exists|pr: ProbeStep|
        #![trigger lift_unix(pr, r, t)]
        crate::probe::probe_begin_post(
            m.probe_machine(),
            pr,
            t.subrange(1, t.len() as int),
            Seq::<char>::empty(),
        ) && lift_unix(pr, r, t))
}

/// The decoder for a session storage path: resolves the real project
/// path it stands for, never failing. Pump it: hand each request's
/// answer back until it reports `Done`.
///
/// Priority order: an authoritative `originalPath` from the sidecar
/// index file wins; then exact filesystem-probed decoding of the name
/// after the storage-root marker; then (drive-letter names) a partial
/// deepest-prefix walk; then the positional heuristic; a path with no
/// marker at all comes back unchanged.
///
/// Every step's result is pinned by its contract as a function of the
/// machine state and the reply — the index step directly, the
/// delimiter-prefixed phase through `probe_step_post` and `lift_unix`,
/// the drive-letter phases through `probe_step_post`, `walk_step_post`
/// and their lifts — so two pumps fed equal replies take equal steps
/// throughout: a decode is determined by the input and the filesystem
/// answers alone.
pub struct ProjectPathDecoder {
    input: String,
    encoded: String,
    tag: PhaseTag,
    probe: ProbeDecode,
    walk: PrefixWalk,
}

impl ProjectPathDecoder {
    /// Whether the decoder waits for a reply; only then may it be
    /// stepped.
    pub closed spec fn awaiting(self) -> bool {
        match self.tag {
            PhaseTag::AwaitIndex => true,
            PhaseTag::UnixProbe => self.probe.awaiting(),
            PhaseTag::WinProbe => self.probe.awaiting(),
            PhaseTag::WinWalk => self.walk.awaiting(),
            PhaseTag::Idle => false,
        }
    }

    /// Whether the outstanding request asks for file content (else it
    /// asks for a probe answer).
    pub closed spec fn wants_content(self) -> bool {
        self.tag is AwaitIndex
    }

    /// The decoder's internal consistency.
    pub closed spec fn wf(self) -> bool {
        &&& (self.tag is UnixProbe ==> self.probe.wf() && self.probe.awaiting()
            && self.encoded@.len() > 0 && self.encoded@[0] == '-' && self.probe.source_encoded()
            == self.encoded@.subrange(1, self.encoded@.len() as int) && self.probe.source_base()
            == Seq::<char>::empty())
        &&& (self.tag is WinProbe ==> self.probe.wf() && self.probe.awaiting()
            && is_windows_encoded(self.encoded@) && self.probe.source_encoded() == win_after_of(
            self.encoded@,
        ) && self.probe.source_base() == win_base_of(self.encoded@))
        &&& (self.tag is WinWalk ==> self.walk.wf() && self.walk.awaiting() && is_windows_encoded(
            self.encoded@,
        ) && self.walk.source_encoded() == win_after_of(self.encoded@) && self.walk.source_base()
            == win_base_of(self.encoded@) && self.walk.sep_seq() == "\\"@)
    }

    /// The encoded directory name under decode, once the marker has
    /// been located.
    pub closed spec fn encoded_name(self) -> Seq<char> {
        self.encoded@
    }

    /// Whether the decoder is probing a `-`-prefixed name.
    pub closed spec fn in_unix_probe(self) -> bool {
        self.tag is UnixProbe
    }

    /// Whether the decoder is probing or walking a drive-letter name.
    pub closed spec fn in_win_phase(self) -> bool {
        self.tag is WinProbe || self.tag is WinWalk
    }

    /// The inner exact-probing machine.
    pub closed spec fn probe_machine(self) -> ProbeDecode {
        self.probe
    }

    /// The inner deepest-prefix walk.
    pub closed spec fn walk_machine(self) -> PrefixWalk {
        self.walk
    }

    /// Whether the decoder is exact-probing a drive-letter name.
    pub closed spec fn in_win_probe(self) -> bool {
        self.tag is WinProbe
    }

    /// Whether the decoder is walking a drive-letter name.
    pub closed spec fn in_win_walk(self) -> bool {
        self.tag is WinWalk
    }

    /// Whether the decoder waits for a reply.
    pub fn is_awaiting(&self) -> (r: bool)
        ensures
            r == self.awaiting(),
    {
        match self.tag {
            PhaseTag::AwaitIndex => true,
            PhaseTag::UnixProbe => self.probe.is_awaiting(),
            PhaseTag::WinProbe => self.probe.is_awaiting(),
            PhaseTag::WinWalk => self.walk.is_awaiting(),
            PhaseTag::Idle => false,
        }
    }

    /// Whether the outstanding request asks for file content.
    pub fn is_awaiting_content(&self) -> (r: bool)
        ensures
            r == self.wants_content(),
    {
        match self.tag {
            PhaseTag::AwaitIndex => true,
            _ => false,
        }
    }

    /// Start decoding `storage_path`. The first request asks for the
    /// text of the sidecar index file beside the encoded directory.
    pub fn begin(storage_path: &str) -> (r: (ProjectPathDecoder, DecodeStep))
        ensures
            r.0.wf(),
            r.0.awaiting(),
            r.0.wants_content(),
            r.0.input() == storage_path@,
            (r.1 matches DecodeStep::Ask(q) && (q matches DecodeQuery::IndexFile(p) && p@
                == storage_path@ + "/sessions-index.json"@)),
    {
        let m = ProjectPathDecoder {
            input: String::from_str(storage_path),
            encoded: String::new(),
            tag: PhaseTag::AwaitIndex,
            probe: ProbeDecode::idle(),
            walk: PrefixWalk::idle(),
        };
        let index_path = str_concat2(storage_path, "/sessions-index.json");
        (m, DecodeStep::Ask(DecodeQuery::IndexFile(index_path)))
    }

    /// Feed the decoder the reply to its outstanding request.
    #[verifier::rlimit(100)]
    pub fn step(&mut self, reply: DecodeReply) -> (r: DecodeStep)
        requires
            old(self).wf(),
            old(self).awaiting(),
            (reply is Content) == old(self).wants_content(),
        ensures
            final (self).wf(),
            (r is Ask) == final (self).awaiting(),
            (old(self).wants_content() && content_override(reply) is Some) ==> (r matches
                DecodeStep::Done(out) && Some(out@) == content_override(reply)),
            (old(self).wants_content() && content_override(reply) is None && !has_storage_marker(
                old(self).input(),
            )) ==> (r matches DecodeStep::Done(out) && out@ == old(self).input()),
            final (self).input() == old(self).input(),
            old(self).in_unix_probe() ==> unix_step_ok(r, old(self).encoded_name()),
            old(self).in_win_phase() ==> win_step_ok(r, old(self).encoded_name()),
            old(self).in_unix_probe() ==> (final (self).in_unix_probe() == (r is Ask)) && final (
            self).encoded_name() == old(self).encoded_name() && (exists|pr: ProbeStep|
                #![trigger lift_unix(pr, r, old(self).encoded_name())]
                crate::probe::probe_step_post(
                    old(self).probe_machine(),
                    final (self).probe_machine(),
                    reply_answer(reply),
                    pr,
                ) && lift_unix(pr, r, old(self).encoded_name())),
            old(self).in_win_phase() && r is Ask ==> final (self).in_win_phase() && final (
            self).encoded_name() == old(self).encoded_name(),
            old(self).in_win_probe() ==> final (self).encoded_name() == old(self).encoded_name()
                && (exists|pr: ProbeStep|
                #![trigger lift_win_probe(pr, r, *final (self), old(self).encoded_name())]
                crate::probe::probe_step_post(
                    old(self).probe_machine(),
                    final (self).probe_machine(),
                    reply_answer(reply),
                    pr,
                ) && lift_win_probe(pr, r, *final (self), old(self).encoded_name()) && (final (
                self).in_win_probe() <==> pr is Ask) && ((pr is Done && r is Ask) ==> final (
                self).in_win_walk())),
            old(self).in_win_walk() ==> final (self).encoded_name() == old(self).encoded_name()
                && (r is Ask ==> final (self).in_win_walk()) && (exists|wr: WalkStep|
                #![trigger lift_walk(wr, r, old(self).encoded_name())]
                crate::probe::walk_step_post(
                    old(self).walk_machine(),
                    final (self).walk_machine(),
                    reply_answer(reply),
                    wr,
                ) && lift_walk(wr, r, old(self).encoded_name())),
            r is Ask ==> (final (self).wants_content() == asks_content(r)),
            (old(self).wants_content() && content_override(reply) is None && has_storage_marker(
                old(self).input(),
            ) && unix_shaped(encoded_tail(old(self).input()))) ==> unix_dispatch_post(
                r,
                *final (self),
                encoded_tail(old(self).input()),
            ),
            (old(self).wants_content() && content_override(reply) is None && has_storage_marker(
                old(self).input(),
            ) && !unix_shaped(encoded_tail(old(self).input())) && is_windows_encoded(
                encoded_tail(old(self).input()),
            )) ==> (r is Ask ==> final (self).in_win_phase() && final (self).encoded_name()
                == encoded_tail(old(self).input())) && win_step_ok(r, encoded_tail(old(self).input())),
            (old(self).wants_content() && content_override(reply) is None && has_storage_marker(
                old(self).input(),
            ) && !unix_shaped(encoded_tail(old(self).input())) && !is_windows_encoded(
                encoded_tail(old(self).input()),
            )) ==> (r matches DecodeStep::Done(out) && out@ == old(self).input()),
    {
        match self.tag {
            PhaseTag::AwaitIndex => {
                let content = match reply {
                    DecodeReply::Content(c) => c,
                    DecodeReply::Answer(_) => None,
                };
                if let Some(text) = content {
                    if let Some(orig) = index_original_path(text.as_str()) {
                        if orig.as_str().unicode_len() > 0 && is_absolute_path(orig.as_str()) {
                            self.tag = PhaseTag::Idle;
                            return DecodeStep::Done(orig);
                        }
                    }
                }
                self.dispatch_marker()
            },
            PhaseTag::UnixProbe => {
                let answer = match reply {
                    DecodeReply::Answer(b) => b,
                    DecodeReply::Content(_) => false,
                };
                let st = self.probe.step(answer);
                let ghost gst = st;
                match st {
                    ProbeStep::Ask(p) => {
                        let out = DecodeStep::Ask(DecodeQuery::Probe(p));
                        proof {
                            assert(lift_unix(gst, out, self.encoded@));
                        }
                        out
                    },
                    ProbeStep::Done(Some(path)) => {
                        self.tag = PhaseTag::Idle;
                        let out = DecodeStep::Done(path);
                        proof {
                            assert(lift_unix(gst, out, self.encoded@));
                        }
                        out
                    },
                    ProbeStep::Done(None) => {
                        self.tag = PhaseTag::Idle;
                        let out = DecodeStep::Done(unix_heuristic(self.encoded.as_str()));
                        proof {
                            assert(lift_unix(gst, out, self.encoded@));
                        }
                        out
                    },
                }
            },
            PhaseTag::WinProbe => {
                let answer = match reply {
                    DecodeReply::Answer(b) => b,
                    DecodeReply::Content(_) => false,
                };
                let ghost genc = self.encoded@;
                let ghost gprobe0 = self.probe;
                let st = self.probe.step(answer);
                let ghost gpr = st;
                proof {
                    assert(answer == reply_answer(reply));
                    assert(crate::probe::probe_step_post(gprobe0, self.probe, answer, gpr));
                }
                match st {
                    ProbeStep::Ask(p) => {
                        let out = DecodeStep::Ask(DecodeQuery::Probe(p));
                        proof {
                            assert(lift_win_probe(gpr, out, *self, genc));
                        }
                        out
                    },
                    ProbeStep::Done(Some(path)) => {
                        self.tag = PhaseTag::Idle;
                        let out = DecodeStep::Done(path);
                        proof {
                            assert(lift_win_probe(gpr, out, *self, genc));
                        }
                        out
                    },
                    ProbeStep::Done(None) => {
                        let n = self.encoded.as_str().unicode_len();
                        let after = String::from_str(self.encoded.as_str().substring_char(3, n));
                        let base = str_concat2(self.encoded.as_str().substring_char(0, 1), ":");
                        proof {
                            assert(after@ =~= win_after_of(genc));
                            assert(base@ =~= win_base_of(genc));
                        }
                        let walk_pair = PrefixWalk::begin(after.as_str(), base.as_str(), "\\");
                        let first = walk_pair.1;
                        let ghost gwr = first;
                        self.walk = walk_pair.0;
                        match first {
                            WalkStep::Ask(path) => {
                                self.tag = PhaseTag::WinWalk;
                                let out = DecodeStep::Ask(
                                    DecodeQuery::Probe(
                                        PathProbe { kind: ProbeKind::RealDir, path },
                                    ),
                                );
                                proof {
                                    assert(lift_walk(gwr, out, genc));
                                    assert(lift_win_probe(gpr, out, *self, genc));
                                }
                                out
                            },
                            WalkStep::Done(deepest, remaining) => {
                                self.tag = PhaseTag::Idle;
                                let out = DecodeStep::Done(
                                    win_finish(self.encoded.as_str(), deepest, remaining.as_str()),
                                );
                                proof {
                                    assert(lift_walk(gwr, out, genc));
                                    assert(lift_win_probe(gpr, out, *self, genc));
                                }
                                out
                            },
                        }
                    },
                }
            },
            PhaseTag::WinWalk => {
                let answer = match reply {
                    DecodeReply::Answer(b) => b,
                    DecodeReply::Content(_) => false,
                };
                let ghost genc = self.encoded@;
                let ghost gwalk0 = self.walk;
                let st = self.walk.step(answer);
                let ghost gwr = st;
                proof {
                    assert(answer == reply_answer(reply));
                    assert(crate::probe::walk_step_post(gwalk0, self.walk, answer, gwr));
                }
                match st {
                    WalkStep::Ask(path) => {
                        let out = DecodeStep::Ask(
                            DecodeQuery::Probe(PathProbe { kind: ProbeKind::RealDir, path }),
                        );
                        proof {
                            assert(lift_walk(gwr, out, genc));
                        }
                        out
                    },
                    WalkStep::Done(deepest, remaining) => {
                        self.tag = PhaseTag::Idle;
                        let out = DecodeStep::Done(
                            win_finish(self.encoded.as_str(), deepest, remaining.as_str()),
                        );
                        proof {
                            assert(lift_walk(gwr, out, genc));
                        }
                        out
                    },
                }
            },
            PhaseTag::Idle => {
                proof {
                    assert(false);
                }
                DecodeStep::Done(self.input.clone())
            },
        }
    }

    /// The storage path under decode.
    pub closed spec fn input(self) -> Seq<char> {
        self.input@
    }

    /// Locate the storage-root marker and hand the encoded tail to the
    /// right decoding strategy; without a marker the input comes back
    /// unchanged.
    fn dispatch_marker(&mut self) -> (r: DecodeStep)
        requires
            old(self).tag is AwaitIndex,
        ensures
            final (self).wf(),
            (r is Ask) == final (self).awaiting(),
            final (self).input() == old(self).input(),
            r is Ask ==> (final (self).wants_content() == asks_content(r)),
            !has_storage_marker(old(self).input()) ==> (r matches DecodeStep::Done(out) && out@
                == old(self).input()),
            has_storage_marker(old(self).input()) && unix_shaped(encoded_tail(old(self).input()))
                ==> unix_dispatch_post(r, *final (self), encoded_tail(old(self).input())),
            has_storage_marker(old(self).input()) && !unix_shaped(encoded_tail(old(self).input()))
                && is_windows_encoded(encoded_tail(old(self).input())) ==> (r is Ask ==> final (
            self).in_win_phase() && final (self).encoded_name() == encoded_tail(old(self).input()))
                && win_step_ok(r, encoded_tail(old(self).input())),
            has_storage_marker(old(self).input()) && !unix_shaped(encoded_tail(old(self).input()))
                && !is_windows_encoded(encoded_tail(old(self).input())) ==> (r matches
                DecodeStep::Done(out) && out@ == old(self).input()),
    {
        let n = self.input.as_str().unicode_len();
        match find_substring(self.input.as_str(), ".sessions/projects/") {
            Some(pos) => {
                let mlen = ".sessions/projects/".unicode_len();
                let encoded = String::from_str(self.input.as_str().substring_char(pos + mlen, n));
                proof {
                    let p = self.input@;
                    let m = ".sessions/projects/"@;
                    let first = storage_marker_at(p);
                    assert(crate::chars::match_at(p, m, first) && (forall|k: int|
                        0 <= k < first ==> !crate::chars::match_at(p, m, k)));
                    assert(first == pos as int);
                    assert(encoded@ =~= encoded_tail(p));
                }
                self.dispatch_tail(encoded)
            },
            None => {
                match find_substring(self.input.as_str(), ".sessions\\projects\\") {
                    Some(pos) => {
                        let mlen = ".sessions\\projects\\".unicode_len();
                        let encoded = String::from_str(
                            self.input.as_str().substring_char(pos + mlen, n),
                        );
                        proof {
                            let p = self.input@;
                            let m = ".sessions\\projects\\"@;
                            let first = storage_marker_at(p);
                            assert(crate::chars::match_at(p, m, first) && (forall|k: int|
                                0 <= k < first ==> !crate::chars::match_at(p, m, k)));
                            assert(first == pos as int);
                            assert(encoded@ =~= encoded_tail(p));
                        }
                        self.dispatch_tail(encoded)
                    },
                    None => {
                        self.tag = PhaseTag::Idle;
                        DecodeStep::Done(self.input.clone())
                    },
                }
            },
        }
    }

    /// Hand the encoded tail after the marker to the right decoding
    /// strategy: exact probing for a delimiter-prefixed or drive-letter
    /// name (with its fallbacks), anything else unchanged.
    fn dispatch_tail(&mut self, encoded: String) -> (r: DecodeStep)
        requires
            old(self).tag is AwaitIndex,
        ensures
            final (self).wf(),
            (r is Ask) == final (self).awaiting(),
            final (self).input() == old(self).input(),
            r is Ask ==> (final (self).wants_content() == asks_content(r)),
            unix_shaped(encoded@) ==> unix_dispatch_post(r, *final (self), encoded@),
            !unix_shaped(encoded@) && is_windows_encoded(encoded@) ==> (r is Ask ==> final (
            self).in_win_phase() && final (self).encoded_name() == encoded@) && win_step_ok(
                r,
                encoded@,
            ),
            !unix_shaped(encoded@) && is_windows_encoded(encoded@) ==> final (self).encoded_name()
                == encoded@ && (exists|pr: ProbeStep|
                #![trigger lift_win_probe(pr, r, *final (self), encoded@)]
                crate::probe::probe_begin_post(
                    final (self).probe_machine(),
                    pr,
                    win_after_of(encoded@),
                    win_base_of(encoded@),
                ) && lift_win_probe(pr, r, *final (self), encoded@) && (final (self).in_win_probe()
                <==> pr is Ask) && ((pr is Done && r is Ask) ==> final (self).in_win_walk())),
            !unix_shaped(encoded@) && !is_windows_encoded(encoded@) ==> (r matches
                DecodeStep::Done(out) && out@ == old(self).input()),
    {
        let en = encoded.as_str().unicode_len();
        if en > 0 && encoded.as_str().get_char(0) == '-' {
            let stripped = encoded.as_str().substring_char(1, en);
            let probe_pair = ProbeDecode::begin(stripped, "");
            proof {
                reveal_strlit("");
                assert(("")@ =~= Seq::<char>::empty());
            }
            let first = probe_pair.1;
            let ghost gpr = first;
            self.probe = probe_pair.0;
            self.encoded = encoded;
            match first {
                ProbeStep::Ask(p) => {
                    self.tag = PhaseTag::UnixProbe;
                    let out = DecodeStep::Ask(DecodeQuery::Probe(p));
                    proof {
                        assert(lift_unix(gpr, out, self.encoded@));
                    }
                    out
                },
                ProbeStep::Done(_) => {
                    self.tag = PhaseTag::Idle;
                    let out = DecodeStep::Done(unix_heuristic(self.encoded.as_str()));
                    proof {
                        assert(lift_unix(gpr, out, self.encoded@));
                    }
                    out
                },
            }
        } else if check_windows_encoded(encoded.as_str()) {
            let ghost genc = encoded@;
            let after = String::from_str(encoded.as_str().substring_char(3, en));
            let base = str_concat2(encoded.as_str().substring_char(0, 1), ":");
            proof {
                assert(after@ =~= win_after_of(genc));
                assert(base@ =~= win_base_of(genc));
            }
            let probe_pair = ProbeDecode::begin(after.as_str(), base.as_str());
            let first = probe_pair.1;
            let ghost gpr = first;
            self.probe = probe_pair.0;
            self.encoded = encoded;
            match first {
                ProbeStep::Ask(p) => {
                    self.tag = PhaseTag::WinProbe;
                    let out = DecodeStep::Ask(DecodeQuery::Probe(p));
                    proof {
                        assert(lift_win_probe(gpr, out, *self, genc));
                    }
                    out
                },
                ProbeStep::Done(_) => {
                    let walk_pair = PrefixWalk::begin(after.as_str(), base.as_str(), "\\");
                    let first_walk = walk_pair.1;
                    let ghost gwr = first_walk;
                    self.walk = walk_pair.0;
                    match first_walk {
                        WalkStep::Ask(path) => {
                            self.tag = PhaseTag::WinWalk;
                            let out = DecodeStep::Ask(
                                DecodeQuery::Probe(PathProbe { kind: ProbeKind::RealDir, path }),
                            );
                            proof {
                                assert(lift_walk(gwr, out, genc));
                                assert(lift_win_probe(gpr, out, *self, genc));
                            }
                            out
                        },
                        WalkStep::Done(deepest, remaining) => {
                            self.tag = PhaseTag::Idle;
                            let out = DecodeStep::Done(
                                win_finish(self.encoded.as_str(), deepest, remaining.as_str()),
                            );
                            proof {
                                assert(lift_walk(gwr, out, genc));
                                assert(lift_win_probe(gpr, out, *self, genc));
                            }
                            out
                        },
                    }
                },
            }
        } else {
            self.tag = PhaseTag::Idle;
            DecodeStep::Done(self.input.clone())
        }
    }
}

} // verus!
