//! Filesystem-probed decoding, as step machines.
//!
//! Decoding an encoded name needs the live filesystem: each delimiter
//! may or may not be a path separator, and only an existence check can
//! tell. This module holds the decision logic as machines that emit one
//! probe at a time and consume its answer; the caller (which owns the
//! filesystem access) pumps them until they finish. Same probes, same
//! answers: same result — the machines are deterministic, so a decode
//! is a pure function of the input and the filesystem state it saw.
//!
//! [`ProbeDecode`] is the exact decoder: it tries every delimiter as a
//! separator, backtracking, accepting only paths whose every directory
//! really exists (and is not a symlink). [`PrefixWalk`] is the partial
//! decoder: it commits to the first existing directory at each level and
//! reports how deep it got and what was left over.

use vstd::prelude::*;
use vstd::string::StrSliceExecFns;
use vstd::string::StringExecFns;
use crate::chars::find_char_from;
use crate::chars::next_char;
use crate::chars::seq_has_char;
use crate::chars::str_has_char;
use crate::chars::str_concat2;
use crate::chars::str_concat3;

verus! {

/// The step budget of a decoding machine: more filesystem probes than
/// this, and it gives up (far beyond any real directory tree).
pub const PROBE_FUEL: usize = 1000000;

/// The recursion depth bound that guards against pathological inputs.
pub const MAX_DEPTH: usize = 20;

/// What a probe asks of the filesystem.
#[derive(Clone, Copy, Debug, PartialEq, Eq, Structural)]
pub enum ProbeKind {
    /// Is the entry here a directory, by a symlink-unaware metadata
    /// query (a symlink to a directory answers no)?
    RealDir,
    /// Is there an entry here that is not a symlink, by a
    /// symlink-unaware metadata query?
    EntryNotSymlink,
    /// Is there an entry here, following symlinks?
    Entry,
}

/// One question to the live filesystem.
#[derive(Clone, Debug)]
pub struct PathProbe {
    pub kind: ProbeKind,
    pub path: String,
}

/// What a decoding machine wants next: an answer to a probe, or nothing
/// more — it is done.
#[derive(Debug)]
pub enum ProbeStep {
    Ask(PathProbe),
    Done(Option<String>),
}

/// The separator a base path implies: `\` if the base already holds
/// one, else `/`.
pub open spec fn sep_of(base: Seq<char>) -> Seq<char> {
    if seq_has_char(base, '\\') {
        seq!['\\']
    } else {
        seq!['/']
    }
}

/// A segment appended to a base path: an empty base yields `/segment`,
/// otherwise the base's own separator joins them.
pub open spec fn join_spec(base: Seq<char>, seg: Seq<char>) -> Seq<char> {
    if base.len() == 0 {
        seq!['/'] + seg
    } else {
        base + sep_of(base) + seg
    }
}

/// Append a path segment to a base path.
pub fn join_seg(base: &str, seg: &str) -> (r: String)
    ensures
        r@ == join_spec(base@, seg@),
{
    if base.unicode_len() == 0 {
        let r = str_concat2("/", seg);
        proof {
            reveal_strlit("/");
            assert(r@ =~= join_spec(base@, seg@));
        }
        r
    } else if str_has_char(base, '\\') {
        let r = str_concat3(base, "\\", seg);
        proof {
            reveal_strlit("\\");
            assert(r@ =~= join_spec(base@, seg@));
        }
        r
    } else {
        let r = str_concat3(base, "/", seg);
        proof {
            reveal_strlit("/");
            assert(r@ =~= join_spec(base@, seg@));
        }
        r
    }
}

/// The first delimiter at or after `from` whose prefix is a non-empty
/// segment (a delimiter at position 0 is skipped), or `e.len()` if
/// there is none left.
pub open spec fn next_candidate(e: Seq<char>, from: int) -> int {
    if from == 0 && e.len() > 0 && e[0] == '-' {
        next_char(e, '-', 1)
    } else {
        next_char(e, '-', from)
    }
}

/// The shape of every path the exact decoder can report for the suffix
/// `e` under the base `b`: some delimiters of `e` become separators and
/// the rest stay literal characters, a trailing delimiter may be
/// dropped, or the whole suffix stays one segment. The decoder never
/// invents or loses characters beyond this.
pub open spec fn decoded_shape(e: Seq<char>, b: Seq<char>, p: Seq<char>) -> bool
    decreases e.len(), 1int,
{
    ||| p == join_spec(b, e)
    ||| (e.len() == 0 && p == b)
    ||| (exists|pos: int| #![trigger e[pos]] decoded_shape_at(e, b, p, pos))
}

/// The decoder treated the delimiter of `e` at `pos` as a separator:
/// the candidate directory is `e` up to `pos` joined to `b`, and `p` is
/// the candidate itself (trailing delimiter), the candidate with the
/// whole remainder as one leaf, or a decoding of the remainder under
/// the candidate.
pub open spec fn decoded_shape_at(e: Seq<char>, b: Seq<char>, p: Seq<char>, pos: int) -> bool
    decreases e.len(), 0int,
{
    if 0 < pos < e.len() && e[pos] == '-' {
        let cand = join_spec(b, e.subrange(0, pos));
        let rest = e.subrange(pos + 1, e.len() as int);
        ||| (pos == e.len() - 1 && p == cand)
        ||| p == cand + sep_of(b) + rest
        ||| decoded_shape(rest, cand, p)
    } else {
        false
    }
}

/// Law: a decoded path is never empty, and begins with its base — or
/// with the path separator when the base is empty (the degenerate
/// empty-suffix-empty-base case excluded).
pub proof fn lemma_decoded_shape_head(e: Seq<char>, b: Seq<char>, p: Seq<char>)
    requires
        decoded_shape(e, b, p),
        e.len() > 0 || b.len() > 0,
    ensures
        p.len() > 0,
        p[0] == (if b.len() == 0 {
            '/'
        } else {
            b[0]
        }),
    decreases e.len(),
{
    if p == join_spec(b, e) {
        if b.len() == 0 {
            assert(p[0] == (seq!['/'] + e)[0]);
        } else {
            assert(p[0] == (b + sep_of(b) + e)[0]);
        }
    } else if e.len() == 0 && p == b {
    } else {
        let pos = choose|pos: int| #![trigger e[pos]] decoded_shape_at(e, b, p, pos);
        assert(decoded_shape_at(e, b, p, pos));
        let cand = join_spec(b, e.subrange(0, pos));
        let rest = e.subrange(pos + 1, e.len() as int);
        assert(cand.len() > 0 && cand[0] == (if b.len() == 0 {
            '/'
        } else {
            b[0]
        }));
        if pos == e.len() - 1 && p == cand {
        } else if p == cand + sep_of(b) + rest {
            assert(p[0] == cand[0]);
        } else {
            lemma_decoded_shape_head(rest, cand, p);
        }
    }
}

/// Whether a decoder step's result respects the decoded shape for the
/// machine's original suffix and base.
pub open spec fn step_shape_ok(r: ProbeStep, e0: Seq<char>, b0: Seq<char>) -> bool {
    match r {
        ProbeStep::Done(op) => match op {
            Some(p) => decoded_shape(e0, b0, p@),
            None => true,
        },
        ProbeStep::Ask(_) => true,
    }
}

/// Where a decoding frame stands in its scan of the encoded suffix.
enum FrameState {
    /// Ready to look for the next candidate delimiter at or after
    /// `from`.
    Scan { from: usize },
    /// A `RealDir` probe is out for the candidate directory whose
    /// segment ends at the delimiter at `pos`.
    AwaitDir { pos: usize },
    /// An `EntryNotSymlink` probe is out for the whole remainder taken
    /// as a single leaf under the candidate at `pos`.
    AwaitLeaf { pos: usize },
    /// A child frame is decoding the remainder after the delimiter at
    /// `pos`.
    InChild { pos: usize },
    /// An `Entry` probe is out for the whole suffix as one final
    /// segment under the base.
    AwaitWhole,
    /// An `Entry` probe is out for the bare base (empty suffix).
    AwaitBase,
}

/// One level of the backtracking decode: an encoded suffix to place
/// under a base path known (or assumed) to exist.
struct Frame {
    encoded: String,
    base: String,
    state: FrameState,
}

spec fn frame_wf(f: Frame) -> bool {
    match f.state {
        FrameState::Scan { from } => from <= f.encoded@.len(),
        FrameState::AwaitDir { pos } => 0 < pos < f.encoded@.len() && f.encoded@[pos as int]
            == '-',
        FrameState::AwaitLeaf { pos } => 0 < pos && pos + 1 < f.encoded@.len() && f.encoded@[
            pos as int
        ] == '-',
        FrameState::InChild { pos } => 0 < pos && pos + 1 < f.encoded@.len() && f.encoded@[
            pos as int
        ] == '-',
        FrameState::AwaitWhole => true,
        FrameState::AwaitBase => f.encoded@.len() == 0,
    }
}

/// `child` continues `parent`: it decodes the remainder after the
/// delimiter `parent` is blocked on, under the candidate directory that
/// delimiter names.
spec fn child_of(parent: Frame, child: Frame) -> bool {
    match parent.state {
        FrameState::InChild { pos } => {
            &&& 0 < pos < parent.encoded@.len()
            &&& parent.encoded@[pos as int] == '-'
            &&& child.encoded@ == parent.encoded@.subrange(
                pos as int + 1,
                parent.encoded@.len() as int,
            )
            &&& child.base@ == join_spec(parent.base@, parent.encoded@.subrange(0, pos as int))
        },
        _ => false,
    }
}

/// The stack hangs together: the bottom frame holds the original suffix
/// and base, and each frame continues the one below it.
spec fn chain_ok(frames: Seq<Frame>, e0: Seq<char>, b0: Seq<char>) -> bool {
    &&& (frames.len() > 0 ==> frames[0].encoded@ == e0 && frames[0].base@ == b0)
    &&& (forall|i: int| 0 <= i < frames.len() - 1 ==> child_of(#[trigger] frames[i], frames[i + 1]))
}

/// A decoding of any frame on a well-chained stack is a decoding of the
/// stack's original suffix and base.
proof fn lemma_chain_lifts(frames: Seq<Frame>, e0: Seq<char>, b0: Seq<char>, p: Seq<char>, i: int)
    requires
        chain_ok(frames, e0, b0),
        0 <= i < frames.len(),
        decoded_shape(frames[i].encoded@, frames[i].base@, p),
    ensures
        decoded_shape(e0, b0, p),
    decreases i,
{
    if i == 0 {
    } else {
        let parent = frames[i - 1];
        assert(child_of(parent, frames[i]));
        match parent.state {
            FrameState::InChild { pos } => {
                let e = parent.encoded@;
                let b = parent.base@;
                assert(e[pos as int] == '-');
                assert(decoded_shape_at(e, b, p, pos as int));
                assert(decoded_shape(e, b, p));
            },
            _ => {
                assert(false);
            },
        }
        lemma_chain_lifts(frames, e0, b0, p, i - 1);
    }
}

spec fn frame_is_await(f: Frame) -> bool {
    match f.state {
        FrameState::AwaitDir { .. } => true,
        FrameState::AwaitLeaf { .. } => true,
        FrameState::AwaitWhole => true,
        FrameState::AwaitBase => true,
        _ => false,
    }
}

spec fn frame_is_inchild(f: Frame) -> bool {
    match f.state {
        FrameState::InChild { .. } => true,
        _ => false,
    }
}

spec fn frame_is_scan(f: Frame) -> bool {
    match f.state {
        FrameState::Scan { .. } => true,
        _ => false,
    }
}

spec fn scan_from_of(f: Frame) -> int {
    match f.state {
        FrameState::Scan { from } => from as int,
        _ => 0,
    }
}

/// The decoder reported no path.
pub open spec fn probe_done_none(r: ProbeStep) -> bool {
    match r {
        ProbeStep::Done(o) => o is None,
        ProbeStep::Ask(_) => false,
    }
}

/// The decoder reported exactly the path `p`.
pub open spec fn probe_done_some(r: ProbeStep, p: Seq<char>) -> bool {
    match r {
        ProbeStep::Done(o) => match o {
            Some(q) => q@ == p,
            None => false,
        },
        ProbeStep::Ask(_) => false,
    }
}

/// The decoder asked exactly this probe.
pub open spec fn probe_asks(r: ProbeStep, k: ProbeKind, path: Seq<char>) -> bool {
    match r {
        ProbeStep::Ask(pp) => pp.kind == k && pp.path@ == path,
        ProbeStep::Done(_) => false,
    }
}

/// The whole remainder after the delimiter at `pos`, taken as a single
/// leaf under the candidate directory.
pub open spec fn leaf_spec(e: Seq<char>, b: Seq<char>, pos: int) -> Seq<char> {
    join_spec(b, e.subrange(0, pos)) + sep_of(b) + e.subrange(pos + 1, e.len() as int)
}

/// What resuming the scan of the suffix `e` under the base `b` from
/// position `from` yields: a directory probe for the next candidate
/// segment; with no candidate left, the whole-suffix fallback probe —
/// or, when the base is empty (the outermost level only), nothing.
pub open spec fn resume_ok(r: ProbeStep, m: ProbeDecode, e: Seq<char>, b: Seq<char>, from: int) -> bool {
    let q = next_candidate(e, from);
    if q < e.len() {
        &&& probe_asks(r, ProbeKind::RealDir, join_spec(b, e.subrange(0, q)))
        &&& m.awaiting_dir()
        &&& m.await_pos() == q
        &&& m.top_encoded() == e
        &&& m.top_base() == b
    } else if b.len() > 0 {
        &&& probe_asks(r, ProbeKind::Entry, join_spec(b, e))
        &&& m.awaiting_whole()
        &&& m.top_encoded() == e
        &&& m.top_base() == b
    } else {
        probe_done_none(r) && !m.awaiting()
    }
}

/// Everything `ProbeDecode::begin` promises of the machine `m` and its
/// first step `r`, as one predicate: the sources are pinned, and the
/// first request (or immediate giving-up) is the scan of the suffix
/// from its start.
pub open spec fn probe_begin_post(m: ProbeDecode, r: ProbeStep, encoded: Seq<char>, base: Seq<
    char,
>) -> bool {
    &&& m.wf()
    &&& (r is Ask) == m.awaiting()
    &&& m.source_encoded() == encoded
    &&& m.source_base() == base
    &&& m.fuel() == PROBE_FUEL as nat
    &&& (r is Done ==> r->Done_0 is None)
    &&& (r is Ask ==> m.frame_count() == 1)
    &&& (encoded.len() == 0 && base.len() == 0 ==> probe_done_none(r))
    &&& (encoded.len() == 0 && base.len() > 0 ==> probe_asks(r, ProbeKind::Entry, base)
        && m.awaiting_base() && m.top_base() == base)
    &&& (encoded.len() > 0 ==> resume_ok(r, m, encoded, base, 0))
}

/// Everything one answered step of the exact decoder promises, over the
/// machine before (`pre`) and after (`post`): the per-state, per-answer
/// transition, the decoded-shape bound, and the fuel bookkeeping.
pub open spec fn probe_step_post(pre: ProbeDecode, post: ProbeDecode, answer: bool, r: ProbeStep) -> bool {
    &&& post.wf()
    &&& (r is Ask) == post.awaiting()
    &&& (r is Ask ==> post.fuel() == pre.fuel() - 1)
    &&& post.source_encoded() == pre.source_encoded()
    &&& post.source_base() == pre.source_base()
    &&& step_shape_ok(r, pre.source_encoded(), pre.source_base())
    &&& (pre.fuel() == 0 ==> probe_done_none(r))
    &&& (pre.fuel() > 0 && pre.awaiting_dir() && answer && pre.await_pos() == pre.top_encoded().len()
        - 1 ==> probe_done_some(
        r,
        join_spec(pre.top_base(), pre.top_encoded().subrange(0, pre.await_pos())),
    ))
    &&& (pre.fuel() > 0 && pre.awaiting_dir() && answer && pre.await_pos() < pre.top_encoded().len()
        - 1 ==> probe_asks(
        r,
        ProbeKind::EntryNotSymlink,
        leaf_spec(pre.top_encoded(), pre.top_base(), pre.await_pos()),
    ) && post.awaiting_leaf() && post.await_pos() == pre.await_pos() && post.top_encoded()
        == pre.top_encoded() && post.top_base() == pre.top_base() && post.frame_count()
        == pre.frame_count())
    &&& (pre.fuel() > 0 && pre.awaiting_dir() && !answer ==> resume_ok(
        r,
        post,
        pre.top_encoded(),
        pre.top_base(),
        pre.await_pos() + 1,
    ) && (r is Ask ==> post.frame_count() == pre.frame_count()))
    &&& (pre.fuel() > 0 && pre.awaiting_leaf() && answer ==> probe_done_some(
        r,
        leaf_spec(pre.top_encoded(), pre.top_base(), pre.await_pos()),
    ))
    &&& (pre.fuel() > 0 && pre.awaiting_leaf() && !answer && pre.frame_count() <= MAX_DEPTH
        ==> resume_ok(
        r,
        post,
        pre.top_encoded().subrange(pre.await_pos() + 1, pre.top_encoded().len() as int),
        join_spec(pre.top_base(), pre.top_encoded().subrange(0, pre.await_pos())),
        0,
    ) && (r is Ask ==> post.frame_count() == pre.frame_count() + 1))
    &&& (pre.fuel() > 0 && pre.awaiting_leaf() && !answer && pre.frame_count() > MAX_DEPTH
        ==> resume_ok(r, post, pre.top_encoded(), pre.top_base(), pre.await_pos() + 1) && (r is Ask
        ==> post.frame_count() == pre.frame_count()))
    &&& (pre.fuel() > 0 && pre.awaiting_whole() && answer ==> probe_done_some(
        r,
        join_spec(pre.top_base(), pre.top_encoded()),
    ))
    &&& (pre.fuel() > 0 && pre.awaiting_whole() && !answer && pre.frame_count() == 1
        ==> probe_done_none(r))
    &&& (pre.fuel() > 0 && pre.awaiting_whole() && !answer && pre.frame_count() > 1 ==> resume_ok(
        r,
        post,
        pre.parent_encoded(),
        pre.parent_base(),
        pre.parent_pos() + 1,
    ) && (r is Ask ==> post.frame_count() == pre.frame_count() - 1))
    &&& (pre.fuel() > 0 && pre.awaiting_base() && answer ==> probe_done_some(r, pre.top_base()))
    &&& (pre.fuel() > 0 && pre.awaiting_base() && !answer ==> probe_done_none(r))
}

/// The exact, backtracking decoder for one encoded suffix under a base
/// path. Pump it: answer each probe it asks until it reports `Done`,
/// with either the decoded path (every directory of which the probes
/// confirmed) or nothing.
pub struct ProbeDecode {
    frames: Vec<Frame>,
    fuel: usize,
    waiting: bool,
    source_enc: Ghost<Seq<char>>,
    source_base: Ghost<Seq<char>>,
}

impl ProbeDecode {
    /// Whether the machine has asked a probe and waits for its answer;
    /// only then may it be stepped.
    pub closed spec fn awaiting(self) -> bool {
        self.waiting
    }

    /// The probes the machine may still ask before it gives up.
    pub closed spec fn fuel(self) -> nat {
        self.fuel as nat
    }

    /// The encoded suffix the machine was started on.
    pub closed spec fn source_encoded(self) -> Seq<char> {
        self.source_enc@
    }

    /// The base path the machine was started on.
    pub closed spec fn source_base(self) -> Seq<char> {
        self.source_base@
    }

    /// The machine's internal consistency; `begin` establishes it and
    /// `step` preserves it.
    pub closed spec fn wf(self) -> bool {
        &&& forall|i: int| 0 <= i < self.frames@.len() ==> frame_wf(#[trigger] self.frames@[i])
        &&& forall|i: int|
            0 <= i < self.frames@.len() - 1 ==> frame_is_inchild(#[trigger] self.frames@[i])
        &&& forall|i: int| 1 <= i < self.frames@.len() ==> (#[trigger] self.frames@[i]).base@.len() > 0
        &&& (self.waiting ==> self.frames@.len() > 0 && frame_is_await(self.frames@.last()))
        &&& chain_ok(self.frames@, self.source_enc@, self.source_base@)
    }

    /// How many suffix levels are on the decoding stack.
    pub closed spec fn frame_count(self) -> int {
        self.frames@.len() as int
    }

    /// The suffix of the innermost (active) decoding level.
    pub closed spec fn top_encoded(self) -> Seq<char> {
        self.frames@.last().encoded@
    }

    /// The base path of the innermost decoding level.
    pub closed spec fn top_base(self) -> Seq<char> {
        self.frames@.last().base@
    }

    /// The delimiter position the outstanding probe is about.
    pub closed spec fn await_pos(self) -> int {
        match self.frames@.last().state {
            FrameState::AwaitDir { pos } => pos as int,
            FrameState::AwaitLeaf { pos } => pos as int,
            _ => 0,
        }
    }

    /// A candidate-directory probe is outstanding.
    pub closed spec fn awaiting_dir(self) -> bool {
        self.waiting && self.frames@.len() > 0 && (match self.frames@.last().state {
            FrameState::AwaitDir { .. } => true,
            _ => false,
        })
    }

    /// A whole-remainder-leaf probe is outstanding.
    pub closed spec fn awaiting_leaf(self) -> bool {
        self.waiting && self.frames@.len() > 0 && (match self.frames@.last().state {
            FrameState::AwaitLeaf { .. } => true,
            _ => false,
        })
    }

    /// A whole-suffix-fallback probe is outstanding.
    pub closed spec fn awaiting_whole(self) -> bool {
        self.waiting && self.frames@.len() > 0 && (match self.frames@.last().state {
            FrameState::AwaitWhole => true,
            _ => false,
        })
    }

    /// A bare-base probe is outstanding (empty suffix).
    pub closed spec fn awaiting_base(self) -> bool {
        self.waiting && self.frames@.len() > 0 && (match self.frames@.last().state {
            FrameState::AwaitBase => true,
            _ => false,
        })
    }

    /// The suffix of the decoding level below the innermost one.
    pub closed spec fn parent_encoded(self) -> Seq<char> {
        self.frames@[self.frames@.len() - 2].encoded@
    }

    /// The base path of the decoding level below the innermost one.
    pub closed spec fn parent_base(self) -> Seq<char> {
        self.frames@[self.frames@.len() - 2].base@
    }

    /// The delimiter position the level below the innermost is blocked
    /// on.
    pub closed spec fn parent_pos(self) -> int {
        match self.frames@[self.frames@.len() - 2].state {
            FrameState::InChild { pos } => pos as int,
            _ => 0,
        }
    }

    /// Whether the machine waits for an answer.
    pub fn is_awaiting(&self) -> (r: bool)
        ensures
            r == self.awaiting(),
    {
        self.waiting
    }

    /// A finished machine that asks nothing: a placeholder to hold a
    /// slot before decoding starts.
    pub fn idle() -> (r: ProbeDecode)
        ensures
            r.wf(),
            !r.awaiting(),
    {
        ProbeDecode {
            frames: Vec::new(),
            fuel: 0,
            waiting: false,
            source_enc: Ghost(Seq::empty()),
            source_base: Ghost(Seq::empty()),
        }
    }

    /// Resume the scan of the top level: ask the directory probe for the
    /// next candidate segment, fall back to the whole-suffix probe, or —
    /// with an empty base, which only the outermost level can have —
    /// report that nothing was decoded.
    fn advance(&mut self) -> (r: ProbeStep)
        requires
            !old(self).waiting,
            old(self).frames@.len() > 0,
            frame_is_scan(old(self).frames@.last()),
            scan_from_of(old(self).frames@.last()) <= old(self).frames@.last().encoded@.len(),
            forall|i: int|
                0 <= i < old(self).frames@.len() ==> frame_wf(#[trigger] old(self).frames@[i]),
            forall|i: int|
                0 <= i < old(self).frames@.len() - 1 ==> frame_is_inchild(
                    #[trigger] old(self).frames@[i],
                ),
            forall|i: int|
                1 <= i < old(self).frames@.len() ==> (#[trigger] old(
                    self,
                ).frames@[i]).base@.len() > 0,
            chain_ok(old(self).frames@, old(self).source_enc@, old(self).source_base@),
        ensures
            final (self).wf(),
            (r is Ask) == final (self).awaiting(),
            final (self).fuel() == old(self).fuel(),
            final (self).source_encoded() == old(self).source_encoded(),
            final (self).source_base() == old(self).source_base(),
            r is Done ==> r->Done_0 is None,
            r is Ask ==> final (self).frame_count() == old(self).frame_count(),
            resume_ok(
                r,
                *final (self),
                old(self).top_encoded(),
                old(self).top_base(),
                scan_from_of(old(self).frames@.last()),
            ),
    {
        let top = match self.frames.pop() {
            Some(f) => f,
            None => {
                proof {
                    assert(false);
                }
                return ProbeStep::Done(None);
            },
        };
        let from = match top.state {
            FrameState::Scan { from } => from,
            _ => {
                proof {
                    assert(false);
                }
                0
            },
        };
        let ghost e = top.encoded@;
        let found = match find_char_from(top.encoded.as_str(), '-', from) {
            Some(p0) => {
                if p0 == 0 {
                    find_char_from(top.encoded.as_str(), '-', 1)
                } else {
                    Some(p0)
                }
            },
            None => None,
        };
        proof {
            if from == 0 && e.len() > 0 && e[0] != '-' {
                assert(next_char(e, '-', 0) != 0);
            }
        }
        match found {
            Some(pos) => {
                proof {
                    assert(pos as int == next_candidate(e, from as int));
                }
                let seg = top.encoded.as_str().substring_char(0, pos);
                let candidate = join_seg(top.base.as_str(), seg);
                self.frames.push(
                    Frame {
                        encoded: top.encoded,
                        base: top.base,
                        state: FrameState::AwaitDir { pos },
                    },
                );
                self.waiting = true;
                ProbeStep::Ask(PathProbe { kind: ProbeKind::RealDir, path: candidate })
            },
            None => {
                proof {
                    assert(next_candidate(e, from as int) == e.len());
                }
                if top.base.as_str().unicode_len() > 0 {
                    let full = join_seg(top.base.as_str(), top.encoded.as_str());
                    self.frames.push(
                        Frame {
                            encoded: top.encoded,
                            base: top.base,
                            state: FrameState::AwaitWhole,
                        },
                    );
                    self.waiting = true;
                    ProbeStep::Ask(PathProbe { kind: ProbeKind::Entry, path: full })
                } else {
                    // only the outermost level can carry an empty base, so
                    // nothing remains to resume
                    proof {
                        assert(self.frames@.len() == 0);
                    }
                    ProbeStep::Done(None)
                }
            },
        }
    }

    /// Start decoding `encoded` under `base`. Returns the machine and
    /// its first request (or its immediate result).
    pub fn begin(encoded: &str, base: &str) -> (r: (ProbeDecode, ProbeStep))
        ensures
            r.0.wf(),
            (r.1 is Ask) == r.0.awaiting(),
            r.0.source_encoded() == encoded@,
            r.0.source_base() == base@,
            r.0.fuel() == PROBE_FUEL as nat,
            r.1 is Done ==> r.1->Done_0 is None,
            r.1 is Ask ==> r.0.frame_count() == 1,
            encoded@.len() == 0 && base@.len() == 0 ==> probe_done_none(r.1),
            encoded@.len() == 0 && base@.len() > 0 ==> probe_asks(r.1, ProbeKind::Entry, base@)
                && r.0.awaiting_base() && r.0.top_base() == base@,
            encoded@.len() > 0 ==> resume_ok(r.1, r.0, encoded@, base@, 0),
            probe_begin_post(r.0, r.1, encoded@, base@),
    {
        let mut m = ProbeDecode {
            frames: Vec::new(),
            fuel: PROBE_FUEL,
            waiting: false,
            source_enc: Ghost(encoded@),
            source_base: Ghost(base@),
        };
        if encoded.unicode_len() == 0 {
            if base.unicode_len() > 0 {
                m.frames.push(
                    Frame {
                        encoded: String::from_str(encoded),
                        base: String::from_str(base),
                        state: FrameState::AwaitBase,
                    },
                );
                m.waiting = true;
                let probe = PathProbe { kind: ProbeKind::Entry, path: String::from_str(base) };
                (m, ProbeStep::Ask(probe))
            } else {
                (m, ProbeStep::Done(None))
            }
        } else {
            m.frames.push(
                Frame {
                    encoded: String::from_str(encoded),
                    base: String::from_str(base),
                    state: FrameState::Scan { from: 0 },
                },
            );
            let step = m.advance();
            (m, step)
        }
    }

    /// Feed the machine the answer to its outstanding probe. It asks
    /// the next probe, or reports the decoded path (on a confirming
    /// answer) or `None`. Each step burns fuel, so any pump loop is
    /// bounded.
    pub fn step(&mut self, answer: bool) -> (r: ProbeStep)
        requires
            old(self).wf(),
            old(self).awaiting(),
        ensures
            final (self).wf(),
            (r is Ask) == final (self).awaiting(),
            r is Ask ==> final (self).fuel() == old(self).fuel() - 1,
            final (self).source_encoded() == old(self).source_encoded(),
            final (self).source_base() == old(self).source_base(),
            step_shape_ok(r, old(self).source_encoded(), old(self).source_base()),
            old(self).fuel() == 0 ==> probe_done_none(r),
            old(self).fuel() > 0 && old(self).awaiting_dir() && answer && old(self).await_pos()
                == old(self).top_encoded().len() - 1 ==> probe_done_some(
                r,
                join_spec(
                    old(self).top_base(),
                    old(self).top_encoded().subrange(0, old(self).await_pos()),
                ),
            ),
            old(self).fuel() > 0 && old(self).awaiting_dir() && answer && old(self).await_pos()
                < old(self).top_encoded().len() - 1 ==> probe_asks(
                r,
                ProbeKind::EntryNotSymlink,
                leaf_spec(old(self).top_encoded(), old(self).top_base(), old(self).await_pos()),
            ) && final (self).awaiting_leaf() && final (self).await_pos() == old(self).await_pos()
                && final (self).top_encoded() == old(self).top_encoded() && final (self).top_base()
                == old(self).top_base() && final (self).frame_count() == old(self).frame_count(),
            old(self).fuel() > 0 && old(self).awaiting_dir() && !answer ==> resume_ok(
                r,
                *final (self),
                old(self).top_encoded(),
                old(self).top_base(),
                old(self).await_pos() + 1,
            ) && (r is Ask ==> final (self).frame_count() == old(self).frame_count()),
            old(self).fuel() > 0 && old(self).awaiting_leaf() && answer ==> probe_done_some(
                r,
                leaf_spec(old(self).top_encoded(), old(self).top_base(), old(self).await_pos()),
            ),
            old(self).fuel() > 0 && old(self).awaiting_leaf() && !answer && old(self).frame_count()
                <= MAX_DEPTH ==> resume_ok(
                r,
                *final (self),
                old(self).top_encoded().subrange(
                    old(self).await_pos() + 1,
                    old(self).top_encoded().len() as int,
                ),
                join_spec(
                    old(self).top_base(),
                    old(self).top_encoded().subrange(0, old(self).await_pos()),
                ),
                0,
            ) && (r is Ask ==> final (self).frame_count() == old(self).frame_count() + 1),
            old(self).fuel() > 0 && old(self).awaiting_leaf() && !answer && old(self).frame_count()
                > MAX_DEPTH ==> resume_ok(
                r,
                *final (self),
                old(self).top_encoded(),
                old(self).top_base(),
                old(self).await_pos() + 1,
            ) && (r is Ask ==> final (self).frame_count() == old(self).frame_count()),
            old(self).fuel() > 0 && old(self).awaiting_whole() && answer ==> probe_done_some(
                r,
                join_spec(old(self).top_base(), old(self).top_encoded()),
            ),
            old(self).fuel() > 0 && old(self).awaiting_whole() && !answer && old(self).frame_count()
                == 1 ==> probe_done_none(r),
            old(self).fuel() > 0 && old(self).awaiting_whole() && !answer && old(self).frame_count()
                > 1 ==> resume_ok(
                r,
                *final (self),
                old(self).parent_encoded(),
                old(self).parent_base(),
                old(self).parent_pos() + 1,
            ) && (r is Ask ==> final (self).frame_count() == old(self).frame_count() - 1),
            old(self).fuel() > 0 && old(self).awaiting_base() && answer ==> probe_done_some(
                r,
                old(self).top_base(),
            ),
            old(self).fuel() > 0 && old(self).awaiting_base() && !answer ==> probe_done_none(r),
            probe_step_post(*old(self), *final (self), answer, r),
    {
        let ghost pre = *self;
        if self.fuel == 0 {
            self.waiting = false;
            return ProbeStep::Done(None);
        }
        self.fuel = self.fuel - 1;
        self.waiting = false;
        match self.frames.pop() {
            None => {
                proof {
                    assert(false);
                }
                ProbeStep::Done(None)
            },
            Some(top) => {
                match top.state {
                    FrameState::AwaitDir { pos } => self.on_dir(top, pos, answer, Ghost(pre)),
                    FrameState::AwaitLeaf { pos } => self.on_leaf(top, pos, answer, Ghost(pre)),
                    FrameState::AwaitWhole => self.on_whole(top, answer, Ghost(pre)),
                    FrameState::AwaitBase => self.on_base(top, answer, Ghost(pre)),
                    _ => {
                        proof {
                            assert(false);
                        }
                        ProbeStep::Done(None)
                    },
                }
            },
        }
    }

    /// Handle the answer to a candidate-directory probe: confirmed and
    /// trailing, the candidate is the result; confirmed otherwise, the
    /// whole remainder is tried as one leaf; denied, the scan resumes
    /// past the delimiter.
    #[verifier::rlimit(100)]
    fn on_dir(&mut self, top: Frame, pos: usize, answer: bool, Ghost(pre): Ghost<ProbeDecode>) -> (r:
        ProbeStep)
        requires
            pre.wf(),
            pre.awaiting(),
            pre.fuel() > 0,
            top == pre.frames@.last(),
            top.state == (FrameState::AwaitDir { pos }),
            old(self).frames@ == pre.frames@.drop_last(),
            !old(self).waiting,
            old(self).fuel as int == pre.fuel() - 1,
            old(self).source_enc == pre.source_enc,
            old(self).source_base == pre.source_base,
        ensures
            final (self).wf(),
            (r is Ask) == final (self).awaiting(),
            final (self).fuel() == pre.fuel() - 1,
            final (self).source_encoded() == pre.source_encoded(),
            final (self).source_base() == pre.source_base(),
            step_shape_ok(r, pre.source_encoded(), pre.source_base()),
            answer && pos as int == top.encoded@.len() - 1 ==> probe_done_some(
                r,
                join_spec(top.base@, top.encoded@.subrange(0, pos as int)),
            ),
            answer && (pos as int) < top.encoded@.len() - 1 ==> probe_asks(
                r,
                ProbeKind::EntryNotSymlink,
                leaf_spec(top.encoded@, top.base@, pos as int),
            ) && final (self).awaiting_leaf() && final (self).await_pos() == pos && final (
            self).top_encoded() == top.encoded@ && final (self).top_base() == top.base@ && final (
            self).frame_count() == pre.frame_count(),
            !answer ==> resume_ok(r, *final (self), top.encoded@, top.base@, pos + 1) && (r is Ask
                ==> final (self).frame_count() == pre.frame_count()),
    {
        let ghost frames0 = pre.frames@;
        let ghost e0 = pre.source_enc@;
        let ghost b0 = pre.source_base@;
        let n = top.encoded.as_str().unicode_len();
        if !answer {
            self.frames.push(
                Frame {
                    encoded: top.encoded,
                    base: top.base,
                    state: FrameState::Scan { from: pos + 1 },
                },
            );
            self.advance()
        } else {
            let seg = top.encoded.as_str().substring_char(0, pos);
            let candidate = join_seg(top.base.as_str(), seg);
            if pos + 1 == n {
                // the delimiter was trailing: the candidate itself is the
                // decoded path
                proof {
                    let e = top.encoded@;
                    let b = top.base@;
                    assert(e[pos as int] == '-');
                    assert(decoded_shape_at(e, b, candidate@, pos as int));
                    assert(decoded_shape(e, b, candidate@));
                    lemma_chain_lifts(frames0, e0, b0, candidate@, frames0.len() - 1);
                }
                ProbeStep::Done(Some(candidate))
            } else {
                let remaining = top.encoded.as_str().substring_char(pos + 1, n);
                let leaf = if str_has_char(top.base.as_str(), '\\') {
                    str_concat3(candidate.as_str(), "\\", remaining)
                } else {
                    str_concat3(candidate.as_str(), "/", remaining)
                };
                proof {
                    reveal_strlit("\\");
                    reveal_strlit("/");
                    assert(leaf@ =~= leaf_spec(top.encoded@, top.base@, pos as int));
                }
                self.frames.push(
                    Frame {
                        encoded: top.encoded,
                        base: top.base,
                        state: FrameState::AwaitLeaf { pos },
                    },
                );
                self.waiting = true;
                ProbeStep::Ask(PathProbe { kind: ProbeKind::EntryNotSymlink, path: leaf })
            }
        }
    }

    /// Handle the answer to a whole-remainder-leaf probe: confirmed,
    /// the leaf path is the result; denied, the remainder is decoded as
    /// its own level under the candidate (up to the depth bound), else
    /// the scan resumes past the delimiter.
    #[verifier::rlimit(100)]
    fn on_leaf(&mut self, top: Frame, pos: usize, answer: bool, Ghost(pre): Ghost<
        ProbeDecode,
    >) -> (r: ProbeStep)
        requires
            pre.wf(),
            pre.awaiting(),
            pre.fuel() > 0,
            top == pre.frames@.last(),
            top.state == (FrameState::AwaitLeaf { pos }),
            old(self).frames@ == pre.frames@.drop_last(),
            !old(self).waiting,
            old(self).fuel as int == pre.fuel() - 1,
            old(self).source_enc == pre.source_enc,
            old(self).source_base == pre.source_base,
        ensures
            final (self).wf(),
            (r is Ask) == final (self).awaiting(),
            final (self).fuel() == pre.fuel() - 1,
            final (self).source_encoded() == pre.source_encoded(),
            final (self).source_base() == pre.source_base(),
            step_shape_ok(r, pre.source_encoded(), pre.source_base()),
            answer ==> probe_done_some(r, leaf_spec(top.encoded@, top.base@, pos as int)),
            !answer && pre.frame_count() <= MAX_DEPTH ==> resume_ok(
                r,
                *final (self),
                top.encoded@.subrange(pos as int + 1, top.encoded@.len() as int),
                join_spec(top.base@, top.encoded@.subrange(0, pos as int)),
                0,
            ) && (r is Ask ==> final (self).frame_count() == pre.frame_count() + 1),
            !answer && pre.frame_count() > MAX_DEPTH ==> resume_ok(
                r,
                *final (self),
                top.encoded@,
                top.base@,
                pos + 1,
            ) && (r is Ask ==> final (self).frame_count() == pre.frame_count()),
    {
        let ghost frames0 = pre.frames@;
        let ghost e0 = pre.source_enc@;
        let ghost b0 = pre.source_base@;
        let n = top.encoded.as_str().unicode_len();
        let seg = top.encoded.as_str().substring_char(0, pos);
        let candidate = join_seg(top.base.as_str(), seg);
        if answer {
            let remaining = top.encoded.as_str().substring_char(pos + 1, n);
            let leaf = if str_has_char(top.base.as_str(), '\\') {
                str_concat3(candidate.as_str(), "\\", remaining)
            } else {
                str_concat3(candidate.as_str(), "/", remaining)
            };
            proof {
                let e = top.encoded@;
                let b = top.base@;
                reveal_strlit("\\");
                reveal_strlit("/");
                assert(leaf@ =~= join_spec(b, e.subrange(0, pos as int)) + sep_of(b) + e.subrange(
                    pos as int + 1,
                    e.len() as int,
                ));
                assert(e[pos as int] == '-');
                assert(decoded_shape_at(e, b, leaf@, pos as int));
                assert(decoded_shape(e, b, leaf@));
                lemma_chain_lifts(frames0, e0, b0, leaf@, frames0.len() - 1);
            }
            ProbeStep::Done(Some(leaf))
        } else {
            let remaining = String::from_str(top.encoded.as_str().substring_char(pos + 1, n));
            if self.frames.len() < MAX_DEPTH {
                proof {
                    assert(candidate@.len() > 0);
                }
                self.frames.push(
                    Frame {
                        encoded: top.encoded,
                        base: top.base,
                        state: FrameState::InChild { pos },
                    },
                );
                self.frames.push(
                    Frame { encoded: remaining, base: candidate, state: FrameState::Scan { from: 0 } },
                );
                self.advance()
            } else {
                // the remainder would exceed the depth bound; skip this
                // candidate
                self.frames.push(
                    Frame {
                        encoded: top.encoded,
                        base: top.base,
                        state: FrameState::Scan { from: pos + 1 },
                    },
                );
                self.advance()
            }
        }
    }

    /// Handle the answer to a whole-suffix-fallback probe: confirmed,
    /// the joined path is the result; denied, this level has failed and
    /// the level below resumes past the delimiter it was blocked on (the
    /// outermost level failing ends the decode with nothing).
    #[verifier::rlimit(100)]
    fn on_whole(&mut self, top: Frame, answer: bool, Ghost(pre): Ghost<ProbeDecode>) -> (r:
        ProbeStep)
        requires
            pre.wf(),
            pre.awaiting(),
            pre.fuel() > 0,
            top == pre.frames@.last(),
            top.state == FrameState::AwaitWhole,
            old(self).frames@ == pre.frames@.drop_last(),
            !old(self).waiting,
            old(self).fuel as int == pre.fuel() - 1,
            old(self).source_enc == pre.source_enc,
            old(self).source_base == pre.source_base,
        ensures
            final (self).wf(),
            (r is Ask) == final (self).awaiting(),
            final (self).fuel() == pre.fuel() - 1,
            final (self).source_encoded() == pre.source_encoded(),
            final (self).source_base() == pre.source_base(),
            step_shape_ok(r, pre.source_encoded(), pre.source_base()),
            answer ==> probe_done_some(r, join_spec(top.base@, top.encoded@)),
            !answer && pre.frame_count() == 1 ==> probe_done_none(r),
            !answer && pre.frame_count() > 1 ==> resume_ok(
                r,
                *final (self),
                pre.parent_encoded(),
                pre.parent_base(),
                pre.parent_pos() + 1,
            ) && (r is Ask ==> final (self).frame_count() == pre.frame_count() - 1),
    {
        let ghost frames0 = pre.frames@;
        let ghost e0 = pre.source_enc@;
        let ghost b0 = pre.source_base@;
        if answer {
            let full = join_seg(top.base.as_str(), top.encoded.as_str());
            proof {
                assert(decoded_shape(top.encoded@, top.base@, full@));
                lemma_chain_lifts(frames0, e0, b0, full@, frames0.len() - 1);
            }
            ProbeStep::Done(Some(full))
        } else {
            match self.frames.pop() {
                None => ProbeStep::Done(None),
                Some(parent) => {
                    let ppos = match parent.state {
                        FrameState::InChild { pos } => pos,
                        _ => {
                            proof {
                                assert(false);
                            }
                            0
                        },
                    };
                    let pn = parent.encoded.as_str().unicode_len();
                    proof {
                        assert(ppos + 1 < pn);
                    }
                    self.frames.push(
                        Frame {
                            encoded: parent.encoded,
                            base: parent.base,
                            state: FrameState::Scan { from: ppos + 1 },
                        },
                    );
                    self.advance()
                },
            }
        }
    }

    /// Handle the answer to a bare-base probe (empty suffix): the base
    /// itself is the result exactly when it exists.
    fn on_base(&mut self, top: Frame, answer: bool, Ghost(pre): Ghost<ProbeDecode>) -> (r:
        ProbeStep)
        requires
            pre.wf(),
            pre.awaiting(),
            pre.fuel() > 0,
            top == pre.frames@.last(),
            top.state == FrameState::AwaitBase,
            old(self).frames@ == pre.frames@.drop_last(),
            !old(self).waiting,
            old(self).fuel as int == pre.fuel() - 1,
            old(self).source_enc == pre.source_enc,
            old(self).source_base == pre.source_base,
        ensures
            final (self).wf(),
            (r is Ask) == final (self).awaiting(),
            final (self).fuel() == pre.fuel() - 1,
            final (self).source_encoded() == pre.source_encoded(),
            final (self).source_base() == pre.source_base(),
            step_shape_ok(r, pre.source_encoded(), pre.source_base()),
            answer ==> probe_done_some(r, top.base@),
            !answer ==> probe_done_none(r),
    {
        let ghost frames0 = pre.frames@;
        let ghost e0 = pre.source_enc@;
        let ghost b0 = pre.source_base@;
        if answer {
            proof {
                assert(top.encoded@.len() == 0);
                assert(decoded_shape(top.encoded@, top.base@, top.base@));
                lemma_chain_lifts(frames0, e0, b0, top.base@, frames0.len() - 1);
            }
            ProbeStep::Done(Some(top.base))
        } else {
            ProbeStep::Done(None)
        }
    }
}

/// What the partial decoder wants next: a `RealDir` probe (the same
/// symlink-unaware directory query as [`ProbeKind::RealDir`]) answered
/// for the given path, or it is done, with the deepest existing path and
/// the encoded remainder that could not be matched.
#[derive(Debug)]
pub enum WalkStep {
    Ask(String),
    Done(String, String),
}

/// A segment appended to a base path with an explicit separator: an
/// empty base yields `/segment`.
pub open spec fn join_with_spec(base: Seq<char>, sep: Seq<char>, seg: Seq<char>) -> Seq<char> {
    if base.len() == 0 {
        seq!['/'] + seg
    } else {
        base + sep + seg
    }
}

/// Append a path segment to a base path with the given separator.
pub fn join_with(base: &str, sep: &str, seg: &str) -> (r: String)
    ensures
        r@ == join_with_spec(base@, sep@, seg@),
{
    if base.unicode_len() == 0 {
        let r = str_concat2("/", seg);
        proof {
            reveal_strlit("/");
            assert(r@ =~= join_with_spec(base@, sep@, seg@));
        }
        r
    } else {
        str_concat3(base, sep, seg)
    }
}

/// The walk descended from `(e0, b0)` to `(e, b)`: zero or more times,
/// a delimiter of the suffix became a separator and the confirmed
/// segment was joined to the base.
pub open spec fn walk_reaches(e0: Seq<char>, b0: Seq<char>, sep: Seq<char>, e: Seq<char>, b: Seq<
    char,
>) -> bool
    decreases e0.len(), 1int,
{
    ||| (e == e0 && b == b0)
    ||| (exists|pos: int| #![trigger e0[pos]] walk_reaches_at(e0, b0, sep, e, b, pos))
}

/// The walk's first descent was at the delimiter of `e0` at `pos`.
pub open spec fn walk_reaches_at(
    e0: Seq<char>,
    b0: Seq<char>,
    sep: Seq<char>,
    e: Seq<char>,
    b: Seq<char>,
    pos: int,
) -> bool
    decreases e0.len(), 0int,
{
    if 0 < pos < e0.len() && e0[pos] == '-' {
        walk_reaches(
            e0.subrange(pos + 1, e0.len() as int),
            join_with_spec(b0, sep, e0.subrange(0, pos)),
            sep,
            e,
            b,
        )
    } else {
        false
    }
}

/// Whatever pair a walk reports is a descent of its original suffix
/// and base: the deepest path is the base extended segment by segment
/// at delimiters, and the remainder is what is left of the suffix (an
/// entirely consumed suffix leaves an empty remainder).
pub open spec fn walk_step_ok(r: WalkStep, e0: Seq<char>, b0: Seq<char>, sep: Seq<char>) -> bool {
    match r {
        WalkStep::Done(deepest, remaining) => walk_reaches(e0, b0, sep, remaining@, deepest@),
        WalkStep::Ask(_) => true,
    }
}

proof fn lemma_walk_reaches_trans(
    e0: Seq<char>,
    b0: Seq<char>,
    sep: Seq<char>,
    e1: Seq<char>,
    b1: Seq<char>,
    e2: Seq<char>,
    b2: Seq<char>,
)
    requires
        walk_reaches(e0, b0, sep, e1, b1),
        walk_reaches(e1, b1, sep, e2, b2),
    ensures
        walk_reaches(e0, b0, sep, e2, b2),
    decreases e0.len(),
{
    if e1 == e0 && b1 == b0 {
    } else {
        let pos = choose|pos: int| #![trigger e0[pos]] walk_reaches_at(e0, b0, sep, e1, b1, pos);
        assert(walk_reaches_at(e0, b0, sep, e1, b1, pos));
        let rest = e0.subrange(pos + 1, e0.len() as int);
        let cand = join_with_spec(b0, sep, e0.subrange(0, pos));
        lemma_walk_reaches_trans(rest, cand, sep, e1, b1, e2, b2);
        assert(walk_reaches_at(e0, b0, sep, e2, b2, pos));
        assert(e0[pos] == '-');
    }
}

/// What scanning the suffix `e` under the confirmed path `b` from
/// position `from` yields: a directory probe for the next candidate
/// segment, or — with no candidate delimiter left — the walk's final
/// `(deepest, remaining)` pair, unchanged.
pub open spec fn walk_scan_ok(r: WalkStep, m: PrefixWalk, e: Seq<char>, b: Seq<char>, from: int) -> bool {
    let q = next_candidate(e, from);
    if q < e.len() {
        &&& (match r {
            WalkStep::Ask(p) => p@ == join_with_spec(b, m.sep_seq(), e.subrange(0, q)),
            WalkStep::Done(_, _) => false,
        })
        &&& m.awaiting()
        &&& m.pending_pos() == q
        &&& m.cur_encoded() == e
        &&& m.cur_base() == b
    } else {
        match r {
            WalkStep::Done(d, rem) => d@ == b && rem@ == e,
            WalkStep::Ask(_) => false,
        }
    }
}

/// The candidate directory a walk probes at delimiter `pos` of the
/// suffix `e` under the confirmed path `b`.
pub open spec fn walk_candidate(e: Seq<char>, b: Seq<char>, sep: Seq<char>, pos: int) -> Seq<char> {
    join_with_spec(b, sep, e.subrange(0, pos))
}

/// Everything `PrefixWalk::begin` promises of the walk `m` and its
/// first step `r`, as one predicate.
pub open spec fn walk_begin_post(
    m: PrefixWalk,
    r: WalkStep,
    encoded: Seq<char>,
    base: Seq<char>,
    sep: Seq<char>,
) -> bool {
    &&& m.wf()
    &&& (r is Ask) == m.awaiting()
    &&& m.source_encoded() == encoded
    &&& m.source_base() == base
    &&& m.sep_seq() == sep
    &&& m.depth_level() == 0
    &&& m.fuel() == PROBE_FUEL as nat
    &&& walk_step_ok(r, encoded, base, sep)
    &&& walk_scan_ok(r, m, encoded, base, 0)
}

/// Everything one answered step of the walk promises, over the walk
/// before (`pre`) and after (`post`): the per-answer transition, the
/// reachability bound, and the fuel bookkeeping.
pub open spec fn walk_step_post(pre: PrefixWalk, post: PrefixWalk, answer: bool, r: WalkStep) -> bool {
    &&& post.wf()
    &&& (r is Ask) == post.awaiting()
    &&& (r is Ask ==> post.fuel() == pre.fuel() - 1)
    &&& post.source_encoded() == pre.source_encoded()
    &&& post.source_base() == pre.source_base()
    &&& post.sep_seq() == pre.sep_seq()
    &&& walk_step_ok(r, pre.source_encoded(), pre.source_base(), pre.sep_seq())
    &&& (pre.fuel() == 0 ==> (match r {
        WalkStep::Done(d, rem) => d@ == pre.cur_base() && rem@ == pre.cur_encoded(),
        WalkStep::Ask(_) => false,
    }))
    &&& (pre.fuel() > 0 && answer && pre.pending_pos() == pre.cur_encoded().len() - 1 ==> (match r {
        WalkStep::Done(d, rem) => d@ == walk_candidate(
            pre.cur_encoded(),
            pre.cur_base(),
            pre.sep_seq(),
            pre.pending_pos(),
        ) && rem@.len() == 0,
        WalkStep::Ask(_) => false,
    }))
    &&& (pre.fuel() > 0 && answer && pre.pending_pos() < pre.cur_encoded().len() - 1
        && pre.depth_level() >= MAX_DEPTH ==> (match r {
        WalkStep::Done(d, rem) => d@ == walk_candidate(
            pre.cur_encoded(),
            pre.cur_base(),
            pre.sep_seq(),
            pre.pending_pos(),
        ) && rem@ == pre.cur_encoded().subrange(
            pre.pending_pos() + 1,
            pre.cur_encoded().len() as int,
        ),
        WalkStep::Ask(_) => false,
    }))
    &&& (pre.fuel() > 0 && answer && pre.pending_pos() < pre.cur_encoded().len() - 1
        && pre.depth_level() < MAX_DEPTH ==> walk_scan_ok(
        r,
        post,
        pre.cur_encoded().subrange(pre.pending_pos() + 1, pre.cur_encoded().len() as int),
        walk_candidate(pre.cur_encoded(), pre.cur_base(), pre.sep_seq(), pre.pending_pos()),
        0,
    ) && post.depth_level() == pre.depth_level() + 1)
    &&& (pre.fuel() > 0 && !answer ==> walk_scan_ok(
        r,
        post,
        pre.cur_encoded(),
        pre.cur_base(),
        pre.pending_pos() + 1,
    ) && post.depth_level() == pre.depth_level())
}

/// The best-effort partial decoder: walk as deep as the filesystem
/// confirms, committing to the first existing directory at each level,
/// and report `(deepest_path, remaining_suffix)`. Used when the project
/// directory itself no longer exists on disk.
pub struct PrefixWalk {
    encoded: String,
    base: String,
    sep: String,
    from: usize,
    pending: Option<usize>,
    depth: usize,
    fuel: usize,
    source_enc: Ghost<Seq<char>>,
    source_base: Ghost<Seq<char>>,
}

impl PrefixWalk {
    /// Whether the walk has asked a probe and waits for its answer.
    pub closed spec fn awaiting(self) -> bool {
        self.pending is Some
    }

    /// The probes the walk may still ask before it gives up.
    pub closed spec fn fuel(self) -> nat {
        self.fuel as nat
    }

    /// The walk's internal consistency.
    pub closed spec fn wf(self) -> bool {
        &&& self.from <= self.encoded@.len()
        &&& (match self.pending {
            Some(pos) => 0 < pos < self.encoded@.len() && self.encoded@[pos as int] == '-',
            None => true,
        })
        &&& walk_reaches(
            self.source_enc@,
            self.source_base@,
            self.sep@,
            self.encoded@,
            self.base@,
        )
    }

    /// The encoded suffix the walk was started on.
    pub closed spec fn source_encoded(self) -> Seq<char> {
        self.source_enc@
    }

    /// The base path the walk was started on.
    pub closed spec fn source_base(self) -> Seq<char> {
        self.source_base@
    }

    /// The separator the walk joins segments with.
    pub closed spec fn sep_seq(self) -> Seq<char> {
        self.sep@
    }

    /// The suffix still under walk.
    pub closed spec fn cur_encoded(self) -> Seq<char> {
        self.encoded@
    }

    /// The deepest confirmed path so far.
    pub closed spec fn cur_base(self) -> Seq<char> {
        self.base@
    }

    /// The delimiter position of the outstanding probe.
    pub closed spec fn pending_pos(self) -> int {
        self.pending->Some_0 as int
    }

    /// How many confirmed descents have happened.
    pub closed spec fn depth_level(self) -> nat {
        self.depth as nat
    }

    /// Whether the walk waits for an answer.
    pub fn is_awaiting(&self) -> (r: bool)
        ensures
            r == self.awaiting(),
    {
        self.pending.is_some()
    }

    /// A finished walk that asks nothing: a placeholder to hold a slot
    /// before walking starts.
    pub fn idle() -> (r: PrefixWalk)
        ensures
            r.wf(),
            !r.awaiting(),
    {
        PrefixWalk {
            encoded: String::new(),
            base: String::new(),
            sep: String::new(),
            from: 0,
            pending: None,
            depth: 0,
            fuel: 0,
            source_enc: Ghost(Seq::empty()),
            source_base: Ghost(Seq::empty()),
        }
    }

    /// Scan forward to the next candidate delimiter, asking a probe for
    /// it, or finish with what was reached.
    fn advance(&mut self) -> (r: WalkStep)
        requires
            old(self).pending is None,
            old(self).from <= old(self).encoded@.len(),
            walk_reaches(
                old(self).source_enc@,
                old(self).source_base@,
                old(self).sep@,
                old(self).encoded@,
                old(self).base@,
            ),
        ensures
            final (self).wf(),
            (r is Ask) == final (self).awaiting(),
            final (self).fuel() == old(self).fuel(),
            final (self).source_enc == old(self).source_enc,
            final (self).source_base == old(self).source_base,
            final (self).sep == old(self).sep,
            final (self).cur_encoded() == old(self).cur_encoded(),
            final (self).cur_base() == old(self).cur_base(),
            final (self).depth_level() == old(self).depth_level(),
            walk_step_ok(r, old(self).source_enc@, old(self).source_base@, old(self).sep@),
            walk_scan_ok(r, *final (self), old(self).encoded@, old(self).base@, old(self).from as int),
    {
        let ghost e = self.encoded@;
        let ghost start = self.from as int;
        let found = match find_char_from(self.encoded.as_str(), '-', self.from) {
            Some(p0) => {
                if p0 == 0 {
                    find_char_from(self.encoded.as_str(), '-', 1)
                } else {
                    Some(p0)
                }
            },
            None => None,
        };
        proof {
            if start == 0 && e.len() > 0 && e[0] != '-' {
                assert(next_char(e, '-', 0) != 0);
            }
        }
        match found {
            Some(pos) => {
                proof {
                    assert(pos as int == next_candidate(e, start));
                }
                let seg = self.encoded.as_str().substring_char(0, pos);
                let candidate = join_with(self.base.as_str(), self.sep.as_str(), seg);
                self.pending = Some(pos);
                WalkStep::Ask(candidate)
            },
            None => {
                proof {
                    assert(next_candidate(e, start) == e.len());
                }
                WalkStep::Done(self.base.clone(), self.encoded.clone())
            },
        }
    }

    /// Start a walk of `encoded` under `base`, joining segments with
    /// `sep`. Returns the walk and its first request (or its immediate
    /// result).
    pub fn begin(encoded: &str, base: &str, sep: &str) -> (r: (PrefixWalk, WalkStep))
        ensures
            r.0.wf(),
            (r.1 is Ask) == r.0.awaiting(),
            r.0.source_encoded() == encoded@,
            r.0.source_base() == base@,
            r.0.sep_seq() == sep@,
            r.0.depth_level() == 0,
            r.0.fuel() == PROBE_FUEL as nat,
            walk_step_ok(r.1, encoded@, base@, sep@),
            walk_scan_ok(r.1, r.0, encoded@, base@, 0),
            walk_begin_post(r.0, r.1, encoded@, base@, sep@),
    {
        let mut m = PrefixWalk {
            encoded: String::from_str(encoded),
            base: String::from_str(base),
            sep: String::from_str(sep),
            from: 0,
            pending: None,
            depth: 0,
            fuel: PROBE_FUEL,
            source_enc: Ghost(encoded@),
            source_base: Ghost(base@),
        };
        let step = m.advance();
        (m, step)
    }

    /// Feed the walk the answer to its outstanding probe. A confirmed
    /// directory is descended into (up to the depth bound); a denied one
    /// is skipped. Each step burns fuel, so any pump loop is bounded.
    pub fn step(&mut self, answer: bool) -> (r: WalkStep)
        requires
            old(self).wf(),
            old(self).awaiting(),
        ensures
            final (self).wf(),
            (r is Ask) == final (self).awaiting(),
            r is Ask ==> final (self).fuel() == old(self).fuel() - 1,
            final (self).source_encoded() == old(self).source_encoded(),
            final (self).source_base() == old(self).source_base(),
            final (self).sep_seq() == old(self).sep_seq(),
            walk_step_ok(r, old(self).source_encoded(), old(self).source_base(), old(self).sep_seq()),
            old(self).fuel() == 0 ==> (r matches WalkStep::Done(d, rem) && d@ == old(
                self,
            ).cur_base() && rem@ == old(self).cur_encoded()),
            old(self).fuel() > 0 && answer && old(self).pending_pos() == old(
                self,
            ).cur_encoded().len() - 1 ==> (r matches WalkStep::Done(d, rem) && d@ == walk_candidate(
                old(self).cur_encoded(),
                old(self).cur_base(),
                old(self).sep_seq(),
                old(self).pending_pos(),
            ) && rem@.len() == 0),
            old(self).fuel() > 0 && answer && old(self).pending_pos() < old(
                self,
            ).cur_encoded().len() - 1 && old(self).depth_level() >= MAX_DEPTH ==> (r matches
                WalkStep::Done(d, rem) && d@ == walk_candidate(
                old(self).cur_encoded(),
                old(self).cur_base(),
                old(self).sep_seq(),
                old(self).pending_pos(),
            ) && rem@ == old(self).cur_encoded().subrange(
                old(self).pending_pos() + 1,
                old(self).cur_encoded().len() as int,
            )),
            old(self).fuel() > 0 && answer && old(self).pending_pos() < old(
                self,
            ).cur_encoded().len() - 1 && old(self).depth_level() < MAX_DEPTH ==> walk_scan_ok(
                r,
                *final (self),
                old(self).cur_encoded().subrange(
                    old(self).pending_pos() + 1,
                    old(self).cur_encoded().len() as int,
                ),
                walk_candidate(
                    old(self).cur_encoded(),
                    old(self).cur_base(),
                    old(self).sep_seq(),
                    old(self).pending_pos(),
                ),
                0,
            ) && final (self).depth_level() == old(self).depth_level() + 1,
            old(self).fuel() > 0 && !answer ==> walk_scan_ok(
                r,
                *final (self),
                old(self).cur_encoded(),
                old(self).cur_base(),
                old(self).pending_pos() + 1,
            ) && final (self).depth_level() == old(self).depth_level(),
            walk_step_post(*old(self), *final (self), answer, r),
    {
        let ghost e0 = self.source_enc@;
        let ghost b0 = self.source_base@;
        let ghost sp = self.sep@;
        let pos = match self.pending {
            Some(p) => p,
            None => {
                proof {
                    assert(false);
                }
                0
            },
        };
        self.pending = None;
        if self.fuel == 0 {
            return WalkStep::Done(self.base.clone(), self.encoded.clone());
        }
        self.fuel = self.fuel - 1;
        let n = self.encoded.as_str().unicode_len();
        if answer {
            let seg = self.encoded.as_str().substring_char(0, pos);
            let candidate = join_with(self.base.as_str(), self.sep.as_str(), seg);
            let ghost e = self.encoded@;
            let ghost b = self.base@;
            if pos + 1 == n {
                let empty_rem = String::new();
                proof {
                    let rest = e.subrange(pos as int + 1, e.len() as int);
                    assert(rest =~= Seq::<char>::empty());
                    assert(walk_reaches(rest, candidate@, sp, rest, candidate@));
                    assert(walk_reaches_at(e, b, sp, rest, candidate@, pos as int));
                    assert(e[pos as int] == '-');
                    assert(walk_reaches(e, b, sp, rest, candidate@));
                    lemma_walk_reaches_trans(e0, b0, sp, e, b, rest, candidate@);
                    assert(empty_rem@ =~= rest);
                }
                return WalkStep::Done(candidate, empty_rem);
            }
            if self.depth >= MAX_DEPTH {
                let remaining = String::from_str(self.encoded.as_str().substring_char(pos + 1, n));
                proof {
                    assert(walk_reaches(remaining@, candidate@, sp, remaining@, candidate@));
                    assert(walk_reaches_at(e, b, sp, remaining@, candidate@, pos as int));
                    assert(e[pos as int] == '-');
                    assert(walk_reaches(e, b, sp, remaining@, candidate@));
                    lemma_walk_reaches_trans(e0, b0, sp, e, b, remaining@, candidate@);
                }
                return WalkStep::Done(candidate, remaining);
            }
            let remaining = String::from_str(self.encoded.as_str().substring_char(pos + 1, n));
            proof {
                assert(walk_reaches(remaining@, candidate@, sp, remaining@, candidate@));
                assert(walk_reaches_at(e, b, sp, remaining@, candidate@, pos as int));
                assert(e[pos as int] == '-');
                assert(walk_reaches(e, b, sp, remaining@, candidate@));
                lemma_walk_reaches_trans(e0, b0, sp, e, b, remaining@, candidate@);
            }
            self.encoded = remaining;
            self.base = candidate;
            self.from = 0;
            self.depth = self.depth + 1;
            self.advance()
        } else {
            self.from = pos + 1;
            self.advance()
        }
    }
}

} // verus!
