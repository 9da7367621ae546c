//! Line boundary scanner for raw byte buffers.
//!
//! Session logs are line-delimited records that can be tens of megabytes;
//! a single forward pass over the buffer finds every maximal non-empty run
//! of bytes between newline characters. The byte search itself is done by
//! the `memchr` crate.

use vstd::prelude::*;
use vstd::slice::slice_subrange;

verus! {

/// The newline byte that terminates a line.
pub const NEWLINE: u8 = 10;

/// Index of the first newline at or after `start`, or `data.len()` if
/// there is none.
pub open spec fn next_newline(data: Seq<u8>, start: int) -> int
    decreases data.len() - start,
        when 0 <= start <= data.len()
{
    if start == data.len() {
        data.len() as int
    } else if data[start] == NEWLINE {
        start
    } else {
        next_newline(data, start + 1)
    }
}

pub proof fn lemma_next_newline_bounds(data: Seq<u8>, start: int)
    requires
        0 <= start <= data.len(),
    ensures
        start <= next_newline(data, start) <= data.len(),
        forall|k: int| start <= k < next_newline(data, start) ==> data[k] != NEWLINE,
        next_newline(data, start) < data.len() ==> data[next_newline(data, start)] == NEWLINE,
    decreases data.len() - start,
{
    if start < data.len() && data[start] != NEWLINE {
        lemma_next_newline_bounds(data, start + 1);
    }
}

/// A position known to be the first newline at or after `start` really is
/// `next_newline`.
pub proof fn lemma_next_newline_unique(data: Seq<u8>, start: int, e: int)
    requires
        0 <= start <= e <= data.len(),
        forall|k: int| start <= k < e ==> data[k] != NEWLINE,
        e < data.len() ==> data[e] == NEWLINE,
    ensures
        next_newline(data, start) == e,
    decreases e - start,
{
    if start < e {
        lemma_next_newline_unique(data, start + 1, e);
    }
}

/// The line ranges of `data` from offset `start` on: every maximal
/// non-empty run of bytes between newlines, as half-open `(start, end)`
/// pairs, in ascending order. Runs of zero length produce no range; a
/// final line without a trailing newline still yields a range ending at
/// `data.len()`.
pub open spec fn line_ranges_from(data: Seq<u8>, start: int) -> Seq<(int, int)>
    decreases data.len() - start,
        when 0 <= start <= data.len()
        via line_ranges_from_dec
{
    if start == data.len() {
        Seq::empty()
    } else {
        let e = next_newline(data, start);
        if e == start {
            line_ranges_from(data, start + 1)
        } else if e == data.len() {
            seq![(start, e)]
        } else {
            seq![(start, e)] + line_ranges_from(data, e + 1)
        }
    }
}

#[via_fn]
proof fn line_ranges_from_dec(data: Seq<u8>, start: int) {
    if 0 <= start < data.len() {
        lemma_next_newline_bounds(data, start);
    }
}

/// The line ranges of the whole buffer.
pub open spec fn line_ranges_spec(data: Seq<u8>) -> Seq<(int, int)> {
    line_ranges_from(data, 0)
}

/// The concatenation of the byte slices that `ranges` names, in order.
pub open spec fn concat_ranges(data: Seq<u8>, ranges: Seq<(int, int)>) -> Seq<u8>
    decreases ranges.len(),
{
    if ranges.len() == 0 {
        Seq::empty()
    } else {
        data.subrange(ranges[0].0, ranges[0].1) + concat_ranges(data, ranges.drop_first())
    }
}

/// A byte that is not a newline.
pub open spec fn not_newline(b: u8) -> bool {
    b != NEWLINE
}

/// The buffer with every newline byte removed.
pub open spec fn strip_newlines(data: Seq<u8>) -> Seq<u8>
    decreases data.len(),
{
    if data.len() == 0 {
        Seq::empty()
    } else if not_newline(data[0]) {
        seq![data[0]] + strip_newlines(data.drop_first())
    } else {
        strip_newlines(data.drop_first())
    }
}

proof fn lemma_strip_all(s: Seq<u8>)
    requires
        forall|i: int| 0 <= i < s.len() ==> s[i] != NEWLINE,
    ensures
        strip_newlines(s) =~= s,
    decreases s.len(),
{
    if s.len() > 0 {
        lemma_strip_all(s.drop_first());
        assert(strip_newlines(s) =~= seq![s[0]] + s.drop_first());
    }
}

proof fn lemma_strip_add(a: Seq<u8>, b: Seq<u8>)
    ensures
        strip_newlines(a + b) =~= strip_newlines(a) + strip_newlines(b),
    decreases a.len(),
{
    if a.len() == 0 {
        assert(a + b =~= b);
        assert(strip_newlines(a) + strip_newlines(b) =~= strip_newlines(b));
    } else {
        lemma_strip_add(a.drop_first(), b);
        assert((a + b).drop_first() =~= a.drop_first() + b);
        assert((a + b)[0] == a[0]);
        if not_newline(a[0]) {
            assert(strip_newlines(a + b) =~= seq![a[0]] + strip_newlines(a.drop_first() + b));
            assert(seq![a[0]] + (strip_newlines(a.drop_first()) + strip_newlines(b)) =~= (seq![
                a[0],
            ] + strip_newlines(a.drop_first())) + strip_newlines(b));
        }
    }
}

proof fn lemma_concat_from(data: Seq<u8>, start: int)
    requires
        0 <= start <= data.len(),
    ensures
        concat_ranges(data, line_ranges_from(data, start)) =~= strip_newlines(
            data.subrange(start, data.len() as int),
        ),
    decreases data.len() - start,
{
    reveal_with_fuel(concat_ranges, 3);
    let n = data.len() as int;
    let tail = data.subrange(start, n);
    if start == n {
        assert(tail =~= Seq::<u8>::empty());
    } else {
        lemma_next_newline_bounds(data, start);
        let e = next_newline(data, start);
        if e == start {
            lemma_concat_from(data, start + 1);
            let tail2 = data.subrange(start + 1, n);
            assert(tail.drop_first() =~= tail2);
            assert(tail[0] == data[start]);
            assert(strip_newlines(tail) == strip_newlines(tail2));
        } else {
            let head = data.subrange(start, e);
            lemma_strip_all(head);
            if e == n {
                let ranges = line_ranges_from(data, start);
                assert(ranges == seq![(start, e)]);
                assert(ranges.drop_first() =~= Seq::<(int, int)>::empty());
                assert(ranges[0] == (start, e));
                assert(concat_ranges(data, ranges) =~= head + Seq::<u8>::empty());
                assert(tail == head);
            } else {
                lemma_concat_from(data, e + 1);
                let tail2 = data.subrange(e + 1, n);
                let mid = data.subrange(e, n);
                assert(tail =~= head + mid);
                lemma_strip_add(head, mid);
                assert(mid.drop_first() =~= tail2);
                assert(mid[0] == data[e]);
                assert(!not_newline(data[e]));
                assert(strip_newlines(mid) == strip_newlines(tail2));
                let ranges = line_ranges_from(data, start);
                assert(ranges == seq![(start, e)] + line_ranges_from(data, e + 1));
                assert(ranges.drop_first() =~= line_ranges_from(data, e + 1));
                assert(ranges[0] == (start, e));
                assert(concat_ranges(data, ranges) =~= head + concat_ranges(
                    data,
                    line_ranges_from(data, e + 1),
                ));
            }
        }
    }
}

/// Law: the concatenation of all scanned line slices, in order, equals
/// the buffer with every newline byte removed.
pub proof fn lemma_line_ranges_totality(data: Seq<u8>)
    ensures
        concat_ranges(data, line_ranges_spec(data)) == strip_newlines(data),
{
    lemma_concat_from(data, 0);
    assert(data.subrange(0, data.len() as int) =~= data);
    assert(concat_ranges(data, line_ranges_spec(data)) =~= strip_newlines(data));
}

/// A well-formed line range: non-empty, within the buffer and after
/// `start`, free of newlines, ending at a newline or at the buffer end.
pub open spec fn wf_range(data: Seq<u8>, start: int, rg: (int, int)) -> bool {
    &&& start <= rg.0 < rg.1 <= data.len()
    &&& (rg.1 < data.len() ==> data[rg.1] == NEWLINE)
    &&& (forall|k: int| rg.0 <= k < rg.1 ==> data[k] != NEWLINE)
}

/// Law: every scanned range is non-empty, lies within the buffer, holds
/// no newline, and stops either at a newline or at the end of the buffer.
pub proof fn lemma_line_ranges_wf(data: Seq<u8>, start: int)
    requires
        0 <= start <= data.len(),
    ensures
        forall|i: int|
            0 <= i < line_ranges_from(data, start).len() ==> wf_range(
                data,
                start,
                #[trigger] line_ranges_from(data, start)[i],
            ),
    decreases data.len() - start,
{
    let rs = line_ranges_from(data, start);
    if start < data.len() {
        lemma_next_newline_bounds(data, start);
        let e = next_newline(data, start);
        if e == start {
            lemma_line_ranges_wf(data, start + 1);
            assert(rs == line_ranges_from(data, start + 1));
            assert forall|i: int| 0 <= i < rs.len() implies wf_range(data, start, rs[i]) by {
                assert(wf_range(data, start + 1, line_ranges_from(data, start + 1)[i]));
            }
        } else if e == data.len() {
            assert(rs == seq![(start, e)]);
            assert(wf_range(data, start, (start, e)));
        } else {
            lemma_line_ranges_wf(data, e + 1);
            let rest = line_ranges_from(data, e + 1);
            assert(rs == seq![(start, e)] + rest);
            assert forall|i: int| 0 <= i < rs.len() implies wf_range(data, start, rs[i]) by {
                if i == 0 {
                    assert(rs[i] == (start, e));
                    assert(wf_range(data, start, (start, e)));
                } else {
                    assert(rs[i] == rest[i - 1]);
                    assert(wf_range(data, e + 1, rest[i - 1]));
                }
            }
        }
    }
}

/// Law: a buffer of only newlines (the empty buffer included) yields no
/// line range at all.
pub proof fn lemma_only_newlines_no_ranges(data: Seq<u8>)
    requires
        forall|i: int| 0 <= i < data.len() ==> data[i] == NEWLINE,
    ensures
        line_ranges_spec(data) == Seq::<(int, int)>::empty(),
{
    lemma_only_newlines_from(data, 0);
}

proof fn lemma_only_newlines_from(data: Seq<u8>, start: int)
    requires
        0 <= start <= data.len(),
        forall|i: int| 0 <= i < data.len() ==> data[i] == NEWLINE,
    ensures
        line_ranges_from(data, start) == Seq::<(int, int)>::empty(),
    decreases data.len() - start,
{
    if start < data.len() {
        lemma_only_newlines_from(data, start + 1);
    }
}

/// Law: a buffer whose final byte is not a newline yields at least one
/// range, and the last range ends exactly at the buffer length.
pub proof fn lemma_unterminated_last_line(data: Seq<u8>)
    requires
        data.len() > 0,
        data[data.len() - 1] != NEWLINE,
    ensures
        line_ranges_spec(data).len() > 0,
        line_ranges_spec(data).last().1 == data.len(),
{
    lemma_unterminated_from(data, 0);
}

proof fn lemma_unterminated_from(data: Seq<u8>, start: int)
    requires
        0 <= start < data.len(),
        data[data.len() - 1] != NEWLINE,
    ensures
        line_ranges_from(data, start).len() > 0,
        line_ranges_from(data, start).last().1 == data.len(),
    decreases data.len() - start,
{
    lemma_next_newline_bounds(data, start);
    let e = next_newline(data, start);
    if e == start {
        lemma_unterminated_from(data, start + 1);
    } else if e < data.len() {
        lemma_unterminated_from(data, e + 1);
    }
}

/// A `Vec` of `usize` offset pairs, as mathematical integer pairs.
pub open spec fn pairs_as_int(s: Seq<(usize, usize)>) -> Seq<(int, int)> {
    Seq::new(s.len(), |i: int| (s[i].0 as int, s[i].1 as int))
}

/// Relies on `memchr::memchr`: returns the index of the first occurrence
/// of `needle` in `haystack`, or `None` if it does not occur.
pub assume_specification[ memchr::memchr ](needle: u8, haystack: &[u8]) -> (r: Option<usize>)
    ensures
        (match r {
            Some(i) => i < haystack@.len() && haystack@[i as int] == needle && (forall|j: int|
                0 <= j < i ==> haystack@[j] != needle),
            None => forall|j: int| 0 <= j < haystack@.len() ==> haystack@[j] != needle,
        }),
;

/// Find the line boundaries of a byte buffer: one `(start, end)` pair of
/// byte offsets per non-empty line, newline excluded, in ascending order.
pub fn find_line_ranges(data: &[u8]) -> (r: Vec<(usize, usize)>)
    ensures
        pairs_as_int(r@) == line_ranges_spec(data@),
{
    let n = data.len();
    let mut r: Vec<(usize, usize)> = Vec::with_capacity(n / 500);
    let mut start: usize = 0;
    loop
        invariant_except_break
            0 <= start <= n == data@.len(),
            pairs_as_int(r@) + line_ranges_from(data@, start as int) == line_ranges_spec(data@),
        ensures
            pairs_as_int(r@) == line_ranges_spec(data@),
        decreases n - start,
    {
        let rest = slice_subrange(data, start, n);
        match memchr::memchr(NEWLINE, rest) {
            Some(k) => {
                let pos = start + k;
                proof {
                    assert(data@[pos as int] == NEWLINE) by {
                        assert(rest@[k as int] == NEWLINE);
                    }
                    assert forall|kk: int| start <= kk < pos implies data@[kk] != NEWLINE by {
                        assert(rest@[kk - start] != NEWLINE);
                    }
                    lemma_next_newline_unique(data@, start as int, pos as int);
                }
                if pos > start {
                    let ghost before = r@;
                    r.push((start, pos));
                    proof {
                        assert(pairs_as_int(r@) =~= pairs_as_int(before) + seq![
                            (start as int, pos as int),
                        ]);
                        assert(pairs_as_int(before) + (seq![(start as int, pos as int)]
                            + line_ranges_from(data@, pos + 1)) =~= (pairs_as_int(before) + seq![
                            (start as int, pos as int),
                        ]) + line_ranges_from(data@, pos + 1));
                    }
                }
                start = pos + 1;
            },
            None => {
                proof {
                    assert forall|kk: int| start <= kk < n implies data@[kk] != NEWLINE by {
                        assert(rest@[kk - start] != NEWLINE);
                    }
                    lemma_next_newline_unique(data@, start as int, n as int);
                }
                if start < n {
                    let ghost before = r@;
                    r.push((start, n));
                    proof {
                        assert(pairs_as_int(r@) =~= pairs_as_int(before) + seq![
                            (start as int, n as int),
                        ]);
                    }
                }
                proof {
                    assert(pairs_as_int(r@) + Seq::<(int, int)>::empty() =~= pairs_as_int(r@));
                }
                break ;
            },
        }
    }
    r
}

/// The line start offsets that follow newlines at or after `start`:
/// `pos + 1` for every newline position `pos`, except a newline that is
/// the final byte of the buffer.
pub open spec fn starts_after(data: Seq<u8>, start: int) -> Seq<int>
    decreases data.len() - start,
        when 0 <= start <= data.len()
        via starts_after_dec
{
    if start == data.len() {
        Seq::empty()
    } else {
        let e = next_newline(data, start);
        if e + 1 < data.len() {
            seq![e + 1] + starts_after(data, e + 1)
        } else {
            Seq::empty()
        }
    }
}

#[via_fn]
proof fn starts_after_dec(data: Seq<u8>, start: int) {
    if 0 <= start < data.len() {
        lemma_next_newline_bounds(data, start);
    }
}

/// The line start offsets of the whole buffer: offset 0, plus the offset
/// after each newline that is not the final byte.
pub open spec fn line_starts_spec(data: Seq<u8>) -> Seq<int> {
    seq![0int] + starts_after(data, 0)
}

/// A `Vec` of `usize` offsets, as mathematical integers.
pub open spec fn offsets_as_int(s: Seq<usize>) -> Seq<int> {
    Seq::new(s.len(), |i: int| s[i] as int)
}

/// Find the start offset of every line of a byte buffer: offset 0 always,
/// plus the offset immediately after each newline that is not the final
/// byte (so a trailing newline produces no spurious start past the data).
pub fn find_line_starts(data: &[u8]) -> (r: Vec<usize>)
    ensures
        offsets_as_int(r@) == line_starts_spec(data@),
{
    let n = data.len();
    let mut r: Vec<usize> = Vec::with_capacity(n / 500 + 1);
    r.push(0);
    proof {
        assert(offsets_as_int(r@) =~= seq![0int]);
    }
    let mut start: usize = 0;
    loop
        invariant_except_break
            0 <= start <= n == data@.len(),
            offsets_as_int(r@) + starts_after(data@, start as int) == line_starts_spec(data@),
        ensures
            offsets_as_int(r@) == line_starts_spec(data@),
        decreases n - start,
    {
        let rest = slice_subrange(data, start, n);
        match memchr::memchr(NEWLINE, rest) {
            Some(k) => {
                let pos = start + k;
                proof {
                    assert(data@[pos as int] == NEWLINE) by {
                        assert(rest@[k as int] == NEWLINE);
                    }
                    assert forall|kk: int| start <= kk < pos implies data@[kk] != NEWLINE by {
                        assert(rest@[kk - start] != NEWLINE);
                    }
                    lemma_next_newline_unique(data@, start as int, pos as int);
                }
                if pos + 1 < n {
                    let ghost before = r@;
                    r.push(pos + 1);
                    proof {
                        assert(offsets_as_int(r@) =~= offsets_as_int(before) + seq![pos + 1int]);
                        assert(offsets_as_int(before) + (seq![pos + 1int] + starts_after(
                            data@,
                            pos + 1,
                        )) =~= (offsets_as_int(before) + seq![pos + 1int]) + starts_after(
                            data@,
                            pos + 1,
                        ));
                    }
                    start = pos + 1;
                } else {
                    proof {
                        assert(offsets_as_int(r@) + Seq::<int>::empty() =~= offsets_as_int(r@));
                    }
                    break ;
                }
            },
            None => {
                proof {
                    assert forall|kk: int| start <= kk < n implies data@[kk] != NEWLINE by {
                        assert(rest@[kk - start] != NEWLINE);
                    }
                    lemma_next_newline_unique(data@, start as int, n as int);
                    assert(offsets_as_int(r@) + Seq::<int>::empty() =~= offsets_as_int(r@));
                }
                break ;
            },
        }
    }
    r
}

} // verus!
