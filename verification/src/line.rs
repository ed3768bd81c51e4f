use vstd::prelude::*;
use crate::error::{Error, ParseOutcome, Status};
use crate::iter::Bytes;

verus! {

/// Carriage return.
pub const CR: u8 = 13u8;

/// Line feed.
pub const LF: u8 = 10u8;

/// A byte that ends a line's content.
pub open spec fn is_break(b: u8) -> bool {
    b == CR || b == LF
}

/// Where the run of blank lines that starts at `from` stops: the first
/// position at or after `from` that does not begin a complete terminator
/// (a line feed, or a carriage return with a line feed behind it).
pub open spec fn blank_end(s: Seq<u8>, from: int) -> int
    decreases s.len() - from,
{
    if 0 <= from < s.len() && s[from] == LF {
        blank_end(s, from + 1)
    } else if 0 <= from && from + 1 < s.len() && s[from] == CR && s[from + 1] == LF {
        blank_end(s, from + 2)
    } else {
        from
    }
}

/// What skipping blank lines from `from` yields: a carriage return whose
/// successor is present and no line feed is an error; the end of the buffer,
/// or a carriage return at its last byte, asks for more; any other byte starts
/// the content line.
pub open spec fn skip_result(s: Seq<u8>, from: int) -> ParseOutcome<()> {
    let e = blank_end(s, from);
    if e >= s.len() {
        Ok(Status::Partial)
    } else if s[e] != CR {
        Ok(Status::Complete(()))
    } else if e + 1 >= s.len() {
        Ok(Status::Partial)
    } else {
        Err(Error::NewLine)
    }
}

/// Where the cursor stands after skipping blank lines from `from`.
pub open spec fn skip_pos(s: Seq<u8>, from: int) -> int {
    let e = blank_end(s, from);
    if e >= s.len() || s[e] != CR {
        e
    } else if e + 1 >= s.len() {
        e + 1
    } else {
        e + 2
    }
}

/// The first position at or after `from` that holds a carriage return or a
/// line feed; the buffer's length where there is none.
pub open spec fn content_end(s: Seq<u8>, from: int) -> int
    decreases s.len() - from,
{
    if from < 0 || from >= s.len() {
        s.len() as int
    } else if is_break(s[from]) {
        from
    } else {
        content_end(s, from + 1)
    }
}

/// The content that starts at `start` is longer than the ceiling allows.
pub open spec fn over_limit(s: Seq<u8>, start: int, limit: Option<usize>) -> bool {
    limit matches Some(l) && content_end(s, start) - start > l
}

/// What scanning a line from `start` yields. Content past the ceiling is an
/// error, terminator or not. Otherwise a line feed, alone or behind a carriage
/// return, completes the line with the position where its content ends; a
/// carriage return before another byte is an error; a carriage return at the
/// last byte, or no terminator at all, asks for more.
pub open spec fn line_result(s: Seq<u8>, start: int, limit: Option<usize>) -> ParseOutcome<
    usize,
> {
    let e = content_end(s, start);
    if over_limit(s, start, limit) {
        Err(Error::NewLine)
    } else if e >= s.len() {
        Ok(Status::Partial)
    } else if s[e] == LF {
        Ok(Status::Complete(e as usize))
    } else if e + 1 >= s.len() {
        Ok(Status::Partial)
    } else if s[e + 1] == LF {
        Ok(Status::Complete(e as usize))
    } else {
        Err(Error::NewLine)
    }
}

/// Where the cursor stands after scanning a line from `start`: behind the
/// terminator of a complete line, at the first byte past the ceiling, behind
/// the byte that wrongly follows a carriage return, else at the buffer's end.
pub open spec fn line_pos(s: Seq<u8>, start: int, limit: Option<usize>) -> int {
    let e = content_end(s, start);
    if over_limit(s, start, limit) {
        start + limit.unwrap()
    } else if e >= s.len() {
        s.len() as int
    } else if s[e] == LF {
        e + 1
    } else if e + 1 >= s.len() {
        s.len() as int
    } else {
        e + 2
    }
}

/// `content_end` is the least position at or after `from` with a terminator
/// byte, and the length where no such position exists.
pub proof fn lemma_content_end(s: Seq<u8>, from: int)
    requires
        0 <= from <= s.len(),
    ensures
        from <= content_end(s, from) <= s.len(),
        content_end(s, from) < s.len() ==> is_break(s[content_end(s, from)]),
        forall|j: int| from <= j < content_end(s, from) ==> !is_break(#[trigger] s[j]),
    decreases s.len() - from,
{
    if from < s.len() && !is_break(s[from]) {
        lemma_content_end(s, from + 1);
    }
}

/// The run of blank lines stops inside the buffer, at or after its start.
pub proof fn lemma_blank_end(s: Seq<u8>, from: int)
    requires
        0 <= from <= s.len(),
    ensures
        from <= blank_end(s, from) <= s.len(),
    decreases s.len() - from,
{
    if from < s.len() && s[from] == LF {
        lemma_blank_end(s, from + 1);
    } else if from + 1 < s.len() && s[from] == CR && s[from + 1] == LF {
        lemma_blank_end(s, from + 2);
    }
}

/// Steps over the blank lines at the cursor, up to the byte that starts the
/// content line.
#[inline]
pub fn skip_empty_lines(bytes: &mut Bytes) -> (r: ParseOutcome<()>)
    requires
        old(bytes).wf(),
    ensures
        final(bytes).slice == old(bytes).slice,
        final(bytes).wf(),
        r == skip_result(old(bytes).slice@, old(bytes).pos as int),
        final(bytes).pos == skip_pos(old(bytes).slice@, old(bytes).pos as int),
{
    let ghost s = bytes.slice@;
    let ghost from = bytes.pos as int;
    loop
        invariant
            s == old(bytes).slice@,
            from == old(bytes).pos,
            bytes.slice == old(bytes).slice,
            bytes.wf(),
            from <= bytes.pos,
            blank_end(s, from) == blank_end(s, bytes.pos as int),
        decreases s.len() - bytes.pos,
    {
        match bytes.peek() {
            Some(b) => {
                if b == CR {
                    bytes.bump();
                    match bytes.next() {
                        Some(c) => {
                            if c != LF {
                                return Err(Error::NewLine);
                            }
                        },
                        None => {
                            return Ok(Status::Partial);
                        },
                    }
                } else if b == LF {
                    bytes.bump();
                } else {
                    return Ok(Status::Complete(()));
                }
            },
            None => {
                return Ok(Status::Partial);
            },
        }
    }
}

/// Scans one line of any length from the cursor.
#[inline]
pub fn next_line(bytes: &mut Bytes) -> (r: ParseOutcome<usize>)
    requires
        old(bytes).wf(),
    ensures
        final(bytes).slice == old(bytes).slice,
        final(bytes).wf(),
        r == line_result(old(bytes).slice@, old(bytes).pos as int, None),
        final(bytes).pos == line_pos(old(bytes).slice@, old(bytes).pos as int, None),
{
    next_line_inner(bytes, None)
}

/// Scans one line from the cursor whose content may hold `limit` bytes at
/// most.
#[inline]
pub fn next_line_limit(bytes: &mut Bytes, limit: usize) -> (r: ParseOutcome<usize>)
    requires
        old(bytes).wf(),
    ensures
        final(bytes).slice == old(bytes).slice,
        final(bytes).wf(),
        r == line_result(old(bytes).slice@, old(bytes).pos as int, Some(limit)),
        final(bytes).pos == line_pos(old(bytes).slice@, old(bytes).pos as int, Some(limit)),
{
    next_line_inner(bytes, Some(limit))
}

/// Scans from the cursor to the end of the line, and returns the position
/// where the line's content ends. The terminator is not counted against
/// `limit`.
#[inline]
pub fn next_line_inner(bytes: &mut Bytes, limit: Option<usize>) -> (r: ParseOutcome<usize>)
    requires
        old(bytes).wf(),
    ensures
        final(bytes).slice == old(bytes).slice,
        final(bytes).wf(),
        r == line_result(old(bytes).slice@, old(bytes).pos as int, limit),
        final(bytes).pos == line_pos(old(bytes).slice@, old(bytes).pos as int, limit),
{
    let start: usize = bytes.pos;
    let ghost s = bytes.slice@;
    loop
        invariant
            s == old(bytes).slice@,
            bytes.slice == old(bytes).slice,
            bytes.wf(),
            start == old(bytes).pos,
            start <= bytes.pos,
            content_end(s, start as int) == content_end(s, bytes.pos as int),
            limit matches Some(l) ==> bytes.pos - start <= l,
        decreases s.len() - bytes.pos,
    {
        proof {
            lemma_content_end(s, bytes.pos as int);
            assert(bytes.slice.len() == s.len());
        }
        match bytes.peek() {
            Some(b) => {
                if b == CR {
                    bytes.bump();
                    match bytes.next() {
                        Some(c) => {
                            if c == LF {
                                return Ok(Status::Complete(bytes.pos - 2));
                            } else {
                                return Err(Error::NewLine);
                            }
                        },
                        None => {
                            return Ok(Status::Partial);
                        },
                    }
                } else if b == LF {
                    bytes.bump();
                    return Ok(Status::Complete(bytes.pos - 1));
                } else {
                    if let Some(l) = limit {
                        if bytes.pos - start + 1 > l {
                            proof {
                                lemma_content_end(s, bytes.pos as int + 1);
                            }
                            return Err(Error::NewLine);
                        }
                    }
                    bytes.bump();
                }
            },
            None => {
                return Ok(Status::Partial);
            },
        }
    }
}

/// Where all bytes from `from` up to `i` are no terminator bytes and the byte
/// at `i` is one, the content ends at `i`.
pub proof fn lemma_content_end_is(s: Seq<u8>, from: int, i: int)
    requires
        0 <= from <= i < s.len(),
        forall|j: int| from <= j < i ==> !is_break(#[trigger] s[j]),
        is_break(s[i]),
    ensures
        content_end(s, from) == i,
    decreases i - from,
{
    if from < i {
        lemma_content_end_is(s, from + 1, i);
    }
}

/// Where all bytes from `from` up to `i` are no terminator bytes, the content
/// does not end before `i`.
pub proof fn lemma_content_end_at_least(s: Seq<u8>, from: int, i: int)
    requires
        0 <= from <= i <= s.len(),
        forall|j: int| from <= j < i ==> !is_break(#[trigger] s[j]),
    ensures
        content_end(s, from) >= i,
    decreases i - from,
{
    if from < i {
        lemma_content_end_at_least(s, from + 1, i);
    } else {
        lemma_content_end(s, from);
    }
}

/// In the first `k` bytes of a buffer the content ends where it ends in the
/// whole buffer, or at `k` where that comes first.
pub proof fn lemma_content_end_take(s: Seq<u8>, k: int, from: int)
    requires
        0 <= from <= k <= s.len(),
    ensures
        content_end(s.take(k), from) == if content_end(s, from) < k {
            content_end(s, from)
        } else {
            k
        },
    decreases k - from,
{
    lemma_content_end(s, from);
    if from < k {
        assert(s.take(k)[from] == s[from]);
        if !is_break(s[from]) {
            lemma_content_end_take(s, k, from + 1);
        }
    }
}

/// A complete line lies inside the buffer: its content ends before its
/// terminator does.
pub proof fn lemma_line_complete_bounds(s: Seq<u8>, start: int, limit: Option<usize>)
    requires
        0 <= start,
        line_result(s, start, limit) matches Ok(Status::Complete(_)),
    ensures
        start <= content_end(s, start) < line_pos(s, start, limit) <= s.len(),
        line_result(s, start, limit) == Ok::<Status<usize>, Error>(
            Status::Complete(content_end(s, start) as usize),
        ),
{
    if start <= s.len() {
        lemma_content_end(s, start);
    }
}

/// Every buffer that stops short of a complete line's terminator asks for
/// more bytes.
pub proof fn lemma_line_prefix_partial(s: Seq<u8>, start: int, limit: Option<usize>, k: int)
    requires
        0 <= start <= k,
        line_result(s, start, limit) matches Ok(Status::Complete(_)),
        k < line_pos(s, start, limit),
    ensures
        line_result(s.take(k), start, limit) == Ok::<Status<usize>, Error>(Status::Partial),
{
    lemma_line_complete_bounds(s, start, limit);
    lemma_content_end_take(s, k, start);
    let e = content_end(s, start);
    if e < k {
        assert(s.take(k)[e] == s[e]);
    }
}

/// A complete line is complete as soon as its terminator is there: on the
/// bytes up to the end of the terminator the scan gives what it gives on the
/// whole buffer.
pub proof fn lemma_line_whole(s: Seq<u8>, start: int, limit: Option<usize>)
    requires
        0 <= start,
        line_result(s, start, limit) matches Ok(Status::Complete(_)),
    ensures
        line_pos(s, start, limit) <= s.len(),
        line_result(s.take(line_pos(s, start, limit)), start, limit) == line_result(
            s,
            start,
            limit,
        ),
        line_pos(s.take(line_pos(s, start, limit)), start, limit) == line_pos(s, start, limit),
{
    lemma_line_complete_bounds(s, start, limit);
    let n = line_pos(s, start, limit);
    let e = content_end(s, start);
    lemma_content_end_take(s, n, start);
    assert(s.take(n)[e] == s[e]);
    if e + 1 < n {
        assert(s.take(n)[e + 1] == s[e + 1]);
    }
}

/// A scan that has decided, for a line or against one, decides the same
/// however many bytes are appended.
pub proof fn lemma_line_stable(s: Seq<u8>, start: int, limit: Option<usize>, k: int)
    requires
        0 <= start <= k <= s.len(),
        line_result(s.take(k), start, limit) != Ok::<Status<usize>, Error>(Status::Partial),
    ensures
        line_result(s, start, limit) == line_result(s.take(k), start, limit),
        line_pos(s, start, limit) == line_pos(s.take(k), start, limit),
{
    lemma_content_end(s, start);
    lemma_content_end_take(s, k, start);
    let e = content_end(s.take(k), start);
    if e < k {
        assert(s.take(k)[e] == s[e]);
        if e + 1 < k {
            assert(s.take(k)[e + 1] == s[e + 1]);
        }
    }
}

/// Content of exactly `limit` bytes before a well-formed terminator is a
/// complete line.
pub proof fn lemma_line_at_ceiling(s: Seq<u8>, start: int, limit: usize)
    requires
        0 <= start,
        start + limit < s.len(),
        forall|j: int| start <= j < start + limit ==> !is_break(#[trigger] s[j]),
        s[start + limit] == LF || (s[start + limit] == CR && start + limit + 1 < s.len() && s[start
            + limit + 1] == LF),
    ensures
        line_result(s, start, Some(limit)) == Ok::<Status<usize>, Error>(
            Status::Complete((start + limit) as usize),
        ),
{
    lemma_content_end_is(s, start, start + limit);
}

/// Content of more than `limit` bytes is an error, whether or not a
/// terminator follows.
pub proof fn lemma_line_over_ceiling(s: Seq<u8>, start: int, limit: usize)
    requires
        0 <= start,
        start + limit < s.len(),
        forall|j: int| start <= j <= start + limit ==> !is_break(#[trigger] s[j]),
    ensures
        line_result(s, start, Some(limit)) == Err::<Status<usize>, Error>(Error::NewLine),
        line_pos(s, start, Some(limit)) == start + limit,
{
    lemma_content_end_at_least(s, start, start + limit + 1);
}

/// A carriage return in a line, before a byte that is no line feed, is an
/// error with or without a ceiling.
pub proof fn lemma_line_bad_terminator(s: Seq<u8>, start: int, limit: Option<usize>, i: int)
    requires
        0 <= start <= i,
        i + 1 < s.len(),
        forall|j: int| start <= j < i ==> !is_break(#[trigger] s[j]),
        s[i] == CR,
        s[i + 1] != LF,
    ensures
        line_result(s, start, limit) == Err::<Status<usize>, Error>(Error::NewLine),
{
    lemma_content_end_is(s, start, i);
}

/// Bytes that are line feeds, or carriage returns each with a line feed
/// behind it, are blank lines: skipping from their start is skipping from
/// their end.
pub proof fn lemma_blank_run(s: Seq<u8>, from: int, i: int)
    requires
        0 <= from <= i <= s.len(),
        forall|j: int|
            from <= j < i ==> #[trigger] s[j] == LF || (s[j] == CR && j + 1 < i && s[j + 1] == LF),
    ensures
        blank_end(s, from) == blank_end(s, i),
    decreases i - from,
{
    if from < i {
        if s[from] == LF {
            lemma_blank_run(s, from + 1, i);
        } else {
            assert(s[from] == CR && from + 1 < i && s[from + 1] == LF);
            lemma_blank_run(s, from + 2, i);
        }
    }
}

/// A carriage return behind blank lines, before a byte that is no line feed,
/// is an error.
pub proof fn lemma_skip_bad_terminator(s: Seq<u8>, from: int, i: int)
    requires
        0 <= from <= i,
        i + 1 < s.len(),
        forall|j: int|
            from <= j < i ==> #[trigger] s[j] == LF || (s[j] == CR && j + 1 < i && s[j + 1] == LF),
        s[i] == CR,
        s[i + 1] != LF,
    ensures
        skip_result(s, from) == Err::<Status<()>, Error>(Error::NewLine),
        skip_pos(s, from) == i + 2,
{
    lemma_blank_run(s, from, i);
}

/// In a buffer that stops inside the run of blank lines, the run reaches the
/// buffer's end, or its last byte is a carriage return that waits for its
/// line feed.
pub proof fn lemma_blank_end_take_short(s: Seq<u8>, k: int, from: int)
    requires
        0 <= from <= k <= blank_end(s, from),
        k <= s.len(),
    ensures
        blank_end(s.take(k), from) == k || (blank_end(s.take(k), from) == k - 1 && from <= k - 1
            && s[k - 1] == CR),
    decreases k - from,
{
    let t = s.take(k);
    if from < k {
        assert(t[from] == s[from]);
        if s[from] == LF {
            lemma_blank_end_take_short(s, k, from + 1);
        } else {
            assert(s[from] == CR && from + 1 < s.len() && s[from + 1] == LF);
            if from + 1 < k {
                assert(t[from + 1] == s[from + 1]);
                lemma_blank_end_take_short(s, k, from + 2);
            }
        }
    }
}

/// In a buffer that reaches past the run of blank lines, to a byte that is no
/// carriage return, the run stops where it stops in the whole buffer.
pub proof fn lemma_blank_end_take_long(s: Seq<u8>, k: int, from: int)
    requires
        0 <= from <= s.len(),
        blank_end(s, from) < k <= s.len(),
        s[blank_end(s, from)] != CR,
    ensures
        blank_end(s.take(k), from) == blank_end(s, from),
    decreases s.len() - from,
{
    let t = s.take(k);
    lemma_blank_end(s, from);
    assert(t[from] == s[from]);
    if s[from] == LF {
        lemma_blank_end(s, from + 1);
        lemma_blank_end_take_long(s, k, from + 1);
    } else if from + 1 < s.len() && s[from] == CR && s[from + 1] == LF {
        lemma_blank_end(s, from + 2);
        assert(t[from + 1] == s[from + 1]);
        lemma_blank_end_take_long(s, k, from + 2);
    }
}

/// Every buffer that stops inside the run of blank lines asks for more bytes.
pub proof fn lemma_skip_prefix_partial(s: Seq<u8>, from: int, k: int)
    requires
        0 <= from <= k <= blank_end(s, from),
        k <= s.len(),
    ensures
        skip_result(s.take(k), from) == Ok::<Status<()>, Error>(Status::Partial),
{
    lemma_blank_end_take_short(s, k, from);
    if blank_end(s.take(k), from) == k - 1 {
        assert(s.take(k)[k - 1] == s[k - 1]);
    }
}

/// Once skipping blank lines has decided, for a content line or against a
/// terminator, it decides the same however many bytes are appended.
pub proof fn lemma_skip_stable(s: Seq<u8>, from: int, k: int)
    requires
        0 <= from <= k <= s.len(),
        skip_result(s.take(k), from) != Ok::<Status<()>, Error>(Status::Partial),
    ensures
        blank_end(s, from) == blank_end(s.take(k), from),
        skip_result(s, from) == skip_result(s.take(k), from),
        skip_pos(s, from) == skip_pos(s.take(k), from),
    decreases k - from,
{
    let t = s.take(k);
    lemma_blank_end(t, from);
    if from < k {
        assert(t[from] == s[from]);
        if from + 1 < k {
            assert(t[from + 1] == s[from + 1]);
        }
        if s[from] == LF {
            lemma_skip_stable(s, from + 1, k);
        } else if from + 1 < k && s[from] == CR && s[from + 1] == LF {
            lemma_skip_stable(s, from + 2, k);
        }
    }
}

/// What is skipped is terminator bytes alone, and the content line that is
/// found starts with a byte that is none.
pub proof fn lemma_skipped_is_blank(s: Seq<u8>, from: int)
    requires
        0 <= from <= s.len(),
    ensures
        forall|j: int| from <= j < blank_end(s, from) ==> is_break(#[trigger] s[j]),
        skip_result(s, from) matches Ok(Status::Complete(_)) ==> from <= skip_pos(s, from)
            < s.len() && !is_break(s[skip_pos(s, from)]),
    decreases s.len() - from,
{
    lemma_blank_end(s, from);
    if from < s.len() && s[from] == LF {
        lemma_skipped_is_blank(s, from + 1);
    } else if from + 1 < s.len() && s[from] == CR && s[from + 1] == LF {
        lemma_skipped_is_blank(s, from + 2);
    }
}

} // verus!
