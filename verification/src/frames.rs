//! What holds of whole frames: how a frame's outcome changes as its bytes
//! arrive, and which malformed frames give which error.

use vstd::prelude::*;
use vstd::utf8::{decode_utf8, decode_utf8_encode_utf8, encode_utf8, valid_utf8};
use crate::error::{Error, Status};
use crate::line::{
    blank_end, is_break, lemma_blank_end, lemma_blank_end_take_long, lemma_line_at_ceiling,
    lemma_line_bad_terminator, lemma_line_complete_bounds, lemma_line_over_ceiling,
    lemma_line_prefix_partial, lemma_line_stable, lemma_line_whole, lemma_skip_bad_terminator,
    lemma_skip_prefix_partial, lemma_skip_stable, line_pos, line_result, skip_pos, skip_result, CR, LF,
};
use crate::request::{request_frame_len, request_outcome};
use crate::response::{response_frame_len, response_outcome, META_MAX_LENGTH, SPACE};
use crate::status_code::status_result;
use crate::text::utf8_failure;

verus! {

/// Every strict prefix of a complete response header asks for more bytes:
/// none completes early and none fails.
pub proof fn lemma_response_prefix_partial(s: Seq<u8>, k: int)
    requires
        response_outcome(s) matches Ok(Status::Complete(_)),
        0 <= k < response_frame_len(s),
    ensures
        response_outcome(s.take(k)) == Ok::<Status<(u16, Seq<char>)>, Error>(Status::Partial),
{
    let t = s.take(k);
    lemma_line_complete_bounds(s, 3, Some(META_MAX_LENGTH));
    if k >= 1 {
        assert(t[0] == s[0]);
    }
    if k >= 2 {
        assert(t[1] == s[1]);
    }
    if k >= 3 {
        assert(t[2] == s[2]);
        lemma_line_prefix_partial(s, 3, Some(META_MAX_LENGTH), k);
    }
}

/// A complete response header is complete once its terminator is there: the
/// bytes of the header alone give the outcome of the whole buffer.
pub proof fn lemma_response_whole(s: Seq<u8>)
    requires
        response_outcome(s) matches Ok(Status::Complete(_)),
    ensures
        3 < response_frame_len(s) <= s.len(),
        response_outcome(s.take(response_frame_len(s))) == response_outcome(s),
        response_frame_len(s.take(response_frame_len(s))) == response_frame_len(s),
{
    let n = response_frame_len(s);
    let t = s.take(n);
    lemma_line_complete_bounds(s, 3, Some(META_MAX_LENGTH));
    lemma_line_whole(s, 3, Some(META_MAX_LENGTH));
    assert(t[0] == s[0]);
    assert(t[1] == s[1]);
    assert(t[2] == s[2]);
    let end = crate::line::content_end(s, 3);
    assert(t.subrange(3, end) =~= s.subrange(3, end));
}

/// Once a response header is complete or malformed, appending bytes changes
/// nothing: the outcome on the first `k` bytes is the outcome on all.
pub proof fn lemma_response_stable(s: Seq<u8>, k: int)
    requires
        0 <= k <= s.len(),
        response_outcome(s.take(k)) != Ok::<Status<(u16, Seq<char>)>, Error>(Status::Partial),
    ensures
        response_outcome(s) == response_outcome(s.take(k)),
{
    let t = s.take(k);
    if k >= 1 {
        assert(t[0] == s[0]);
    }
    if k >= 2 {
        assert(t[1] == s[1]);
    }
    if k >= 3 {
        assert(t[2] == s[2]);
        if status_result(t, 0) is Ok && t[2] == SPACE {
            lemma_line_stable(s, 3, Some(META_MAX_LENGTH), k);
            if line_result(t, 3, Some(META_MAX_LENGTH)) is Ok {
                lemma_line_complete_bounds(t, 3, Some(META_MAX_LENGTH));
                let end = crate::line::content_end(t, 3);
                assert(t.subrange(3, end) =~= s.subrange(3, end));
            }
        }
    }
}

/// Every strict prefix of a complete request asks for more bytes: none
/// completes early and none fails.
pub proof fn lemma_request_prefix_partial(s: Seq<u8>, k: int)
    requires
        request_outcome(s) matches Ok(Status::Complete(_)),
        0 <= k < request_frame_len(s),
    ensures
        request_outcome(s.take(k)) == Ok::<Status<(url::Url, usize)>, Error>(Status::Partial),
{
    let t = s.take(k);
    let b = blank_end(s, 0);
    lemma_blank_end(s, 0);
    lemma_line_complete_bounds(s, b, None);
    if k <= b {
        lemma_skip_prefix_partial(s, 0, k);
    } else {
        lemma_blank_end_take_long(s, k, 0);
        assert(t[b] == s[b]);
        lemma_line_prefix_partial(s, b, None, k);
    }
}

/// A complete request is complete once its terminator is there: the bytes of
/// the request alone give the outcome of the whole buffer.
pub proof fn lemma_request_whole(s: Seq<u8>)
    requires
        s.len() <= usize::MAX,
        request_outcome(s) matches Ok(Status::Complete(_)),
    ensures
        0 < request_frame_len(s) <= s.len(),
        request_outcome(s.take(request_frame_len(s))) == request_outcome(s),
        request_frame_len(s.take(request_frame_len(s))) == request_frame_len(s),
{
    let n = request_frame_len(s);
    let t = s.take(n);
    let b = blank_end(s, 0);
    lemma_blank_end(s, 0);
    lemma_line_complete_bounds(s, b, None);
    lemma_line_whole(s, b, None);
    lemma_blank_end_take_long(s, n, 0);
    assert(t[b] == s[b]);
    let end = crate::line::content_end(s, b);
    assert(t.subrange(b, end) =~= s.subrange(b, end));
}

/// The number of bytes that a complete request reports as consumed is the
/// length of the request, and lies inside the buffer.
pub proof fn lemma_request_consumed(s: Seq<u8>)
    requires
        request_outcome(s) matches Ok(Status::Complete(_)),
        s.len() <= usize::MAX,
    ensures
        request_outcome(s) matches Ok(Status::Complete((_, consumed))) && consumed
            == request_frame_len(s) && 0 < consumed <= s.len(),
{
    lemma_blank_end(s, 0);
    lemma_line_complete_bounds(s, blank_end(s, 0), None);
}

/// Metadata of exactly the ceiling's length, in UTF-8 and before a
/// well-formed terminator, completes the header.
pub proof fn lemma_response_at_ceiling(s: Seq<u8>)
    requires
        status_result(s, 0) matches Ok(Status::Complete(_)),
        s.len() > 3 + META_MAX_LENGTH,
        s[2] == SPACE,
        forall|j: int| 3 <= j < 3 + META_MAX_LENGTH ==> !is_break(#[trigger] s[j]),
        s[3 + META_MAX_LENGTH] == LF || (s[3 + META_MAX_LENGTH] == CR && s.len() > 4
            + META_MAX_LENGTH && s[4 + META_MAX_LENGTH] == LF),
        valid_utf8(s.subrange(3, 3 + META_MAX_LENGTH)),
    ensures
        response_outcome(s) == Ok::<Status<(u16, Seq<char>)>, Error>(
            Status::Complete(
                (
                    status_result(s, 0).unwrap()->Complete_0,
                    decode_utf8(s.subrange(3, 3 + META_MAX_LENGTH)),
                ),
            ),
        ),
{
    lemma_line_at_ceiling(s, 3, META_MAX_LENGTH);
}

/// Metadata one byte longer than the ceiling is a line-terminator error,
/// whether or not a terminator follows.
pub proof fn lemma_response_over_ceiling(s: Seq<u8>)
    requires
        status_result(s, 0) matches Ok(Status::Complete(_)),
        s.len() > 3 + META_MAX_LENGTH,
        s[2] == SPACE,
        forall|j: int| 3 <= j <= 3 + META_MAX_LENGTH ==> !is_break(#[trigger] s[j]),
    ensures
        response_outcome(s) == Err::<Status<(u16, Seq<char>)>, Error>(Error::NewLine),
{
    lemma_line_over_ceiling(s, 3, META_MAX_LENGTH);
}

/// A carriage return in a response's metadata, before a byte that is no line
/// feed, is a line-terminator error.
pub proof fn lemma_response_bad_terminator(s: Seq<u8>, i: int)
    requires
        status_result(s, 0) matches Ok(Status::Complete(_)),
        s[2] == SPACE,
        3 <= i,
        i + 1 < s.len(),
        forall|j: int| 3 <= j < i ==> !is_break(#[trigger] s[j]),
        s[i] == CR,
        s[i + 1] != LF,
    ensures
        response_outcome(s) == Err::<Status<(u16, Seq<char>)>, Error>(Error::NewLine),
{
    lemma_line_bad_terminator(s, 3, Some(META_MAX_LENGTH), i);
}

/// A carriage return among a request's blank lines, before a byte that is no
/// line feed, is a line-terminator error.
pub proof fn lemma_request_bad_blank_line(s: Seq<u8>, i: int)
    requires
        0 <= i,
        i + 1 < s.len(),
        forall|j: int|
            0 <= j < i ==> #[trigger] s[j] == LF || (s[j] == CR && j + 1 < i && s[j + 1] == LF),
        s[i] == CR,
        s[i + 1] != LF,
    ensures
        request_outcome(s) == Err::<Status<(url::Url, usize)>, Error>(Error::NewLine),
{
    lemma_skip_bad_terminator(s, 0, i);
}

/// A carriage return in a request's line, before a byte that is no line
/// feed, is a line-terminator error.
pub proof fn lemma_request_bad_terminator(s: Seq<u8>, i: int)
    requires
        skip_result(s, 0) matches Ok(Status::Complete(_)),
        skip_pos(s, 0) <= i,
        i + 1 < s.len(),
        forall|j: int| skip_pos(s, 0) <= j < i ==> !is_break(#[trigger] s[j]),
        s[i] == CR,
        s[i + 1] != LF,
    ensures
        request_outcome(s) == Err::<Status<(url::Url, usize)>, Error>(Error::NewLine),
{
    lemma_blank_end(s, 0);
    lemma_line_bad_terminator(s, skip_pos(s, 0), None, i);
}

/// A response header that is well-formed but for its metadata, which is not
/// UTF-8, gives the encoding error and no other.
pub proof fn lemma_response_invalid_text(s: Seq<u8>)
    requires
        status_result(s, 0) matches Ok(Status::Complete(_)),
        s[2] == SPACE,
        line_result(s, 3, Some(META_MAX_LENGTH)) matches Ok(Status::Complete(end)) && !valid_utf8(
            s.subrange(3, end as int),
        ),
    ensures
        response_outcome(s) matches Err(Error::InvalidUtf8(e)) && e == utf8_failure(
            s.subrange(3, crate::line::content_end(s, 3)),
        ),
{
    lemma_line_complete_bounds(s, 3, Some(META_MAX_LENGTH));
}

/// A request whose line is well terminated but not UTF-8 gives the encoding
/// error and no other.
pub proof fn lemma_request_invalid_text(s: Seq<u8>)
    requires
        s.len() <= usize::MAX,
        skip_result(s, 0) matches Ok(Status::Complete(_)),
        line_result(s, skip_pos(s, 0), None) matches Ok(Status::Complete(end)) && !valid_utf8(
            s.subrange(skip_pos(s, 0), end as int),
        ),
    ensures
        request_outcome(s) matches Err(Error::InvalidUtf8(e)) && e == utf8_failure(
            s.subrange(skip_pos(s, 0), crate::line::content_end(s, skip_pos(s, 0))),
        ),
{
    lemma_blank_end(s, 0);
    lemma_line_complete_bounds(s, skip_pos(s, 0), None);
}

/// Once a request is complete or malformed, appending bytes changes nothing:
/// the outcome on the first `k` bytes is the outcome on all.
pub proof fn lemma_request_stable(s: Seq<u8>, k: int)
    requires
        0 <= k <= s.len() <= usize::MAX,
        request_outcome(s.take(k)) != Ok::<Status<(url::Url, usize)>, Error>(Status::Partial),
    ensures
        request_outcome(s) == request_outcome(s.take(k)),
{
    let t = s.take(k);
    lemma_skip_stable(s, 0, k);
    lemma_blank_end(t, 0);
    if skip_result(t, 0) is Ok {
        let b = skip_pos(t, 0);
        lemma_line_stable(s, b, None, k);
        if line_result(t, b, None) is Ok {
            lemma_line_complete_bounds(t, b, None);
            let end = crate::line::content_end(t, b);
            assert(t.subrange(b, end) =~= s.subrange(b, end));
        }
    }
}

/// A complete response header holds a status code of two digits and
/// metadata that takes no more bytes than the ceiling allows.
pub proof fn lemma_response_bounds(s: Seq<u8>)
    requires
        response_outcome(s) matches Ok(Status::Complete(_)),
    ensures
        response_outcome(s) matches Ok(Status::Complete((code, meta))) && code <= 99
            && encode_utf8(meta).len() <= META_MAX_LENGTH,
{
    lemma_line_complete_bounds(s, 3, Some(META_MAX_LENGTH));
    let end = crate::line::content_end(s, 3);
    decode_utf8_encode_utf8(s.subrange(3, end));
}

} // verus!
