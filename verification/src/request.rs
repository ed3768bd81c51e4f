use vstd::prelude::*;
use vstd::utf8::{decode_utf8, valid_utf8};
use crate::error::{Error, ParseOutcome, Status};
use crate::iter::Bytes;
use crate::line::{line_pos, line_result, next_line, skip_empty_lines, skip_pos, skip_result};
use crate::text::{parse_url, text_of, url_of, utf8_failure};

verus! {

/// A request: the URL asked for, absent until a request line has been parsed
/// in full.
#[derive(Clone, Debug, Eq, PartialEq)]
pub struct Request {
    pub url: Option<url::Url>,
}

/// What the text of a request line is as a request of `consumed` bytes.
pub open spec fn request_of_text(
    text: Result<Seq<char>, core::str::Utf8Error>,
    consumed: usize,
) -> ParseOutcome<(url::Url, usize)> {
    match text {
        Err(e) => Err(Error::InvalidUtf8(e)),
        Ok(t) => match url_of(t) {
            Ok(u) => Ok(Status::Complete((u, consumed))),
            Err(e) => Err(Error::ParseUrl(e)),
        },
    }
}

/// What the bytes `s` are as a request: blank lines, then one line whose
/// content is an absolute URL in UTF-8. A complete request gives the URL and
/// the number of bytes that the request takes, blank lines and terminator
/// included.
pub open spec fn request_outcome(s: Seq<u8>) -> ParseOutcome<(url::Url, usize)> {
    match skip_result(s, 0) {
        Err(e) => Err(e),
        Ok(Status::Partial) => Ok(Status::Partial),
        Ok(Status::Complete(_)) => {
            let start = skip_pos(s, 0);
            match line_result(s, start, None) {
                Err(e) => Err(e),
                Ok(Status::Partial) => Ok(Status::Partial),
                Ok(Status::Complete(end)) => {
                    let content = s.subrange(start, end as int);
                    let consumed = line_pos(s, start, None) as usize;
                    if valid_utf8(content) {
                        request_of_text(Ok(decode_utf8(content)), consumed)
                    } else {
                        request_of_text(Err(utf8_failure(content)), consumed)
                    }
                },
            }
        },
    }
}

/// The number of bytes that a complete request takes.
pub open spec fn request_frame_len(s: Seq<u8>) -> int {
    line_pos(s, skip_pos(s, 0), None)
}

impl Request {
    /// A request with nothing parsed yet.
    #[inline]
    pub fn new() -> (r: Self)
        ensures
            r.url.is_none(),
    {
        Self { url: None }
    }

    /// Stores the URL of a request line of `consumed` bytes where the line
    /// was one; where it was not, reports why and stores nothing.
    pub fn finish(&mut self, parsed: Result<url::Url, url::ParseError>, consumed: usize) -> (r:
        ParseOutcome<usize>)
        ensures
            match parsed {
                Ok(u) => r == Ok::<Status<usize>, Error>(Status::Complete(consumed)) && final(self).url == Some(u),
                Err(e) => r == Err::<Status<usize>, Error>(Error::ParseUrl(e)) && *final(self)
                    == *old(self),
            },
    {
        match parsed {
            Ok(u) => {
                self.url = Some(u);
                Ok(Status::Complete(consumed))
            },
            Err(e) => Err(Error::from(e)),
        }
    }

    /// Parses a request from the start of `buf`, and returns the number of
    /// bytes that it takes. The URL is written only when the whole request is
    /// there and well-formed.
    pub fn parse(&mut self, buf: &[u8]) -> (r: ParseOutcome<usize>)
        ensures
            match request_outcome(buf@) {
                Ok(Status::Complete((u, consumed))) => r == Ok::<Status<usize>, Error>(
                    Status::Complete(consumed),
                ) && final(self).url == Some(u),
                Ok(Status::Partial) => r == Ok::<Status<usize>, Error>(Status::Partial) && *final(self) == *old(self),
                Err(e) => r == Err::<Status<usize>, Error>(e) && *final(self) == *old(self),
            },
            r matches Ok(Status::Complete(consumed)) ==> 0 < consumed <= buf@.len(),
    {
        let mut bytes = Bytes::new(buf);
        match skip_empty_lines(&mut bytes) {
            Ok(Status::Complete(_)) => {},
            Ok(Status::Partial) => {
                return Ok(Status::Partial);
            },
            Err(e) => {
                return Err(e);
            },
        }
        let start: usize = bytes.pos;
        let end: usize = match next_line(&mut bytes) {
            Ok(Status::Complete(end)) => end,
            Ok(Status::Partial) => {
                return Ok(Status::Partial);
            },
            Err(e) => {
                return Err(e);
            },
        };
        proof {
            crate::line::lemma_content_end(buf@, start as int);
        }
        match text_of(bytes.index(start, end)) {
            Ok(t) => {
                let parsed = parse_url(t);
                self.finish(parsed, bytes.pos)
            },
            Err(e) => Err(Error::from(e)),
        }
    }
}

} // verus!
