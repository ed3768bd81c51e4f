use vstd::prelude::*;
use vstd::utf8::{decode_utf8, valid_utf8};
use crate::error::{Error, ParseOutcome, Status};
use crate::iter::Bytes;
use crate::line::{line_pos, line_result, next_line_limit};
use crate::status_code::{parse_status, status_result};
use crate::text::{text_of, utf8_failure};

verus! {

/// The most bytes that a response's metadata may hold.
pub const META_MAX_LENGTH: usize = 1024;

/// The byte between the status code and the metadata.
pub const SPACE: u8 = 32u8;

/// A response header: the status code and the metadata, both absent until a
/// header has been parsed in full.
#[derive(Debug, PartialEq, Eq)]
pub struct Response {
    pub status: Option<u16>,
    pub meta: Option<String>,
}

/// What the bytes `s` are as a response header: two status digits, a space,
/// the metadata within its ceiling and a terminator. A complete header gives
/// the status code and the metadata's text.
pub open spec fn response_outcome(s: Seq<u8>) -> ParseOutcome<(u16, Seq<char>)> {
    match status_result(s, 0) {
        Err(e) => Err(e),
        Ok(Status::Partial) => Ok(Status::Partial),
        Ok(Status::Complete(code)) => if s.len() <= 2 {
            Ok(Status::Partial)
        } else if s[2] != SPACE {
            Err(Error::ResponseHeader)
        } else {
            match line_result(s, 3, Some(META_MAX_LENGTH)) {
                Err(e) => Err(e),
                Ok(Status::Partial) => Ok(Status::Partial),
                Ok(Status::Complete(end)) => {
                    let content = s.subrange(3, end as int);
                    if valid_utf8(content) {
                        Ok(Status::Complete((code, decode_utf8(content))))
                    } else {
                        Err(Error::InvalidUtf8(utf8_failure(content)))
                    }
                },
            }
        },
    }
}

/// The number of bytes that a complete response header takes, terminator
/// included.
pub open spec fn response_frame_len(s: Seq<u8>) -> int {
    line_pos(s, 3, Some(META_MAX_LENGTH))
}

impl Response {
    /// A response with nothing parsed yet.
    #[inline]
    pub fn new() -> (r: Self)
        ensures
            r.status.is_none(),
            r.meta.is_none(),
    {
        Self { status: None, meta: None }
    }

    /// Stores a header whose metadata decoded; where it did not, reports the
    /// encoding error and stores nothing.
    pub fn finish(&mut self, status: u16, text: Result<&str, core::str::Utf8Error>) -> (r:
        ParseOutcome<()>)
        ensures
            match text {
                Ok(t) => r == Ok::<Status<()>, Error>(Status::Complete(())) && final(self).status
                    == Some(status) && final(self).meta.is_some() && final(self).meta.unwrap()@
                    == t@,
                Err(e) => r == Err::<Status<()>, Error>(Error::InvalidUtf8(e)) && *final(self)
                    == *old(self),
            },
    {
        match text {
            Ok(t) => {
                self.status = Some(status);
                self.meta = Some(t.to_owned());
                Ok(Status::Complete(()))
            },
            Err(e) => Err(Error::from(e)),
        }
    }

    /// Parses a response header from the start of `buf`. The fields are
    /// written only when the whole header is there and well-formed.
    pub fn parse(&mut self, buf: &[u8]) -> (r: ParseOutcome<()>)
        ensures
            match response_outcome(buf@) {
                Ok(Status::Complete((code, meta))) => r == Ok::<Status<()>, Error>(
                    Status::Complete(()),
                ) && final(self).status == Some(code) && final(self).meta.is_some() && final(self).meta.unwrap()@ == meta,
                Ok(Status::Partial) => r == Ok::<Status<()>, Error>(Status::Partial) && *final(self) == *old(self),
                Err(e) => r == Err::<Status<()>, Error>(e) && *final(self) == *old(self),
            },
            r matches Ok(Status::Complete(_)) ==> final(self).status.unwrap() <= 99,
    {
        let mut bytes = Bytes::new(buf);
        let status: u16 = match parse_status(&mut bytes) {
            Ok(Status::Complete(code)) => code,
            Ok(Status::Partial) => {
                return Ok(Status::Partial);
            },
            Err(e) => {
                return Err(e);
            },
        };
        match bytes.next() {
            Some(b) => {
                if b != SPACE {
                    return Err(Error::ResponseHeader);
                }
            },
            None => {
                return Ok(Status::Partial);
            },
        }
        let start: usize = bytes.pos;
        let end: usize = match next_line_limit(&mut bytes, META_MAX_LENGTH) {
            Ok(Status::Complete(end)) => end,
            Ok(Status::Partial) => {
                return Ok(Status::Partial);
            },
            Err(e) => {
                return Err(e);
            },
        };
        proof {
            crate::line::lemma_content_end(buf@, 3);
        }
        let text = text_of(bytes.index(start, end));
        self.finish(status, text)
    }
}

} // verus!
