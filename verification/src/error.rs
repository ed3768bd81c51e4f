use vstd::prelude::*;

verus! {

/// The error that `core::str::from_utf8` reports; carried through unopened.
#[verifier::external_type_specification]
#[verifier::external_body]
pub struct ExUtf8Error(core::str::Utf8Error);

/// The error that `url::Url::parse` reports; carried through unopened.
#[verifier::external_type_specification]
#[verifier::external_body]
pub struct ExParseError(url::ParseError);

/// Why a frame is malformed. Every variant is final for the frame.
#[derive(Copy, Clone, Debug, PartialEq, Eq)]
pub enum Error {
    /// A carriage return was followed by a byte other than a line feed, or a
    /// line's content went past its length ceiling.
    NewLine,
    /// A line's content is not UTF-8 text.
    InvalidUtf8(core::str::Utf8Error),
    /// The request line is not an absolute URL.
    ParseUrl(url::ParseError),
    /// The byte after the status digits is not a space.
    ResponseHeader,
    /// One of the two status positions holds a byte that is no ASCII digit.
    Status,
}

/// Whether the bytes at hand were enough to decide.
#[derive(Clone, Debug, PartialEq, Eq)]
pub enum Status<T> {
    /// The grammar matched; carries what was parsed.
    Complete(T),
    /// More bytes are needed. This is not a failure.
    Partial,
}

/// What every parsing function returns.
pub type ParseOutcome<T> = Result<Status<T>, Error>;

impl From<url::ParseError> for Error {
    fn from(err: url::ParseError) -> (ret: Error) {
        Error::ParseUrl(err)
    }
}

impl vstd::std_specs::convert::FromSpecImpl<url::ParseError> for Error {
    open spec fn obeys_from_spec() -> bool {
        true
    }

    open spec fn from_spec(err: url::ParseError) -> Error {
        Error::ParseUrl(err)
    }
}

impl From<core::str::Utf8Error> for Error {
    fn from(err: core::str::Utf8Error) -> (ret: Error) {
        Error::InvalidUtf8(err)
    }
}

impl vstd::std_specs::convert::FromSpecImpl<core::str::Utf8Error> for Error {
    open spec fn obeys_from_spec() -> bool {
        true
    }

    open spec fn from_spec(err: core::str::Utf8Error) -> Error {
        Error::InvalidUtf8(err)
    }
}

} // verus!
