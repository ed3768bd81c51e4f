use vstd::prelude::*;
use vstd::utf8::{decode_utf8, valid_utf8};

verus! {

/// A parsed URL of the `url` crate; carried through unopened.
#[verifier::external_type_specification]
#[verifier::external_body]
pub struct ExUrl(url::Url);

/// The error with which `core::str::from_utf8` rejects `bytes`. It says where
/// the bytes stop being UTF-8, and depends on the bytes alone.
pub uninterp spec fn utf8_failure(bytes: Seq<u8>) -> core::str::Utf8Error;

/// What `url::Url::parse` makes of `text`: the URL, or the reason why the
/// text is no absolute URL. It depends on the text alone.
pub uninterp spec fn url_of(text: Seq<char>) -> Result<url::Url, url::ParseError>;

/// `core::str::from_utf8`: the bytes as text, without a copy, exactly where
/// they are valid UTF-8; otherwise the error named `utf8_failure`.
#[verifier::external_body]
pub(crate) fn text_of<'a>(bytes: &'a [u8]) -> (r: Result<&'a str, core::str::Utf8Error>)
    ensures
        r is Ok <==> valid_utf8(bytes@),
        r matches Ok(t) ==> t@ == decode_utf8(bytes@),
        r matches Err(e) ==> e == utf8_failure(bytes@),
{
    core::str::from_utf8(bytes)
}

/// `url::Url::parse`: nothing is claimed of which texts are URLs, only that
/// the answer is the one named `url_of`.
#[verifier::external_body]
pub(crate) fn parse_url(text: &str) -> (r: Result<url::Url, url::ParseError>)
    ensures
        r == url_of(text@),
{
    url::Url::parse(text)
}

} // verus!
