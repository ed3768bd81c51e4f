use vstd::prelude::*;
use crate::error::{Error, ParseOutcome, Status};
use crate::iter::Bytes;

verus! {

/// An ASCII digit, `'0'` to `'9'`.
pub open spec fn is_digit(b: u8) -> bool {
    48 <= b <= 57
}

/// The number that two ASCII digits write.
pub open spec fn two_digits(tens: u8, ones: u8) -> int {
    (tens - 48) * 10 + (ones - 48)
}

/// What parsing a status code at `from` yields. The two positions are read in
/// turn: an absent byte asks for more, a byte that is no digit is an error.
pub open spec fn status_result(s: Seq<u8>, from: int) -> ParseOutcome<u16> {
    if from >= s.len() {
        Ok(Status::Partial)
    } else if !is_digit(s[from]) {
        Err(Error::Status)
    } else if from + 1 >= s.len() {
        Ok(Status::Partial)
    } else if !is_digit(s[from + 1]) {
        Err(Error::Status)
    } else {
        Ok(Status::Complete(two_digits(s[from], s[from + 1]) as u16))
    }
}

/// Where the cursor stands after parsing a status code at `from`: behind the
/// last byte that was read.
pub open spec fn status_pos(s: Seq<u8>, from: int) -> int {
    if from >= s.len() {
        from
    } else if !is_digit(s[from]) || from + 1 >= s.len() {
        from + 1
    } else {
        from + 2
    }
}

/// Reads the two digits of a status code at the cursor: `tens * 10 + ones`.
#[inline]
pub fn parse_status(bytes: &mut Bytes) -> (r: ParseOutcome<u16>)
    requires
        old(bytes).wf(),
    ensures
        final(bytes).slice == old(bytes).slice,
        final(bytes).wf(),
        r == status_result(old(bytes).slice@, old(bytes).pos as int),
        final(bytes).pos == status_pos(old(bytes).slice@, old(bytes).pos as int),
        r matches Ok(Status::Complete(code)) ==> code <= 99,
{
    let tens: u8 = match bytes.next() {
        Some(b) => b,
        None => {
            return Ok(Status::Partial);
        },
    };
    if tens < 48 || tens > 57 {
        return Err(Error::Status);
    }
    let ones: u8 = match bytes.next() {
        Some(b) => b,
        None => {
            return Ok(Status::Partial);
        },
    };
    if ones < 48 || ones > 57 {
        return Err(Error::Status);
    }
    let code: u16 = ((tens - 48) as u16) * 10 + ((ones - 48) as u16);
    Ok(Status::Complete(code))
}

/// Two ASCII digits parse to the number they write, whatever follows them,
/// and both are consumed.
pub proof fn lemma_status_of_digits(s: Seq<u8>, n: int)
    requires
        0 <= n <= 99,
        s.len() >= 2,
        s[0] == 48 + n / 10,
        s[1] == 48 + n % 10,
    ensures
        status_result(s, 0) == Ok::<Status<u16>, Error>(Status::Complete(n as u16)),
        status_pos(s, 0) == 2,
{
}

/// A single digit is not yet a status code: more bytes are needed.
pub proof fn lemma_status_one_digit(s: Seq<u8>)
    requires
        s.len() == 1,
        is_digit(s[0]),
    ensures
        status_result(s, 0) == Ok::<Status<u16>, Error>(Status::Partial),
{
}

/// A byte that is no digit in the first position, or behind a digit in the
/// second, is a status error, whatever follows.
pub proof fn lemma_status_not_digit(s: Seq<u8>)
    requires
        (s.len() >= 1 && !is_digit(s[0])) || (s.len() >= 2 && is_digit(s[0]) && !is_digit(s[1])),
    ensures
        status_result(s, 0) == Err::<Status<u16>, Error>(Error::Status),
{
}

} // verus!
