use gemini_frames::{
    next_line, next_line_inner, next_line_limit, parse_status, skip_empty_lines, Bytes, Error,
    Status,
};

#[test]
fn test_skip_empty_lines() {
    let mut bytes = Bytes::new(b"\r\n\r\ngemini://example.com");

    assert_eq!(skip_empty_lines(&mut bytes), Ok(Status::Complete(())));
    assert_eq!(bytes.pos, 4);

    let mut bytes = Bytes::new(b"\r\n\r\n");

    assert_eq!(skip_empty_lines(&mut bytes), Ok(Status::Partial));
    assert_eq!(bytes.pos, 4);

    let mut bytes = Bytes::new(b"\r\n\r");

    assert_eq!(skip_empty_lines(&mut bytes), Ok(Status::Partial));
    assert_eq!(bytes.pos, 3);

    let mut bytes = Bytes::new(b"\r\n\ra");

    assert_eq!(skip_empty_lines(&mut bytes), Err(Error::NewLine));
}

#[test]
fn test_next_line() {
    let mut bytes = Bytes::new(b"gemini://a.com\r\n");

    assert_eq!(next_line(&mut bytes), Ok(Status::Complete(14)));
    assert_eq!(bytes.pos, 16);

    let mut bytes = Bytes::new(b"gemini://a.com\n");

    assert_eq!(next_line(&mut bytes), Ok(Status::Complete(14)));
    assert_eq!(bytes.pos, 15);

    let mut bytes = Bytes::new(b"gemini://a.com");

    assert_eq!(next_line(&mut bytes), Ok(Status::Partial));

    let mut bytes = Bytes::new(b"gemini://a.com\r\x00");

    assert_eq!(next_line(&mut bytes), Err(Error::NewLine));
}

#[test]
fn test_next_line_limit() {
    let mut bytes = Bytes::new(b"text\r");
    assert_eq!(next_line_limit(&mut bytes, 3), Err(Error::NewLine));
}

#[test]
fn test_parse_status() {
    let mut bytes = Bytes::new(b"10");
    assert_eq!(parse_status(&mut bytes), Ok(Status::Complete(10)));
    assert_eq!(bytes.pos, 2);

    let mut bytes = Bytes::new(b"1");
    assert_eq!(parse_status(&mut bytes), Ok(Status::Partial));

    let mut bytes = Bytes::new(b"a0");
    assert_eq!(parse_status(&mut bytes), Err(Error::Status));
}

#[test]
fn cursor_peek_does_not_move() {
    let buf = [7u8, 8, 9];
    let bytes = Bytes::new(&buf);
    assert_eq!(bytes.pos, 0);
    assert_eq!(bytes.peek(), Some(7));
    assert_eq!(bytes.peek(), Some(7));
    assert_eq!(bytes.pos, 0);
}

#[test]
fn cursor_walks_to_the_end() {
    let buf = [7u8, 8, 9];
    let mut bytes = Bytes::new(&buf);
    assert_eq!(bytes.next(), Some(7));
    assert_eq!(bytes.pos, 1);
    bytes.bump();
    assert_eq!(bytes.pos, 2);
    assert_eq!(bytes.peek(), Some(9));
    assert_eq!(bytes.next(), Some(9));
    assert_eq!(bytes.pos, 3);
    assert_eq!(bytes.peek(), None);
    assert_eq!(bytes.next(), None);
    assert_eq!(bytes.pos, 3);
}

#[test]
fn cursor_on_empty_buffer() {
    let mut bytes = Bytes::new(b"");
    assert_eq!(bytes.peek(), None);
    assert_eq!(bytes.next(), None);
    assert_eq!(bytes.pos, 0);
}

#[test]
fn cursor_range_and_whole() {
    let buf = b"20 metadata\r\n";
    let mut bytes = Bytes::new(buf);
    bytes.bump();
    assert_eq!(bytes.index(3, 11), b"metadata");
    assert_eq!(bytes.index(4, 4), b"");
    assert_eq!(bytes.index(0, 13), &buf[..]);
    assert_eq!(bytes.as_ref(), &buf[..]);
}

#[test]
fn skip_accepts_bare_line_feeds() {
    let mut bytes = Bytes::new(b"\n\r\n\nx");
    assert_eq!(skip_empty_lines(&mut bytes), Ok(Status::Complete(())));
    assert_eq!(bytes.pos, 4);
}

#[test]
fn skip_on_empty_and_on_content() {
    let mut bytes = Bytes::new(b"");
    assert_eq!(skip_empty_lines(&mut bytes), Ok(Status::Partial));
    assert_eq!(bytes.pos, 0);

    let mut bytes = Bytes::new(b"x\r\n");
    assert_eq!(skip_empty_lines(&mut bytes), Ok(Status::Complete(())));
    assert_eq!(bytes.pos, 0);
}

#[test]
fn skip_rejects_carriage_return_before_another_byte() {
    let mut bytes = Bytes::new(b"\rx");
    assert_eq!(skip_empty_lines(&mut bytes), Err(Error::NewLine));
    assert_eq!(bytes.pos, 2);

    let mut bytes = Bytes::new(b"\n\r\r\n");
    assert_eq!(skip_empty_lines(&mut bytes), Err(Error::NewLine));
}

#[test]
fn line_from_the_middle() {
    let mut bytes = Bytes::new(b"ab cd\nrest");
    bytes.pos = 3;
    assert_eq!(next_line(&mut bytes), Ok(Status::Complete(5)));
    assert_eq!(bytes.pos, 6);
}

#[test]
fn line_with_carriage_return_at_the_end_waits() {
    let mut bytes = Bytes::new(b"abc\r");
    assert_eq!(next_line(&mut bytes), Ok(Status::Partial));
    assert_eq!(bytes.pos, 4);
}

#[test]
fn line_empty_content() {
    let mut bytes = Bytes::new(b"\r\n");
    assert_eq!(next_line(&mut bytes), Ok(Status::Complete(0)));
    assert_eq!(bytes.pos, 2);

    let mut bytes = Bytes::new(b"\n");
    assert_eq!(next_line_limit(&mut bytes, 0), Ok(Status::Complete(0)));
    assert_eq!(bytes.pos, 1);
}

#[test]
fn line_limit_boundary() {
    let mut bytes = Bytes::new(b"text\r\n");
    assert_eq!(next_line_limit(&mut bytes, 4), Ok(Status::Complete(4)));
    assert_eq!(bytes.pos, 6);

    let mut bytes = Bytes::new(b"text\n");
    assert_eq!(next_line_limit(&mut bytes, 4), Ok(Status::Complete(4)));

    let mut bytes = Bytes::new(b"text\r\n");
    assert_eq!(next_line_limit(&mut bytes, 3), Err(Error::NewLine));
    assert_eq!(bytes.pos, 3);

    let mut bytes = Bytes::new(b"text");
    assert_eq!(next_line_limit(&mut bytes, 3), Err(Error::NewLine));

    let mut bytes = Bytes::new(b"text");
    assert_eq!(next_line_limit(&mut bytes, 4), Ok(Status::Partial));
    assert_eq!(bytes.pos, 4);
}

#[test]
fn line_inner_with_and_without_limit() {
    let mut bytes = Bytes::new(b"abcdef\n");
    assert_eq!(next_line_inner(&mut bytes, None), Ok(Status::Complete(6)));

    let mut bytes = Bytes::new(b"abcdef\n");
    assert_eq!(next_line_inner(&mut bytes, Some(5)), Err(Error::NewLine));

    let mut bytes = Bytes::new(b"abcdef\n");
    assert_eq!(next_line_inner(&mut bytes, Some(6)), Ok(Status::Complete(6)));
}

#[test]
fn line_bad_terminator_anywhere() {
    let mut bytes = Bytes::new(b"\rx\n");
    assert_eq!(next_line(&mut bytes), Err(Error::NewLine));
    assert_eq!(bytes.pos, 2);

    let mut bytes = Bytes::new(b"abc\r\rdef\r\n");
    assert_eq!(next_line_limit(&mut bytes, 100), Err(Error::NewLine));
}

#[test]
fn status_every_two_digit_code() {
    let mut n: u16 = 0;
    while n < 100 {
        let buf = [b'0' + (n / 10) as u8, b'0' + (n % 10) as u8];
        let mut bytes = Bytes::new(&buf);
        assert_eq!(parse_status(&mut bytes), Ok(Status::Complete(n)));
        assert_eq!(bytes.pos, 2);
        n += 1;
    }
}

#[test]
fn status_exact_values() {
    let mut bytes = Bytes::new(b"00");
    assert_eq!(parse_status(&mut bytes), Ok(Status::Complete(0)));
    let mut bytes = Bytes::new(b"07 x");
    assert_eq!(parse_status(&mut bytes), Ok(Status::Complete(7)));
    let mut bytes = Bytes::new(b"99");
    assert_eq!(parse_status(&mut bytes), Ok(Status::Complete(99)));
    let mut bytes = Bytes::new(b"51");
    assert_eq!(parse_status(&mut bytes), Ok(Status::Complete(51)));
}

#[test]
fn status_partial_and_errors() {
    let mut bytes = Bytes::new(b"");
    assert_eq!(parse_status(&mut bytes), Ok(Status::Partial));
    assert_eq!(bytes.pos, 0);

    let mut d: u8 = b'0';
    while d <= b'9' {
        let buf = [d];
        let mut bytes = Bytes::new(&buf);
        assert_eq!(parse_status(&mut bytes), Ok(Status::Partial));
        d += 1;
    }

    let mut bytes = Bytes::new(b"a");
    assert_eq!(parse_status(&mut bytes), Err(Error::Status));

    let mut bytes = Bytes::new(b"1a");
    assert_eq!(parse_status(&mut bytes), Err(Error::Status));

    let mut bytes = Bytes::new(b"/0");
    assert_eq!(parse_status(&mut bytes), Err(Error::Status));

    let mut bytes = Bytes::new(b"0:");
    assert_eq!(parse_status(&mut bytes), Err(Error::Status));
}
