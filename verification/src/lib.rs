//! Incremental parser for the request line and the response header line of
//! the Gemini protocol.
//!
//! Every parsing function works on the bytes received so far and tells
//! "more bytes are needed" (`Status::Partial`) apart from "these bytes are
//! malformed" (an `Error`). Each contract states the outcome as a function of
//! the buffer's bytes.

pub mod error;
pub mod iter;
pub mod line;
pub mod status_code;
pub mod text;
pub mod request;
pub mod response;
pub mod frames;

pub use error::{Error, ParseOutcome, Status};
pub use iter::Bytes;
pub use line::{next_line, next_line_inner, next_line_limit, skip_empty_lines};
pub use request::Request;
pub use response::{Response, META_MAX_LENGTH};
pub use status_code::parse_status;
