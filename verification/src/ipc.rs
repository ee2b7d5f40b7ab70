//! The daemon's side of the socket: how a request frame that could not be read or
//! decoded, or that speaks another protocol version, is answered, and the pipe name a
//! socket path stands for on Windows.
use vstd::prelude::*;
use crate::protocol::{ErrorCode, FrameError, ResponseError, MAX_FRAME_BYTES, PROTOCOL_VERSION};
use crate::text::{decimal, starts_with_str, u64_to_decimal, chars_of};

verus! {

/// An I/O error of the standard library.
#[verifier::external_type_specification]
#[verifier::external_body]
pub struct ExIoError(std::io::Error);

/// Why a request frame could not be read off a connection.
#[derive(Debug)]
pub enum FrameReadError {
    Empty,
    Io(std::io::Error),
    MissingTerminator,
    Timeout,
    TooLarge,
}

/// The refusal a connection that ended after `received` bytes, before any newline, is
/// reported with: nothing at all is an empty frame.
pub fn end_of_stream(received: usize) -> (e: FrameReadError)
    ensures
        received == 0 ==> e is Empty,
        received > 0 ==> e is MissingTerminator,
{
    if received == 0 {
        FrameReadError::Empty
    } else {
        FrameReadError::MissingTerminator
    }
}

/// The code and message a frame that could not be read is answered with; `None` for an
/// I/O failure, which ends the connection instead.
pub open spec fn read_failure_answer(e: FrameReadError) -> Option<(ErrorCode, Seq<char>)> {
    match e {
        FrameReadError::TooLarge => Some((ErrorCode::FrameTooLarge, "request exceeded the 65536-byte frame limit"@)),
        FrameReadError::Empty => Some((ErrorCode::ValidationFailed, "request frame was empty"@)),
        FrameReadError::MissingTerminator => Some((ErrorCode::ValidationFailed, "request frame was not newline terminated"@)),
        FrameReadError::Timeout => Some((ErrorCode::Timeout, "request frame read timed out"@)),
        FrameReadError::Io(_) => None,
    }
}

/// Answers a frame that could not be read, or hands back the I/O error that ends the
/// connection.
pub fn read_failure_response(e: FrameReadError) -> (r: Result<ResponseError, std::io::Error>)
    ensures
        match r {
            Ok(answer) => read_failure_answer(e) == Some((answer.code, answer.message@)),
            Err(_) => read_failure_answer(e) is None,
        },
{
    match e {
        FrameReadError::TooLarge => Ok(ResponseError {
            code: ErrorCode::FrameTooLarge,
            message: String::from_str("request exceeded the 65536-byte frame limit"),
        }),
        FrameReadError::Empty => Ok(ResponseError {
            code: ErrorCode::ValidationFailed,
            message: String::from_str("request frame was empty"),
        }),
        FrameReadError::MissingTerminator => Ok(ResponseError {
            code: ErrorCode::ValidationFailed,
            message: String::from_str("request frame was not newline terminated"),
        }),
        FrameReadError::Timeout => Ok(ResponseError {
            code: ErrorCode::Timeout,
            message: String::from_str("request frame read timed out"),
        }),
        FrameReadError::Io(error) => Err(error),
    }
}

/// The code and message a request frame that does not decode is answered with.
pub open spec fn decode_failure_answer(e: FrameError) -> (ErrorCode, Seq<char>) {
    match e {
        FrameError::TooLarge { .. } => (ErrorCode::FrameTooLarge, "request frame was too large"@),
        FrameError::InvalidJson(m) => (ErrorCode::ValidationFailed, "could not decode request: payload is invalid JSON: "@ + m@),
    }
}

/// Answers a request frame that does not decode.
pub fn decode_failure_response(e: FrameError) -> (r: ResponseError)
    ensures
        (r.code, r.message@) == decode_failure_answer(e),
{
    match e {
        FrameError::TooLarge { .. } => ResponseError {
            code: ErrorCode::FrameTooLarge,
            message: String::from_str("request frame was too large"),
        },
        FrameError::InvalidJson(m) => {
            let mut message = String::from_str("could not decode request: payload is invalid JSON: ");
            message.append(m.as_str());
            ResponseError { code: ErrorCode::ValidationFailed, message }
        },
    }
}

/// The message a request in another protocol version is refused with.
pub open spec fn request_version_message(version: u16) -> Seq<char> {
    "protocol version "@ + decimal(version as nat) + " is unsupported; expected "@ + decimal(PROTOCOL_VERSION as nat)
}

/// The daemon serves requests of this protocol version only.
pub fn check_request_version(version: u16) -> (r: Result<(), ResponseError>)
    ensures
        r is Ok <==> version == PROTOCOL_VERSION,
        r matches Err(e) ==> e.code == ErrorCode::VersionMismatch && e.message@ == request_version_message(version),
{
    if version == PROTOCOL_VERSION {
        return Ok(());
    }
    let mut message = String::from_str("protocol version ");
    let shown = u64_to_decimal(version as u64);
    message.append(shown.as_str());
    message.append(" is unsupported; expected ");
    let expected = u64_to_decimal(PROTOCOL_VERSION as u64);
    message.append(expected.as_str());
    Err(ResponseError { code: ErrorCode::VersionMismatch, message })
}

/// The prefix of a Windows named-pipe path.
pub const PIPE_PREFIX: &'static str = "\\\\.\\pipe\\";

/// The named pipe a socket path stands for on Windows: a path that already names a pipe
/// is kept; otherwise the pipe is named after the path's file name, or `portus-window`
/// when it has none.
pub fn sanitize_pipe_name(path: &str, file_name: Option<&str>) -> (name: String)
    ensures
        PIPE_PREFIX@.is_prefix_of(path@) ==> name@ == path@,
        !PIPE_PREFIX@.is_prefix_of(path@) ==> name@ == PIPE_PREFIX@ + match file_name {
            Some(f) => f@,
            None => "portus-window"@,
        },
{
    let v = chars_of(path);
    if starts_with_str(&v, PIPE_PREFIX) {
        return String::from_str(path);
    }
    let mut name = String::from_str(PIPE_PREFIX);
    match file_name {
        Some(f) => name.append(f),
        None => name.append("portus-window"),
    }
    name
}

} // verus!
