//! What the client makes of the daemon's answers, and how its failures are
//! reported to the host.
use vstd::prelude::*;
use crate::responses::{self, Payload, PayloadView, Response};

verus! {

/// Host status codes (NTSTATUS bit patterns).
pub const STATUS_NOT_IMPLEMENTED: u32 = 0xC0000002;

pub const STATUS_INVALID_DEVICE_REQUEST: u32 = 0xC0000010;

pub const STATUS_ACCESS_DENIED: u32 = 0xC0000022;

pub const STATUS_INTERNAL_ERROR: u32 = 0xC00000E5;

/// Why a request failed.
#[derive(Clone, Copy, Debug, PartialEq, Eq, Structural)]
pub enum Error {
    /// The connection failed.
    IOFailed,
    /// The answer could not be decoded.
    ReceivedInvalidData,
    /// The daemon reported an error.
    RequestFailed(responses::Error),
}

pub type Result<T> = core::result::Result<T, Error>;

pub open spec fn status_of(err: Error) -> u32 {
    match err {
        Error::IOFailed => STATUS_INTERNAL_ERROR,
        Error::ReceivedInvalidData => STATUS_INTERNAL_ERROR,
        Error::RequestFailed(e) => match e {
            responses::Error::FileNotFound => STATUS_INVALID_DEVICE_REQUEST,
            responses::Error::NoSuchHandle => STATUS_INVALID_DEVICE_REQUEST,
            responses::Error::FileExists => STATUS_INVALID_DEVICE_REQUEST,
            responses::Error::PermissionDenied => STATUS_ACCESS_DENIED,
            responses::Error::CouldNotFindDisk => STATUS_NOT_IMPLEMENTED,
            responses::Error::Other => STATUS_INTERNAL_ERROR,
        },
    }
}

/// The host status code that reports `err`.
pub fn convert_error(err: Error) -> (r: u32)
    ensures
        r == status_of(err),
{
    match err {
        Error::IOFailed => STATUS_INTERNAL_ERROR,
        Error::ReceivedInvalidData => STATUS_INTERNAL_ERROR,
        Error::RequestFailed(e) => match e {
            responses::Error::FileNotFound => STATUS_INVALID_DEVICE_REQUEST,
            responses::Error::NoSuchHandle => STATUS_INVALID_DEVICE_REQUEST,
            responses::Error::FileExists => STATUS_INVALID_DEVICE_REQUEST,
            responses::Error::PermissionDenied => STATUS_ACCESS_DENIED,
            responses::Error::CouldNotFindDisk => STATUS_NOT_IMPLEMENTED,
            responses::Error::Other => STATUS_INTERNAL_ERROR,
        },
    }
}

/// A client result with its error turned into a host status code.
pub fn convert_response<T>(resp: Result<T>) -> (r: core::result::Result<T, u32>)
    ensures
        match resp {
            Ok(v) => r == Ok::<T, u32>(v),
            Err(e) => r == Err::<T, u32>(status_of(e)),
        },
{
    match resp {
        Ok(data) => Ok(data),
        Err(err) => Err(convert_error(err)),
    }
}

/// The payload of a decoded answer, or why there is none: an answer that did
/// not decode, or an error that the daemon reported.
pub fn response_result(decoded: Option<Response>) -> (r: Result<Payload>)
    ensures
        match decoded {
            None => r == Err::<Payload, Error>(Error::ReceivedInvalidData),
            Some(Err(e)) => r == Err::<Payload, Error>(Error::RequestFailed(e)),
            Some(Ok(p)) => r matches Ok(q) && q@ == p@,
        },
{
    match decoded {
        None => Err(Error::ReceivedInvalidData),
        Some(Err(e)) => Err(Error::RequestFailed(e)),
        Some(Ok(p)) => Ok(p),
    }
}

/// How many bytes follow an answer to a read into a buffer of `buffer_len`
/// bytes: the number it carries, which must fit the buffer.
pub fn read_grant(payload: &Payload, buffer_len: usize) -> (r: Result<u32>)
    ensures
        match payload@ {
            PayloadView::Number(n) => if n as int <= buffer_len {
                r == Ok::<u32, Error>(n)
            } else {
                r == Err::<u32, Error>(Error::ReceivedInvalidData)
            },
            _ => r == Err::<u32, Error>(Error::ReceivedInvalidData),
        },
{
    match payload {
        Payload::Number(n) => if (*n as u64) <= (buffer_len as u64) {
            Ok(*n)
        } else {
            Err(Error::ReceivedInvalidData)
        },
        _ => Err(Error::ReceivedInvalidData),
    }
}

} // verus!
