//! JSON responses with an HTTP status chosen by the handler.
use vstd::prelude::*;

verus! {

/// HTTP status 200.
pub const STATUS_OK: u16 = 200;

/// HTTP status 201.
pub const STATUS_CREATED: u16 = 201;

/// A value to send as JSON with the given HTTP status code.
pub struct JsonResponder<T> {
    pub response: T,
    pub status: u16,
}

/// A response with no fields, sent as `{}`.
#[derive(Debug, Clone, Copy, PartialEq, Eq, Structural)]
pub struct EmptyResponse {}

impl<T> JsonResponder<T> {
    /// `data` with status 201.
    pub fn created(data: T) -> (r: Self)
        ensures
            r.response == data,
            r.status == STATUS_CREATED,
    {
        JsonResponder::from(data, STATUS_CREATED)
    }

    /// `data` with status 200.
    pub fn ok(data: T) -> (r: Self)
        ensures
            r.response == data,
            r.status == STATUS_OK,
    {
        JsonResponder::from(data, STATUS_OK)
    }

    /// `data` with the given status.
    pub fn from(data: T, status: u16) -> (r: Self)
        ensures
            r.response == data,
            r.status == status,
    {
        JsonResponder { response: data, status }
    }
}

} // verus!
