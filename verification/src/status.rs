//! HTTP status codes as the gateway answers them.
use vstd::prelude::*;

verus! {

/// An HTTP status code.
#[derive(Clone, Copy, Debug, PartialEq, Eq, Structural)]
pub struct StatusCode {
    pub code: u16,
}

impl StatusCode {
    /// 200 OK.
    pub fn ok() -> (s: Self)
        ensures
            s.code == 200,
    {
        StatusCode { code: 200 }
    }

    /// 400 Bad Request.
    pub fn bad_request() -> (s: Self)
        ensures
            s.code == 400,
    {
        StatusCode { code: 400 }
    }

    /// 401 Unauthorized.
    pub fn unauthorized() -> (s: Self)
        ensures
            s.code == 401,
    {
        StatusCode { code: 401 }
    }

    /// 405 Method Not Allowed.
    pub fn method_not_allowed() -> (s: Self)
        ensures
            s.code == 405,
    {
        StatusCode { code: 405 }
    }

    /// 500 Internal Server Error.
    pub fn internal_server_error() -> (s: Self)
        ensures
            s.code == 500,
    {
        StatusCode { code: 500 }
    }

    /// 501 Not Implemented.
    pub fn not_implemented() -> (s: Self)
        ensures
            s.code == 501,
    {
        StatusCode { code: 501 }
    }

    /// 502 Bad Gateway.
    pub fn bad_gateway() -> (s: Self)
        ensures
            s.code == 502,
    {
        StatusCode { code: 502 }
    }

    /// The numeric code.
    pub fn as_u16(&self) -> (r: u16)
        ensures
            r == self.code,
    {
        self.code
    }
}

} // verus!
