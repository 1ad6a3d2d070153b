//! The HTTP-style response envelope.
//!
//! A handler builds a [`Response`] with a status code, a message and an
//! optional payload; rendering decides which wire envelope it becomes. The
//! embedding application serializes the envelope and puts it on the wire.

use vstd::prelude::*;

verus! {

/// An empty payload for responses that carry no data.
#[derive(Debug, Default)]
pub struct NoneBodyData {}

/// The wire shape of a failed response.
#[derive(Debug)]
pub struct ErrData {
    /// Always false: the request failed.
    pub status: bool,
    /// The HTTP-style status code.
    pub code: u16,
    /// The failure message.
    pub message: String,
}

/// The wire shape of a successful response.
#[derive(Debug)]
pub struct OkData<T> {
    /// Always true: the request succeeded.
    pub status: bool,
    /// The HTTP-style status code.
    pub code: u16,
    /// The payload.
    pub message: T,
}

/// A typed response: an HTTP-style status code, a message for the failure
/// case, and a payload for the success case.
#[derive(Debug)]
pub struct Response<T> {
    /// The HTTP-style status code.
    pub code: u16,
    /// The failure message; empty on success.
    pub message: String,
    /// The payload; present on success.
    pub data: Option<T>,
}

impl<T> Response<T> {
    /// A code in the 2xx range reports success.
    pub open spec fn spec_is_success(self) -> bool {
        200 <= self.code < 300
    }

    /// A successful response carrying this payload.
    pub fn success(data: T) -> (r: Self)
        ensures
            r.code == 200,
            r.message@.len() == 0,
            r.data == Some(data),
            r.spec_is_success(),
    {
        Response { code: 200, message: String::new(), data: Some(data) }
    }

    /// A server-side failure.
    pub fn internal_error(message: &str) -> (r: Self)
        ensures
            r.code == 500,
            r.message@ == message@,
            r.data is None,
            !r.spec_is_success(),
    {
        Response { code: 500, message: message.to_owned(), data: None }
    }

    /// A malformed request.
    pub fn bad_request(message: &str) -> (r: Self)
        ensures
            r.code == 400,
            r.message@ == message@,
            r.data is None,
            !r.spec_is_success(),
    {
        Response { code: 400, message: message.to_owned(), data: None }
    }

    /// A request the caller may not make.
    pub fn forbidden(message: &str) -> (r: Self)
        ensures
            r.code == 403,
            r.message@ == message@,
            r.data is None,
            !r.spec_is_success(),
    {
        Response { code: 403, message: message.to_owned(), data: None }
    }

    /// A request the server cannot answer acceptably.
    pub fn not_acceptable(message: &str) -> (r: Self)
        ensures
            r.code == 406,
            r.message@ == message@,
            r.data is None,
            !r.spec_is_success(),
    {
        Response { code: 406, message: message.to_owned(), data: None }
    }

    /// A request without valid credentials.
    pub fn unauthorized(message: &str) -> (r: Self)
        ensures
            r.code == 401,
            r.message@ == message@,
            r.data is None,
            !r.spec_is_success(),
    {
        Response { code: 401, message: message.to_owned(), data: None }
    }

    /// A request for something that does not exist.
    pub fn nofound(message: &str) -> (r: Self)
        ensures
            r.code == 404,
            r.message@ == message@,
            r.data is None,
            !r.spec_is_success(),
    {
        Response { code: 404, message: message.to_owned(), data: None }
    }

    /// Whether the response reports success.
    pub fn is_success(&self) -> (r: bool)
        ensures
            r == self.spec_is_success(),
    {
        200 <= self.code && self.code < 300
    }

    /// The wire envelope this response renders to: the success envelope
    /// with the payload when the code is a success, the failure envelope
    /// with the message otherwise. A successful response owes a payload.
    pub fn finished(self) -> (r: Result<OkData<T>, ErrData>)
        requires
            self.spec_is_success() ==> self.data is Some,
        ensures
            self.spec_is_success() ==> (r matches Ok(ok) && ok.status && ok.code == self.code
                && Some(ok.message) == self.data),
            !self.spec_is_success() ==> (r matches Err(e) && !e.status && e.code == self.code
                && e.message == self.message),
    {
        if 200 <= self.code && self.code < 300 {
            match self.data {
                Some(payload) => Ok(OkData { status: true, code: self.code, message: payload }),
                None => Err(ErrData { status: false, code: self.code, message: self.message }),
            }
        } else {
            Err(ErrData { status: false, code: self.code, message: self.message })
        }
    }
}

} // verus!
