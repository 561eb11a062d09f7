//! Plain responses and validated form values.

use vstd::prelude::*;

verus! {

/// A response: status code, HTML body and extra headers.
#[derive(Clone, Debug)]
pub struct Response {
    pub status: u16,
    pub body: String,
    pub headers: Vec<(String, String)>,
}

impl Response {
    /// `200` with no body.
    pub fn empty() -> (r: Response)
        ensures
            r.status == 200,
            r.body@ == Seq::<char>::empty(),
            r.headers@.len() == 0,
    {
        Response { status: 200, body: String::new(), headers: Vec::new() }
    }

    /// `200` with `body`.
    pub fn html(body: String) -> (r: Response)
        ensures
            r.status == 200,
            r.body == body,
            r.headers@.len() == 0,
    {
        Response { status: 200, body, headers: Vec::new() }
    }

    pub fn with_status(self, status: u16) -> (r: Response)
        ensures
            r == (Response { status, ..self }),
    {
        Response { status, ..self }
    }

    /// Adds a header after the others.
    pub fn with_header(self, name: String, value: String) -> (r: Response)
        ensures
            r.status == self.status,
            r.body == self.body,
            r.headers@ == self.headers@.push((name, value)),
    {
        let mut headers = self.headers;
        headers.push((name, value));
        Response { status: self.status, body: self.body, headers }
    }
}

/// A form value that passed validation.
#[derive(Clone, Debug)]
pub struct Valid<T>(pub T);

impl<T> Valid<T> {
    pub fn new(value: T) -> (r: Valid<T>)
        ensures
            r.0 == value,
    {
        Valid(value)
    }

    pub fn into_inner(self) -> (r: T)
        ensures
            r == self.0,
    {
        self.0
    }
}

} // verus!
