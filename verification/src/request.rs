//! The description of one HTTP request.

use vstd::prelude::*;

verus! {

/// The HTTP method of a request.
#[derive(Clone, Copy, Debug, PartialEq, Eq, Structural)]
pub enum Method {
    Get,
    Post,
    Put,
    Patch,
    Delete,
}

/// One request, ready to be handed to a transport.
#[derive(Debug, PartialEq, Eq)]
pub struct Request {
    /// The method to use.
    pub method: Method,
    /// The path and query of the target, relative to the address of the service.
    pub url: String,
    /// The bytes to send as the body, if the request carries one.
    pub body: Option<Vec<u8>>,
}

/// A request as a mathematical value.
pub struct RequestView {
    pub method: Method,
    pub url: Seq<char>,
    pub body: Option<Seq<u8>>,
}

impl View for Request {
    type V = RequestView;

    open spec fn view(&self) -> RequestView {
        RequestView {
            method: self.method,
            url: self.url@,
            body: match self.body {
                Some(bytes) => Some(bytes@),
                None => None,
            },
        }
    }
}

} // verus!
