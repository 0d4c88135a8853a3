//! The entry point for sending requests.
use vstd::prelude::*;
use crate::request::{new_request, uri_parts_of, Method, RequestBuilder, RequestError, RequestView};

verus! {

/// An HTTP client; it holds no state.
#[derive(Clone, Copy, Debug, PartialEq, Eq, Default)]
pub struct Client {}

/// A builder for a request with `method` to `url`, or the URI error.
pub open spec fn request_to(method: Method, url: Seq<char>) -> Result<RequestView, RequestError> {
    match uri_parts_of(url) {
        Some(u) => Ok(new_request(method, u)),
        None => Err(RequestError::InvalidUri),
    }
}

impl Client {
    /// A new client.
    pub fn new() -> (r: Client)
        ensures
            r == (Client {}),
    {
        Client {}
    }

    /// A GET request to `url`.
    pub fn get(&self, url: &str) -> (r: RequestBuilder)
        ensures
            r@ == request_to(Method::Get, url@),
    {
        self.request(Method::Get, url)
    }

    /// A POST request to `url`.
    pub fn post(&self, url: &str) -> (r: RequestBuilder)
        ensures
            r@ == request_to(Method::Post, url@),
    {
        self.request(Method::Post, url)
    }

    /// A PUT request to `url`.
    pub fn put(&self, url: &str) -> (r: RequestBuilder)
        ensures
            r@ == request_to(Method::Put, url@),
    {
        self.request(Method::Put, url)
    }

    /// A PATCH request to `url`.
    pub fn patch(&self, url: &str) -> (r: RequestBuilder)
        ensures
            r@ == request_to(Method::Patch, url@),
    {
        self.request(Method::Patch, url)
    }

    /// A DELETE request to `url`.
    pub fn delete(&self, url: &str) -> (r: RequestBuilder)
        ensures
            r@ == request_to(Method::Delete, url@),
    {
        self.request(Method::Delete, url)
    }

    /// A HEAD request to `url`.
    pub fn head(&self, url: &str) -> (r: RequestBuilder)
        ensures
            r@ == request_to(Method::Head, url@),
    {
        self.request(Method::Head, url)
    }

    /// A request with `method` to `url`.
    pub fn request(&self, method: Method, url: &str) -> (r: RequestBuilder)
        ensures
            r@ == request_to(method, url@),
    {
        RequestBuilder::new(method, url)
    }
}

} // verus!
