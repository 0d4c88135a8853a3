//! Responses, and the builder that defers header errors to `build`.
use vstd::prelude::*;
use vstd::string::StringExecFns;
use crate::body::Body;
use crate::header::{get_header, header_get, header_name_of, headers_applied, set_headers, HeaderError};
use crate::media_type::{media_type_of, pairs_view, param_of, MediaType};
use crate::multipart::parser::{decoded_parts, parse, parts_by_key, DecodeError, PartMap};
use crate::multipart::{form_bytes, Form};

verus! {

/// What a response holds: its headers in order, its body and its status.
pub struct ResponseView {
    pub headers: Seq<(Seq<char>, Seq<char>)>,
    pub body: Seq<u8>,
    pub status_code: u16,
}

/// An HTTP response.
pub struct Response {
    headers: Vec<(String, String)>,
    body: Body,
    status_code: u16,
}

impl View for Response {
    type V = ResponseView;

    closed spec fn view(&self) -> ResponseView {
        ResponseView { headers: pairs_view(self.headers@), body: self.body@, status_code: self.status_code }
    }
}

/// A response with no headers, an empty body and status 200.
pub open spec fn empty_response() -> ResponseView {
    ResponseView { headers: Seq::empty(), body: Seq::empty(), status_code: 200 }
}

/// Why a response could not be built.
#[derive(Clone, Debug, PartialEq, Eq)]
pub enum ErrorCode {
    /// An error inside the component, with its message.
    InternalError(Option<String>),
}

/// The message for a header that could not be set.
pub open spec fn header_error_message(e: HeaderError) -> Seq<char> {
    match e {
        HeaderError::InvalidName => "invalid HTTP header name"@,
        HeaderError::InvalidValue => "failed to parse header value"@,
    }
}

/// Why a body could not be read as multipart/form-data.
#[derive(Clone, Copy, Debug, PartialEq, Eq)]
pub enum MultipartError {
    /// There is no Content-Type header.
    MissingContentType,
    /// The Content-Type header is not a media type.
    InvalidContentType,
    /// The Content-Type header has no `boundary` parameter.
    MissingBoundary,
    /// The body does not decode.
    Decode(DecodeError),
}

/// The boundary that a Content-Type value names, or why there is none.
pub open spec fn boundary_of(content_type: Option<Seq<char>>) -> Result<Seq<char>, MultipartError> {
    match content_type {
        None => Err(MultipartError::MissingContentType),
        Some(ct) => match media_type_of(ct) {
            None => Err(MultipartError::InvalidContentType),
            Some(m) => match param_of(m.1, "boundary"@) {
                None => Err(MultipartError::MissingBoundary),
                Some(b) => Ok(b),
            },
        },
    }
}

/// The parts of a body whose Content-Type value is `content_type`.
pub open spec fn multipart_of(content_type: Option<Seq<char>>, body: Seq<u8>) -> Result<Map<Seq<char>, crate::multipart::PartView>, MultipartError> {
    match boundary_of(content_type) {
        Err(e) => Err(e),
        Ok(b) => match decoded_parts(body, b) {
            Err(e) => Err(MultipartError::Decode(e)),
            Ok(ps) => Ok(parts_by_key(ps)),
        },
    }
}

/// Reads `body` as multipart/form-data, with the boundary that the
/// Content-Type value names.
pub fn multipart_body(content_type: Option<&String>, body: &[u8]) -> (r: Result<PartMap, MultipartError>)
    ensures
        match multipart_of(
            match content_type {
                Some(s) => Some(s@),
                None => None,
            },
            body@,
        ) {
            Ok(m) => r matches Ok(pm) && pm@ == m,
            Err(e) => r matches Err(e2) && e2 == e,
        },
{
    let ct = match content_type {
        None => {
            return Err(MultipartError::MissingContentType);
        },
        Some(ct) => ct,
    };
    let m = match MediaType::parse(ct.as_str()) {
        None => {
            return Err(MultipartError::InvalidContentType);
        },
        Some(m) => m,
    };
    let boundary = match m.get_param("boundary") {
        None => {
            return Err(MultipartError::MissingBoundary);
        },
        Some(b) => b,
    };
    match parse(body, boundary.as_str()) {
        Ok(pm) => Ok(pm),
        Err(e) => Err(MultipartError::Decode(e)),
    }
}

impl Response {
    /// A response with no headers, an empty body and status 200.
    pub fn new() -> (r: Response)
        ensures
            r@ == empty_response(),
    {
        let r = Response { headers: Vec::new(), body: Body::Bytes(Vec::new()), status_code: 200 };
        assert(r@.headers =~= Seq::<(Seq<char>, Seq<char>)>::empty());
        r
    }

    /// A builder that starts from `Response::new()`.
    pub fn builder() -> (r: ResponseBuilder)
        ensures
            r@ == Ok::<ResponseView, HeaderError>(empty_response()),
    {
        ResponseBuilder::new()
    }

    /// The status code.
    pub fn status_code(&self) -> (r: u16)
        ensures
            r == self@.status_code,
    {
        self.status_code
    }

    /// The headers, in order.
    pub fn headers(&self) -> (r: &Vec<(String, String)>)
        ensures
            pairs_view(r@) == self@.headers,
    {
        &self.headers
    }

    /// The value of the header called `key`, in any case.
    pub fn header(&self, key: &str) -> (r: Option<&String>)
        ensures
            match header_name_of(key@) {
                None => r is None,
                Some(n) => match header_get(self@.headers, n) {
                    None => r is None,
                    Some(v) => r matches Some(s) && s@ == v,
                },
            },
    {
        get_header(&self.headers, key)
    }

    /// The next chunk of an incoming body; a response built here has none.
    pub fn chunk(&self, len: u64) -> (r: Option<Vec<u8>>)
        ensures
            r is None,
    {
        self.body.chunk(len)
    }

    /// The whole body.
    pub fn body(self) -> (r: Vec<u8>)
        ensures
            r@ == self@.body,
    {
        self.body.bytes()
    }

    /// The body read as multipart/form-data, with the boundary that the
    /// Content-Type header names.
    pub fn multipart(self) -> (r: Result<PartMap, MultipartError>)
        ensures
            match multipart_of(
                match header_name_of("Content-Type"@) {
                    None => None,
                    Some(n) => header_get(self@.headers, n),
                },
                self@.body,
            ) {
                Ok(m) => r matches Ok(pm) && pm@ == m,
                Err(e) => r matches Err(e2) && e2 == e,
            },
    {
        let ct = match get_header(&self.headers, "Content-Type") {
            None => None,
            Some(s) => Some(s.clone()),
        };
        let body = self.body.bytes();
        match &ct {
            None => multipart_body(None, body.as_slice()),
            Some(s) => multipart_body(Some(s), body.as_slice()),
        }
    }
}

/// Builds a response; the first header that cannot be set is kept as an
/// error, and `build` reports it.
pub struct ResponseBuilder {
    inner: Result<Response, HeaderError>,
}

impl View for ResponseBuilder {
    type V = Result<ResponseView, HeaderError>;

    closed spec fn view(&self) -> Result<ResponseView, HeaderError> {
        match self.inner {
            Ok(r) => Ok(r@),
            Err(e) => Err(e),
        }
    }
}

/// The header value that announces a multipart body with this boundary.
pub open spec fn multipart_content_type(boundary: Seq<char>) -> Seq<char> {
    "multipart/form-data; boundary="@ + boundary
}

impl ResponseBuilder {
    /// A builder that starts from `Response::new()`.
    pub fn new() -> (r: ResponseBuilder)
        ensures
            r@ == Ok::<ResponseView, HeaderError>(empty_response()),
    {
        ResponseBuilder { inner: Ok(Response::new()) }
    }

    /// Sets the status code (200 unless set).
    pub fn status_code(self, status_code: u16) -> (r: ResponseBuilder)
        ensures
            r@ == match self@ {
                Ok(v) => Ok(ResponseView { status_code, ..v }),
                Err(e) => Err(e),
            },
    {
        match self.inner {
            Ok(mut resp) => {
                resp.status_code = status_code;
                ResponseBuilder { inner: Ok(resp) }
            },
            Err(e) => ResponseBuilder { inner: Err(e) },
        }
    }

    /// Sets each header in turn; a name already there takes the new value.
    pub fn headers(self, headers: Vec<(String, String)>) -> (r: ResponseBuilder)
        ensures
            r@ == match self@ {
                Ok(v) => match headers_applied(v.headers, pairs_view(headers@)) {
                    Ok(hs) => Ok(ResponseView { headers: hs, ..v }),
                    Err(e) => Err(e),
                },
                Err(e) => Err(e),
            },
    {
        match self.inner {
            Ok(mut resp) => {
                match set_headers(&mut resp.headers, &headers) {
                    Ok(()) => ResponseBuilder { inner: Ok(resp) },
                    Err(e) => ResponseBuilder { inner: Err(e) },
                }
            },
            Err(e) => ResponseBuilder { inner: Err(e) },
        }
    }

    /// Sets one header.
    pub fn header(self, key: &str, value: &str) -> (r: ResponseBuilder)
        ensures
            r@ == match self@ {
                Ok(v) => match headers_applied(v.headers, seq![(key@, value@)]) {
                    Ok(hs) => Ok(ResponseView { headers: hs, ..v }),
                    Err(e) => Err(e),
                },
                Err(e) => Err(e),
            },
    {
        let mut one: Vec<(String, String)> = Vec::new();
        one.push((key.to_owned(), value.to_owned()));
        assert(pairs_view(one@) =~= seq![(key@, value@)]);
        self.headers(one)
    }

    /// Sets the body.
    pub fn body(self, body: Vec<u8>) -> (r: ResponseBuilder)
        ensures
            r@ == match self@ {
                Ok(v) => Ok(ResponseView { body: body@, ..v }),
                Err(e) => Err(e),
            },
    {
        match self.inner {
            Ok(mut resp) => {
                resp.body = Body::Bytes(body);
                ResponseBuilder { inner: Ok(resp) }
            },
            Err(e) => ResponseBuilder { inner: Err(e) },
        }
    }

    /// Sets a multipart/form-data body: the Content-Type header names the
    /// form's boundary, and the body is the encoded form.
    pub fn multipart(self, form: Form) -> (r: ResponseBuilder)
        ensures
            r@ == match self@ {
                Ok(v) => match headers_applied(
                    v.headers,
                    seq![("Content-Type"@, multipart_content_type(form@.boundary))],
                ) {
                    Ok(hs) => Ok(
                        ResponseView { headers: hs, body: form_bytes(form@.boundary, form@.parts), ..v },
                    ),
                    Err(e) => Err(e),
                },
                Err(e) => Err(e),
            },
    {
        let mut ct = String::from_str("multipart/form-data; boundary=");
        ct.append(form.boundary());
        let with_header = self.header("Content-Type", ct.as_str());
        with_header.body(form.build())
    }

    /// The response, or the first header error as an internal error.
    pub fn build(self) -> (r: Result<Response, ErrorCode>)
        ensures
            match self@ {
                Ok(v) => r matches Ok(resp) && resp@ == v,
                Err(e) => r matches Err(ErrorCode::InternalError(Some(m))) && m@ == header_error_message(e),
            },
    {
        match self.inner {
            Ok(resp) => Ok(resp),
            Err(HeaderError::InvalidName) => {
                Err(ErrorCode::InternalError(Some(String::from_str("invalid HTTP header name"))))
            },
            Err(HeaderError::InvalidValue) => {
                Err(ErrorCode::InternalError(Some(String::from_str("failed to parse header value"))))
            },
        }
    }
}

} // verus!
