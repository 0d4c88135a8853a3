//! Requests: the target URI, query strings, and the builder that defers
//! errors until the request is used.
use vstd::prelude::*;
use vstd::string::StringExecFns;
use crate::body::Body;
use crate::header::{get_header, header_get, header_name_of, header_set, headers_applied, set_header, set_headers, HeaderError};
use crate::media_type::{pair_view, pairs_view};
use crate::multipart::{form_bytes, Form};
use crate::multipart::parser::PartMap;
use crate::response::{multipart_body, multipart_content_type, multipart_of, MultipartError};

verus! {

/// An HTTP method.
#[derive(Clone, Debug, PartialEq, Eq)]
pub enum Method {
    Get,
    Head,
    Post,
    Put,
    Delete,
    Connect,
    Options,
    Trace,
    Patch,
    Other(String),
}

/// What a path-and-query holds: its whole text, its path (`/` where it is
/// empty) and the text after its first `?`, if there is one.
pub type PathAndQueryView = (Seq<char>, Seq<char>, Option<Seq<char>>);

/// A URI's path and query string.
#[derive(Clone, Debug, PartialEq, Eq)]
pub struct PathAndQuery {
    pub text: String,
    pub path: String,
    pub query: Option<String>,
}

/// The text of an optional string.
pub open spec fn opt_str(s: Option<String>) -> Option<Seq<char>> {
    match s {
        Some(s) => Some(s@),
        None => None,
    }
}

impl View for PathAndQuery {
    type V = PathAndQueryView;

    open spec fn view(&self) -> PathAndQueryView {
        (self.text@, self.path@, opt_str(self.query))
    }
}

/// What a URI holds: its scheme, authority and path-and-query, each where
/// it has one.
pub type UriView = (Option<Seq<char>>, Option<Seq<char>>, Option<PathAndQueryView>);

/// The parts of a URI.
#[derive(Clone, Debug, PartialEq, Eq)]
pub struct UriParts {
    pub scheme: Option<String>,
    pub authority: Option<String>,
    pub path_and_query: Option<PathAndQuery>,
}

/// The view of an optional path-and-query.
pub open spec fn opt_pq(p: Option<PathAndQuery>) -> Option<PathAndQueryView> {
    match p {
        Some(p) => Some(p@),
        None => None,
    }
}

impl View for UriParts {
    type V = UriView;

    open spec fn view(&self) -> UriView {
        (opt_str(self.scheme), opt_str(self.authority), opt_pq(self.path_and_query))
    }
}

/// What the `http` crate makes of a URI: its parts, or `None` where it is
/// not a valid URI.
pub uninterp spec fn uri_parts_of(s: Seq<char>) -> Option<UriView>;

/// What the `http` crate makes of a path-and-query, or `None` where it is
/// not a valid one.
pub uninterp spec fn path_and_query_of(s: Seq<char>) -> Option<PathAndQueryView>;

/// The query string `query` with `pairs` appended in
/// application/x-www-form-urlencoded form.
pub uninterp spec fn urlencoded_extended(query: Seq<char>, pairs: Seq<(Seq<char>, Seq<char>)>) -> Seq<char>;

/// The name/value pairs that an application/x-www-form-urlencoded string
/// decodes to, in order.
pub uninterp spec fn urlencoded_pairs(query: Seq<char>) -> Seq<(Seq<char>, Seq<char>)>;

/// Relies on `FromStr for http::Uri` and `Uri::into_parts`: the scheme,
/// authority, and path-and-query (`as_str`, `path`, `query`) of `s`.
#[verifier::external_body]
fn parse_uri(s: &str) -> (r: Option<UriParts>)
    ensures
        match uri_parts_of(s@) {
            None => r is None,
            Some(v) => r matches Some(u) && u@ == v,
        },
{
    let p = s.parse::<http::Uri>().ok()?.into_parts();
    let pq = p.path_and_query.map(|q| PathAndQuery {
        text: q.as_str().to_string(),
        path: q.path().to_string(),
        query: q.query().map(|s| s.to_string()),
    });
    let scheme = p.scheme.map(|s| s.as_str().to_string());
    Some(UriParts { scheme, authority: p.authority.map(|a| a.as_str().to_string()), path_and_query: pq })
}

/// Relies on `TryFrom<String> for http::uri::PathAndQuery`: its `as_str`,
/// `path` and `query`, or `None` where `s` is not a valid path-and-query.
#[verifier::external_body]
fn parse_path_and_query(s: String) -> (r: Option<PathAndQuery>)
    ensures
        match path_and_query_of(s@) {
            None => r is None,
            Some(v) => r matches Some(p) && p@ == v,
        },
{
    let q = http::uri::PathAndQuery::try_from(s).ok()?;
    let query = q.query().map(|s| s.to_string());
    Some(PathAndQuery { text: q.as_str().to_string(), path: q.path().to_string(), query })
}

/// Relies on `form_urlencoded::Serializer`: `query` with `pairs` appended
/// through `extend_pairs`, as `finish` returns it.
#[verifier::external_body]
fn urlencode_extend(query: String, pairs: &Vec<(String, String)>) -> (r: String)
    ensures
        r@ == urlencoded_extended(query@, pairs_view(pairs@)),
{
    form_urlencoded::Serializer::new(query).extend_pairs(pairs.iter()).finish()
}

/// Relies on `form_urlencoded::parse(..).into_owned()`: the decoded pairs of
/// `query`, in order.
#[verifier::external_body]
fn urlencode_parse(query: &str) -> (r: Vec<(String, String)>)
    ensures
        pairs_view(r@) == urlencoded_pairs(query@),
{
    form_urlencoded::parse(query.as_bytes()).into_owned().collect()
}

/// `pairs` as a map kept in order of first appearance: of two pairs with one
/// name, the later value stays.
pub open spec fn pairs_as_map(pairs: Seq<(Seq<char>, Seq<char>)>) -> Seq<(Seq<char>, Seq<char>)>
    decreases pairs.len(),
{
    if pairs.len() == 0 {
        Seq::empty()
    } else {
        header_set(pairs_as_map(pairs.drop_last()), pairs.last().0, pairs.last().1)
    }
}

/// What a request holds.
pub struct RequestView {
    pub method: Method,
    pub uri: UriView,
    pub headers: Seq<(Seq<char>, Seq<char>)>,
    pub body: Seq<u8>,
    pub connect_timeout: Option<u64>,
}

/// An HTTP request.
pub struct Request {
    method: Method,
    uri: UriParts,
    headers: Vec<(String, String)>,
    body: Body,
    connect_timeout: Option<u64>,
}

impl View for Request {
    type V = RequestView;

    closed spec fn view(&self) -> RequestView {
        RequestView {
            method: self.method,
            uri: self.uri@,
            headers: pairs_view(self.headers@),
            body: self.body@,
            connect_timeout: self.connect_timeout,
        }
    }
}

/// A request with the given method and URI, no headers, an empty body and
/// no connect timeout.
pub open spec fn new_request(method: Method, uri: UriView) -> RequestView {
    RequestView { method, uri, headers: Seq::empty(), body: Seq::empty(), connect_timeout: None }
}

/// Why a request could not be built.
#[derive(Clone, Copy, Debug, PartialEq, Eq)]
pub enum RequestError {
    /// The URI does not parse.
    InvalidUri,
    /// A header could not be set.
    Header(HeaderError),
}

impl Request {
    /// A request with no headers and an empty body.
    pub fn new(method: Method, uri: UriParts) -> (r: Request)
        ensures
            r@ == new_request(method, uri@),
    {
        let r = Request { method, uri, headers: Vec::new(), body: Body::Bytes(Vec::new()), connect_timeout: None };
        assert(r@.headers =~= Seq::<(Seq<char>, Seq<char>)>::empty());
        r
    }

    /// A builder for a request to `uri`.
    pub fn builder(method: Method, uri: &str) -> (r: RequestBuilder)
        ensures
            r@ == match uri_parts_of(uri@) {
                Some(u) => Ok(new_request(method, u)),
                None => Err(RequestError::InvalidUri),
            },
    {
        RequestBuilder::new(method, uri)
    }

    /// The method.
    pub fn method(&self) -> (r: Method)
        ensures
            r == self@.method,
    {
        match &self.method {
            Method::Get => Method::Get,
            Method::Head => Method::Head,
            Method::Post => Method::Post,
            Method::Put => Method::Put,
            Method::Delete => Method::Delete,
            Method::Connect => Method::Connect,
            Method::Options => Method::Options,
            Method::Trace => Method::Trace,
            Method::Patch => Method::Patch,
            Method::Other(s) => Method::Other(s.clone()),
        }
    }

    /// The path, or the empty string where the URI has none.
    pub fn path(&self) -> (r: &str)
        ensures
            r@ == match self@.uri.2 {
                Some(pq) => pq.1,
                None => Seq::empty(),
            },
    {
        proof {
            reveal_strlit("");
        }
        match &self.uri.path_and_query {
            Some(pq) => pq.path.as_str(),
            None => "",
        }
    }

    /// The query string decoded into names and values; of two pairs with one
    /// name, the later value stays.
    pub fn query(&self) -> (r: Vec<(String, String)>)
        ensures
            pairs_view(r@) == match self@.uri.2 {
                Some(pq) => pairs_as_map(urlencoded_pairs(
                    match pq.2 {
                        Some(q) => q,
                        None => Seq::empty(),
                    },
                )),
                None => Seq::empty(),
            },
    {
        let pairs = match &self.uri.path_and_query {
            Some(pq) => match &pq.query {
                Some(q) => urlencode_parse(q.as_str()),
                None => {
                    proof {
                        reveal_strlit("");
                        assert(""@ =~= Seq::<char>::empty());
                    }
                    urlencode_parse("")
                },
            },
            None => {
                let r: Vec<(String, String)> = Vec::new();
                assert(pairs_view(r@) =~= Seq::empty());
                return r;
            },
        };
        proof {
            reveal_strlit("");
        }
        let ghost target = match self@.uri.2 {
            Some(pq) => urlencoded_pairs(
                match pq.2 {
                    Some(q) => q,
                    None => Seq::empty(),
                },
            ),
            None => Seq::empty(),
        };
        let mut out: Vec<(String, String)> = Vec::new();
        let ghost pv = pairs_view(pairs@);
        assert(pv == target);
        let mut i: usize = 0;
        assert(pairs_view(out@) =~= pairs_as_map(pv.take(0)));
        while i < pairs.len()
            invariant
                i <= pairs@.len(),
                pv == pairs_view(pairs@),
                pv == target,
                self@.uri.2 is Some,
                pairs_view(out@) == pairs_as_map(pv.take(i as int)),
            decreases pairs@.len() - i,
        {
            set_header(&mut out, pairs[i].0.clone(), pairs[i].1.clone());
            proof {
                let t = pv.take(i + 1);
                assert(t.drop_last() =~= pv.take(i as int));
                assert(t.last() == pair_view(pairs@[i as int]));
            }
            i = i + 1;
        }
        assert(pv.take(i as int) =~= pv);
        out
    }

    /// The authority, where the URI has one.
    pub fn authority(&self) -> (r: &Option<String>)
        ensures
            opt_str(*r) == self@.uri.1,
    {
        &self.uri.authority
    }

    /// The headers, in order.
    pub fn headers(&self) -> (r: &Vec<(String, String)>)
        ensures
            pairs_view(r@) == self@.headers,
    {
        &self.headers
    }

    /// The value of the header called `key`, in any case.
    pub fn header(&self, key: &str) -> (r: Option<&String>)
        ensures
            match header_name_of(key@) {
                None => r is None,
                Some(n) => match header_get(self@.headers, n) {
                    None => r is None,
                    Some(v) => r matches Some(s) && s@ == v,
                },
            },
    {
        get_header(&self.headers, key)
    }

    /// The next chunk of an incoming body; a request built here has none.
    pub fn chunk(&self, len: u64) -> (r: Option<Vec<u8>>)
        ensures
            r is None,
    {
        self.body.chunk(len)
    }

    /// The whole body.
    pub fn body(self) -> (r: Vec<u8>)
        ensures
            r@ == self@.body,
    {
        self.body.bytes()
    }

    /// The body read as multipart/form-data, with the boundary that the
    /// Content-Type header names.
    pub fn multipart(self) -> (r: Result<PartMap, MultipartError>)
        ensures
            match multipart_of(
                match header_name_of("Content-Type"@) {
                    None => None,
                    Some(n) => header_get(self@.headers, n),
                },
                self@.body,
            ) {
                Ok(m) => r matches Ok(pm) && pm@ == m,
                Err(e) => r matches Err(e2) && e2 == e,
            },
    {
        let ct = match get_header(&self.headers, "Content-Type") {
            None => None,
            Some(s) => Some(s.clone()),
        };
        let body = self.body.bytes();
        match &ct {
            None => multipart_body(None, body.as_slice()),
            Some(s) => multipart_body(Some(s), body.as_slice()),
        }
    }
}

/// Builds a request; the first error is kept and returned by `build`.
pub struct RequestBuilder {
    inner: Result<Request, RequestError>,
}

impl View for RequestBuilder {
    type V = Result<RequestView, RequestError>;

    closed spec fn view(&self) -> Result<RequestView, RequestError> {
        match self.inner {
            Ok(r) => Ok(r@),
            Err(e) => Err(e),
        }
    }
}

/// The path-and-query text `path?query`.
pub open spec fn with_query(path: Seq<char>, query: Seq<char>) -> Seq<char> {
    path + "?"@ + query
}

impl RequestBuilder {
    /// A builder for a request to `uri`; a URI that does not parse is kept
    /// as the error.
    pub fn new(method: Method, uri: &str) -> (r: RequestBuilder)
        ensures
            r@ == match uri_parts_of(uri@) {
                Some(u) => Ok(new_request(method, u)),
                None => Err(RequestError::InvalidUri),
            },
    {
        match parse_uri(uri) {
            Some(u) => RequestBuilder { inner: Ok(Request::new(method, u)) },
            None => RequestBuilder { inner: Err(RequestError::InvalidUri) },
        }
    }

    /// Appends `args` to the query string of the URI.
    pub fn query(self, args: Vec<(String, String)>) -> (r: RequestBuilder)
        ensures
            r@ == match self@ {
                Err(e) => Err(e),
                Ok(v) => {
                    let (path, query) = match v.uri.2 {
                        Some(pq) => (pq.1, match pq.2 {
                            Some(q) => q,
                            None => Seq::empty(),
                        }),
                        None => (Seq::empty(), Seq::empty()),
                    };
                    match path_and_query_of(with_query(path, urlencoded_extended(query, pairs_view(args@)))) {
                        Some(pq) => Ok(RequestView { uri: (v.uri.0, v.uri.1, Some(pq)), ..v }),
                        None => Err(RequestError::InvalidUri),
                    }
                },
            },
    {
        proof {
            reveal_strlit("");
        }
        match self.inner {
            Err(e) => RequestBuilder { inner: Err(e) },
            Ok(mut req) => {
                let (mut text, query) = match &req.uri.path_and_query {
                    Some(pq) => (
                        pq.path.clone(),
                        match &pq.query {
                            Some(q) => q.clone(),
                            None => String::new(),
                        },
                    ),
                    None => (String::new(), String::new()),
                };
                let encoded = urlencode_extend(query, &args);
                text.append("?");
                text.append(encoded.as_str());
                match parse_path_and_query(text) {
                    Some(pq) => {
                        req.uri.path_and_query = Some(pq);
                        RequestBuilder { inner: Ok(req) }
                    },
                    None => RequestBuilder { inner: Err(RequestError::InvalidUri) },
                }
            },
        }
    }

    /// Sets the connect timeout, in nanoseconds.
    pub fn connect_timeout(self, timeout_nanos: u64) -> (r: RequestBuilder)
        ensures
            r@ == match self@ {
                Ok(v) => Ok(RequestView { connect_timeout: Some(timeout_nanos), ..v }),
                Err(e) => Err(e),
            },
    {
        match self.inner {
            Ok(mut req) => {
                req.connect_timeout = Some(timeout_nanos);
                RequestBuilder { inner: Ok(req) }
            },
            Err(e) => RequestBuilder { inner: Err(e) },
        }
    }

    /// Sets each header in turn; a name already there takes the new value.
    pub fn headers(self, headers: Vec<(String, String)>) -> (r: RequestBuilder)
        ensures
            r@ == match self@ {
                Ok(v) => match headers_applied(v.headers, pairs_view(headers@)) {
                    Ok(hs) => Ok(RequestView { headers: hs, ..v }),
                    Err(e) => Err(RequestError::Header(e)),
                },
                Err(e) => Err(e),
            },
    {
        match self.inner {
            Ok(mut req) => match set_headers(&mut req.headers, &headers) {
                Ok(()) => RequestBuilder { inner: Ok(req) },
                Err(e) => RequestBuilder { inner: Err(RequestError::Header(e)) },
            },
            Err(e) => RequestBuilder { inner: Err(e) },
        }
    }

    /// Sets one header.
    pub fn header(self, key: &str, value: &str) -> (r: RequestBuilder)
        ensures
            r@ == match self@ {
                Ok(v) => match headers_applied(v.headers, seq![(key@, value@)]) {
                    Ok(hs) => Ok(RequestView { headers: hs, ..v }),
                    Err(e) => Err(RequestError::Header(e)),
                },
                Err(e) => Err(e),
            },
    {
        let mut one: Vec<(String, String)> = Vec::new();
        one.push((key.to_owned(), value.to_owned()));
        assert(pairs_view(one@) =~= seq![(key@, value@)]);
        self.headers(one)
    }

    /// Sets the body.
    pub fn body(self, body: Vec<u8>) -> (r: RequestBuilder)
        ensures
            r@ == match self@ {
                Ok(v) => Ok(RequestView { body: body@, ..v }),
                Err(e) => Err(e),
            },
    {
        match self.inner {
            Ok(mut req) => {
                req.body = Body::Bytes(body);
                RequestBuilder { inner: Ok(req) }
            },
            Err(e) => RequestBuilder { inner: Err(e) },
        }
    }

    /// Sets a multipart/form-data body: the Content-Type header names the
    /// form's boundary, and the body is the encoded form.
    pub fn multipart(self, form: Form) -> (r: RequestBuilder)
        ensures
            r@ == match self@ {
                Ok(v) => match headers_applied(
                    v.headers,
                    seq![("Content-Type"@, multipart_content_type(form@.boundary))],
                ) {
                    Ok(hs) => Ok(
                        RequestView { headers: hs, body: form_bytes(form@.boundary, form@.parts), ..v },
                    ),
                    Err(e) => Err(RequestError::Header(e)),
                },
                Err(e) => Err(e),
            },
    {
        let mut ct = String::from_str("multipart/form-data; boundary=");
        ct.append(form.boundary());
        let with_header = self.header("Content-Type", ct.as_str());
        with_header.body(form.build())
    }

    /// The request, or the first error.
    pub fn build(self) -> (r: Result<Request, RequestError>)
        ensures
            match self@ {
                Ok(v) => r matches Ok(req) && req@ == v,
                Err(e) => r matches Err(e2) && e2 == e,
            },
    {
        self.inner
    }
}

} // verus!
