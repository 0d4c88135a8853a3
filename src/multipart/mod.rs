//! multipart/form-data: parts, forms and the encoder.
pub mod parser;

use vstd::prelude::*;
use vstd::utf8::encode_utf8;
use vstd::string::StringExecFns;
use rand::Rng;
use crate::header::{headers_applied, opt_view, set_headers, HeaderError};
use crate::media_type::{guessed_media_type, media_type_of, pairs_view, pair_view, MediaType, MediaTypeView};

verus! {

/// What a part holds: its name, its value, and its optional file name,
/// media type and extra headers.
pub struct PartView {
    pub key: Seq<char>,
    pub value: Seq<u8>,
    pub filename: Option<Seq<char>>,
    pub mime: Option<MediaTypeView>,
    pub headers: Seq<(Seq<char>, Seq<char>)>,
}

/// One named field of a multipart body.
#[derive(Clone, Debug, PartialEq, Eq)]
pub struct Part {
    pub key: String,
    pub value: Vec<u8>,
    pub filename: Option<String>,
    pub mime: Option<MediaType>,
    pub headers: Vec<(String, String)>,
}

/// The view of an optional media type.
pub open spec fn opt_mime_view(m: Option<MediaType>) -> Option<MediaTypeView> {
    match m {
        Some(m) => Some(m@),
        None => None,
    }
}

impl View for Part {
    type V = PartView;

    open spec fn view(&self) -> PartView {
        PartView {
            key: self.key@,
            value: self.value@,
            filename: opt_view(self.filename),
            mime: opt_mime_view(self.mime),
            headers: pairs_view(self.headers@),
        }
    }
}

/// Why a part could not be built.
#[derive(Clone, Copy, Debug, PartialEq, Eq)]
pub enum PartError {
    /// The string is not a media type.
    InvalidMediaType,
    /// A header name is not a valid HTTP header name.
    InvalidHeaderName,
    /// A header value holds a byte that a header value may not hold.
    InvalidHeaderValue,
}

/// The last segment of a file path, if it has one.
pub uninterp spec fn file_name_of(path: Seq<char>) -> Option<Seq<char>>;

/// Relies on `std::path::Path::file_name`: the last segment of `path`.
#[verifier::external_body]
fn path_file_name(path: &str) -> (r: Option<String>)
    ensures
        opt_view(r) == file_name_of(path@),
{
    std::path::Path::new(path).file_name().map(|f| f.to_string_lossy().to_string())
}

impl Part {
    /// A part with a name and a value, and nothing else.
    pub fn new(key: String, value: Vec<u8>) -> (r: Part)
        ensures
            r@ == (PartView {
                key: key@,
                value: value@,
                filename: None,
                mime: None,
                headers: Seq::empty(),
            }),
    {
        let r = Part { key, value, filename: None, mime: None, headers: Vec::new() };
        assert(pairs_view(r.headers@) =~= Seq::empty());
        r
    }

    /// A part that carries the contents of a file: the file name is the last
    /// segment of `path`, and the media type is inferred from its extension.
    pub fn file(key: String, path: &str, contents: Vec<u8>) -> (r: Part)
        ensures
            r@ == (PartView {
                key: key@,
                value: contents@,
                filename: file_name_of(path@),
                mime: Some(guessed_media_type(path@)),
                headers: Seq::empty(),
            }),
    {
        let mime = MediaType::guess_from_path(path);
        let part = Part::new(key, contents).mime(mime);
        match path_file_name(path) {
            Some(name) => part.filename(name),
            None => part,
        }
    }

    /// Sets the media type.
    pub fn mime(self, mime: MediaType) -> (r: Part)
        ensures
            r@ == (PartView { mime: Some(mime@), ..self@ }),
    {
        let mut p = self;
        p.mime = Some(mime);
        p
    }

    /// Sets the media type from its text.
    pub fn mime_str(self, mime: &str) -> (r: Result<Part, PartError>)
        ensures
            match media_type_of(mime@) {
                Some(m) => r matches Ok(p) && p@ == (PartView { mime: Some(m), ..self@ }),
                None => r == Err::<Part, PartError>(PartError::InvalidMediaType),
            },
    {
        match MediaType::parse(mime) {
            Some(m) => Ok(self.mime(m)),
            None => Err(PartError::InvalidMediaType),
        }
    }

    /// Adds extra headers, in order; a header whose name is already there
    /// replaces its value.
    pub fn headers(self, headers: Vec<(String, String)>) -> (r: Result<Part, PartError>)
        ensures
            match headers_applied(self@.headers, pairs_view(headers@)) {
                Ok(hs) => r matches Ok(p) && p@ == (PartView { headers: hs, ..self@ }),
                Err(HeaderError::InvalidName) => r == Err::<Part, PartError>(PartError::InvalidHeaderName),
                Err(HeaderError::InvalidValue) => r == Err::<Part, PartError>(PartError::InvalidHeaderValue),
            },
    {
        let mut p = self;
        match set_headers(&mut p.headers, &headers) {
            Ok(()) => Ok(p),
            Err(HeaderError::InvalidName) => Err(PartError::InvalidHeaderName),
            Err(HeaderError::InvalidValue) => Err(PartError::InvalidHeaderValue),
        }
    }

    /// Sets the file name.
    pub fn filename(self, name: String) -> (r: Part)
        ensures
            r@ == (PartView { filename: Some(name@), ..self@ }),
    {
        let mut p = self;
        p.filename = Some(name);
        p
    }
}

/// The UTF-8 bytes of `s`.
pub open spec fn utf8(s: Seq<char>) -> Seq<u8> {
    encode_utf8(s)
}

/// The extra header lines of a part, each one `\r\n<name>: <value>`.
pub open spec fn header_lines_bytes(hs: Seq<(Seq<char>, Seq<char>)>) -> Seq<u8>
    decreases hs.len(),
{
    if hs.len() == 0 {
        Seq::empty()
    } else {
        header_lines_bytes(hs.drop_last()) + utf8("\r\n"@) + utf8(hs.last().0) + utf8(": "@) + utf8(hs.last().1)
    }
}

/// The `; filename="<name>"` parameter, where the part has a file name.
pub open spec fn filename_bytes(f: Option<Seq<char>>) -> Seq<u8> {
    match f {
        Some(f) => utf8("; filename=\""@) + utf8(f) + utf8("\""@),
        None => Seq::empty(),
    }
}

/// The Content-Type line, where the part has a media type.
pub open spec fn mime_bytes(m: Option<MediaTypeView>) -> Seq<u8> {
    match m {
        Some(m) => utf8("\r\nContent-Type: "@) + utf8(m.0),
        None => Seq::empty(),
    }
}

/// The delimiter line and the Content-Disposition header of a part.
pub open spec fn disposition_bytes(boundary: Seq<char>, key: Seq<char>) -> Seq<u8> {
    utf8("--"@) + utf8(boundary) + utf8("\r\n"@) + utf8("Content-Disposition: form-data; name="@)
        + utf8(key)
}

/// The bytes of one part: its delimiter line, its Content-Disposition,
/// its Content-Type and extra headers where it has them, a blank line, the
/// value and a line break.
pub open spec fn part_bytes(boundary: Seq<char>, p: PartView) -> Seq<u8> {
    disposition_bytes(boundary, p.key) + filename_bytes(p.filename) + mime_bytes(p.mime)
        + header_lines_bytes(p.headers) + utf8("\r\n\r\n"@) + p.value + utf8("\r\n"@)
}

/// The bytes of all parts, in order.
pub open spec fn parts_bytes(boundary: Seq<char>, ps: Seq<PartView>) -> Seq<u8>
    decreases ps.len(),
{
    if ps.len() == 0 {
        Seq::empty()
    } else {
        parts_bytes(boundary, ps.drop_last()) + part_bytes(boundary, ps.last())
    }
}

/// The whole body of a form: its parts, then `--<boundary>--`.
pub open spec fn form_bytes(boundary: Seq<char>, ps: Seq<PartView>) -> Seq<u8> {
    parts_bytes(boundary, ps) + utf8("--"@) + utf8(boundary) + utf8("--"@)
}

/// Appends the UTF-8 bytes of `s` to `buf`.
fn put_str(buf: &mut Vec<u8>, s: &str)
    ensures
        final(buf)@ == old(buf)@ + utf8(s@),
{
    let b = s.as_bytes();
    buf.extend_from_slice(b);
    assert(final(buf)@ =~= old(buf)@ + utf8(s@));
}

fn put_disposition(buf: &mut Vec<u8>, boundary: &str, key: &str)
    ensures
        final(buf)@ == old(buf)@ + disposition_bytes(boundary@, key@),
{
    put_str(buf, "--");
    put_str(buf, boundary);
    put_str(buf, "\r\n");
    put_str(buf, "Content-Disposition: form-data; name=");
    put_str(buf, key);
    assert(final(buf)@ =~= old(buf)@ + disposition_bytes(boundary@, key@));
}

fn put_filename(buf: &mut Vec<u8>, filename: &Option<String>)
    ensures
        final(buf)@ == old(buf)@ + filename_bytes(opt_view(*filename)),
{
    if let Some(filename) = filename {
        put_str(buf, "; filename=\"");
        put_str(buf, filename.as_str());
        put_str(buf, "\"");
        assert(final(buf)@ =~= old(buf)@ + filename_bytes(opt_view(Some(*filename))));
    } else {
        assert(final(buf)@ =~= old(buf)@ + filename_bytes(None));
    }
}

fn put_mime(buf: &mut Vec<u8>, mime: &Option<MediaType>)
    ensures
        final(buf)@ == old(buf)@ + mime_bytes(opt_mime_view(*mime)),
{
    if let Some(mime) = mime {
        put_str(buf, "\r\nContent-Type: ");
        put_str(buf, mime.as_str());
        assert(final(buf)@ =~= old(buf)@ + mime_bytes(opt_mime_view(Some(*mime))));
    } else {
        assert(final(buf)@ =~= old(buf)@ + mime_bytes(None));
    }
}

fn put_header_lines(buf: &mut Vec<u8>, headers: &Vec<(String, String)>)
    ensures
        final(buf)@ == old(buf)@ + header_lines_bytes(pairs_view(headers@)),
{
    let ghost hs = pairs_view(headers@);
    let ghost start = buf@;
    let mut i: usize = 0;
    assert(hs.take(0).len() == 0);
    assert(start + header_lines_bytes(hs.take(0)) =~= start);
    while i < headers.len()
        invariant
            i <= headers@.len(),
            hs == pairs_view(headers@),
            start == old(buf)@,
            buf@ == start + header_lines_bytes(hs.take(i as int)),
        decreases headers@.len() - i,
    {
        let ghost before = buf@;
        put_str(buf, "\r\n");
        put_str(buf, headers[i].0.as_str());
        put_str(buf, ": ");
        put_str(buf, headers[i].1.as_str());
        proof {
            let t = hs.take(i + 1);
            assert(t.drop_last() =~= hs.take(i as int));
            assert(t.last() == pair_view(headers@[i as int]));
            assert(buf@ =~= start + header_lines_bytes(t));
        }
        i = i + 1;
    }
    assert(hs.take(i as int) =~= hs);
}

/// Appends the bytes of one part to `buf`.
fn put_part(buf: &mut Vec<u8>, boundary: &str, part: &Part)
    ensures
        final(buf)@ == old(buf)@ + part_bytes(boundary@, part@),
{
    put_disposition(buf, boundary, part.key.as_str());
    put_filename(buf, &part.filename);
    put_mime(buf, &part.mime);
    put_header_lines(buf, &part.headers);
    put_str(buf, "\r\n\r\n");
    buf.extend_from_slice(part.value.as_slice());
    put_str(buf, "\r\n");
    assert(final(buf)@ =~= old(buf)@ + part_bytes(boundary@, part@));
}

/// `c` is an ASCII letter or digit.
pub open spec fn is_ascii_alphanumeric(c: char) -> bool {
    ('a' <= c && c <= 'z') || ('A' <= c && c <= 'Z') || ('0' <= c && c <= '9')
}

/// Relies on rand's `thread_rng().sample_iter(&Alphanumeric)`, which yields
/// ASCII letters and digits: `length` of them, drawn at random.
#[verifier::external_body]
fn random_alphanumeric(length: usize) -> (r: String)
    ensures
        r@.len() == length,
        forall|i: int| 0 <= i < r@.len() ==> is_ascii_alphanumeric(#[trigger] r@[i]),
{
    rand::thread_rng().sample_iter(&rand::distributions::Alphanumeric).take(length).map(char::from).collect()
}

/// A random string of `length` ASCII letters and digits.
pub fn generate_random_string(length: usize) -> (r: String)
    ensures
        r@.len() == length,
        forall|i: int| 0 <= i < r@.len() ==> is_ascii_alphanumeric(#[trigger] r@[i]),
{
    random_alphanumeric(length)
}

/// What a form holds: its parts in order and its boundary.
pub struct FormView {
    pub parts: Seq<PartView>,
    pub boundary: Seq<char>,
}

/// An ordered list of parts, with the boundary that will delimit them.
pub struct Form {
    parts: Vec<Part>,
    boundary: String,
}

/// The views of a list of parts.
pub open spec fn parts_view(ps: Seq<Part>) -> Seq<PartView> {
    ps.map_values(|p: Part| p@)
}

impl View for Form {
    type V = FormView;

    closed spec fn view(&self) -> FormView {
        FormView { parts: parts_view(self.parts@), boundary: self.boundary@ }
    }
}

impl Form {
    /// An empty form whose boundary is `--FormBoundary` and ten random
    /// letters and digits.
    pub fn new() -> (r: Form)
        ensures
            r@.parts.len() == 0,
            r@.boundary.len() == 24,
            r@.boundary.subrange(0, 14) == "--FormBoundary"@,
            forall|i: int| 14 <= i < 24 ==> is_ascii_alphanumeric(#[trigger] r@.boundary[i]),
    {
        let mut boundary = String::from_str("--FormBoundary");
        let token = generate_random_string(10);
        boundary.append(token.as_str());
        proof {
            reveal_strlit("--FormBoundary");
            assert(boundary@.subrange(0, 14) =~= "--FormBoundary"@);
            assert forall|i: int| 14 <= i < 24 implies is_ascii_alphanumeric(#[trigger] boundary@[i]) by {
                assert(boundary@[i] == token@[i - 14]);
            }
        }
        Form::with_boundary(boundary)
    }

    /// An empty form with the given boundary.
    pub fn with_boundary(boundary: String) -> (r: Form)
        ensures
            r@ == (FormView { parts: Seq::empty(), boundary: boundary@ }),
    {
        let r = Form { parts: Vec::new(), boundary };
        assert(r@.parts =~= Seq::<PartView>::empty());
        r
    }

    /// The boundary that delimits the parts.
    pub fn boundary(&self) -> (r: &str)
        ensures
            r@ == self@.boundary,
    {
        self.boundary.as_str()
    }

    /// Adds a part as the last one.
    pub fn part(self, part: Part) -> (r: Form)
        ensures
            r@ == (FormView { parts: self@.parts.push(part@), ..self@ }),
    {
        let mut f = self;
        let ghost pv = part@;
        f.parts.push(part);
        assert(f@.parts =~= self@.parts.push(pv));
        f
    }

    /// Adds a text field.
    pub fn text(self, key: String, value: Vec<u8>) -> (r: Form)
        ensures
            r@.boundary == self@.boundary,
            r@.parts == self@.parts.push(
                PartView { key: key@, value: value@, filename: None, mime: None, headers: Seq::empty() },
            ),
    {
        self.part(Part::new(key, value))
    }

    /// Adds a file's contents, named after the last segment of `path`.
    pub fn file(self, key: String, path: &str, contents: Vec<u8>) -> (r: Form)
        ensures
            r@.boundary == self@.boundary,
            r@.parts == self@.parts.push(
                PartView {
                    key: key@,
                    value: contents@,
                    filename: file_name_of(path@),
                    mime: Some(guessed_media_type(path@)),
                    headers: Seq::empty(),
                },
            ),
    {
        self.part(Part::file(key, path, contents))
    }

    /// The encoded body: each part in order, then `--<boundary>--`.
    pub fn build(self) -> (r: Vec<u8>)
        ensures
            r@ == form_bytes(self@.boundary, self@.parts),
    {
        let mut buf: Vec<u8> = Vec::new();
        let ghost ps = self@.parts;
        let mut i: usize = 0;
        assert(buf@ =~= parts_bytes(self@.boundary, ps.take(0)));
        while i < self.parts.len()
            invariant
                i <= self.parts@.len(),
                ps == self@.parts,
                buf@ == parts_bytes(self@.boundary, ps.take(i as int)),
            decreases self.parts@.len() - i,
        {
            put_part(&mut buf, self.boundary.as_str(), &self.parts[i]);
            proof {
                let t = ps.take(i + 1);
                assert(t.drop_last() =~= ps.take(i as int));
                assert(t.last() == self.parts@[i as int]@);
            }
            i = i + 1;
        }
        assert(ps.take(i as int) =~= ps);
        put_str(&mut buf, "--");
        put_str(&mut buf, self.boundary.as_str());
        put_str(&mut buf, "--");
        buf
    }
}

} // verus!
