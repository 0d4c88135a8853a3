//! Decoding of multipart/form-data bodies.
use vstd::prelude::*;
use crate::media_type::{media_type_of, param_of};
use vstd::string::StringExecFns;
use crate::media_type::MediaType;
use crate::header::{header_set, set_header};
use crate::multipart::{parts_view, Part, PartView};
use crate::text::{str_eq_ignore_ascii_case, utf8_string};
use crate::text::eq_ignore_ascii_case;
use crate::search::{find, first_occurrence, occurs_at, is_first_occurrence};
use vstd::utf8::{decode_utf8, valid_utf8, encode_utf8, is_ascii_chars, is_ascii_chars_encode_utf8};

verus! {

proof fn lemma_literal_bytes()
    ensures
        encode_utf8("\r\n"@) == seq![13u8, 10u8],
        encode_utf8("\r\n\r\n"@) == seq![13u8, 10u8, 13u8, 10u8],
        encode_utf8("--"@) == seq![45u8, 45u8],
{
    reveal_strlit("\r\n");
    reveal_strlit("\r\n\r\n");
    reveal_strlit("--");
    let a = "\r\n"@;
    let b = "\r\n\r\n"@;
    let c = "--"@;
    assert(is_ascii_chars(a));
    assert(is_ascii_chars(b));
    assert(is_ascii_chars(c));
    is_ascii_chars_encode_utf8(a);
    is_ascii_chars_encode_utf8(b);
    is_ascii_chars_encode_utf8(c);
    assert(encode_utf8(a) =~= seq![13u8, 10u8]);
    assert(encode_utf8(b) =~= seq![13u8, 10u8, 13u8, 10u8]);
    assert(encode_utf8(c) =~= seq![45u8, 45u8]);
}

/// Why a multipart body could not be decoded.
#[derive(Clone, Copy, Debug, PartialEq, Eq)]
pub enum DecodeError {
    /// The opening delimiter, or the delimiter after a part, is absent.
    MissingBoundary,
    /// A part's header block has no blank line that ends it.
    IncompleteHeaders,
    /// A part's header block is not a list of `Name: Value` lines.
    MalformedHeaderSyntax,
    /// A Content-Disposition header has no `name` parameter.
    MissingName,
    /// No delimiter ends a part's value.
    IncompleteBody,
    /// A header value is not UTF-8, or a media type does not parse.
    InvalidHeaderEncoding,
}

/// The most header lines that one part may have.
pub const MAX_HEADERS: usize = 32;

/// What `httparse` makes of a header block with room for `max` headers: the
/// name and raw value of each line in order, or `None` where the block is
/// not a complete, well-formed list of at most `max` header lines.
pub uninterp spec fn header_lines(block: Seq<u8>, max: nat) -> Option<Seq<(Seq<char>, Seq<u8>)>>;

/// The name and bytes of each header line.
pub open spec fn lines_view(v: Seq<(String, Vec<u8>)>) -> Seq<(Seq<char>, Seq<u8>)> {
    v.map_values(|l: (String, Vec<u8>)| (l.0@, l.1@))
}

/// Relies on `httparse::parse_headers`: the header lines of `block`, where it
/// is complete and well-formed and has at most `max` lines.
#[verifier::external_body]
fn parse_header_block(block: &[u8], max: usize) -> (r: Option<Vec<(String, Vec<u8>)>>)
    ensures
        match header_lines(block@, max as nat) {
            Some(ls) => r matches Some(v) && lines_view(v@) == ls,
            None => r is None,
        },
{
    let mut headers = vec![httparse::EMPTY_HEADER; max];
    match httparse::parse_headers(block, &mut headers) {
        Ok(httparse::Status::Complete((_, hs))) => {
            Some(hs.iter().map(|h| (h.name.to_string(), h.value.to_vec())).collect())
        },
        _ => None,
    }
}

/// A part with no name, no value and nothing else.
pub open spec fn empty_part() -> PartView {
    PartView { key: Seq::empty(), value: Seq::empty(), filename: None, mime: None, headers: Seq::empty() }
}

/// `p` with the Content-Disposition value `v` taken in: its `name` and
/// `filename` parameters, read as those of the media type `multipart/<v>`.
pub open spec fn disposition_applied(p: PartView, v: Seq<char>) -> Result<PartView, DecodeError> {
    match media_type_of("multipart/"@ + v) {
        None => Err(DecodeError::InvalidHeaderEncoding),
        Some(m) => match param_of(m.1, "name"@) {
            None => Err(DecodeError::MissingName),
            Some(k) => Ok(PartView { key: k, filename: param_of(m.1, "filename"@), ..p }),
        },
    }
}

/// `p` with the Content-Type value `v` taken in as its media type.
pub open spec fn content_type_applied(p: PartView, v: Seq<char>) -> Result<PartView, DecodeError> {
    match media_type_of(v) {
        None => Err(DecodeError::InvalidHeaderEncoding),
        Some(m) => Ok(PartView { mime: Some(m), ..p }),
    }
}

/// `p` with one header line taken in: the line is kept among the part's
/// headers, and a Content-Disposition or Content-Type line (in any ASCII
/// case) also sets the name, file name or media type.
pub open spec fn header_applied(p: PartView, name: Seq<char>, raw: Seq<u8>) -> Result<PartView, DecodeError> {
    if !valid_utf8(raw) {
        Err(DecodeError::InvalidHeaderEncoding)
    } else {
        let v = decode_utf8(raw);
        let named = if eq_ignore_ascii_case(name, "Content-Disposition"@) {
            disposition_applied(p, v)
        } else {
            Ok(p)
        };
        match named {
            Err(e) => Err(e),
            Ok(named) => {
                let typed = if eq_ignore_ascii_case(name, "Content-Type"@) {
                    content_type_applied(named, v)
                } else {
                    Ok(named)
                };
                match typed {
                    Err(e) => Err(e),
                    Ok(typed) => Ok(PartView { headers: header_set(typed.headers, name, v), ..typed }),
                }
            },
        }
    }
}

/// `p` with each header line taken in, in order.
pub open spec fn headers_decoded(p: PartView, lines: Seq<(Seq<char>, Seq<u8>)>) -> Result<PartView, DecodeError>
    decreases lines.len(),
{
    if lines.len() == 0 {
        Ok(p)
    } else {
        match header_applied(p, lines[0].0, lines[0].1) {
            Err(e) => Err(e),
            Ok(named) => headers_decoded(named, lines.drop_first()),
        }
    }
}

/// Line break.
pub open spec fn crlf() -> Seq<u8> {
    encode_utf8("\r\n"@)
}

/// Blank line that ends a header block.
pub open spec fn crlf_crlf() -> Seq<u8> {
    encode_utf8("\r\n\r\n"@)
}

/// The two dashes before a boundary, and after the last one.
pub open spec fn dashes() -> Seq<u8> {
    encode_utf8("--"@)
}

/// The delimiter `--<boundary>`.
pub open spec fn delimiter(boundary: Seq<char>) -> Seq<u8> {
    dashes() + encode_utf8(boundary)
}

/// The parts of `rest`, which follows a delimiter line: each is a header
/// block that ends in a blank line, then its value up to the next
/// `\r\n<delim>`. After the delimiter, `--` ends the body; otherwise two
/// more bytes (the line break) are skipped and the next part follows.
pub open spec fn parts_decoded(rest: Seq<u8>, delim: Seq<u8>) -> Result<Seq<PartView>, DecodeError>
    decreases rest.len(),
    via parts_decoded_decreases
{
    match first_occurrence(rest, crlf_crlf()) {
        None => Err(DecodeError::IncompleteHeaders),
        Some(h) => {
            let end = h + crlf_crlf().len();
            let rest1 = rest.skip(end);
            match header_lines(rest.take(end), MAX_HEADERS as nat) {
                None => Err(DecodeError::MalformedHeaderSyntax),
                Some(lines) => match headers_decoded(empty_part(), lines) {
                    Err(e) => Err(e),
                    Ok(p) => match first_occurrence(rest1, crlf() + delim) {
                        None => Err(DecodeError::IncompleteBody),
                        Some(v) => {
                            let part = PartView { value: rest1.take(v), ..p };
                            let rest2 = rest1.skip(v);
                            match first_occurrence(rest2, delim) {
                                None => Err(DecodeError::MissingBoundary),
                                Some(b) => {
                                    let rest3 = rest2.skip(b + delim.len());
                                    if rest3.len() < 2 {
                                        Err(DecodeError::IncompleteBody)
                                    } else if rest3.take(2) == dashes() {
                                        Ok(seq![part])
                                    } else {
                                        match parts_decoded(rest3.skip(2), delim) {
                                            Err(e) => Err(e),
                                            Ok(ps) => Ok(seq![part] + ps),
                                        }
                                    }
                                },
                            }
                        },
                    },
                },
            }
        },
    }
}

#[via_fn]
proof fn parts_decoded_decreases(rest: Seq<u8>, delim: Seq<u8>) {
    lemma_literal_bytes();
}

/// The parts of a multipart `body` delimited by `boundary`, in the order in
/// which they come: everything up to the first `--<boundary>\r\n` is
/// skipped.
pub open spec fn decoded_parts(body: Seq<u8>, boundary: Seq<char>) -> Result<Seq<PartView>, DecodeError> {
    let delim = delimiter(boundary);
    match first_occurrence(body, delim + crlf()) {
        None => Err(DecodeError::MissingBoundary),
        Some(o) => parts_decoded(body.skip(o + delim.len() + crlf().len()), delim),
    }
}

/// Parts keyed by name; of two parts with one name, the later one stays.
pub open spec fn parts_by_key(ps: Seq<PartView>) -> Map<Seq<char>, PartView>
    decreases ps.len(),
{
    if ps.len() == 0 {
        Map::empty()
    } else {
        parts_by_key(ps.drop_last()).insert(ps.last().key, ps.last())
    }
}

/// A forward-only cursor over a byte sequence: what has been read is gone.
struct Buffer {
    buf: Vec<u8>,
    pos: usize,
}

impl Buffer {
    /// The bytes not read yet.
    closed spec fn rest(&self) -> Seq<u8> {
        self.buf@.skip(self.pos as int)
    }

    closed spec fn wf(&self) -> bool {
        self.pos <= self.buf@.len()
    }

    fn new(data: &[u8]) -> (r: Buffer)
        ensures
            r.wf(),
            r.rest() == data@,
    {
        let mut buf: Vec<u8> = Vec::new();
        buf.extend_from_slice(data);
        let r = Buffer { buf, pos: 0 };
        assert(r.rest() =~= data@);
        r
    }

    fn remaining(&self) -> (r: &[u8])
        requires
            self.wf(),
        ensures
            r@ == self.rest(),
    {
        let s = self.buf.as_slice();
        &s[self.pos..s.len()]
    }

    /// The next `size` bytes, without reading them.
    fn peek_exact(&self, size: usize) -> (r: Option<&[u8]>)
        requires
            self.wf(),
        ensures
            size <= self.rest().len() ==> (r matches Some(b) && b@ == self.rest().take(size as int)),
            size > self.rest().len() ==> r is None,
    {
        let rest = self.remaining();
        if size <= rest.len() {
            Some(&rest[0..size])
        } else {
            None
        }
    }

    /// Reads through the first occurrence of `pattern`, which it returns
    /// with what came before it; reads nothing where `pattern` is absent.
    fn read_until(&mut self, pattern: &[u8]) -> (r: Option<Vec<u8>>)
        requires
            old(self).wf(),
        ensures
            final(self).wf(),
            match first_occurrence(old(self).rest(), pattern@) {
                Some(i) => r matches Some(b) && b@ == old(self).rest().take(i + pattern@.len())
                    && final(self).rest() == old(self).rest().skip(i + pattern@.len()),
                None => r is None && final(self).rest() == old(self).rest(),
            },
    {
        let total = self.buf.len();
        let rest = self.remaining();
        assert(total - self.pos == rest@.len());
        match find(rest, pattern) {
            Some(i) => {
                let end = i + pattern.len();
                let mut out: Vec<u8> = Vec::new();
                out.extend_from_slice(&rest[0..end]);
                self.pos = self.pos + end;
                assert(out@ =~= old(self).rest().take(end as int));
                assert(self.rest() =~= old(self).rest().skip(end as int));
                Some(out)
            },
            None => None,
        }
    }

    /// Reads up to the first occurrence of `pattern` and returns what it
    /// read; the pattern itself stays. Reads nothing where it is absent.
    fn read_to(&mut self, pattern: &[u8]) -> (r: Option<Vec<u8>>)
        requires
            old(self).wf(),
        ensures
            final(self).wf(),
            match first_occurrence(old(self).rest(), pattern@) {
                Some(i) => r matches Some(b) && b@ == old(self).rest().take(i)
                    && final(self).rest() == old(self).rest().skip(i),
                None => r is None && final(self).rest() == old(self).rest(),
            },
    {
        let total = self.buf.len();
        let rest = self.remaining();
        assert(total - self.pos == rest@.len());
        match find(rest, pattern) {
            Some(i) => {
                let mut out: Vec<u8> = Vec::new();
                out.extend_from_slice(&rest[0..i]);
                self.pos = self.pos + i;
                assert(out@ =~= old(self).rest().take(i as int));
                assert(self.rest() =~= old(self).rest().skip(i as int));
                Some(out)
            },
            None => None,
        }
    }

    /// Discards the next `n` bytes.
    fn advance(&mut self, n: usize)
        requires
            old(self).wf(),
            n <= old(self).rest().len(),
        ensures
            final(self).wf(),
            final(self).rest() == old(self).rest().skip(n as int),
    {
        let total = self.buf.len();
        assert(total - self.pos == old(self).rest().len());
        self.pos = self.pos + n;
        assert(self.rest() =~= old(self).rest().skip(n as int));
    }
}

/// Decoded parts, keyed by name.
pub struct PartMap {
    entries: Vec<Part>,
}

/// The names of `ps` are distinct.
pub open spec fn keys_unique(ps: Seq<PartView>) -> bool {
    forall|i: int, j: int| 0 <= i < j < ps.len() ==> ps[i].key != ps[j].key
}

/// Where `ps[i]` is the last part named `ps[i].key`, the map holds it under
/// that name.
pub proof fn lemma_later_part_wins(ps: Seq<PartView>, i: int)
    requires
        0 <= i < ps.len(),
        forall|j: int| i < j < ps.len() ==> ps[j].key != ps[i].key,
    ensures
        parts_by_key(ps).contains_key(ps[i].key),
        parts_by_key(ps)[ps[i].key] == ps[i],
    decreases ps.len(),
{
    if i < ps.len() - 1 {
        let d = ps.drop_last();
        assert forall|j: int| i < j < d.len() implies d[j].key != d[i].key by {
            assert(d[j] == ps[j]);
        }
        lemma_later_part_wins(d, i);
    }
}

/// A name that no part has is not in the map.
pub proof fn lemma_absent_key(ps: Seq<PartView>, k: Seq<char>)
    requires
        forall|j: int| 0 <= j < ps.len() ==> ps[j].key != k,
    ensures
        !parts_by_key(ps).contains_key(k),
    decreases ps.len(),
{
    if ps.len() > 0 {
        let d = ps.drop_last();
        assert forall|j: int| 0 <= j < d.len() implies d[j].key != k by {
            assert(d[j] == ps[j]);
        }
        lemma_absent_key(d, k);
    }
}

proof fn lemma_replace_part(ps: Seq<PartView>, i: int, p: PartView)
    requires
        keys_unique(ps),
        0 <= i < ps.len(),
        ps[i].key == p.key,
    ensures
        parts_by_key(ps.update(i, p)) == parts_by_key(ps).insert(p.key, p),
    decreases ps.len(),
{
    let u = ps.update(i, p);
    if i == ps.len() - 1 {
        assert(u.drop_last() =~= ps.drop_last());
        assert(parts_by_key(u) =~= parts_by_key(ps).insert(p.key, p));
    } else {
        let d = ps.drop_last();
        assert(u.drop_last() =~= d.update(i, p));
        lemma_replace_part(d, i, p);
        assert(ps.last().key != p.key);
        assert(parts_by_key(u) =~= parts_by_key(ps).insert(p.key, p));
    }
}

impl View for PartMap {
    type V = Map<Seq<char>, PartView>;

    closed spec fn view(&self) -> Map<Seq<char>, PartView> {
        parts_by_key(parts_view(self.entries@))
    }
}

impl PartMap {
    #[verifier::type_invariant]
    closed spec fn inv(&self) -> bool {
        keys_unique(parts_view(self.entries@))
    }

    fn new() -> (r: PartMap)
        ensures
            r@ == Map::<Seq<char>, PartView>::empty(),
    {
        let r = PartMap { entries: Vec::new() };
        assert(parts_view(r.entries@) =~= Seq::<PartView>::empty());
        r
    }

    /// Puts `part` under its name, in place of any part of that name.
    fn insert(self, part: Part) -> (r: PartMap)
        ensures
            r@ == self@.insert(part@.key, part@),
    {
        proof {
            use_type_invariant(&self);
        }
        let ghost pv = part@;
        let ghost es = parts_view(self.entries@);
        let PartMap { mut entries } = self;
        let mut i: usize = 0;
        while i < entries.len()
            invariant
                i <= entries@.len(),
                es == parts_view(entries@),
                keys_unique(es),
                forall|k: int| 0 <= k < i ==> es[k].key != pv.key,
                pv == part@,
                es == parts_view(self.entries@),
            decreases entries@.len() - i,
        {
            proof {
                assert(es[i as int] == entries@[i as int]@);
            }
            if entries[i].key == part.key {
                proof {
                    lemma_replace_part(es, i as int, pv);
                }
                entries.set(i, part);
                proof {
                    assert(parts_view(entries@) =~= es.update(i as int, pv));
                    assert(parts_view(entries@) == parts_view(entries@));
                    assert forall|a: int, b: int| 0 <= a < b < es.len() implies
                        es.update(i as int, pv)[a].key != es.update(i as int, pv)[b].key by {
                    }
                }
                return PartMap { entries };
            }
            i = i + 1;
        }
        entries.push(part);
        proof {
            let n = parts_view(entries@);
            assert(n =~= es.push(pv));
            assert(n.drop_last() =~= es);
            assert forall|a: int, b: int| 0 <= a < b < n.len() implies n[a].key != n[b].key by {
                if b == n.len() - 1 {
                    assert(n[a] == es[a]);
                }
            }
        }
        PartMap { entries }
    }

    /// The part named `key`.
    pub fn get(&self, key: &str) -> (r: Option<&Part>)
        ensures
            r matches Some(p) ==> self@.contains_key(key@) && self@[key@] == p@,
            r is None ==> !self@.contains_key(key@),
    {
        proof {
            use_type_invariant(self);
        }
        let ghost es = parts_view(self.entries@);
        let k = key.to_owned();
        let mut i: usize = 0;
        while i < self.entries.len()
            invariant
                i <= self.entries@.len(),
                es == parts_view(self.entries@),
                keys_unique(es),
                forall|j: int| 0 <= j < i ==> es[j].key != key@,
                k@ == key@,
            decreases self.entries@.len() - i,
        {
            proof {
                assert(es[i as int] == self.entries@[i as int]@);
            }
            if self.entries[i].key == k {
                proof {
                    lemma_later_part_wins(es, i as int);
                }
                return Some(&self.entries[i]);
            }
            i = i + 1;
        }
        proof {
            lemma_absent_key(es, key@);
        }
        None
    }

    /// The number of parts.
    pub fn len(&self) -> (r: usize)
        ensures
            r == self@.len(),
    {
        proof {
            use_type_invariant(self);
            lemma_unique_len(parts_view(self.entries@));
        }
        self.entries.len()
    }
}

proof fn lemma_unique_len(ps: Seq<PartView>)
    requires
        keys_unique(ps),
    ensures
        parts_by_key(ps).len() == ps.len(),
        parts_by_key(ps).dom().finite(),
    decreases ps.len(),
{
    if ps.len() > 0 {
        let d = ps.drop_last();
        lemma_unique_len(d);
        assert forall|j: int| 0 <= j < d.len() implies d[j].key != ps.last().key by {
            assert(d[j] == ps[j]);
        }
        lemma_absent_key(d, ps.last().key);
    }
}

/// Takes one header line of a part in, as `header_applied` says.
fn apply_header(part: &mut Part, name: &str, raw: &[u8]) -> (r: Result<(), DecodeError>)
    ensures
        match header_applied(old(part)@, name@, raw@) {
            Ok(q) => r is Ok && final(part)@ == q,
            Err(e) => r == Err::<(), DecodeError>(e),
        },
{
    let value = match utf8_string(raw) {
        None => {
            return Err(DecodeError::InvalidHeaderEncoding);
        },
        Some(v) => v,
    };
    if str_eq_ignore_ascii_case(name, "Content-Disposition") {
        let mut text = String::from_str("multipart/");
        text.append(value.as_str());
        let m = match MediaType::parse(text.as_str()) {
            None => {
                return Err(DecodeError::InvalidHeaderEncoding);
            },
            Some(m) => m,
        };
        let key = match m.get_param("name") {
            None => {
                return Err(DecodeError::MissingName);
            },
            Some(k) => k.clone(),
        };
        let filename = match m.get_param("filename") {
            None => None,
            Some(f) => Some(f.clone()),
        };
        part.key = key;
        part.filename = filename;
    }
    if str_eq_ignore_ascii_case(name, "Content-Type") {
        match MediaType::parse(value.as_str()) {
            None => {
                return Err(DecodeError::InvalidHeaderEncoding);
            },
            Some(m) => {
                part.mime = Some(m);
            },
        }
    }
    set_header(&mut part.headers, name.to_owned(), value);
    Ok(())
}

/// Appends the UTF-8 bytes of `s` to `buf`.
fn push_str_bytes(buf: &mut Vec<u8>, s: &str)
    ensures
        final(buf)@ == old(buf)@ + encode_utf8(s@),
{
    buf.extend_from_slice(s.as_bytes());
    assert(final(buf)@ =~= old(buf)@ + encode_utf8(s@));
}

/// Takes in the header lines of one part, in order.
fn apply_headers(part: &mut Part, lines: &Vec<(String, Vec<u8>)>) -> (r: Result<(), DecodeError>)
    ensures
        match headers_decoded(old(part)@, lines_view(lines@)) {
            Ok(q) => r is Ok && final(part)@ == q,
            Err(e) => r == Err::<(), DecodeError>(e),
        },
{
    let ghost lv = lines_view(lines@);
    let ghost target = headers_decoded(part@, lv);
    let mut i: usize = 0;
    assert(lv.skip(0) =~= lv);
    while i < lines.len()
        invariant
            i <= lines@.len(),
            lv == lines_view(lines@),
            target == headers_decoded(old(part)@, lv),
            target == headers_decoded(part@, lv.skip(i as int)),
        decreases lines@.len() - i,
    {
        proof {
            assert(lv.skip(i as int)[0] == (lines@[i as int].0@, lines@[i as int].1@));
            assert(lv.skip(i as int).drop_first() =~= lv.skip(i + 1));
        }
        let r = apply_header(part, lines[i].0.as_str(), lines[i].1.as_slice());
        if r.is_err() {
            return r;
        }
        i = i + 1;
    }
    assert(lv.skip(i as int).len() == 0);
    Ok(())
}

/// Decodes a multipart body whose parts are delimited by `boundary`, keyed
/// by the `name` of each part's Content-Disposition; of two parts with one
/// name, the later one is kept.
pub fn parse(body: &[u8], boundary: &str) -> (r: Result<PartMap, DecodeError>)
    ensures
        match decoded_parts(body@, boundary@) {
            Ok(ps) => r matches Ok(m) && m@ == parts_by_key(ps),
            Err(e) => r matches Err(e2) && e2 == e,
        },
{
    proof {
        lemma_literal_bytes();
    }
    let mut buffer = Buffer::new(body);
    let mut delim: Vec<u8> = Vec::new();
    push_str_bytes(&mut delim, "--");
    push_str_bytes(&mut delim, boundary);
    let mut opening: Vec<u8> = Vec::new();
    opening.extend_from_slice(delim.as_slice());
    push_str_bytes(&mut opening, "\r\n");
    let mut closing: Vec<u8> = Vec::new();
    push_str_bytes(&mut closing, "\r\n");
    closing.extend_from_slice(delim.as_slice());
    assert(delim@ =~= delimiter(boundary@));
    assert(opening@ =~= delimiter(boundary@) + crlf());
    assert(closing@ =~= crlf() + delimiter(boundary@));
    let ghost spec_result = decoded_parts(body@, boundary@);

    if buffer.read_until(opening.as_slice()).is_none() {
        return Err(DecodeError::MissingBoundary);
    }
    let mut parts = PartMap::new();
    let ghost mut done: Seq<PartView> = Seq::empty();
    assert(parts_by_key(done) =~= Map::<Seq<char>, PartView>::empty());
    assert(done + Seq::<PartView>::empty() =~= done);
    proof {
        match parts_decoded(buffer.rest(), delim@) {
            Ok(t) => { assert(done + t =~= t); },
            Err(_) => {},
        }
    }
    loop
        invariant
            buffer.wf(),
            delim@ == delimiter(boundary@),
            closing@ == crlf() + delim@,
            crlf() == seq![13u8, 10u8],
            crlf_crlf() == seq![13u8, 10u8, 13u8, 10u8],
            dashes() == seq![45u8, 45u8],
            spec_result == decoded_parts(body@, boundary@),
            parts@ == parts_by_key(done),
            spec_result == match parts_decoded(buffer.rest(), delim@) {
                Ok(t) => Ok(done + t),
                Err(e) => Err(e),
            },
        decreases buffer.rest().len(),
    {
        let ghost rest = buffer.rest();
        let header_bytes = match buffer.read_until("\r\n\r\n".as_bytes()) {
            None => {
                return Err(DecodeError::IncompleteHeaders);
            },
            Some(b) => b,
        };
        let lines = match parse_header_block(header_bytes.as_slice(), MAX_HEADERS) {
            None => {
                return Err(DecodeError::MalformedHeaderSyntax);
            },
            Some(l) => l,
        };
        let mut part = Part::new(String::new(), Vec::new());
        match apply_headers(&mut part, &lines) {
            Err(e) => {
                return Err(e);
            },
            Ok(()) => {},
        }
        let ghost rest1 = buffer.rest();
        part.value = match buffer.read_to(closing.as_slice()) {
            None => {
                return Err(DecodeError::IncompleteBody);
            },
            Some(v) => v,
        };
        let ghost rest2 = buffer.rest();
        if buffer.read_until(delim.as_slice()).is_none() {
            return Err(DecodeError::MissingBoundary);
        }
        let ghost rest3 = buffer.rest();
        let is_last = match buffer.peek_exact(2) {
            None => {
                return Err(DecodeError::IncompleteBody);
            },
            Some(next) => next[0] == 45u8 && next[1] == 45u8,
        };
        let ghost pv = part@;
        parts = parts.insert(part);
        proof {
            assert(done.push(pv).drop_last() =~= done);
            if is_last {
                assert(rest3.take(2) =~= dashes());
            } else {
                assert(rest3.take(2) != dashes()) by {
                    if rest3.take(2) == dashes() {
                        assert(rest3.take(2)[0] == rest3[0]);
                        assert(rest3.take(2)[1] == rest3[1]);
                    }
                }
            }
        }
        if is_last {
            proof {
                assert(done + seq![pv] =~= done.push(pv));
            }
            return Ok(parts);
        }
        buffer.advance(2);
        proof {
            match parts_decoded(buffer.rest(), delim@) {
                Ok(t) => { assert(done + (seq![pv] + t) =~= done.push(pv) + t); },
                Err(_) => {},
            }
            done = done.push(pv);
        }
    }
}

proof fn lemma_occurs_in_suffix(s: Seq<u8>, k: int, pat: Seq<u8>, i: int)
    requires
        0 <= k <= s.len(),
        occurs_at(s.skip(k), pat, i),
    ensures
        occurs_at(s, pat, i + k),
{
    assert(s.skip(k).subrange(i, i + pat.len()) =~= s.subrange(i + k, i + k + pat.len()));
}

proof fn lemma_decoded_rest_has_terminator(rest: Seq<u8>, delim: Seq<u8>)
    requires
        parts_decoded(rest, delim) is Ok,
    ensures
        exists|i: int| occurs_at(rest, delim + dashes(), i),
    decreases rest.len(),
{
    lemma_literal_bytes();
    let h = first_occurrence(rest, crlf_crlf())->0;
    let end = h + crlf_crlf().len();
    let rest1 = rest.skip(end);
    let v = first_occurrence(rest1, crlf() + delim)->0;
    let rest2 = rest1.skip(v);
    let b = first_occurrence(rest2, delim)->0;
    let rest3 = rest2.skip(b + delim.len());
    let kh = choose|i: int| is_first_occurrence(rest, crlf_crlf(), i);
    let kv = choose|i: int| is_first_occurrence(rest1, crlf() + delim, i);
    let kb = choose|i: int| is_first_occurrence(rest2, delim, i);
    assert(occurs_at(rest2, delim, b));
    assert(rest3.len() >= 2);
    if rest3.take(2) == dashes() {
        assert(rest2.subrange(b, b + delim.len() + 2) =~= delim + dashes()) by {
            assert(rest2.subrange(b, b + delim.len()) == delim);
        }
        assert(occurs_at(rest2, delim + dashes(), b));
        assert(rest1.skip(v) == rest2);
        lemma_occurs_in_suffix(rest1, v, delim + dashes(), b);
        lemma_occurs_in_suffix(rest, end, delim + dashes(), b + v);
        assert(occurs_at(rest, delim + dashes(), b + v + end));
    } else {
        lemma_decoded_rest_has_terminator(rest3.skip(2), delim);
        let i = choose|i: int| occurs_at(rest3.skip(2), delim + dashes(), i);
        lemma_occurs_in_suffix(rest3, 2, delim + dashes(), i);
        lemma_occurs_in_suffix(rest2, b + delim.len(), delim + dashes(), i + 2);
        assert(rest2.skip(b + delim.len()) == rest3);
        lemma_occurs_in_suffix(rest1, v, delim + dashes(), i + 2 + b + delim.len());
        lemma_occurs_in_suffix(rest, end, delim + dashes(), i + 2 + b + delim.len() + v);
        assert(occurs_at(rest, delim + dashes(), i + 2 + b + delim.len() + v + end));
    }
}

/// A body in which `--<boundary>--` never occurs does not decode: it fails
/// rather than yield the parts before the missing terminator.
pub proof fn lemma_unterminated_body_fails(body: Seq<u8>, boundary: Seq<char>)
    requires
        forall|i: int| !occurs_at(body, delimiter(boundary) + dashes(), i),
    ensures
        decoded_parts(body, boundary) is Err,
{
    let delim = delimiter(boundary);
    if let Some(o) = first_occurrence(body, delim + crlf()) {
        let k = choose|i: int| is_first_occurrence(body, delim + crlf(), i);
        let start = o + delim.len() + crlf().len();
        if parts_decoded(body.skip(start), delim) is Ok {
            lemma_decoded_rest_has_terminator(body.skip(start), delim);
            let i = choose|i: int| occurs_at(body.skip(start), delim + dashes(), i);
            lemma_occurs_in_suffix(body, start, delim + dashes(), i);
        }
    }
}

/// Decoding depends on the body and the boundary alone: decoding the same
/// bytes twice gives the same result.
pub proof fn lemma_decode_idempotent(body: Seq<u8>, again: Seq<u8>, boundary: Seq<char>)
    requires
        again == body,
    ensures
        decoded_parts(again, boundary) == decoded_parts(body, boundary),
{
}

} // verus!
