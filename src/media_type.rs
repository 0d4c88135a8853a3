//! Media types (`text/plain; charset=utf-8`) as plain values.
use vstd::prelude::*;
use crate::text::{eq_ignore_ascii_case, str_eq_ignore_ascii_case};

verus! {

/// The text of a pair of strings.
pub open spec fn pair_view(p: (String, String)) -> (Seq<char>, Seq<char>) {
    (p.0@, p.1@)
}

/// The text of each pair of a list of string pairs.
pub open spec fn pairs_view(v: Seq<(String, String)>) -> Seq<(Seq<char>, Seq<char>)> {
    v.map_values(|p: (String, String)| pair_view(p))
}

/// What a media type holds: the text it is written as, and its parameters
/// (name and value) in order.
pub type MediaTypeView = (Seq<char>, Seq<(Seq<char>, Seq<char>)>);

/// A parsed media type: its canonical text and its parameters.
#[derive(Clone, Debug, PartialEq, Eq)]
pub struct MediaType {
    pub text: String,
    pub params: Vec<(String, String)>,
}

impl View for MediaType {
    type V = MediaTypeView;

    open spec fn view(&self) -> MediaTypeView {
        (self.text@, pairs_view(self.params@))
    }
}

/// What the `mime` crate makes of a string: `None` where it is no media type,
/// else the text that the parsed value displays and its parameters.
pub uninterp spec fn media_type_of(s: Seq<char>) -> Option<MediaTypeView>;

/// What `mime_guess` infers for a file path, `application/octet-stream`
/// where the extension is unknown.
pub uninterp spec fn guessed_media_type(path: Seq<char>) -> MediaTypeView;

/// The value of the first parameter whose name is `name`, ignoring ASCII case.
pub open spec fn param_of(params: Seq<(Seq<char>, Seq<char>)>, name: Seq<char>) -> Option<Seq<char>>
    decreases params.len(),
{
    if params.len() == 0 {
        None
    } else if eq_ignore_ascii_case(params[0].0, name) {
        Some(params[0].1)
    } else {
        param_of(params.drop_first(), name)
    }
}

/// Relies on `FromStr for mime::Mime`: whether `s` parses, and then the
/// parsed value's `Display` text and its `params()`.
#[verifier::external_body]
fn parse_mime(s: &str) -> (r: Option<MediaType>)
    ensures
        r is Some <==> media_type_of(s@) is Some,
        r matches Some(m) ==> m@ == media_type_of(s@)->0,
{
    let m = s.parse::<mime::Mime>().ok()?;
    let params = m.params().map(|(k, v)| (k.as_str().to_string(), v.as_str().to_string()));
    Some(MediaType { text: m.to_string(), params: params.collect() })
}

/// Relies on `mime_guess::from_path(..).first_or_octet_stream()`: the media
/// type inferred from the extension of `path`.
#[verifier::external_body]
fn guess_mime(path: &str) -> (r: MediaType)
    ensures
        r@ == guessed_media_type(path@),
{
    let m = mime_guess::from_path(path).first_or_octet_stream();
    let params = m.params().map(|(k, v)| (k.as_str().to_string(), v.as_str().to_string()));
    MediaType { text: m.to_string(), params: params.collect() }
}

impl MediaType {
    /// Parses a media type such as `text/plain; charset=utf-8`.
    pub fn parse(s: &str) -> (r: Option<MediaType>)
        ensures
            r is Some <==> media_type_of(s@) is Some,
            r matches Some(m) ==> m@ == media_type_of(s@)->0,
    {
        parse_mime(s)
    }

    /// The media type that the extension of `path` suggests.
    pub fn guess_from_path(path: &str) -> (r: MediaType)
        ensures
            r@ == guessed_media_type(path@),
    {
        guess_mime(path)
    }

    /// The text of this media type.
    pub fn as_str(&self) -> (r: &str)
        ensures
            r@ == self.text@,
    {
        self.text.as_str()
    }

    /// The value of the parameter called `name`, compared without regard to
    /// ASCII case; the first such parameter wins.
    pub fn get_param(&self, name: &str) -> (r: Option<&String>)
        ensures
            r matches Some(v) ==> param_of(self@.1, name@) == Some(v@),
            r is None ==> param_of(self@.1, name@) is None,
    {
        let mut i: usize = 0;
        assert(self@.1.skip(0) =~= self@.1);
        while i < self.params.len()
            invariant
                i <= self.params@.len(),
                param_of(self@.1, name@) == param_of(self@.1.skip(i as int), name@),
            decreases self.params@.len() - i,
        {
            let p = &self.params[i];
            proof {
                assert(self@.1.skip(i as int).drop_first() =~= self@.1.skip(i + 1));
                assert(self@.1.skip(i as int)[0] == pair_view(self.params@[i as int]));
            }
            if str_eq_ignore_ascii_case(p.0.as_str(), name) {
                return Some(&p.1);
            }
            i = i + 1;
        }
        proof {
            assert(self@.1.skip(i as int).len() == 0);
        }
        None
    }
}

} // verus!
