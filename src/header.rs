//! HTTP header names and values, and ordered header lists.
use vstd::prelude::*;
use vstd::utf8::encode_utf8;
use crate::media_type::{pair_view, pairs_view};

verus! {

/// The text of an optional string.
pub open spec fn opt_view(s: Option<String>) -> Option<Seq<char>> {
    match s {
        Some(s) => Some(s@),
        None => None,
    }
}

/// Why a header could not be set.
#[derive(Clone, Copy, Debug, PartialEq, Eq)]
pub enum HeaderError {
    /// The name is not a valid HTTP header name.
    InvalidName,
    /// The value holds a byte that a header value may not hold.
    InvalidValue,
}

/// What the `http` crate makes of a header name: its lower-case form, or
/// `None` where it is not a valid header name.
pub uninterp spec fn header_name_of(name: Seq<char>) -> Option<Seq<char>>;

/// A byte that an HTTP header value may hold: visible ASCII, space, tab, or
/// any byte from 128 up.
pub open spec fn is_header_value_byte(b: u8) -> bool {
    (b >= 32 && b != 127) || b == 9
}

/// `v` can be sent as an HTTP header value.
pub open spec fn is_header_value(v: Seq<char>) -> bool {
    forall|i: int| 0 <= i < encode_utf8(v).len() ==> is_header_value_byte(#[trigger] encode_utf8(v)[i])
}

/// Relies on `http::HeaderName::from_bytes`: the normalised (lower-case)
/// name, or `None` where `name` is not a valid header name.
#[verifier::external_body]
pub(crate) fn normalize_header_name(name: &str) -> (r: Option<String>)
    ensures
        opt_view(r) == header_name_of(name@),
{
    http::HeaderName::from_bytes(name.as_bytes()).ok().map(|n| n.as_str().to_string())
}

/// Relies on `http::HeaderValue::from_str`, which accepts a value exactly
/// when every byte is a tab, or at least 32 and not 127.
#[verifier::external_body]
pub(crate) fn header_value_ok(value: &str) -> (r: bool)
    ensures
        r == is_header_value(value@),
{
    http::HeaderValue::from_str(value).is_ok()
}

/// `hs` with the header `(name, value)` set: the first header of that name
/// keeps its place and takes the new value; where there is none, the header
/// is added last.
pub open spec fn header_set(hs: Seq<(Seq<char>, Seq<char>)>, name: Seq<char>, value: Seq<char>) -> Seq<(Seq<char>, Seq<char>)>
    decreases hs.len(),
{
    if hs.len() == 0 {
        seq![(name, value)]
    } else if hs[0].0 == name {
        hs.update(0, (name, value))
    } else {
        seq![hs[0]] + header_set(hs.drop_first(), name, value)
    }
}

proof fn lemma_header_set_at(hs: Seq<(Seq<char>, Seq<char>)>, name: Seq<char>, value: Seq<char>, i: int)
    requires
        0 <= i <= hs.len(),
        forall|k: int| 0 <= k < i ==> hs[k].0 != name,
        i < hs.len() ==> hs[i].0 == name,
    ensures
        header_set(hs, name, value) == if i < hs.len() {
            hs.update(i, (name, value))
        } else {
            hs.push((name, value))
        },
    decreases hs.len(),
{
    if hs.len() == 0 {
        assert(seq![(name, value)] =~= hs.push((name, value)));
    } else if i == 0 {
    } else {
        let t = hs.drop_first();
        assert forall|k: int| 0 <= k < i - 1 implies t[k].0 != name by {
            assert(t[k] == hs[k + 1]);
        }
        lemma_header_set_at(t, name, value, i - 1);
        if i < hs.len() {
            assert(seq![hs[0]] + t.update(i - 1, (name, value)) =~= hs.update(i, (name, value)));
        } else {
            assert(seq![hs[0]] + t.push((name, value)) =~= hs.push((name, value)));
        }
    }
}

/// Sets header `name` to `value` in `hs`.
pub fn set_header(hs: &mut Vec<(String, String)>, name: String, value: String)
    ensures
        pairs_view(final(hs)@) == header_set(pairs_view(old(hs)@), name@, value@),
{
    let ghost old_v = pairs_view(hs@);
    let mut i: usize = 0;
    while i < hs.len()
        invariant
            i <= hs@.len(),
            pairs_view(hs@) == old_v,
            old_v == pairs_view(old(hs)@),
            forall|k: int| 0 <= k < i ==> old_v[k].0 != name@,
        decreases hs@.len() - i,
    {
        if hs[i].0 == name {
            let ghost nv = name@;
            let ghost vv = value@;
            proof {
                assert(old_v[i as int] == pair_view(hs@[i as int]));
                lemma_header_set_at(old_v, nv, vv, i as int);
            }
            hs.set(i, (name, value));
            proof {
                assert(pairs_view(hs@) =~= old_v.update(i as int, (nv, vv)));
            }
            return;
        }
        proof {
            assert(old_v[i as int] == pair_view(hs@[i as int]));
        }
        i = i + 1;
    }
    proof {
        lemma_header_set_at(old_v, name@, value@, i as int);
    }
    hs.push((name, value));
    proof {
        assert(pairs_view(hs@) =~= old_v.push((name@, value@)));
    }
}

/// `hs` with each header of `new` set in turn, or the error for the first
/// header that cannot be sent.
pub open spec fn headers_applied(hs: Seq<(Seq<char>, Seq<char>)>, new: Seq<(Seq<char>, Seq<char>)>) -> Result<Seq<(Seq<char>, Seq<char>)>, HeaderError>
    decreases new.len(),
{
    if new.len() == 0 {
        Ok(hs)
    } else if !is_header_value(new[0].1) {
        Err(HeaderError::InvalidValue)
    } else {
        match header_name_of(new[0].0) {
            None => Err(HeaderError::InvalidName),
            Some(n) => headers_applied(header_set(hs, n, new[0].1), new.drop_first()),
        }
    }
}

/// Sets each header of `new` in turn: the value must be a valid header
/// value and the name a valid header name, which is stored in lower case.
pub fn set_headers(hs: &mut Vec<(String, String)>, new: &Vec<(String, String)>) -> (r: Result<(), HeaderError>)
    ensures
        match headers_applied(pairs_view(old(hs)@), pairs_view(new@)) {
            Ok(x) => r is Ok && pairs_view(final(hs)@) == x,
            Err(e) => r == Err::<(), HeaderError>(e),
        },
{
    let ghost nv = pairs_view(new@);
    let ghost target = headers_applied(pairs_view(hs@), nv);
    let mut i: usize = 0;
    assert(nv.skip(0) =~= nv);
    while i < new.len()
        invariant
            i <= new@.len(),
            nv == pairs_view(new@),
            target == headers_applied(pairs_view(old(hs)@), nv),
            target == headers_applied(pairs_view(hs@), nv.skip(i as int)),
        decreases new@.len() - i,
    {
        let (k, v) = (&new[i].0, &new[i].1);
        proof {
            assert(nv.skip(i as int)[0] == pair_view(new@[i as int]));
            assert(nv.skip(i as int).drop_first() =~= nv.skip(i + 1));
        }
        if !header_value_ok(v.as_str()) {
            return Err(HeaderError::InvalidValue);
        }
        match normalize_header_name(k.as_str()) {
            None => {
                return Err(HeaderError::InvalidName);
            },
            Some(n) => {
                set_header(hs, n, v.clone());
            },
        }
        i = i + 1;
    }
    assert(nv.skip(i as int).len() == 0);
    Ok(())
}

/// The value of the first header named `name`.
pub open spec fn header_get(hs: Seq<(Seq<char>, Seq<char>)>, name: Seq<char>) -> Option<Seq<char>>
    decreases hs.len(),
{
    if hs.len() == 0 {
        None
    } else if hs[0].0 == name {
        Some(hs[0].1)
    } else {
        header_get(hs.drop_first(), name)
    }
}

/// The value of the header called `key`, whose name is compared in its
/// normalised (lower-case) form; `None` where `key` is no header name.
pub fn get_header<'a>(hs: &'a Vec<(String, String)>, key: &str) -> (r: Option<&'a String>)
    ensures
        match header_name_of(key@) {
            None => r is None,
            Some(n) => match header_get(pairs_view(hs@), n) {
                None => r is None,
                Some(v) => r matches Some(s) && s@ == v,
            },
        },
{
    let name = match normalize_header_name(key) {
        None => {
            return None;
        },
        Some(n) => n,
    };
    let ghost v = pairs_view(hs@);
    let mut i: usize = 0;
    assert(v.skip(0) =~= v);
    while i < hs.len()
        invariant
            i <= hs@.len(),
            v == pairs_view(hs@),
            header_get(v, name@) == header_get(v.skip(i as int), name@),
            header_name_of(key@) == Some(name@),
        decreases hs@.len() - i,
    {
        proof {
            assert(v.skip(i as int)[0] == pair_view(hs@[i as int]));
            assert(v.skip(i as int).drop_first() =~= v.skip(i + 1));
        }
        if hs[i].0 == name {
            return Some(&hs[i].1);
        }
        i = i + 1;
    }
    assert(v.skip(i as int).len() == 0);
    None
}

} // verus!
