//! Message bodies held in memory.
use vstd::prelude::*;

verus! {

/// The body of an outgoing request or response.
#[derive(Clone, Debug, PartialEq, Eq)]
pub enum Body {
    /// The whole body, as bytes.
    Bytes(Vec<u8>),
}

impl View for Body {
    type V = Seq<u8>;

    open spec fn view(&self) -> Seq<u8> {
        match self {
            Body::Bytes(b) => b@,
        }
    }
}

impl Body {
    /// The next chunk of an incoming stream; a body held in memory has none.
    pub fn chunk(&self, len: u64) -> (r: Option<Vec<u8>>)
        ensures
            r is None,
    {
        match self {
            Body::Bytes(_) => None,
        }
    }

    /// The whole body.
    pub fn bytes(self) -> (r: Vec<u8>)
        ensures
            r@ == self@,
    {
        match self {
            Body::Bytes(data) => data,
        }
    }
}

} // verus!
