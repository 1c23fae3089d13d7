//! Plain-value images of the HTTP data the pipeline decides on: header
//! entries as raw name/value bytes, and the response handed back to the
//! caller.
use vstd::prelude::*;

verus! {

/// One header of a request or response, as raw bytes. Names coming from the
/// HTTP layer are lowercase ASCII; values may be arbitrary bytes, and only
/// those made of visible ASCII (or tab) count as readable text.
pub struct HeaderEntry {
    pub name: Vec<u8>,
    pub value: Vec<u8>,
}

impl View for HeaderEntry {
    type V = (Seq<u8>, Seq<u8>);

    open spec fn view(&self) -> (Seq<u8>, Seq<u8>) {
        (self.name@, self.value@)
    }
}

/// The view of a whole header collection: a sequence of (name, value) pairs.
pub open spec fn headers_view(hs: Seq<HeaderEntry>) -> Seq<(Seq<u8>, Seq<u8>)> {
    hs.map_values(|h: HeaderEntry| h@)
}

/// The response the proxy hands back to its caller: either the upstream's
/// status, headers and body verbatim, or a fixed rejection.
pub struct ProxiedResponse {
    pub status: u16,
    pub headers: Vec<HeaderEntry>,
    pub body: Vec<u8>,
}

/// Spec-level image of a `ProxiedResponse`.
#[verifier::ext_equal]
pub ghost struct ResponseSpec {
    pub status: u16,
    pub headers: Seq<(Seq<u8>, Seq<u8>)>,
    pub body: Seq<u8>,
}

impl View for ProxiedResponse {
    type V = ResponseSpec;

    open spec fn view(&self) -> ResponseSpec {
        ResponseSpec { status: self.status, headers: headers_view(self.headers@), body: self.body@ }
    }
}

} // verus!
