//! Replies to commands, held as their wire text.
use vstd::prelude::*;
use vstd::utf8::encode_utf8;
use crate::proto::{array_reply, error_reply, null_reply, simple};
use crate::proto::encode;

verus! {

/// A reply, as the text that goes on the wire.
#[derive(PartialEq, Debug)]
pub struct Response(String);

impl View for Response {
    type V = Seq<char>;

    closed spec fn view(&self) -> Seq<char> {
        self.0@
    }
}

/// The text `PONG`.
pub open spec fn pong_text() -> Seq<char> {
    seq!['P', 'O', 'N', 'G']
}

/// The text `OK`.
pub open spec fn ok_text() -> Seq<char> {
    seq!['O', 'K']
}

/// Builds replies of each kind.
pub trait Builder: Sized {
    /// The wire text of a reply.
    spec fn wire(&self) -> Seq<char>;

    fn pong() -> (r: Self)
        ensures
            r.wire() == simple(pong_text()),
    ;

    fn text(inner: &str) -> (r: Self)
        ensures
            r.wire() == simple(inner@),
    ;

    fn error(msg: &str) -> (r: Self)
        ensures
            r.wire() == error_reply(msg@),
    ;

    fn ok() -> (r: Self)
        ensures
            r.wire() == simple(ok_text()),
    ;

    fn null() -> (r: Self)
        ensures
            r.wire() == null_reply(),
    ;

    fn array(items: &[&str]) -> (r: Self)
        ensures
            r.wire() == array_reply(items@.map_values(|s: &str| s@)),
    ;
}

impl Response {
    /// Wraps wire text as it is.
    pub fn from_wire(value: String) -> (r: Response)
        ensures
            r@ == value@,
    {
        Response(value)
    }

    /// The wire text.
    pub fn as_str(&self) -> (r: &str)
        ensures
            r@ == self@,
    {
        self.0.as_str()
    }

    /// The wire text as bytes.
    pub fn as_bytes(&self) -> (r: &[u8])
        ensures
            r@ == encode_utf8(self@),
    {
        self.0.as_str().as_bytes()
    }
}

impl Builder for Response {
    open spec fn wire(&self) -> Seq<char> {
        self@
    }

    fn pong() -> (r: Self) {
        proof {
            reveal_strlit("PONG");
        }
        Response(encode::text("PONG"))
    }

    fn text(inner: &str) -> (r: Self) {
        Response(encode::text(inner))
    }

    fn error(msg: &str) -> (r: Self) {
        Response(encode::error(msg))
    }

    fn ok() -> (r: Self) {
        proof {
            reveal_strlit("OK");
        }
        Response(encode::text("OK"))
    }

    fn null() -> (r: Self) {
        Response(encode::null())
    }

    fn array(items: &[&str]) -> (r: Self) {
        Response(encode::array(items))
    }
}

} // verus!
