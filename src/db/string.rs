//! Length-prefixed strings, literal or stored as a compact integer.
use vstd::prelude::*;
use vstd::utf8::{decode_utf8, valid_utf8};
use crate::text::{decimal, decimal_text};
use crate::db::codec::{utf8_text, DecodeError, Length};
use crate::db::length::{self, length_at, special_int_at};

verus! {

/// The string whose length field stands at `pos`: its text and the position
/// after it. A literal length is followed by that many bytes of UTF-8; a special
/// integer encoding by 1, 2 or 4 little-endian bytes, read as base-10 text.
pub open spec fn string_at(data: Seq<u8>, pos: int) -> Result<(Seq<char>, int), DecodeError> {
    match length_at(data, pos) {
        Err(e) => Err(e),
        Ok((Length::Read(n), p)) => {
            if p + n > data.len() {
                Err(DecodeError::Truncated)
            } else if valid_utf8(data.subrange(p, p + n)) {
                Ok((decode_utf8(data.subrange(p, p + n)), p + n))
            } else {
                Err(DecodeError::InvalidText)
            }
        },
        Ok((Length::Value(w), p)) => match special_int_at(w, data, p) {
            Err(e) => Err(e),
            Ok((v, q)) => Ok((decimal(v), q)),
        },
    }
}

/// A decoding result for a string, with its text as a sequence of characters.
pub open spec fn text_at(r: Result<(String, usize), DecodeError>) -> Result<(Seq<char>, int), DecodeError> {
    match r {
        Ok((s, p)) => Ok((s@, p as int)),
        Err(e) => Err(e),
    }
}

/// Decodes the string at `pos`.
pub fn read(data: &[u8], pos: usize) -> (r: Result<(String, usize), DecodeError>)
    requires
        pos <= data@.len(),
    ensures
        text_at(r) == string_at(data@, pos as int),
        r matches Ok((_, p)) ==> pos < p <= data@.len(),
{
    let (len, p) = match length::read(data, pos) {
        Ok(lp) => lp,
        Err(e) => return Err(e),
    };
    match len {
        Length::Read(n) => {
            if data.len() - p < n {
                return Err(DecodeError::Truncated);
            }
            match utf8_text(&data[p..p + n]) {
                Some(s) => Ok((s, p + n)),
                None => Err(DecodeError::InvalidText),
            }
        },
        Length::Value(w) => match length::read_special(w, data, p) {
            Ok((v, q)) => Ok((decimal_text(v as u64), q)),
            Err(e) => Err(e),
        },
    }
}

} // verus!
