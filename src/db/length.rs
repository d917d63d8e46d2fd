//! The 2-bit-tagged variable-width length field.
use vstd::prelude::*;
use crate::db::codec::{at_int, le_u16, le_u32, le_value, DecodeError, Length};

verus! {

/// The length field whose first byte `mask` has been read, its further bytes
/// starting at `pos`: the result and the position after the field.
pub open spec fn length_after(mask: u8, data: Seq<u8>, pos: int) -> Result<(Length, int), DecodeError> {
    let tag = mask / 64;
    let low = mask % 64;
    if tag == 0 {
        Ok((Length::Read(mask as usize), pos))
    } else if tag == 1 {
        if pos + 1 > data.len() {
            Err(DecodeError::Truncated)
        } else {
            Ok((Length::Read((low * 256 + data[pos]) as usize), pos + 1))
        }
    } else if tag == 2 {
        if pos + 4 > data.len() {
            Err(DecodeError::Truncated)
        } else {
            Ok((Length::Read(le_value(data, pos, 4) as usize), pos + 4))
        }
    } else {
        Ok((Length::Value(low), pos))
    }
}

/// The length field at `pos`: the result and the position after the field.
pub open spec fn length_at(data: Seq<u8>, pos: int) -> Result<(Length, int), DecodeError> {
    if pos + 1 > data.len() {
        Err(DecodeError::Truncated)
    } else {
        length_after(data[pos], data, pos + 1)
    }
}

/// Decodes the length field at `pos`.
pub fn read(data: &[u8], pos: usize) -> (r: Result<(Length, usize), DecodeError>)
    requires
        pos <= data@.len(),
    ensures
        at_int(r) == length_at(data@, pos as int),
{
    if pos >= data.len() {
        return Err(DecodeError::Truncated);
    }
    read_mask(data[pos], data, pos + 1)
}

/// Decodes the rest of a length field whose first byte is `mask`.
pub fn read_mask(mask: u8, data: &[u8], pos: usize) -> (r: Result<(Length, usize), DecodeError>)
    requires
        pos <= data@.len(),
    ensures
        at_int(r) == length_after(mask, data@, pos as int),
{
    let tag = mask / 64;
    let low = mask % 64;
    if tag == 0 {
        Ok((Length::Read(mask as usize), pos))
    } else if tag == 1 {
        if pos >= data.len() {
            return Err(DecodeError::Truncated);
        }
        let n = (low as usize) * 256 + data[pos] as usize;
        Ok((Length::Read(n), pos + 1))
    } else if tag == 2 {
        if data.len() - pos < 4 {
            return Err(DecodeError::Truncated);
        }
        let n = le_u32(data, pos);
        Ok((Length::Read(n as usize), pos + 4))
    } else {
        Ok((Length::Value(low), pos))
    }
}

/// The integer of a special encoding with width selector `w`, whose bytes
/// start at `pos`: 1, 2 or 4 little-endian bytes for `w` 0, 1 or 2, and no
/// other selector.
pub open spec fn special_int_at(w: u8, data: Seq<u8>, pos: int) -> Result<(nat, int), DecodeError> {
    let width: nat = if w == 0 { 1 } else if w == 1 { 2 } else { 4 };
    if w > 2 {
        Err(DecodeError::UnsupportedWidth(w))
    } else if pos + width > data.len() {
        Err(DecodeError::Truncated)
    } else {
        Ok((le_value(data, pos, width), pos + width))
    }
}

/// The number that the length field at `pos` gives where a count is expected:
/// a literal length, or the integer of a special encoding.
pub open spec fn number_at(data: Seq<u8>, pos: int) -> Result<(nat, int), DecodeError> {
    match length_at(data, pos) {
        Err(e) => Err(e),
        Ok((Length::Read(n), p)) => Ok((n as nat, p)),
        Ok((Length::Value(w), p)) => special_int_at(w, data, p),
    }
}

/// A decoding result for a number, as a mathematical integer.
pub open spec fn number_of(r: Result<(u32, usize), DecodeError>) -> Result<(nat, int), DecodeError> {
    match r {
        Ok((n, p)) => Ok((n as nat, p as int)),
        Err(e) => Err(e),
    }
}

/// Reads the integer of a special encoding with width selector `w`.
pub fn read_special(w: u8, data: &[u8], pos: usize) -> (r: Result<(u32, usize), DecodeError>)
    requires
        pos <= data@.len(),
    ensures
        number_of(r) == special_int_at(w, data@, pos as int),
{
    reveal_with_fuel(le_value, 5);
    if w == 0 {
        if data.len() - pos < 1 {
            return Err(DecodeError::Truncated);
        }
        Ok((data[pos] as u32, pos + 1))
    } else if w == 1 {
        if data.len() - pos < 2 {
            return Err(DecodeError::Truncated);
        }
        Ok((le_u16(data, pos) as u32, pos + 2))
    } else if w == 2 {
        if data.len() - pos < 4 {
            return Err(DecodeError::Truncated);
        }
        Ok((le_u32(data, pos), pos + 4))
    } else {
        Err(DecodeError::UnsupportedWidth(w))
    }
}

/// Reads a length field where a count is expected.
pub fn read_number(data: &[u8], pos: usize) -> (r: Result<(usize, usize), DecodeError>)
    requires
        pos <= data@.len(),
    ensures
        match r {
            Ok((n, p)) => number_at(data@, pos as int) == Ok::<(nat, int), DecodeError>((n as nat, p as int))
                && pos < p <= data@.len(),
            Err(e) => number_at(data@, pos as int) == Err::<(nat, int), DecodeError>(e),
        },
{
    match read(data, pos) {
        Err(e) => Err(e),
        Ok((Length::Read(n), p)) => Ok((n, p)),
        Ok((Length::Value(w), p)) => match read_special(w, data, p) {
            Ok((v, q)) => Ok((v as usize, q)),
            Err(e) => Err(e),
        },
    }
}

} // verus!
