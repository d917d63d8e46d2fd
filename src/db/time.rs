//! Expiry timestamps, as milliseconds since the Unix epoch.
use vstd::prelude::*;
use crate::db::codec::{at_int, le_u32, le_u64, le_value, DecodeError};

verus! {

/// An 8-byte little-endian timestamp in milliseconds at `pos`.
pub open spec fn ms_at(data: Seq<u8>, pos: int) -> Result<(u64, int), DecodeError> {
    if pos + 8 > data.len() {
        Err(DecodeError::Truncated)
    } else {
        Ok((le_value(data, pos, 8) as u64, pos + 8))
    }
}

/// A 4-byte little-endian timestamp in seconds at `pos`, in milliseconds.
pub open spec fn sec_at(data: Seq<u8>, pos: int) -> Result<(u64, int), DecodeError> {
    if pos + 4 > data.len() {
        Err(DecodeError::Truncated)
    } else {
        Ok(((le_value(data, pos, 4) * 1000) as u64, pos + 4))
    }
}

/// Reads a timestamp stored in milliseconds.
pub fn read_ms(data: &[u8], pos: usize) -> (r: Result<(u64, usize), DecodeError>)
    requires
        pos <= data@.len(),
    ensures
        at_int(r) == ms_at(data@, pos as int),
{
    if data.len() - pos < 8 {
        return Err(DecodeError::Truncated);
    }
    Ok((le_u64(data, pos), pos + 8))
}

/// Reads a timestamp stored in seconds, giving milliseconds.
pub fn read_sec(data: &[u8], pos: usize) -> (r: Result<(u64, usize), DecodeError>)
    requires
        pos <= data@.len(),
    ensures
        at_int(r) == sec_at(data@, pos as int),
{
    if data.len() - pos < 4 {
        return Err(DecodeError::Truncated);
    }
    let secs = le_u32(data, pos) as u64;
    Ok((secs * 1000, pos + 4))
}

} // verus!
