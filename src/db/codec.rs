//! Value kinds, length fields and the plain integer encodings of the snapshot format.
use vstd::prelude::*;
use vstd::utf8::{decode_utf8, valid_utf8};

verus! {

/// The value-kind tag that leads a key-value entry.
#[derive(Debug, PartialEq, Eq, Structural, Clone, Copy)]
pub enum Kind {
    String,
    List,
    PlainSet,
    SortedSet,
    Hash,
    ZipMap,
    ZipList,
    IntSet,
    SortedSetZipList,
    HashMapZipList,
    QuickList,
}

/// The kind that a tag byte names, if any.
pub open spec fn kind_of(b: u8) -> Option<Kind> {
    if b == 0 {
        Some(Kind::String)
    } else if b == 1 {
        Some(Kind::List)
    } else if b == 2 {
        Some(Kind::PlainSet)
    } else if b == 3 {
        Some(Kind::SortedSet)
    } else if b == 4 {
        Some(Kind::Hash)
    } else if b == 9 {
        Some(Kind::ZipMap)
    } else if b == 10 {
        Some(Kind::ZipList)
    } else if b == 11 {
        Some(Kind::IntSet)
    } else if b == 12 {
        Some(Kind::SortedSetZipList)
    } else if b == 13 {
        Some(Kind::HashMapZipList)
    } else if b == 14 {
        Some(Kind::QuickList)
    } else {
        None
    }
}

impl Kind {
    /// Reads a value-kind tag.
    pub fn from_u8(b: u8) -> (r: Option<Kind>)
        ensures
            r == kind_of(b),
    {
        match b {
            0 => Some(Kind::String),
            1 => Some(Kind::List),
            2 => Some(Kind::PlainSet),
            3 => Some(Kind::SortedSet),
            4 => Some(Kind::Hash),
            9 => Some(Kind::ZipMap),
            10 => Some(Kind::ZipList),
            11 => Some(Kind::IntSet),
            12 => Some(Kind::SortedSetZipList),
            13 => Some(Kind::HashMapZipList),
            14 => Some(Kind::QuickList),
            _ => None,
        }
    }
}

/// A decoded value; text is the only kind this decoder supports.
#[derive(Debug, PartialEq)]
pub enum Value {
    String(String),
}

impl Value {
    /// The text the value holds.
    pub open spec fn text(&self) -> Seq<char> {
        match self {
            Value::String(s) => s@,
        }
    }
}

/// What a length field resolves to: a literal length, or the width selector
/// of a special integer encoding.
#[derive(Debug, PartialEq, Eq, Structural, Clone, Copy)]
pub enum Length {
    Read(usize),
    Value(u8),
}

/// Why a section of a snapshot could not be decoded.
#[derive(Debug, PartialEq, Eq, Structural, Clone, Copy)]
pub enum DecodeError {
    /// The data ended inside a field.
    Truncated,
    /// A literal string is not valid UTF-8.
    InvalidText,
    /// A special integer encoding with a width selector other than 0, 1 or 2.
    UnsupportedWidth(u8),
    /// A leading byte that is neither an opcode nor a value-kind tag.
    UnknownKind(u8),
    /// A known value kind other than text.
    UnsupportedKind(Kind),
}

/// A decoding result with its position as a mathematical integer.
pub open spec fn at_int<T>(r: Result<(T, usize), DecodeError>) -> Result<(T, int), DecodeError> {
    match r {
        Ok((t, p)) => Ok((t, p as int)),
        Err(e) => Err(e),
    }
}

/// The little-endian unsigned integer held by `n` bytes of `data` from `pos`.
pub open spec fn le_value(data: Seq<u8>, pos: int, n: nat) -> nat
    decreases n,
{
    if n == 0 {
        0
    } else {
        data[pos] as nat + 256 * le_value(data, pos + 1, (n - 1) as nat)
    }
}

/// Reads a little-endian `u16`.
pub fn le_u16(data: &[u8], pos: usize) -> (r: u16)
    requires
        pos + 2 <= data@.len(),
    ensures
        r as nat == le_value(data@, pos as int, 2),
{
    reveal_with_fuel(le_value, 3);
    data[pos] as u16 + 256 * (data[pos + 1] as u16)
}

/// Reads a little-endian `u32`.
pub fn le_u32(data: &[u8], pos: usize) -> (r: u32)
    requires
        pos + 4 <= data@.len(),
    ensures
        r as nat == le_value(data@, pos as int, 4),
{
    reveal_with_fuel(le_value, 5);
    data[pos] as u32 + 256 * (data[pos + 1] as u32) + 65536 * (data[pos + 2] as u32) + 16777216 * (
    data[pos + 3] as u32)
}

/// Reads a little-endian `u64`.
pub fn le_u64(data: &[u8], pos: usize) -> (r: u64)
    requires
        pos + 8 <= data@.len(),
    ensures
        r as nat == le_value(data@, pos as int, 8),
{
    reveal_with_fuel(le_value, 9);
    assert(data@.len() == data.len());
    let lo = le_u32(data, pos) as u64;
    let hi = le_u32(data, pos + 4) as u64;
    proof {
        reveal_with_fuel(le_value, 5);
        assert(le_value(data@, pos as int, 8) == le_value(data@, pos as int, 4) + 4294967296
            * le_value(data@, pos + 4, 4));
    }
    lo + 4294967296 * hi
}

/// Relies on `std::str::from_utf8`: it accepts exactly the valid UTF-8 byte
/// sequences, and the text is the characters they encode.
#[verifier::external_body]
pub(crate) fn utf8_text(b: &[u8]) -> (r: Option<String>)
    ensures
        r.is_some() == valid_utf8(b@),
        r matches Some(s) ==> s@ == decode_utf8(b@),
{
    match std::str::from_utf8(b) {
        Ok(s) => Some(s.to_string()),
        Err(_) => None,
    }
}

} // verus!
