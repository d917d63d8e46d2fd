//! The on-disk snapshot: its decoder and the lookups that read it.
use vstd::prelude::*;
use vstd::utf8::{decode_utf8, valid_utf8};
use crate::db::codec::{utf8_text, Value};
use crate::db::file::{lemma_sections_step, sections_from, RedisFile, Section, SectionView, Step, HEADER_LEN};
use crate::text::{parse_decimal, parse_u64};

pub mod codec;
pub mod length;
pub mod string;
pub mod time;
pub mod file;

verus! {

/// The five bytes `REDIS` that open every snapshot.
pub open spec fn magic() -> Seq<u8> {
    seq![0x52u8, 0x45u8, 0x44u8, 0x49u8, 0x53u8]
}

/// The version that a newly created snapshot declares.
pub open spec fn new_version() -> Seq<u8> {
    seq![0x30u8, 0x30u8, 0x31u8, 0x31u8]
}

/// Why snapshot content was refused when it was opened.
#[derive(Debug, PartialEq, Eq, Structural, Clone, Copy)]
pub enum OpenError {
    /// Shorter than the header.
    Truncated,
    /// The magic tag does not match.
    BadMagic,
    /// The four version bytes are not a decimal number.
    BadVersion,
}

/// The version that the header of `data` declares, or why it is refused.
pub open spec fn header_version(data: Seq<u8>) -> Result<u64, OpenError> {
    if data.len() < 5 {
        Err(OpenError::Truncated)
    } else if data.subrange(0, 5) != magic() {
        Err(OpenError::BadMagic)
    } else if data.len() < 9 {
        Err(OpenError::Truncated)
    } else if !valid_utf8(data.subrange(5, 9)) {
        Err(OpenError::BadVersion)
    } else {
        match parse_decimal(decode_utf8(data.subrange(5, 9))) {
            Some(v) => Ok(v),
            None => Err(OpenError::BadVersion),
        }
    }
}

/// The content written for a snapshot that does not exist yet: the header alone.
pub fn empty_snapshot() -> (r: Vec<u8>)
    ensures
        r@ == magic() + new_version(),
{
    let r = vec![0x52u8, 0x45u8, 0x44u8, 0x49u8, 0x53u8, 0x30u8, 0x30u8, 0x31u8, 0x31u8];
    assert(r@ =~= magic() + new_version());
    r
}

/// Checks the header and reads the version it declares.
pub fn sanity_check(data: &[u8]) -> (r: Result<u64, OpenError>)
    ensures
        r == header_version(data@),
{
    if data.len() < 5 {
        return Err(OpenError::Truncated);
    }
    let magic_ok = data[0] == 0x52u8 && data[1] == 0x45u8 && data[2] == 0x44u8 && data[3] == 0x49u8
        && data[4] == 0x53u8;
    assert(magic_ok <==> data@.subrange(0, 5) =~= magic());
    if !magic_ok {
        return Err(OpenError::BadMagic);
    }
    if data.len() < 9 {
        return Err(OpenError::Truncated);
    }
    let text = match utf8_text(&data[5..9]) {
        Some(t) => t,
        None => return Err(OpenError::BadVersion),
    };
    match parse_u64(text.as_str()) {
        Some(v) => Ok(v),
        None => Err(OpenError::BadVersion),
    }
}

/// Opens snapshot content: the header must hold the magic tag and a version.
pub fn open_at(data: Vec<u8>) -> (r: Result<RedisFile, OpenError>)
    ensures
        match r {
            Ok(f) => f.wf() && f.bytes() == data@ && header_version(data@) == Ok::<u64, OpenError>(
                f.spec_version(),
            ),
            Err(e) => header_version(data@) == Err::<u64, OpenError>(e),
        },
{
    match sanity_check(data.as_slice()) {
        Ok(v) => Ok(RedisFile::from_checked(data, v)),
        Err(e) => Err(e),
    }
}

/// The keys of the entries among `secs` that have not expired at `now`, in order.
pub open spec fn live_keys(secs: Seq<SectionView>, now: u64) -> Seq<Seq<char>>
    decreases secs.len(),
{
    if secs.len() == 0 {
        seq![]
    } else {
        let rest = live_keys(secs.drop_first(), now);
        match secs[0] {
            SectionView::Entry(ts, k, _) => {
                if ts matches Some(t) && t < now {
                    rest
                } else {
                    seq![k] + rest
                }
            },
            _ => rest,
        }
    }
}

/// The value of the first entry among `secs` with key `key` that has not
/// expired at `now`.
pub open spec fn live_value(secs: Seq<SectionView>, key: Seq<char>, now: u64) -> Option<Seq<char>>
    decreases secs.len(),
{
    if secs.len() == 0 {
        None
    } else {
        match secs[0] {
            SectionView::Entry(ts, k, v) => {
                if k == key && !(ts matches Some(t) && t < now) {
                    Some(v)
                } else {
                    live_value(secs.drop_first(), key, now)
                }
            },
            _ => live_value(secs.drop_first(), key, now),
        }
    }
}

/// The text an optional string holds.
pub open spec fn opt_text(r: Option<String>) -> Option<Seq<char>> {
    match r {
        Some(s) => Some(s@),
        None => None,
    }
}

/// Read access to a snapshot, by one full pass over its entries.
pub trait Database: Sized {
    spec fn wf(&self) -> bool;

    /// The sections a full pass decodes, up to the first step that is not an item.
    spec fn sections(&self) -> Seq<SectionView>;

    /// The keys of the entries that have not expired at `now`.
    fn all_keys(self, now: u64) -> (r: Vec<String>)
        requires
            self.wf(),
        ensures
            r@.map_values(|s: String| s@) == live_keys(self.sections(), now),
    ;

    /// The value of the first entry with key `key` that has not expired at `now`.
    fn find(self, key: &str, now: u64) -> (r: Option<String>)
        requires
            self.wf(),
        ensures
            opt_text(r) == live_value(self.sections(), key@, now),
    ;
}

impl Database for RedisFile {
    open spec fn wf(&self) -> bool {
        RedisFile::wf(self)
    }

    open spec fn sections(&self) -> Seq<SectionView> {
        sections_from(self.bytes(), HEADER_LEN as int)
    }

    fn all_keys(self, now: u64) -> (r: Vec<String>) {
        let ghost total = live_keys(self.sections(), now);
        let mut reader = self.into_iter();
        let mut keys: Vec<String> = Vec::new();
        let ghost mut seen: Seq<Seq<char>> = seq![];
        loop
            invariant
                reader.wf(),
                total == live_keys(self.sections(), now),
                keys@.len() == seen.len(),
                forall|i: int| 0 <= i < seen.len() ==> #[trigger] keys@[i]@ == seen[i],
                seen + live_keys(reader.remaining(), now) == total,
            ensures
                keys@.len() == seen.len(),
                forall|i: int| 0 <= i < seen.len() ==> #[trigger] keys@[i]@ == seen[i],
                seen == total,
            decreases reader.bytes().len() - reader.position() + if reader.finished() { 0int } else { 1int },
        {
            let ghost before = reader.remaining();
            proof {
                lemma_sections_step(reader.bytes(), reader.position());
            }
            match reader.next() {
                Step::Item(Section::Entry(e)) => {
                    let ghost rest = reader.remaining();
                    assert(before.drop_first() =~= rest);
                    if !e.is_expired(now) {
                        proof {
                            assert(seen.push(e.1@) + live_keys(rest, now) =~= seen + (seq![e.1@]
                                + live_keys(rest, now)));
                            seen = seen.push(e.1@);
                        }
                        keys.push(e.1);
                    }
                },
                Step::Item(s) => {
                    let ghost rest = reader.remaining();
                    assert(before.drop_first() =~= rest);
                },
                _ => {
                    assert(seen + live_keys(reader.remaining(), now) =~= seen);
                    break;
                },
            }
        }
        assert(keys@.map_values(|s: String| s@) =~= total);
        keys
    }

    fn find(self, key: &str, now: u64) -> (r: Option<String>) {
        let wanted = key.to_owned();
        let ghost goal = live_value(self.sections(), key@, now);
        let mut reader = self.into_iter();
        loop
            invariant
                reader.wf(),
                wanted@ == key@,
                goal == live_value(self.sections(), key@, now),
                live_value(reader.remaining(), key@, now) == goal,
            decreases reader.bytes().len() - reader.position() + if reader.finished() { 0int } else { 1int },
        {
            let ghost before = reader.remaining();
            proof {
                lemma_sections_step(reader.bytes(), reader.position());
            }
            match reader.next() {
                Step::Item(Section::Entry(e)) => {
                    let ghost rest = reader.remaining();
                    assert(before =~= seq![Section::Entry(e)@] + rest);
                    assert(before.drop_first() =~= rest);
                    if !e.is_expired(now) && e.1 == wanted {
                        let Value::String(v) = e.2;
                        return Some(v);
                    }
                },
                Step::Item(s) => {
                    let ghost rest = reader.remaining();
                    assert(before =~= seq![s@] + rest);
                    assert(before.drop_first() =~= rest);
                },
                _ => {
                    assert(before =~= seq![]);
                    return None;
                },
            }
        }
    }
}

} // verus!
