//! Sections of a snapshot and the forward-only reader that yields them.
use vstd::prelude::*;
use crate::db::codec::{kind_of, DecodeError, Kind, Value};
use crate::db::length::{self, number_at};
use crate::db::string::{self, string_at};
use crate::db::time::{self, ms_at, sec_at};

verus! {

/// A reserved leading byte that introduces a section other than a plain entry.
#[derive(Debug, PartialEq, Eq, Structural, Clone, Copy)]
pub enum OpCode {
    EOF,
    SelectDB,
    ExpireTime,
    ExpireTimeMs,
    ResizeDB,
    Aux,
}

/// The opcode that a leading byte names, if any.
pub open spec fn opcode_of(b: u8) -> Option<OpCode> {
    if b == 0xFF {
        Some(OpCode::EOF)
    } else if b == 0xFE {
        Some(OpCode::SelectDB)
    } else if b == 0xFD {
        Some(OpCode::ExpireTime)
    } else if b == 0xFC {
        Some(OpCode::ExpireTimeMs)
    } else if b == 0xFB {
        Some(OpCode::ResizeDB)
    } else if b == 0xFA {
        Some(OpCode::Aux)
    } else {
        None
    }
}

impl OpCode {
    /// Reads a leading byte as an opcode.
    pub fn from_u8(b: u8) -> (r: Option<OpCode>)
        ensures
            r == opcode_of(b),
    {
        match b {
            0xFF => Some(OpCode::EOF),
            0xFE => Some(OpCode::SelectDB),
            0xFD => Some(OpCode::ExpireTime),
            0xFC => Some(OpCode::ExpireTimeMs),
            0xFB => Some(OpCode::ResizeDB),
            0xFA => Some(OpCode::Aux),
            _ => None,
        }
    }
}

/// The informational keys that an `Aux` section commonly carries.
#[derive(Debug, PartialEq, Eq, Structural, Clone, Copy)]
pub enum AuxKey {
    RedisVer,
    RedisBits,
    CreationTime,
    UsedMem,
}

/// An informational key and value.
#[derive(Debug, PartialEq)]
pub struct Aux(pub String, pub String);

impl Aux {
    /// Decodes the key and value of an `Aux` section.
    fn read(data: &[u8], pos: usize) -> (r: Result<(Aux, usize), DecodeError>)
        requires
            pos <= data@.len(),
        ensures
            match r {
                Ok((a, p)) => aux_at(data@, pos as int) == Ok::<(Seq<char>, Seq<char>, int), DecodeError>((a.0@, a.1@, p as int)),
                Err(e) => aux_at(data@, pos as int) == Err::<(Seq<char>, Seq<char>, int), DecodeError>(e),
            },
            r matches Ok((_, p)) ==> pos < p <= data@.len(),
    {
        let (key, p) = match string::read(data, pos) {
            Ok(kp) => kp,
            Err(e) => return Err(e),
        };
        let (value, q) = match string::read(data, p) {
            Ok(vq) => vq,
            Err(e) => return Err(e),
        };
        Ok((Aux(key, value), q))
    }
}

/// The two strings of an `Aux` section whose key starts at `pos`.
pub open spec fn aux_at(data: Seq<u8>, pos: int) -> Result<(Seq<char>, Seq<char>, int), DecodeError> {
    match string_at(data, pos) {
        Err(e) => Err(e),
        Ok((k, p)) => match string_at(data, p) {
            Err(e) => Err(e),
            Ok((v, q)) => Ok((k, v, q)),
        },
    }
}

/// A key-value entry with an optional absolute expiry in milliseconds since
/// the Unix epoch.
#[derive(Debug, PartialEq)]
pub struct Entry(pub Option<u64>, pub String, pub Value);

impl Entry {
    /// Whether the entry's expiry lies before `now`.
    pub open spec fn expired_at(&self, now: u64) -> bool {
        self.0 matches Some(t) && t < now
    }

    pub fn is_expired(&self, now: u64) -> (r: bool)
        ensures
            r == self.expired_at(now),
    {
        match self.0 {
            Some(t) => t < now,
            None => false,
        }
    }

    pub fn key(&self) -> (r: &String)
        ensures
            r == &self.1,
    {
        &self.1
    }

    pub fn val(&self) -> (r: &Value)
        ensures
            r == &self.2,
    {
        &self.2
    }
}

/// One decoded section of a snapshot.
#[derive(Debug, PartialEq)]
pub enum Section {
    Aux(Aux),
    Database(usize),
    Resize(usize, usize),
    Entry(Entry),
}

/// What a section holds, with its text as sequences of characters.
pub enum SectionView {
    Aux(Seq<char>, Seq<char>),
    Database(nat),
    Resize(nat, nat),
    Entry(Option<u64>, Seq<char>, Seq<char>),
}

impl View for Section {
    type V = SectionView;

    open spec fn view(&self) -> SectionView {
        match self {
            Section::Aux(a) => SectionView::Aux(a.0@, a.1@),
            Section::Database(n) => SectionView::Database(*n as nat),
            Section::Resize(a, b) => SectionView::Resize(*a as nat, *b as nat),
            Section::Entry(e) => SectionView::Entry(e.0, e.1@, e.2.text()),
        }
    }
}

/// The outcome of one decoding step.
#[derive(Debug, PartialEq)]
pub enum Step {
    /// A section, after which decoding goes on.
    Item(Section),
    /// The data ended cleanly, or with the end marker.
    End,
    /// The data could not be decoded; nothing more is read.
    Error(DecodeError),
}

/// The outcome of one decoding step, with the position after an item.
pub enum StepView {
    Item(SectionView, int),
    End,
    Error(DecodeError),
}

/// The entry whose value-kind tag stands at `pos`, with expiry `ts`.
pub open spec fn entry_at(ts: Option<u64>, data: Seq<u8>, pos: int) -> StepView {
    if pos + 1 > data.len() {
        StepView::Error(DecodeError::Truncated)
    } else {
        match kind_of(data[pos]) {
            None => StepView::Error(DecodeError::UnknownKind(data[pos])),
            Some(k) => match string_at(data, pos + 1) {
                Err(e) => StepView::Error(e),
                Ok((key, p)) => {
                    if k != Kind::String {
                        StepView::Error(DecodeError::UnsupportedKind(k))
                    } else {
                        match string_at(data, p) {
                            Err(e) => StepView::Error(e),
                            Ok((v, q)) => StepView::Item(SectionView::Entry(ts, key, v), q),
                        }
                    }
                },
            },
        }
    }
}

/// The decoding step at `pos`: the end of the data or the end marker ends the
/// sequence, an opcode drives its section, and any other byte is the value-kind
/// tag of an entry with no expiry.
pub open spec fn section_at(data: Seq<u8>, pos: int) -> StepView {
    if pos + 1 > data.len() {
        StepView::End
    } else {
        match opcode_of(data[pos]) {
            None => entry_at(None, data, pos),
            Some(OpCode::EOF) => StepView::End,
            Some(OpCode::Aux) => match aux_at(data, pos + 1) {
                Err(e) => StepView::Error(e),
                Ok((k, v, p)) => StepView::Item(SectionView::Aux(k, v), p),
            },
            Some(OpCode::SelectDB) => match number_at(data, pos + 1) {
                Err(e) => StepView::Error(e),
                Ok((n, p)) => StepView::Item(SectionView::Database(n), p),
            },
            Some(OpCode::ResizeDB) => match number_at(data, pos + 1) {
                Err(e) => StepView::Error(e),
                Ok((a, p)) => match number_at(data, p) {
                    Err(e) => StepView::Error(e),
                    Ok((b, q)) => StepView::Item(SectionView::Resize(a, b), q),
                },
            },
            Some(OpCode::ExpireTimeMs) => match ms_at(data, pos + 1) {
                Err(e) => StepView::Error(e),
                Ok((t, p)) => entry_at(Some(t), data, p),
            },
            Some(OpCode::ExpireTime) => match sec_at(data, pos + 1) {
                Err(e) => StepView::Error(e),
                Ok((t, p)) => entry_at(Some(t), data, p),
            },
        }
    }
}

impl Section {
    /// Decodes the section at `pos`.
    pub fn read(data: &[u8], pos: usize) -> (r: (Step, usize))
        requires
            pos <= data@.len(),
        ensures
            r.1 <= data@.len(),
            match r.0 {
                Step::Item(s) => section_at(data@, pos as int) == StepView::Item(s@, r.1 as int)
                    && pos < r.1,
                Step::End => section_at(data@, pos as int) == StepView::End,
                Step::Error(e) => section_at(data@, pos as int) == StepView::Error(e),
            },
    {
        if pos >= data.len() {
            return (Step::End, pos);
        }
        let code = match OpCode::from_u8(data[pos]) {
            Some(c) => c,
            None => return Self::key_value(None, data, pos),
        };
        let p = pos + 1;
        match code {
            OpCode::EOF => (Step::End, p),
            OpCode::Aux => match Aux::read(data, p) {
                Ok((a, q)) => (Step::Item(Section::Aux(a)), q),
                Err(e) => (Step::Error(e), p),
            },
            OpCode::SelectDB => match length::read_number(data, p) {
                Ok((n, q)) => (Step::Item(Section::Database(n)), q),
                Err(e) => (Step::Error(e), p),
            },
            OpCode::ResizeDB => {
                let (a, q) = match length::read_number(data, p) {
                    Ok(lq) => lq,
                    Err(e) => return (Step::Error(e), p),
                };
                match length::read_number(data, q) {
                    Ok((b, q2)) => (Step::Item(Section::Resize(a, b)), q2),
                    Err(e) => (Step::Error(e), p),
                }
            },
            OpCode::ExpireTimeMs => match time::read_ms(data, p) {
                Ok((t, q)) => Self::key_value(Some(t), data, q),
                Err(e) => (Step::Error(e), p),
            },
            OpCode::ExpireTime => match time::read_sec(data, p) {
                Ok((t, q)) => Self::key_value(Some(t), data, q),
                Err(e) => (Step::Error(e), p),
            },
        }
    }

    /// Decodes an entry whose value-kind tag stands at `pos`.
    pub fn key_value(ts: Option<u64>, data: &[u8], pos: usize) -> (r: (Step, usize))
        requires
            pos <= data@.len(),
        ensures
            r.1 <= data@.len(),
            match r.0 {
                Step::Item(s) => entry_at(ts, data@, pos as int) == StepView::Item(s@, r.1 as int)
                    && pos < r.1,
                Step::End => false,
                Step::Error(e) => entry_at(ts, data@, pos as int) == StepView::Error(e),
            },
    {
        if pos >= data.len() {
            return (Step::Error(DecodeError::Truncated), pos);
        }
        let tag = data[pos];
        let kind = match Kind::from_u8(tag) {
            Some(k) => k,
            None => return (Step::Error(DecodeError::UnknownKind(tag)), pos),
        };
        let (key, p) = match string::read(data, pos + 1) {
            Ok(kp) => kp,
            Err(e) => return (Step::Error(e), pos),
        };
        if kind != Kind::String {
            return (Step::Error(DecodeError::UnsupportedKind(kind)), pos);
        }
        match string::read(data, p) {
            Ok((v, q)) => (Step::Item(Section::Entry(Entry(ts, key, Value::String(v)))), q),
            Err(e) => (Step::Error(e), pos),
        }
    }
}

} // verus!

verus! {

/// The sections decoded from `pos` on, up to the first step that is not an item.
pub open spec fn sections_from(data: Seq<u8>, pos: int) -> Seq<SectionView>
    decreases data.len() - pos,
{
    match section_at(data, pos) {
        StepView::Item(s, p) => {
            if pos < p <= data.len() {
                seq![s] + sections_from(data, p)
            } else {
                seq![s]
            }
        },
        _ => seq![],
    }
}

/// One step of `sections_from`: an item is followed by the sections after it,
/// and anything else ends them.
pub proof fn lemma_sections_step(data: Seq<u8>, pos: int)
    ensures
        match section_at(data, pos) {
            StepView::Item(s, p) => pos < p <= data.len() ==> sections_from(data, pos) == seq![s]
                + sections_from(data, p),
            _ => sections_from(data, pos) == Seq::<SectionView>::empty(),
        },
{
}

/// How decoding from `pos` on stops: `End`, or the first decoding error.
pub open spec fn stop_from(data: Seq<u8>, pos: int) -> StepView
    decreases data.len() - pos,
{
    match section_at(data, pos) {
        StepView::Item(s, p) => {
            if pos < p <= data.len() {
                stop_from(data, p)
            } else {
                StepView::End
            }
        },
        other => other,
    }
}

/// An opened snapshot: its bytes, of which the header has been checked, and
/// the version number the header holds.
pub struct RedisFile {
    data: Vec<u8>,
    version: u64,
}

/// The length of the header: the magic tag and four version digits.
pub const HEADER_LEN: usize = 9;

impl RedisFile {
    /// The whole content of the snapshot, header included.
    pub closed spec fn bytes(&self) -> Seq<u8> {
        self.data@
    }

    /// The version number the header holds.
    pub closed spec fn spec_version(&self) -> u64 {
        self.version
    }

    pub open spec fn wf(&self) -> bool {
        self.bytes().len() >= HEADER_LEN
    }

    /// Wraps checked snapshot content.
    pub(crate) fn from_checked(data: Vec<u8>, version: u64) -> (r: RedisFile)
        requires
            data@.len() >= HEADER_LEN,
        ensures
            r.wf(),
            r.bytes() == data@,
            r.spec_version() == version,
    {
        RedisFile { data, version }
    }

    pub fn version(&self) -> (r: u64)
        ensures
            r == self.spec_version(),
    {
        self.version
    }

    /// Starts decoding the sections that follow the header.
    pub fn into_iter(self) -> (r: RedisFileReader)
        requires
            self.wf(),
        ensures
            r.wf(),
            r.bytes() == self.bytes(),
            r.position() == HEADER_LEN as int,
            !r.finished(),
    {
        RedisFileReader { data: self.data, pos: HEADER_LEN, finished: false }
    }
}

/// A forward-only pass over the sections of a snapshot. Once it has reported
/// the end or an error it reports the end from then on; a new pass needs the
/// snapshot opened again.
pub struct RedisFileReader {
    data: Vec<u8>,
    pos: usize,
    finished: bool,
}

impl RedisFileReader {
    pub closed spec fn bytes(&self) -> Seq<u8> {
        self.data@
    }

    /// Where the next section starts.
    pub closed spec fn position(&self) -> int {
        self.pos as int
    }

    /// Whether the pass has ended.
    pub closed spec fn finished(&self) -> bool {
        self.finished
    }

    pub open spec fn wf(&self) -> bool {
        self.position() <= self.bytes().len()
    }

    /// The sections this pass has still to yield.
    pub open spec fn remaining(&self) -> Seq<SectionView> {
        if self.finished() {
            seq![]
        } else {
            sections_from(self.bytes(), self.position())
        }
    }

    /// Decodes the next section.
    pub fn next(&mut self) -> (r: Step)
        requires
            old(self).wf(),
        ensures
            final(self).wf(),
            final(self).bytes() == old(self).bytes(),
            old(self).finished() ==> r == Step::End && final(self).position() == old(self).position() && final(self).finished(),
            !old(self).finished() ==> match r {
                Step::Item(s) => section_at(old(self).bytes(), old(self).position()) == StepView::Item(s@, final(self).position())
                    && old(self).position() < final(self).position() && !final(self).finished(),
                Step::End => section_at(old(self).bytes(), old(self).position()) == StepView::End && final(self).finished(),
                Step::Error(e) => section_at(old(self).bytes(), old(self).position()) == StepView::Error(e) && final(self).finished(),
            },
    {
        if self.finished {
            return Step::End;
        }
        let (step, p) = Section::read(&self.data, self.pos);
        match step {
            Step::Item(_) => {
                self.pos = p;
            },
            _ => {
                self.finished = true;
            },
        }
        step
    }
}

} // verus!

verus! {

/// Decoding is a function of the bytes alone: two passes over equal content,
/// however each was opened, yield the same sections and stop the same way.
pub proof fn lemma_reopen_deterministic(a: RedisFile, b: RedisFile)
    requires
        a.bytes() == b.bytes(),
    ensures
        sections_from(a.bytes(), HEADER_LEN as int) == sections_from(b.bytes(), HEADER_LEN as int),
        stop_from(a.bytes(), HEADER_LEN as int) == stop_from(b.bytes(), HEADER_LEN as int),
{
}

/// An entry whose value kind is known but not text is a decoding error that
/// names the kind, never a clean end: the pass yields nothing more and reports
/// that error.
pub proof fn lemma_unsupported_kind(data: Seq<u8>, pos: int, k: Kind)
    requires
        0 <= pos < data.len(),
        opcode_of(data[pos]) is None,
        kind_of(data[pos]) == Some(k),
        k != Kind::String,
        string_at(data, pos + 1) is Ok,
    ensures
        section_at(data, pos) == StepView::Error(DecodeError::UnsupportedKind(k)),
        sections_from(data, pos) == Seq::<SectionView>::empty(),
        stop_from(data, pos) == StepView::Error(DecodeError::UnsupportedKind(k)),
        stop_from(data, pos) != StepView::End,
{
}

} // verus!
