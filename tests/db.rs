use kvsnap::db::codec::{DecodeError, Kind, Length, Value};
use kvsnap::db::file::{Aux, Entry, Section, Step};
use kvsnap::db::{empty_snapshot, length, open_at, sanity_check, string, time, Database, OpenError};

fn snapshot(body: &[u8]) -> Vec<u8> {
    let mut data = b"REDIS0011".to_vec();
    data.extend_from_slice(body);
    data
}

fn sections(data: Vec<u8>) -> Vec<Step> {
    let mut reader = open_at(data).unwrap().into_iter();
    let mut out = Vec::new();
    loop {
        let step = reader.next();
        let last = !matches!(step, Step::Item(_));
        out.push(step);
        if last {
            return out;
        }
    }
}

const ROUND_TRIP: &[u8] = &[
    0xFA, 0x09, b'r', b'e', b'd', b'i', b's', b'-', b'v', b'e', b'r', 0x05, b'7', b'.', b'2', b'.', b'0',
    0xFE, 0x00,
    0x00, 0x03, b'f', b'o', b'o', 0x03, b'b', b'a', b'r',
    0xFF,
];

#[test]
fn length_literal_six_bits() {
    assert_eq!(length::read(&[0x05], 0), Ok((Length::Read(5), 1)));
}

#[test]
fn length_fourteen_bits() {
    assert_eq!(length::read(&[0x41, 0x02], 0), Ok((Length::Read(0x102), 2)));
}

#[test]
fn length_thirty_two_bits() {
    assert_eq!(length::read(&[0x80, 0x01, 0x02, 0x00, 0x00], 0), Ok((Length::Read(0x201), 5)));
    assert_eq!(length::read(&[0x80, 0x01], 0), Err(DecodeError::Truncated));
}

#[test]
fn length_special_encoding() {
    assert_eq!(length::read(&[0xC2], 0), Ok((Length::Value(2), 1)));
    assert_eq!(length::read(&[], 0), Err(DecodeError::Truncated));
}

#[test]
fn string_from_one_byte_integer() {
    assert_eq!(string::read(&[0xC0, 0x2A], 0), Ok(("42".to_string(), 2)));
}

#[test]
fn string_from_wider_integers() {
    assert_eq!(string::read(&[0xC1, 0x39, 0x30], 0), Ok(("12345".to_string(), 3)));
    assert_eq!(
        string::read(&[0xC2, 0xFF, 0xFF, 0xFF, 0xFF], 0),
        Ok(("4294967295".to_string(), 5))
    );
    assert_eq!(string::read(&[0xC3, 0x00], 0), Err(DecodeError::UnsupportedWidth(3)));
}

#[test]
fn string_literal_and_bad_utf8() {
    assert_eq!(string::read(&[0x02, b'h', b'i'], 0), Ok(("hi".to_string(), 3)));
    assert_eq!(string::read(&[0x01, 0xFF], 0), Err(DecodeError::InvalidText));
    assert_eq!(string::read(&[0x03, b'h'], 0), Err(DecodeError::Truncated));
}

#[test]
fn timestamps() {
    assert_eq!(time::read_ms(&[1, 0, 0, 0, 0, 0, 0, 1], 0), Ok((0x0100_0000_0000_0001, 8)));
    assert_eq!(time::read_sec(&[2, 0, 0, 0], 0), Ok((2000, 4)));
    assert_eq!(time::read_sec(&[2, 0, 0], 0), Err(DecodeError::Truncated));
}

#[test]
fn kinds() {
    assert_eq!(Kind::from_u8(0), Some(Kind::String));
    assert_eq!(Kind::from_u8(14), Some(Kind::QuickList));
    assert_eq!(Kind::from_u8(5), None);
}

#[test]
fn header_checks() {
    assert_eq!(sanity_check(b"REDIS0011"), Ok(11));
    assert_eq!(sanity_check(b"REDIX0011"), Err(OpenError::BadMagic));
    assert_eq!(sanity_check(b"REDIS00x1"), Err(OpenError::BadVersion));
    assert_eq!(sanity_check(b"REDIS00"), Err(OpenError::Truncated));
    assert_eq!(sanity_check(b"RED"), Err(OpenError::Truncated));
    assert_eq!(open_at(empty_snapshot()).unwrap().version(), 11);
}

#[test]
fn snapshot_round_trip_and_reopen() {
    let expected = vec![
        Step::Item(Section::Aux(Aux("redis-ver".to_string(), "7.2.0".to_string()))),
        Step::Item(Section::Database(0)),
        Step::Item(Section::Entry(Entry(None, "foo".to_string(), Value::String("bar".to_string())))),
        Step::End,
    ];
    assert_eq!(sections(snapshot(ROUND_TRIP)), expected);
    assert_eq!(sections(snapshot(ROUND_TRIP)), expected);
}

#[test]
fn reader_stays_at_end() {
    let mut reader = open_at(snapshot(&[])).unwrap().into_iter();
    assert_eq!(reader.next(), Step::End);
    assert_eq!(reader.next(), Step::End);
}

#[test]
fn resize_and_expiring_entries() {
    let body = [
        0xFB, 0x02, 0x01,
        0xFC, 0xE8, 0x03, 0, 0, 0, 0, 0, 0, 0x00, 0x01, b'a', 0x01, b'1',
        0xFD, 0x01, 0, 0, 0, 0x00, 0x01, b'b', 0x01, b'2',
    ];
    let steps = sections(snapshot(&body));
    assert_eq!(
        steps,
        vec![
            Step::Item(Section::Resize(2, 1)),
            Step::Item(Section::Entry(Entry(Some(1000), "a".to_string(), Value::String("1".to_string())))),
            Step::Item(Section::Entry(Entry(Some(1000), "b".to_string(), Value::String("2".to_string())))),
            Step::End,
        ]
    );
}

#[test]
fn unsupported_kind_is_an_error_not_an_end() {
    let body = [0x00, 0x01, b'a', 0x01, b'1', 0x01, 0x01, b'l', 0x00, 0x00, 0x01, b'z', 0x01, b'9'];
    let steps = sections(snapshot(&body));
    assert_eq!(steps.len(), 2);
    assert_eq!(steps[1], Step::Error(DecodeError::UnsupportedKind(Kind::List)));
    let clean = sections(snapshot(ROUND_TRIP));
    assert_eq!(clean.last(), Some(&Step::End));
    assert_eq!(clean.len(), 4);
}

#[test]
fn unknown_kind_is_an_error() {
    let steps = sections(snapshot(&[0x07, 0x01, b'a']));
    assert_eq!(steps, vec![Step::Error(DecodeError::UnknownKind(7))]);
}

#[test]
fn lookups_skip_expired_entries() {
    let body = [
        0xFC, 0x0A, 0, 0, 0, 0, 0, 0, 0, 0x00, 0x01, b'a', 0x01, b'1',
        0x00, 0x01, b'b', 0x01, b'2',
        0x00, 0x01, b'a', 0x01, b'3',
    ];
    let keys = open_at(snapshot(&body)).unwrap().all_keys(5);
    assert_eq!(keys, vec!["a".to_string(), "b".to_string(), "a".to_string()]);
    let keys = open_at(snapshot(&body)).unwrap().all_keys(11);
    assert_eq!(keys, vec!["b".to_string(), "a".to_string()]);
    assert_eq!(open_at(snapshot(&body)).unwrap().find("a", 5), Some("1".to_string()));
    assert_eq!(open_at(snapshot(&body)).unwrap().find("a", 11), Some("3".to_string()));
    assert_eq!(open_at(snapshot(&body)).unwrap().find("c", 11), None);
}

#[test]
fn entry_accessors() {
    let e = Entry(Some(10), "k".to_string(), Value::String("v".to_string()));
    assert_eq!(e.key(), "k");
    assert_eq!(e.val(), &Value::String("v".to_string()));
    assert!(!e.is_expired(10));
    assert!(e.is_expired(11));
}

#[test]
fn select_db_with_integer_encoding() {
    let steps = sections(snapshot(&[0xFE, 0xC1, 0x00, 0x01, 0xFB, 0xC0, 0x05, 0x03]));
    assert_eq!(
        steps,
        vec![
            Step::Item(Section::Database(256)),
            Step::Item(Section::Resize(5, 3)),
            Step::End,
        ]
    );
    let bad = sections(snapshot(&[0xFE, 0xC4]));
    assert_eq!(bad, vec![Step::Error(DecodeError::UnsupportedWidth(4))]);
}

#[test]
fn key_value_rejects_unsupported_kinds() {
    let data = [0x04u8, 0x01, b'k', 0x00];
    let (step, _) = Section::key_value(None, &data, 0);
    assert_eq!(step, Step::Error(DecodeError::UnsupportedKind(Kind::Hash)));
}
