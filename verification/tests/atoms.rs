use moq::mux::atoms::{check_first, check_inside, MAX_DEPTH};
use moq::mux::cmsf::{parse_cmsf_metadata, parse_timescale};
use moq::mux::fmp4::Fmp4;
use moq::mux::outbox::Outbox;

fn atom(kind: &[u8; 4], body: &[u8]) -> Vec<u8> {
    let mut data = ((body.len() + 8) as u32).to_be_bytes().to_vec();
    data.extend_from_slice(kind);
    data.extend_from_slice(body);
    data
}

fn hdlr() -> Vec<u8> {
    let mut body = vec![0; 8];
    body.extend_from_slice(b"mdir");
    body.extend_from_slice(&[0; 13]);
    atom(b"hdlr", &body)
}

fn meta(inner: &[u8]) -> Vec<u8> {
    let mut body = vec![0; 4];
    body.extend(hdlr());
    body.extend_from_slice(inner);
    atom(b"meta", &body)
}

/// Bytes that the reader would not return from are refused, wherever they stand.
fn refused(data: &[u8]) {
    assert!(!check_first(data));
    let traf = atom(b"moof", &atom(b"traf", &meta(data)));
    let trak = atom(b"moov", &atom(b"trak", &meta(data)));
    let stbl = atom(b"moov", &atom(b"trak", &atom(b"mdia", &atom(b"minf", &atom(b"stbl", data)))));
    for data in [data.to_vec(), traf, trak, stbl] {
        assert!(!check_first(&data));
        let err = Fmp4::new().decode(&data, &mut Outbox::new(vec![], None)).unwrap_err();
        assert_eq!(err.message(), "malformed atom");
        assert!(parse_cmsf_metadata(&data).is_err());
        assert!(parse_timescale(&data).is_err());
    }
    assert!(!check_inside(&atom(b"moof", data)));
}

/// Bytes that the reader takes: it returns, with or without an error.
fn taken(data: &[u8]) -> bool {
    assert!(check_first(data));
    Fmp4::new().decode(data, &mut Outbox::new(vec![], None)).is_ok()
}

#[test]
fn locations_of_items() {
    // One item with a base offset of one byte.
    refused(&atom(b"iloc", &[0, 0, 0, 0, 0x44, 0x10, 0, 1, 0, 1, 0, 0]));
    // Without an item it does not matter.
    assert!(taken(&atom(b"iloc", &[0, 0, 0, 0, 0x44, 0x10, 0, 0])));
    // An offset of two bytes, with and without an extent.
    let mut item = vec![0, 0, 0, 0, 0x24, 0x00, 0, 1, 0, 1, 0, 0, 0, 0];
    assert!(taken(&atom(b"iloc", &item)));
    item[13] = 1;
    item.extend_from_slice(&[0; 6]);
    refused(&atom(b"iloc", &item));
    // The same with four bytes.
    item[4] = 0x44;
    item.extend_from_slice(&[0; 2]);
    assert!(taken(&atom(b"iloc", &item)));
    // An index of three bytes, which only later versions have.
    let item = [1, 0, 0, 0, 0x44, 0x03, 0, 1, 0, 1, 0, 0, 0, 0, 0, 1, 0, 0, 0, 0, 0, 0, 0, 0, 0, 0, 0];
    refused(&atom(b"iloc", &item));
    // One that is cut short is refused by the reader.
    assert!(!taken(&atom(b"iloc", &[0, 0, 0, 0, 0x44, 0x00, 0, 1, 0])));
}

#[test]
fn entries_of_items() {
    let infe = |version: u8| atom(b"infe", &[version, 0, 0, 0, 0, 1, 0, 0, 0, 0, 0]);
    let iinf = |version: u8| {
        let mut body = vec![0, 0, 0, 0, 0, 2];
        body.extend(infe(0));
        body.extend(infe(version));
        atom(b"iinf", &body)
    };
    assert!(taken(&iinf(0)));
    refused(&iinf(1));
}

#[test]
fn references_of_items() {
    let iref = |len: u8| atom(b"iref", &[0, 0, 0, 0, 0, 0, 0, len, b'a', b'u', b'x', b'l', 0, 1, 0, 1, 0, 2]);
    assert!(taken(&iref(14)));
    refused(&iref(15));
    // Too short a length leads to an entry that is not there.
    assert!(!taken(&iref(13)));
}

#[test]
fn subsamples() {
    let subs = |n: usize| {
        let mut body = vec![0, 0, 0, 0, 0, 0, 0, 1, 0, 0, 0, 1, 0, 2];
        body.extend(vec![0; n]);
        atom(b"subs", &body)
    };
    assert!(taken(&subs(16)));
    for n in [12, 13, 14, 15, 4] {
        refused(&subs(n));
    }
    for n in [11, 8, 3] {
        assert!(!taken(&subs(n)));
    }
}

#[test]
fn counts_that_are_not_there() {
    assert!(taken(&atom(b"saiz", &[0, 0, 0, 0, 0, 0, 0, 0, 2, 7, 7])));
    refused(&atom(b"saiz", &[0, 0, 0, 0, 0, 0xff, 0xff, 0xff, 0xff, 7, 7]));
    assert!(taken(&atom(b"saiz", &[0, 0, 0, 0, 1, 0xff, 0xff, 0xff, 0xff])));
    assert!(taken(&atom(b"saio", &[0, 0, 0, 1, b'c', b'e', b'n', b'c', 0, 0, 0, 0, 0, 0, 0, 1, 0, 0, 0, 9])));
    refused(&atom(b"saio", &[0, 0, 0, 0, 0xff, 0xff, 0xff, 0xff, 0, 0, 0, 9]));
    assert!(taken(&atom(b"cmpd", &[0, 0, 0, 1, 0, 4])));
    refused(&atom(b"cmpd", &[0xff, 0xff, 0xff, 0xff, 0, 4]));
    refused(&atom(b"uncC", &[0, 0, 0, 0, b'r', b'g', b'b', b'3', 0xff, 0, 0, 0]));
    assert!(taken(&atom(b"uncC", &[1, 0, 0, 0, b'r', b'g', b'b', b'3'])));
    // A block of comments: no vendor, and one comment that is empty.
    assert!(taken(&atom(b"dfLa", &[0, 0, 0, 0, 0x84, 0, 0, 12, 0, 0, 0, 0, 1, 0, 0, 0, 0, 0, 0, 0])));
    refused(&atom(b"dfLa", &[0, 0, 0, 0, 0x84, 0, 0, 12, 0, 0, 0, 0, 1, 0, 0, 0x80, 0, 0, 0, 0]));
    assert!(taken(&atom(b"sgpd", &[1, 0, 0, 0, b'r', b'o', b'l', b'l', 0, 0, 0, 2, 0, 0, 0, 1, 0xff, 0xff])));
    refused(&atom(b"sgpd", &[1, 0, 0, 0, b'r', b'o', b'l', b'l', 0, 0, 0, 2, 0xff, 0xff, 0xff, 0xff]));
    // Two million descriptions that take no bytes.
    assert!(taken(&atom(b"sgpd", &[1, 0, 0, 0, b'r', b'o', b'l', b'l', 0, 0, 0, 2, 0, 0x20, 0, 0])));
    // Each tells its length, so the second is found to be missing.
    let told = atom(b"sgpd", &[1, 0, 0, 0, b'r', b'o', b'l', b'l', 0, 0, 0, 0, 0xff, 0xff, 0xff, 0xff, 0, 0, 0, 0]);
    assert!(check_first(&told));
    assert!(!taken(&told));
}

#[test]
fn descriptors() {
    let esds = |stream: &[u8]| {
        let mut body = vec![0, 0, 0, 0];
        body.extend_from_slice(stream);
        atom(b"esds", &body)
    };
    let good = [
        3, 25, 0, 0, 0, 4, 17, 0x40, 0x15, 0, 0, 0, 0, 0, 0, 0, 0, 0, 0, 0, 5, 2, 0x12, 0x10, 6, 1, 2, 0,
    ];
    assert!(taken(&esds(&good[..27])));
    // A stream within a stream.
    refused(&esds(&[3, 8, 0, 0, 0, 3, 3, 0, 0, 0]));
    // The same, with a length of more than one byte.
    refused(&esds(&[3, 0x80, 8, 0, 0, 0, 3, 3, 0, 0, 0]));
}

#[test]
fn how_deep_atoms_may_lie() {
    let nested = |n: u32| {
        let mut data = atom(b"free", &[]);
        for _ in 0..n {
            data = atom(b"udta", &data);
        }
        data
    };
    assert!(taken(&nested(MAX_DEPTH)));
    assert!(!check_first(&nested(MAX_DEPTH + 1)));
    let err = Fmp4::new().decode(&nested(100_000), &mut Outbox::new(vec![], None)).unwrap_err();
    assert_eq!(err.message(), "malformed atom");
}

#[test]
fn only_the_first_atom_counts() {
    let bad = atom(b"iloc", &[0, 0, 0, 0, 0x44, 0x10, 0, 1, 0, 1, 0, 0]);
    let mut data = atom(b"free", &[0; 4]);
    data.extend_from_slice(&bad);
    assert!(check_first(&data));
    assert!(Fmp4::new().decode(&data, &mut Outbox::new(vec![], None)).is_err());
    // What is not there whole is not read.
    assert!(check_first(&bad[..19]));
    assert!(Fmp4::new().decode(&bad[..19], &mut Outbox::new(vec![], None)).is_ok());
    // The payload of an mdat is no atom.
    assert!(taken(&atom(b"free", &bad)));
    // A length of eight bytes, and one up to the end.
    let mut long = vec![0, 0, 0, 1];
    long.extend_from_slice(b"udta");
    long.extend_from_slice(&36u64.to_be_bytes());
    long.extend_from_slice(&bad);
    assert!(!check_first(&long));
    long[..4].copy_from_slice(&[0, 0, 0, 0]);
    assert!(check_first(&long));
    let mut open = vec![0, 0, 0, 0];
    open.extend_from_slice(b"udta");
    open.extend_from_slice(&bad);
    assert!(!check_first(&open));
}
