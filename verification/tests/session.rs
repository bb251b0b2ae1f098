use libflate::deflate::Encoder;
use lszr::eocd::ParseEOCDError;
use lszr::central::ParseCDError;
use lszr::local::LoadFileError;
use lszr::session::{DataError, OpenError, RangeError};
use lszr::{Range, LSZR};
use std::io::Write;

fn crc32(data: &[u8]) -> u32 {
    let mut crc = 0xFFFF_FFFFu32;
    for &byte in data {
        crc ^= byte as u32;
        for _ in 0..8 {
            crc = if crc & 1 != 0 { (crc >> 1) ^ 0xEDB8_8320 } else { crc >> 1 };
        }
    }
    !crc
}

fn deflate(data: &[u8]) -> Vec<u8> {
    let mut encoder = Encoder::new(Vec::new());
    encoder.write_all(data).unwrap();
    encoder.finish().into_result().unwrap()
}

struct Member {
    name: &'static str,
    method: u16,
    flags: u16,
    contents: Vec<u8>,
    /// Bytes left unused between this member's data and what follows.
    gap: usize,
}

fn member(name: &'static str, method: u16, contents: &[u8]) -> Member {
    Member { name, method, flags: 0x0800, contents: contents.to_vec(), gap: 0 }
}

struct Archive {
    bytes: Vec<u8>,
    offsets: Vec<u32>,
    cd_offset: u32,
    cd_size: u32,
    eocd_offset: u32,
}

fn build(members: &[Member], comment: &[u8]) -> Archive {
    let mut bytes = Vec::new();
    let mut offsets = Vec::new();
    let mut directory = Vec::new();
    for m in members {
        let payload = if m.method == 8 { deflate(&m.contents) } else { m.contents.clone() };
        let offset = bytes.len() as u32;
        offsets.push(offset);
        let mut common = Vec::new();
        common.extend_from_slice(&m.flags.to_le_bytes());
        common.extend_from_slice(&m.method.to_le_bytes());
        common.extend_from_slice(&0u16.to_le_bytes());
        common.extend_from_slice(&0u16.to_le_bytes());
        common.extend_from_slice(&crc32(&m.contents).to_le_bytes());
        common.extend_from_slice(&(payload.len() as u32).to_le_bytes());
        common.extend_from_slice(&(m.contents.len() as u32).to_le_bytes());
        common.extend_from_slice(&(m.name.len() as u16).to_le_bytes());
        common.extend_from_slice(&0u16.to_le_bytes());

        bytes.extend_from_slice(&[b'P', b'K', 3, 4]);
        bytes.extend_from_slice(&20u16.to_le_bytes());
        bytes.extend_from_slice(&common);
        bytes.extend_from_slice(m.name.as_bytes());
        bytes.extend_from_slice(&payload);
        bytes.extend_from_slice(&vec![0u8; m.gap]);

        directory.extend_from_slice(&[b'P', b'K', 1, 2]);
        directory.extend_from_slice(&20u16.to_le_bytes());
        directory.extend_from_slice(&20u16.to_le_bytes());
        directory.extend_from_slice(&common);
        directory.extend_from_slice(&0u16.to_le_bytes());
        directory.extend_from_slice(&0u16.to_le_bytes());
        directory.extend_from_slice(&0u16.to_le_bytes());
        directory.extend_from_slice(&0u32.to_le_bytes());
        directory.extend_from_slice(&offset.to_le_bytes());
        directory.extend_from_slice(m.name.as_bytes());
    }
    let cd_offset = bytes.len() as u32;
    let cd_size = directory.len() as u32;
    bytes.extend_from_slice(&directory);
    let eocd_offset = bytes.len() as u32;
    bytes.extend_from_slice(&[b'P', b'K', 5, 6]);
    bytes.extend_from_slice(&0u16.to_le_bytes());
    bytes.extend_from_slice(&0u16.to_le_bytes());
    bytes.extend_from_slice(&(members.len() as u16).to_le_bytes());
    bytes.extend_from_slice(&(members.len() as u16).to_le_bytes());
    bytes.extend_from_slice(&cd_size.to_le_bytes());
    bytes.extend_from_slice(&cd_offset.to_le_bytes());
    bytes.extend_from_slice(&(comment.len() as u16).to_le_bytes());
    bytes.extend_from_slice(comment);
    Archive { bytes, offsets, cd_offset, cd_size, eocd_offset }
}

fn slice(archive: &Archive, range: Range) -> Vec<u8> {
    let start = range.offset as usize;
    archive.bytes[start..start + range.size as usize].to_vec()
}

/// Opens the archive from its last `tail` bytes and parses its directory.
fn open(archive: &Archive, tail: usize) -> LSZR {
    let start = archive.bytes.len() - tail;
    let mut session = LSZR::new(archive.bytes[start..].to_vec()).unwrap();
    let directory = slice(archive, session.cd_range());
    session.parse_cd(directory).unwrap();
    session
}

fn three_members() -> Vec<Member> {
    let mut a = member("a.txt", 0, b"hello");
    a.gap = 1;
    let mut b = member("b.bin", 8, &b"0123456789".repeat(30));
    b.gap = 1;
    let mut c = member("c/d.txt", 0, b"");
    c.gap = 1;
    vec![a, b, c]
}

#[test]
fn archive_of_three_members() {
    let archive = build(&three_members(), b"");
    let tail = archive.bytes[archive.bytes.len() - 22..].to_vec();
    let mut session = LSZR::new(tail).unwrap();

    let cd = session.cd_range();
    assert_eq!(cd.offset, archive.cd_offset);
    assert_eq!(cd.size, archive.cd_size);
    let names = session.parse_cd(slice(&archive, cd)).unwrap();
    assert_eq!(names, vec!["a.txt", "b.bin", "c/d.txt"]);

    let range = session.get_range("a.txt".to_string()).unwrap();
    assert_eq!(range.offset, 0);
    assert_eq!(range.size, 30 + 5 + 5);
    let contents = session.get_data("a.txt".to_string(), slice(&archive, range)).unwrap();
    assert_eq!(contents, vec![b'h', b'e', b'l', b'l', b'o']);

    let range = session.get_range("b.bin".to_string()).unwrap();
    assert_eq!(range.offset, 41);
    let contents = session.get_data("b.bin".to_string(), slice(&archive, range)).unwrap();
    assert_eq!(contents, b"0123456789".repeat(30));
    assert_eq!(crc32(&contents), crc32(&b"0123456789".repeat(30)));

    let range = session.get_range("c/d.txt".to_string()).unwrap();
    assert_eq!(range.offset, archive.offsets[2]);
    assert_eq!(range.size, 30 + 7);
    let contents = session.get_data("c/d.txt".to_string(), slice(&archive, range)).unwrap();
    assert_eq!(contents, Vec::<u8>::new());
}

#[test]
fn size_of_a_range_is_the_distance_to_the_next_header_less_one() {
    let members = vec![member("a.txt", 0, b"hello"), member("b.txt", 0, b"world!")];
    let archive = build(&members, b"");
    let mut session = open(&archive, 22);
    assert_eq!(archive.offsets, vec![0, 40]);
    let a = session.get_range("a.txt".to_string()).unwrap();
    assert_eq!((a.offset, a.size), (0, 39));
    let b = session.get_range("b.txt".to_string()).unwrap();
    assert_eq!(archive.cd_offset, 81);
    assert_eq!((b.offset, b.size), (40, 40));
}

#[test]
fn range_that_stops_short_of_the_data_is_a_read_failure() {
    let members = vec![member("a.txt", 0, b"hello"), member("b.txt", 0, b"world!")];
    let archive = build(&members, b"");
    let mut session = open(&archive, 22);
    let range = session.get_range("a.txt".to_string()).unwrap();
    let r = session.get_data("a.txt".to_string(), slice(&archive, range));
    assert!(matches!(r, Err(DataError::LoadFile(LoadFileError::IOError(_)))));
    let whole = Range { offset: range.offset, size: range.size + 1 };
    let r = session.get_data("a.txt".to_string(), slice(&archive, whole));
    assert_eq!(r.unwrap(), b"hello".to_vec());
}

#[test]
fn range_ends_at_the_nearest_header_behind_not_the_next_of_the_directory() {
    // Directory order: the member at the highest offset first.
    let members = vec![
        member("first", 0, b"1"),
        member("second", 0, b"22"),
        member("third", 0, b"333"),
    ];
    let archive = build(&members, b"");
    let mut tail = archive.bytes[archive.eocd_offset as usize..].to_vec();
    let mut session = LSZR::new(tail.clone()).unwrap();
    let directory = slice(&archive, session.cd_range());
    // Reverse the three records of the directory.
    let sizes = [46 + 5, 46 + 6, 46 + 5];
    let mut reversed = Vec::new();
    reversed.extend_from_slice(&directory[sizes[0] + sizes[1]..]);
    reversed.extend_from_slice(&directory[sizes[0]..sizes[0] + sizes[1]]);
    reversed.extend_from_slice(&directory[..sizes[0]]);
    let names = session.parse_cd(reversed).unwrap();
    assert_eq!(names, vec!["third", "second", "first"]);
    let first = session.get_range("first".to_string()).unwrap();
    assert_eq!((first.offset, first.size), (0, archive.offsets[1] - 1));
    let second = session.get_range("second".to_string()).unwrap();
    assert_eq!(second.offset, archive.offsets[1]);
    assert_eq!(second.size, archive.offsets[2] - archive.offsets[1] - 1);
    let third = session.get_range("third".to_string()).unwrap();
    assert_eq!(third.offset, archive.offsets[2]);
    assert_eq!(third.size, archive.cd_offset - archive.offsets[2] - 1);
    tail.clear();
}

#[test]
fn last_member_reaches_to_the_directory() {
    let archive = build(&[member("only", 0, b"contents")], b"");
    let mut session = open(&archive, 22);
    let range = session.get_range("only".to_string()).unwrap();
    assert_eq!(range.offset, 0);
    assert_eq!(range.size, archive.cd_offset - 1);
    assert_eq!(archive.cd_offset, 30 + 4 + 8);
}

#[test]
fn header_elsewhere_in_the_directory_does_not_bound_a_range_before_it() {
    // Two records with one offset: neither lies behind the other.
    let members = vec![member("x", 0, b"abc")];
    let archive = build(&members, b"");
    let mut session = LSZR::new(archive.bytes[archive.eocd_offset as usize..].to_vec()).unwrap();
    let mut tail = archive.bytes[archive.eocd_offset as usize..].to_vec();
    tail[8] = 2;
    tail[10] = 2;
    let mut two = LSZR::new(tail).unwrap();
    let record = slice(&archive, session.cd_range());
    let mut directory = record.clone();
    let mut twin = record.clone();
    let last = twin.len() - 1;
    twin[last] = b'y';
    directory.extend_from_slice(&twin);
    assert_eq!(two.parse_cd(directory).unwrap(), vec!["x", "y"]);
    let x = two.get_range("x".to_string()).unwrap();
    let y = two.get_range("y".to_string()).unwrap();
    assert_eq!((x.offset, x.size), (0, archive.cd_offset - 1));
    assert_eq!((y.offset, y.size), (0, archive.cd_offset - 1));
    assert_eq!(session.parse_cd(record).unwrap(), vec!["x"]);
}

#[test]
fn member_at_or_behind_the_directory_has_no_range() {
    let archive = build(&[member("only", 0, b"contents")], b"");
    let mut tail = archive.bytes[archive.eocd_offset as usize..].to_vec();
    // The closing record places the directory at offset 0, where the
    // member's header is.
    tail[16..20].copy_from_slice(&0u32.to_le_bytes());
    let mut session = LSZR::new(tail).unwrap();
    let directory = archive.bytes[archive.cd_offset as usize..archive.eocd_offset as usize].to_vec();
    session.parse_cd(directory).unwrap();
    let r = session.get_range("only".to_string());
    assert!(matches!(r, Err(RangeError::MisplacedEntry)));
    assert!(matches!(
        session.get_range("other".to_string()),
        Err(RangeError::EntryNotFound)
    ));
}

#[test]
fn unknown_name_has_no_range_and_no_data() {
    let archive = build(&three_members(), b"");
    let mut session = open(&archive, 22);
    assert!(matches!(
        session.get_range("A.TXT".to_string()),
        Err(RangeError::EntryNotFound)
    ));
    assert!(matches!(session.get_range(String::new()), Err(RangeError::EntryNotFound)));
    assert!(matches!(
        session.get_data("a.txt ".to_string(), archive.bytes.clone()),
        Err(DataError::EntryNotFound)
    ));
    // The archive is as usable as before.
    assert!(session.get_range("a.txt".to_string()).is_ok());
    assert!(session.find_entry("a.txt".to_string()).is_some());
    assert!(session.find_entry("nothing".to_string()).is_none());
}

#[test]
fn nothing_is_found_before_the_directory_is_parsed() {
    let archive = build(&three_members(), b"");
    let mut session = LSZR::new(archive.bytes.clone()).unwrap();
    assert!(matches!(
        session.get_range("a.txt".to_string()),
        Err(RangeError::EntryNotFound)
    ));
    assert!(matches!(
        session.get_data("a.txt".to_string(), archive.bytes.clone()),
        Err(DataError::EntryNotFound)
    ));
    assert!(session.find_entry("a.txt".to_string()).is_none());
}

#[test]
fn first_of_two_members_with_one_name_counts() {
    let members = vec![
        member("twice", 0, b"first"),
        member("between", 0, b"-"),
        member("twice", 0, b"second!"),
    ];
    let archive = build(&members, b"");
    let mut session = open(&archive, 22);
    let entry = session.find_entry("twice".to_string()).unwrap();
    assert_eq!(entry.relative_offset_of_local_header, 0);
    assert_eq!(entry.uncompressed_size, 5);
    let range = session.get_range("twice".to_string()).unwrap();
    assert_eq!(range.offset, 0);
    assert_eq!(range.size, archive.offsets[1] - 1);
    let bytes = archive.bytes[..archive.offsets[1] as usize].to_vec();
    assert_eq!(session.get_data("twice".to_string(), bytes).unwrap(), b"first".to_vec());
    let second = archive.bytes[archive.offsets[2] as usize..].to_vec();
    assert!(matches!(
        session.get_data("twice".to_string(), second),
        Err(DataError::LoadFile(LoadFileError::UnmatchHeader))
    ));
}

#[test]
fn bytes_of_another_member_are_a_mismatch() {
    let archive = build(&three_members(), b"");
    let mut session = open(&archive, 22);
    let range = session.get_range("a.txt".to_string()).unwrap();
    let r = session.get_data("c/d.txt".to_string(), slice(&archive, range));
    assert!(matches!(r, Err(DataError::LoadFile(LoadFileError::UnmatchHeader))));
}

#[test]
fn encrypted_member_is_never_extracted() {
    let mut secret = member("secret", 0, b"hello");
    secret.flags |= 1;
    secret.gap = 1;
    let archive = build(&[secret], b"");
    let mut session = open(&archive, 22);
    assert!(session.find_entry("secret".to_string()).unwrap().is_encrypted);
    let range = session.get_range("secret".to_string()).unwrap();
    let r = session.get_data("secret".to_string(), slice(&archive, range));
    assert!(matches!(r, Err(DataError::LoadFile(LoadFileError::Encrypted))));
}

#[test]
fn member_of_an_unknown_method() {
    let mut odd = member("odd", 0, b"hello");
    odd.method = 14;
    odd.gap = 1;
    let archive = build(&[odd], b"");
    let mut session = open(&archive, 22);
    let range = session.get_range("odd".to_string()).unwrap();
    let r = session.get_data("odd".to_string(), slice(&archive, range));
    assert!(matches!(
        r,
        Err(DataError::LoadFile(LoadFileError::UnsupportedCompressionMethod(14)))
    ));
}

#[test]
fn archive_with_a_comment_opened_from_a_longer_tail() {
    let archive = build(&three_members(), b"made by hand");
    let tail = 22 + 12 + 40;
    let session = open(&archive, tail);
    let eocd = session.eocd_range();
    assert_eq!(eocd.offset, 40);
    assert_eq!(eocd.size, 34);
    let cd = session.cd_range();
    assert_eq!((cd.offset, cd.size), (archive.cd_offset, archive.cd_size));
}

#[test]
fn range_of_the_closing_record_is_counted_from_the_start_of_the_tail() {
    let archive = build(&three_members(), b"");
    let whole = LSZR::new(archive.bytes.clone()).unwrap();
    assert_eq!(whole.eocd_range().offset, archive.eocd_offset);
    assert_eq!(whole.eocd_range().size, 22);
    let tail = LSZR::new(archive.bytes[archive.eocd_offset as usize..].to_vec()).unwrap();
    assert_eq!(tail.eocd_range().offset, 0);
    assert_eq!(tail.eocd_range().size, 22);
}

#[test]
fn empty_archive() {
    let archive = build(&[], b"");
    assert_eq!(archive.bytes.len(), 22);
    let mut session = LSZR::new(archive.bytes.clone()).unwrap();
    assert_eq!(session.cd_range().size, 0);
    assert_eq!(session.parse_cd(Vec::new()).unwrap(), Vec::<String>::new());
    assert!(matches!(session.get_range("a".to_string()), Err(RangeError::EntryNotFound)));
}

#[test]
fn tail_that_is_too_short() {
    let archive = build(&three_members(), b"");
    let tail = archive.bytes[archive.bytes.len() - 21..].to_vec();
    assert!(matches!(
        LSZR::new(tail),
        Err(OpenError::EOCD(ParseEOCDError::TooShortDataLength))
    ));
    assert!(matches!(
        LSZR::new(Vec::new()),
        Err(OpenError::EOCD(ParseEOCDError::TooShortDataLength))
    ));
}

#[test]
fn tail_without_a_closing_record() {
    assert!(matches!(
        LSZR::new(vec![0u8; 64]),
        Err(OpenError::EOCD(ParseEOCDError::InvalidSignature))
    ));
}

#[test]
fn tail_that_misses_the_end_of_the_comment() {
    let archive = build(&three_members(), b"a comment");
    let tail = archive.bytes[archive.eocd_offset as usize..archive.bytes.len() - 1].to_vec();
    assert!(matches!(LSZR::new(tail), Err(OpenError::EOCD(ParseEOCDError::IOError(_)))));
}

#[test]
fn archive_on_several_disks() {
    let archive = build(&three_members(), b"");
    for (this_disk, start_disk) in [(1u16, 0u16), (0, 1), (1, 1), (7, 3), (0, 0xFFFF), (0xFFFE, 0)] {
        let mut tail = archive.bytes[archive.eocd_offset as usize..].to_vec();
        tail[4..6].copy_from_slice(&this_disk.to_le_bytes());
        tail[6..8].copy_from_slice(&start_disk.to_le_bytes());
        assert!(matches!(LSZR::new(tail), Err(OpenError::DiskSplit)));
    }
}

#[test]
fn archive_with_the_zip64_mark() {
    let archive = build(&three_members(), b"");
    for start_disk in [0u16, 1, 0xFFFF] {
        let mut tail = archive.bytes[archive.eocd_offset as usize..].to_vec();
        tail[4..6].copy_from_slice(&0xFFFFu16.to_le_bytes());
        tail[6..8].copy_from_slice(&start_disk.to_le_bytes());
        assert!(matches!(LSZR::new(tail), Err(OpenError::Zip64)));
    }
}

#[test]
fn directory_that_does_not_parse_leaves_the_archive_as_it_was() {
    let archive = build(&three_members(), b"");
    let mut session = open(&archive, 22);
    let mut directory = slice(&archive, session.cd_range());
    directory[1] = b'X';
    assert!(matches!(session.parse_cd(directory), Err(ParseCDError::InvalidSignature)));
    assert!(matches!(session.parse_cd(Vec::new()), Err(ParseCDError::IOError(_))));
    let range = session.get_range("c/d.txt".to_string()).unwrap();
    assert_eq!(range.offset, archive.offsets[2]);
}

#[test]
fn directory_can_be_parsed_again() {
    let archive = build(&three_members(), b"");
    let mut session = open(&archive, 22);
    let other = build(
        &[member("x", 0, b"1"), member("y", 0, b"2"), member("z", 0, b"3")],
        b"",
    );
    let directory = other.bytes[other.cd_offset as usize..other.eocd_offset as usize].to_vec();
    assert_eq!(session.parse_cd(directory).unwrap(), vec!["x", "y", "z"]);
    assert!(matches!(
        session.get_range("a.txt".to_string()),
        Err(RangeError::EntryNotFound)
    ));
    assert_eq!(session.get_range("y".to_string()).unwrap().offset, other.offsets[1]);
}

#[test]
fn directory_is_read_up_to_the_count_of_the_closing_record() {
    let archive = build(&three_members(), b"");
    let mut tail = archive.bytes[archive.eocd_offset as usize..].to_vec();
    tail[10] = 2;
    let mut session = LSZR::new(tail).unwrap();
    let directory = slice(&archive, session.cd_range());
    assert_eq!(session.parse_cd(directory).unwrap(), vec!["a.txt", "b.bin"]);
    assert!(session.find_entry("c/d.txt".to_string()).is_none());
}
