use udfread::bytes::{read_u16_at, read_u32_at, read_u64_at, read_u8_at};
use udfread::errors::UdfError;
use udfread::dir::read_fileids;
use udfread::names::decode_cs0;
use udfread::tag::{read_tag, validate_tag};

fn put16(img: &mut Vec<u8>, off: usize, v: u16) {
    img[off] = v as u8;
    img[off + 1] = (v >> 8) as u8;
}

fn put32(img: &mut Vec<u8>, off: usize, v: u32) {
    img[off] = v as u8;
    img[off + 1] = (v >> 8) as u8;
    img[off + 2] = (v >> 16) as u8;
    img[off + 3] = (v >> 24) as u8;
}

#[test]
fn le_readers_exact_values() {
    let data = [0x34u8, 0x12, 0x78, 0x56, 0xEF, 0xCD, 0xAB, 0x89, 0x01];
    assert_eq!(read_u8_at(&data, 0), Ok(0x34));
    assert_eq!(read_u16_at(&data, 0), Ok(0x1234));
    assert_eq!(read_u32_at(&data, 0), Ok(0x5678_1234));
    assert_eq!(read_u64_at(&data, 0), Ok(0x89AB_CDEF_5678_1234));
    assert_eq!(read_u64_at(&data, 1), Ok(0x0189_ABCD_EF56_7812));
}

#[test]
fn le_readers_short_read() {
    let data = [1u8, 2, 3];
    assert_eq!(read_u32_at(&data, 0), Err(UdfError::ShortRead));
    assert_eq!(read_u16_at(&data, 2), Err(UdfError::ShortRead));
    assert_eq!(read_u8_at(&data, 3), Err(UdfError::ShortRead));
    assert_eq!(read_u16_at(&data, u64::MAX), Err(UdfError::ShortRead));
}

#[test]
fn tag_fields_decoded() {
    let mut img = vec![0u8; 16];
    put16(&mut img, 0, 261);
    put16(&mut img, 2, 3);
    img[4] = 0xAA;
    put16(&mut img, 6, 7);
    put16(&mut img, 8, 0xBEEF);
    put16(&mut img, 10, 496);
    put32(&mut img, 12, 12345);
    let t = read_tag(&img, 0).unwrap();
    assert_eq!(t.tagid, 261);
    assert_eq!(t.dep_ver, 3);
    assert_eq!(t.tag_checksum, 0xAA);
    assert_eq!(t.tagsn, 7);
    assert_eq!(t.depcrc, 0xBEEF);
    assert_eq!(t.depcrc_len, 496);
    assert_eq!(t.tag_loc, 12345);
}

#[test]
fn tag_validation_is_idempotent_on_success() {
    let mut img = vec![0u8; 16];
    put16(&mut img, 0, 2);
    put32(&mut img, 12, 99);
    let first = validate_tag(&img, 0, 2).unwrap();
    let second = validate_tag(&img, 0, 2).unwrap();
    assert_eq!(first, second);
    assert_eq!(first.tag_loc, 99);
}

#[test]
fn tag_validation_mismatch_and_short() {
    let mut img = vec![0u8; 16];
    put16(&mut img, 0, 5);
    assert_eq!(validate_tag(&img, 0, 2), Err(UdfError::TagMismatch));
    assert_eq!(validate_tag(&img, 8, 2), Err(UdfError::ShortRead));
}

#[test]
fn decode_name_8bit() {
    assert_eq!(decode_cs0(&[8, b'A']).unwrap(), "A");
    assert_eq!(decode_cs0(&[8, b'h', b'i', b'!']).unwrap(), "hi!");
    assert_eq!(decode_cs0(&[254, b'h', b'i']).unwrap(), "hi");
}

#[test]
fn decode_name_8bit_is_latin1() {
    assert_eq!(decode_cs0(&[8, 0xE9]).unwrap(), "\u{e9}");
}

#[test]
fn decode_name_16bit() {
    assert_eq!(decode_cs0(&[16, 0x00, 0x41, 0x00, 0x42]).unwrap(), "AB");
    assert_eq!(decode_cs0(&[255, 0x00, 0x68]).unwrap(), "h");
    assert_eq!(decode_cs0(&[16, 0x30, 0x42]).unwrap(), "\u{3042}");
}

#[test]
fn decode_name_16bit_surrogate_pair() {
    assert_eq!(decode_cs0(&[16, 0xD8, 0x3D, 0xDE, 0x00]).unwrap(), "\u{1F600}");
}

#[test]
fn decode_name_charset_errors() {
    assert_eq!(decode_cs0(&[]), Err(UdfError::CharsetError));
    assert_eq!(decode_cs0(&[7, b'A']), Err(UdfError::CharsetError));
    assert_eq!(decode_cs0(&[16, 0x41]), Err(UdfError::CharsetError));
    assert_eq!(decode_cs0(&[16, 0xD8, 0x3D]), Err(UdfError::CharsetError));
    assert_eq!(decode_cs0(&[16, 0xDE, 0x00]), Err(UdfError::CharsetError));
}

#[test]
fn decode_name_empty_payload() {
    assert_eq!(decode_cs0(&[8]).unwrap(), "");
    assert_eq!(decode_cs0(&[16]).unwrap(), "");
}

fn fid_at(img: &mut Vec<u8>, off: usize, flags: u8, name: &[u8], impl_use: &[u8], lbn: u32) {
    put16(img, off, 257);
    put16(img, off + 16, 1);
    img[off + 18] = flags;
    img[off + 19] = name.len() as u8;
    put32(img, off + 24, lbn);
    put16(img, off + 28, 0);
    put16(img, off + 36, impl_use.len() as u16);
    for (i, b) in name.iter().enumerate() {
        img[off + 38 + i] = *b;
    }
    for (i, b) in impl_use.iter().enumerate() {
        img[off + 38 + name.len() + i] = *b;
    }
}

#[test]
fn fileids_padding_keeps_records_aligned() {
    // header 38 + name 3 = 41; the next record must start at 44.
    let mut img = vec![0u8; 200];
    fid_at(&mut img, 0, 0, &[8, b'a', b'b'], &[], 11);
    fid_at(&mut img, 44, 0, &[8, b'c'], &[], 12);
    let entries = read_fileids(&img).unwrap();
    assert_eq!(entries.len(), 2);
    assert_eq!(entries[0].name.as_deref(), Some("ab"));
    assert_eq!(entries[0].icb.lbn, 11);
    assert_eq!(entries[1].name.as_deref(), Some("c"));
    assert_eq!(entries[1].icb.lbn, 12);
}

#[test]
fn fileids_impl_use_counts_toward_padding() {
    // header 38 + name 2 + impl use 3 = 43; next record starts at 44.
    let mut img = vec![0u8; 120];
    fid_at(&mut img, 0, 0, &[8, b'x'], &[9, 9, 9], 21);
    fid_at(&mut img, 44, 2, &[8, b'd'], &[], 22);
    let entries = read_fileids(&img).unwrap();
    assert_eq!(entries.len(), 2);
    assert_eq!(entries[0].name.as_deref(), Some("x"));
    assert!(!entries[0].is_dir);
    assert_eq!(entries[1].name.as_deref(), Some("d"));
    assert!(entries[1].is_dir);
}

#[test]
fn fileids_skip_deleted_and_mark_parent() {
    let mut img = vec![0u8; 160];
    fid_at(&mut img, 0, 1, &[8, b'z'], &[], 31);
    fid_at(&mut img, 40, 6, &[], &[], 32);
    fid_at(&mut img, 80, 0, &[8, b'w'], &[], 33);
    let entries = read_fileids(&img).unwrap();
    assert_eq!(entries.len(), 2);
    assert!(entries[0].is_parent);
    assert!(entries[0].is_dir);
    assert!(entries[0].name.is_none());
    assert_eq!(entries[0].icb.lbn, 32);
    assert_eq!(entries[1].name.as_deref(), Some("w"));
    assert_eq!(entries[1].icb.lbn, 33);
}

#[test]
fn fileids_stop_at_unvalidated_tag() {
    let mut img = vec![0u8; 200];
    fid_at(&mut img, 0, 0, &[8, b'q'], &[], 41);
    // bytes at 40 keep tag id 0: the scan ends there.
    let entries = read_fileids(&img).unwrap();
    assert_eq!(entries.len(), 1);
    assert_eq!(entries[0].name.as_deref(), Some("q"));
}

#[test]
fn fileids_short_record_is_an_error() {
    let mut img = vec![0u8; 44];
    fid_at(&mut img, 0, 0, &[8, b'a'], &[], 51);
    // declare more name bytes than the extent holds
    img[19] = 40;
    assert_eq!(read_fileids(&img), Err(UdfError::ShortRead));
}

#[test]
fn fileids_undecodable_name_keeps_entry() {
    let mut img = vec![0u8; 80];
    fid_at(&mut img, 0, 0, &[7, b'a'], &[], 61);
    let entries = read_fileids(&img).unwrap();
    assert_eq!(entries.len(), 1);
    assert!(entries[0].name.is_none());
    assert!(!entries[0].is_parent);
    assert_eq!(entries[0].icb.lbn, 61);
}
