use aarch64_rt::header::{
    branch_ahead, header_flags, image_header, BootHeader, BRANCH, HEADER_BYTES, HEADER_MAGIC, NOP,
};

#[test]
fn flags_say_endianness_page_size_and_placement() {
    assert_eq!(header_flags(false), 0b1010);
    assert_eq!(header_flags(true), 0b1011);
}

#[test]
fn branches_are_encoded_in_words() {
    assert_eq!(branch_ahead(0), Some(0x1400_0000));
    assert_eq!(branch_ahead(64), Some(0x1400_0010));
    assert_eq!(branch_ahead(0x7ff_fffc), Some(0x15ff_ffff));
    assert_eq!(branch_ahead(0x800_0000), None);
    assert_eq!(branch_ahead(2), None);
    assert_eq!(branch_ahead(65), None);
    assert_eq!(branch_ahead(u64::MAX), None);
    assert_eq!(BRANCH, 0x1400_0000);
}

#[test]
fn header_has_the_fixed_layout() {
    let header = BootHeader::new(0x1400_0010, 0x12_3456, false);
    let bytes = header.to_bytes();
    assert_eq!(bytes.len(), HEADER_BYTES);
    let mut expected = Vec::new();
    expected.extend_from_slice(&[0x10, 0x00, 0x00, 0x14]); // code0
    expected.extend_from_slice(&[0x1f, 0x20, 0x03, 0xd5]); // code1
    expected.extend_from_slice(&[0; 8]); // text_offset
    expected.extend_from_slice(&[0x56, 0x34, 0x12, 0, 0, 0, 0, 0]); // image_size
    expected.extend_from_slice(&[0x0a, 0, 0, 0, 0, 0, 0, 0]); // flags
    expected.extend_from_slice(&[0; 24]); // res2, res3, res4
    expected.extend_from_slice(b"ARM\x64"); // magic
    expected.extend_from_slice(&[0; 4]); // res5
    assert_eq!(bytes, expected);
    assert_eq!(HEADER_MAGIC, 0x644d_5241);
    assert_eq!(NOP, 0xd503_201f);
}

#[test]
fn header_parses_back() {
    let header = BootHeader::new(0x1400_0010, u64::MAX - 5, true);
    let mut bytes = header.to_bytes();
    assert_eq!(BootHeader::parse(&bytes), Some(header));
    // What follows the header is not looked at.
    bytes.extend_from_slice(&[0xff; 100]);
    assert_eq!(BootHeader::parse(&bytes), Some(header));
}

#[test]
fn any_header_with_the_magic_parses_back() {
    let header = BootHeader {
        code0: 1,
        code1: 2,
        text_offset: 3,
        image_size: 4,
        flags: 5,
        res2: 6,
        res3: 7,
        res4: 8,
        magic: HEADER_MAGIC,
        res5: 9,
    };
    let bytes = header.to_bytes();
    assert_eq!(BootHeader::parse(&bytes), Some(header));
    assert_eq!(BootHeader::parse(&bytes).unwrap().to_bytes(), bytes);
}

#[test]
fn short_or_foreign_bytes_are_no_header() {
    let header = BootHeader::new(0x1400_0010, 64, false);
    let bytes = header.to_bytes();
    assert_eq!(BootHeader::parse(&bytes[..63].to_vec()), None);
    assert_eq!(BootHeader::parse(&Vec::new()), None);
    for at in 56..60 {
        let mut wrong = bytes.clone();
        wrong[at] ^= 1;
        assert_eq!(BootHeader::parse(&wrong), None);
    }
    let mut other = bytes.clone();
    other[60] ^= 1;
    assert!(BootHeader::parse(&other).is_some());
}

#[test]
fn image_header_is_computed_from_the_symbols() {
    let header = image_header(0x4008_0000, 0x4008_0040, 0x4009_0000, false).unwrap();
    assert_eq!(
        header,
        BootHeader {
            code0: 0x1400_0010,
            code1: NOP,
            text_offset: 0,
            image_size: 0x1_0000,
            flags: 0xa,
            res2: 0,
            res3: 0,
            res4: 0,
            magic: HEADER_MAGIC,
            res5: 0,
        }
    );
    assert_eq!(image_header(0x4008_0000, 0x4008_0040, 0x4009_0000, true).unwrap().flags, 0xb);
}

#[test]
fn image_header_needs_a_branch_that_reaches() {
    assert_eq!(image_header(0x1000, 0xfff, 0x2000, false), None);
    assert_eq!(image_header(0x1000, 0x1002, 0x2000, false), None);
    assert_eq!(image_header(0x1000, 0x1000 + 0x800_0000, 0x2000, false), None);
    assert!(image_header(0x1000, 0x1000, 0x2000, false).is_some());
    assert!(image_header(0x1000, 0x1000 + 0x7ff_fffc, 0x2000, false).is_some());
}
