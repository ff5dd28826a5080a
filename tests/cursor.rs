use artemis_core::cursor::{filetime_to_unixepoch, ByteCursor, Endian};

#[test]
fn integers_in_both_byte_orders() {
    let data = [1u8, 2, 3, 4, 5, 6, 7, 8];
    let c = ByteCursor::new(&data);
    assert_eq!(c.read_u16(Endian::Le).unwrap().0, 0x0201);
    assert_eq!(c.read_u16(Endian::Be).unwrap().0, 0x0102);
    assert_eq!(c.read_u32(Endian::Le).unwrap().0, 0x04030201);
    assert_eq!(c.read_u32(Endian::Be).unwrap().0, 0x01020304);
    assert_eq!(c.read_u64(Endian::Le).unwrap().0, 0x0807060504030201);
    assert_eq!(c.read_u64(Endian::Be).unwrap().0, 0x0102030405060708);
    let (_, next) = c.read_u32(Endian::Le).unwrap();
    assert_eq!(next.pos, 4);
    assert!(next.read_u64(Endian::Le).is_none());
    assert_eq!(next.read_u8().unwrap().0, 5);
}

#[test]
fn reads_past_the_end_fail() {
    let data = [1u8, 2, 3];
    let c = ByteCursor::new(&data);
    assert!(c.read_u32(Endian::Le).is_none());
    assert!(c.skip(4).is_none());
    assert!(c.take(4).is_none());
    assert_eq!(c.take(3).unwrap().0, &[1u8, 2, 3][..]);
    assert_eq!(c.skip(3).unwrap().remaining(), 0);
    assert!(ByteCursor::at(&data, 4).is_none());
    assert!(ByteCursor::new(&[]).read_u8().is_none());
}

#[test]
fn filetime_conversion() {
    assert_eq!(filetime_to_unixepoch(0), -11644473600);
    assert_eq!(filetime_to_unixepoch(116444736000000000), 0);
    assert_eq!(filetime_to_unixepoch(132438240009999999), 1599350400);
}

#[test]
fn utf16_text_is_decoded_leniently() {
    let data = [0x41u8, 0x00, 0x00, 0xD8, 0x42, 0x00];
    let c = ByteCursor::new(&data);
    let (s, next) = c.read_utf16(3).unwrap();
    assert_eq!(s, "A\u{FFFD}B");
    assert_eq!(next.pos, 6);
    assert!(c.read_utf16(4).is_none());
    assert_eq!(c.read_utf16(0).unwrap().0, "");
}

#[test]
fn utf16_surrogate_pairs_and_lone_surrogates() {
    // U+1F600 as a pair, then a lone low surrogate, then 'z'.
    let data = [0x3Du8, 0xD8, 0x00, 0xDE, 0x00, 0xDC, 0x7A, 0x00];
    let (s, _) = ByteCursor::new(&data).read_utf16(4).unwrap();
    assert_eq!(s, "\u{1F600}\u{FFFD}z");
}
