use vtable_detect::pointer::{
    byte_order_that_reads, decode_pointer, native_byte_order, ByteOrder, PointerWidth,
};
use vtable_detect::section::SectionRange;
use vtable_detect::xrefs::XrefIndex;

#[test]
fn pointer_widths() {
    assert_eq!(PointerWidth::Four.size(), 4);
    assert_eq!(PointerWidth::Eight.size(), 8);
    assert_eq!(PointerWidth::from_size(4), Some(PointerWidth::Four));
    assert_eq!(PointerWidth::from_size(8), Some(PointerWidth::Eight));
    assert_eq!(PointerWidth::from_size(0), None);
    assert_eq!(PointerWidth::from_size(2), None);
    assert_eq!(PointerWidth::from_size(16), None);
    assert_eq!(PointerWidth::from_bitness(true), PointerWidth::Eight);
    assert_eq!(PointerWidth::from_bitness(false), PointerWidth::Four);
}

#[test]
fn pointers_in_both_byte_orders() {
    let four = [0x64, 0xe1, 0x40, 0x00];
    assert_eq!(decode_pointer(&four, ByteOrder::Little), 0x0040_e164);
    assert_eq!(decode_pointer(&four, ByteOrder::Big), 0x64e1_4000);
    let eight = [0x18, 0x03, 0x01, 0x40, 0x01, 0x00, 0x00, 0x00];
    assert_eq!(decode_pointer(&eight, ByteOrder::Little), 0x1_4001_0318);
    assert_eq!(decode_pointer(&eight, ByteOrder::Big), 0x1803_0140_0100_0000);
    assert_eq!(decode_pointer(&[0xff; 8], ByteOrder::Little), u64::MAX);
    assert_eq!(decode_pointer(&[0xff; 8], ByteOrder::Big), u64::MAX);
    assert_eq!(decode_pointer(&[], ByteOrder::Little), 0);
    assert_eq!(decode_pointer(&[7], ByteOrder::Big), 7);
}

#[test]
fn the_native_byte_order_is_that_of_std() {
    let bytes = [0x64, 0xe1, 0x40, 0x00];
    assert_eq!(decode_pointer(&bytes, native_byte_order()), u32::from_ne_bytes(bytes) as u64);
    let expected = if u16::from_ne_bytes([1, 0]) == 1 { ByteOrder::Little } else { ByteOrder::Big };
    assert_eq!(native_byte_order(), expected);
}

#[test]
fn a_range_holds_what_lies_strictly_inside() {
    let range = SectionRange { address: 0x401000, size: 0x1000 };
    assert!(!range.contains(0));
    assert!(!range.contains(0x400fff));
    assert!(!range.contains(0x401000));
    assert!(range.contains(0x401001));
    assert!(range.contains(0x401fff));
    assert!(!range.contains(0x402000));
    assert!(!range.contains(0x402001));
    assert!(!range.contains(u64::MAX));
}

#[test]
fn a_range_at_the_top_of_the_address_space() {
    let range = SectionRange { address: u64::MAX - 1, size: 2 };
    assert!(!range.contains(u64::MAX - 1));
    assert!(range.contains(u64::MAX));
    let wide = SectionRange { address: 0, size: u64::MAX };
    assert!(!wide.contains(0));
    assert!(wide.contains(1));
    assert!(wide.contains(u64::MAX - 1));
    assert!(!wide.contains(u64::MAX));
    let empty = SectionRange { address: 5, size: 0 };
    assert!(!empty.contains(5));
    assert!(!empty.contains(6));
}

#[test]
fn the_index_keeps_the_order_of_recording() {
    let mut xrefs = XrefIndex::new();
    assert!(xrefs.get(0x40e164).is_none());
    xrefs.record(0x40e174, 0x4013bf);
    xrefs.record(0x40e164, 0x40104a);
    xrefs.record(0x40e174, 0x4013e5);
    xrefs.record(0x40e174, 0x4013bf);
    assert_eq!(*xrefs.get(0x40e174).unwrap(), vec![0x4013bf, 0x4013e5, 0x4013bf]);
    assert_eq!(*xrefs.get(0x40e164).unwrap(), vec![0x40104a]);
    assert!(xrefs.get(0x40e16c).is_none());
    assert!(xrefs.get(0).is_none());
}

#[test]
fn the_byte_order_that_reads_the_probe() {
    assert_eq!(byte_order_that_reads(1), ByteOrder::Little);
    assert_eq!(byte_order_that_reads(256), ByteOrder::Big);
    assert_eq!(byte_order_that_reads(0), ByteOrder::Big);
    assert_eq!(byte_order_that_reads(u16::MAX), ByteOrder::Big);
    assert_eq!(decode_pointer(&[1, 0], ByteOrder::Little), 1);
    assert_eq!(decode_pointer(&[1, 0], ByteOrder::Big), 256);
    assert_eq!(byte_order_that_reads(u16::from_ne_bytes([1, 0])), native_byte_order());
}
