use std::collections::BTreeSet;
use vtable_detect::candidates::scan_candidates;
use vtable_detect::pointer::{ByteOrder, PointerWidth};
use vtable_detect::section::{ReadOnlyData, SectionRange};

const CODE: SectionRange = SectionRange { address: 0x401000, size: 0x1000 };

/// The bytes of `values` as little-endian pointers of four bytes.
fn words(values: &[u32]) -> Vec<u8> {
    values.iter().flat_map(|value| value.to_le_bytes()).collect()
}

/// The bytes of `values` as little-endian pointers of eight bytes.
fn quads(values: &[u64]) -> Vec<u8> {
    values.iter().flat_map(|value| value.to_le_bytes()).collect()
}

fn scan_words(address: u64, values: &[u32]) -> Vec<u64> {
    let bytes = words(values);
    let rdata = ReadOnlyData { address, bytes: &bytes };
    scan_candidates(&rdata, &CODE, PointerWidth::Four, ByteOrder::Little).into_iter().collect()
}

#[test]
fn a_closed_run_gives_its_first_address() {
    assert_eq!(scan_words(0x40e000, &[0, 0, 0x401010, 0x401020, 0x401030, 0]), [0x40e008]);
}

#[test]
fn a_run_of_one_pointer_is_a_run() {
    assert_eq!(scan_words(0x40e000, &[0x401010, 0]), [0x40e000]);
}

#[test]
fn each_closed_run_gives_one_candidate() {
    let found = scan_words(
        0x40e000,
        &[0x401010, 0, 0x401020, 0x401024, 0x40e000, 7, 0x401ffc, 0x401ffc, 0x401ffc, 0x402000],
    );
    assert_eq!(found, [0x40e000, 0x40e008, 0x40e018]);
}

#[test]
fn the_first_address_of_the_code_is_no_code_pointer() {
    assert_eq!(scan_words(0x40e000, &[0x401000, 0]), Vec::<u64>::new());
    assert_eq!(scan_words(0x40e000, &[0x401001, 0]), [0x40e000]);
}

#[test]
fn the_address_past_the_code_is_no_code_pointer() {
    assert_eq!(scan_words(0x40e000, &[0x402000, 0]), Vec::<u64>::new());
    assert_eq!(scan_words(0x40e000, &[0x401fff, 0]), [0x40e000]);
}

#[test]
fn boundary_values_end_a_run() {
    assert_eq!(scan_words(0x40e000, &[0x401010, 0x401000, 0x401010]), [0x40e000]);
    assert_eq!(scan_words(0x40e000, &[0, 0x401010, 0x402000]), [0x40e004]);
}

#[test]
fn a_run_that_lasts_to_the_end_is_dropped() {
    assert_eq!(scan_words(0x40e000, &[0x401010, 0x401020]), Vec::<u64>::new());
    assert_eq!(scan_words(0x40e000, &[0, 0x401010]), Vec::<u64>::new());
    assert_eq!(scan_words(0x40e000, &[0x401010, 0, 0x401020, 0x401030]), [0x40e000]);
}

#[test]
fn bytes_after_the_last_whole_window_are_not_read() {
    let mut bytes = words(&[0x401010, 0x401020]);
    bytes.extend_from_slice(&[0, 0, 0]);
    let rdata = ReadOnlyData { address: 0x40e000, bytes: &bytes };
    let found = scan_candidates(&rdata, &CODE, PointerWidth::Four, ByteOrder::Little);
    assert!(found.is_empty());
}

#[test]
fn data_shorter_than_a_pointer_gives_nothing() {
    let rdata = ReadOnlyData { address: 0x40e000, bytes: &[0x10, 0x10, 0x40] };
    assert!(scan_candidates(&rdata, &CODE, PointerWidth::Four, ByteOrder::Little).is_empty());
    let empty = ReadOnlyData { address: 0x40e000, bytes: &[] };
    assert!(scan_candidates(&empty, &CODE, PointerWidth::Eight, ByteOrder::Little).is_empty());
}

#[test]
fn windows_do_not_overlap() {
    // Read at offset 2 the bytes would spell 0x00401010; no window starts there.
    let bytes = [0, 0, 0x10, 0x10, 0x40, 0, 0, 0, 0, 0, 0, 0];
    let rdata = ReadOnlyData { address: 0x40e000, bytes: &bytes };
    assert!(scan_candidates(&rdata, &CODE, PointerWidth::Four, ByteOrder::Little).is_empty());
}

#[test]
fn eight_byte_pointers() {
    let code = SectionRange { address: 0x140001000, size: 0xe000 };
    let bytes = quads(&[0x140010000, 0x140001100, 0x140001200, 0, 0x14000efff, 0x14000f000]);
    let rdata = ReadOnlyData { address: 0x140010310, bytes: &bytes };
    let found = scan_candidates(&rdata, &code, PointerWidth::Eight, ByteOrder::Little);
    assert_eq!(found.into_iter().collect::<Vec<u64>>(), [0x140010318, 0x140010330]);
}

#[test]
fn the_width_decides_what_a_window_is() {
    // As two words the first is a code pointer; as one quad the value is not.
    let bytes = words(&[0x401010, 1, 0, 0]);
    let rdata = ReadOnlyData { address: 0x40e000, bytes: &bytes };
    let as_words = scan_candidates(&rdata, &CODE, PointerWidth::Four, ByteOrder::Little);
    let as_quads = scan_candidates(&rdata, &CODE, PointerWidth::Eight, ByteOrder::Little);
    assert_eq!(as_words.into_iter().collect::<Vec<u64>>(), [0x40e000]);
    assert!(as_quads.is_empty());
}

#[test]
fn big_endian_pointers() {
    let bytes = [0x00, 0x40, 0x10, 0x10, 0x00, 0x00, 0x00, 0x00];
    let rdata = ReadOnlyData { address: 0x40e000, bytes: &bytes };
    let big = scan_candidates(&rdata, &CODE, PointerWidth::Four, ByteOrder::Big);
    let little = scan_candidates(&rdata, &CODE, PointerWidth::Four, ByteOrder::Little);
    assert_eq!(big.into_iter().collect::<Vec<u64>>(), [0x40e000]);
    assert!(little.is_empty());
}

#[test]
fn addresses_wrap_in_the_address_space() {
    assert_eq!(scan_words(u64::MAX - 3, &[0, 0x401010, 0]), [0]);
    assert_eq!(scan_words(u64::MAX - 3, &[0x401010, 0, 0x401010, 0]), [4, u64::MAX - 3]);
}

#[test]
fn a_code_range_may_reach_past_the_address_space() {
    let code = SectionRange { address: u64::MAX - 0x10, size: 0x100 };
    let bytes = quads(&[u64::MAX, u64::MAX - 0x10, u64::MAX - 0xf, 0]);
    let rdata = ReadOnlyData { address: 0x1000, bytes: &bytes };
    let found = scan_candidates(&rdata, &code, PointerWidth::Eight, ByteOrder::Little);
    assert_eq!(found.into_iter().collect::<Vec<u64>>(), [0x1000, 0x1010]);
}

#[test]
fn an_empty_code_range_holds_no_pointer() {
    let code = SectionRange { address: 0x401000, size: 0 };
    let bytes = words(&[0x401000, 0x401001, 0]);
    let rdata = ReadOnlyData { address: 0x40e000, bytes: &bytes };
    assert!(scan_candidates(&rdata, &code, PointerWidth::Four, ByteOrder::Little).is_empty());
    let one = SectionRange { address: 0x401000, size: 1 };
    assert!(scan_candidates(&rdata, &one, PointerWidth::Four, ByteOrder::Little).is_empty());
}

#[test]
fn scanning_twice_gives_the_same_set() {
    let bytes = words(&[0x401010, 0, 0x401020, 0x401024, 0x40e000, 7, 0x401ffc]);
    let rdata = ReadOnlyData { address: 0x40e000, bytes: &bytes };
    let first = scan_candidates(&rdata, &CODE, PointerWidth::Four, ByteOrder::Little);
    let second = scan_candidates(&rdata, &CODE, PointerWidth::Four, ByteOrder::Little);
    assert_eq!(first, second);
    assert_eq!(first, BTreeSet::from([0x40e000, 0x40e008]));
}
