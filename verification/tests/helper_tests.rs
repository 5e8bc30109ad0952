use nesemu::helper::{endian, get_bit, hex_to_color, is_negative, page_crossed, unendian, Color};

#[test]
fn get_bit_reads_each_bit() {
    assert_eq!(get_bit(0b1010_0101, 0), 1);
    assert_eq!(get_bit(0b1010_0101, 1), 0);
    assert_eq!(get_bit(0b1010_0101, 2), 1);
    assert_eq!(get_bit(0b1010_0101, 5), 1);
    assert_eq!(get_bit(0b1010_0101, 6), 0);
    assert_eq!(get_bit(0b1010_0101, 7), 1);
    assert_eq!(get_bit(0, 7), 0);
}

#[test]
fn endian_joins_low_then_high() {
    assert_eq!(endian(0x34, 0x12), 0x1234);
    assert_eq!(endian(0xFF, 0xFF), 0xFFFF);
    assert_eq!(endian(0, 0), 0);
}

#[test]
fn unendian_splits_low_then_high() {
    assert_eq!(unendian(0x1234), [0x34, 0x12]);
    assert_eq!(unendian(0xFF00), [0x00, 0xFF]);
}

#[test]
fn endian_roundtrip_on_values() {
    for c in [0u16, 1, 0x00FF, 0x0100, 0x8000, 0xABCD, 0xFFFF] {
        let b = unendian(c);
        assert_eq!(endian(b[0], b[1]), c);
    }
    for (lo, hi) in [(0u8, 0u8), (0x12, 0x34), (0xFF, 0x01)] {
        assert_eq!(unendian(endian(lo, hi)), [lo, hi]);
    }
}

#[test]
fn is_negative_is_bit_seven() {
    assert!(!is_negative(0));
    assert!(!is_negative(0x7F));
    assert!(is_negative(0x80));
    assert!(is_negative(0xFF));
}

#[test]
fn page_crossed_detects_new_page() {
    assert!(!page_crossed(0x1200, 0xFF));
    assert!(page_crossed(0x12FF, 1));
    assert!(page_crossed(0x12F0, 0x20));
    assert!(!page_crossed(0x1234, 0));
    // wrapping at the top of the address space lands on page 0
    assert!(page_crossed(0xFFFF, 1));
}

#[test]
fn hex_to_color_splits_channels() {
    assert_eq!(hex_to_color(0x123456), Color { r: 0x12, g: 0x34, b: 0x56 });
    assert_eq!(hex_to_color(0xffffff), Color { r: 0xff, g: 0xff, b: 0xff });
    assert_eq!(hex_to_color(0xAB000000), Color { r: 0, g: 0, b: 0 });
}
