use rv64emu::bus::{Bus, DRAM_BASE};

#[test]
fn new_bus_is_zeroed() {
    let bus = Bus::new(64);
    assert_eq!(bus.size(), 64);
    assert_eq!(bus.load64(DRAM_BASE), 0);
    assert_eq!(bus.load8(DRAM_BASE + 63), 0);
}

#[test]
fn store8_then_load8() {
    let mut bus = Bus::new(16);
    bus.store8(DRAM_BASE + 3, 0xAB);
    assert_eq!(bus.load8(DRAM_BASE + 3), 0xAB);
    assert_eq!(bus.load8(DRAM_BASE + 2), 0);
    assert_eq!(bus.load8(DRAM_BASE + 4), 0);
}

#[test]
fn store16_writes_two_bytes_low_first() {
    let mut bus = Bus::new(16);
    bus.store16(DRAM_BASE + 4, 0xBEEF);
    assert_eq!(bus.load8(DRAM_BASE + 4), 0xEF);
    assert_eq!(bus.load8(DRAM_BASE + 5), 0xBE);
    assert_eq!(bus.load16(DRAM_BASE + 4), 0xBEEF);
}

#[test]
fn store32_writes_four_bytes_low_first() {
    let mut bus = Bus::new(16);
    bus.store32(DRAM_BASE + 8, 0x1122_3344);
    assert_eq!(bus.load8(DRAM_BASE + 8), 0x44);
    assert_eq!(bus.load8(DRAM_BASE + 9), 0x33);
    assert_eq!(bus.load8(DRAM_BASE + 10), 0x22);
    assert_eq!(bus.load8(DRAM_BASE + 11), 0x11);
    assert_eq!(bus.load32(DRAM_BASE + 8), 0x1122_3344);
    assert_eq!(bus.load16(DRAM_BASE + 9), 0x2233);
}

#[test]
fn store64_writes_eight_bytes_low_first() {
    let mut bus = Bus::new(16);
    bus.store64(DRAM_BASE, 0x0102_0304_0506_0708);
    let expected: [u8; 8] = [0x08, 0x07, 0x06, 0x05, 0x04, 0x03, 0x02, 0x01];
    for (i, b) in expected.iter().enumerate() {
        assert_eq!(bus.load8(DRAM_BASE + i as u64), *b);
    }
    assert_eq!(bus.load64(DRAM_BASE), 0x0102_0304_0506_0708);
    assert_eq!(bus.load32(DRAM_BASE + 4), 0x0102_0304);
}

#[test]
fn round_trip_of_extreme_values() {
    let mut bus = Bus::new(32);
    bus.store8(DRAM_BASE, 0xFF);
    assert_eq!(bus.load8(DRAM_BASE), 0xFF);
    bus.store16(DRAM_BASE + 2, 0xFFFF);
    assert_eq!(bus.load16(DRAM_BASE + 2), 0xFFFF);
    bus.store32(DRAM_BASE + 4, 0xFFFF_FFFF);
    assert_eq!(bus.load32(DRAM_BASE + 4), 0xFFFF_FFFF);
    bus.store64(DRAM_BASE + 8, 0xFFFF_FFFF_FFFF_FFFF);
    assert_eq!(bus.load64(DRAM_BASE + 8), 0xFFFF_FFFF_FFFF_FFFF);
    bus.store64(DRAM_BASE + 16, 0x8000_0000_0000_0001);
    assert_eq!(bus.load64(DRAM_BASE + 16), 0x8000_0000_0000_0001);
}

#[test]
fn unaligned_access_succeeds() {
    let mut bus = Bus::new(32);
    bus.store64(DRAM_BASE + 3, 0xDEAD_BEEF_0BAD_F00D);
    assert_eq!(bus.load64(DRAM_BASE + 3), 0xDEAD_BEEF_0BAD_F00D);
    bus.store32(DRAM_BASE + 13, 0xCAFE_BABE);
    assert_eq!(bus.load32(DRAM_BASE + 13), 0xCAFE_BABE);
}

#[test]
fn load_then_store_leaves_memory_unchanged() {
    let mut bus = Bus::new(16);
    bus.store64(DRAM_BASE + 1, 0x1234_5678_9ABC_DEF0);
    bus.store8(DRAM_BASE, 0x55);
    bus.store8(DRAM_BASE + 9, 0x66);
    let v = bus.load64(DRAM_BASE + 1);
    bus.store64(DRAM_BASE + 1, v);
    assert_eq!(bus.load64(DRAM_BASE + 1), 0x1234_5678_9ABC_DEF0);
    assert_eq!(bus.load8(DRAM_BASE), 0x55);
    assert_eq!(bus.load8(DRAM_BASE + 9), 0x66);
}

#[test]
fn byte_store_shows_in_wider_loads() {
    let mut bus = Bus::new(16);
    bus.store8(DRAM_BASE + 5, 0xA5);
    bus.store8(DRAM_BASE + 6, 0x5A);
    assert_eq!(bus.load16(DRAM_BASE + 4), 0xA500);
    assert_eq!(bus.load32(DRAM_BASE + 4), 0x005A_A500);
    let wide = bus.load64(DRAM_BASE);
    assert_eq!((wide >> 40) & 0xff, 0xA5);
    assert_eq!((wide >> 48) & 0xff, 0x5A);
    assert_eq!(wide, 0x005A_A500_0000_0000);
}

#[test]
fn window_boundaries() {
    let bus = Bus::new(0x100);
    let end = DRAM_BASE + 0x100;
    for k in [1u8, 2, 4, 8] {
        assert!(bus.is_mapped(DRAM_BASE, k));
        assert!(bus.is_mapped(end - k as u64, k));
        assert!(!bus.is_mapped(end - k as u64 + 1, k));
        assert!(!bus.is_mapped(DRAM_BASE - 1, k));
    }
    assert!(!bus.is_mapped(0, 1));
    assert!(!bus.is_mapped(u64::MAX, 1));
    assert!(!bus.is_mapped(u64::MAX - 3, 8));
    assert!(!bus.is_mapped(end, 1));
}

#[test]
fn access_at_the_last_bytes() {
    let mut bus = Bus::new(0x20);
    let end = DRAM_BASE + 0x20;
    bus.store64(end - 8, 0x0807_0605_0403_0201);
    assert_eq!(bus.load64(end - 8), 0x0807_0605_0403_0201);
    assert_eq!(bus.load32(end - 4), 0x0807_0605);
    assert_eq!(bus.load16(end - 2), 0x0807);
    assert_eq!(bus.load8(end - 1), 0x08);
}

#[test]
fn empty_bus_maps_nothing() {
    let bus = Bus::new(0);
    assert_eq!(bus.size(), 0);
    assert!(!bus.is_mapped(DRAM_BASE, 1));
}

#[test]
fn load_code_copies_to_the_base() {
    let mut bus = Bus::new(8);
    bus.store64(DRAM_BASE, 0xEEEE_EEEE_EEEE_EEEE);
    bus.load_code(vec![1, 2, 3]);
    assert_eq!(bus.load8(DRAM_BASE), 1);
    assert_eq!(bus.load8(DRAM_BASE + 1), 2);
    assert_eq!(bus.load8(DRAM_BASE + 2), 3);
    assert_eq!(bus.load8(DRAM_BASE + 3), 0xEE);
    assert_eq!(bus.load64(DRAM_BASE), 0xEEEE_EEEE_EE03_0201);
}

#[test]
fn load_code_cuts_an_image_that_is_too_long() {
    let mut bus = Bus::new(4);
    bus.load_code(vec![9, 8, 7, 6, 5, 4]);
    assert_eq!(bus.size(), 4);
    assert_eq!(bus.load32(DRAM_BASE), 0x0607_0809);
}

#[test]
fn load_code_of_nothing_changes_nothing() {
    let mut bus = Bus::new(4);
    bus.store32(DRAM_BASE, 0x0A0B_0C0D);
    bus.load_code(Vec::new());
    assert_eq!(bus.load32(DRAM_BASE), 0x0A0B_0C0D);
}

#[test]
fn default_bus_is_empty() {
    let bus = Bus::default();
    assert_eq!(bus.size(), 0);
    assert!(!bus.is_mapped(DRAM_BASE, 1));
}

#[test]
fn first_byte_outside_the_window() {
    let bus = Bus::new(0x10);
    let end = DRAM_BASE + 0x10;
    assert_eq!(bus.unmapped_byte(DRAM_BASE, 8), None);
    assert_eq!(bus.unmapped_byte(end - 8, 8), None);
    assert_eq!(bus.unmapped_byte(end - 7, 8), Some(end));
    assert_eq!(bus.unmapped_byte(end - 1, 2), Some(end));
    assert_eq!(bus.unmapped_byte(end, 1), Some(end));
    assert_eq!(bus.unmapped_byte(end + 5, 4), Some(end + 5));
    assert_eq!(bus.unmapped_byte(DRAM_BASE - 1, 4), Some(DRAM_BASE - 1));
    assert_eq!(bus.unmapped_byte(0, 1), Some(0));
    assert_eq!(bus.unmapped_byte(u64::MAX, 8), Some(u64::MAX));
}
