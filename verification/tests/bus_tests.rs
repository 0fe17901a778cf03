use chip8::bus::{Bus, timer_remaining};

#[test]
pub fn test_memory_read_byte() {
    let address: u16 = 0x400;
    let value: u8 = 0x8;

    let mut bus = Bus::new();
    bus.memory_write_byte(address, value);
    assert_eq!(bus.memory_read_byte(address), value);
}

#[test]
pub fn test_memory_write_byte() {
    let address: u16 = 0x410;
    let value: u8 = 0x9;

    let mut bus = Bus::new();
    bus.memory_write_byte(address, value);
    assert_eq!(bus.memory_read_byte(address), value);
}

#[test]
pub fn memory_address_wraps_to_twelve_bits() {
    // 0x1200 & 0xFFF == 0x200: a write beyond the address space lands on
    // the wrapped address.
    let mut bus = Bus::new();
    bus.memory_write_byte(0x1200, 0xAB);
    assert_eq!(bus.memory_read_byte(0x200), 0xAB);
    assert_eq!(bus.memory_read_byte(0x1200), 0xAB);
}

#[test]
pub fn font_preloaded_at_zero() {
    let bus = Bus::new();
    // Glyph 0 starts with 0xF0; glyph F ends with 0x80; above the font
    // everything is zero.
    assert_eq!(bus.memory_read_byte(0), 0xF0);
    assert_eq!(bus.memory_read_byte(79), 0x80);
    assert_eq!(bus.memory_read_byte(80), 0);
    assert_eq!(bus.memory_get_size(), 4096);
}

#[test]
pub fn timer_reads_value_right_after_set() {
    let mut bus = Bus::new();
    bus.set_delay_timer(10);
    assert_eq!(bus.get_delay_timer(), 10);
}

#[test]
pub fn timer_decays_to_zero_after_enough_elapsed() {
    // One tick is lost every 16 ms, so 160 ms or more exhausts a count
    // of 10; right at set time the full count remains.
    assert_eq!(timer_remaining(10, 160), 0);
    assert_eq!(timer_remaining(10, 1000), 0);
    assert_eq!(timer_remaining(10, 0), 10);
    assert_eq!(timer_remaining(10, 15), 10);
    assert_eq!(timer_remaining(10, 32), 8);
}

#[test]
pub fn key_latch_peek_and_replace() {
    let mut bus = Bus::new();
    assert_eq!(bus.get_key_pressed(), None);
    bus.set_key_pressed(Some(0x5));
    assert!(bus.is_key_pressed(0x5));
    assert!(!bus.is_key_pressed(0x4));
    // Peek semantics: reading does not clear the latch.
    assert_eq!(bus.get_key_pressed(), Some(0x5));
    assert_eq!(bus.get_key_pressed(), Some(0x5));
    bus.set_key_pressed(None);
    assert!(!bus.is_key_pressed(0x5));
    assert_eq!(bus.get_key_pressed(), None);
}
