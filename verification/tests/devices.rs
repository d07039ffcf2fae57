use chip8::bus::Bus;
use chip8::display::Display;
use chip8::error::Chip8Error;
use chip8::keyboard::Keyboard;
use chip8::ram::Ram;

#[test]
fn memory_starts_with_the_font() {
    let ram = Ram::new();
    assert_eq!(ram.read_byte(0), Ok(0xF0));
    assert_eq!(ram.read_byte(4), Ok(0xF0));
    assert_eq!(ram.read_byte(5), Ok(0x20));
    assert_eq!(ram.read_byte(9), Ok(0x70));
    assert_eq!(ram.read_byte(75), Ok(0xF0));
    assert_eq!(ram.read_byte(79), Ok(0x80));
    assert_eq!(ram.read_byte(80), Ok(0));
    assert_eq!(ram.read_byte(0x200), Ok(0));
    assert_eq!(ram.read_byte(0xFFF), Ok(0));
}

#[test]
fn memory_guards_its_addresses() {
    let mut ram = Ram::new();
    assert_eq!(ram.read_byte(4096), Err(Chip8Error::OutOfBounds));
    assert_eq!(ram.write_byte(4096, 1), Err(Chip8Error::OutOfBounds));
    assert_eq!(ram.write_byte(4095, 7), Ok(()));
    assert_eq!(ram.read_byte(4095), Ok(7));
    assert_eq!(ram.read_byte(4094), Ok(0));
}

#[test]
fn display_index_is_row_major() {
    assert_eq!(Display::get_index_from_coords(0, 0), 0);
    assert_eq!(Display::get_index_from_coords(63, 0), 63);
    assert_eq!(Display::get_index_from_coords(0, 1), 64);
    assert_eq!(Display::get_index_from_coords(63, 31), 2047);
}

#[test]
fn draw_byte_toggles_and_reports_erasure() {
    let mut d = Display::new();
    assert_eq!(d.debug_draw_byte(0b1010_0001, 8, 2), Ok(false));
    let lit: Vec<bool> = (0..8).map(|c| d.pixel(8 + c, 2)).collect();
    assert_eq!(lit, vec![true, false, true, false, false, false, false, true]);
    assert!(!d.pixel(7, 2));
    assert!(!d.pixel(16, 2));
    assert!(!d.pixel(8, 1));
    assert_eq!(d.buffer()[2 * 64 + 8], true);
    // bits over unlit pixels only: no erasure
    assert_eq!(d.debug_draw_byte(0b0101_0000, 8, 2), Ok(false));
    assert!(d.pixel(9, 2));
    // one bit over a lit pixel
    assert_eq!(d.debug_draw_byte(0b1000_0000, 8, 2), Ok(true));
    assert!(!d.pixel(8, 2));
    assert!(d.pixel(9, 2));
}

#[test]
fn draw_byte_guards_the_grid() {
    let mut d = Display::new();
    assert_eq!(d.debug_draw_byte(0xFF, 57, 0), Err(Chip8Error::OutOfBounds));
    assert_eq!(d.debug_draw_byte(0xFF, 0, 32), Err(Chip8Error::OutOfBounds));
    assert!(d.buffer().iter().all(|p| !*p));
    assert_eq!(d.debug_draw_byte(0xFF, 56, 31), Ok(false));
    assert!(d.pixel(63, 31));
    d.clear();
    assert!(d.buffer().iter().all(|p| !*p));
}

#[test]
fn keyboard_reports_the_lowest_key_down() {
    let mut kb = Keyboard::new();
    assert_eq!(kb.get_key_pressed(), None);
    assert!(!kb.key_pressed(3));
    assert_eq!(kb.set_key_pressed(9, true), Ok(()));
    assert_eq!(kb.set_key_pressed(3, true), Ok(()));
    assert_eq!(kb.get_key_pressed(), Some(3));
    assert!(kb.key_pressed(3));
    assert!(kb.key_pressed(9));
    assert_eq!(kb.set_key_pressed(3, false), Ok(()));
    assert_eq!(kb.get_key_pressed(), Some(9));
    assert!(!kb.key_pressed(3));
}

#[test]
fn keyboard_has_sixteen_keys() {
    let mut kb = Keyboard::new();
    assert_eq!(kb.set_key_pressed(16, true), Err(Chip8Error::OutOfBounds));
    assert!(!kb.key_pressed(16));
    assert!(!kb.key_pressed(255));
    assert_eq!(kb.set_key_pressed(15, true), Ok(()));
    assert_eq!(kb.get_key_pressed(), Some(15));
}

#[test]
fn bus_reaches_every_device() {
    let mut bus = Bus::new();
    assert_eq!(bus.ram_read_byte(0), Ok(0xF0));
    assert_eq!(bus.ram_write_byte(0x300, 0x42), Ok(()));
    assert_eq!(bus.ram_read_byte(0x300), Ok(0x42));
    assert_eq!(bus.ram_write_byte(0x1000, 0x42), Err(Chip8Error::OutOfBounds));
    assert_eq!(bus.debug_draw_byte(0x80, 0, 0), Ok(false));
    assert_eq!(bus.get_display_buffer()[0], true);
    assert_eq!(bus.debug_draw_byte(0x80, 0, 0), Ok(true));
    assert_eq!(bus.debug_draw_byte(0x80, 1, 0), Ok(false));
    bus.clear_screen();
    assert!(bus.get_display_buffer().iter().all(|p| !*p));
    assert_eq!(bus.get_key_pressed(), None);
    assert_eq!(bus.set_key_pressed(2, true), Ok(()));
    assert!(bus.key_pressed(2));
    assert_eq!(bus.get_key_pressed(), Some(2));
    assert_eq!(bus.get_delay_timer(), 0);
    assert_eq!(bus.get_sound_timer(), 0);
    bus.set_delay_timer(12);
    bus.set_sound_timer(34);
    assert_eq!(bus.get_delay_timer(), 12);
    assert_eq!(bus.get_sound_timer(), 34);
}
