use grove_lcd_rgb::protocol::{cursor_address, function_register, glyph_address};
use grove_lcd_rgb::DotSize;

#[test]
fn function_register_for_rows_and_dots() {
    assert_eq!(function_register(0, DotSize::Dots5x8), 0x10);
    assert_eq!(function_register(1, DotSize::Dots5x8), 0x10);
    assert_eq!(function_register(2, DotSize::Dots5x8), 0x18);
    assert_eq!(function_register(4, DotSize::Dots5x8), 0x18);
    assert_eq!(function_register(255, DotSize::Dots5x8), 0x18);
    assert_eq!(function_register(1, DotSize::Dots5x10), 0x14);
    assert_eq!(function_register(0, DotSize::Dots5x10), 0x10);
    assert_eq!(function_register(2, DotSize::Dots5x10), 0x18);
}

#[test]
fn cursor_address_of_the_two_rows() {
    assert_eq!(cursor_address(0, 0, 2), 0x80);
    assert_eq!(cursor_address(5, 0, 2), 0x85);
    assert_eq!(cursor_address(15, 0, 2), 0x8F);
    assert_eq!(cursor_address(0, 1, 2), 0xC0);
    assert_eq!(cursor_address(5, 1, 2), 0xC5);
    assert_eq!(cursor_address(15, 1, 2), 0xCF);
}

#[test]
fn cursor_address_clamps_the_row_to_the_last() {
    assert_eq!(cursor_address(5, 9, 2), 0xC5);
    assert_eq!(cursor_address(5, 255, 2), 0xC5);
    assert_eq!(cursor_address(5, 1, 1), 0x85);
    assert_eq!(cursor_address(5, 9, 1), 0x85);
    assert_eq!(cursor_address(5, 1, 0), 0x85);
    assert_eq!(cursor_address(5, 2, 4), 0xC5);
    assert_eq!(cursor_address(5, 3, 4), 0xC5);
}

#[test]
fn cursor_address_keeps_every_bit_of_the_column() {
    assert_eq!(cursor_address(0x40, 0, 2), 0xC0);
    assert_eq!(cursor_address(0xFF, 0, 2), 0xFF);
    assert_eq!(cursor_address(0x3F, 1, 2), 0xFF);
}

#[test]
fn glyph_address_uses_three_bits_of_the_slot() {
    assert_eq!(glyph_address(0), 0x40);
    assert_eq!(glyph_address(1), 0x48);
    assert_eq!(glyph_address(2), 0x50);
    assert_eq!(glyph_address(7), 0x78);
    assert_eq!(glyph_address(8), 0x40);
    assert_eq!(glyph_address(10), 0x50);
    assert_eq!(glyph_address(255), 0x78);
}
