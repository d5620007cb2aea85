//! Rendering of printed values as text.

use karma_vm::render::{render_bool, render_byte_char, render_dec, render_int};

#[test]
fn decimal_digits() {
    assert_eq!(render_dec(0), "0");
    assert_eq!(render_dec(7), "7");
    assert_eq!(render_dec(10), "10");
    assert_eq!(render_dec(1234), "1234");
    assert_eq!(render_dec(4294967295), "4294967295");
}

#[test]
fn signed_rendering_of_words() {
    assert_eq!(render_int(0), "0");
    assert_eq!(render_int(42), "42");
    assert_eq!(render_int(2147483647), "2147483647");
    assert_eq!(render_int(0x8000_0000), "-2147483648");
    assert_eq!(render_int(0xFFFF_FFFF), "-1");
    assert_eq!(render_int(0xDEAD_BEEF), "-559038737");
}

#[test]
fn boolean_rendering() {
    assert_eq!(render_bool(true), "true");
    assert_eq!(render_bool(false), "false");
}

#[test]
fn character_rendering() {
    assert_eq!(render_byte_char(0x41), "A");
    assert_eq!(render_byte_char(b' '), " ");
    assert_eq!(render_byte_char(b'\n'), "\n");
}
