use jc_os::mouse::{get_position, handle_mouse_packet, is_button_pressed, MouseButton, MouseState};
use jc_os::rtc::{bcd_decode, is_summer_time, rtc_time_from_raw};

#[test]
fn bcd_bytes_decode_to_decimal() {
    assert_eq!(bcd_decode(0x00), 0);
    assert_eq!(bcd_decode(0x30), 30);
    assert_eq!(bcd_decode(0x59), 59);
    assert_eq!(bcd_decode(0x12), 12);
}

#[test]
fn summer_time_by_month() {
    assert!(!is_summer_time(15, 1, 25));
    assert!(!is_summer_time(15, 12, 25));
    assert!(is_summer_time(15, 7, 25));
    assert!(is_summer_time(1, 4, 25));
    assert!(is_summer_time(30, 9, 25));
}

#[test]
fn summer_time_march_and_october_boundary() {
    // For year 25 the computed last Sunday is 31 - ((5 * 25 / 4 + 4) % 7) = 31.
    assert!(!is_summer_time(30, 3, 25));
    assert!(is_summer_time(31, 3, 25));
    assert!(is_summer_time(30, 10, 25));
    assert!(!is_summer_time(31, 10, 25));
}

#[test]
fn raw_registers_become_local_time() {
    // 12:34:56 UTC on a January day: winter, one hour ahead.
    let t = rtc_time_from_raw(0x56, 0x34, 0x12, 0x15, 0x01, 0x25);
    assert_eq!((t.hours, t.minutes, t.seconds), (13, 34, 56));
    // 23:00:00 UTC in July: summer, two hours ahead, wrapping past midnight.
    let t = rtc_time_from_raw(0x00, 0x00, 0x23, 0x15, 0x07, 0x25);
    assert_eq!((t.hours, t.minutes, t.seconds), (1, 0, 0));
}

#[test]
fn mouse_packet_moves_pointer() {
    let mut m = MouseState::new();
    // Uninitialized: bytes are ignored.
    handle_mouse_packet(&mut m, 0x08);
    assert_eq!(m.packet_index, 0);
    m.set_initialized();
    // A packet moving +5 in x and +3 raw y (down on screen becomes -3).
    handle_mouse_packet(&mut m, 0x08);
    handle_mouse_packet(&mut m, 5);
    handle_mouse_packet(&mut m, 3);
    assert_eq!(get_position(&m), (45, 9));
}

#[test]
fn mouse_negative_and_clamped_movement() {
    let mut m = MouseState::new();
    m.set_initialized();
    // Sign bits set: dx = 0xFF - 256 = -1, dy = -(0xFF - 256) = 1.
    handle_mouse_packet(&mut m, 0x08 | 0x10 | 0x20);
    handle_mouse_packet(&mut m, 0xFF);
    handle_mouse_packet(&mut m, 0xFF);
    assert_eq!(get_position(&m), (39, 13));
    // A huge leftward move clamps at the screen edge.
    for _ in 0..3 {
        handle_mouse_packet(&mut m, 0x08 | 0x10);
        handle_mouse_packet(&mut m, 0x01);
        handle_mouse_packet(&mut m, 0);
    }
    for _ in 0..3 {
        handle_mouse_packet(&mut m, 0x08 | 0x10);
        handle_mouse_packet(&mut m, 0x00);
        handle_mouse_packet(&mut m, 0);
    }
    assert!(get_position(&m).0 >= 0);
}

#[test]
fn mouse_bad_start_byte_is_discarded() {
    let mut m = MouseState::new();
    m.set_initialized();
    handle_mouse_packet(&mut m, 0x00);
    assert_eq!(m.packet_index, 0);
    assert_eq!(get_position(&m), (40, 12));
}

#[test]
fn mouse_overflow_packet_is_discarded() {
    let mut m = MouseState::new();
    m.set_initialized();
    handle_mouse_packet(&mut m, 0x08 | 0x40);
    handle_mouse_packet(&mut m, 50);
    handle_mouse_packet(&mut m, 50);
    assert_eq!(get_position(&m), (40, 12));
}

#[test]
fn mouse_buttons_follow_flags() {
    let mut m = MouseState::new();
    m.set_initialized();
    assert!(!is_button_pressed(&m, MouseButton::Left));
    handle_mouse_packet(&mut m, 0x08 | 0x01);
    assert!(is_button_pressed(&m, MouseButton::Left));
    assert!(!is_button_pressed(&m, MouseButton::Right));
    assert!(!is_button_pressed(&m, MouseButton::Middle));
}
