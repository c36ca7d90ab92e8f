use jc_os::bridge::{EventBridge, Key};
use jc_os::interrupts::{InterruptIndex, PIC_1_OFFSET, PIC_2_OFFSET};
use jc_os::keyboard::{handle_scancode, ScancodeDecoder};
use jc_os::serial::read_line_step;
use jc_os::vga_buffer::{Color, ColorCode};

#[test]
fn key_press_reaches_the_bridge() {
    let mut dec = ScancodeDecoder::new();
    let mut bridge = EventBridge::new(100);
    // Scan code set 2, 0x1C: the key the AZERTY layout reads as 'q'.
    handle_scancode(&mut dec, &mut bridge, 0x1C);
    assert_eq!(bridge.pop(), Some(Key::Char('q')));
}

#[test]
fn key_release_produces_no_event() {
    let mut dec = ScancodeDecoder::new();
    let mut bridge = EventBridge::new(100);
    handle_scancode(&mut dec, &mut bridge, 0x1C);
    assert!(bridge.pop().is_some());
    // 0xF0 then the code is the release sequence: decoded, not pushed.
    handle_scancode(&mut dec, &mut bridge, 0xF0);
    handle_scancode(&mut dec, &mut bridge, 0x1C);
    assert_eq!(bridge.pop(), None);
}

#[test]
fn protocol_bytes_are_filtered() {
    let mut dec = ScancodeDecoder::new();
    let mut bridge = EventBridge::new(100);
    handle_scancode(&mut dec, &mut bridge, 0xFA);
    handle_scancode(&mut dec, &mut bridge, 0xFE);
    handle_scancode(&mut dec, &mut bridge, 0xAA);
    handle_scancode(&mut dec, &mut bridge, 0x00);
    assert_eq!(bridge.pop(), None);
}

#[test]
fn shift_modifier_is_tracked_across_bytes() {
    let mut dec = ScancodeDecoder::new();
    let mut bridge = EventBridge::new(100);
    // 0x12 is the left Shift make code in set 2.
    handle_scancode(&mut dec, &mut bridge, 0x12);
    handle_scancode(&mut dec, &mut bridge, 0x1C);
    assert_eq!(bridge.pop(), Some(Key::Char('Q')));
    // Release Shift; the next press is lowercase again.
    handle_scancode(&mut dec, &mut bridge, 0xF0);
    handle_scancode(&mut dec, &mut bridge, 0x12);
    handle_scancode(&mut dec, &mut bridge, 0x1C);
    assert_eq!(bridge.pop(), Some(Key::Char('q')));
}

#[test]
fn serial_line_assembly() {
    let mut s = String::new();
    // Leading line ends are skipped while the line is empty.
    assert!(!read_line_step(&mut s, b'\n'));
    assert!(!read_line_step(&mut s, b'\r'));
    assert!(!read_line_step(&mut s, b'h'));
    assert!(!read_line_step(&mut s, b'i'));
    // Control bytes are dropped.
    assert!(!read_line_step(&mut s, 7));
    assert!(read_line_step(&mut s, b'\n'));
    assert_eq!(s, "hi");
}

#[test]
fn interrupt_vectors_follow_the_remap_offset() {
    assert_eq!(PIC_1_OFFSET, 32);
    assert_eq!(PIC_2_OFFSET, 40);
    assert_eq!(InterruptIndex::Timer.as_u8(), 32);
    assert_eq!(InterruptIndex::Keyboard.as_u8(), 33);
    assert_eq!(InterruptIndex::Keyboard.as_usize(), 33);
}

#[test]
fn color_codes_pack_background_and_foreground() {
    assert_eq!(ColorCode::new(Color::LightCyan, Color::Black).0, 11);
    assert_eq!(ColorCode::new(Color::White, Color::Blue).0, 16 + 15);
    assert_eq!(ColorCode::new(Color::Black, Color::White).0, 240);
}
