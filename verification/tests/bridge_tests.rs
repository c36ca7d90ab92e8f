use jc_os::bridge::{EventBridge, Key};

#[test]
fn fifo_order_within_capacity() {
    let mut b = EventBridge::new(100);
    assert!(b.push(Key::Char('a')));
    assert!(b.push(Key::Char('b')));
    assert!(b.push(Key::Backspace));
    assert!(b.push(Key::Char('c')));
    assert_eq!(b.pop(), Some(Key::Char('a')));
    assert_eq!(b.pop(), Some(Key::Char('b')));
    assert_eq!(b.pop(), Some(Key::Backspace));
    assert_eq!(b.pop(), Some(Key::Char('c')));
    assert_eq!(b.pop(), None);
}

#[test]
fn push_to_full_fails_and_preserves_contents() {
    let mut b = EventBridge::new(2);
    assert!(b.push(Key::Char('x')));
    assert!(b.push(Key::Char('y')));
    assert!(!b.push(Key::Char('z')));
    assert!(!b.push(Key::Escape));
    assert_eq!(b.len(), 2);
    assert_eq!(b.pop(), Some(Key::Char('x')));
    assert_eq!(b.pop(), Some(Key::Char('y')));
    assert_eq!(b.pop(), None);
}

#[test]
fn pop_empty_is_none() {
    let mut b = EventBridge::new(4);
    assert_eq!(b.pop(), None);
    assert!(b.push(Key::Escape));
    assert_eq!(b.pop(), Some(Key::Escape));
    assert_eq!(b.pop(), None);
}

#[test]
fn interleaved_push_pop_keeps_order() {
    let mut b = EventBridge::new(3);
    assert!(b.push(Key::Char('1')));
    assert!(b.push(Key::Char('2')));
    assert_eq!(b.pop(), Some(Key::Char('1')));
    assert!(b.push(Key::Char('3')));
    assert!(b.push(Key::Char('4')));
    assert!(!b.push(Key::Char('5')));
    assert_eq!(b.pop(), Some(Key::Char('2')));
    assert_eq!(b.pop(), Some(Key::Char('3')));
    assert_eq!(b.pop(), Some(Key::Char('4')));
    assert_eq!(b.pop(), None);
}
