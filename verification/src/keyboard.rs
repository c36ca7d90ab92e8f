//! The keyboard driver's task-facing half: raw scancodes are filtered,
//! handed to the external scancode decoder, and every decoded key press
//! is pushed onto the event bridge. The decoder itself — the scancode
//! state machine and the layout — is the `pc_keyboard` crate, reached
//! only through the trusted items below.

use vstd::prelude::*;

use crate::bridge::{spec_push, EventBridge, Key};

verus! {

broadcast use {vstd::std_specs::vec::group_vec_axioms, vstd::seq::group_seq_axioms};

#[verifier::external_type_specification]
#[verifier::external_body]
pub struct ExKeyEvent(pc_keyboard::KeyEvent);

#[verifier::external_type_specification]
#[verifier::external_body]
pub struct ExDecodedKey(pc_keyboard::DecodedKey);

/// The stateful scancode decoder: scan-code-set-2 bytes, AZERTY layout.
/// It must see every byte, presses and releases alike, so that it keeps
/// its modifier state right; what it returns depends on that state. The
/// struct hides a `pc_keyboard::PS2Keyboard`, whose generic bounds Verus
/// cannot take in a type declaration.
#[verifier::external_body]
pub struct ScancodeDecoder {
    decoder: pc_keyboard::PS2Keyboard<pc_keyboard::layouts::Azerty, pc_keyboard::ScancodeSet2>,
}

/// Relies on `pc_keyboard::PS2Keyboard::new`: builds the decoder for scan
/// code set 2 and the AZERTY layout, with Ctrl handling left alone.
#[verifier::external_body]
fn new_decoder() -> ScancodeDecoder {
    ScancodeDecoder {
        decoder: pc_keyboard::PS2Keyboard::new(
            pc_keyboard::ScancodeSet2::new(),
            pc_keyboard::layouts::Azerty,
            pc_keyboard::HandleControl::Ignore,
        ),
    }
}

/// Relies on `pc_keyboard::PS2Keyboard::add_byte`: advances the scancode
/// state machine by one byte; zero or one key event comes out, and a
/// protocol error is treated as no event.
#[verifier::external_body]
fn kb_add_byte(kb: &mut ScancodeDecoder, b: u8) -> Option<pc_keyboard::KeyEvent> {
    match kb.decoder.add_byte(b) {
        Ok(ev) => ev,
        Err(_) => None,
    }
}

/// Relies on `pc_keyboard::PS2Keyboard::process_keyevent`: updates the
/// modifier state with the event and decodes key presses — releases
/// decode to nothing.
#[verifier::external_body]
fn kb_process(
    kb: &mut ScancodeDecoder,
    ev: pc_keyboard::KeyEvent,
) -> Option<pc_keyboard::DecodedKey> {
    kb.decoder.process_keyevent(ev)
}

/// Reads a decoded key as one of the library's key events: a character,
/// or the named Backspace and Escape keys; every other named key is
/// dropped, as the shell has no use for it.
#[verifier::external_body]
fn decoded_to_key(d: pc_keyboard::DecodedKey) -> Option<Key> {
    match d {
        pc_keyboard::DecodedKey::Unicode(c) => Some(Key::Char(c)),
        pc_keyboard::DecodedKey::RawKey(code) => match code {
            pc_keyboard::KeyCode::Backspace => Some(Key::Backspace),
            pc_keyboard::KeyCode::Escape => Some(Key::Escape),
            _ => None,
        },
    }
}

/// Whether the byte is a controller protocol code — acknowledge, resend,
/// or self-test chatter — that must not reach the decoder.
pub open spec fn is_protocol_byte(b: u8) -> bool {
    b == 0xFA || b == 0xFE || b == 0xAA || b == 0x00
}

impl ScancodeDecoder {
    /// A fresh decoder.
    pub fn new() -> ScancodeDecoder {
        new_decoder()
    }
}

/// Feeds one raw scancode into the decoder and pushes the decoded key
/// press, if one comes out, onto the event bridge. Protocol bytes are
/// filtered out before the decoder; what the decoder returns depends on
/// its internal modifier state, so all that holds of every outcome is
/// that the bridge gains at most one event at its tail — and nothing at
/// all for a protocol byte.
pub fn handle_scancode(decoder: &mut ScancodeDecoder, bridge: &mut EventBridge, scancode: u8)
    requires
        old(bridge).wf(),
    ensures
        final(bridge).wf(),
        final(bridge).cap() == old(bridge).cap(),
        is_protocol_byte(scancode) ==> final(bridge).view() == old(bridge).view(),
        final(bridge).view() == old(bridge).view() || exists|k: Key|
            final(bridge).view() == #[trigger] spec_push(
                old(bridge).view(),
                old(bridge).cap(),
                k,
            ).0,
{
    if scancode == 0xFA || scancode == 0xFE || scancode == 0xAA || scancode == 0x00 {
        return ;
    }
    if let Some(ev) = kb_add_byte(decoder, scancode) {
        if let Some(d) = kb_process(decoder, ev) {
            if let Some(k) = decoded_to_key(d) {
                let _ = bridge.push(k);
                proof {
                    assert(bridge.view() == spec_push(old(bridge).view(), old(bridge).cap(), k).0);
                }
            }
        }
    }
}

} // verus!
