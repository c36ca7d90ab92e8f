//! The PS/2 mouse packet parser: three-byte packets are assembled one byte
//! at a time, movement deltas are sign-extended and the pointer position is
//! clamped to the text screen. Talking to the controller ports is hardware
//! work and stays outside the library.

use vstd::prelude::*;

verus! {

broadcast use {vstd::std_specs::vec::group_vec_axioms, vstd::seq::group_seq_axioms};

/// A mouse button, as flagged in the first packet byte.
#[derive(Debug, Clone, Copy, PartialEq, Eq, Structural)]
pub enum MouseButton {
    Left,
    Right,
    Middle,
}

/// The parser state: how much of the current packet has arrived, its
/// bytes, and the pointer position.
pub struct MouseState {
    pub packet_index: usize,
    pub packet: Vec<u8>,
    pub x_position: i32,
    pub y_position: i32,
    pub initialized: bool,
}

/// Model of the parser state.
pub struct MouseModel {
    pub idx: int,
    pub packet: Seq<u8>,
    pub x: int,
    pub y: int,
    pub init: bool,
}

/// The model of the parser state.
pub open spec fn mouse_model(s: MouseState) -> MouseModel {
    MouseModel {
        idx: s.packet_index as int,
        packet: s.packet@,
        x: s.x_position as int,
        y: s.y_position as int,
        init: s.initialized,
    }
}

/// `v` forced into the interval `[lo, hi]`.
pub open spec fn clamp_spec(v: int, lo: int, hi: int) -> int {
    if v < lo {
        lo
    } else if v > hi {
        hi
    } else {
        v
    }
}

/// The horizontal movement of a packet: the second byte, sign-extended by
/// the X-sign flag.
pub open spec fn mouse_dx(flags: u8, b: u8) -> int {
    if flags & 0x10 != 0 {
        b - 256
    } else {
        b as int
    }
}

/// The vertical movement of a packet: the third byte, sign-extended by the
/// Y-sign flag, with the axis flipped so that down is positive.
pub open spec fn mouse_dy(flags: u8, b: u8) -> int {
    if flags & 0x20 != 0 {
        -(b - 256)
    } else {
        -(b as int)
    }
}

/// What one incoming byte does to the parser: bytes are dropped until the
/// parser is initialized; a first byte without the always-set bit 3 is
/// discarded; a completed packet is discarded on either overflow flag,
/// else it moves the pointer, clamped to the 80x25 text screen.
pub open spec fn mouse_step(m: MouseModel, byte: u8) -> MouseModel {
    if !m.init {
        m
    } else if m.idx >= 3 {
        MouseModel { idx: 0, ..m }
    } else if m.idx == 0 && byte & 0x08 == 0 {
        MouseModel { idx: 0, ..m }
    } else {
        let p = m.packet.update(m.idx, byte);
        if m.idx + 1 == 3 {
            let flags = p[0];
            if flags & 0x40 != 0 || flags & 0x80 != 0 {
                MouseModel { idx: 0, packet: p, ..m }
            } else {
                MouseModel {
                    idx: 0,
                    packet: p,
                    x: clamp_spec(m.x + mouse_dx(flags, p[1]), 0, 79),
                    y: clamp_spec(m.y + mouse_dy(flags, p[2]), 0, 24),
                    init: m.init,
                }
            }
        } else {
            MouseModel { idx: m.idx + 1, packet: p, ..m }
        }
    }
}

impl MouseState {
    /// Invariant: a three-byte packet buffer, the index within it, and the
    /// pointer on the 80x25 text screen.
    pub open spec fn wf(self) -> bool {
        &&& self.packet@.len() == 3
        &&& self.packet_index <= 3
        &&& 0 <= self.x_position <= 79
        &&& 0 <= self.y_position <= 24
    }

    /// A fresh parser: not yet initialized, pointer at the screen centre.
    pub fn new() -> (r: MouseState)
        ensures
            r.wf(),
            mouse_model(r) == (MouseModel {
                idx: 0,
                packet: seq![0u8, 0u8, 0u8],
                x: 40,
                y: 12,
                init: false,
            }),
    {
        let mut packet: Vec<u8> = Vec::new();
        packet.push(0);
        packet.push(0);
        packet.push(0);
        let r = MouseState {
            packet_index: 0,
            packet,
            x_position: 40,
            y_position: 12,
            initialized: false,
        };
        proof {
            assert(r.packet@ =~= seq![0u8, 0u8, 0u8]);
        }
        r
    }

    /// Marks the parser ready, once the controller has been set up.
    pub fn set_initialized(&mut self)
        ensures
            final(self).wf() == old(self).wf(),
            mouse_model(*final(self)) == (MouseModel { init: true, ..mouse_model(*old(self)) }),
    {
        self.initialized = true;
    }
}

/// Feeds one byte from the mouse into the parser.
pub fn handle_mouse_packet(state: &mut MouseState, byte: u8)
    requires
        old(state).wf(),
    ensures
        final(state).wf(),
        mouse_model(*final(state)) == mouse_step(mouse_model(*old(state)), byte),
{
    if !state.initialized {
        return ;
    }
    let index = state.packet_index;
    if index >= 3 {
        state.packet_index = 0;
        return ;
    }
    if index == 0 && byte & 0x08 == 0 {
        state.packet_index = 0;
        return ;
    }
    let slot = &mut state.packet[index];
    *slot = byte;
    if index + 1 == 3 {
        state.packet_index = 0;
        let flags = state.packet[0];
        if flags & 0x40 != 0 || flags & 0x80 != 0 {
            return ;
        }
        let mut dx: i32 = state.packet[1] as i32;
        if flags & 0x10 != 0 {
            dx = dx - 256;
        }
        let mut dy: i32 = state.packet[2] as i32;
        if flags & 0x20 != 0 {
            dy = dy - 256;
        }
        let dy = -dy;
        state.x_position = clamp_i32(state.x_position + dx, 0, 79);
        state.y_position = clamp_i32(state.y_position + dy, 0, 24);
    } else {
        state.packet_index = index + 1;
    }
}

/// `v` forced into the interval `[lo, hi]`.
fn clamp_i32(v: i32, lo: i32, hi: i32) -> (r: i32)
    ensures
        r == clamp_spec(v as int, lo as int, hi as int),
{
    if v < lo {
        lo
    } else if v > hi {
        hi
    } else {
        v
    }
}

/// The pointer position.
pub fn get_position(state: &MouseState) -> (r: (i32, i32))
    ensures
        r.0 == state.x_position && r.1 == state.y_position,
{
    (state.x_position, state.y_position)
}

/// Whether the given button is flagged in the packet being assembled;
/// nothing is flagged between packets.
pub fn is_button_pressed(state: &MouseState, button: MouseButton) -> (r: bool)
    requires
        state.wf(),
    ensures
        r == (state.packet_index > 0 && ({
            let flags = state.packet@[0];
            match button {
                MouseButton::Left => flags & 0x01 != 0,
                MouseButton::Right => flags & 0x02 != 0,
                MouseButton::Middle => flags & 0x04 != 0,
            }
        })),
{
    if state.packet_index > 0 {
        let flags = state.packet[0];
        match button {
            MouseButton::Left => flags & 0x01 != 0,
            MouseButton::Right => flags & 0x02 != 0,
            MouseButton::Middle => flags & 0x04 != 0,
        }
    } else {
        false
    }
}

} // verus!
