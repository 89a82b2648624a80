//! Decoder for the standard PS/2 mouse motion packet.
//!
//! A packet is four bytes. Byte 0 carries the button bits (0..=2), a
//! mandatory marker in bit 3, and the sign bits of the X and Y deltas in
//! bits 4 and 5. Bytes 1 and 2 are the magnitudes of the X and Y deltas;
//! a set sign bit turns magnitude `m` into `m - 256`. Byte 3's low nibble
//! is the wheel delta in four-bit two's complement. A packet whose marker
//! bit is clear is discarded and the previously decoded state is kept.

use vstd::prelude::*;

verus! {

/// Instantaneous deltas decoded from the latest accepted packet.
#[derive(Debug, Copy, Clone, PartialEq, Eq, Structural)]
pub struct Position {
    pub x: isize,
    pub y: isize,
    pub z: isize,
}

/// Buttons reported by the latest accepted packet.
#[derive(Debug, Copy, Clone, Eq, PartialEq, Structural)]
pub struct MouseButtonState {
    pub left_button_clicked: bool,
    pub right_button_clicked: bool,
    pub middle_button_clicked: bool,
}

/// The buttons encoded in bits 0..=2 of a packet's first byte.
pub open spec fn spec_button_state(state: u8) -> MouseButtonState {
    MouseButtonState {
        left_button_clicked: state & 0x01 != 0,
        right_button_clicked: state & 0x02 != 0,
        middle_button_clicked: state & 0x04 != 0,
    }
}

impl MouseButtonState {
    pub fn new() -> (r: MouseButtonState)
        ensures
            r == (MouseButtonState {
                left_button_clicked: false,
                right_button_clicked: false,
                middle_button_clicked: false,
            }),
    {
        MouseButtonState {
            left_button_clicked: false,
            right_button_clicked: false,
            middle_button_clicked: false,
        }
    }

    pub fn parse_state(state: u8) -> (r: MouseButtonState)
        ensures
            r == spec_button_state(state),
    {
        MouseButtonState {
            left_button_clicked: (state & 0b00000001) != 0,
            right_button_clicked: (state & 0b00000010) != 0,
            middle_button_clicked: (state & 0b00000100) != 0,
        }
    }
}

/// A magnitude byte together with its sign bit: `m` when the sign bit is
/// clear, `m - 256` when it is set (so 0xFF decodes to -1).
pub open spec fn spec_signed_delta(magnitude: u8, negative: bool) -> int {
    if negative {
        magnitude - 256
    } else {
        magnitude as int
    }
}

/// The wheel delta held in a packet's fourth byte: its low nibble in
/// four-bit two's complement, so values 8..=15 stand for -8..=-1.
pub open spec fn spec_wheel_delta(byte: u8) -> int {
    let nibble = byte & 0x0F;
    if nibble >= 8 {
        nibble - 16
    } else {
        nibble as int
    }
}

/// Whether a packet's first byte has the mandatory marker bit set; a
/// packet without it is discarded.
pub open spec fn spec_packet_valid(state: u8) -> bool {
    state & 0x8 != 0
}

/// Decoder state for a mouse device. It does not accumulate a screen
/// position: it holds only the deltas of the latest accepted packet, since
/// the raw data needs filtering and clipping by the caller to stay useful.
#[derive(Debug, Copy, Clone, Eq, PartialEq, Structural)]
pub struct Mouse {
    pub current_x: isize,
    pub current_y: isize,
    pub current_z: isize,
    pub button_state: MouseButtonState,
}

impl Mouse {
    pub fn new() -> (r: Mouse)
        ensures
            r.current_x == 0,
            r.current_y == 0,
            r.current_z == 0,
            r.button_state == (MouseButtonState {
                left_button_clicked: false,
                right_button_clicked: false,
                middle_button_clicked: false,
            }),
    {
        Mouse {
            current_x: 0,
            current_y: 0,
            current_z: 0,
            button_state: MouseButtonState::new(),
        }
    }

    /// Decode one four-byte packet. A packet whose marker bit is clear is
    /// dropped and the state is left exactly as it was; otherwise the
    /// buttons and the three deltas are replaced by the packet's contents.
    pub fn add_standard_packet(&mut self, packet: [u8; 4])
        ensures
            !spec_packet_valid(packet[0]) ==> *final(self) == *old(self),
            spec_packet_valid(packet[0]) ==> {
                &&& final(self).button_state == spec_button_state(packet[0])
                &&& final(self).current_x
                    == spec_signed_delta(packet[1], packet[0] & 0x10 != 0)
                &&& final(self).current_y
                    == spec_signed_delta(packet[2], packet[0] & 0x20 != 0)
                &&& final(self).current_z == spec_wheel_delta(packet[3])
            },
    {
        let state = packet[0];

        // Some emulated controllers send one extra packet after the device
        // is re-enabled; it always lacks the marker bit, so it is dropped.
        if state & 0x8 == 0 {
            return;
        }

        self.button_state = MouseButtonState::parse_state(state);
        assert(1u8 << 4 == 0x10 && 1u8 << 5 == 0x20) by (bit_vector);
        self.current_x = Mouse::get_signed_value(packet[1], state, 4);
        self.current_y = Mouse::get_signed_value(packet[2], state, 5);
        self.current_z = Mouse::get_z_value(packet[3]);
    }

    pub fn get_position(&self) -> (r: Position)
        ensures
            r == (Position { x: self.current_x, y: self.current_y, z: self.current_z }),
    {
        Position { x: self.current_x, y: self.current_y, z: self.current_z }
    }

    pub fn get_button_state(&self) -> (r: MouseButtonState)
        ensures
            r == self.button_state,
    {
        self.button_state
    }

    /// Apply the sign bit found at `bit_index` of the packet's first byte
    /// to a magnitude byte, via the `256 - value` two's-complement
    /// correction.
    fn get_signed_value(packet_value: u8, state: u8, bit_index: u8) -> (r: isize)
        requires
            bit_index < 8,
        ensures
            r == spec_signed_delta(packet_value, state & (1u8 << bit_index) != 0),
    {
        let is_negative = (state & (1u8 << bit_index)) != 0;
        let value = packet_value as u16;

        let ret: i16 = if is_negative {
            let mut v = (256 - value) as i16;
            v = -v;
            v
        } else {
            value as i16
        };

        ret as isize
    }

    /// Decode the wheel delta from the packet's fourth byte.
    fn get_z_value(packet_value: u8) -> (r: isize)
        ensures
            r == spec_wheel_delta(packet_value),
    {
        let z_axis = packet_value & 0x0F;
        assert(z_axis < 16 && (z_axis & 0x8 != 0 ==> 8 <= z_axis && !z_axis < 255)) by (bit_vector)
            requires
                z_axis == packet_value & 0x0F,
        ;
        if (z_axis & 0x8) != 0 {
            let magnitude = (!z_axis + 1) & 0x0F;
            assert(magnitude == 16 - z_axis) by (bit_vector)
                requires
                    magnitude == ((!z_axis + 1) as u8) & 0x0F && z_axis & 0x8 != 0 && z_axis < 16,
            ;
            -(magnitude as isize)
        } else {
            assert(z_axis & 0x8 == 0 ==> z_axis < 8) by (bit_vector)
                requires
                    z_axis < 16,
            ;
            z_axis as isize
        }
    }
}

} // verus!
