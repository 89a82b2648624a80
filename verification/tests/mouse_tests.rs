use ham_dos::mouse::{Mouse, MouseButtonState, Position};

#[test]
fn test_buttons() {
    // Left and middle pressed, with the mandatory marker bit (bit 3) set.
    let s = 0b00001101;
    let mut m = Mouse::new();
    m.add_standard_packet([s, 0, 0, 0]);
    let bs = MouseButtonState {
        left_button_clicked: true,
        right_button_clicked: false,
        middle_button_clicked: true,
    };
    assert_eq!(m.get_button_state(), bs);
    assert_eq!(m.get_position(), Position { x: 0, y: 0, z: 0 });
}

#[test]
fn buttons_without_marker_are_dropped() {
    // The same button bits without the marker: the packet is discarded.
    let mut m = Mouse::new();
    m.add_standard_packet([0b00000101, 0, 0, 0]);
    assert_eq!(m.get_button_state(), MouseButtonState::new());
}

#[test]
fn invalid_packet_keeps_state() {
    let mut m = Mouse::new();
    m.add_standard_packet([0b00001001, 0x02, 0x03, 0x04]);
    let before_buttons = m.get_button_state();
    let before_position = m.get_position();
    // Marker bit (bit 3) clear: the packet is dropped whole.
    m.add_standard_packet([0b00000111, 0xFF, 0xFF, 0x0F]);
    assert_eq!(m.get_button_state(), before_buttons);
    assert_eq!(m.get_position(), before_position);
}

#[test]
fn sign_decode() {
    let mut m = Mouse::new();
    // Marker set, X sign set (bit 4), Y sign clear.
    m.add_standard_packet([0b00011000, 0xFF, 0x01, 0]);
    let p = m.get_position();
    assert_eq!(p.x, -1);
    assert_eq!(p.y, 1);
}

#[test]
fn sign_decode_extremes() {
    let mut m = Mouse::new();
    // Magnitude zero with the sign bit set decodes to -256.
    m.add_standard_packet([0b00011000, 0x00, 0xFF, 0]);
    let p = m.get_position();
    assert_eq!(p.x, -256);
    assert_eq!(p.y, 255);
}

#[test]
fn wheel_decode() {
    let mut m = Mouse::new();
    m.add_standard_packet([0x08, 0, 0, 0x0F]);
    assert_eq!(m.get_position().z, -1);
    m.add_standard_packet([0x08, 0, 0, 0x07]);
    assert_eq!(m.get_position().z, 7);
    m.add_standard_packet([0x08, 0, 0, 0x08]);
    assert_eq!(m.get_position().z, -8);
    // Only the low nibble of the fourth byte is the wheel delta.
    m.add_standard_packet([0x08, 0, 0, 0xF3]);
    assert_eq!(m.get_position().z, 3);
}

#[test]
fn parse_state_bits() {
    let bs = MouseButtonState::parse_state(0b00000010);
    assert!(bs.right_button_clicked);
    assert!(!bs.left_button_clicked);
    assert!(!bs.middle_button_clicked);
}
