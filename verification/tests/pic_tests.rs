use ham_dos::pic::{ChainedPics, EndOfInterrupt};

#[test]
fn remap_reachable_vectors() {
    // Remap to 32/40, unmask only the timer and keyboard lines on the
    // primary chip: exactly vectors 32 and 33 come through.
    let mut pics = ChainedPics::new(0x08, 0x70);
    pics.remap(32, 40);
    pics.write_masks(0b1111_1100, 0xFF);
    for v in 0..=255u8 {
        let expected = v == 32 || v == 33;
        assert_eq!(pics.vector_reachable(v), expected, "vector {}", v);
    }
}

#[test]
fn cascade_gates_secondary() {
    let mut pics = ChainedPics::new(32, 40);
    // Secondary line 0 unmasked, but the primary cascade line (2) masked:
    // nothing from the secondary chip comes through.
    pics.write_masks(0xFF, 0b1111_1110);
    assert!(!pics.vector_reachable(40));
    // Unmask the cascade line and it is deliverable.
    pics.write_masks(0b1111_1011, 0b1111_1110);
    assert!(pics.vector_reachable(40));
    assert!(!pics.vector_reachable(41));
}

#[test]
fn remap_keeps_masks() {
    let mut pics = ChainedPics::new(0x08, 0x70);
    pics.write_masks(0xAA, 0x55);
    pics.remap(32, 40);
    assert_eq!(pics.primary.mask, 0xAA);
    assert_eq!(pics.secondary.mask, 0x55);
    assert_eq!(pics.primary.offset, 32);
    assert_eq!(pics.secondary.offset, 40);
}

#[test]
fn end_of_interrupt_targets() {
    let pics = ChainedPics::new(32, 40);
    assert_eq!(pics.notify_end_of_interrupt(33), EndOfInterrupt::PrimaryOnly);
    assert_eq!(pics.notify_end_of_interrupt(32), EndOfInterrupt::PrimaryOnly);
    assert_eq!(pics.notify_end_of_interrupt(40), EndOfInterrupt::Both);
    assert_eq!(pics.notify_end_of_interrupt(47), EndOfInterrupt::Both);
    assert_eq!(pics.notify_end_of_interrupt(10), EndOfInterrupt::Neither);
    assert_eq!(pics.notify_end_of_interrupt(48), EndOfInterrupt::Neither);
}

#[test]
fn handles_interrupt_ranges() {
    let pics = ChainedPics::new(32, 40);
    assert!(pics.handles_interrupt(32));
    assert!(pics.handles_interrupt(39));
    assert!(pics.handles_interrupt(40));
    assert!(pics.handles_interrupt(47));
    assert!(!pics.handles_interrupt(31));
    assert!(!pics.handles_interrupt(48));
}

#[test]
fn disable_masks_everything() {
    let mut pics = ChainedPics::new(32, 40);
    pics.write_masks(0, 0);
    pics.disable();
    for v in 0..=255u8 {
        assert!(!pics.vector_reachable(v));
    }
}
