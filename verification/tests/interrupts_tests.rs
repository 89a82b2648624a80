use ham_dos::interrupts::{
    FaultOutcome, HandlerKind, InterruptIndex, InterruptTable, BREAKPOINT_VECTOR,
    DOUBLE_FAULT_IST_INDEX, DOUBLE_FAULT_VECTOR, PIC_1_OFFSET, PIC_2_OFFSET,
};

#[test]
fn interrupt_index_vectors() {
    assert_eq!(InterruptIndex::Timer.as_u8(), 32);
    assert_eq!(InterruptIndex::Keyboard.as_u8(), 33);
    assert_eq!(InterruptIndex::Timer.as_usize(), 32);
    assert_eq!(InterruptIndex::Keyboard.as_usize(), 33);
    assert_eq!(PIC_1_OFFSET, 32);
    assert_eq!(PIC_2_OFFSET, 40);
}

#[test]
fn table_shape() {
    let t = InterruptTable::build();
    assert_eq!(t.entries.len(), 256);
    assert_eq!(t.entries[BREAKPOINT_VECTOR as usize].handler, HandlerKind::Breakpoint);
    assert_eq!(t.entries[DOUBLE_FAULT_VECTOR as usize].handler, HandlerKind::DoubleFault);
    assert_eq!(t.entries[32].handler, HandlerKind::Timer);
    assert_eq!(t.entries[33].handler, HandlerKind::Keyboard);
    assert_eq!(t.entries[0].handler, HandlerKind::Missing);
    assert_eq!(t.entries[255].handler, HandlerKind::Missing);
}

#[test]
fn double_fault_runs_on_its_own_stack() {
    let t = InterruptTable::build();
    assert_eq!(
        t.entries[DOUBLE_FAULT_VECTOR as usize].stack_index,
        Some(DOUBLE_FAULT_IST_INDEX)
    );
    for v in 0..256usize {
        if v != DOUBLE_FAULT_VECTOR as usize {
            assert_eq!(t.entries[v].stack_index, None, "vector {}", v);
        }
    }
}

#[test]
fn outcomes() {
    let t = InterruptTable::build();
    // A breakpoint is never fatal; a double fault always is; a vector
    // nobody registered is a hard halt.
    assert_eq!(t.outcome_for_vector(BREAKPOINT_VECTOR), FaultOutcome::Resume);
    assert_eq!(t.outcome_for_vector(DOUBLE_FAULT_VECTOR), FaultOutcome::Halt);
    assert_eq!(t.outcome_for_vector(32), FaultOutcome::Resume);
    assert_eq!(t.outcome_for_vector(33), FaultOutcome::Resume);
    assert_eq!(t.outcome_for_vector(100), FaultOutcome::Halt);
}
