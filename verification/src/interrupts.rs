//! Shape of the interrupt vector table and the exception-routing rules.
//!
//! The CPU consults a 256-entry table mapping vector numbers to handlers;
//! an entry may name an alternate stack to switch to. The table here is
//! the kernel's dispatch plan: which vectors are populated, which stack
//! each runs on, and whether the fault is survivable. The binary builds
//! the processor's own table to this plan, loads it once at boot, and
//! never changes it. The one invariant that keeps a kernel-stack overflow
//! reportable: the double-fault entry runs on an alternate stack distinct
//! from the normal kernel stack, which no other entry uses.

use vstd::prelude::*;

verus! {

/// Vector number of the breakpoint exception.
pub const BREAKPOINT_VECTOR: u8 = 3;

/// Vector number of the double-fault exception.
pub const DOUBLE_FAULT_VECTOR: u8 = 8;

/// First vector free of CPU exceptions: where the primary interrupt
/// controller is remapped to.
pub const PIC_1_OFFSET: u8 = 32;

/// Where the secondary interrupt controller is remapped to.
pub const PIC_2_OFFSET: u8 = PIC_1_OFFSET + 8;

/// Slot in the stack-switch table that holds the dedicated double-fault
/// stack.
pub const DOUBLE_FAULT_IST_INDEX: u16 = 0;

/// Hardware interrupts after the remap.
#[derive(Debug, Copy, Clone, Eq, PartialEq, Structural)]
pub enum InterruptIndex {
    Timer,
    Keyboard,
}

impl InterruptIndex {
    /// The vector this interrupt arrives on: the remapped lines start at
    /// the primary controller's offset, the timer first, the keyboard
    /// next.
    pub fn as_u8(self) -> (r: u8)
        ensures
            self == InterruptIndex::Timer ==> r == PIC_1_OFFSET,
            self == InterruptIndex::Keyboard ==> r == PIC_1_OFFSET + 1,
    {
        match self {
            InterruptIndex::Timer => PIC_1_OFFSET,
            InterruptIndex::Keyboard => PIC_1_OFFSET + 1,
        }
    }

    pub fn as_usize(self) -> (r: usize)
        ensures
            self == InterruptIndex::Timer ==> r == PIC_1_OFFSET,
            self == InterruptIndex::Keyboard ==> r == PIC_1_OFFSET + 1,
    {
        usize::from(self.as_u8())
    }
}

/// The handler an entry routes to.
#[derive(Debug, Copy, Clone, Eq, PartialEq, Structural)]
pub enum HandlerKind {
    /// No handler registered: reaching this vector is a hard halt.
    Missing,
    /// Log the captured frame and resume.
    Breakpoint,
    /// Always fatal: log the frame and halt. The architectural error code
    /// is always zero and is discarded.
    DoubleFault,
    /// Acknowledge the controller and resume.
    Timer,
    /// Read the pending scancode byte, hand it to the keyboard decoder,
    /// acknowledge the controller, resume.
    Keyboard,
}

/// What becomes of the interrupted context once the handler ran.
#[derive(Debug, Copy, Clone, Eq, PartialEq, Structural)]
pub enum FaultOutcome {
    /// The handler returns and execution continues.
    Resume,
    /// The kernel halts; there is no resumption.
    Halt,
}

/// One vector's entry: its handler and, if set, the index of the
/// alternate stack it runs on.
#[derive(Debug, Copy, Clone, Eq, PartialEq, Structural)]
pub struct IdtEntry {
    pub handler: HandlerKind,
    pub stack_index: Option<u16>,
}

/// The kernel's dispatch plan for all 256 vectors. Built once at boot,
/// read-only thereafter.
pub struct InterruptTable {
    pub entries: Vec<IdtEntry>,
}

/// A table the kernel may load: full size, and the double-fault entry on
/// an alternate stack that no other entry shares — a fault during stack
/// exhaustion must not land on the exhausted stack.
pub open spec fn spec_table_wf(t: InterruptTable) -> bool {
    &&& t.entries.len() == 256
    &&& t.entries[DOUBLE_FAULT_VECTOR as int].stack_index == Some(DOUBLE_FAULT_IST_INDEX)
    &&& forall|v: int|
        0 <= v < 256 && v != DOUBLE_FAULT_VECTOR ==> t.entries[v].stack_index is None
}

/// The entry every unregistered vector keeps.
pub open spec fn spec_missing_entry() -> IdtEntry {
    IdtEntry { handler: HandlerKind::Missing, stack_index: None }
}

impl InterruptTable {
    /// The boot-time table: breakpoint and double-fault exceptions, the
    /// remapped timer and keyboard lines, and nothing else. Only the
    /// double-fault entry switches stacks.
    pub fn build() -> (r: InterruptTable)
        ensures
            spec_table_wf(r),
            r.entries[BREAKPOINT_VECTOR as int].handler == HandlerKind::Breakpoint,
            r.entries[DOUBLE_FAULT_VECTOR as int].handler == HandlerKind::DoubleFault,
            r.entries[PIC_1_OFFSET as int].handler == HandlerKind::Timer,
            r.entries[PIC_1_OFFSET + 1 as int].handler == HandlerKind::Keyboard,
            forall|v: int|
                0 <= v < 256 && v != BREAKPOINT_VECTOR && v != DOUBLE_FAULT_VECTOR && v
                    != PIC_1_OFFSET && v != PIC_1_OFFSET + 1 ==> r.entries[v]
                    == spec_missing_entry(),
    {
        let mut entries: Vec<IdtEntry> = Vec::new();
        while entries.len() < 256
            invariant
                entries.len() <= 256,
                forall|v: int| 0 <= v < entries.len() ==> entries[v] == spec_missing_entry(),
            decreases 256 - entries.len(),
        {
            entries.push(IdtEntry { handler: HandlerKind::Missing, stack_index: None });
        }
        entries.set(
            BREAKPOINT_VECTOR as usize,
            IdtEntry { handler: HandlerKind::Breakpoint, stack_index: None },
        );
        entries.set(
            DOUBLE_FAULT_VECTOR as usize,
            IdtEntry {
                handler: HandlerKind::DoubleFault,
                stack_index: Some(DOUBLE_FAULT_IST_INDEX),
            },
        );
        entries.set(
            PIC_1_OFFSET as usize,
            IdtEntry { handler: HandlerKind::Timer, stack_index: None },
        );
        entries.set(
            PIC_1_OFFSET as usize + 1,
            IdtEntry { handler: HandlerKind::Keyboard, stack_index: None },
        );
        InterruptTable { entries }
    }

    /// What hitting the given vector does to the machine: a breakpoint is
    /// never fatal, a double fault always is, and a vector nobody
    /// registered is a hard halt.
    pub fn outcome_for_vector(&self, vector: u8) -> (r: FaultOutcome)
        requires
            spec_table_wf(*self),
        ensures
            self.entries[vector as int].handler == HandlerKind::Missing ==> r
                == FaultOutcome::Halt,
            self.entries[vector as int].handler == HandlerKind::DoubleFault ==> r
                == FaultOutcome::Halt,
            self.entries[vector as int].handler == HandlerKind::Breakpoint ==> r
                == FaultOutcome::Resume,
            self.entries[vector as int].handler == HandlerKind::Timer ==> r
                == FaultOutcome::Resume,
            self.entries[vector as int].handler == HandlerKind::Keyboard ==> r
                == FaultOutcome::Resume,
    {
        let entry = self.entries[vector as usize];
        match entry.handler {
            HandlerKind::Missing => FaultOutcome::Halt,
            HandlerKind::DoubleFault => FaultOutcome::Halt,
            HandlerKind::Breakpoint => FaultOutcome::Resume,
            HandlerKind::Timer => FaultOutcome::Resume,
            HandlerKind::Keyboard => FaultOutcome::Resume,
        }
    }
}

/// In a well-formed table the double-fault entry is the only one that
/// switches stacks: a fault raised while the kernel stack is exhausted
/// still reaches its handler on a sound stack, so it is logged rather
/// than escalating to an uncontrolled reset.
pub proof fn lemma_double_fault_stack_isolated(t: InterruptTable)
    requires
        spec_table_wf(t),
    ensures
        t.entries[DOUBLE_FAULT_VECTOR as int].stack_index is Some,
        forall|v: int|
            0 <= v < 256 && v != DOUBLE_FAULT_VECTOR ==> #[trigger] t.entries[v].stack_index
                != t.entries[DOUBLE_FAULT_VECTOR as int].stack_index,
{
}

} // verus!
