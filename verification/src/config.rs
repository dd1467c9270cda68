//! Constants of the x86-64 task ABI and the sizes a kernel build chooses.

use vstd::prelude::*;

verus! {

/// Size of a page, the unit in which protection keys are assigned.
pub const PAGE_SIZE: u64 = 4096;

/// Size of a machine word in bytes.
pub const WORD_SIZE: u64 = 8;

/// Byte with which a stack is filled before a frame is written to it.
pub const STACK_FILL: u8 = 0xCD;

/// Word stored near the top of a stack to make overruns visible.
pub const STACK_MARKER: u64 = 0xDEAD_BEEF;

/// Distance of the marker word below the top of the stack.
pub const MARKER_OFFSET: u64 = 0x10;

/// Flag word of a new task: interrupts enabled, reserved bit set.
pub const INITIAL_RFLAGS: u64 = 0x1202;

/// Alignment of the thread-local storage area in front of its base.
pub const TLS_ALIGNMENT: u64 = 32;

/// Distance between a stack pointer recorded at boot and the stack top.
pub const BOOT_STACK_OFFSET: u64 = 0x10;

/// Tasks with an identity below this one run without leaving kernel mode.
pub const FIRST_USER_TASK: u32 = 2;

/// What one kernel build fixes: the stack sizes and the addresses of the
/// code that new frames point at.
#[derive(Clone, Copy, Debug, PartialEq, Eq)]
pub struct Config {
    /// Size of the normal, the isolated and the user stack.
    pub default_stack_size: u64,
    /// Size of the stack on which interrupts are served.
    pub kernel_stack_size: u64,
    /// Address of the trampoline, the first code of every new task.
    pub task_entry: u64,
    /// Address of the exit stub a task body returns into.
    pub leave_task: u64,
    /// Interrupt vector of the timer.
    pub timer_vector: u8,
}

impl Config {
    /// The default stack is a positive number of whole pages.
    pub open spec fn wf(&self) -> bool {
        &&& self.default_stack_size > 0
        &&& self.default_stack_size % PAGE_SIZE == 0
    }

    /// Number of pages of a default-sized stack.
    pub open spec fn stack_pages(&self) -> int {
        self.default_stack_size as int / (PAGE_SIZE as int)
    }

    /// Tells whether the configuration is well formed.
    pub fn check(&self) -> (ok: bool)
        ensures
            ok == self.wf(),
    {
        self.default_stack_size > 0 && self.default_stack_size % PAGE_SIZE == 0
    }
}

/// `value` rounded up to the next multiple of `alignment`.
pub open spec fn spec_align_up(value: int, alignment: int) -> int {
    if value % alignment == 0 {
        value
    } else {
        value + alignment - value % alignment
    }
}

/// Rounds `value` up to the next multiple of `alignment`.
pub fn align_up(value: u64, alignment: u64) -> (aligned: u64)
    requires
        alignment > 0,
        spec_align_up(value as int, alignment as int) <= u64::MAX,
    ensures
        aligned == spec_align_up(value as int, alignment as int),
        aligned % alignment == 0,
        value <= aligned < value + alignment,
{
    let rest: u64 = value % alignment;
    if rest == 0 {
        value
    } else {
        let aligned: u64 = value + (alignment - rest);
        assert(aligned % alignment == 0) by (nonlinear_arith)
            requires
                aligned == value + alignment - rest,
                rest == value % alignment,
                alignment > 0,
        ;
        aligned
    }
}

} // verus!
