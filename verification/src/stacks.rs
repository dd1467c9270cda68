//! The four stacks of a task: where they come from and where they go.

use vstd::prelude::*;
use crate::config::{Config, BOOT_STACK_OFFSET};

verus! {

/// Entry point of the memory manager that a region is asked from.
#[derive(Clone, Copy, Debug, PartialEq, Eq, Structural)]
pub enum Pool {
    /// Memory of the kernel itself.
    Kernel,
    /// Memory that code at user privilege may use.
    User,
    /// Memory under the restrictive protection domain.
    Isolated,
}

/// A request to the memory manager.
#[derive(Clone, Copy, Debug, PartialEq, Eq, Structural)]
pub struct Allocation {
    pub pool: Pool,
    pub size: u64,
    pub executable: bool,
}

/// The requests that bring a task its four stacks.
#[derive(Clone, Copy, Debug, PartialEq, Eq, Structural)]
pub struct StackRequests {
    pub stack: Allocation,
    pub ist0: Allocation,
    pub isolated_stack: Allocation,
    pub user_stack: Allocation,
}

/// A region that goes back to the memory manager.
#[derive(Clone, Copy, Debug, PartialEq, Eq, Structural)]
pub struct Region {
    pub address: u64,
    pub size: u64,
}

/// The stack pointers that the task-state segment records: one per
/// privilege level and one per interrupt stack.
#[derive(Clone, Copy, Debug, PartialEq, Eq)]
pub struct TaskStateSegment {
    pub rsp: [u64; 3],
    pub ist: [u64; 7],
}

/// The memory a task runs on.
#[derive(Debug, PartialEq, Eq)]
pub struct TaskStacks {
    /// Whether the stacks are those the processor was booted on, which
    /// belong to the architecture and not to the task.
    pub is_boot_stack: bool,
    /// Stack of the task.
    pub stack: u64,
    /// Stack on which asynchronous interrupts are served.
    pub ist0: u64,
    /// Stack for fault-isolated execution.
    pub isolated_stack: u64,
    /// Stack for execution at user privilege.
    pub user_stack: u64,
}

impl TaskStacks {
    /// What a new task asks of the memory manager. Every stack is
    /// executable, so that code generated on a stack can run.
    pub open spec fn spec_requests(cfg: Config) -> StackRequests {
        StackRequests {
            stack: Allocation { pool: Pool::Kernel, size: cfg.default_stack_size, executable: true },
            ist0: Allocation { pool: Pool::User, size: cfg.kernel_stack_size, executable: true },
            isolated_stack: Allocation {
                pool: Pool::Isolated,
                size: cfg.default_stack_size,
                executable: true,
            },
            user_stack: Allocation {
                pool: Pool::User,
                size: cfg.default_stack_size,
                executable: true,
            },
        }
    }

    /// The stacks of a new task that the memory manager placed at the four
    /// given addresses.
    pub open spec fn spec_new(
        stack: u64,
        ist0: u64,
        isolated_stack: u64,
        user_stack: u64,
    ) -> TaskStacks {
        TaskStacks { is_boot_stack: false, stack, ist0, isolated_stack, user_stack }
    }

    /// Address of a boot stack whose pointer was recorded as `pointer`.
    pub open spec fn boot_stack_base(cfg: Config, pointer: u64) -> int {
        pointer + BOOT_STACK_OFFSET - cfg.kernel_stack_size
    }

    /// Whether the stack pointers of `tss` can be those of boot stacks: the
    /// stack below each of them lies within the address space.
    pub open spec fn boot_state_valid(cfg: Config, tss: TaskStateSegment) -> bool {
        &&& tss.rsp[0] + BOOT_STACK_OFFSET <= u64::MAX
        &&& tss.ist[0] + BOOT_STACK_OFFSET <= u64::MAX
        &&& 0 <= Self::boot_stack_base(cfg, tss.rsp[0])
        &&& 0 <= Self::boot_stack_base(cfg, tss.ist[0])
    }

    /// The stacks of the task that the processor was booted as.
    pub open spec fn spec_from_boot_stacks(cfg: Config, tss: TaskStateSegment) -> TaskStacks {
        TaskStacks {
            is_boot_stack: true,
            stack: Self::boot_stack_base(cfg, tss.rsp[0]) as u64,
            ist0: Self::boot_stack_base(cfg, tss.ist[0]) as u64,
            isolated_stack: 0,
            user_stack: 0,
        }
    }

    /// The regions that go back to the memory manager when the stacks are
    /// given up, in the order in which they go.
    pub open spec fn released(&self, cfg: Config) -> Seq<Region> {
        if self.is_boot_stack {
            Seq::empty()
        } else {
            seq![
                Region { address: self.stack, size: cfg.default_stack_size },
                Region { address: self.ist0, size: cfg.kernel_stack_size },
                Region { address: self.isolated_stack, size: cfg.default_stack_size },
                Region { address: self.user_stack, size: cfg.default_stack_size },
            ]
        }
    }

    /// The requests to make of the memory manager for a new task.
    pub fn requests(cfg: &Config) -> (requests: StackRequests)
        ensures
            requests == Self::spec_requests(*cfg),
    {
        StackRequests {
            stack: Allocation { pool: Pool::Kernel, size: cfg.default_stack_size, executable: true },
            ist0: Allocation { pool: Pool::User, size: cfg.kernel_stack_size, executable: true },
            isolated_stack: Allocation {
                pool: Pool::Isolated,
                size: cfg.default_stack_size,
                executable: true,
            },
            user_stack: Allocation {
                pool: Pool::User,
                size: cfg.default_stack_size,
                executable: true,
            },
        }
    }

    /// The stacks of a new task. The arguments are the addresses with which
    /// the memory manager answered the requests of [`TaskStacks::requests`].
    pub fn new(stack: u64, ist0: u64, isolated_stack: u64, user_stack: u64) -> (stacks: TaskStacks)
        ensures
            stacks == Self::spec_new(stack, ist0, isolated_stack, user_stack),
    {
        TaskStacks { is_boot_stack: false, stack, ist0, isolated_stack, user_stack }
    }

    /// Tells whether the stack pointers of `tss` can be those of boot stacks.
    pub fn check_boot_state(cfg: &Config, tss: &TaskStateSegment) -> (ok: bool)
        ensures
            ok == Self::boot_state_valid(*cfg, *tss),
    {
        tss.rsp[0] <= u64::MAX - BOOT_STACK_OFFSET && tss.ist[0] <= u64::MAX - BOOT_STACK_OFFSET
            && tss.rsp[0] + BOOT_STACK_OFFSET >= cfg.kernel_stack_size && tss.ist[0]
            + BOOT_STACK_OFFSET >= cfg.kernel_stack_size
    }

    /// The stacks of the task that the processor was booted as. The normal
    /// stack and the interrupt stack are those that `tss` records; there is
    /// no isolated stack and no user stack.
    pub fn from_boot_stacks(cfg: &Config, tss: &TaskStateSegment) -> (stacks: TaskStacks)
        requires
            Self::boot_state_valid(*cfg, *tss),
        ensures
            stacks == Self::spec_from_boot_stacks(*cfg, *tss),
    {
        let stack: u64 = tss.rsp[0] + BOOT_STACK_OFFSET - cfg.kernel_stack_size;
        let ist0: u64 = tss.ist[0] + BOOT_STACK_OFFSET - cfg.kernel_stack_size;
        TaskStacks { is_boot_stack: true, stack, ist0, isolated_stack: 0, user_stack: 0 }
    }

    /// Gives the stacks up. The result lists the regions to hand back to the
    /// memory manager: none for boot stacks, and all four for others.
    pub fn release(self, cfg: &Config) -> (regions: Vec<Region>)
        ensures
            regions@ == self.released(*cfg),
    {
        let mut regions: Vec<Region> = Vec::new();
        if !self.is_boot_stack {
            regions.push(Region { address: self.stack, size: cfg.default_stack_size });
            regions.push(Region { address: self.ist0, size: cfg.kernel_stack_size });
            regions.push(Region { address: self.isolated_stack, size: cfg.default_stack_size });
            regions.push(Region { address: self.user_stack, size: cfg.default_stack_size });
        }
        assert(regions@ =~= self.released(*cfg));
        regions
    }
}

impl Default for TaskStacks {
    /// Stacks that are not boot stacks, with every address zero.
    fn default() -> (stacks: TaskStacks)
        ensures
            stacks == TaskStacks::spec_new(0, 0, 0, 0),
    {
        TaskStacks { is_boot_stack: false, stack: 0, ist0: 0, isolated_stack: 0, user_stack: 0 }
    }
}

/// Boot stacks are never handed to the memory manager.
pub proof fn lemma_boot_stacks_are_kept(cfg: Config, tss: TaskStateSegment)
    ensures
        TaskStacks::spec_from_boot_stacks(cfg, tss).released(cfg).len() == 0,
{
}

/// Allocated stacks are handed back whole: the four regions, each with the
/// size it was asked with, and nothing else. Where the four addresses
/// differ, no region is handed back twice.
pub proof fn lemma_allocated_stacks_are_released(
    cfg: Config,
    stack: u64,
    ist0: u64,
    isolated_stack: u64,
    user_stack: u64,
)
    ensures
        ({
            let stacks = TaskStacks::spec_new(stack, ist0, isolated_stack, user_stack);
            let requests = TaskStacks::spec_requests(cfg);
            &&& stacks.released(cfg) == seq![
                Region { address: stack, size: requests.stack.size },
                Region { address: ist0, size: requests.ist0.size },
                Region { address: isolated_stack, size: requests.isolated_stack.size },
                Region { address: user_stack, size: requests.user_stack.size },
            ]
            &&& (stack != ist0 && stack != isolated_stack && stack != user_stack && ist0
                != isolated_stack && ist0 != user_stack && isolated_stack != user_stack)
                ==> stacks.released(cfg).no_duplicates()
        }),
{
}

} // verus!
