use task_context::config::Config;
use task_context::stacks::{
    Allocation, Pool, Region, StackRequests, TaskStacks, TaskStateSegment,
};

fn config() -> Config {
    Config {
        default_stack_size: 0x8000,
        kernel_stack_size: 0x4000,
        task_entry: 0x20_1000,
        leave_task: 0x20_2000,
        timer_vector: 123,
    }
}

fn boot_state() -> TaskStateSegment {
    TaskStateSegment { rsp: [0x80_0000 - 0x10, 1, 2], ist: [0x90_0000 - 0x10, 3, 4, 5, 6, 7, 8] }
}

#[test]
fn requests_ask_for_four_executable_stacks() {
    assert_eq!(
        TaskStacks::requests(&config()),
        StackRequests {
            stack: Allocation { pool: Pool::Kernel, size: 0x8000, executable: true },
            ist0: Allocation { pool: Pool::User, size: 0x4000, executable: true },
            isolated_stack: Allocation { pool: Pool::Isolated, size: 0x8000, executable: true },
            user_stack: Allocation { pool: Pool::User, size: 0x8000, executable: true },
        }
    );
}

#[test]
fn new_stacks_are_not_boot_stacks() {
    let stacks = TaskStacks::new(0x1000, 0x2000, 0x3000, 0x4000);
    assert!(!stacks.is_boot_stack);
    assert_eq!(stacks.stack, 0x1000);
    assert_eq!(stacks.ist0, 0x2000);
    assert_eq!(stacks.isolated_stack, 0x3000);
    assert_eq!(stacks.user_stack, 0x4000);
}

#[test]
fn default_stacks_are_all_zero() {
    assert_eq!(TaskStacks::default(), TaskStacks::new(0, 0, 0, 0));
}

#[test]
fn boot_stacks_lie_below_the_recorded_pointers() {
    let cfg = config();
    let tss = boot_state();
    assert!(TaskStacks::check_boot_state(&cfg, &tss));
    let stacks = TaskStacks::from_boot_stacks(&cfg, &tss);
    assert!(stacks.is_boot_stack);
    assert_eq!(stacks.stack, 0x80_0000 - 0x4000);
    assert_eq!(stacks.ist0, 0x90_0000 - 0x4000);
    assert_eq!(stacks.isolated_stack, 0);
    assert_eq!(stacks.user_stack, 0);
}

#[test]
fn boot_state_is_checked_for_both_pointers() {
    let cfg = config();
    let mut tss = boot_state();
    tss.rsp[0] = 0x3FEF;
    assert!(!TaskStacks::check_boot_state(&cfg, &tss));
    tss.rsp[0] = 0x3FF0;
    assert!(TaskStacks::check_boot_state(&cfg, &tss));
    tss.ist[0] = u64::MAX - 0xF;
    assert!(!TaskStacks::check_boot_state(&cfg, &tss));
    tss.ist[0] = u64::MAX - 0x10;
    assert!(TaskStacks::check_boot_state(&cfg, &tss));
    assert_eq!(TaskStacks::from_boot_stacks(&cfg, &tss).stack, 0);
    assert_eq!(TaskStacks::from_boot_stacks(&cfg, &tss).ist0, u64::MAX - 0x4000);
}

#[test]
fn boot_stacks_are_never_released() {
    let cfg = config();
    let stacks = TaskStacks::from_boot_stacks(&cfg, &boot_state());
    assert_eq!(stacks.release(&cfg), vec![]);
}

#[test]
fn allocated_stacks_are_released_once_each() {
    let cfg = config();
    let stacks = TaskStacks::new(0x1000, 0x2000, 0x3000, 0x4000);
    assert_eq!(
        stacks.release(&cfg),
        vec![
            Region { address: 0x1000, size: 0x8000 },
            Region { address: 0x2000, size: 0x4000 },
            Region { address: 0x3000, size: 0x8000 },
            Region { address: 0x4000, size: 0x8000 },
        ]
    );
}

#[test]
fn released_sizes_are_the_requested_sizes() {
    let cfg = config();
    let requests = TaskStacks::requests(&cfg);
    let regions = TaskStacks::new(1, 2, 3, 4).release(&cfg);
    assert_eq!(regions.len(), 4);
    assert_eq!(regions[0].size, requests.stack.size);
    assert_eq!(regions[1].size, requests.ist0.size);
    assert_eq!(regions[2].size, requests.isolated_stack.size);
    assert_eq!(regions[3].size, requests.user_stack.size);
}
