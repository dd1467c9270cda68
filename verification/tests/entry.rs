use task_context::entry::{
    check_block, leave_task, task_entry, tls_block_size, tls_wanted, Termination, TlsTemplate,
};
use task_context::machine::{Domain, Invocation, Machine, Mode, Op, Write};
use task_context::stacks::TaskStacks;
use task_context::task::{Task, TaskTLS};

const BASE: u64 = 0x10_0000;
const TEMPLATE: u64 = 0x10_0100;
const BLOCK: u64 = 0x10_2000;
const FUNC: u64 = 0x40_1234;

fn task(id: u32) -> Task {
    Task {
        id,
        stacks: TaskStacks::new(0x1000, 0x2000, 0x3000, 0x4000),
        last_stack_pointer: 0x1F50,
        user_stack_pointer: 0x5000,
        tls: None,
    }
}

fn template() -> TlsTemplate {
    TlsTemplate { start: TEMPLATE, filesz: 16, memsz: 100 }
}

fn machine_with_template() -> Machine {
    let mut machine = Machine::new(BASE, 4, Domain::Isolated).unwrap();
    machine.run(&vec![
        Op::Scoped(Write::Word { address: TEMPLATE, value: 0x0807_0605_0403_0201 }),
        Op::Scoped(Write::Word { address: TEMPLATE + 8, value: 0x100F_0E0D_0C0B_0A09 }),
        Op::Scoped(Write::Fill { address: BLOCK, byte: 0xEE, len: 136 }),
    ]);
    machine
}

#[test]
fn tls_block_holds_the_aligned_storage_and_one_word() {
    let size = |memsz: u64| tls_block_size(2, &TlsTemplate { start: 0, filesz: 0, memsz });
    assert_eq!(size(0), None);
    assert_eq!(size(1), Some(40));
    assert_eq!(size(32), Some(40));
    assert_eq!(size(33), Some(72));
    assert_eq!(size(100), Some(136));
    assert_eq!(size(u64::MAX - 31), Some(u64::MAX - 23));
    assert_eq!(tls_block_size(u32::MAX, &template()), Some(136));
}

#[test]
fn privileged_tasks_ask_for_no_tls_block() {
    for id in [0u32, 1] {
        assert!(!tls_wanted(id, &template()));
        assert_eq!(tls_block_size(id, &template()), None);
        let huge = TlsTemplate { start: 0, filesz: 0, memsz: u64::MAX };
        assert_eq!(tls_block_size(id, &huge), None);
    }
    assert!(tls_wanted(2, &template()));
    assert!(!tls_wanted(2, &TlsTemplate { start: TEMPLATE, filesz: 0, memsz: 0 }));
}

#[test]
fn template_check_guards_the_size_computation() {
    assert!(TlsTemplate { start: 0, filesz: 0, memsz: u64::MAX - 31 }.check());
    assert!(!TlsTemplate { start: 0, filesz: 0, memsz: u64::MAX - 30 }.check());
    assert!(!TlsTemplate { start: 0, filesz: 0, memsz: u64::MAX }.check());
    assert!(TlsTemplate { start: 0, filesz: 9, memsz: 0 }.check());
}

#[test]
fn block_check_wants_the_asked_size() {
    let t = template();
    assert!(check_block(2, &t, &Some(TaskTLS { address: BLOCK, size: 136 })));
    assert!(!check_block(2, &t, &Some(TaskTLS { address: BLOCK, size: 128 })));
    assert!(!check_block(2, &t, &None));
    assert!(!check_block(2, &t, &Some(TaskTLS { address: u64::MAX - 135, size: 136 })));
    assert!(check_block(2, &t, &Some(TaskTLS { address: u64::MAX - 136, size: 136 })));
    let none = TlsTemplate { start: 0, filesz: 0, memsz: 0 };
    assert!(check_block(2, &none, &None));
    assert!(check_block(2, &none, &Some(TaskTLS { address: 1, size: 2 })));
    let huge = TlsTemplate { start: 0, filesz: 0, memsz: u64::MAX };
    assert!(!check_block(2, &huge, &Some(TaskTLS { address: 0, size: 7 })));
}

#[test]
fn block_check_wants_nothing_for_privileged_tasks() {
    let t = template();
    for id in [0u32, 1] {
        assert!(check_block(id, &t, &None));
        assert!(check_block(id, &t, &Some(TaskTLS { address: BLOCK, size: 1 })));
        let huge = TlsTemplate { start: 0, filesz: 0, memsz: u64::MAX };
        assert!(check_block(id, &huge, &None));
    }
}

#[test]
fn user_task_with_tls_gives_the_program() {
    let mut t = task(2);
    let block = Some(TaskTLS { address: BLOCK, size: 136 });
    let ops = task_entry(&mut t, &template(), block, FUNC, 7);
    assert_eq!(
        ops,
        vec![
            Op::Scoped(Write::Word { address: BLOCK + 128, value: BLOCK + 128 }),
            Op::WriteFs(BLOCK + 128),
            Op::Scoped(Write::Copy { source: TEMPLATE, target: BLOCK, len: 16 }),
            Op::EnterUser,
            Op::Call { func: FUNC, arg: 7 },
            Op::LeaveUser,
        ]
    );
    assert_eq!(t.tls, block);
    assert_eq!(t.id, 2);
    assert_eq!(t.last_stack_pointer, 0x1F50);
    assert_eq!(t.user_stack_pointer, 0x5000);
    assert_eq!(t.stacks, TaskStacks::new(0x1000, 0x2000, 0x3000, 0x4000));
}

#[test]
fn privileged_task_calls_its_body_directly() {
    for id in [0u32, 1] {
        let mut t = task(id);
        let none = TlsTemplate { start: 0, filesz: 0, memsz: 0 };
        let ops = task_entry(&mut t, &none, None, FUNC, 7);
        assert_eq!(ops, vec![Op::Call { func: FUNC, arg: 7 }]);
        assert_eq!(t.tls, None);
    }
}

#[test]
fn task_without_tls_keeps_what_it_had() {
    let mut t = task(5);
    let had = Some(TaskTLS { address: 0x9000, size: 40 });
    t.tls = had;
    let none = TlsTemplate { start: 0x7000, filesz: 0, memsz: 0 };
    let given = Some(TaskTLS { address: BLOCK, size: 136 });
    let ops = task_entry(&mut t, &none, given, FUNC, 7);
    assert_eq!(ops, vec![Op::EnterUser, Op::Call { func: FUNC, arg: 7 }, Op::LeaveUser]);
    assert_eq!(t.tls, had);
}

#[test]
fn first_run_of_a_user_task_with_tls() {
    let mut machine = machine_with_template();
    let mut t = task(2);
    let size = tls_block_size(t.id, &template()).unwrap();
    let block = Some(TaskTLS { address: BLOCK, size });
    assert!(check_block(t.id, &template(), &block));
    let ops = task_entry(&mut t, &template(), block, FUNC, 7);
    machine.run(&ops);

    assert!(!machine.halted());
    assert!(!machine.widened());
    let base = BLOCK + 128;
    assert_eq!(machine.fs(), base);
    assert_eq!(machine.read_word(machine.fs()), Some(base));
    assert_eq!(
        machine.read(BLOCK, 16),
        Some(vec![1, 2, 3, 4, 5, 6, 7, 8, 9, 10, 11, 12, 13, 14, 15, 16])
    );
    // The rest of the storage area is as the memory manager left it.
    assert_eq!(machine.read(BLOCK + 16, 112), Some(vec![0xEE; 112]));
    assert_eq!(machine.mode(), Mode::Kernel);
    assert_eq!(
        machine.calls(),
        vec![Invocation { func: FUNC, arg: 7, mode: Mode::User, fs: base }]
    );
    assert_eq!(t.tls, block);
    assert_eq!(machine.key_at(BLOCK), Some(Domain::Isolated));
}

#[test]
fn first_run_of_a_privileged_task_with_tls() {
    for id in [0u32, 1] {
        let mut machine = machine_with_template();
        machine.perform(Op::WriteFs(0x5555));
        let mut t = task(id);
        let had = Some(TaskTLS { address: 0x9000, size: 40 });
        t.tls = had;
        assert_eq!(tls_block_size(id, &template()), None);
        assert!(check_block(id, &template(), &None));
        let ops = task_entry(&mut t, &template(), None, FUNC, 7);
        assert_eq!(ops, vec![Op::Call { func: FUNC, arg: 7 }]);
        machine.run(&ops);

        assert!(!machine.halted());
        assert!(!machine.widened());
        assert_eq!(machine.fs(), 0x5555);
        assert_eq!(machine.mode(), Mode::Kernel);
        assert_eq!(
            machine.calls(),
            vec![Invocation { func: FUNC, arg: 7, mode: Mode::Kernel, fs: 0x5555 }]
        );
        assert_eq!(t.tls, had);
        // Nothing was written where a block would have been set up.
        assert_eq!(machine.read(BLOCK, 136), Some(vec![0xEE; 136]));
    }
}

#[test]
fn privileged_task_ignores_a_block_that_is_handed_in() {
    let mut machine = machine_with_template();
    let mut t = task(1);
    let given = Some(TaskTLS { address: BLOCK, size: 136 });
    let ops = task_entry(&mut t, &template(), given, FUNC, 7);
    assert_eq!(ops, vec![Op::Call { func: FUNC, arg: 7 }]);
    machine.run(&ops);
    assert_eq!(machine.fs(), 0);
    assert_eq!(machine.read(BLOCK, 136), Some(vec![0xEE; 136]));
    assert_eq!(t.tls, None);
}

#[test]
fn setup_leaves_the_template_as_it_was() {
    let mut machine = machine_with_template();
    let mut t = task(2);
    let block = Some(TaskTLS { address: BLOCK, size: 136 });
    let before = machine.read(TEMPLATE, 16);
    let ops = task_entry(&mut t, &template(), block, FUNC, 7);
    machine.run(&ops);
    assert!(!machine.halted());
    assert_eq!(machine.read(TEMPLATE, 16), before);
    assert_eq!(machine.read(BLOCK, 16), before);
}

#[test]
fn storage_of_aligned_size_fills_the_block_to_its_base() {
    let mut machine = machine_with_template();
    let mut t = task(2);
    let full = TlsTemplate { start: TEMPLATE, filesz: 16, memsz: 32 };
    let block = Some(TaskTLS { address: BLOCK, size: 40 });
    let ops = task_entry(&mut t, &full, block, FUNC, 7);
    machine.run(&ops);
    assert!(!machine.halted());
    assert_eq!(machine.fs(), BLOCK + 32);
    assert_eq!(machine.read_word(BLOCK + 32), Some(BLOCK + 32));
    assert_eq!(machine.read(BLOCK + 40, 8), Some(vec![0xEE; 8]));
}

#[test]
fn body_that_returns_exits_with_zero() {
    assert_eq!(leave_task(), Termination { code: 0 });
}
