use task_context::machine::{Domain, Invocation, Machine, Mode, Op, Write};

const BASE: u64 = 0x4000;

fn machine(domain: Domain) -> Machine {
    Machine::new(BASE, 4, domain).unwrap()
}

#[test]
fn new_machine_is_zeroed_and_in_kernel_mode() {
    let m = machine(Domain::User);
    assert!(!m.halted());
    assert!(!m.widened());
    assert_eq!(m.fs(), 0);
    assert_eq!(m.mode(), Mode::Kernel);
    assert_eq!(m.calls(), vec![]);
    assert_eq!(m.read(BASE, 0x4000), Some(vec![0u8; 0x4000]));
    assert_eq!(m.key_at(BASE), Some(Domain::User));
    assert_eq!(m.key_at(BASE + 0x3FFF), Some(Domain::User));
}

#[test]
fn new_machine_needs_an_aligned_base_within_the_address_space() {
    assert!(Machine::new(0x4001, 1, Domain::Safe).is_none());
    assert!(Machine::new(0xFFFF_FFFF_FFFF_F000, 1, Domain::Safe).is_none());
    assert!(Machine::new(0xFFFF_FFFF_FFFF_E000, 1, Domain::Safe).is_some());
    assert!(Machine::new(0, usize::MAX, Domain::Safe).is_none());
    assert!(Machine::new(0, 0, Domain::Safe).is_some());
}

#[test]
fn reads_stop_at_the_mapped_range() {
    let m = machine(Domain::Safe);
    assert_eq!(m.read(BASE - 1, 1), None);
    assert_eq!(m.read(BASE + 0x4000, 1), None);
    assert_eq!(m.read(BASE + 0x3FFF, 2), None);
    assert_eq!(m.read(BASE + 0x4000, 0), Some(vec![]));
    assert_eq!(m.read_word(BASE + 0x3FF8), Some(0));
    assert_eq!(m.read_word(BASE + 0x3FF9), None);
    assert_eq!(m.key_at(BASE - 1), None);
    assert_eq!(m.key_at(BASE + 0x4000), None);
}

#[test]
fn direct_write_to_a_safe_page_faults() {
    let mut m = machine(Domain::Safe);
    m.perform(Op::Direct(Write::Word { address: BASE, value: 1 }));
    assert!(m.halted());
    assert_eq!(m.read_word(BASE), Some(0));
}

#[test]
fn direct_write_to_a_shared_page_goes_through() {
    let mut m = machine(Domain::Shared);
    m.perform(Op::Direct(Write::Word { address: BASE + 3, value: 0x1122_3344_5566_7788 }));
    assert!(!m.halted());
    assert_eq!(m.read_word(BASE + 3), Some(0x1122_3344_5566_7788));
    assert_eq!(m.read(BASE, 4), Some(vec![0, 0, 0, 0x88]));
}

#[test]
fn direct_write_across_pages_needs_both_shared() {
    let mut m = machine(Domain::Safe);
    m.perform(Op::Retag { base: BASE, pages: 1, domain: Domain::Shared });
    m.perform(Op::Direct(Write::Word { address: BASE + 0xFF8, value: 5 }));
    assert!(!m.halted());
    assert_eq!(m.read_word(BASE + 0xFF8), Some(5));
    m.perform(Op::Direct(Write::Word { address: BASE + 0xFF9, value: 6 }));
    assert!(m.halted());
    assert_eq!(m.read_word(BASE + 0xFF8), Some(5));
}

#[test]
fn scoped_write_widens_and_restores() {
    let mut m = machine(Domain::Safe);
    m.perform(Op::Scoped(Write::Fill { address: BASE + 8, byte: 0xAB, len: 3 }));
    assert!(!m.halted());
    assert!(!m.widened());
    assert_eq!(m.read(BASE + 7, 5), Some(vec![0, 0xAB, 0xAB, 0xAB, 0]));
    m.perform(Op::Direct(Write::Fill { address: BASE + 8, byte: 0, len: 1 }));
    assert!(m.halted());
}

#[test]
fn scoped_write_restores_the_domain_when_it_faults() {
    let mut m = machine(Domain::Safe);
    m.perform(Op::Scoped(Write::Word { address: BASE + 0x3FFC, value: 1 }));
    assert!(m.halted());
    assert!(!m.widened());
}

#[test]
fn empty_direct_write_is_always_permitted() {
    let mut m = machine(Domain::Safe);
    m.perform(Op::Direct(Write::Fill { address: BASE + 0x4000, byte: 1, len: 0 }));
    assert!(!m.halted());
    m.perform(Op::Direct(Write::Fill { address: BASE + 0x4001, byte: 1, len: 0 }));
    assert!(m.halted());
}

#[test]
fn copy_moves_bytes_within_memory() {
    let mut m = machine(Domain::Shared);
    m.perform(Op::Direct(Write::Word { address: BASE, value: 0x0807_0605_0403_0201 }));
    m.perform(Op::Direct(Write::Copy { source: BASE, target: BASE + 0x1000, len: 6 }));
    assert!(!m.halted());
    assert_eq!(m.read(BASE + 0x1000, 8), Some(vec![1, 2, 3, 4, 5, 6, 0, 0]));
    m.perform(Op::Direct(Write::Copy { source: BASE, target: BASE + 2, len: 6 }));
    assert_eq!(m.read(BASE, 8), Some(vec![1, 2, 1, 2, 3, 4, 5, 6]));
}

#[test]
fn copy_from_unmapped_memory_faults() {
    let mut m = machine(Domain::Shared);
    m.perform(Op::Scoped(Write::Copy { source: BASE - 1, target: BASE, len: 2 }));
    assert!(m.halted());
    assert_eq!(m.read(BASE, 2), Some(vec![0, 0]));
}

#[test]
fn retag_covers_the_page_of_its_base() {
    let mut m = machine(Domain::Safe);
    m.perform(Op::Retag { base: BASE + 0x1800, pages: 2, domain: Domain::User });
    assert!(!m.halted());
    assert_eq!(m.key_at(BASE + 0xFFF), Some(Domain::Safe));
    assert_eq!(m.key_at(BASE + 0x1000), Some(Domain::User));
    assert_eq!(m.key_at(BASE + 0x2FFF), Some(Domain::User));
    assert_eq!(m.key_at(BASE + 0x3000), Some(Domain::Safe));
}

#[test]
fn retag_of_unmapped_pages_faults() {
    let mut m = machine(Domain::Safe);
    m.perform(Op::Retag { base: BASE, pages: 5, domain: Domain::Shared });
    assert!(m.halted());
    assert_eq!(m.key_at(BASE), Some(Domain::Safe));
    let mut m = machine(Domain::Safe);
    m.perform(Op::Retag { base: BASE - 1, pages: 1, domain: Domain::Shared });
    assert!(m.halted());
    let mut m = machine(Domain::Safe);
    m.perform(Op::Retag { base: BASE, pages: 4, domain: Domain::Shared });
    assert!(!m.halted());
    assert_eq!(m.key_at(BASE + 0x3FFF), Some(Domain::Shared));
}

#[test]
fn privilege_changes_must_alternate() {
    let mut m = machine(Domain::Safe);
    m.perform(Op::LeaveUser);
    assert!(m.halted());
    let mut m = machine(Domain::Safe);
    m.perform(Op::EnterUser);
    assert_eq!(m.mode(), Mode::User);
    assert!(!m.halted());
    m.perform(Op::EnterUser);
    assert!(m.halted());
    assert_eq!(m.mode(), Mode::User);
}

#[test]
fn calls_record_mode_and_fs() {
    let mut m = machine(Domain::Safe);
    m.run(&vec![
        Op::Call { func: 1, arg: 2 },
        Op::WriteFs(0x77),
        Op::EnterUser,
        Op::Call { func: 3, arg: 4 },
        Op::LeaveUser,
    ]);
    assert!(!m.halted());
    assert_eq!(m.fs(), 0x77);
    assert_eq!(m.mode(), Mode::Kernel);
    assert_eq!(
        m.calls(),
        vec![
            Invocation { func: 1, arg: 2, mode: Mode::Kernel, fs: 0 },
            Invocation { func: 3, arg: 4, mode: Mode::User, fs: 0x77 },
        ]
    );
}

#[test]
fn halted_machine_ignores_further_operations() {
    let mut m = machine(Domain::Shared);
    m.run(&vec![
        Op::LeaveUser,
        Op::WriteFs(5),
        Op::Direct(Write::Word { address: BASE, value: 9 }),
        Op::Call { func: 1, arg: 1 },
        Op::Retag { base: BASE, pages: 1, domain: Domain::User },
        Op::EnterUser,
    ]);
    assert!(m.halted());
    assert_eq!(m.fs(), 0);
    assert_eq!(m.read_word(BASE), Some(0));
    assert_eq!(m.calls(), vec![]);
    assert_eq!(m.key_at(BASE), Some(Domain::Shared));
    assert_eq!(m.mode(), Mode::Kernel);
}
