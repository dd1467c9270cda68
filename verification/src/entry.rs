//! The trampoline: what a task does before its body runs, and after.

use vstd::prelude::*;
use crate::config::{align_up, spec_align_up, FIRST_USER_TASK, TLS_ALIGNMENT, WORD_SIZE};
use crate::frame::{lemma_word_roundtrip, word_bytes};
use crate::machine::{
    lemma_overlay, lemma_run_concat, lemma_run_push, lemma_scoped_write_stores, overlay,
    Invocation, MachineState, Mode, Op, Write,
};
use crate::task::{Task, TaskTLS};

verus! {

/// Where the image of a program keeps the initial content of its
/// thread-local storage.
#[derive(Clone, Copy, Debug, PartialEq, Eq, Structural)]
pub struct TlsTemplate {
    /// Address of the initialized data.
    pub start: u64,
    /// Size of the initialized data.
    pub filesz: u64,
    /// Size of the whole thread-local storage; zero if the program has none.
    pub memsz: u64,
}

/// How a task ends when its body returns.
#[derive(Clone, Copy, Debug, PartialEq, Eq, Structural)]
pub struct Termination {
    /// Exit code handed to the scheduler.
    pub code: i32,
}

impl TlsTemplate {
    /// Size of the storage, rounded up to the alignment of its base.
    pub open spec fn aligned_size(&self) -> int {
        spec_align_up(self.memsz as int, TLS_ALIGNMENT as int)
    }

    /// Size of the block that holds the storage and, behind it, the word
    /// that its base points at.
    pub open spec fn block_size(&self) -> int {
        self.aligned_size() + WORD_SIZE
    }

    /// The size of the block is in the range of a word.
    pub open spec fn fits(&self) -> bool {
        self.block_size() <= u64::MAX
    }

    /// Tells whether the size of a block for the storage is in the range of
    /// a word.
    pub fn check(&self) -> (ok: bool)
        ensures
            ok == self.fits(),
    {
        self.memsz <= u64::MAX - (TLS_ALIGNMENT - 1)
    }
}

/// Whether the trampoline of task `id` sets up thread-local storage: the
/// task is not one of the privileged ones, whose trampoline does nothing
/// but call the body, and the program has such storage.
pub open spec fn spec_tls_wanted(id: u32, template: TlsTemplate) -> bool {
    id >= FIRST_USER_TASK && template.memsz > 0
}

/// Tells whether the trampoline of task `id` sets up thread-local storage.
pub fn tls_wanted(id: u32, template: &TlsTemplate) -> (wanted: bool)
    ensures
        wanted == spec_tls_wanted(id, *template),
{
    id >= FIRST_USER_TASK && template.memsz > 0
}

/// Size of the block to ask of the memory manager for the thread-local
/// storage of task `id`, or `None` where the trampoline sets none up.
pub fn tls_block_size(id: u32, template: &TlsTemplate) -> (size: Option<u64>)
    requires
        spec_tls_wanted(id, *template) ==> template.fits(),
    ensures
        size == if spec_tls_wanted(id, *template) {
            Some(template.block_size() as u64)
        } else {
            None
        },
{
    if id >= FIRST_USER_TASK && template.memsz > 0 {
        Some(align_up(template.memsz, TLS_ALIGNMENT) + WORD_SIZE)
    } else {
        None
    }
}

/// Whether `block` is what `task_entry` needs for task `id`: nothing where
/// the trampoline sets no thread-local storage up, else a block of the size
/// that `tls_block_size` gives, which ends within the address space.
pub open spec fn block_matches(id: u32, template: TlsTemplate, block: Option<TaskTLS>) -> bool {
    spec_tls_wanted(id, template) ==> (block matches Some(b) && b.size == template.block_size()
        && b.address + b.size <= u64::MAX)
}

/// Tells whether `block` is what `task_entry` needs for task `id`.
pub fn check_block(id: u32, template: &TlsTemplate, block: &Option<TaskTLS>) -> (ok: bool)
    ensures
        ok == block_matches(id, *template, *block),
{
    if !tls_wanted(id, template) {
        return true;
    }
    if !template.check() {
        return false;
    }
    match tls_block_size(id, template) {
        None => true,
        Some(size) => match block {
            None => false,
            Some(b) => b.size == size && b.address <= u64::MAX - b.size,
        },
    }
}

/// The operations that set up thread-local storage in the block at `block`.
/// The base of the storage lies behind the aligned storage area, and the
/// word at the base holds the base itself, as the ABI asks. The write goes
/// through a protection-domain scope, since the block may be isolated. The
/// `fs` segment is pointed at the base, and the initialized data is copied
/// to the start of the block, through a scope of its own for the same
/// reason.
pub open spec fn tls_ops(template: TlsTemplate, block: u64) -> Seq<Op> {
    let base = (block + template.aligned_size()) as u64;
    seq![
        Op::Scoped(Write::Word { address: base, value: base }),
        Op::WriteFs(base),
        Op::Scoped(Write::Copy { source: template.start, target: block, len: template.filesz }),
    ]
}

/// The operations that run the body of task `id`: directly for the
/// privileged tasks, and between the drop to user privilege and the return
/// from it for all others.
pub open spec fn call_ops(id: u32, func: u64, arg: u64) -> Seq<Op> {
    if id >= FIRST_USER_TASK {
        seq![Op::EnterUser, Op::Call { func, arg }, Op::LeaveUser]
    } else {
        seq![Op::Call { func, arg }]
    }
}

/// The program of the trampoline. A privileged task calls its body and
/// does nothing else. Any other task first sets up thread-local storage,
/// if the program has any, and calls its body at user privilege.
pub open spec fn entry_ops(
    id: u32,
    template: TlsTemplate,
    block: Option<TaskTLS>,
    func: u64,
    arg: u64,
) -> Seq<Op> {
    if spec_tls_wanted(id, template) {
        tls_ops(template, block->0.address) + call_ops(id, func, arg)
    } else {
        call_ops(id, func, arg)
    }
}

/// The trampoline. `block` is the block that the memory manager gave for
/// the thread-local storage of the task, where `tls_block_size` asked for
/// one. The result is the program that sets the storage up, where the
/// trampoline does so, and runs the body `func` with `arg`. A task whose
/// storage is set up keeps the block as its thread-local storage; any
/// other task keeps what it had.
pub fn task_entry(
    task: &mut Task,
    template: &TlsTemplate,
    block: Option<TaskTLS>,
    func: u64,
    arg: u64,
) -> (ops: Vec<Op>)
    requires
        block_matches(old(task).id, *template, block),
    ensures
        ops@ == entry_ops(old(task).id, *template, block, func, arg),
        final(task).tls == if spec_tls_wanted(old(task).id, *template) {
            block
        } else {
            old(task).tls
        },
        final(task).id == old(task).id,
        final(task).stacks == old(task).stacks,
        final(task).last_stack_pointer == old(task).last_stack_pointer,
        final(task).user_stack_pointer == old(task).user_stack_pointer,
{
    let mut ops: Vec<Op> = Vec::new();
    if task.id >= FIRST_USER_TASK {
        if template.memsz > 0 {
            match block {
                Some(tls) => {
                    let base: u64 = tls.address + align_up(template.memsz, TLS_ALIGNMENT);
                    ops.push(Op::Scoped(Write::Word { address: base, value: base }));
                    ops.push(Op::WriteFs(base));
                    ops.push(
                        Op::Scoped(
                            Write::Copy {
                                source: template.start,
                                target: tls.address,
                                len: template.filesz,
                            },
                        ),
                    );
                    task.tls = Some(tls);
                },
                None => {},
            }
        }
        let ghost setup = ops@;
        ops.push(Op::EnterUser);
        ops.push(Op::Call { func, arg });
        ops.push(Op::LeaveUser);
        proof {
            if template.memsz > 0 {
                assert(setup =~= tls_ops(*template, block->0.address));
            }
            assert(ops@ =~= setup + call_ops(old(task).id, func, arg));
            assert(Seq::<Op>::empty() + call_ops(old(task).id, func, arg) =~= call_ops(
                old(task).id,
                func,
                arg,
            ));
        }
    } else {
        ops.push(Op::Call { func, arg });
        assert(ops@ =~= call_ops(old(task).id, func, arg));
    }
    ops
}

/// The exit stub: a task whose body returns ends with exit code zero.
pub fn leave_task() -> (end: Termination)
    ensures
        end.code == 0,
{
    Termination { code: 0 }
}

/// A machine on which the thread-local storage of `template` can be set up
/// in the block at `block`: the block and the initialized data are mapped
/// and lie apart, and the initialized data is no larger than the aligned
/// storage area.
pub open spec fn tls_ready(machine: MachineState, template: TlsTemplate, block: u64) -> bool {
    &&& machine.wf()
    &&& !machine.halted
    &&& template.fits()
    &&& template.memsz > 0
    &&& template.filesz <= template.aligned_size()
    &&& machine.mapped(block as int, template.block_size())
    &&& machine.mapped(template.start as int, template.filesz as int)
    &&& (template.start + template.filesz <= block || block + template.block_size()
        <= template.start)
}

/// The machine after thread-local storage was set up in the block at
/// `block`: the word at the base of the storage holds the base, the
/// initialized data lies at the start of the block, and `fs` holds the base.
pub open spec fn tls_set(machine: MachineState, template: TlsTemplate, block: u64) -> MachineState {
    let base = block + template.aligned_size();
    MachineState {
        bytes: overlay(
            overlay(machine.bytes, base - machine.base, word_bytes(base as u64)),
            block - machine.base,
            machine.load(template.start as int, template.filesz as int),
        ),
        fs: base as u64,
        ..machine
    }
}

/// The machine after the body of task `id` was called and has returned.
pub open spec fn called(machine: MachineState, id: u32, func: u64, arg: u64) -> MachineState {
    let mode = if id >= FIRST_USER_TASK {
        Mode::User
    } else {
        Mode::Kernel
    };
    MachineState {
        calls: machine.calls.push(Invocation { func, arg, mode, fs: machine.fs }),
        ..machine
    }
}

/// Setting up thread-local storage runs without a fault and changes the
/// block and `fs` alone.
pub proof fn lemma_tls_ops_run(machine: MachineState, template: TlsTemplate, block: u64)
    requires
        tls_ready(machine, template, block),
    ensures
        machine.run(tls_ops(template, block)) == tls_set(machine, template, block),
{
    let base = (block + template.aligned_size()) as u64;
    let pointer = Write::Word { address: base, value: base };
    let copy = Write::Copy { source: template.start, target: block, len: template.filesz };
    let ops0 = Seq::<Op>::empty();
    let ops1 = ops0.push(Op::Scoped(pointer));
    let ops2 = ops1.push(Op::WriteFs(base));
    let ops3 = ops2.push(Op::Scoped(copy));
    assert(tls_ops(template, block) =~= ops3);
    lemma_run_push(machine, ops0, Op::Scoped(pointer));
    lemma_run_push(machine, ops1, Op::WriteFs(base));
    lemma_run_push(machine, ops2, Op::Scoped(copy));
    assert(machine.run(ops0) == machine);

    lemma_scoped_write_stores(machine, pointer);
    let s1 = machine.store(base as int, word_bytes(base));
    lemma_overlay(machine.bytes, base - machine.base, word_bytes(base));
    let s2 = s1.step(Op::WriteFs(base));
    lemma_scoped_write_stores(s2, copy);
    assert(s2.load(template.start as int, template.filesz as int) =~= machine.load(
        template.start as int,
        template.filesz as int,
    ));
}

/// The self-reference of thread-local storage. For a program with
/// thread-local storage, after the setup the word at the base of the
/// storage is the address of the base, `fs` holds that address, and the
/// start of the block holds the initialized data of the program, which is
/// itself unchanged. The protection domain is as it was found.
pub proof fn lemma_tls_layout(machine: MachineState, template: TlsTemplate, block: u64)
    requires
        tls_ready(machine, template, block),
    ensures
        ({
            let after = machine.run(tls_ops(template, block));
            let base = block + template.aligned_size();
            &&& !after.halted
            &&& after.widened == machine.widened
            &&& after.fs == base
            &&& after.word_at(base) == base
            &&& after.load(block as int, template.filesz as int) == machine.load(
                template.start as int,
                template.filesz as int,
            )
            &&& after.load(template.start as int, template.filesz as int) == machine.load(
                template.start as int,
                template.filesz as int,
            )
        }),
{
    lemma_tls_ops_run(machine, template, block);
    let after = tls_set(machine, template, block);
    let base = (block + template.aligned_size()) as u64;
    let data = machine.load(template.start as int, template.filesz as int);
    let pointed = overlay(machine.bytes, base - machine.base, word_bytes(base));
    lemma_overlay(machine.bytes, base - machine.base, word_bytes(base));
    lemma_overlay(pointed, block - machine.base, data);
    assert(after.load(base as int, 8) =~= word_bytes(base));
    lemma_word_roundtrip(base);
    assert(after.load(block as int, template.filesz as int) =~= data);
    assert(after.load(template.start as int, template.filesz as int) =~= data);
}

/// The body of a task runs at user privilege exactly when the task is not
/// one of the privileged ones, and the machine is back in kernel mode when
/// the body has returned.
pub proof fn lemma_call_ops_run(machine: MachineState, id: u32, func: u64, arg: u64)
    requires
        !machine.halted,
        machine.mode == Mode::Kernel,
    ensures
        machine.run(call_ops(id, func, arg)) == called(machine, id, func, arg),
{
    let ops0 = Seq::<Op>::empty();
    assert(machine.run(ops0) == machine);
    if id >= FIRST_USER_TASK {
        let ops1 = ops0.push(Op::EnterUser);
        let ops2 = ops1.push(Op::Call { func, arg });
        let ops3 = ops2.push(Op::LeaveUser);
        assert(call_ops(id, func, arg) =~= ops3);
        lemma_run_push(machine, ops0, Op::EnterUser);
        lemma_run_push(machine, ops1, Op::Call { func, arg });
        lemma_run_push(machine, ops2, Op::LeaveUser);
    } else {
        let ops1 = ops0.push(Op::Call { func, arg });
        assert(call_ops(id, func, arg) =~= ops1);
        lemma_run_push(machine, ops0, Op::Call { func, arg });
    }
}

/// The whole trampoline of a task that is not privileged: thread-local
/// storage is set up first, where the program has any, and the body is
/// called at user privilege with the storage in place. The trampoline of a
/// privileged task is the call alone.
pub proof fn lemma_entry_ops_run(
    machine: MachineState,
    id: u32,
    template: TlsTemplate,
    block: Option<TaskTLS>,
    func: u64,
    arg: u64,
)
    requires
        machine.mode == Mode::Kernel,
        !machine.halted,
        spec_tls_wanted(id, template) ==> block is Some && tls_ready(
            machine,
            template,
            block->0.address,
        ),
    ensures
        machine.run(entry_ops(id, template, block, func, arg)) == (if spec_tls_wanted(
            id,
            template,
        ) {
            called(tls_set(machine, template, block->0.address), id, func, arg)
        } else {
            called(machine, id, func, arg)
        }),
{
    if spec_tls_wanted(id, template) {
        let address = block->0.address;
        lemma_run_concat(machine, tls_ops(template, address), call_ops(id, func, arg));
        lemma_tls_ops_run(machine, template, address);
        lemma_call_ops_run(tls_set(machine, template, address), id, func, arg);
    } else {
        lemma_call_ops_run(machine, id, func, arg);
    }
}

/// A privileged task skips everything but the call. Whatever the
/// thread-local storage of the program and whatever block is handed in, its
/// trampoline calls the body once, in kernel mode, and leaves memory, the
/// protection keys, `fs` and the protection domain as they were.
pub proof fn lemma_privileged_entry_is_direct(
    machine: MachineState,
    id: u32,
    template: TlsTemplate,
    block: Option<TaskTLS>,
    func: u64,
    arg: u64,
)
    requires
        id < FIRST_USER_TASK,
        machine.mode == Mode::Kernel,
        !machine.halted,
    ensures
        entry_ops(id, template, block, func, arg) == seq![Op::Call { func, arg }],
        machine.run(entry_ops(id, template, block, func, arg)) == (MachineState {
            calls: machine.calls.push(
                Invocation { func, arg, mode: Mode::Kernel, fs: machine.fs },
            ),
            ..machine
        }),
{
    lemma_entry_ops_run(machine, id, template, block, func, arg);
}

} // verus!
