//! A task and the frame from which it is first resumed.

use vstd::prelude::*;
use crate::config::{
    Config, INITIAL_RFLAGS, MARKER_OFFSET, PAGE_SIZE, STACK_FILL, STACK_MARKER, WORD_SIZE,
};
use crate::frame::{
    byte_at, lemma_state_roundtrip, lemma_word_roundtrip, word_bytes, State, RDI_OFFSET,
    RFLAGS_OFFSET, RIP_OFFSET, RSI_OFFSET, STATE_SIZE,
};
use crate::machine::{
    lemma_direct_write_stores, lemma_overlay, lemma_run_concat, lemma_run_push,
    lemma_scoped_write_stores, overlay, Domain, MachineState, Op, Write,
};
use crate::stacks::TaskStacks;

verus! {

/// Distance of a new task's register frame below the top of its stack: the
/// marker word and what lies above it, the address of the exit stub, and the
/// frame itself.
pub const FRAME_DEPTH: u64 = 176;

/// The thread-local storage of a task.
#[derive(Clone, Copy, Debug, PartialEq, Eq, Structural)]
pub struct TaskTLS {
    /// Address of the block.
    pub address: u64,
    /// Size of the block in bytes.
    pub size: u64,
}

/// What this layer keeps of a task.
#[derive(Debug, PartialEq, Eq)]
pub struct Task {
    /// Identity of the task.
    pub id: u32,
    /// The memory the task runs on.
    pub stacks: TaskStacks,
    /// Where the registers of the task lie while it does not run.
    pub last_stack_pointer: u64,
    /// Top of the stack that the task uses at user privilege.
    pub user_stack_pointer: u64,
    /// Thread-local storage, once the task has set it up.
    pub tls: Option<TaskTLS>,
}

/// The operations that open a stack for writing and fill it: its pages are
/// shared between the domains, then every byte is set to the fill byte.
pub open spec fn fill_ops(cfg: Config, stack: u64) -> Seq<Op> {
    seq![
        Op::Retag {
            base: stack,
            pages: cfg.stack_pages() as u64,
            domain: Domain::Shared,
        },
        Op::Scoped(Write::Fill { address: stack, byte: STACK_FILL, len: cfg.default_stack_size }),
    ]
}

/// The operations that write the first frame of a task onto its filled
/// stack, from the top down, and close the stack again: the marker word,
/// the address of the exit stub, a zeroed register frame, the four
/// registers that are not zero, and the pages back under the safe domain.
pub open spec fn frame_ops(cfg: Config, stack: u64, func: u64, arg: u64) -> Seq<Op> {
    let top = stack + cfg.default_stack_size;
    let state = top - FRAME_DEPTH;
    seq![
        Op::Scoped(Write::Word { address: (top - MARKER_OFFSET) as u64, value: STACK_MARKER }),
        Op::Scoped(
            Write::Word {
                address: (top - MARKER_OFFSET - WORD_SIZE) as u64,
                value: cfg.leave_task,
            },
        ),
        Op::Scoped(Write::Fill { address: state as u64, byte: 0, len: STATE_SIZE }),
        Op::Direct(Write::Word { address: (state + RIP_OFFSET) as u64, value: cfg.task_entry }),
        Op::Direct(Write::Word { address: (state + RDI_OFFSET) as u64, value: func }),
        Op::Direct(Write::Word { address: (state + RSI_OFFSET) as u64, value: arg }),
        Op::Direct(Write::Word { address: (state + RFLAGS_OFFSET) as u64, value: INITIAL_RFLAGS }),
        Op::Retag {
            base: stack,
            pages: cfg.stack_pages() as u64,
            domain: Domain::Safe,
        },
    ]
}

/// The whole program that gives a task its first frame.
pub open spec fn create_ops(cfg: Config, stack: u64, func: u64, arg: u64) -> Seq<Op> {
    fill_ops(cfg, stack) + frame_ops(cfg, stack, func, arg)
}

/// The content of a stack that holds nothing but the first frame of a task.
/// From the top down: eight fill bytes, the marker word, the address of the
/// exit stub, the register frame, and fill bytes down to the bottom.
pub open spec fn stack_image(cfg: Config, func: u64, arg: u64) -> Seq<u8> {
    let size = cfg.default_stack_size as int;
    let state = size - FRAME_DEPTH;
    let exit = state + STATE_SIZE;
    let marker = exit + WORD_SIZE;
    Seq::new(
        size as nat,
        |i: int|
            if state <= i < exit {
                State::spec_initial(cfg, func, arg).to_bytes()[i - state]
            } else if exit <= i < marker {
                word_bytes(cfg.leave_task)[i - exit]
            } else if marker <= i < marker + WORD_SIZE {
                word_bytes(STACK_MARKER)[i - marker]
            } else {
                STACK_FILL
            },
    )
}

impl Task {
    /// Whether a stack of the configured size at `stack`, and one at
    /// `user_stack`, end within the address space.
    pub open spec fn stacks_fit(&self, cfg: Config) -> bool {
        &&& self.stacks.stack + cfg.default_stack_size <= u64::MAX
        &&& self.stacks.user_stack + cfg.default_stack_size <= u64::MAX
    }

    /// Tells whether the stacks of the task end within the address space.
    pub fn check_stacks(&self, cfg: &Config) -> (ok: bool)
        ensures
            ok == self.stacks_fit(*cfg),
    {
        self.stacks.stack <= u64::MAX - cfg.default_stack_size && self.stacks.user_stack
            <= u64::MAX - cfg.default_stack_size
    }

    /// Prepares the task for its first run. The result is the program that
    /// builds the first frame on the normal stack, so that the task starts
    /// in the trampoline with `func` and `arg` as its arguments. The task
    /// records where the frame will lie and where its user stack ends.
    pub fn create_stack_frame(&mut self, cfg: &Config, func: u64, arg: u64) -> (ops: Vec<Op>)
        requires
            cfg.wf(),
            old(self).stacks_fit(*cfg),
        ensures
            ops@ == create_ops(*cfg, old(self).stacks.stack, func, arg),
            final(self).last_stack_pointer == old(self).stacks.stack + cfg.default_stack_size
                - FRAME_DEPTH,
            final(self).user_stack_pointer == old(self).stacks.user_stack
                + cfg.default_stack_size,
            final(self).id == old(self).id,
            final(self).stacks == old(self).stacks,
            final(self).tls == old(self).tls,
    {
        let stack: u64 = self.stacks.stack;
        let size: u64 = cfg.default_stack_size;
        let pages: u64 = size / PAGE_SIZE;
        let mut ops: Vec<Op> = Vec::new();
        ops.push(Op::Retag { base: stack, pages, domain: Domain::Shared });
        ops.push(Op::Scoped(Write::Fill { address: stack, byte: STACK_FILL, len: size }));

        let marker: u64 = stack + size - MARKER_OFFSET;
        ops.push(Op::Scoped(Write::Word { address: marker, value: STACK_MARKER }));
        let exit: u64 = marker - WORD_SIZE;
        ops.push(Op::Scoped(Write::Word { address: exit, value: cfg.leave_task }));
        let state: u64 = exit - STATE_SIZE;
        ops.push(Op::Scoped(Write::Fill { address: state, byte: 0, len: STATE_SIZE }));
        ops.push(Op::Direct(Write::Word { address: state + RIP_OFFSET, value: cfg.task_entry }));
        ops.push(Op::Direct(Write::Word { address: state + RDI_OFFSET, value: func }));
        ops.push(Op::Direct(Write::Word { address: state + RSI_OFFSET, value: arg }));
        ops.push(Op::Direct(Write::Word { address: state + RFLAGS_OFFSET, value: INITIAL_RFLAGS }));
        ops.push(Op::Retag { base: stack, pages, domain: Domain::Safe });

        self.last_stack_pointer = state;
        self.user_stack_pointer = self.stacks.user_stack + size;
        assert(ops@ =~= create_ops(*cfg, stack, func, arg));
        ops
    }
}

/// A machine on which a task's first frame can be built at `stack`: the
/// stack starts on a page boundary and is mapped whole.
pub open spec fn stack_ready(machine: MachineState, cfg: Config, stack: u64) -> bool {
    &&& cfg.wf()
    &&& machine.wf()
    &&& !machine.halted
    &&& stack % PAGE_SIZE == 0
    &&& machine.mapped(stack as int, cfg.default_stack_size as int)
}

/// A stack full of fill bytes.
pub open spec fn fill_image(cfg: Config) -> Seq<u8> {
    Seq::new(cfg.default_stack_size as nat, |i: int| STACK_FILL)
}

/// The protection keys of `machine` with those of the stack's pages set to
/// `domain`.
pub open spec fn stack_keys(
    machine: MachineState,
    cfg: Config,
    stack: u64,
    domain: Domain,
) -> Seq<Domain> {
    let first = (stack - machine.base) / (PAGE_SIZE as int);
    Seq::new(
        machine.keys.len(),
        |p: int|
            if first <= p < first + cfg.stack_pages() {
                domain
            } else {
                machine.keys[p]
            },
    )
}

/// The machine after the stack at `stack` was opened and filled: the stack
/// holds fill bytes and its pages are shared.
pub open spec fn filled(machine: MachineState, cfg: Config, stack: u64) -> MachineState {
    MachineState {
        bytes: overlay(machine.bytes, stack - machine.base, fill_image(cfg)),
        keys: stack_keys(machine, cfg, stack, Domain::Shared),
        ..machine
    }
}

/// The machine after the first frame was built on the stack at `stack`:
/// the stack holds the frame and its pages are under the safe domain.
pub open spec fn framed(
    machine: MachineState,
    cfg: Config,
    stack: u64,
    func: u64,
    arg: u64,
) -> MachineState {
    MachineState {
        bytes: overlay(machine.bytes, stack - machine.base, stack_image(cfg, func, arg)),
        keys: stack_keys(machine, cfg, stack, Domain::Safe),
        ..machine
    }
}

/// Before any part of the frame is written, every byte of the stack holds
/// the fill byte: the program that builds a frame begins by filling the
/// stack, and only then writes. Filling changes nothing outside the stack
/// but the protection keys of the stack's own pages, which are shared while
/// the frame is written.
pub proof fn lemma_stack_filled_before_frame(
    machine: MachineState,
    cfg: Config,
    stack: u64,
    func: u64,
    arg: u64,
)
    requires
        stack_ready(machine, cfg, stack),
    ensures
        machine.run(fill_ops(cfg, stack)) == filled(machine, cfg, stack),
        filled(machine, cfg, stack).load(stack as int, cfg.default_stack_size as int)
            == fill_image(cfg),
        machine.run(create_ops(cfg, stack, func, arg)) == filled(machine, cfg, stack).run(
            frame_ops(cfg, stack, func, arg),
        ),
{
    let size = cfg.default_stack_size;
    let pages = cfg.stack_pages() as u64;
    let retag = Op::Retag { base: stack, pages, domain: Domain::Shared };
    let fill = Write::Fill { address: stack, byte: STACK_FILL, len: size };
    let empty = Seq::<Op>::empty();
    lemma_run_push(machine, empty, retag);
    lemma_run_push(machine, empty.push(retag), Op::Scoped(fill));
    assert(fill_ops(cfg, stack) =~= empty.push(retag).push(Op::Scoped(fill)));
    let opened = machine.step(retag);
    assert(machine.run(empty) == machine);
    let first = (stack - machine.base) / (PAGE_SIZE as int);
    assert(first + pages <= machine.keys.len());
    assert(!opened.halted);
    lemma_scoped_write_stores(opened, fill);
    let done = opened.step(Op::Scoped(fill));
    assert(opened.data(fill) =~= fill_image(cfg));
    assert(done.bytes =~= filled(machine, cfg, stack).bytes);
    assert(done.keys =~= filled(machine, cfg, stack).keys);
    assert(filled(machine, cfg, stack).load(stack as int, size as int) =~= fill_image(cfg)) by {
        reveal(overlay);
    }
    lemma_run_concat(machine, fill_ops(cfg, stack), frame_ops(cfg, stack, func, arg));
}

/// The content of a filled stack after the writes of the frame, one laid
/// over the other in the order in which they are made.
spec fn written_image(cfg: Config, func: u64, arg: u64) -> Seq<u8> {
    let top = cfg.default_stack_size as int;
    let state = top - FRAME_DEPTH;
    let marked = overlay(fill_image(cfg), top - MARKER_OFFSET, word_bytes(STACK_MARKER));
    let stubbed = overlay(marked, top - MARKER_OFFSET - WORD_SIZE, word_bytes(cfg.leave_task));
    let zeroed = overlay(stubbed, state, Seq::new(STATE_SIZE as nat, |i: int| 0u8));
    let with_rip = overlay(zeroed, state + RIP_OFFSET, word_bytes(cfg.task_entry));
    let with_rdi = overlay(with_rip, state + RDI_OFFSET, word_bytes(func));
    let with_rsi = overlay(with_rdi, state + RSI_OFFSET, word_bytes(arg));
    overlay(with_rsi, state + RFLAGS_OFFSET, word_bytes(INITIAL_RFLAGS))
}

/// Byte `index` of the first frame's image.
proof fn lemma_initial_byte(cfg: Config, func: u64, arg: u64, index: int)
    requires
        0 <= index < 152,
    ensures
        State::spec_initial(cfg, func, arg).to_bytes()[index] == (if 144 <= index {
            byte_at(cfg.task_entry, index - 144)
        } else if 136 <= index {
            byte_at(INITIAL_RFLAGS, index - 136)
        } else if 88 <= index < 96 {
            byte_at(arg, index - 88)
        } else if 80 <= index < 88 {
            byte_at(func, index - 80)
        } else {
            0u8
        }),
{
    let frame = State::spec_initial(cfg, func, arg);
    let k = index / 8;
    let b = index % 8;
    assert(frame.to_bytes()[index] == byte_at(frame.word(k), b));
    assert(byte_at(0, b) == 0);
}

/// The writes of the frame leave the image of the first frame.
proof fn lemma_written_image(cfg: Config, func: u64, arg: u64)
    requires
        cfg.wf(),
    ensures
        written_image(cfg, func, arg) == stack_image(cfg, func, arg),
{
    let top = cfg.default_stack_size as int;
    let state = top - FRAME_DEPTH;
    reveal(overlay);
    assert forall|i: int| 0 <= i < top implies written_image(cfg, func, arg)[i] == stack_image(
        cfg,
        func,
        arg,
    )[i] by {
        if state <= i < state + 152 {
            lemma_initial_byte(cfg, func, arg, i - state);
        }
    }
    assert(written_image(cfg, func, arg) =~= stack_image(cfg, func, arg));
}

/// Laying data over a part that was itself laid over a sequence is laying
/// the patched part over the sequence.
proof fn lemma_overlay_within(bytes: Seq<u8>, at: int, part: Seq<u8>, offset: int, data: Seq<u8>)
    requires
        0 <= at,
        at + part.len() <= bytes.len(),
        0 <= offset,
        offset + data.len() <= part.len(),
    ensures
        overlay(overlay(bytes, at, part), at + offset, data) == overlay(
            bytes,
            at,
            overlay(part, offset, data),
        ),
{
    reveal(overlay);
    assert(overlay(overlay(bytes, at, part), at + offset, data) =~= overlay(
        bytes,
        at,
        overlay(part, offset, data),
    ));
}

/// The machine while the frame is written: the stack, open for writing,
/// holds `image`.
spec fn writing(
    machine: MachineState,
    cfg: Config,
    stack: u64,
    image: Seq<u8>,
) -> MachineState {
    MachineState {
        bytes: overlay(machine.bytes, stack - machine.base, image),
        keys: stack_keys(machine, cfg, stack, Domain::Shared),
        ..machine
    }
}

/// While the stack is open, a write that stays within it goes through,
/// scoped or not, and changes the stack's content alone.
proof fn lemma_write_on_open_stack(
    machine: MachineState,
    cfg: Config,
    stack: u64,
    image: Seq<u8>,
    write: Write,
    data: Seq<u8>,
    scoped: bool,
)
    requires
        stack_ready(machine, cfg, stack),
        image.len() == cfg.default_stack_size,
        !(write is Copy),
        stack <= write.target(),
        write.target() + write.len() <= stack + cfg.default_stack_size,
        data == machine.data(write),
    ensures
        writing(machine, cfg, stack, image).step(
            if scoped {
                Op::Scoped(write)
            } else {
                Op::Direct(write)
            },
        ) == writing(machine, cfg, stack, overlay(image, write.target() - stack, data)),
        overlay(image, write.target() - stack, data).len() == image.len(),
{
    let current = writing(machine, cfg, stack, image);
    lemma_overlay(machine.bytes, stack - machine.base, image);
    lemma_overlay(image, write.target() - stack, data);
    assert(current.data(write) == data);
    assert(data.len() == write.len());
    assert(current.shared(write.target(), write.len())) by {
        assert forall|a: int|
            write.target() <= a < write.target() + write.len() implies #[trigger] current.key_at(a)
            == Domain::Shared by {
            let first = (stack - machine.base) / (PAGE_SIZE as int);
            let page = (a - machine.base) / (PAGE_SIZE as int);
            assert(first <= page < first + cfg.stack_pages());
        }
    }
    if scoped {
        lemma_scoped_write_stores(current, write);
    } else {
        lemma_direct_write_stores(current, write);
    }
    lemma_overlay_within(machine.bytes, stack - machine.base, image, write.target() - stack, data);
}

/// The program of `create_stack_frame` runs without a fault on every
/// machine that maps the stack, and leaves exactly the first frame behind:
/// the stack holds the image of the frame, its pages are back under the
/// safe domain, and nothing else has changed.
pub proof fn lemma_create_ops_run(
    machine: MachineState,
    cfg: Config,
    stack: u64,
    func: u64,
    arg: u64,
)
    requires
        stack_ready(machine, cfg, stack),
    ensures
        machine.run(create_ops(cfg, stack, func, arg)) == framed(machine, cfg, stack, func, arg),
{
    let size = cfg.default_stack_size;
    let pages = cfg.stack_pages() as u64;
    let top = stack + size;
    let state = (top - FRAME_DEPTH) as u64;
    let marker = Write::Word { address: (top - MARKER_OFFSET) as u64, value: STACK_MARKER };
    let exit = Write::Word {
        address: (top - MARKER_OFFSET - WORD_SIZE) as u64,
        value: cfg.leave_task,
    };
    let zero = Write::Fill { address: state, byte: 0, len: STATE_SIZE };
    let rip = Write::Word { address: (state + RIP_OFFSET) as u64, value: cfg.task_entry };
    let rdi = Write::Word { address: (state + RDI_OFFSET) as u64, value: func };
    let rsi = Write::Word { address: (state + RSI_OFFSET) as u64, value: arg };
    let rflags = Write::Word { address: (state + RFLAGS_OFFSET) as u64, value: INITIAL_RFLAGS };
    let close = Op::Retag { base: stack, pages, domain: Domain::Safe };

    lemma_stack_filled_before_frame(machine, cfg, stack, func, arg);
    let i0 = fill_image(cfg);
    let s0 = writing(machine, cfg, stack, i0);
    assert(s0 == filled(machine, cfg, stack));
    let ops0 = Seq::<Op>::empty();
    let ops1 = ops0.push(Op::Scoped(marker));
    let ops2 = ops1.push(Op::Scoped(exit));
    let ops3 = ops2.push(Op::Scoped(zero));
    let ops4 = ops3.push(Op::Direct(rip));
    let ops5 = ops4.push(Op::Direct(rdi));
    let ops6 = ops5.push(Op::Direct(rsi));
    let ops7 = ops6.push(Op::Direct(rflags));
    let ops8 = ops7.push(close);
    assert(frame_ops(cfg, stack, func, arg) =~= ops8);
    lemma_run_push(s0, ops0, Op::Scoped(marker));
    lemma_run_push(s0, ops1, Op::Scoped(exit));
    lemma_run_push(s0, ops2, Op::Scoped(zero));
    lemma_run_push(s0, ops3, Op::Direct(rip));
    lemma_run_push(s0, ops4, Op::Direct(rdi));
    lemma_run_push(s0, ops5, Op::Direct(rsi));
    lemma_run_push(s0, ops6, Op::Direct(rflags));
    lemma_run_push(s0, ops7, close);
    assert(s0.run(ops0) == s0);

    let zeros = Seq::new(STATE_SIZE as nat, |i: int| 0u8);
    assert(machine.data(zero) =~= zeros);
    let i1 = overlay(i0, top - MARKER_OFFSET - stack, word_bytes(STACK_MARKER));
    lemma_write_on_open_stack(machine, cfg, stack, i0, marker, word_bytes(STACK_MARKER), true);
    let i2 = overlay(i1, top - MARKER_OFFSET - WORD_SIZE - stack, word_bytes(cfg.leave_task));
    lemma_write_on_open_stack(machine, cfg, stack, i1, exit, word_bytes(cfg.leave_task), true);
    let i3 = overlay(i2, state - stack, zeros);
    lemma_write_on_open_stack(machine, cfg, stack, i2, zero, zeros, true);
    let i4 = overlay(i3, state + RIP_OFFSET - stack, word_bytes(cfg.task_entry));
    lemma_write_on_open_stack(machine, cfg, stack, i3, rip, word_bytes(cfg.task_entry), false);
    let i5 = overlay(i4, state + RDI_OFFSET - stack, word_bytes(func));
    lemma_write_on_open_stack(machine, cfg, stack, i4, rdi, word_bytes(func), false);
    let i6 = overlay(i5, state + RSI_OFFSET - stack, word_bytes(arg));
    lemma_write_on_open_stack(machine, cfg, stack, i5, rsi, word_bytes(arg), false);
    let i7 = overlay(i6, state + RFLAGS_OFFSET - stack, word_bytes(INITIAL_RFLAGS));
    lemma_write_on_open_stack(machine, cfg, stack, i6, rflags, word_bytes(INITIAL_RFLAGS), false);
    assert(s0.run(ops7) == writing(machine, cfg, stack, i7));
    assert(i7 == written_image(cfg, func, arg));
    lemma_written_image(cfg, func, arg);

    let s7 = writing(machine, cfg, stack, i7);
    let first = (stack - machine.base) / (PAGE_SIZE as int);
    assert(first + pages <= machine.keys.len());
    let s8 = s7.step(close);
    assert(s8.keys =~= framed(machine, cfg, stack, func, arg).keys);
}

/// The parts of the first frame's image, from the top down.
proof fn lemma_image_parts(cfg: Config, func: u64, arg: u64)
    requires
        cfg.wf(),
    ensures
        ({
            let image = stack_image(cfg, func, arg);
            let top = cfg.default_stack_size as int;
            &&& image.len() == top
            &&& image.subrange(top - 16, top - 8) == word_bytes(STACK_MARKER)
            &&& image.subrange(top - 24, top - 16) == word_bytes(cfg.leave_task)
            &&& image.subrange(top - 176, top - 24) == State::spec_initial(
                cfg,
                func,
                arg,
            ).to_bytes()
        }),
{
    let image = stack_image(cfg, func, arg);
    let top = cfg.default_stack_size as int;
    assert(image.subrange(top - 16, top - 8) =~= word_bytes(STACK_MARKER));
    assert(image.subrange(top - 24, top - 16) =~= word_bytes(cfg.leave_task));
    assert(image.subrange(top - 176, top - 24) =~= State::spec_initial(cfg, func, arg).to_bytes());
}

/// What lies on the stack of the machine after the frame was built is the
/// matching part of the frame's image.
proof fn lemma_framed_load(
    machine: MachineState,
    cfg: Config,
    stack: u64,
    func: u64,
    arg: u64,
    from: int,
    to: int,
)
    requires
        stack_ready(machine, cfg, stack),
        0 <= from <= to <= cfg.default_stack_size,
    ensures
        framed(machine, cfg, stack, func, arg).load(stack + from, to - from) == stack_image(
            cfg,
            func,
            arg,
        ).subrange(from, to),
{
    let image = stack_image(cfg, func, arg);
    lemma_overlay(machine.bytes, stack - machine.base, image);
    assert(framed(machine, cfg, stack, func, arg).load(stack + from, to - from)
        =~= image.subrange(from, to));
}

/// The stack's pages are under the safe domain once the frame is built.
proof fn lemma_framed_keys(machine: MachineState, cfg: Config, stack: u64, func: u64, arg: u64)
    requires
        stack_ready(machine, cfg, stack),
    ensures
        forall|a: int|
            stack <= a < stack + cfg.default_stack_size ==> #[trigger] framed(
                machine,
                cfg,
                stack,
                func,
                arg,
            ).key_at(a) == Domain::Safe,
{
    let after = framed(machine, cfg, stack, func, arg);
    assert forall|a: int| stack <= a < stack + cfg.default_stack_size implies #[trigger] after.key_at(
        a,
    ) == Domain::Safe by {
        let first = (stack - machine.base) / (PAGE_SIZE as int);
        let page = (a - machine.base) / (PAGE_SIZE as int);
        assert(first <= page < first + cfg.stack_pages());
    }
}

/// The words and the frame that lie on the stack once the frame is built.
proof fn lemma_framed_words(machine: MachineState, cfg: Config, stack: u64, func: u64, arg: u64)
    requires
        stack_ready(machine, cfg, stack),
    ensures
        ({
            let after = framed(machine, cfg, stack, func, arg);
            let top = stack + cfg.default_stack_size;
            &&& after.load(stack as int, cfg.default_stack_size as int) == stack_image(
                cfg,
                func,
                arg,
            )
            &&& after.word_at(top - 16) == STACK_MARKER
            &&& after.word_at(top - 24) == cfg.leave_task
            &&& after.load(top - 176, 152) == State::spec_initial(cfg, func, arg).to_bytes()
        }),
{
    let size = cfg.default_stack_size as int;
    let image = stack_image(cfg, func, arg);
    lemma_image_parts(cfg, func, arg);
    lemma_framed_load(machine, cfg, stack, func, arg, 0, size);
    assert(image.subrange(0, size) =~= image);
    lemma_framed_load(machine, cfg, stack, func, arg, size - 16, size - 8);
    lemma_word_roundtrip(STACK_MARKER);
    lemma_framed_load(machine, cfg, stack, func, arg, size - 24, size - 16);
    lemma_word_roundtrip(cfg.leave_task);
    lemma_framed_load(machine, cfg, stack, func, arg, size - 176, size - 24);
}

/// What a new task's stack holds. After the program of
/// `create_stack_frame` has run, for any stack size, function and argument:
/// the word at the marker offset below the top is the marker, the word
/// below it is the address of the exit stub, and the register frame below
/// that resumes in the trampoline with the function and the argument in the
/// two argument registers and the initial flags, every other register being
/// zero. All the rest of the stack holds the fill byte. The machine has not
/// faulted, the protection domain is as it was found, and the stack's pages
/// are under the safe domain.
pub proof fn lemma_frame_layout(
    machine: MachineState,
    cfg: Config,
    stack: u64,
    func: u64,
    arg: u64,
)
    requires
        stack_ready(machine, cfg, stack),
    ensures
        ({
            let after = machine.run(create_ops(cfg, stack, func, arg));
            let top = stack + cfg.default_stack_size;
            let frame = State::from_bytes(after.load(top - FRAME_DEPTH, STATE_SIZE as int));
            &&& !after.halted
            &&& after.widened == machine.widened
            &&& after.load(stack as int, cfg.default_stack_size as int) == stack_image(
                cfg,
                func,
                arg,
            )
            &&& after.word_at(top - MARKER_OFFSET) == STACK_MARKER
            &&& after.word_at(top - MARKER_OFFSET - WORD_SIZE) == cfg.leave_task
            &&& frame == State::spec_initial(cfg, func, arg)
            &&& frame.rip == cfg.task_entry
            &&& frame.rdi == func
            &&& frame.rsi == arg
            &&& frame.rflags == INITIAL_RFLAGS
            &&& forall|a: int| stack <= a < top ==> #[trigger] after.key_at(a) == Domain::Safe
        }),
{
    lemma_create_ops_run(machine, cfg, stack, func, arg);
    lemma_framed_words(machine, cfg, stack, func, arg);
    lemma_framed_keys(machine, cfg, stack, func, arg);
    lemma_state_roundtrip(State::spec_initial(cfg, func, arg));
}

} // verus!
