//! Platform operations and a reference model of the platform.
//!
//! The functions of this crate do not touch memory or registers themselves.
//! They return programs: sequences of [`Op`] that the kernel performs in
//! order. [`MachineState`] says what each operation does to a machine with
//! protection keys, and [`Machine`] is an executable machine that follows
//! that description step by step.

use vstd::prelude::*;
use crate::config::PAGE_SIZE;
use crate::frame::{encode_word, decode_word, word_bytes, word_value};

verus! {

/// Protection-key domain that a page is tagged with.
#[derive(Clone, Copy, Debug, PartialEq, Eq, Structural)]
pub enum Domain {
    /// Kernel memory that only a widened domain may write.
    Safe,
    /// Memory of fault-isolated code.
    Isolated,
    /// Memory of code that runs at user privilege.
    User,
    /// Memory that every domain may write.
    Shared,
}

/// Privilege at which the processor runs.
#[derive(Clone, Copy, Debug, PartialEq, Eq, Structural)]
pub enum Mode {
    Kernel,
    User,
}

/// One write to memory.
#[derive(Clone, Copy, Debug, PartialEq, Eq, Structural)]
pub enum Write {
    /// Sets `len` bytes from `address` on to `byte`.
    Fill { address: u64, byte: u8, len: u64 },
    /// Stores `value` as a little-endian word at `address`.
    Word { address: u64, value: u64 },
    /// Copies `len` bytes from `source` to `target`.
    Copy { source: u64, target: u64, len: u64 },
}

/// One operation of the platform.
#[derive(Clone, Copy, Debug, PartialEq, Eq, Structural)]
pub enum Op {
    /// Tags `pages` pages, starting with the page of `base`, with `domain`.
    Retag { base: u64, pages: u64, domain: Domain },
    /// A write inside a protection-domain scope: the domain is widened for
    /// the write and restored to what it was before, whatever the outcome.
    Scoped(Write),
    /// A write in the domain that is active.
    Direct(Write),
    /// Loads the base of the `fs` segment.
    WriteFs(u64),
    /// Drops from kernel to user privilege.
    EnterUser,
    /// Returns from user to kernel privilege.
    LeaveUser,
    /// Calls the function at `func` with `arg` as its argument.
    Call { func: u64, arg: u64 },
}

/// A call that the machine has made, with the privilege and the `fs` base
/// that were in force when it was made.
#[derive(Clone, Copy, Debug, PartialEq, Eq, Structural)]
pub struct Invocation {
    pub func: u64,
    pub arg: u64,
    pub mode: Mode,
    pub fs: u64,
}

impl Write {
    /// First address that the write stores to.
    pub open spec fn target(self) -> int {
        match self {
            Write::Fill { address, .. } => address as int,
            Write::Word { address, .. } => address as int,
            Write::Copy { target, .. } => target as int,
        }
    }

    /// Number of bytes that the write stores.
    pub open spec fn len(self) -> int {
        match self {
            Write::Fill { len, .. } => len as int,
            Write::Word { .. } => 8,
            Write::Copy { len, .. } => len as int,
        }
    }
}

/// `bytes` with `data` laid over it from index `at` on.
#[verifier::opaque]
pub open spec fn overlay(bytes: Seq<u8>, at: int, data: Seq<u8>) -> Seq<u8> {
    Seq::new(
        bytes.len(),
        |i: int|
            if at <= i < at + data.len() {
                data[i - at]
            } else {
                bytes[i]
            },
    )
}

/// The state of the machine: one mapped range of memory with a protection
/// key on each of its pages, the registers that tasks are set up through,
/// and the calls made so far.
pub struct MachineState {
    /// Address of the first mapped byte.
    pub base: int,
    /// Content of the mapped range.
    pub bytes: Seq<u8>,
    /// Protection key of each mapped page.
    pub keys: Seq<Domain>,
    /// Whether the active protection domain is widened.
    pub widened: bool,
    /// Base of the `fs` segment.
    pub fs: u64,
    /// Current privilege.
    pub mode: Mode,
    /// Calls made so far, oldest first.
    pub calls: Seq<Invocation>,
    /// Set by the first operation that faults; a halted machine ignores
    /// every further operation.
    pub halted: bool,
}

impl MachineState {
    /// The mapped range consists of whole pages and ends within the
    /// address space.
    pub open spec fn wf(self) -> bool {
        &&& 0 <= self.base
        &&& self.base % (PAGE_SIZE as int) == 0
        &&& self.bytes.len() == self.keys.len() * PAGE_SIZE
        &&& self.base + self.bytes.len() <= u64::MAX
    }

    /// A machine after reset: `pages` zeroed pages at `base`, all tagged
    /// `domain`, in kernel mode with the domain not widened.
    pub open spec fn fresh(base: int, pages: int, domain: Domain) -> MachineState {
        MachineState {
            base,
            bytes: Seq::new((pages * PAGE_SIZE) as nat, |i: int| 0u8),
            keys: Seq::new(pages as nat, |p: int| domain),
            widened: false,
            fs: 0,
            mode: Mode::Kernel,
            calls: Seq::empty(),
            halted: false,
        }
    }

    /// The `len` bytes from `address` on are all mapped.
    pub open spec fn mapped(self, address: int, len: int) -> bool {
        &&& 0 <= len
        &&& self.base <= address
        &&& address + len <= self.base + self.bytes.len()
    }

    /// Protection key of the page that holds `address`.
    pub open spec fn key_at(self, address: int) -> Domain {
        self.keys[(address - self.base) / (PAGE_SIZE as int)]
    }

    /// Every one of the `len` bytes from `address` on lies in a page that is
    /// tagged as shared.
    pub open spec fn shared(self, address: int, len: int) -> bool {
        forall|a: int| address <= a < address + len ==> #[trigger] self.key_at(a) == Domain::Shared
    }

    /// The active domain may write the `len` bytes from `address` on.
    pub open spec fn permitted(self, address: int, len: int) -> bool {
        self.widened || self.shared(address, len)
    }

    /// The `len` bytes stored from `address` on.
    pub open spec fn load(self, address: int, len: int) -> Seq<u8> {
        self.bytes.subrange(address - self.base, address - self.base + len)
    }

    /// The word stored at `address`.
    pub open spec fn word_at(self, address: int) -> int {
        word_value(self.load(address, 8))
    }

    /// The state with `data` stored from `address` on.
    pub open spec fn store(self, address: int, data: Seq<u8>) -> MachineState {
        MachineState { bytes: overlay(self.bytes, address - self.base, data), ..self }
    }

    /// The state after a fault.
    pub open spec fn halt(self) -> MachineState {
        MachineState { halted: true, ..self }
    }

    /// The bytes that `write` stores.
    pub open spec fn data(self, write: Write) -> Seq<u8> {
        match write {
            Write::Fill { byte, len, .. } => Seq::new(len as nat, |i: int| byte),
            Write::Word { value, .. } => word_bytes(value),
            Write::Copy { source, len, .. } => self.load(source as int, len as int),
        }
    }

    /// What `write` reads is mapped.
    pub open spec fn readable(self, write: Write) -> bool {
        match write {
            Write::Copy { source, len, .. } => self.mapped(source as int, len as int),
            _ => true,
        }
    }

    /// Performs `write` in the active domain. The machine faults if the
    /// write reads or stores outside the mapped range, or stores to a page
    /// that the active domain may not write.
    pub open spec fn write(self, write: Write) -> MachineState {
        if self.mapped(write.target(), write.len()) && self.readable(write) && self.permitted(
            write.target(),
            write.len(),
        ) {
            self.store(write.target(), self.data(write))
        } else {
            self.halt()
        }
    }

    /// Opens a protection-domain scope: the domain is widened.
    pub open spec fn enter_scope(self) -> MachineState {
        MachineState { widened: true, ..self }
    }

    /// Closes a protection-domain scope: the domain is `previous` again.
    pub open spec fn leave_scope(self, previous: bool) -> MachineState {
        MachineState { widened: previous, ..self }
    }

    /// Performs `write` inside a protection-domain scope.
    pub open spec fn scoped_write(self, write: Write) -> MachineState {
        self.enter_scope().write(write).leave_scope(self.widened)
    }

    /// Tags `pages` pages from the page of `base` on with `domain`. The
    /// machine faults if one of them is not mapped.
    pub open spec fn retag(self, base: int, pages: int, domain: Domain) -> MachineState {
        let first = (base - self.base) / (PAGE_SIZE as int);
        if self.base <= base && first + pages <= self.keys.len() {
            MachineState {
                keys: Seq::new(
                    self.keys.len(),
                    |p: int|
                        if first <= p < first + pages {
                            domain
                        } else {
                            self.keys[p]
                        },
                ),
                ..self
            }
        } else {
            self.halt()
        }
    }

    /// The state after `op`. A halted machine stays as it is.
    pub open spec fn step(self, op: Op) -> MachineState {
        if self.halted {
            self
        } else {
            match op {
                Op::Retag { base, pages, domain } => self.retag(base as int, pages as int, domain),
                Op::Scoped(write) => self.scoped_write(write),
                Op::Direct(write) => self.write(write),
                Op::WriteFs(base) => MachineState { fs: base, ..self },
                Op::EnterUser => if self.mode == Mode::Kernel {
                    MachineState { mode: Mode::User, ..self }
                } else {
                    self.halt()
                },
                Op::LeaveUser => if self.mode == Mode::User {
                    MachineState { mode: Mode::Kernel, ..self }
                } else {
                    self.halt()
                },
                Op::Call { func, arg } => MachineState {
                    calls: self.calls.push(
                        Invocation { func, arg, mode: self.mode, fs: self.fs },
                    ),
                    ..self
                },
            }
        }
    }

    /// The state after the operations of `ops`, performed in order.
    pub open spec fn run(self, ops: Seq<Op>) -> MachineState
        decreases ops.len(),
    {
        if ops.len() == 0 {
            self
        } else {
            self.run(ops.drop_last()).step(ops.last())
        }
    }
}

/// Laying data over a sequence keeps its length, puts the data where it
/// was laid and leaves every other place as it was.
pub proof fn lemma_overlay(bytes: Seq<u8>, at: int, data: Seq<u8>)
    ensures
        overlay(bytes, at, data).len() == bytes.len(),
        forall|i: int|
            0 <= i < bytes.len() ==> #[trigger] overlay(bytes, at, data)[i] == (if at <= i < at
                + data.len() {
                data[i - at]
            } else {
                bytes[i]
            }),
{
    reveal(overlay);
}

/// No operation changes where the mapped range lies or how large it is.
pub proof fn lemma_step_keeps_shape(state: MachineState, op: Op)
    requires
        state.wf(),
    ensures
        state.step(op).wf(),
        state.step(op).base == state.base,
        state.step(op).bytes.len() == state.bytes.len(),
        state.step(op).keys.len() == state.keys.len(),
{
    reveal(overlay);
}

/// Running a program with one more operation at its end is running the
/// program and then that operation.
pub proof fn lemma_run_push(state: MachineState, ops: Seq<Op>, op: Op)
    ensures
        state.run(ops.push(op)) == state.run(ops).step(op),
{
    assert(ops.push(op).drop_last() =~= ops);
}

/// Running two programs one after the other is running their concatenation.
pub proof fn lemma_run_concat(state: MachineState, first: Seq<Op>, second: Seq<Op>)
    ensures
        state.run(first + second) == state.run(first).run(second),
    decreases second.len(),
{
    if second.len() == 0 {
        assert(first + second =~= first);
    } else {
        lemma_run_concat(state, first, second.drop_last());
        assert((first + second).drop_last() =~= first + second.drop_last());
        assert((first + second).last() == second.last());
    }
}

/// A scoped write whose addresses are mapped stores its bytes, whatever
/// domain is active.
pub proof fn lemma_scoped_write_stores(machine: MachineState, write: Write)
    requires
        !machine.halted,
        machine.mapped(write.target(), write.len()),
        machine.readable(write),
    ensures
        machine.step(Op::Scoped(write)) == machine.store(write.target(), machine.data(write)),
{
    let inside = machine.enter_scope();
    assert(inside.data(write) =~= machine.data(write));
    assert(machine.step(Op::Scoped(write)).bytes =~= machine.store(
        write.target(),
        machine.data(write),
    ).bytes);
}

/// A direct write to mapped, shared pages stores its bytes.
pub proof fn lemma_direct_write_stores(machine: MachineState, write: Write)
    requires
        !machine.halted,
        machine.mapped(write.target(), write.len()),
        machine.readable(write),
        machine.shared(write.target(), write.len()),
    ensures
        machine.step(Op::Direct(write)) == machine.store(write.target(), machine.data(write)),
{
}

/// A protection-domain scope leaves the domain as it found it, also when
/// the write inside it faults, and no other operation touches the domain.
pub proof fn lemma_scope_restores_domain(state: MachineState, op: Op)
    ensures
        state.step(op).widened == state.widened,
{
}

/// No program leaves the protection domain widened: whatever operations
/// run, and whether or not one of them faults, the domain is afterwards what
/// it was before.
pub proof fn lemma_run_restores_domain(state: MachineState, ops: Seq<Op>)
    ensures
        state.run(ops).widened == state.widened,
    decreases ops.len(),
{
    if ops.len() > 0 {
        lemma_run_restores_domain(state, ops.drop_last());
        lemma_scope_restores_domain(state.run(ops.drop_last()), ops.last());
    }
}

/// No program changes where the mapped range lies or how large it is.
pub proof fn lemma_run_keeps_shape(state: MachineState, ops: Seq<Op>)
    requires
        state.wf(),
    ensures
        state.run(ops).wf(),
        state.run(ops).base == state.base,
        state.run(ops).bytes.len() == state.bytes.len(),
        state.run(ops).keys.len() == state.keys.len(),
    decreases ops.len(),
{
    if ops.len() > 0 {
        lemma_run_keeps_shape(state, ops.drop_last());
        lemma_step_keeps_shape(state.run(ops.drop_last()), ops.last());
    }
}

/// An executable machine. Its state is its view.
pub struct Machine {
    base: u64,
    bytes: Vec<u8>,
    keys: Vec<Domain>,
    widened: bool,
    fs: u64,
    mode: Mode,
    calls: Vec<Invocation>,
    halted: bool,
}

impl View for Machine {
    type V = MachineState;

    closed spec fn view(&self) -> MachineState {
        MachineState {
            base: self.base as int,
            bytes: self.bytes@,
            keys: self.keys@,
            widened: self.widened,
            fs: self.fs,
            mode: self.mode,
            calls: self.calls@,
            halted: self.halted,
        }
    }
}

impl Machine {
    /// Whether a machine with `pages` pages at `base` can be built: `base`
    /// is page aligned and the pages end within the address space.
    pub open spec fn fits(base: u64, pages: usize) -> bool {
        &&& base % PAGE_SIZE == 0
        &&& pages * PAGE_SIZE <= usize::MAX
        &&& base + pages * PAGE_SIZE <= u64::MAX
    }

    /// Builds a machine after reset with `pages` zeroed pages at `base`, all
    /// tagged `domain`. Gives `None` exactly when such a machine cannot be.
    pub fn new(base: u64, pages: usize, domain: Domain) -> (machine: Option<Machine>)
        ensures
            machine is Some <==> Machine::fits(base, pages),
            machine matches Some(m) ==> m@ == MachineState::fresh(
                base as int,
                pages as int,
                domain,
            ) && m@.wf(),
    {
        let page_size: usize = PAGE_SIZE as usize;
        if base % PAGE_SIZE != 0 || pages > usize::MAX / page_size {
            return None;
        }
        let size: usize = pages * page_size;
        if size as u64 > u64::MAX - base {
            return None;
        }
        let mut bytes: Vec<u8> = Vec::new();
        while bytes.len() < size
            invariant
                bytes.len() <= size,
                bytes@ =~= Seq::new(bytes.len() as nat, |i: int| 0u8),
            decreases size - bytes.len(),
        {
            bytes.push(0);
        }
        let mut keys: Vec<Domain> = Vec::new();
        while keys.len() < pages
            invariant
                keys.len() <= pages,
                keys@ =~= Seq::new(keys.len() as nat, |p: int| domain),
            decreases pages - keys.len(),
        {
            keys.push(domain);
        }
        let machine = Machine {
            base,
            bytes,
            keys,
            widened: false,
            fs: 0,
            mode: Mode::Kernel,
            calls: Vec::new(),
            halted: false,
        };
        assert(machine@ == MachineState::fresh(base as int, pages as int, domain));
        Some(machine)
    }

    /// Whether a fault has halted the machine.
    pub fn halted(&self) -> (halted: bool)
        ensures
            halted == self@.halted,
    {
        self.halted
    }

    /// Whether the active protection domain is widened.
    pub fn widened(&self) -> (widened: bool)
        ensures
            widened == self@.widened,
    {
        self.widened
    }

    /// Base of the `fs` segment.
    pub fn fs(&self) -> (fs: u64)
        ensures
            fs == self@.fs,
    {
        self.fs
    }

    /// Current privilege.
    pub fn mode(&self) -> (mode: Mode)
        ensures
            mode == self@.mode,
    {
        self.mode
    }

    /// The calls made so far, oldest first.
    pub fn calls(&self) -> (calls: Vec<Invocation>)
        ensures
            calls@ == self@.calls,
    {
        let mut calls: Vec<Invocation> = Vec::new();
        let mut i: usize = 0;
        while i < self.calls.len()
            invariant
                i <= self.calls.len(),
                calls@ =~= self.calls@.subrange(0, i as int),
            decreases self.calls.len() - i,
        {
            calls.push(self.calls[i]);
            i += 1;
        }
        assert(calls@ =~= self.calls@);
        calls
    }

    /// Tells whether the `len` bytes from `address` on are mapped.
    fn is_mapped(&self, address: u64, len: u64) -> (ok: bool)
        ensures
            ok == self@.mapped(address as int, len as int),
    {
        let size: u64 = self.bytes.len() as u64;
        address >= self.base && len <= size && address - self.base <= size - len
    }

    /// Protection key of the page that holds `address`, if it is mapped.
    pub fn key_at(&self, address: u64) -> (key: Option<Domain>)
        requires
            self@.wf(),
        ensures
            key == if self@.mapped(address as int, 1) {
                Some(self@.key_at(address as int))
            } else {
                None
            },
    {
        if !self.is_mapped(address, 1) {
            return None;
        }
        assert(self.bytes.len() <= usize::MAX);
        let page: usize = ((address - self.base) / PAGE_SIZE) as usize;
        Some(self.keys[page])
    }

    /// The `len` bytes stored from `address` on, if they are all mapped.
    pub fn read(&self, address: u64, len: u64) -> (data: Option<Vec<u8>>)
        ensures
            data is Some <==> self@.mapped(address as int, len as int),
            data matches Some(d) ==> d@ == self@.load(address as int, len as int),
    {
        if !self.is_mapped(address, len) {
            return None;
        }
        assert(self.bytes.len() <= usize::MAX);
        let start: usize = (address - self.base) as usize;
        let count: usize = len as usize;
        let mut data: Vec<u8> = Vec::new();
        let mut i: usize = 0;
        while i < count
            invariant
                i <= count,
                start + count <= self.bytes.len(),
                data@ =~= self.bytes@.subrange(start as int, start + i),
            decreases count - i,
        {
            data.push(self.bytes[start + i]);
            i += 1;
        }
        Some(data)
    }

    /// The word stored at `address`, if its eight bytes are mapped.
    pub fn read_word(&self, address: u64) -> (word: Option<u64>)
        ensures
            word == if self@.mapped(address as int, 8) {
                Some(self@.word_at(address as int) as u64)
            } else {
                None
            },
    {
        if !self.is_mapped(address, 8) {
            return None;
        }
        assert(self.bytes.len() <= usize::MAX);
        let start: usize = (address - self.base) as usize;
        Some(decode_word(self.bytes.as_slice(), start))
    }

    /// Tells whether the `len` mapped bytes from `address` on all lie in
    /// shared pages.
    fn is_shared(&self, address: u64, len: u64) -> (ok: bool)
        requires
            self@.wf(),
            self@.mapped(address as int, len as int),
        ensures
            ok == self@.shared(address as int, len as int),
    {
        if len == 0 {
            return true;
        }
        assert(self.bytes.len() <= usize::MAX);
        let first: usize = ((address - self.base) / PAGE_SIZE) as usize;
        let last: usize = ((address - self.base + (len - 1)) / PAGE_SIZE) as usize;
        let mut page: usize = first;
        while page <= last
            invariant
                first <= page <= last + 1,
                last < self.keys.len(),
                len > 0,
                self@.wf(),
                self@.mapped(address as int, len as int),
                first == (address - self.base) / (PAGE_SIZE as int),
                last == (address - self.base + len - 1) / (PAGE_SIZE as int),
                forall|p: int| first <= p < page ==> self.keys@[p] == Domain::Shared,
            decreases last + 1 - page,
        {
            match self.keys[page] {
                Domain::Shared => {},
                _ => {
                    proof {
                        let a: int = if page == first {
                            address as int
                        } else {
                            self.base + page * PAGE_SIZE
                        };
                        assert(address <= a < address + len);
                        assert((a - self.base) / (PAGE_SIZE as int) == page);
                        assert(self@.key_at(a) != Domain::Shared);
                    }
                    return false;
                },
            }
            page += 1;
        }
        proof {
            assert forall|a: int| address <= a < address + len implies #[trigger] self@.key_at(a)
                == Domain::Shared by {
                let p: int = (a - self.base) / (PAGE_SIZE as int);
                assert(first <= p <= last);
            }
        }
        true
    }

    /// The bytes that `write` stores, if what it reads is mapped.
    fn data_of(&self, write: Write) -> (data: Option<Vec<u8>>)
        requires
            self@.mapped(write.target(), write.len()),
        ensures
            data is Some <==> self@.readable(write),
            data matches Some(d) ==> d@ == self@.data(write),
    {
        match write {
            Write::Fill { byte, len, .. } => {
                assert(self.bytes.len() <= usize::MAX);
                let count: usize = len as usize;
                let mut data: Vec<u8> = Vec::new();
                let mut i: usize = 0;
                while i < count
                    invariant
                        i <= count,
                        data@ =~= Seq::new(i as nat, |k: int| byte),
                    decreases count - i,
                {
                    data.push(byte);
                    i += 1;
                }
                Some(data)
            },
            Write::Word { value, .. } => Some(encode_word(value)),
            Write::Copy { source, len, .. } => self.read(source, len),
        }
    }

    /// Stores `data` from `address` on.
    fn store(&mut self, address: u64, data: &Vec<u8>)
        requires
            old(self)@.mapped(address as int, data@.len() as int),
        ensures
            final(self)@ == old(self)@.store(address as int, data@),
    {
        assert(self.bytes.len() <= usize::MAX);
        let start: usize = (address - self.base) as usize;
        let mut i: usize = 0;
        while i < data.len()
            invariant
                i <= data.len(),
                start + data.len() <= self.bytes.len(),
                self.bytes.len() == old(self).bytes.len(),
                self.base == old(self).base,
                self.keys == old(self).keys,
                self.widened == old(self).widened,
                self.fs == old(self).fs,
                self.mode == old(self).mode,
                self.calls == old(self).calls,
                self.halted == old(self).halted,
                self.bytes@ =~= Seq::new(
                    old(self).bytes@.len(),
                    |k: int|
                        if start <= k < start + i {
                            data@[k - start]
                        } else {
                            old(self).bytes@[k]
                        },
                ),
            decreases data.len() - i,
        {
            self.bytes.set(start + i, data[i]);
            i += 1;
        }
        assert(self@.bytes =~= old(self)@.store(address as int, data@).bytes) by {
            reveal(overlay);
        }
    }

    /// Performs `write` in the active domain.
    fn write(&mut self, write: Write)
        requires
            old(self)@.wf(),
        ensures
            final(self)@ == old(self)@.write(write),
    {
        let (target, len): (u64, u64) = match write {
            Write::Fill { address, len, .. } => (address, len),
            Write::Word { address, .. } => (address, 8),
            Write::Copy { target, len, .. } => (target, len),
        };
        if !self.is_mapped(target, len) {
            self.halted = true;
            return;
        }
        if !self.widened && !self.is_shared(target, len) {
            self.halted = true;
            return;
        }
        match self.data_of(write) {
            Some(data) => {
                self.store(target, &data);
            },
            None => {
                self.halted = true;
            },
        }
    }

    /// Tags `pages` pages from the page of `base` on with `domain`.
    fn retag(&mut self, base: u64, pages: u64, domain: Domain)
        requires
            old(self)@.wf(),
        ensures
            final(self)@ == old(self)@.retag(base as int, pages as int, domain),
    {
        if base < self.base {
            self.halted = true;
            return;
        }
        let first: u64 = (base - self.base) / PAGE_SIZE;
        let total: u64 = self.keys.len() as u64;
        if first > total || pages > total - first {
            self.halted = true;
            return;
        }
        assert(self.keys.len() <= usize::MAX);
        let start: usize = first as usize;
        let count: usize = pages as usize;
        let mut i: usize = 0;
        while i < count
            invariant
                i <= count,
                start + count <= self.keys.len(),
                self.keys.len() == old(self).keys.len(),
                self.base == old(self).base,
                self.bytes == old(self).bytes,
                self.widened == old(self).widened,
                self.fs == old(self).fs,
                self.mode == old(self).mode,
                self.calls == old(self).calls,
                self.halted == old(self).halted,
                self.keys@ =~= Seq::new(
                    old(self).keys@.len(),
                    |p: int|
                        if start <= p < start + i {
                            domain
                        } else {
                            old(self).keys@[p]
                        },
                ),
            decreases count - i,
        {
            self.keys.set(start + i, domain);
            i += 1;
        }
        assert(self@.keys =~= old(self)@.retag(base as int, pages as int, domain).keys);
    }

    /// Performs one operation.
    pub fn perform(&mut self, op: Op)
        requires
            old(self)@.wf(),
        ensures
            final(self)@ == old(self)@.step(op),
            final(self)@.wf(),
    {
        proof {
            lemma_step_keeps_shape(old(self)@, op);
        }
        if self.halted {
            return;
        }
        match op {
            Op::Retag { base, pages, domain } => {
                self.retag(base, pages, domain);
            },
            Op::Scoped(write) => {
                let previous: bool = self.widened;
                self.widened = true;
                self.write(write);
                self.widened = previous;
            },
            Op::Direct(write) => {
                self.write(write);
            },
            Op::WriteFs(base) => {
                self.fs = base;
            },
            Op::EnterUser => {
                match self.mode {
                    Mode::Kernel => {
                        self.mode = Mode::User;
                    },
                    Mode::User => {
                        self.halted = true;
                    },
                }
            },
            Op::LeaveUser => {
                match self.mode {
                    Mode::User => {
                        self.mode = Mode::Kernel;
                    },
                    Mode::Kernel => {
                        self.halted = true;
                    },
                }
            },
            Op::Call { func, arg } => {
                self.calls.push(Invocation { func, arg, mode: self.mode, fs: self.fs });
            },
        }
    }

    /// Performs the operations of `ops` in order.
    pub fn run(&mut self, ops: &Vec<Op>)
        requires
            old(self)@.wf(),
        ensures
            final(self)@ == old(self)@.run(ops@),
            final(self)@.wf(),
    {
        let mut i: usize = 0;
        while i < ops.len()
            invariant
                i <= ops.len(),
                self@.wf(),
                self@ == old(self)@.run(ops@.subrange(0, i as int)),
            decreases ops.len() - i,
        {
            proof {
                lemma_run_push(old(self)@, ops@.subrange(0, i as int), ops@[i as int]);
                assert(ops@.subrange(0, i as int).push(ops@[i as int]) =~= ops@.subrange(
                    0,
                    i + 1,
                ));
            }
            self.perform(ops[i]);
            i += 1;
        }
        assert(ops@.subrange(0, i as int) =~= ops@);
    }
}

} // verus!
