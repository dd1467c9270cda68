//! The register frame a context switch restores, and its image in memory.

use vstd::prelude::*;
use crate::config::{Config, INITIAL_RFLAGS};

verus! {

/// Size of a register frame in bytes.
pub const STATE_SIZE: u64 = 152;

/// Offset of `rdi`, the first argument register, in a frame.
pub const RDI_OFFSET: u64 = 80;

/// Offset of `rsi`, the second argument register, in a frame.
pub const RSI_OFFSET: u64 = 88;

/// Offset of the flag word in a frame.
pub const RFLAGS_OFFSET: u64 = 136;

/// Offset of the instruction pointer in a frame.
pub const RIP_OFFSET: u64 = 144;

/// Byte `index` of `word` in little-endian order.
pub open spec fn byte_at(word: u64, index: int) -> u8 {
    if index == 0 {
        (word as int % 0x100) as u8
    } else if index == 1 {
        (word as int / 0x100 % 0x100) as u8
    } else if index == 2 {
        (word as int / 0x1_0000 % 0x100) as u8
    } else if index == 3 {
        (word as int / 0x100_0000 % 0x100) as u8
    } else if index == 4 {
        (word as int / 0x1_0000_0000 % 0x100) as u8
    } else if index == 5 {
        (word as int / 0x100_0000_0000 % 0x100) as u8
    } else if index == 6 {
        (word as int / 0x1_0000_0000_0000 % 0x100) as u8
    } else {
        (word as int / 0x100_0000_0000_0000 % 0x100) as u8
    }
}

/// The eight bytes of `word`, least significant first.
pub open spec fn word_bytes(word: u64) -> Seq<u8> {
    Seq::new(8, |i: int| byte_at(word, i))
}

/// The number whose little-endian bytes are the first eight of `bytes`.
pub open spec fn word_value(bytes: Seq<u8>) -> int {
    bytes[0] as int + bytes[1] as int * 0x100 + bytes[2] as int * 0x1_0000 + bytes[3] as int
        * 0x100_0000 + bytes[4] as int * 0x1_0000_0000 + bytes[5] as int * 0x100_0000_0000
        + bytes[6] as int * 0x1_0000_0000_0000 + bytes[7] as int * 0x100_0000_0000_0000
}

/// Reading back the bytes of a word gives the word.
pub proof fn lemma_word_roundtrip(word: u64)
    ensures
        word_bytes(word).len() == 8,
        word_value(word_bytes(word)) == word,
{
    let w: int = word as int;
    let q1: int = w / 0x100;
    let q2: int = w / 0x1_0000;
    let q3: int = w / 0x100_0000;
    let q4: int = w / 0x1_0000_0000;
    let q5: int = w / 0x100_0000_0000;
    let q6: int = w / 0x1_0000_0000_0000;
    let q7: int = w / 0x100_0000_0000_0000;
    assert(q2 == q1 / 0x100);
    assert(q3 == q2 / 0x100);
    assert(q4 == q3 / 0x100);
    assert(q5 == q4 / 0x100);
    assert(q6 == q5 / 0x100);
    assert(q7 == q6 / 0x100);
    assert(q7 < 0x100);
    let s = word_bytes(word);
    assert(s[0] == byte_at(word, 0));
    assert(s[1] == byte_at(word, 1));
    assert(s[2] == byte_at(word, 2));
    assert(s[3] == byte_at(word, 3));
    assert(s[4] == byte_at(word, 4));
    assert(s[5] == byte_at(word, 5));
    assert(s[6] == byte_at(word, 6));
    assert(s[7] == byte_at(word, 7));
}

/// Appends the little-endian bytes of `word` to `out`.
fn push_word(out: &mut Vec<u8>, word: u64)
    ensures
        final(out)@ == old(out)@ + word_bytes(word),
{
    out.push((word % 0x100) as u8);
    out.push((word / 0x100 % 0x100) as u8);
    out.push((word / 0x1_0000 % 0x100) as u8);
    out.push((word / 0x100_0000 % 0x100) as u8);
    out.push((word / 0x1_0000_0000 % 0x100) as u8);
    out.push((word / 0x100_0000_0000 % 0x100) as u8);
    out.push((word / 0x1_0000_0000_0000 % 0x100) as u8);
    out.push((word / 0x100_0000_0000_0000 % 0x100) as u8);
    assert(out@ =~= old(out)@ + word_bytes(word));
}

/// The little-endian bytes of `word`.
pub fn encode_word(word: u64) -> (bytes: Vec<u8>)
    ensures
        bytes@ == word_bytes(word),
{
    let mut bytes: Vec<u8> = Vec::new();
    push_word(&mut bytes, word);
    assert(bytes@ =~= word_bytes(word));
    bytes
}

/// Reads the word stored in little-endian order at `offset` in `bytes`.
pub fn decode_word(bytes: &[u8], offset: usize) -> (word: u64)
    requires
        offset + 8 <= bytes@.len(),
    ensures
        word == word_value(bytes@.subrange(offset as int, offset + 8)),
{
    let b0: u64 = bytes[offset] as u64;
    let b1: u64 = bytes[offset + 1] as u64;
    let b2: u64 = bytes[offset + 2] as u64;
    let b3: u64 = bytes[offset + 3] as u64;
    let b4: u64 = bytes[offset + 4] as u64;
    let b5: u64 = bytes[offset + 5] as u64;
    let b6: u64 = bytes[offset + 6] as u64;
    let b7: u64 = bytes[offset + 7] as u64;
    b0 + b1 * 0x100 + b2 * 0x1_0000 + b3 * 0x100_0000 + b4 * 0x1_0000_0000 + b5
        * 0x100_0000_0000 + b6 * 0x1_0000_0000_0000 + b7 * 0x100_0000_0000_0000
}

/// The registers of a suspended task, in the order in which the context
/// switch pops them off the stack: `pkru` lies at the lowest address and
/// `rip` at the highest.
#[derive(Clone, Copy, Debug, PartialEq, Eq)]
pub struct State {
    /// Protection-key rights register.
    pub pkru: u64,
    /// Base of the `fs` segment, which addresses thread-local storage.
    pub fs: u64,
    pub r15: u64,
    pub r14: u64,
    pub r13: u64,
    pub r12: u64,
    pub r11: u64,
    pub r10: u64,
    pub r9: u64,
    pub r8: u64,
    /// First argument register.
    pub rdi: u64,
    /// Second argument register.
    pub rsi: u64,
    pub rbp: u64,
    pub rbx: u64,
    pub rdx: u64,
    pub rcx: u64,
    pub rax: u64,
    /// Status flags.
    pub rflags: u64,
    /// Instruction pointer.
    pub rip: u64,
}

impl State {
    /// The register in slot `index` of the frame.
    pub open spec fn word(self, index: int) -> u64 {
        if index == 0 {
            self.pkru
        } else if index == 1 {
            self.fs
        } else if index == 2 {
            self.r15
        } else if index == 3 {
            self.r14
        } else if index == 4 {
            self.r13
        } else if index == 5 {
            self.r12
        } else if index == 6 {
            self.r11
        } else if index == 7 {
            self.r10
        } else if index == 8 {
            self.r9
        } else if index == 9 {
            self.r8
        } else if index == 10 {
            self.rdi
        } else if index == 11 {
            self.rsi
        } else if index == 12 {
            self.rbp
        } else if index == 13 {
            self.rbx
        } else if index == 14 {
            self.rdx
        } else if index == 15 {
            self.rcx
        } else if index == 16 {
            self.rax
        } else if index == 17 {
            self.rflags
        } else {
            self.rip
        }
    }

    /// The frame as it lies in memory: nineteen little-endian words.
    pub open spec fn to_bytes(self) -> Seq<u8> {
        Seq::new(STATE_SIZE as nat, |i: int| byte_at(self.word(i / 8), i % 8))
    }

    /// The frame whose image the first `STATE_SIZE` bytes of `bytes` are.
    pub open spec fn from_bytes(bytes: Seq<u8>) -> State {
        State {
            pkru: word_value(bytes.subrange(0, 8)) as u64,
            fs: word_value(bytes.subrange(8, 16)) as u64,
            r15: word_value(bytes.subrange(16, 24)) as u64,
            r14: word_value(bytes.subrange(24, 32)) as u64,
            r13: word_value(bytes.subrange(32, 40)) as u64,
            r12: word_value(bytes.subrange(40, 48)) as u64,
            r11: word_value(bytes.subrange(48, 56)) as u64,
            r10: word_value(bytes.subrange(56, 64)) as u64,
            r9: word_value(bytes.subrange(64, 72)) as u64,
            r8: word_value(bytes.subrange(72, 80)) as u64,
            rdi: word_value(bytes.subrange(80, 88)) as u64,
            rsi: word_value(bytes.subrange(88, 96)) as u64,
            rbp: word_value(bytes.subrange(96, 104)) as u64,
            rbx: word_value(bytes.subrange(104, 112)) as u64,
            rdx: word_value(bytes.subrange(112, 120)) as u64,
            rcx: word_value(bytes.subrange(120, 128)) as u64,
            rax: word_value(bytes.subrange(128, 136)) as u64,
            rflags: word_value(bytes.subrange(136, 144)) as u64,
            rip: word_value(bytes.subrange(144, 152)) as u64,
        }
    }

    /// The frame of a task that has not run yet: it resumes in the
    /// trampoline with the task body and its argument in the two argument
    /// registers, and every other register is zero.
    pub open spec fn spec_initial(cfg: Config, func: u64, arg: u64) -> State {
        State {
            pkru: 0,
            fs: 0,
            r15: 0,
            r14: 0,
            r13: 0,
            r12: 0,
            r11: 0,
            r10: 0,
            r9: 0,
            r8: 0,
            rdi: func,
            rsi: arg,
            rbp: 0,
            rbx: 0,
            rdx: 0,
            rcx: 0,
            rax: 0,
            rflags: INITIAL_RFLAGS,
            rip: cfg.task_entry,
        }
    }

    /// Builds the frame of a task that has not run yet.
    pub fn initial(cfg: &Config, func: u64, arg: u64) -> (state: State)
        ensures
            state == State::spec_initial(*cfg, func, arg),
    {
        State {
            pkru: 0,
            fs: 0,
            r15: 0,
            r14: 0,
            r13: 0,
            r12: 0,
            r11: 0,
            r10: 0,
            r9: 0,
            r8: 0,
            rdi: func,
            rsi: arg,
            rbp: 0,
            rbx: 0,
            rdx: 0,
            rcx: 0,
            rax: 0,
            rflags: INITIAL_RFLAGS,
            rip: cfg.task_entry,
        }
    }

    /// Lays the frame out as the context switch expects it in memory.
    pub fn encode(&self) -> (bytes: Vec<u8>)
        ensures
            bytes@ == self.to_bytes(),
    {
        let mut bytes: Vec<u8> = Vec::new();
        push_word(&mut bytes, self.pkru);
        push_word(&mut bytes, self.fs);
        push_word(&mut bytes, self.r15);
        push_word(&mut bytes, self.r14);
        push_word(&mut bytes, self.r13);
        push_word(&mut bytes, self.r12);
        push_word(&mut bytes, self.r11);
        push_word(&mut bytes, self.r10);
        push_word(&mut bytes, self.r9);
        push_word(&mut bytes, self.r8);
        push_word(&mut bytes, self.rdi);
        push_word(&mut bytes, self.rsi);
        push_word(&mut bytes, self.rbp);
        push_word(&mut bytes, self.rbx);
        push_word(&mut bytes, self.rdx);
        push_word(&mut bytes, self.rcx);
        push_word(&mut bytes, self.rax);
        push_word(&mut bytes, self.rflags);
        push_word(&mut bytes, self.rip);
        assert(bytes@ =~= self.to_bytes());
        bytes
    }

    /// Reads a frame back from its image. The image must have exactly the
    /// size of a frame; any other length gives `None`.
    pub fn decode(bytes: &[u8]) -> (state: Option<State>)
        ensures
            state == if bytes@.len() == STATE_SIZE {
                Some(State::from_bytes(bytes@))
            } else {
                None
            },
    {
        if bytes.len() != 152 {
            return None;
        }
        Some(
            State {
                pkru: decode_word(bytes, 0),
                fs: decode_word(bytes, 8),
                r15: decode_word(bytes, 16),
                r14: decode_word(bytes, 24),
                r13: decode_word(bytes, 32),
                r12: decode_word(bytes, 40),
                r11: decode_word(bytes, 48),
                r10: decode_word(bytes, 56),
                r9: decode_word(bytes, 64),
                r8: decode_word(bytes, 72),
                rdi: decode_word(bytes, 80),
                rsi: decode_word(bytes, 88),
                rbp: decode_word(bytes, 96),
                rbx: decode_word(bytes, 104),
                rdx: decode_word(bytes, 112),
                rcx: decode_word(bytes, 120),
                rax: decode_word(bytes, 128),
                rflags: decode_word(bytes, 136),
                rip: decode_word(bytes, 144),
            },
        )
    }
}

/// The word in slot `index` of a frame's image is the register of that slot.
pub proof fn lemma_state_word(state: State, index: int)
    requires
        0 <= index < 19,
    ensures
        state.to_bytes().subrange(8 * index, 8 * index + 8) == word_bytes(state.word(index)),
        word_value(state.to_bytes().subrange(8 * index, 8 * index + 8)) == state.word(index),
{
    let part = state.to_bytes().subrange(8 * index, 8 * index + 8);
    assert forall|j: int| 0 <= j < 8 implies part[j] == word_bytes(state.word(index))[j] by {
        assert((8 * index + j) / 8 == index);
        assert((8 * index + j) % 8 == j);
    }
    assert(part =~= word_bytes(state.word(index)));
    lemma_word_roundtrip(state.word(index));
}

/// Decoding the image of a frame gives the frame back.
pub proof fn lemma_state_roundtrip(state: State)
    ensures
        state.to_bytes().len() == STATE_SIZE,
        State::from_bytes(state.to_bytes()) == state,
{
    lemma_state_word(state, 0);
    lemma_state_word(state, 1);
    lemma_state_word(state, 2);
    lemma_state_word(state, 3);
    lemma_state_word(state, 4);
    lemma_state_word(state, 5);
    lemma_state_word(state, 6);
    lemma_state_word(state, 7);
    lemma_state_word(state, 8);
    lemma_state_word(state, 9);
    lemma_state_word(state, 10);
    lemma_state_word(state, 11);
    lemma_state_word(state, 12);
    lemma_state_word(state, 13);
    lemma_state_word(state, 14);
    lemma_state_word(state, 15);
    lemma_state_word(state, 16);
    lemma_state_word(state, 17);
    lemma_state_word(state, 18);
}

} // verus!
