//! Trap frames, faults and the words that cross the user boundary.
use vstd::array::spec_array_update;
use vstd::prelude::*;

use crate::ids::{SyscallError, VirtAddr};
use crate::ipc::NO_TRANSFER_CAP;
use crate::task::FaultPolicy;

verus! {

/// Argument lane: the capability, or the requested break.
pub const SYSCALL_ARG_CAP: usize = 0;

/// Argument lane: the user buffer.
pub const SYSCALL_ARG_PTR: usize = 1;

/// Argument lane: the length of the user buffer.
pub const SYSCALL_ARG_LEN: usize = 2;

/// Argument lane: first inline payload word, or the metadata buffer.
pub const SYSCALL_ARG_INLINE_PAYLOAD0: usize = 3;

/// Argument lane: second inline payload word, or the length of the metadata buffer.
pub const SYSCALL_ARG_INLINE_PAYLOAD1: usize = 4;

/// Bytes of receive metadata.
pub const RECV_META_LEN: usize = 40;

/// Metadata flag: the capability word holds a transferred capability.
pub const RECV_META_TRANSFERRED_CAP: u64 = 1;

/// Metadata flag: the capability word holds a reply capability.
pub const RECV_META_REPLY_CAP: u64 = 2;

/// How memory was accessed when it faulted.
#[derive(Clone, Copy, Debug, PartialEq, Eq, Structural)]
pub enum FaultAccess {
    Read,
    Write,
    Execute,
}

/// A memory fault.
#[derive(Clone, Copy, Debug, PartialEq, Eq, Structural)]
pub struct FaultInfo {
    pub addr: VirtAddr,
    pub access: FaultAccess,
}

impl SyscallError {
    pub open spec fn spec_code(self) -> u64 {
        match self {
            SyscallError::InvalidArgs => 1,
            SyscallError::InvalidCapability => 2,
            SyscallError::MissingRight => 3,
            SyscallError::WrongObject => 4,
            SyscallError::WouldBlock => 5,
            SyscallError::QueueFull => 6,
            SyscallError::PageFault => 7,
            SyscallError::Internal => 8,
        }
    }

    /// The error word that user space sees.
    #[verifier::when_used_as_spec(spec_code)]
    pub fn code(self) -> (r: u64)
        ensures
            r == self.spec_code(),
    {
        match self {
            SyscallError::InvalidArgs => 1,
            SyscallError::InvalidCapability => 2,
            SyscallError::MissingRight => 3,
            SyscallError::WrongObject => 4,
            SyscallError::WouldBlock => 5,
            SyscallError::QueueFull => 6,
            SyscallError::PageFault => 7,
            SyscallError::Internal => 8,
        }
    }
}

/// Registers of a trapped system call.
#[derive(Clone, Copy, Debug, PartialEq, Eq)]
pub struct TrapFrame {
    pub nr: usize,
    pub args: [u64; 6],
    pub ret0: u64,
    pub ret1: u64,
    pub ret2: u64,
    /// Error word; zero means success.
    pub error: u64,
    pub saved_pc: u64,
    pub saved_sp: u64,
}

impl TrapFrame {
    /// A frame that asks for system call `nr`.
    pub fn new(nr: usize, args: [u64; 6]) -> (r: TrapFrame)
        ensures
            r == (TrapFrame {
                nr,
                args,
                ret0: 0,
                ret1: 0,
                ret2: 0,
                error: 0,
                saved_pc: 0,
                saved_sp: 0,
            }),
    {
        TrapFrame { nr, args, ret0: 0, ret1: 0, ret2: 0, error: 0, saved_pc: 0, saved_sp: 0 }
    }

    /// Argument `i`.
    pub fn arg(&self, i: usize) -> (r: u64)
        requires
            i < 6,
        ensures
            r == self.args@[i as int],
    {
        self.args[i]
    }

    /// The frame that reports success.
    pub open spec fn ok(self, ret0: u64, ret1: u64, ret2: u64) -> TrapFrame {
        TrapFrame { ret0, ret1, ret2, error: 0, ..self }
    }

    /// Reports success.
    pub fn set_ok(&mut self, ret0: u64, ret1: u64, ret2: u64)
        ensures
            *final(self) == old(self).ok(ret0, ret1, ret2),
    {
        self.ret0 = ret0;
        self.ret1 = ret1;
        self.ret2 = ret2;
        self.error = 0;
    }

    /// The frame that reports an error.
    pub open spec fn failed(self, code: u64) -> TrapFrame {
        TrapFrame { error: code, ..self }
    }

    /// Reports an error.
    pub fn set_err(&mut self, code: u64)
        ensures
            *final(self) == old(self).failed(code),
    {
        self.error = code;
    }

    /// Sets the program counter to return to.
    pub fn set_saved_pc(&mut self, pc: u64)
        ensures
            *final(self) == (TrapFrame { saved_pc: pc, ..*old(self) }),
    {
        self.saved_pc = pc;
    }

    /// Sets the stack pointer to return to.
    pub fn set_saved_sp(&mut self, sp: u64)
        ensures
            *final(self) == (TrapFrame { saved_sp: sp, ..*old(self) }),
    {
        self.saved_sp = sp;
    }

    /// The frame with its capability lane set.
    pub open spec fn with_cap_word(self, word: u64) -> TrapFrame {
        TrapFrame { ret2: word, ..self }
    }

    /// Puts the receiver's capability, or the word for none, into the capability lane.
    /// The word for none cannot name a capability.
    pub fn encode_transfer_cap(&mut self, cap: Option<u64>) -> (r: Result<(), SyscallError>)
        ensures
            r == if cap == Some(NO_TRANSFER_CAP) {
                Err::<(), SyscallError>(SyscallError::Internal)
            } else {
                Ok(())
            },
            *final(self) == if r is Ok {
                old(self).with_cap_word(cap_word(cap))
            } else {
                *old(self)
            },
    {
        match cap {
            Some(word) => {
                if word == NO_TRANSFER_CAP {
                    return Err(SyscallError::Internal);
                }
                self.ret2 = word;
                Ok(())
            },
            None => {
                self.ret2 = NO_TRANSFER_CAP;
                Ok(())
            },
        }
    }

    /// The frame with the two inline payload words set.
    pub open spec fn with_words(self, words: (u64, u64)) -> TrapFrame {
        TrapFrame {
            args: spec_array_update(spec_array_update(self.args, 3, words.0), 4, words.1),
            ..self
        }
    }

    /// Sets the two inline payload words.
    pub fn set_words(&mut self, words: (u64, u64))
        ensures
            *final(self) == old(self).with_words(words),
    {
        self.args[SYSCALL_ARG_INLINE_PAYLOAD0] = words.0;
        self.args[SYSCALL_ARG_INLINE_PAYLOAD1] = words.1;
    }
}

/// Capability lane for an optional capability.
pub open spec fn cap_word(cap: Option<u64>) -> u64 {
    match cap {
        Some(word) => word,
        None => NO_TRANSFER_CAP,
    }
}

/// Bytes `from..to` as one little-endian number.
pub open spec fn word_from(bytes: Seq<u8>, from: int, to: int) -> u64
    decreases to - from,
{
    if from >= to {
        0
    } else {
        (word_from(bytes, from + 1, to) << 8) | (bytes[from] as u64)
    }
}

/// The payload as two register words; payloads beyond sixteen bytes do not fit.
pub open spec fn register_words(bytes: Seq<u8>) -> Option<(u64, u64)> {
    if bytes.len() > 16 {
        None
    } else if bytes.len() > 8 {
        Some((word_from(bytes, 0, 8), word_from(bytes, 8, bytes.len() as int)))
    } else {
        Some((word_from(bytes, 0, bytes.len() as int), 0))
    }
}

fn pack_word(bytes: &[u8], from: usize, to: usize) -> (r: u64)
    requires
        from <= to <= bytes@.len(),
    ensures
        r == word_from(bytes@, from as int, to as int),
{
    let mut word: u64 = 0;
    let mut i: usize = to;
    while i > from
        invariant
            from <= i <= to <= bytes@.len(),
            word == word_from(bytes@, i as int, to as int),
        decreases i,
    {
        i -= 1;
        word = (word << 8) | (bytes[i] as u64);
    }
    word
}

/// Packs a payload into two register words.
pub fn pack_register_payload(bytes: &[u8]) -> (r: Option<(u64, u64)>)
    ensures
        r == register_words(bytes@),
{
    if bytes.len() > 16 {
        return None;
    }
    if bytes.len() > 8 {
        Some((pack_word(bytes, 0, 8), pack_word(bytes, 8, bytes.len())))
    } else {
        Some((pack_word(bytes, 0, bytes.len()), 0))
    }
}

/// The eight bytes of `word`, lowest first.
pub open spec fn word_bytes(word: u64) -> Seq<u8> {
    Seq::new(8, |i: int| ((word >> ((8 * i) as u64)) & 0xFF) as u8)
}

/// What receive metadata says of a message.
#[derive(Clone, Copy, Debug, PartialEq, Eq, Structural)]
pub struct RecvMeta {
    pub status: u64,
    pub opcode: u16,
    pub payload_len: u64,
    pub cap: u64,
    pub flags: u64,
    pub sender_tid: u64,
}

impl RecvMeta {
    /// The metadata as bytes: status, operation and length, capability, flags, sender.
    pub open spec fn bytes(self) -> Seq<u8> {
        word_bytes(self.status) + word_bytes(
            ((self.opcode as u64) << 48) | self.payload_len,
        ) + word_bytes(self.cap) + word_bytes(self.flags) + word_bytes(self.sender_tid)
    }

    /// Encodes the metadata.
    pub fn encode(&self) -> (r: Vec<u8>)
        ensures
            r@ == self.bytes(),
            r@.len() == RECV_META_LEN,
    {
        let mut out: Vec<u8> = Vec::new();
        push_word(&mut out, self.status);
        push_word(&mut out, ((self.opcode as u64) << 48) | self.payload_len);
        push_word(&mut out, self.cap);
        push_word(&mut out, self.flags);
        push_word(&mut out, self.sender_tid);
        out
    }
}

fn push_word(out: &mut Vec<u8>, word: u64)
    ensures
        final(out)@ == old(out)@ + word_bytes(word),
{
    let ghost before = out@;
    let mut i: u64 = 0;
    while i < 8
        invariant
            i <= 8,
            out@ == before + word_bytes(word).take(i as int),
            before == old(out)@,
        decreases 8 - i,
    {
        let byte: u8 = ((word >> (8 * i)) & 0xFF) as u8;
        out.push(byte);
        assert(word_bytes(word).take(i + 1) =~= word_bytes(word).take(i as int).push(byte));
        i += 1;
    }
    assert(word_bytes(word).take(8) =~= word_bytes(word));
}

/// Diagnostic record of faults.
#[derive(Clone, Copy, Debug, PartialEq, Eq)]
pub struct FaultSubsystem {
    pub last_fault: Option<FaultInfo>,
    pub last_fault_frame: Option<TrapFrame>,
    pub fault_policy: FaultPolicy,
    pub supervisor_endpoint: Option<usize>,
}

/// Diagnostic counters.
#[derive(Clone, Copy, Debug, PartialEq, Eq, Structural)]
pub struct TelemetrySubsystem {
    pub tlb_shootdown_count: u64,
    pub tlb_shootdown_timeout_count: u64,
    pub d3_vm_brk_shrink_split_live_calls: u64,
    pub d3_vm_brk_shrink_split_live_pages_unmapped: u64,
}

} // verus!
