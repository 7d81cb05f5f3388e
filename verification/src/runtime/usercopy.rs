//! Copies between kernel and user memory.
use vstd::prelude::*;

use crate::ids::{Asid, KernelError};
use crate::kernel::Kernel;
use crate::memory::Mem;
use crate::runtime::SharedKernel;
use crate::vm::Vm;

verus! {

/// Most bytes that one read from user memory takes.
pub const DEBUG_LOG_MAX_BYTES: usize = 192;

impl Vm {
    /// May user code access every one of the `len` bytes at `ptr`?
    pub open spec fn user_range(self, asid: Asid, ptr: u64, len: int, write: bool) -> bool {
        forall|i: int|
            0 <= i < len ==> ptr + i <= u64::MAX && (#[trigger] self.user_phys(
                asid,
                (ptr + i) as u64,
                write,
            )) is Some
    }

    /// Physical address of the byte at `ptr + i`.
    pub open spec fn user_byte_phys(self, asid: Asid, ptr: u64, i: int, write: bool) -> u64 {
        self.user_phys(asid, (ptr + i) as u64, write)->0
    }
}

impl Mem {
    /// The state after `bytes` were written to user memory at `ptr`, first byte first.
    pub open spec fn user_written(self, vm: Vm, asid: Asid, ptr: u64, bytes: Seq<u8>) -> Mem
        decreases bytes.len(),
    {
        if bytes.len() == 0 {
            self
        } else {
            self.user_written(vm, asid, ptr, bytes.drop_last()).byte_set(
                vm.user_byte_phys(asid, ptr, bytes.len() - 1, true),
                bytes.last(),
            )
        }
    }
}

impl Kernel {
    /// Can `bytes` be written to user memory at `ptr`?
    pub open spec fn user_copy_fits(self, asid: Asid, ptr: u64, bytes: Seq<u8>) -> bool {
        self.vm.user_range(asid, ptr, bytes.len() as int, true)
    }

    /// The state after an attempt to write `bytes` to user memory at `ptr`: all or nothing.
    pub open spec fn user_copied(self, asid: Asid, ptr: u64, bytes: Seq<u8>) -> Kernel {
        if self.user_copy_fits(asid, ptr, bytes) {
            Kernel { mem: self.mem.user_written(self.vm, asid, ptr, bytes), ..self }
        } else {
            self
        }
    }
}

/// Writing to user memory changes bytes and nothing else.
pub proof fn lemma_user_written_frame(mem: Mem, vm: Vm, asid: Asid, ptr: u64, bytes: Seq<u8>)
    ensures
        mem.user_written(vm, asid, ptr, bytes) == (Mem {
            bytes: mem.user_written(vm, asid, ptr, bytes).bytes,
            ..mem
        }),
    decreases bytes.len(),
{
    if bytes.len() > 0 {
        lemma_user_written_frame(mem, vm, asid, ptr, bytes.drop_last());
    }
}

/// What was written to user memory is read back, as long as no two of the written
/// addresses are the same physical byte.
pub proof fn law_copy_reads_back(mem: Mem, vm: Vm, asid: Asid, ptr: u64, bytes: Seq<u8>, i: int)
    requires
        0 <= i < bytes.len(),
        forall|a: int, b: int|
            0 <= a < b < bytes.len() ==> #[trigger] vm.user_byte_phys(asid, ptr, a, true)
                != #[trigger] vm.user_byte_phys(asid, ptr, b, true),
    ensures
        mem.user_written(vm, asid, ptr, bytes).byte(vm.user_byte_phys(asid, ptr, i, true))
            == bytes[i],
    decreases bytes.len(),
{
    if i < bytes.len() - 1 {
        law_copy_reads_back(mem, vm, asid, ptr, bytes.drop_last(), i);
        assert(vm.user_byte_phys(asid, ptr, i, true) != vm.user_byte_phys(
            asid,
            ptr,
            bytes.len() - 1,
            true,
        ));
    }
}

/// A byte that no written address reaches keeps its value.
pub proof fn law_copy_spares_others(
    mem: Mem,
    vm: Vm,
    asid: Asid,
    ptr: u64,
    bytes: Seq<u8>,
    phys: u64,
)
    requires
        forall|i: int|
            0 <= i < bytes.len() ==> #[trigger] vm.user_byte_phys(asid, ptr, i, true) != phys,
    ensures
        mem.user_written(vm, asid, ptr, bytes).byte(phys) == mem.byte(phys),
    decreases bytes.len(),
{
    if bytes.len() > 0 {
        law_copy_spares_others(mem, vm, asid, ptr, bytes.drop_last(), phys);
        assert(vm.user_byte_phys(asid, ptr, bytes.len() - 1, true) != phys);
    }
}

impl SharedKernel {
    /// May user code access all of the `len` bytes at `ptr`?
    fn user_range_ok(&self, asid: Asid, ptr: u64, len: usize, write: bool) -> (r: bool)
        ensures
            r == self@.vm.user_range(asid, ptr, len as int, write),
    {
        let mut i: usize = 0;
        while i < len
            invariant
                i <= len,
                self@.vm.user_range(asid, ptr, i as int, write),
            decreases len - i,
        {
            let va: u64 = match ptr.checked_add(i as u64) {
                None => {
                    return false;
                },
                Some(va) => va,
            };
            if self.state.vm.user_phys(asid, va, write).is_none() {
                assert(self@.vm.user_phys(asid, (ptr + i) as u64, write) is None);
                return false;
            }
            i += 1;
        }
        true
    }

    /// Writes `bytes` to user memory at `ptr`; on a fault nothing is written.
    pub fn copy_to_user_split(&mut self, asid: Asid, ptr: u64, bytes: &[u8]) -> (r: Result<
        (),
        KernelError,
    >)
        ensures
            r == if old(self)@.user_copy_fits(asid, ptr, bytes@) {
                Ok::<(), KernelError>(())
            } else {
                Err(KernelError::UserMemoryFault)
            },
            final(self)@ == old(self)@.user_copied(asid, ptr, bytes@),
            r is Err ==> final(self)@ == old(self)@,
    {
        if !self.user_range_ok(asid, ptr, bytes.len(), true) {
            return Err(KernelError::UserMemoryFault);
        }
        let ghost before = self@;
        let mut i: usize = 0;
        assert(bytes@.take(0) =~= Seq::<u8>::empty());
        while i < bytes.len()
            invariant
                before == old(self)@,
                i <= bytes@.len(),
                before.vm.user_range(asid, ptr, bytes@.len() as int, true),
                self@ == (Kernel {
                    mem: before.mem.user_written(before.vm, asid, ptr, bytes@.take(i as int)),
                    ..before
                }),
            decreases bytes@.len() - i,
        {
            assert(before.vm.user_phys(asid, (ptr + i) as u64, true) is Some);
            let va: u64 = ptr + (i as u64);
            assert(bytes@.take(i + 1).drop_last() =~= bytes@.take(i as int));
            match self.state.vm.user_phys(asid, va, true) {
                Some(phys) => {
                    self.state.mem.write_byte(phys, bytes[i]);
                },
                None => {},
            }
            i += 1;
        }
        assert(bytes@.take(bytes@.len() as int) =~= bytes@);
        Ok(())
    }

    /// Writes `src` to user memory at `user_ptr` in the address space numbered `asid_raw`;
    /// on a fault nothing is written.
    pub fn copy_slice_to_user_asid_split_write(
        &mut self,
        asid_raw: u64,
        user_ptr: usize,
        src: &[u8],
    ) -> (r: Result<(), KernelError>)
        ensures
            r == if asid_raw <= u16::MAX && old(self)@.user_copy_fits(
                Asid(asid_raw as u16),
                user_ptr as u64,
                src@,
            ) {
                Ok::<(), KernelError>(())
            } else {
                Err(KernelError::UserMemoryFault)
            },
            final(self)@ == if r is Ok {
                old(self)@.user_copied(Asid(asid_raw as u16), user_ptr as u64, src@)
            } else {
                old(self)@
            },
    {
        if asid_raw > u16::MAX as u64 {
            return Err(KernelError::UserMemoryFault);
        }
        self.copy_to_user_split(Asid(asid_raw as u16), user_ptr as u64, src)
    }

    /// Reads `len` bytes of user memory at `user_ptr` in the address space numbered
    /// `asid_raw`; the rest of the buffer is zero.
    pub fn copy_from_user_asid_split_read(&self, asid_raw: u64, user_ptr: usize, len: usize) -> (r:
        Option<[u8; 192]>)
        ensures
            r is Some <==> 0 < asid_raw <= u16::MAX && 0 < len <= DEBUG_LOG_MAX_BYTES
                && self@.vm.user_range(Asid(asid_raw as u16), user_ptr as u64, len as int, false),
            r matches Some(out) ==> forall|i: int|
                0 <= i < 192 ==> #[trigger] out@[i] == if i < len {
                    self@.mem.byte(
                        self@.vm.user_byte_phys(
                            Asid(asid_raw as u16),
                            user_ptr as u64,
                            i,
                            false,
                        ),
                    )
                } else {
                    0
                },
    {
        if asid_raw == 0 || len == 0 || len > DEBUG_LOG_MAX_BYTES {
            return None;
        }
        if asid_raw > u16::MAX as u64 {
            return None;
        }
        let asid = Asid(asid_raw as u16);
        let ptr: u64 = user_ptr as u64;
        if !self.user_range_ok(asid, ptr, len, false) {
            return None;
        }
        let mut out: [u8; 192] = [0u8; 192];
        let mut i: usize = 0;
        while i < len
            invariant
                i <= len <= 192,
                asid == Asid(asid_raw as u16),
                ptr == user_ptr as u64,
                self@.vm.user_range(asid, ptr, len as int, false),
                forall|j: int|
                    0 <= j < 192 ==> #[trigger] out@[j] == if j < i {
                        self@.mem.byte(self@.vm.user_byte_phys(asid, ptr, j, false))
                    } else {
                        0
                    },
            decreases len - i,
        {
            assert(self@.vm.user_phys(asid, (ptr + i) as u64, false) is Some);
            let va: u64 = ptr + (i as u64);
            match self.state.vm.user_phys(asid, va, false) {
                Some(phys) => {
                    out[i] = self.state.mem.read_byte(phys);
                },
                None => {},
            }
            i += 1;
        }
        Some(out)
    }
}

} // verus!
