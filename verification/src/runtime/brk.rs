//! Shrinking a program break while one processor is online.
use vstd::prelude::*;

use crate::ids::{
    Asid, CpuId, KernelError, SyscallError, TrapHandleError, VirtAddr, KERNEL_SPACE_BASE,
    PAGE_SIZE,
};
use crate::kernel::Kernel;
use crate::runtime::SharedKernel;
use crate::seqs;
use crate::task::Tasks;
use crate::trap::{TelemetrySubsystem, TrapFrame, SYSCALL_ARG_CAP};

verus! {

/// `address` rounded up to a page boundary, if there is one.
pub open spec fn page_ceiling(address: u64) -> Option<u64> {
    if address + 4095 <= u64::MAX {
        Some(((address + 4095) / 4096 * 4096) as u64)
    } else {
        None
    }
}

/// Rounds an address up to a page boundary.
pub fn round_up_page(address: u64) -> (r: Option<u64>)
    ensures
        r == page_ceiling(address),
{
    if address > u64::MAX - 4095 {
        return None;
    }
    Some((address + 4095) / 4096 * 4096)
}

impl Tasks {
    /// Does `tid` lead its thread group?  A missing task leads none.
    pub open spec fn leads_group(self, tid: u64) -> bool {
        self.group_of(tid) == Some(tid)
    }
}

/// A break to lower: the task, the break's base and its new end, and the pages that go.
#[derive(Clone, Copy, Debug, PartialEq, Eq, Structural)]
pub struct BrkShrink {
    pub tid: u64,
    pub base: u64,
    pub end: u64,
    pub unmap_start: u64,
    pub unmap_end: u64,
}

/// The end of an attempt to shrink a break: the state behind it, and the pages that were
/// unmapped or the error.
#[verifier::ext_equal]
pub struct BrkEnd {
    pub kernel: Kernel,
    pub pages: Result<nat, KernelError>,
}

impl Kernel {
    /// The shrink that a break request asks for.  Requests that unmap nothing, and all
    /// requests while a second processor is online, ask for none.
    pub open spec fn brk_shrink(self, cpu: CpuId, requested: u64) -> Option<BrkShrink> {
        if seqs::count_where(self.sched.cpus, crate::scheduler::is_online()) > 1
            || !self.sched.online(cpu) || self.sched.current_on(cpu) is None {
            None
        } else {
            let tid = self.sched.current_on(cpu)->0;
            match (self.mem.brk_of(tid), page_ceiling(requested)) {
                (Some((base, current_end)), Some(unmap_start)) => match page_ceiling(current_end) {
                    Some(unmap_end) if self.tasks.leads_group(tid) && 0 < requested
                        < KERNEL_SPACE_BASE && base <= requested < current_end && unmap_start
                        < unmap_end => Some(
                        BrkShrink { tid, base, end: requested, unmap_start, unmap_end },
                    ),
                    _ => None,
                },
                _ => None,
            }
        }
    }

    /// Unmapping the pages from `va` up to `end` for good, `n` having gone before: the first
    /// error ends it.
    pub open spec fn pages_dropped(self, asid: Asid, va: int, end: int, n: nat) -> BrkEnd
        decreases (if end > va {
            end - va
        } else {
            0
        }),
    {
        if va >= end {
            BrkEnd { kernel: self, pages: Ok(n) }
        } else {
            let page = VirtAddr(va as u64);
            match self.vm.map_verdict(asid, page) {
                Err(e) => BrkEnd { kernel: self, pages: Err(KernelError::Vm(e)) },
                Ok(None) => self.pages_dropped(asid, va + 4096, end, n),
                Ok(Some(mapping)) => Kernel {
                    vm: self.vm.unmapped(asid, page),
                    mem: self.mem.page_dropped(asid, page, mapping.phys),
                    ..self
                }.pages_dropped(asid, va + 4096, end, n + 1),
            }
        }
    }

    /// What a shrink comes to before it is recorded.
    pub open spec fn brk_unmapped(self, shrink: BrkShrink) -> BrkEnd {
        match self.tasks.asid_of(shrink.tid) {
            None => BrkEnd { kernel: self, pages: Err(KernelError::UserMemoryFault) },
            Some(asid) => self.pages_dropped(
                asid,
                shrink.unmap_start as int,
                shrink.unmap_end as int,
                0,
            ),
        }
    }

    /// The state after the new break was recorded and the shrink was counted.
    pub open spec fn brk_recorded(self, shrink: BrkShrink, pages: nat) -> Kernel {
        Kernel {
            mem: self.mem.brk_set(shrink.tid, shrink.base, shrink.end),
            telemetry: TelemetrySubsystem {
                d3_vm_brk_shrink_split_live_calls:
                    self.telemetry.d3_vm_brk_shrink_split_live_calls.wrapping_add(1),
                d3_vm_brk_shrink_split_live_pages_unmapped:
                    self.telemetry.d3_vm_brk_shrink_split_live_pages_unmapped.wrapping_add(
                    pages as u64,
                ),
                ..self.telemetry
            },
            ..self
        }
    }

    /// What a break request comes to.  None leaves the request to the general path.
    pub open spec fn brk_result(self, cpu: CpuId, requested: u64) -> Option<
        Result<(), TrapHandleError>,
    > {
        match self.brk_shrink(cpu, requested) {
            None => None,
            Some(shrink) => match self.brk_unmapped(shrink).pages {
                Err(e) => Some(
                    Err(TrapHandleError::Syscall(crate::ids::syscall_error_of(e))),
                ),
                Ok(_) => Some(Ok(())),
            },
        }
    }

    /// The state after a break request.
    pub open spec fn after_brk(self, cpu: CpuId, requested: u64) -> Kernel {
        match self.brk_shrink(cpu, requested) {
            None => self,
            Some(shrink) => {
                let end = self.brk_unmapped(shrink);
                match end.pages {
                    Err(_) => end.kernel,
                    Ok(pages) => end.kernel.brk_recorded(shrink, pages),
                }
            },
        }
    }
}

/// Unmapping pages leaves the recorded breaks alone.
proof fn lemma_pages_dropped(k: Kernel, asid: Asid, va: int, end: int, n: nat)
    ensures
        k.pages_dropped(asid, va, end, n).kernel.mem.brk == k.mem.brk,
    decreases (if end > va {
            end - va
        } else {
            0
        }),
{
    if va < end {
        let page = VirtAddr(va as u64);
        match k.vm.map_verdict(asid, page) {
            Err(_) => {},
            Ok(None) => {
                lemma_pages_dropped(k, asid, va + 4096, end, n);
            },
            Ok(Some(mapping)) => {
                let next = Kernel {
                    vm: k.vm.unmapped(asid, page),
                    mem: k.mem.page_dropped(asid, page, mapping.phys),
                    ..k
                };
                lemma_pages_dropped(next, asid, va + 4096, end, n + 1);
            },
        }
    }
}

impl SharedKernel {
    /// Does `tid` lead its thread group?
    pub fn is_group_leader_split_read(&self, tid: u64) -> (r: bool)
        ensures
            r == self@.tasks.leads_group(tid),
    {
        match self.state.tasks.group_of(tid) {
            Some(group) => group == tid,
            None => false,
        }
    }

    /// The shrink that a break request asks for.
    fn brk_shrink(&self, cpu: CpuId, requested: u64) -> (r: Option<BrkShrink>)
        ensures
            r == self@.brk_shrink(cpu, requested),
    {
        if self.state.sched.online_cpu_count() > 1 {
            return None;
        }
        let tid: u64 = match self.current_tid_authoritative(cpu) {
            None => {
                return None;
            },
            Some(tid) => tid,
        };
        if !self.is_group_leader_split_read(tid) || requested == 0 || requested
            >= KERNEL_SPACE_BASE {
            return None;
        }
        let (base, current_end) = match self.state.mem.brk_of(tid) {
            None => {
                return None;
            },
            Some(bounds) => bounds,
        };
        if requested < base || requested >= current_end {
            return None;
        }
        match (round_up_page(requested), round_up_page(current_end)) {
            (Some(unmap_start), Some(unmap_end)) => {
                if unmap_start >= unmap_end {
                    return None;
                }
                Some(BrkShrink { tid, base, end: requested, unmap_start, unmap_end })
            },
            _ => None,
        }
    }

    /// Unmaps the pages from `start` up to `end` for good; says how many there were.
    fn drop_pages(&mut self, asid: Asid, start: u64, end: u64) -> (r: Result<u64, KernelError>)
        ensures
            final(self)@ == old(self)@.pages_dropped(asid, start as int, end as int, 0).kernel,
            match old(self)@.pages_dropped(asid, start as int, end as int, 0).pages {
                Ok(n) => r matches Ok(m) && n == m,
                Err(e) => r == Err::<u64, KernelError>(e),
            },
    {
        let mut pages: u64 = 0;
        let mut va: u64 = start;
        while va < end
            invariant
                start <= va,
                pages <= va - start,
                old(self)@.pages_dropped(asid, start as int, end as int, 0)
                    == self@.pages_dropped(asid, va as int, end as int, pages as nat),
            decreases (if end > va {
                end - va
            } else {
                0
            }),
        {
            match self.state.vm.unmap_page(asid, VirtAddr(va)) {
                Err(e) => {
                    return Err(KernelError::Vm(e));
                },
                Ok(None) => {},
                Ok(Some(mapping)) => {
                    self.state.mem.drop_page(asid, VirtAddr(va), mapping.phys);
                    pages += 1;
                },
            }
            if va > u64::MAX - PAGE_SIZE as u64 {
                assert(self@.pages_dropped(asid, va + 4096, end as int, pages as nat) == (BrkEnd {
                    kernel: self@,
                    pages: Ok(pages as nat),
                }));
                return Ok(pages);
            }
            va += PAGE_SIZE as u64;
        }
        Ok(pages)
    }

    /// Lowers the current task's program break and unmaps the pages beyond it.  None leaves the
    /// request to the general path, with nothing changed.
    pub fn try_split_vm_brk_shrink_into_frame(&mut self, cpu: CpuId, frame: &mut TrapFrame) -> (r:
        Option<Result<(), TrapHandleError>>)
        ensures
            r == old(self)@.brk_result(cpu, old(frame).args@[SYSCALL_ARG_CAP as int]),
            final(self)@ == old(self)@.after_brk(cpu, old(frame).args@[SYSCALL_ARG_CAP as int]),
            *final(frame) == if r == Some(Ok::<(), TrapHandleError>(())) {
                old(frame).ok(old(frame).args@[SYSCALL_ARG_CAP as int], 0, 0)
            } else {
                *old(frame)
            },
    {
        let requested: u64 = frame.arg(SYSCALL_ARG_CAP);
        let shrink = match self.brk_shrink(cpu, requested) {
            None => {
                return None;
            },
            Some(shrink) => shrink,
        };
        let asid = match self.state.tasks.asid_of(shrink.tid) {
            None => {
                return Some(
                    Err(
                        TrapHandleError::Syscall(
                            SyscallError::from_kernel(KernelError::UserMemoryFault),
                        ),
                    ),
                );
            },
            Some(asid) => asid,
        };
        let ghost before = self@;
        let pages: u64 = match self.drop_pages(asid, shrink.unmap_start, shrink.unmap_end) {
            Err(e) => {
                return Some(Err(TrapHandleError::Syscall(SyscallError::from_kernel(e))));
            },
            Ok(pages) => pages,
        };
        proof {
            lemma_pages_dropped(
                before,
                asid,
                shrink.unmap_start as int,
                shrink.unmap_end as int,
                0,
            );
        }
        if let Err(e) = self.state.mem.set_brk(shrink.tid, shrink.base, shrink.end) {
            return Some(Err(TrapHandleError::Syscall(SyscallError::from_kernel(e))));
        }
        self.state.telemetry.d3_vm_brk_shrink_split_live_calls =
        self.state.telemetry.d3_vm_brk_shrink_split_live_calls.wrapping_add(1);
        self.state.telemetry.d3_vm_brk_shrink_split_live_pages_unmapped =
        self.state.telemetry.d3_vm_brk_shrink_split_live_pages_unmapped.wrapping_add(pages);
        frame.set_ok(requested, 0, 0);
        Some(Ok(()))
    }
}

} // verus!
