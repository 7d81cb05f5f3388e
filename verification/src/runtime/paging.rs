//! Mapping and unmapping user pages.
use vstd::prelude::*;

use crate::ids::{Asid, KernelError, PhysAddr, VirtAddr, VmError, MAX_CPUS, PAGE_SIZE};
use crate::kernel::Kernel;
use crate::memory::Mem;
use crate::runtime::SharedKernel;
use crate::vm::{Mapping, Vm};

verus! {

/// What the memory domain must be told of a page that was mapped.
#[derive(Clone, Copy, Debug, PartialEq, Eq, Structural)]
pub struct SharedRegionMapFollowup {
    pub inserted_phys: PhysAddr,
    pub replaced: Option<Mapping>,
}

/// What is asked of other processors about a page that was unmapped.
#[derive(Clone, Copy, Debug, PartialEq, Eq, Structural)]
pub struct ShootdownRequest {
    /// One bit for each processor that must drop its translation.
    pub targets: u64,
    /// How many of them there are.
    pub want: usize,
    pub virt: VirtAddr,
}

/// How many processors answered the request for page `i` of a range; none where `acks` does not
/// reach.
pub open spec fn acknowledged_at(acks: Seq<usize>, i: int) -> usize {
    if 0 <= i < acks.len() {
        acks[i]
    } else {
        0
    }
}

impl Mem {
    /// The state after a page was mapped in place of another, or of none.
    pub open spec fn page_mapped(self, inserted: PhysAddr, replaced: Option<Mapping>) -> Mem {
        let before = match replaced {
            Some(old) => self.mapping_noted(old.phys, false).reclaimed(old.phys),
            None => self,
        };
        before.mapping_noted(inserted, true)
    }
}

impl Vm {
    /// What mapping one page of a shared region comes to.
    pub open spec fn page_verdict(self, asid: Asid, virt: VirtAddr) -> Result<
        Option<Mapping>,
        VmError,
    > {
        if virt.0 % 4096 != 0 {
            Err(VmError::InvalidAddress)
        } else {
            self.map_verdict(asid, virt)
        }
    }
}

impl Kernel {
    /// The number of the address space of `tid`; zero when it has none.
    pub open spec fn asid_number(self, tid: u64) -> u64 {
        match self.tasks.asid_of(tid) {
            Some(asid) => asid.0 as u64,
            None => 0,
        }
    }

    /// May processor `c` hold translations of `asid`?  Only one that dispatches, and runs a
    /// task of that address space, can.
    pub open spec fn cpu_holds_space(self, asid: Asid, c: int) -> bool {
        &&& 0 <= c < self.sched.cpus.len()
        &&& self.sched.dispatches(c)
        &&& self.sched.cpus[c].current is Some
        &&& self.asid_number(self.sched.cpus[c].current->0) == asid.0
    }

    /// One bit for each of the first `n` processors that may hold translations of `asid`.
    pub open spec fn live_bitmap(self, asid: Asid, n: int) -> u64
        decreases n,
    {
        if n <= 0 {
            0
        } else if self.cpu_holds_space(asid, n - 1) {
            self.live_bitmap(asid, n - 1) | (1u64 << ((n - 1) as u64))
        } else {
            self.live_bitmap(asid, n - 1)
        }
    }

    /// Is processor `c` another than the current one, and may it hold translations of `asid`?
    pub open spec fn remote_holds(self, asid: Asid, c: int) -> bool {
        c != self.sched.current_cpu.0 && self.cpu_holds_space(asid, c)
    }

    /// How many of the first `n` processors, the current one left out, may hold translations of
    /// `asid`.
    pub open spec fn remote_holders(self, asid: Asid, n: int) -> nat
        decreases n,
    {
        if n <= 0 {
            0
        } else if self.remote_holds(asid, n - 1) {
            self.remote_holders(asid, n - 1) + 1
        } else {
            self.remote_holders(asid, n - 1)
        }
    }

    /// One bit for each of the first `n` processors, the current one left out, that may hold
    /// translations of `asid`.
    pub open spec fn remote_bitmap(self, asid: Asid, n: int) -> u64
        decreases n,
    {
        if n <= 0 {
            0
        } else if self.remote_holds(asid, n - 1) {
            self.remote_bitmap(asid, n - 1) | (1u64 << ((n - 1) as u64))
        } else {
            self.remote_bitmap(asid, n - 1)
        }
    }

    /// What is asked of other processors when the page at `virt` was unmapped; nothing when none
    /// of them may hold it.
    pub open spec fn shootdown_request(self, asid: Asid, virt: VirtAddr) -> Option<
        ShootdownRequest,
    > {
        if self.remote_holders(asid, MAX_CPUS as int) == 0 {
            None
        } else {
            Some(
                ShootdownRequest {
                    targets: self.remote_bitmap(asid, MAX_CPUS as int),
                    want: self.remote_holders(asid, MAX_CPUS as int) as usize,
                    virt,
                },
            )
        }
    }

    /// Is a page of `asid` that was unmapped out of every translation buffer, when
    /// `acknowledged` processors answered the request?  All that were asked must have.
    pub open spec fn shootdown_done(self, asid: Asid, acknowledged: usize) -> bool {
        self.remote_holders(asid, MAX_CPUS as int) == 0 || acknowledged == self.remote_holders(
            asid,
            MAX_CPUS as int,
        )
    }

    /// The state after the page at `va` was unmapped, if it was mapped, and `acknowledged`
    /// processors answered the request for it.  Its frame is freed only when no other processor
    /// can still translate to it.
    pub open spec fn page_unmapped(self, asid: Asid, va: int, acknowledged: usize) -> Kernel {
        match self.vm.map_verdict(asid, VirtAddr(va as u64)) {
            Ok(Some(mapping)) => {
                let noted = self.mem.mapping_noted(mapping.phys, false);
                Kernel {
                    vm: self.vm.unmapped(asid, VirtAddr(va as u64)),
                    mem: if self.shootdown_done(asid, acknowledged) {
                        noted.reclaimed(mapping.phys)
                    } else {
                        noted
                    },
                    ..self
                }
            },
            _ => self,
        }
    }

    /// Is a page mapped at `va` that another processor may still translate to when
    /// `acknowledged` processors answered the request for it?
    pub open spec fn page_unacknowledged(self, asid: Asid, va: int, acknowledged: usize) -> bool {
        self.vm.map_verdict(asid, VirtAddr(va as u64)) matches Ok(Some(_)) && !self.shootdown_done(
            asid,
            acknowledged,
        )
    }

    /// Unmapping the pages from `va` up to `end`, where `acks` has the answers from place `i` on:
    /// the state behind it, and whether every frame could be let go.
    pub open spec fn range_unmapped(
        self,
        asid: Asid,
        va: int,
        end: int,
        acked: bool,
        acks: Seq<usize>,
        i: int,
    ) -> (Kernel, bool)
        decreases (if end > va {
            end - va
        } else {
            0
        }),
    {
        if va >= end {
            (self, acked)
        } else {
            let answer = acknowledged_at(acks, i);
            self.page_unmapped(asid, va, answer).range_unmapped(
                asid,
                va + 4096,
                end,
                acked && !self.page_unacknowledged(asid, va, answer),
                acks,
                i + 1,
            )
        }
    }

    /// End of the range of `len` bytes at `base`, as far as addresses go.
    pub open spec fn range_end(self, base: usize, len: usize) -> int {
        if base + len <= usize::MAX {
            base + len
        } else {
            usize::MAX as int
        }
    }
}

/// There are no more holders than processors.
pub(crate) proof fn lemma_holders_bound(k: Kernel, asid: Asid, n: int)
    requires
        0 <= n,
    ensures
        k.remote_holders(asid, n) <= n,
    decreases n,
{
    if n > 0 {
        lemma_holders_bound(k, asid, n - 1);
    }
}

/// Which processors may hold translations does not depend on pages and memory.
proof fn lemma_holders_kept(k: Kernel, after: Kernel, asid: Asid, n: int)
    requires
        after.sched == k.sched,
        after.tasks == k.tasks,
    ensures
        after.remote_holders(asid, n) == k.remote_holders(asid, n),
    decreases n,
{
    if n > 0 {
        lemma_holders_kept(k, after, asid, n - 1);
    }
}

impl SharedKernel {
    /// Maps one page that user code may not execute.
    pub fn map_user_page_in_asid_split(&mut self, asid: Asid, virt: VirtAddr, mapping: Mapping) -> (r:
        Result<SharedRegionMapFollowup, KernelError>)
        requires
            virt.0 % 4096 == 0 ==> !mapping.flags.execute,
        ensures
            r == match old(self)@.vm.page_verdict(asid, virt) {
                Err(e) => Err::<SharedRegionMapFollowup, KernelError>(KernelError::Vm(e)),
                Ok(replaced) => Ok(
                    SharedRegionMapFollowup { inserted_phys: mapping.phys, replaced },
                ),
            },
            final(self)@ == if r is Ok {
                Kernel { vm: old(self)@.vm.mapped(asid, virt, mapping), ..old(self)@ }
            } else {
                old(self)@
            },
    {
        if virt.0 % (PAGE_SIZE as u64) != 0 {
            return Err(KernelError::Vm(VmError::InvalidAddress));
        }
        match self.state.vm.map_page(asid, virt, mapping) {
            Err(e) => Err(KernelError::Vm(e)),
            Ok(replaced) => Ok(
                SharedRegionMapFollowup { inserted_phys: mapping.phys, replaced },
            ),
        }
    }

    /// Tells the memory domain of a page that was mapped.
    pub fn sr_apply_map_followup_split(&mut self, follow: SharedRegionMapFollowup)
        ensures
            final(self)@ == (Kernel {
                mem: old(self)@.mem.page_mapped(follow.inserted_phys, follow.replaced),
                ..old(self)@
            }),
    {
        if let Some(old_mapping) = follow.replaced {
            self.state.mem.note_mapping(old_mapping.phys, false);
            self.state.mem.reclaim(old_mapping.phys);
        }
        self.state.mem.note_mapping(follow.inserted_phys, true);
    }

    /// May processor `c` hold translations of `asid`?
    fn holds_space(&self, asid: Asid, c: u8) -> (r: bool)
        ensures
            r == self@.cpu_holds_space(asid, c as int),
    {
        if c as usize >= self.state.sched.cpus.len() {
            return false;
        }
        let slot = self.state.sched.cpus[c as usize];
        if !slot.online || slot.wake_only {
            return false;
        }
        match slot.current {
            None => false,
            Some(tid) => self.task_asid_for_tid_split_read(tid) == asid.0 as u64,
        }
    }

    /// One bit for each processor that may hold translations of `asid`.
    pub fn live_cpu_bitmap_for_asid_split(&self, asid: Asid) -> (r: u64)
        ensures
            r == self@.live_bitmap(asid, MAX_CPUS as int),
    {
        let mut bitmap: u64 = 0;
        let mut c: u8 = 0;
        while c < MAX_CPUS as u8
            invariant
                c <= MAX_CPUS,
                bitmap == self@.live_bitmap(asid, c as int),
            decreases MAX_CPUS - c,
        {
            if self.holds_space(asid, c) {
                bitmap = bitmap | (1u64 << (c as u64));
            }
            c += 1;
        }
        bitmap
    }

    /// What to ask of other processors when the page at `virt` of `asid` was unmapped; nothing
    /// when none of them may hold it.
    pub fn shootdown_request_split(&self, asid: Asid, virt: VirtAddr) -> (r: Option<
        ShootdownRequest,
    >)
        ensures
            r == self@.shootdown_request(asid, virt),
    {
        let requester = self.state.sched.current_cpu;
        let mut targets: u64 = 0;
        let mut want: usize = 0;
        let mut c: u8 = 0;
        while c < MAX_CPUS as u8
            invariant
                c <= MAX_CPUS,
                requester == self@.sched.current_cpu,
                want <= c,
                want == self@.remote_holders(asid, c as int),
                targets == self@.remote_bitmap(asid, c as int),
            decreases MAX_CPUS - c,
        {
            if c != requester.0 && self.holds_space(asid, c) {
                targets = targets | (1u64 << (c as u64));
                want += 1;
            }
            c += 1;
        }
        if want == 0 {
            return None;
        }
        Some(ShootdownRequest { targets, want, virt })
    }

    /// Whether a page that was just unmapped is out of every translation buffer: no other
    /// processor may hold it, or all that may have answered.  `acknowledged` is how many did; on
    /// a machine without a coordinator none does.
    pub fn complete_unmap_shootdown_split(&self, asid: Asid, virt: VirtAddr, acknowledged: usize) -> (r:
        bool)
        ensures
            r == self@.shootdown_done(asid, acknowledged),
    {
        proof {
            lemma_holders_bound(self@, asid, MAX_CPUS as int);
        }
        match self.shootdown_request_split(asid, virt) {
            None => true,
            Some(request) => acknowledged == request.want,
        }
    }

    /// First half of unmapping a page: takes the mapping at `virt` out, and returns it.
    pub fn unmap_page_begin_split(&mut self, asid: Asid, virt: VirtAddr) -> (r: Option<Mapping>)
        ensures
            r == match old(self)@.vm.map_verdict(asid, virt) {
                Ok(found) => found,
                Err(_) => None,
            },
            final(self)@ == match r {
                Some(mapping) => Kernel {
                    vm: old(self)@.vm.unmapped(asid, virt),
                    mem: old(self)@.mem.mapping_noted(mapping.phys, false),
                    ..old(self)@
                },
                None => old(self)@,
            },
    {
        let removed = match self.state.vm.unmap_page(asid, virt) {
            Ok(removed) => removed,
            Err(_) => None,
        };
        if let Some(mapping) = removed {
            self.state.mem.note_mapping(mapping.phys, false);
        }
        removed
    }

    /// Second half of unmapping a page: frees the frame of the mapping that was taken out, unless
    /// another processor may still translate to it.  Returns whether the frame could be let go.
    pub fn unmap_page_finish_split(
        &mut self,
        asid: Asid,
        virt: VirtAddr,
        removed: Mapping,
        acknowledged: usize,
    ) -> (r: bool)
        ensures
            r == old(self)@.shootdown_done(asid, acknowledged),
            final(self)@ == if r {
                Kernel { mem: old(self)@.mem.reclaimed(removed.phys), ..old(self)@ }
            } else {
                old(self)@
            },
    {
        if !self.complete_unmap_shootdown_split(asid, virt, acknowledged) {
            return false;
        }
        self.state.mem.reclaim(removed.phys);
        true
    }

    /// Unmaps the `len` bytes at `base`, page by page.  `acks` says of each page how many
    /// processors answered the request for it.  Returns whether every frame could be let go; one
    /// that another processor may still translate to is kept.
    pub fn unmap_range_two_phase_split(
        &mut self,
        asid: Asid,
        base: usize,
        len: usize,
        acks: &[usize],
    ) -> (r: bool)
        ensures
            (final(self)@, r) == old(self)@.range_unmapped(
                asid,
                base as int,
                old(self)@.range_end(base, len),
                true,
                acks@,
                0,
            ),
    {
        let end: usize = match base.checked_add(len) {
            Some(end) => end,
            None => usize::MAX,
        };
        let mut all_acked = true;
        let mut va: usize = base;
        let mut i: usize = 0;
        while va < end
            invariant
                end == old(self)@.range_end(base, len),
                i <= va,
                old(self)@.range_unmapped(asid, base as int, end as int, true, acks@, 0)
                    == self@.range_unmapped(asid, va as int, end as int, all_acked, acks@, i as int),
            decreases (if end > va {
                end - va
            } else {
                0
            }),
        {
            let ghost before = self@;
            let ghost acked = all_acked;
            let virt = VirtAddr(va as u64);
            let answer: usize = if i < acks.len() {
                acks[i]
            } else {
                0
            };
            if let Some(mapping) = self.unmap_page_begin_split(asid, virt) {
                proof {
                    lemma_holders_kept(before, self@, asid, MAX_CPUS as int);
                }
                if !self.unmap_page_finish_split(asid, virt, mapping, answer) {
                    all_acked = false;
                }
            }
            assert(self@ == before.page_unmapped(asid, va as int, answer));
            assert(all_acked == (acked && !before.page_unacknowledged(asid, va as int, answer)));
            if va > usize::MAX - PAGE_SIZE {
                assert(self@.range_unmapped(
                    asid,
                    va + 4096,
                    end as int,
                    all_acked,
                    acks@,
                    i + 1,
                ) == (self@, all_acked));
                return all_acked;
            }
            va += PAGE_SIZE;
            i += 1;
        }
        all_acked
    }
}

} // verus!
