//! What lowering a program break comes to, said of the recorded break and of the pages.
use vstd::prelude::*;

use crate::ids::{Asid, CpuId, TrapHandleError, KERNEL_SPACE_BASE};
use crate::kernel::Kernel;
use crate::memory::BrkBounds;
use crate::seqs;

verus! {

/// Task `i` is current on `cpu`, in address space `asid`, and record `j` is its break.
pub open spec fn asks_for_break(k: Kernel, cpu: CpuId, i: int, j: int, asid: Asid) -> bool {
    &&& k.tasks.apart()
    &&& k.vm.apart()
    &&& k.vm.spaces.contains(asid)
    &&& (cpu.0 as int) < k.sched.cpus.len()
    &&& k.sched.cpus[cpu.0 as int].online
    &&& 0 <= i < k.tasks.tcbs.len()
    &&& k.tasks.tcbs[i] is Some
    &&& k.tasks.tcbs[i]->0.asid == Some(asid)
    &&& k.sched.cpus[cpu.0 as int].current == Some(k.tasks.tcbs[i]->0.tid.0)
    &&& 0 <= j < k.mem.brk.len()
    &&& k.mem.brk[j].tid == k.tasks.tcbs[i]->0.tid.0
    &&& forall|m: int| 0 <= m < j ==> (#[trigger] k.mem.brk[m]).tid != k.mem.brk[j].tid
}

/// Is there a page that starts at `low` or behind it, and below `high`?
pub open spec fn page_between(low: u64, high: u64) -> bool {
    exists|page: int| low <= page < high && #[trigger] (page % 4096) == 0
}

proof fn lemma_asks(k: Kernel, cpu: CpuId, i: int, j: int, asid: Asid)
    requires
        asks_for_break(k, cpu, i, j, asid),
    ensures
        k.sched.online(cpu),
        k.sched.current_on(cpu) == Some(k.mem.brk[j].tid),
        k.tasks.find(k.mem.brk[j].tid) == k.tasks.tcbs[i],
        k.mem.brk_of(k.mem.brk[j].tid) == Some((k.mem.brk[j].base, k.mem.brk[j].end)),
        seqs::first_where(k.mem.brk, crate::memory::brk_of_task(k.mem.brk[j].tid)) == j,
        k.vm.has_space(asid),
        seqs::count_where(k.sched.cpus, crate::scheduler::is_online()) > 1 <==> exists|d: int|
            0 <= d < k.sched.cpus.len() && d != cpu.0 && (#[trigger] k.sched.cpus[d]).online,
{
    crate::laws::slots::law_task_is_found_where_it_stands(k.tasks, i);
    seqs::lemma_first_where_is(k.mem.brk, crate::memory::brk_of_task(k.mem.brk[j].tid), j);
    crate::laws::slots::lemma_one_online(k.sched.cpus, cpu.0 as int);
    let s = choose|s: int| 0 <= s < k.vm.spaces.len() && k.vm.spaces[s] == asid;
    assert(crate::vm::is_space(asid)(k.vm.spaces[s]));
    seqs::lemma_first_where(k.vm.spaces, crate::vm::is_space(asid));
}

/// Rounding up finds the first page at or behind an address.
proof fn lemma_ceiling(low: u64, high: u64)
    requires
        low + 4095 <= u64::MAX,
        high + 4095 <= u64::MAX,
    ensures
        ({
            let a = crate::runtime::brk::page_ceiling(low)->0 as int;
            let b = crate::runtime::brk::page_ceiling(high)->0 as int;
            &&& crate::runtime::brk::page_ceiling(low) is Some
            &&& crate::runtime::brk::page_ceiling(high) is Some
            &&& a % 4096 == 0 && low <= a < low + 4096
            &&& b % 4096 == 0 && high <= b < high + 4096
            &&& a < b <==> page_between(low, high)
            &&& forall|page: int|
                #[trigger] (page % 4096) == 0 ==> ((a <= page < b) <==> (low <= page < high))
        }),
{
    let a = (low + 4095) / 4096 * 4096;
    let b = (high + 4095) / 4096 * 4096;
    assert(a % 4096 == 0 && low <= a < low + 4096 && a <= u64::MAX) by (nonlinear_arith)
        requires
            a == (low + 4095) / 4096 * 4096,
            low + 4095 <= u64::MAX,
    ;
    assert(b % 4096 == 0 && high <= b < high + 4096 && b <= u64::MAX) by (nonlinear_arith)
        requires
            b == (high + 4095) / 4096 * 4096,
            high + 4095 <= u64::MAX,
    ;
    assert forall|page: int| #[trigger] (page % 4096) == 0 implies ((a <= page < b) <==> (low
        <= page < high)) by {
        if page < a && low <= page {
            assert((a - page) % 4096 == 0);
        }
        if page < b && high <= page {
            assert((b - page) % 4096 == 0);
        }
    }
    if a < b {
        assert(a % 4096 == 0);
        assert(low <= a < high);
    }
    if page_between(low, high) {
        let page = choose|page: int| low <= page < high && #[trigger] (page % 4096) == 0;
        assert(page % 4096 == 0);
        assert(a <= page < b);
    }
}

proof fn lemma_dropped_count(k: Kernel, asid: Asid, va: int, end: int, n: nat)
    requires
        k.vm.has_space(asid),
        0 <= va,
        va % 4096 == 0,
        end <= u64::MAX,
    ensures
        k.pages_dropped(asid, va, end, n).pages is Ok,
        k.pages_dropped(asid, va, end, n).pages->Ok_0 - n == k.vm.pages.len() - k.pages_dropped(
            asid,
            va,
            end,
            n,
        ).kernel.vm.pages.len(),
    decreases (if end > va {
            end - va
        } else {
            0
        }),
{
    if va < end {
        let here = crate::ids::VirtAddr(va as u64);
        seqs::lemma_first_where(k.vm.pages, crate::vm::maps_page(asid, here.0));
        match k.vm.map_verdict(asid, here) {
            Ok(Some(mapping)) => {
                let next = Kernel {
                    vm: k.vm.unmapped(asid, here),
                    mem: k.mem.page_dropped(asid, here, mapping.phys),
                    ..k
                };
                assert(next.vm.pages.len() == k.vm.pages.len() - 1);
                lemma_dropped_count(next, asid, va + 4096, end, n + 1);
            },
            _ => {
                lemma_dropped_count(k, asid, va + 4096, end, n);
            },
        }
    }
}

/// Lowering a break: a thread-group leader on the only online processor, whose break runs from
/// its base to its end, asks for a lower end with a page in between.  The request is served.  No
/// page that starts at the new end or behind it, and below the old end, is mapped any more; every
/// other page of every address space is as it was.  The record has the new end and no other record
/// changes.  One call is counted, and as many pages as are gone.
pub proof fn law_break_is_lowered(
    k: Kernel,
    cpu: CpuId,
    i: int,
    j: int,
    asid: Asid,
    requested: u64,
    other: Asid,
    page: u64,
)
    requires
        asks_for_break(k, cpu, i, j, asid),
        forall|d: int|
            0 <= d < k.sched.cpus.len() && (#[trigger] k.sched.cpus[d]).online ==> d == cpu.0,
        k.tasks.tcbs[i]->0.thread_group_id == k.tasks.tcbs[i]->0.tid,
        0 < requested < KERNEL_SPACE_BASE,
        k.mem.brk[j].base <= requested < k.mem.brk[j].end,
        k.mem.brk[j].end + 4095 <= u64::MAX,
        page_between(requested, k.mem.brk[j].end),
        page % 4096 == 0,
    ensures
        k.brk_result(cpu, requested) == Some(Ok::<(), TrapHandleError>(())),
        k.after_brk(cpu, requested).vm.resolve(other, page) == (if other == asid && requested
            <= page < k.mem.brk[j].end {
            None
        } else {
            k.vm.resolve(other, page)
        }),
        k.after_brk(cpu, requested).mem.brk == k.mem.brk.update(
            j,
            BrkBounds { tid: k.mem.brk[j].tid, base: k.mem.brk[j].base, end: requested },
        ),
        k.after_brk(cpu, requested).tasks == k.tasks,
        k.after_brk(cpu, requested).sched == k.sched,
        k.after_brk(cpu, requested).telemetry.d3_vm_brk_shrink_split_live_calls
            == k.telemetry.d3_vm_brk_shrink_split_live_calls.wrapping_add(1),
        k.after_brk(cpu, requested).telemetry.d3_vm_brk_shrink_split_live_pages_unmapped
            == k.telemetry.d3_vm_brk_shrink_split_live_pages_unmapped.wrapping_add(
            (k.vm.pages.len() - k.after_brk(cpu, requested).vm.pages.len()) as u64,
        ),
{
    let tid = k.mem.brk[j].tid;
    let end = k.mem.brk[j].end;
    lemma_asks(k, cpu, i, j, asid);
    lemma_ceiling(requested, end);
    let shrink = k.brk_shrink(cpu, requested)->0;
    assert(k.brk_shrink(cpu, requested) is Some);
    crate::laws::memory::law_lowered_break_frees_its_pages(k, cpu, requested, page, other);
    crate::laws::memory::law_dropped_pages_are_gone(
        k,
        asid,
        shrink.unmap_start as int,
        shrink.unmap_end as int,
        0,
        page,
        other,
    );
    lemma_dropped_count(k, asid, shrink.unmap_start as int, shrink.unmap_end as int, 0);
}

/// A break request is left to the general path, with nothing changed, when a second processor is
/// online, when the task does not lead its group, when the request is no address of a user or does
/// not lower the break, and when no page lies in between.
pub proof fn law_break_is_left_alone(
    k: Kernel,
    cpu: CpuId,
    i: int,
    j: int,
    asid: Asid,
    requested: u64,
)
    requires
        asks_for_break(k, cpu, i, j, asid),
        k.mem.brk[j].end + 4095 <= u64::MAX,
        ({
            ||| exists|d: int|
                0 <= d < k.sched.cpus.len() && d != cpu.0 && (#[trigger] k.sched.cpus[d]).online
            ||| k.tasks.tcbs[i]->0.thread_group_id != k.tasks.tcbs[i]->0.tid
            ||| requested == 0
            ||| requested >= KERNEL_SPACE_BASE
            ||| requested < k.mem.brk[j].base
            ||| requested >= k.mem.brk[j].end
            ||| !page_between(requested, k.mem.brk[j].end)
        }),
    ensures
        k.brk_result(cpu, requested) is None,
        k.after_brk(cpu, requested) == k,
{
    lemma_asks(k, cpu, i, j, asid);
    if requested < k.mem.brk[j].end {
        lemma_ceiling(requested, k.mem.brk[j].end);
    }
}

} // verus!
