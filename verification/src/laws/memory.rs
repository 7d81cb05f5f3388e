//! Laws of memory: what is mapped is found, what is unmapped is gone, and pages are apart.
use vstd::prelude::*;

use crate::ids::{Asid, CpuId, TrapHandleError, VirtAddr, VmError};
use crate::kernel::Kernel;
use crate::seqs;
use crate::vm::{Mapping, Vm};

verus! {

impl Vm {
    /// No page of an address space is mapped twice.
    pub open spec fn apart(self) -> bool {
        forall|i: int, j: int|
            0 <= i < j < self.pages.len() ==> (#[trigger] self.pages[i]).asid != (
            #[trigger] self.pages[j]).asid || self.pages[i].page != self.pages[j].page
    }
}

/// A page that was mapped is found; every other page is as it was, and pages stay apart.
pub proof fn law_mapped_page_is_found(
    vm: Vm,
    asid: Asid,
    va: VirtAddr,
    mapping: Mapping,
    other: Asid,
    page: u64,
)
    requires
        vm.apart(),
        vm.map_verdict(asid, va) is Ok,
        other != asid || page != va.0,
        page % 4096 == 0,
    ensures
        vm.mapped(asid, va, mapping).apart(),
        vm.mapped(asid, va, mapping).resolve(asid, va.0) == Some(mapping),
        vm.mapped(asid, va, mapping).resolve(other, page) == vm.resolve(other, page),
{
    let p = crate::vm::maps_page(asid, va.0);
    let q = crate::vm::maps_page(other, page);
    let after = vm.mapped(asid, va, mapping);
    let n = vm.pages.len() as int;
    let i = vm.entry(asid, va.0);
    let k = vm.entry(other, page);
    seqs::lemma_first_where(vm.pages, p);
    seqs::lemma_first_where(vm.pages, q);
    assert forall|j: int| 0 <= j < i implies !p(#[trigger] after.pages[j]) by {
        assert(after.pages[j] == vm.pages[j]);
    }
    assert(p(after.pages[i]));
    seqs::lemma_first_where_is(after.pages, p, i);
    assert forall|j: int| 0 <= j < k implies !q(#[trigger] after.pages[j]) by {
        if j != i {
            assert(after.pages[j] == vm.pages[j]);
        }
    }
    if k < n {
        assert(k != i);
        assert(after.pages[k] == vm.pages[k]);
        seqs::lemma_first_where_is(after.pages, q, k);
    } else if i < n {
        seqs::lemma_first_where_is(after.pages, q, n);
    } else {
        assert(!q(after.pages[n]));
        seqs::lemma_first_where_is(after.pages, q, n + 1);
    }
    assert forall|a: int, b: int| 0 <= a < b < after.pages.len() implies (
    #[trigger] after.pages[a]).asid != (#[trigger] after.pages[b]).asid || after.pages[a].page
        != after.pages[b].page by {
        if a == i {
            assert(after.pages[b] == vm.pages[b]);
            if i < n {
                assert(vm.pages[i].asid != vm.pages[b].asid || vm.pages[i].page
                    != vm.pages[b].page);
            }
        } else if b == i {
            assert(after.pages[a] == vm.pages[a]);
            assert(!p(vm.pages[a]));
        } else {
            assert(after.pages[a] == vm.pages[a] && after.pages[b] == vm.pages[b]);
        }
    }
}

/// A page that was unmapped is gone; every other page is as it was, and pages stay apart.
pub proof fn law_unmapped_page_is_gone(vm: Vm, asid: Asid, va: VirtAddr, other: Asid, page: u64)
    requires
        vm.apart(),
        vm.map_verdict(asid, va) is Ok,
        other != asid || page != va.0,
        page % 4096 == 0,
    ensures
        vm.unmapped(asid, va).apart(),
        vm.unmapped(asid, va).resolve(asid, va.0) is None,
        vm.unmapped(asid, va).resolve(other, page) == vm.resolve(other, page),
        vm.unmapped(asid, va).spaces == vm.spaces,
{
    let p = crate::vm::maps_page(asid, va.0);
    let q = crate::vm::maps_page(other, page);
    let after = vm.unmapped(asid, va);
    let n = vm.pages.len() as int;
    let i = vm.entry(asid, va.0);
    let k = vm.entry(other, page);
    seqs::lemma_first_where(vm.pages, p);
    seqs::lemma_first_where(vm.pages, q);
    if i < n {
        assert forall|j: int| 0 <= j < after.pages.len() implies !p(#[trigger] after.pages[j]) by {
            if j < i {
                assert(after.pages[j] == vm.pages[j]);
            } else {
                assert(after.pages[j] == vm.pages[j + 1]);
                assert(p(vm.pages[i]));
            }
        }
        seqs::lemma_first_where_is(after.pages, p, after.pages.len() as int);
        assert(k != i);
        let k1 = if k < i {
            k
        } else {
            k - 1
        };
        assert forall|j: int| 0 <= j < k1 implies !q(#[trigger] after.pages[j]) by {
            if j < i {
                assert(after.pages[j] == vm.pages[j]);
            } else {
                assert(after.pages[j] == vm.pages[j + 1]);
            }
        }
        if k < n {
            if k < i {
                assert(after.pages[k1] == vm.pages[k]);
            } else {
                assert(after.pages[k1] == vm.pages[k1 + 1]);
            }
        }
        seqs::lemma_first_where_is(after.pages, q, k1);
        assert forall|a: int, b: int| 0 <= a < b < after.pages.len() implies (
        #[trigger] after.pages[a]).asid != (#[trigger] after.pages[b]).asid || after.pages[a].page
            != after.pages[b].page by {
            let a0 = if a < i {
                a
            } else {
                a + 1
            };
            let b0 = if b < i {
                b
            } else {
                b + 1
            };
            assert(after.pages[a] == vm.pages[a0] && after.pages[b] == vm.pages[b0]);
        }
    }
}

/// Is `page` one of the pages that a walk from `va` to `end` visits?
pub open spec fn walked(va: int, end: int, page: u64) -> bool {
    va <= page < end && (page - va) % 4096 == 0
}

/// Unmapping a range of pages leaves none of them mapped, and every other page as it was.
pub proof fn law_unmapped_range_is_gone(
    k: Kernel,
    asid: Asid,
    va: int,
    end: int,
    acked: bool,
    acks: Seq<usize>,
    i: int,
    page: u64,
    other: Asid,
)
    requires
        k.vm.apart(),
        k.vm.has_space(asid),
        0 <= va,
        va % 4096 == 0,
        page % 4096 == 0,
        end <= u64::MAX,
    ensures
        k.range_unmapped(asid, va, end, acked, acks, i).0.vm.apart(),
        k.range_unmapped(asid, va, end, acked, acks, i).0.vm.resolve(other, page) == if other == asid
            && walked(va, end, page) {
            None
        } else {
            k.vm.resolve(other, page)
        },
        k.range_unmapped(asid, va, end, acked, acks, i).0 == (Kernel {
            vm: k.range_unmapped(asid, va, end, acked, acks, i).0.vm,
            mem: k.range_unmapped(asid, va, end, acked, acks, i).0.mem,
            ..k
        }),
    decreases (if end > va {
            end - va
        } else {
            0
        }),
{
    if va < end {
        let here = VirtAddr(va as u64);
        let answer = crate::runtime::paging::acknowledged_at(acks, i);
        let next = k.page_unmapped(asid, va, answer);
        if other != asid || page != here.0 {
            law_unmapped_page_is_gone(k.vm, asid, here, other, page);
        } else {
            let away = Asid(if asid.0 == 0 {
                1
            } else {
                0
            });
            law_unmapped_page_is_gone(k.vm, asid, here, away, page);
        }
        seqs::lemma_first_where(k.vm.pages, crate::vm::maps_page(asid, here.0));
        assert(next.vm == k.vm.unmapped(asid, here));
        law_unmapped_range_is_gone(
            next,
            asid,
            va + 4096,
            end,
            acked && !k.page_unacknowledged(asid, va, answer),
            acks,
            i + 1,
            page,
            other,
        );
        if va < page < va + 4096 {
            assert((page - va) % 4096 != 0);
        }
    }
}

/// The frame of a page that was unmapped is freed only behind an answered shootdown: as long as a
/// processor that may translate to it has not answered, every memory object is still there.  Once
/// all have answered, or where none may, the frame is let go.
pub proof fn law_frame_waits_for_answers(
    k: Kernel,
    asid: Asid,
    va: int,
    acknowledged: usize,
    mapping: Mapping,
)
    requires
        k.vm.map_verdict(asid, VirtAddr(va as u64)) == Ok::<Option<Mapping>, VmError>(
            Some(mapping),
        ),
    ensures
        k.page_unacknowledged(asid, va, acknowledged) ==> forall|i: int|
            0 <= i < k.mem.objects.len() ==> ((#[trigger] k.page_unmapped(
                asid,
                va,
                acknowledged,
            ).mem.objects[i]) is Some <==> k.mem.objects[i] is Some),
        !k.page_unacknowledged(asid, va, acknowledged) ==> k.page_unmapped(
            asid,
            va,
            acknowledged,
        ).mem == k.mem.mapping_noted(mapping.phys, false).reclaimed(mapping.phys),
        k.shootdown_request(asid, VirtAddr(va as u64)) is None ==> !k.page_unacknowledged(
            asid,
            va,
            acknowledged,
        ),
        k.shootdown_request(asid, VirtAddr(va as u64)) matches Some(request) && acknowledged
            == request.want ==> !k.page_unacknowledged(asid, va, acknowledged),
{
    crate::runtime::paging::lemma_holders_bound(k, asid, crate::ids::MAX_CPUS as int);
    seqs::lemma_first_where(k.mem.objects, crate::memory::covers(mapping.phys));
}

/// Dropping pages for good leaves none of them mapped, and every other page as it was.
pub proof fn law_dropped_pages_are_gone(
    k: Kernel,
    asid: Asid,
    va: int,
    end: int,
    n: nat,
    page: u64,
    other: Asid,
)
    requires
        k.vm.apart(),
        k.vm.has_space(asid),
        0 <= va,
        va % 4096 == 0,
        page % 4096 == 0,
        end <= u64::MAX,
    ensures
        k.pages_dropped(asid, va, end, n).pages is Ok,
        k.pages_dropped(asid, va, end, n).kernel.vm.apart(),
        k.pages_dropped(asid, va, end, n).kernel.vm.resolve(other, page) == if other == asid
            && walked(va, end, page) {
            None
        } else {
            k.vm.resolve(other, page)
        },
        k.pages_dropped(asid, va, end, n).kernel == (Kernel {
            vm: k.pages_dropped(asid, va, end, n).kernel.vm,
            mem: k.pages_dropped(asid, va, end, n).kernel.mem,
            ..k
        }),
        k.pages_dropped(asid, va, end, n).kernel.mem.brk == k.mem.brk,
    decreases (if end > va {
            end - va
        } else {
            0
        }),
{
    if va < end {
        let here = VirtAddr(va as u64);
        if other != asid || page != here.0 {
            law_unmapped_page_is_gone(k.vm, asid, here, other, page);
        } else {
            let away = Asid(if asid.0 == 0 {
                1
            } else {
                0
            });
            law_unmapped_page_is_gone(k.vm, asid, here, away, page);
        }
        seqs::lemma_first_where(k.vm.pages, crate::vm::maps_page(asid, here.0));
        match k.vm.map_verdict(asid, here) {
            Ok(Some(mapping)) => {
                let next = Kernel {
                    vm: k.vm.unmapped(asid, here),
                    mem: k.mem.page_dropped(asid, here, mapping.phys),
                    ..k
                };
                law_dropped_pages_are_gone(next, asid, va + 4096, end, n + 1, page, other);
            },
            _ => {
                assert(k.vm.unmapped(asid, here) == k.vm);
                law_dropped_pages_are_gone(k, asid, va + 4096, end, n, page, other);
            },
        }
        if va < page < va + 4096 {
            assert((page - va) % 4096 != 0);
        }
    }
}

/// A break that was lowered is where it was asked to be, and no page from there up to the old
/// end is mapped any more; every other page is as it was.
pub proof fn law_lowered_break_frees_its_pages(
    k: Kernel,
    cpu: CpuId,
    requested: u64,
    page: u64,
    other: Asid,
)
    requires
        k.vm.apart(),
        page % 4096 == 0,
        k.brk_shrink(cpu, requested) matches Some(shrink) && k.tasks.asid_of(
            shrink.tid,
        ) matches Some(asid) && k.vm.has_space(asid),
    ensures
        k.brk_result(cpu, requested) == Some(Ok::<(), TrapHandleError>(())),
        ({
            let shrink = k.brk_shrink(cpu, requested)->0;
            let asid = k.tasks.asid_of(shrink.tid)->0;
            let after = k.after_brk(cpu, requested);
            &&& after.mem.brk_of(shrink.tid) == Some((shrink.base, requested))
            &&& after.vm.apart()
            &&& after.vm.resolve(other, page) == if other == asid && shrink.unmap_start <= page
                < shrink.unmap_end {
                None
            } else {
                k.vm.resolve(other, page)
            }
        }),
{
    let shrink = k.brk_shrink(cpu, requested)->0;
    let asid = k.tasks.asid_of(shrink.tid)->0;
    let end = k.brk_unmapped(shrink);
    law_dropped_pages_are_gone(
        k,
        asid,
        shrink.unmap_start as int,
        shrink.unmap_end as int,
        0,
        page,
        other,
    );
    let p = crate::memory::brk_of_task(shrink.tid);
    let i = seqs::first_where(k.mem.brk, p);
    seqs::lemma_first_where(k.mem.brk, p);
    let after = k.after_brk(cpu, requested);
    assert(end.kernel.mem.brk == k.mem.brk);
    assert(i < k.mem.brk.len());
    assert forall|j: int| 0 <= j < i implies !p(#[trigger] after.mem.brk[j]) by {
        assert(after.mem.brk[j] == k.mem.brk[j]);
    }
    seqs::lemma_first_where_is(after.mem.brk, p, i);
}

} // verus!
