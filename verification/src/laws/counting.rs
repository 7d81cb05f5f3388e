//! Who refers to memory, and which processors may still translate to it.
use vstd::prelude::*;

use crate::capability::CapObject;
use crate::ids::{Asid, PhysAddr, VirtAddr};
use crate::kernel::Kernel;
use crate::memory::{BrkBounds, CowPage, Mem, MemoryObject};
use crate::seqs;
use crate::vm::Mapping;

verus! {

/// Does `object` lie around `phys`?
pub open spec fn lies_around(object: Option<MemoryObject>, phys: PhysAddr) -> bool {
    object matches Some(o) && o.phys.0 <= phys.0 < o.phys.0 + o.len
}

/// Is slot `i` the first whose object lies around `phys`?
pub open spec fn is_memory_at(mem: Mem, phys: PhysAddr, i: int) -> bool {
    &&& 0 <= i < mem.objects.len()
    &&& lies_around(mem.objects[i], phys)
    &&& forall|j: int| 0 <= j < i ==> !lies_around(#[trigger] mem.objects[j], phys)
}

/// Is slot `i` the first that holds the object with number `id`?
pub open spec fn is_object(mem: Mem, id: u64, i: int) -> bool {
    &&& 0 <= i < mem.objects.len()
    &&& mem.objects[i] matches Some(o) && o.id == id
    &&& forall|j: int|
        0 <= j < i && (#[trigger] mem.objects[j]) is Some ==> mem.objects[j]->0.id != id
}

/// One more than `n`, or one less, and no further than a counter goes.
pub open spec fn one_off(n: u64, up: bool) -> int {
    if up && n < u64::MAX {
        n + 1
    } else if !up && n > 0 {
        n - 1
    } else {
        n as int
    }
}

proof fn lemma_at(mem: Mem, phys: PhysAddr, i: int)
    requires
        is_memory_at(mem, phys, i),
    ensures
        seqs::first_where(mem.objects, crate::memory::covers(phys)) == i,
{
    let p = crate::memory::covers(phys);
    assert forall|j: int| 0 <= j < i implies !(p(#[trigger] mem.objects[j])) by {
        assert(!lies_around(mem.objects[j], phys));
    }
    seqs::lemma_first_where_is(mem.objects, p, i);
}

proof fn lemma_object(mem: Mem, id: u64, i: int)
    requires
        is_object(mem, id, i),
    ensures
        seqs::first_where(mem.objects, crate::memory::has_id(id)) == i,
{
    seqs::lemma_first_where_is(mem.objects, crate::memory::has_id(id), i);
}

/// A mapping that comes or goes moves the mapping count of the memory it lies in by one, and
/// nothing else: a mapping of memory that is nobody's moves nothing.
pub proof fn law_mapping_is_counted(mem: Mem, phys: PhysAddr, up: bool, i: int)
    ensures
        is_memory_at(mem, phys, i) ==> mem.mapping_noted(phys, up) == (Mem {
            objects: mem.objects.update(
                i,
                Some(
                    MemoryObject {
                        map_refcount: one_off(mem.objects[i]->0.map_refcount, up) as u64,
                        ..mem.objects[i]->0
                    },
                ),
            ),
            ..mem
        }),
        (forall|j: int|
            0 <= j < mem.objects.len() ==> !lies_around(#[trigger] mem.objects[j], phys))
            ==> mem.mapping_noted(phys, up) == mem,
{
    if is_memory_at(mem, phys, i) {
        lemma_at(mem, phys, i);
    }
    let p = crate::memory::covers(phys);
    seqs::lemma_first_where(mem.objects, p);
    let f = seqs::first_where(mem.objects, p);
    if f < mem.objects.len() {
        assert(lies_around(mem.objects[f], phys));
    }
}

/// A capability that comes or goes moves the capability count of its object by one, and a pin
/// the pin count; nothing else moves.
pub proof fn law_reference_is_counted(mem: Mem, id: u64, up: bool, i: int)
    ensures
        is_object(mem, id, i) ==> {
            &&& mem.cap_noted(id, up) == (Mem {
                objects: mem.objects.update(
                    i,
                    Some(
                        MemoryObject {
                            cap_refcount: one_off(mem.objects[i]->0.cap_refcount, up) as u64,
                            ..mem.objects[i]->0
                        },
                    ),
                ),
                ..mem
            })
            &&& mem.pin_noted(id, up) == (Mem {
                objects: mem.objects.update(
                    i,
                    Some(
                        MemoryObject {
                            pin_refcount: one_off(mem.objects[i]->0.pin_refcount, up) as u64,
                            ..mem.objects[i]->0
                        },
                    ),
                ),
                ..mem
            })
        },
        (forall|j: int|
            0 <= j < mem.objects.len() && (#[trigger] mem.objects[j]) is Some
                ==> mem.objects[j]->0.id != id) ==> mem.cap_noted(id, up) == mem && mem.pin_noted(
            id,
            up,
        ) == mem,
{
    if is_object(mem, id, i) {
        lemma_object(mem, id, i);
    }
    let p = crate::memory::has_id(id);
    seqs::lemma_first_where(mem.objects, p);
    let f = seqs::first_where(mem.objects, p);
    if f < mem.objects.len() {
        assert(mem.objects[f] is Some && mem.objects[f]->0.id == id);
    }
}

/// Memory is freed exactly when nothing refers to it: no capability, no mapping and no pin.
pub proof fn law_memory_is_freed_when_unused(mem: Mem, phys: PhysAddr, i: int)
    requires
        is_memory_at(mem, phys, i),
    ensures
        ({
            let object = mem.objects[i]->0;
            mem.reclaimed(phys) == if object.cap_refcount + object.map_refcount
                + object.pin_refcount == 0 {
                Mem { objects: mem.objects.update(i, None), ..mem }
            } else {
                mem
            }
        }),
{
    lemma_at(mem, phys, i);
}

/// A page that is dropped for good is copy-on-write no more, no longer counts as a mapping, and
/// takes its memory with it exactly when it was the last that referred to it.
pub proof fn law_dropped_page_lets_go(
    mem: Mem,
    asid: Asid,
    va: VirtAddr,
    phys: PhysAddr,
    i: int,
    c: int,
)
    requires
        is_memory_at(mem, phys, i),
        0 <= c < mem.cow.len(),
        mem.cow[c] == (CowPage { asid, va }),
        forall|d: int| 0 <= d < c ==> #[trigger] mem.cow[d] != (CowPage { asid, va }),
    ensures
        ({
            let object = mem.objects[i]->0;
            let after = mem.page_dropped(asid, va, phys);
            &&& after.cow == mem.cow.remove(c)
            &&& after.brk == mem.brk
            &&& after.bytes == mem.bytes
            &&& after.objects == mem.objects.update(
                i,
                if object.cap_refcount == 0 && object.map_refcount <= 1 && object.pin_refcount
                    == 0 {
                    None
                } else {
                    Some(
                        MemoryObject {
                            map_refcount: one_off(object.map_refcount, false) as u64,
                            ..object
                        },
                    )
                },
            )
        }),
{
    seqs::lemma_first_where_is(mem.cow, crate::memory::is_cow(asid, va), c);
    let plain = mem.cow_cleared(asid, va);
    lemma_at(plain, phys, i);
    let noted = plain.mapping_noted(phys, false);
    assert(is_memory_at(noted, phys, i)) by {
        assert forall|j: int| 0 <= j < i implies !lies_around(
            #[trigger] noted.objects[j],
            phys,
        ) by {
            assert(noted.objects[j] == mem.objects[j]);
        }
    }
    lemma_at(noted, phys, i);
}

/// A page that is mapped over another lets the other's memory go, and counts for its own.
pub proof fn law_page_takes_another_s_place(
    mem: Mem,
    inserted: PhysAddr,
    replaced: Option<Mapping>,
    i: int,
    r: int,
)
    requires
        is_memory_at(mem, inserted, i),
        replaced matches Some(old) ==> is_memory_at(mem, old.phys, r) && r != i,
    ensures
        ({
            let taken = mem.objects[i]->0;
            let after = mem.page_mapped(inserted, replaced);
            &&& after.cow == mem.cow && after.brk == mem.brk && after.bytes == mem.bytes
            &&& after.objects[i] == Some(
                MemoryObject { map_refcount: one_off(taken.map_refcount, true) as u64, ..taken },
            )
            &&& replaced is Some ==> after.objects[r] == (if mem.objects[r]->0.cap_refcount == 0
                && mem.objects[r]->0.map_refcount <= 1 && mem.objects[r]->0.pin_refcount == 0 {
                None
            } else {
                Some(
                    MemoryObject {
                        map_refcount: one_off(mem.objects[r]->0.map_refcount, false) as u64,
                        ..mem.objects[r]->0
                    },
                )
            })
            &&& forall|j: int|
                0 <= j < mem.objects.len() && j != i && (replaced is None || j != r)
                    ==> #[trigger] after.objects[j] == mem.objects[j]
        }),
{
    lemma_at(mem, inserted, i);
    if let Some(old) = replaced {
        lemma_at(mem, old.phys, r);
        let noted = mem.mapping_noted(old.phys, false);
        assert(is_memory_at(noted, old.phys, r)) by {
            assert forall|j: int| 0 <= j < r implies !lies_around(
                #[trigger] noted.objects[j],
                old.phys,
            ) by {
                assert(noted.objects[j] == mem.objects[j]);
            }
        }
        lemma_at(noted, old.phys, r);
        let before = noted.reclaimed(old.phys);
        assert(is_memory_at(before, inserted, i)) by {
            assert forall|j: int| 0 <= j < i implies !lies_around(
                #[trigger] before.objects[j],
                inserted,
            ) by {
                assert(!lies_around(mem.objects[j], inserted));
                if j != r {
                    assert(before.objects[j] == mem.objects[j]);
                }
            }
        }
        lemma_at(before, inserted, i);
    }
}

/// A break is recorded once for each task: where there is a record it is replaced, and else one
/// is added, as long as there is room.
pub proof fn law_break_is_recorded(mem: Mem, tid: u64, base: u64, end: u64, i: int)
    ensures
        0 <= i < mem.brk.len() && mem.brk[i].tid == tid && (forall|j: int|
            0 <= j < i ==> (#[trigger] mem.brk[j]).tid != tid) ==> mem.brk_set(tid, base, end)
            == (Mem { brk: mem.brk.update(i, BrkBounds { tid, base, end }), ..mem })
            && mem.brk_fits(tid) && mem.brk_of(tid) == Some((mem.brk[i].base, mem.brk[i].end)),
        (forall|j: int| 0 <= j < mem.brk.len() ==> (#[trigger] mem.brk[j]).tid != tid) ==> {
            &&& mem.brk_of(tid) is None
            &&& mem.brk_fits(tid) == (mem.brk.len() < 512)
            &&& mem.brk_set(tid, base, end) == if mem.brk.len() < 512 {
                Mem { brk: mem.brk.push(BrkBounds { tid, base, end }), ..mem }
            } else {
                mem
            }
        },
{
    let p = crate::memory::brk_of_task(tid);
    if 0 <= i < mem.brk.len() && mem.brk[i].tid == tid && (forall|j: int|
        0 <= j < i ==> (#[trigger] mem.brk[j]).tid != tid) {
        seqs::lemma_first_where_is(mem.brk, p, i);
    }
    if forall|j: int| 0 <= j < mem.brk.len() ==> (#[trigger] mem.brk[j]).tid != tid {
        seqs::lemma_first_where_is(mem.brk, p, mem.brk.len() as int);
    }
}

/// May processor `c` hold translations of `asid`: does it dispatch, and is a task of that address
/// space current on it?  A current task without an address space counts for number zero.
pub open spec fn may_translate(k: Kernel, asid: Asid, c: int) -> bool {
    &&& 0 <= c < k.sched.cpus.len()
    &&& k.sched.cpus[c].online
    &&& !k.sched.cpus[c].wake_only
    &&& k.sched.cpus[c].current is Some
    &&& match k.tasks.find(k.sched.cpus[c].current->0) {
        Some(tcb) => match tcb.asid {
            Some(own) => own.0 == asid.0,
            None => asid.0 == 0,
        },
        None => asid.0 == 0,
    }
}

proof fn lemma_bits(k: Kernel, asid: Asid, n: int, c: u64)
    requires
        0 <= n <= 64,
        c < 64,
    ensures
        (k.remote_bitmap(asid, n) >> c) & 1 == (if c < n && c != k.sched.current_cpu.0
            && may_translate(k, asid, c as int) {
            1u64
        } else {
            0u64
        }),
        (k.live_bitmap(asid, n) >> c) & 1 == (if c < n && may_translate(k, asid, c as int) {
            1u64
        } else {
            0u64
        }),
    decreases n,
{
    if n <= 0 {
        assert((0u64 >> c) & 1 == 0) by (bit_vector);
    } else {
        lemma_bits(k, asid, n - 1, c);
        let m = (n - 1) as u64;
        let a = k.remote_bitmap(asid, n - 1);
        let b = k.live_bitmap(asid, n - 1);
        assert(((a | (1u64 << m)) >> c) & 1 == (if c == m {
            1u64
        } else {
            (a >> c) & 1
        })) by (bit_vector)
            requires
                m < 64,
                c < 64,
        ;
        assert(((b | (1u64 << m)) >> c) & 1 == (if c == m {
            1u64
        } else {
            (b >> c) & 1
        })) by (bit_vector)
            requires
                m < 64,
                c < 64,
        ;
        assert(k.cpu_holds_space(asid, n - 1) == may_translate(k, asid, n - 1));
    }
}

/// Processors among the first `n`, the current one left out, that may hold translations.
pub open spec fn others_translating(k: Kernel, asid: Asid, n: nat) -> Set<int> {
    Set::new(|c: int| 0 <= c < n && c != k.sched.current_cpu.0 && may_translate(k, asid, c))
}

proof fn lemma_holders_counted(k: Kernel, asid: Asid, n: nat)
    ensures
        others_translating(k, asid, n).finite(),
        others_translating(k, asid, n).len() == k.remote_holders(asid, n as int),
    decreases n,
{
    let s = others_translating(k, asid, n);
    if n == 0 {
        assert(s =~= Set::empty());
    } else {
        let m = (n - 1) as nat;
        lemma_holders_counted(k, asid, m);
        let before = others_translating(k, asid, m);
        assert(k.cpu_holds_space(asid, m as int) == may_translate(k, asid, m as int));
        if k.remote_holds(asid, m as int) {
            assert(s =~= before.insert(m as int));
        } else {
            assert(s =~= before);
        }
    }
}

/// A shootdown asks exactly the other processors that may still translate: each has its bit, no
/// other has one, and as many answers are wanted.  It asks for the page that was unmapped, and
/// where no processor may translate it asks nobody and waits for nobody.
pub proof fn law_shootdown_asks_who_may_translate(
    k: Kernel,
    asid: Asid,
    virt: VirtAddr,
    acknowledged: usize,
    c: u64,
)
    requires
        c < 64,
    ensures
        ({
            let others = others_translating(k, asid, 8);
            &&& others.finite()
            &&& k.shootdown_request(asid, virt) is None <==> others.len() == 0
            &&& k.shootdown_request(asid, virt) is Some ==> {
                let request = k.shootdown_request(asid, virt)->0;
                &&& request.virt == virt
                &&& request.want == others.len()
                &&& (request.targets >> c) & 1 == (if others.contains(c as int) {
                    1u64
                } else {
                    0u64
                })
            }
            &&& k.shootdown_done(asid, acknowledged) <==> (others.len() == 0 || acknowledged
                == others.len())
            &&& (k.live_bitmap(asid, 8) >> c) & 1 == (if c < 8 && may_translate(
                k,
                asid,
                c as int,
            ) {
                1u64
            } else {
                0u64
            })
        }),
{
    lemma_bits(k, asid, 8, c);
    lemma_holders_counted(k, asid, 8);
    crate::runtime::paging::lemma_holders_bound(k, asid, 8);
}

/// A capability that is dropped with its last use frees the memory behind it exactly when nothing
/// else refers to it; a capability to anything but memory frees nothing.
pub proof fn law_dropped_capability_lets_go(mem: Mem, object: CapObject, i: int)
    ensures
        match object {
            CapObject::MemoryObject { id } | CapObject::DmaRegion { id } => is_object(mem, id, i)
                && is_memory_at(mem, mem.objects[i]->0.phys, i) ==> mem.object_cap_dropped(object)
                == (Mem {
                objects: mem.objects.update(
                    i,
                    if mem.objects[i]->0.cap_refcount <= 1 && mem.objects[i]->0.map_refcount == 0
                        && mem.objects[i]->0.pin_refcount == 0 {
                        None
                    } else {
                        Some(
                            MemoryObject {
                                cap_refcount: one_off(
                                    mem.objects[i]->0.cap_refcount,
                                    false,
                                ) as u64,
                                ..mem.objects[i]->0
                            },
                        )
                    },
                ),
                ..mem
            }),
            _ => mem.object_cap_dropped(object) == mem,
        },
{
    if let Some(id) = object.spec_memory_id() {
        if is_object(mem, id, i) && is_memory_at(mem, mem.objects[i]->0.phys, i) {
            lemma_object(mem, id, i);
            let phys = mem.objects[i]->0.phys;
            let noted = mem.cap_noted(id, false);
            assert(is_memory_at(noted, phys, i)) by {
                assert forall|j: int| 0 <= j < i implies !lies_around(
                    #[trigger] noted.objects[j],
                    phys,
                ) by {
                    assert(noted.objects[j] == mem.objects[j]);
                }
            }
            lemma_at(noted, phys, i);
        }
    }
}

} // verus!
