//! The memory domain: memory objects with their reference counts, copy-on-write pages,
//! program breaks and the bytes of user memory.
use std::collections::HashMap;
use vstd::prelude::*;

use crate::capability::CapObject;
use crate::ids::{Asid, KernelError, PhysAddr, VirtAddr};
use crate::seqs;

verus! {

/// Memory objects in the table.
pub const MAX_MEMORY_OBJECTS: usize = 128;

/// Program breaks in the table.
pub const MAX_BRK_RECORDS: usize = 512;

/// A run of physical memory and who refers to it.
#[derive(Clone, Copy, Debug, PartialEq, Eq, Structural)]
pub struct MemoryObject {
    pub id: u64,
    pub phys: PhysAddr,
    pub len: u64,
    pub cap_refcount: u64,
    pub map_refcount: u64,
    pub pin_refcount: u64,
}

/// A page that is shared until it is written.
#[derive(Clone, Copy, Debug, PartialEq, Eq, Structural)]
pub struct CowPage {
    pub asid: Asid,
    pub va: VirtAddr,
}

/// The program break of a process.
#[derive(Clone, Copy, Debug, PartialEq, Eq, Structural)]
pub struct BrkBounds {
    pub tid: u64,
    pub base: u64,
    pub end: u64,
}

/// Slots whose object covers physical address `phys`.
pub open spec fn covers(phys: PhysAddr) -> spec_fn(Option<MemoryObject>) -> bool {
    |s: Option<MemoryObject>|
        s is Some && s->0.phys.0 <= phys.0 && phys.0 - s->0.phys.0 < s->0.len
}

/// Slots that hold object `id`.
pub open spec fn has_id(id: u64) -> spec_fn(Option<MemoryObject>) -> bool {
    |s: Option<MemoryObject>| s is Some && s->0.id == id
}

/// Copy-on-write entries of one page.
pub open spec fn is_cow(asid: Asid, va: VirtAddr) -> spec_fn(CowPage) -> bool {
    |c: CowPage| c.asid == asid && c.va == va
}

/// Break records of task `tid`.
pub open spec fn brk_of_task(tid: u64) -> spec_fn(BrkBounds) -> bool {
    |b: BrkBounds| b.tid == tid
}

/// `n` plus one, or minus one, within the range of the type.
pub open spec fn stepped(n: u64, up: bool) -> u64 {
    if up {
        if n < u64::MAX {
            (n + 1) as u64
        } else {
            n
        }
    } else {
        if n > 0 {
            (n - 1) as u64
        } else {
            n
        }
    }
}

fn step(n: u64, up: bool) -> (r: u64)
    ensures
        r == stepped(n, up),
{
    if up {
        if n < u64::MAX {
            n + 1
        } else {
            n
        }
    } else {
        if n > 0 {
            n - 1
        } else {
            n
        }
    }
}

/// The state of the memory domain.
#[verifier::ext_equal]
pub struct Mem {
    pub objects: Seq<Option<MemoryObject>>,
    pub cow: Seq<CowPage>,
    pub brk: Seq<BrkBounds>,
    pub bytes: Map<u64, u8>,
}

impl Mem {
    /// The state with slot `i` of the object table replaced.
    pub open spec fn with_object(self, i: int, object: Option<MemoryObject>) -> Mem {
        Mem { objects: self.objects.update(i, object), ..self }
    }

    /// The state after a mapping of `phys` came or went.
    pub open spec fn mapping_noted(self, phys: PhysAddr, up: bool) -> Mem {
        let i = seqs::first_where(self.objects, covers(phys));
        if i < self.objects.len() {
            let object = self.objects[i]->0;
            self.with_object(
                i,
                Some(MemoryObject { map_refcount: stepped(object.map_refcount, up), ..object }),
            )
        } else {
            self
        }
    }

    /// The state after a capability to object `id` came or went.
    pub open spec fn cap_noted(self, id: u64, up: bool) -> Mem {
        let i = seqs::first_where(self.objects, has_id(id));
        if i < self.objects.len() {
            let object = self.objects[i]->0;
            self.with_object(
                i,
                Some(MemoryObject { cap_refcount: stepped(object.cap_refcount, up), ..object }),
            )
        } else {
            self
        }
    }

    /// The state after a pin of object `id` came or went.
    pub open spec fn pin_noted(self, id: u64, up: bool) -> Mem {
        let i = seqs::first_where(self.objects, has_id(id));
        if i < self.objects.len() {
            let object = self.objects[i]->0;
            self.with_object(
                i,
                Some(MemoryObject { pin_refcount: stepped(object.pin_refcount, up), ..object }),
            )
        } else {
            self
        }
    }

    /// Does nothing refer to the object?
    pub open spec fn unreferenced(object: MemoryObject) -> bool {
        object.cap_refcount == 0 && object.map_refcount == 0 && object.pin_refcount == 0
    }

    /// The state after the object that covers `phys` was freed, if nothing refers to it.
    pub open spec fn reclaimed(self, phys: PhysAddr) -> Mem {
        let i = seqs::first_where(self.objects, covers(phys));
        if i < self.objects.len() && Mem::unreferenced(self.objects[i]->0) {
            self.with_object(i, None)
        } else {
            self
        }
    }

    /// First physical address of the memory behind `object`.
    pub open spec fn phys_base(self, object: CapObject) -> Option<PhysAddr> {
        match object.spec_memory_id() {
            None => None,
            Some(id) => {
                let i = seqs::first_where(self.objects, has_id(id));
                if i < self.objects.len() {
                    Some(self.objects[i]->0.phys)
                } else {
                    None
                }
            },
        }
    }

    /// The state after a page stopped being copy-on-write.
    pub open spec fn cow_cleared(self, asid: Asid, va: VirtAddr) -> Mem {
        let i = seqs::first_where(self.cow, is_cow(asid, va));
        if i < self.cow.len() {
            Mem { cow: self.cow.remove(i), ..self }
        } else {
            self
        }
    }

    /// The program break of task `tid`: its base and its end.
    pub open spec fn brk_of(self, tid: u64) -> Option<(u64, u64)> {
        let i = seqs::first_where(self.brk, brk_of_task(tid));
        if i < self.brk.len() {
            Some((self.brk[i].base, self.brk[i].end))
        } else {
            None
        }
    }

    /// Can the break of task `tid` be recorded?
    pub open spec fn brk_fits(self, tid: u64) -> bool {
        self.brk_of(tid) is Some || self.brk.len() < MAX_BRK_RECORDS
    }

    /// The state after the break of task `tid` was recorded, if it could be.
    pub open spec fn brk_set(self, tid: u64, base: u64, end: u64) -> Mem {
        let i = seqs::first_where(self.brk, brk_of_task(tid));
        let record = BrkBounds { tid, base, end };
        if i < self.brk.len() {
            Mem { brk: self.brk.update(i, record), ..self }
        } else if self.brk.len() < MAX_BRK_RECORDS {
            Mem { brk: self.brk.push(record), ..self }
        } else {
            self
        }
    }

    /// The byte at physical address `phys`; memory that was never written reads zero.
    pub open spec fn byte(self, phys: u64) -> u8 {
        if self.bytes.contains_key(phys) {
            self.bytes[phys]
        } else {
            0
        }
    }

    /// The state after one byte was written.
    pub open spec fn byte_set(self, phys: u64, value: u8) -> Mem {
        Mem { bytes: self.bytes.insert(phys, value), ..self }
    }

    /// The state after a page was unmapped for good: it is no longer copy-on-write, its
    /// mapping no longer counts, and its frame is freed when nothing else refers to it.
    pub open spec fn page_dropped(self, asid: Asid, va: VirtAddr, phys: PhysAddr) -> Mem {
        self.cow_cleared(asid, va).mapping_noted(phys, false).reclaimed(phys)
    }
}

/// The memory domain.
pub struct MemorySubsystem {
    pub memory_objects: Vec<Option<MemoryObject>>,
    pub cow: Vec<CowPage>,
    pub brk: Vec<BrkBounds>,
    pub bytes: HashMap<u64, u8>,
}

impl View for MemorySubsystem {
    type V = Mem;

    open spec fn view(&self) -> Mem {
        Mem {
            objects: self.memory_objects@,
            cow: self.cow@,
            brk: self.brk@,
            bytes: self.bytes@,
        }
    }
}

impl MemorySubsystem {
    fn covering(&self, phys: PhysAddr) -> (r: Option<(usize, MemoryObject)>)
        ensures
            r is Some <==> seqs::any_where(self@.objects, covers(phys)),
            r matches Some((i, object)) ==> i == seqs::first_where(self@.objects, covers(phys)) && i
                < self@.objects.len() && self@.objects[i as int] == Some(object),
    {
        let mut i: usize = 0;
        while i < self.memory_objects.len()
            invariant
                i <= self.memory_objects@.len(),
                forall|j: int| 0 <= j < i ==> !covers(phys)(#[trigger] self.memory_objects@[j]),
            decreases self.memory_objects@.len() - i,
        {
            if let Some(object) = self.memory_objects[i] {
                if object.phys.0 <= phys.0 && phys.0 - object.phys.0 < object.len {
                    proof {
                        seqs::lemma_first_where_is(self.memory_objects@, covers(phys), i as int);
                    }
                    return Some((i, object));
                }
            }
            i += 1;
        }
        proof {
            seqs::lemma_first_where_is(self.memory_objects@, covers(phys), i as int);
        }
        None
    }

    /// Slot and contents of object `id`.
    pub fn object(&self, id: u64) -> (r: Option<(usize, MemoryObject)>)
        ensures
            r is Some <==> seqs::any_where(self@.objects, has_id(id)),
            r matches Some((i, object)) ==> i == seqs::first_where(self@.objects, has_id(id)) && i
                < self@.objects.len() && self@.objects[i as int] == Some(object),
    {
        let mut i: usize = 0;
        while i < self.memory_objects.len()
            invariant
                i <= self.memory_objects@.len(),
                forall|j: int| 0 <= j < i ==> !has_id(id)(#[trigger] self.memory_objects@[j]),
            decreases self.memory_objects@.len() - i,
        {
            if let Some(object) = self.memory_objects[i] {
                if object.id == id {
                    proof {
                        seqs::lemma_first_where_is(self.memory_objects@, has_id(id), i as int);
                    }
                    return Some((i, object));
                }
            }
            i += 1;
        }
        proof {
            seqs::lemma_first_where_is(self.memory_objects@, has_id(id), i as int);
        }
        None
    }

    /// Notes that a mapping of `phys` came or went.
    pub fn note_mapping(&mut self, phys: PhysAddr, up: bool)
        ensures
            final(self)@ == old(self)@.mapping_noted(phys, up),
    {
        if let Some((i, object)) = self.covering(phys) {
            let map_refcount: u64 = step(object.map_refcount, up);
            self.memory_objects[i] = Some(MemoryObject { map_refcount, ..object });
        }
    }

    /// Notes that a capability to object `id` came or went.
    pub fn note_cap(&mut self, id: u64, up: bool)
        ensures
            final(self)@ == old(self)@.cap_noted(id, up),
    {
        if let Some((i, object)) = self.object(id) {
            let cap_refcount: u64 = step(object.cap_refcount, up);
            self.memory_objects[i] = Some(MemoryObject { cap_refcount, ..object });
        }
    }

    /// Notes that a pin of object `id` came or went; frees nothing.
    pub fn note_pin(&mut self, id: u64, up: bool)
        ensures
            final(self)@ == old(self)@.pin_noted(id, up),
    {
        if let Some((i, object)) = self.object(id) {
            let pin_refcount: u64 = step(object.pin_refcount, up);
            self.memory_objects[i] = Some(MemoryObject { pin_refcount, ..object });
        }
    }

    /// Frees the object that covers `phys`, if nothing refers to it.
    pub fn reclaim(&mut self, phys: PhysAddr)
        ensures
            final(self)@ == old(self)@.reclaimed(phys),
    {
        if let Some((i, object)) = self.covering(phys) {
            if object.cap_refcount == 0 && object.map_refcount == 0 && object.pin_refcount == 0 {
                self.memory_objects[i] = None;
            }
        }
    }

    /// First physical address of the memory behind `object`.
    pub fn phys_base(&self, object: CapObject) -> (r: Option<PhysAddr>)
        ensures
            r == self@.phys_base(object),
    {
        match object.memory_id() {
            None => None,
            Some(id) => match self.object(id) {
                Some((_, found)) => Some(found.phys),
                None => None,
            },
        }
    }

    /// Notes that a page is no longer copy-on-write.
    pub fn clear_cow(&mut self, asid: Asid, va: VirtAddr)
        ensures
            final(self)@ == old(self)@.cow_cleared(asid, va),
    {
        let mut i: usize = 0;
        while i < self.cow.len() && !(self.cow[i].asid == asid && self.cow[i].va == va)
            invariant
                *self == *old(self),
                i <= self.cow@.len(),
                forall|j: int| 0 <= j < i ==> !is_cow(asid, va)(#[trigger] self.cow@[j]),
            decreases self.cow@.len() - i,
        {
            i += 1;
        }
        proof {
            seqs::lemma_first_where_is(self.cow@, is_cow(asid, va), i as int);
        }
        if i < self.cow.len() {
            let _gone = self.cow.remove(i);
        }
    }

    /// Drops an unmapped page: see `Mem::page_dropped`.
    pub fn drop_page(&mut self, asid: Asid, va: VirtAddr, phys: PhysAddr)
        ensures
            final(self)@ == old(self)@.page_dropped(asid, va, phys),
    {
        self.clear_cow(asid, va);
        self.note_mapping(phys, false);
        self.reclaim(phys);
    }

    fn brk_position(&self, tid: u64) -> (r: usize)
        ensures
            r == seqs::first_where(self@.brk, brk_of_task(tid)),
            r <= self.brk@.len(),
    {
        let mut i: usize = 0;
        while i < self.brk.len() && self.brk[i].tid != tid
            invariant
                i <= self.brk@.len(),
                forall|j: int| 0 <= j < i ==> !brk_of_task(tid)(#[trigger] self.brk@[j]),
            decreases self.brk@.len() - i,
        {
            i += 1;
        }
        proof {
            seqs::lemma_first_where_is(self.brk@, brk_of_task(tid), i as int);
        }
        i
    }

    /// The program break of task `tid`.
    pub fn brk_of(&self, tid: u64) -> (r: Option<(u64, u64)>)
        ensures
            r == self@.brk_of(tid),
    {
        let i: usize = self.brk_position(tid);
        if i < self.brk.len() {
            Some((self.brk[i].base, self.brk[i].end))
        } else {
            None
        }
    }

    /// Records the program break of task `tid`.
    pub fn set_brk(&mut self, tid: u64, base: u64, end: u64) -> (r: Result<(), KernelError>)
        ensures
            r == if old(self)@.brk_fits(tid) {
                Ok::<(), KernelError>(())
            } else {
                Err(KernelError::MemoryExhausted)
            },
            final(self)@ == old(self)@.brk_set(tid, base, end),
    {
        let i: usize = self.brk_position(tid);
        let record = BrkBounds { tid, base, end };
        if i < self.brk.len() {
            self.brk[i] = record;
            Ok(())
        } else if self.brk.len() < MAX_BRK_RECORDS {
            self.brk.push(record);
            Ok(())
        } else {
            Err(KernelError::MemoryExhausted)
        }
    }

    /// Reads one byte.
    pub fn read_byte(&self, phys: u64) -> (r: u8)
        ensures
            r == self@.byte(phys),
    {
        broadcast use vstd::std_specs::hash::group_hash_axioms;

        match self.bytes.get(&phys) {
            Some(value) => *value,
            None => 0,
        }
    }

    /// Writes one byte.
    pub fn write_byte(&mut self, phys: u64, value: u8)
        ensures
            final(self)@ == old(self)@.byte_set(phys, value),
    {
        broadcast use vstd::std_specs::hash::group_hash_axioms;

        let _previous = self.bytes.insert(phys, value);
    }
}

} // verus!
