//! The address-space domain: which pages are mapped where, and for whom.
use vstd::prelude::*;

use crate::ids::{Asid, PhysAddr, VirtAddr, VmError, PAGE_SIZE};
use crate::seqs;

verus! {

/// What may be done through a mapping.
#[derive(Clone, Copy, Debug, PartialEq, Eq, Structural)]
pub struct PageFlags {
    pub user: bool,
    pub read: bool,
    pub write: bool,
    pub execute: bool,
}

impl PageFlags {
    /// User pages that may be read and written, and not executed.
    pub fn user_rw() -> (r: PageFlags)
        ensures
            r == (PageFlags { user: true, read: true, write: true, execute: false }),
    {
        PageFlags { user: true, read: true, write: true, execute: false }
    }
}

/// Where a page lies and what may be done with it.
#[derive(Clone, Copy, Debug, PartialEq, Eq, Structural)]
pub struct Mapping {
    pub phys: PhysAddr,
    pub flags: PageFlags,
}

/// One mapped page; `page` is its first address.
#[derive(Clone, Copy, Debug, PartialEq, Eq, Structural)]
pub struct PageEntry {
    pub asid: Asid,
    pub page: u64,
    pub mapping: Mapping,
}

/// First address of the page that holds `va`.
pub open spec fn page_of(va: u64) -> u64 {
    (va - va % 4096) as u64
}

/// Entries of the page at `page` in `asid`.
pub open spec fn maps_page(asid: Asid, page: u64) -> spec_fn(PageEntry) -> bool {
    |e: PageEntry| e.asid == asid && e.page == page
}

/// The address space `asid`.
pub open spec fn is_space(asid: Asid) -> spec_fn(Asid) -> bool {
    |a: Asid| a == asid
}

/// The state of the address-space domain.
#[verifier::ext_equal]
pub struct Vm {
    pub spaces: Seq<Asid>,
    pub pages: Seq<PageEntry>,
}

impl Vm {
    /// Does address space `asid` exist?
    pub open spec fn has_space(self, asid: Asid) -> bool {
        seqs::any_where(self.spaces, is_space(asid))
    }

    /// Place of the entry that maps the page at `page`.
    pub open spec fn entry(self, asid: Asid, page: u64) -> int {
        seqs::first_where(self.pages, maps_page(asid, page))
    }

    /// The mapping of the page that holds `va`.
    pub open spec fn resolve(self, asid: Asid, va: u64) -> Option<Mapping> {
        let i = self.entry(asid, page_of(va));
        if self.has_space(asid) && i < self.pages.len() {
            Some(self.pages[i].mapping)
        } else {
            None
        }
    }

    /// The physical address behind `va`, if user code may access it.
    pub open spec fn user_phys(self, asid: Asid, va: u64, write: bool) -> Option<u64> {
        match self.resolve(asid, va) {
            Some(m) if m.flags.user && (if write {
                m.flags.write
            } else {
                m.flags.read
            }) && m.phys.0 + va % 4096 <= u64::MAX => Some((m.phys.0 + va % 4096) as u64),
            _ => None,
        }
    }

    /// What mapping the page at `va` comes to: the mapping it replaces.
    pub open spec fn map_verdict(self, asid: Asid, va: VirtAddr) -> Result<
        Option<Mapping>,
        VmError,
    > {
        if !self.has_space(asid) {
            Err(VmError::InvalidAsid)
        } else if va.0 % 4096 != 0 {
            Err(VmError::InvalidAddress)
        } else {
            Ok(self.resolve(asid, va.0))
        }
    }

    /// The state after the page at `va` was mapped, if it could be.
    pub open spec fn mapped(self, asid: Asid, va: VirtAddr, mapping: Mapping) -> Vm {
        let i = self.entry(asid, va.0);
        let entry = PageEntry { asid, page: va.0, mapping };
        if self.map_verdict(asid, va) is Err {
            self
        } else if i < self.pages.len() {
            Vm { pages: self.pages.update(i, entry), ..self }
        } else {
            Vm { pages: self.pages.push(entry), ..self }
        }
    }

    /// The state after the page at `va` was unmapped, if it could be and was mapped.
    pub open spec fn unmapped(self, asid: Asid, va: VirtAddr) -> Vm {
        let i = self.entry(asid, va.0);
        if self.map_verdict(asid, va) is Ok && i < self.pages.len() {
            Vm { pages: self.pages.remove(i), ..self }
        } else {
            self
        }
    }
}

/// The address-space domain.
pub struct AddressSpaceManager {
    pub spaces: Vec<Asid>,
    pub pages: Vec<PageEntry>,
}

impl View for AddressSpaceManager {
    type V = Vm;

    open spec fn view(&self) -> Vm {
        Vm { spaces: self.spaces@, pages: self.pages@ }
    }
}

impl AddressSpaceManager {
    /// Does address space `asid` exist?
    pub fn has_space(&self, asid: Asid) -> (r: bool)
        ensures
            r == self@.has_space(asid),
    {
        let mut i: usize = 0;
        while i < self.spaces.len() && self.spaces[i] != asid
            invariant
                i <= self.spaces@.len(),
                forall|j: int| 0 <= j < i ==> !is_space(asid)(#[trigger] self.spaces@[j]),
            decreases self.spaces@.len() - i,
        {
            i += 1;
        }
        proof {
            seqs::lemma_first_where_is(self.spaces@, is_space(asid), i as int);
        }
        i < self.spaces.len()
    }

    fn entry_position(&self, asid: Asid, page: u64) -> (r: usize)
        ensures
            r == self@.entry(asid, page),
            r <= self.pages@.len(),
    {
        let mut i: usize = 0;
        while i < self.pages.len() && !(self.pages[i].asid == asid && self.pages[i].page == page)
            invariant
                i <= self.pages@.len(),
                forall|j: int| 0 <= j < i ==> !maps_page(asid, page)(#[trigger] self.pages@[j]),
            decreases self.pages@.len() - i,
        {
            i += 1;
        }
        proof {
            seqs::lemma_first_where_is(self.pages@, maps_page(asid, page), i as int);
        }
        i
    }

    /// The mapping of the page that holds `va`.
    pub fn resolve(&self, asid: Asid, va: VirtAddr) -> (r: Option<Mapping>)
        ensures
            r == self@.resolve(asid, va.0),
    {
        if !self.has_space(asid) {
            return None;
        }
        let page: u64 = va.0 - va.0 % (PAGE_SIZE as u64);
        let i: usize = self.entry_position(asid, page);
        if i < self.pages.len() {
            Some(self.pages[i].mapping)
        } else {
            None
        }
    }

    /// The physical address behind `va`, if user code may access it.
    pub fn user_phys(&self, asid: Asid, va: u64, write: bool) -> (r: Option<u64>)
        ensures
            r == self@.user_phys(asid, va, write),
    {
        match self.resolve(asid, VirtAddr(va)) {
            None => None,
            Some(m) => {
                let allowed = m.flags.user && (if write {
                    m.flags.write
                } else {
                    m.flags.read
                });
                if !allowed {
                    return None;
                }
                m.phys.0.checked_add(va % (PAGE_SIZE as u64))
            },
        }
    }

    /// Maps the page at `va` and returns the mapping it replaces.
    pub fn map_page(&mut self, asid: Asid, va: VirtAddr, mapping: Mapping) -> (r: Result<
        Option<Mapping>,
        VmError,
    >)
        ensures
            r == old(self)@.map_verdict(asid, va),
            final(self)@ == old(self)@.mapped(asid, va, mapping),
    {
        if !self.has_space(asid) {
            return Err(VmError::InvalidAsid);
        }
        if va.0 % (PAGE_SIZE as u64) != 0 {
            return Err(VmError::InvalidAddress);
        }
        let replaced = self.resolve(asid, va);
        let i: usize = self.entry_position(asid, va.0);
        let entry = PageEntry { asid, page: va.0, mapping };
        if i < self.pages.len() {
            self.pages[i] = entry;
        } else {
            self.pages.push(entry);
        }
        Ok(replaced)
    }

    /// Unmaps the page at `va` and returns the mapping it had.
    pub fn unmap_page(&mut self, asid: Asid, va: VirtAddr) -> (r: Result<Option<Mapping>, VmError>)
        ensures
            r == old(self)@.map_verdict(asid, va),
            final(self)@ == old(self)@.unmapped(asid, va),
    {
        if !self.has_space(asid) {
            return Err(VmError::InvalidAsid);
        }
        if va.0 % (PAGE_SIZE as u64) != 0 {
            return Err(VmError::InvalidAddress);
        }
        let i: usize = self.entry_position(asid, va.0);
        if i < self.pages.len() {
            let entry = self.pages.remove(i);
            Ok(Some(entry.mapping))
        } else {
            Ok(None)
        }
    }
}

} // verus!
