//! The capability domain: capability nodes, the capabilities in them and the record of
//! which capability was delegated from which.
use vstd::prelude::*;

use crate::ids::{Asid, CNodeId, CapId, KernelError};
use crate::seqs;
use crate::task::TaskClass;

verus! {

/// The object a capability names.
#[derive(Clone, Copy, Debug, PartialEq, Eq, Structural)]
pub enum CapObject {
    Endpoint { index: usize, generation: u64 },
    Notification { index: usize, generation: u64 },
    Reply { index: usize, generation: u64 },
    MemoryObject { id: u64 },
    DmaRegion { id: u64 },
    AddressSpace { asid: Asid },
}

impl CapObject {
    pub open spec fn spec_memory_id(self) -> Option<u64> {
        match self {
            CapObject::MemoryObject { id } => Some(id),
            CapObject::DmaRegion { id } => Some(id),
            _ => None,
        }
    }

    /// The memory object behind the capability, if it names one.
    #[verifier::when_used_as_spec(spec_memory_id)]
    pub fn memory_id(self) -> (r: Option<u64>)
        ensures
            r == self.spec_memory_id(),
    {
        match self {
            CapObject::MemoryObject { id } => Some(id),
            CapObject::DmaRegion { id } => Some(id),
            _ => None,
        }
    }
}

/// A set of rights, one bit each.
#[derive(Clone, Copy, Debug, PartialEq, Eq, Structural)]
pub struct CapRights(pub u8);

/// Right to send to an endpoint or to use a reply.
pub const RIGHT_SEND: u8 = 1;

/// Right to receive from an endpoint.
pub const RIGHT_RECEIVE: u8 = 2;

/// Right to map memory.
pub const RIGHT_MAP: u8 = 4;

impl CapRights {
    pub open spec fn spec_allows(self, right: u8) -> bool {
        self.0 & right == right
    }

    /// Are all bits of `right` set?
    #[verifier::when_used_as_spec(spec_allows)]
    pub fn allows(self, right: u8) -> (r: bool)
        ensures
            r == self.spec_allows(right),
    {
        self.0 & right == right
    }
}

/// An object with the rights to it.
#[derive(Clone, Copy, Debug, PartialEq, Eq, Structural)]
pub struct Capability {
    pub object: CapObject,
    pub rights: CapRights,
}

/// A capability in a slot of a node.
#[derive(Clone, Copy, Debug, PartialEq, Eq, Structural)]
pub struct CapEntry {
    pub cnode: CNodeId,
    pub cap: CapId,
    pub capability: Capability,
}

/// A capability node with slots `1..=slots`.
#[derive(Clone, Copy, Debug, PartialEq, Eq, Structural)]
pub struct CnodeRecord {
    pub cnode: CNodeId,
    pub slots: usize,
}

/// The node that a process uses.
#[derive(Clone, Copy, Debug, PartialEq, Eq, Structural)]
pub struct ProcessCnode {
    pub pid: u64,
    pub cnode: CNodeId,
}

/// One capability delegated from one task to another.
#[derive(Clone, Copy, Debug, PartialEq, Eq, Structural)]
pub struct DelegationLink {
    pub source_tid: u64,
    pub source_cap: CapId,
    pub dest_tid: u64,
    pub dest_cap: CapId,
}

/// Limits that a capacity profile sets.
#[derive(Clone, Copy, Debug, PartialEq, Eq, Structural)]
pub struct RuntimeCapacityConfig {
    pub max_tasks: usize,
    pub max_endpoints: usize,
    pub max_cnode_slots: usize,
    pub max_delegations: usize,
}

/// How much the machine can hold.
#[derive(Clone, Copy, Debug, PartialEq, Eq, Structural)]
pub enum KernelCapacityProfile {
    Constrained,
    Standard,
}

impl KernelCapacityProfile {
    pub open spec fn spec_config(self) -> RuntimeCapacityConfig {
        match self {
            KernelCapacityProfile::Constrained => RuntimeCapacityConfig {
                max_tasks: 64,
                max_endpoints: 32,
                max_cnode_slots: 64,
                max_delegations: 64,
            },
            KernelCapacityProfile::Standard => RuntimeCapacityConfig {
                max_tasks: 512,
                max_endpoints: 128,
                max_cnode_slots: 256,
                max_delegations: 512,
            },
        }
    }

    /// The limits of the profile.
    #[verifier::when_used_as_spec(spec_config)]
    pub fn config(self) -> (r: RuntimeCapacityConfig)
        ensures
            r == self.spec_config(),
    {
        match self {
            KernelCapacityProfile::Constrained => RuntimeCapacityConfig {
                max_tasks: 64,
                max_endpoints: 32,
                max_cnode_slots: 64,
                max_delegations: 64,
            },
            KernelCapacityProfile::Standard => RuntimeCapacityConfig {
                max_tasks: 512,
                max_endpoints: 128,
                max_cnode_slots: 256,
                max_delegations: 512,
            },
        }
    }
}

/// Who asks for a node to be resized.
#[derive(Clone, Copy, Debug, PartialEq, Eq, Structural)]
pub struct ControlPlaneCnodePlan {
    pub requester_class: TaskClass,
    pub requester_pid: u64,
}

/// Process records of `pid`.
pub open spec fn of_process(pid: u64) -> spec_fn(ProcessCnode) -> bool {
    |p: ProcessCnode| p.pid == pid
}

/// Records of node `cnode`.
pub open spec fn of_cnode(cnode: CNodeId) -> spec_fn(CnodeRecord) -> bool {
    |c: CnodeRecord| c.cnode == cnode
}

/// Entries in slot `cap` of `cnode`.
pub open spec fn in_slot(cnode: CNodeId, cap: CapId) -> spec_fn(CapEntry) -> bool {
    |e: CapEntry| e.cnode == cnode && e.cap == cap
}

/// Entries of `cnode` behind slot number `slots`.
pub open spec fn beyond(cnode: CNodeId, slots: usize) -> spec_fn(CapEntry) -> bool {
    |e: CapEntry| e.cnode == cnode && e.cap.0 > slots
}

/// Links that lead to capability `cap` of task `tid`.
pub open spec fn leads_to(tid: u64, cap: CapId) -> spec_fn(DelegationLink) -> bool {
    |l: DelegationLink| l.dest_tid == tid && l.dest_cap == cap
}

/// The state of the capability domain.
#[verifier::ext_equal]
pub struct Caps {
    pub cnodes: Seq<CnodeRecord>,
    pub process_cnodes: Seq<ProcessCnode>,
    pub entries: Seq<CapEntry>,
    pub links: Seq<DelegationLink>,
}

impl Caps {
    /// The node of process `pid`.
    pub open spec fn cnode_of(self, pid: u64) -> Option<CNodeId> {
        let i = seqs::first_where(self.process_cnodes, of_process(pid));
        if i < self.process_cnodes.len() {
            Some(self.process_cnodes[i].cnode)
        } else {
            None
        }
    }

    /// Number of slots of `cnode`.
    pub open spec fn slots_of(self, cnode: CNodeId) -> Option<usize> {
        let i = seqs::first_where(self.cnodes, of_cnode(cnode));
        if i < self.cnodes.len() {
            Some(self.cnodes[i].slots)
        } else {
            None
        }
    }

    /// The capability in slot `cap` of `cnode`.
    pub open spec fn resolve(self, cnode: CNodeId, cap: CapId) -> Option<Capability> {
        let i = seqs::first_where(self.entries, in_slot(cnode, cap));
        if i < self.entries.len() {
            Some(self.entries[i].capability)
        } else {
            None
        }
    }

    /// The first free slot number of `cnode` at or behind `from`, if it is at most `slots`.
    pub open spec fn free_slot_from(self, cnode: CNodeId, from: int, slots: int) -> Option<CapId>
        decreases slots + 1 - from,
    {
        if from > slots || from < 0 {
            None
        } else if self.resolve(cnode, CapId(from as u64)) is None {
            Some(CapId(from as u64))
        } else {
            self.free_slot_from(cnode, from + 1, slots)
        }
    }

    /// Where a new capability of `cnode` goes.
    pub open spec fn mint_verdict(self, cnode: CNodeId) -> Result<CapId, KernelError> {
        match self.slots_of(cnode) {
            None => Err(KernelError::InvalidCapability),
            Some(slots) => match self.free_slot_from(cnode, 1, slots as int) {
                None => Err(KernelError::CapabilityFull),
                Some(cap) => Ok(cap),
            },
        }
    }

    /// The state after `capability` was put into a free slot of `cnode`, if there was one.
    pub open spec fn minted(self, cnode: CNodeId, capability: Capability) -> Caps {
        match self.mint_verdict(cnode) {
            Ok(cap) => Caps { entries: self.entries.push(CapEntry { cnode, cap, capability }), ..self },
            Err(_) => self,
        }
    }

    /// The state after slot `cap` of `cnode` was emptied.
    pub open spec fn revoked(self, cnode: CNodeId, cap: CapId) -> Caps {
        if seqs::any_where(self.entries, in_slot(cnode, cap)) {
            Caps { entries: self.entries.remove(seqs::first_where(self.entries, in_slot(cnode, cap))), ..self }
        } else {
            self
        }
    }

    /// The state after the link to capability `cap` of task `tid` was removed.
    pub open spec fn unlinked(self, tid: u64, cap: CapId) -> Caps {
        if seqs::any_where(self.links, leads_to(tid, cap)) {
            Caps { links: self.links.remove(seqs::first_where(self.links, leads_to(tid, cap))), ..self }
        } else {
            self
        }
    }

    /// Whether a node may get `slots` slots for process `pid`.
    pub open spec fn resize_verdict(
        self,
        plan: ControlPlaneCnodePlan,
        pid: u64,
        slots: usize,
        limits: RuntimeCapacityConfig,
    ) -> Result<(), KernelError> {
        if plan.requester_class != TaskClass::SystemServer && plan.requester_pid != pid {
            Err(KernelError::MissingRight)
        } else if slots == 0 {
            Err(KernelError::WrongObject)
        } else if slots > limits.max_cnode_slots {
            Err(KernelError::CapabilityFull)
        } else if self.slots_of(CNodeId(pid)) is None && self.cnodes.len() >= limits.max_tasks {
            Err(KernelError::TaskTableFull)
        } else if seqs::any_where(self.entries, beyond(CNodeId(pid), slots)) {
            Err(KernelError::WrongObject)
        } else {
            Ok(())
        }
    }

    /// The state after the node of process `pid` was given `slots` slots.
    pub open spec fn resized(self, pid: u64, slots: usize) -> Caps {
        let cnode = CNodeId(pid);
        let record = CnodeRecord { cnode, slots };
        Caps {
            cnodes: if self.slots_of(cnode) is Some {
                self.cnodes.update(seqs::first_where(self.cnodes, of_cnode(cnode)), record)
            } else {
                self.cnodes.push(record)
            },
            process_cnodes: if self.cnode_of(pid) is Some {
                self.process_cnodes
            } else {
                self.process_cnodes.push(ProcessCnode { pid, cnode })
            },
            ..self
        }
    }
}

/// The capability domain.
pub struct CapabilitySubsystem {
    pub cnodes: Vec<CnodeRecord>,
    pub process_cnodes: Vec<ProcessCnode>,
    pub entries: Vec<CapEntry>,
    pub links: Vec<DelegationLink>,
}

impl View for CapabilitySubsystem {
    type V = Caps;

    open spec fn view(&self) -> Caps {
        Caps {
            cnodes: self.cnodes@,
            process_cnodes: self.process_cnodes@,
            entries: self.entries@,
            links: self.links@,
        }
    }
}

impl CapabilitySubsystem {
    /// The node of process `pid`.
    pub fn cnode_of(&self, pid: u64) -> (r: Option<CNodeId>)
        ensures
            r == self@.cnode_of(pid),
    {
        let mut i: usize = 0;
        while i < self.process_cnodes.len() && self.process_cnodes[i].pid != pid
            invariant
                i <= self.process_cnodes@.len(),
                forall|j: int| 0 <= j < i ==> !of_process(pid)(#[trigger] self.process_cnodes@[j]),
            decreases self.process_cnodes@.len() - i,
        {
            i += 1;
        }
        proof {
            seqs::lemma_first_where_is(self.process_cnodes@, of_process(pid), i as int);
        }
        if i < self.process_cnodes.len() {
            Some(self.process_cnodes[i].cnode)
        } else {
            None
        }
    }

    fn cnode_position(&self, cnode: CNodeId) -> (r: usize)
        ensures
            r == seqs::first_where(self@.cnodes, of_cnode(cnode)),
            r <= self.cnodes@.len(),
    {
        let mut i: usize = 0;
        while i < self.cnodes.len() && self.cnodes[i].cnode != cnode
            invariant
                i <= self.cnodes@.len(),
                forall|j: int| 0 <= j < i ==> !of_cnode(cnode)(#[trigger] self.cnodes@[j]),
            decreases self.cnodes@.len() - i,
        {
            i += 1;
        }
        proof {
            seqs::lemma_first_where_is(self.cnodes@, of_cnode(cnode), i as int);
        }
        i
    }

    /// Number of slots of `cnode`.
    pub fn slots_of(&self, cnode: CNodeId) -> (r: Option<usize>)
        ensures
            r == self@.slots_of(cnode),
    {
        let i: usize = self.cnode_position(cnode);
        if i < self.cnodes.len() {
            Some(self.cnodes[i].slots)
        } else {
            None
        }
    }

    fn entry_position(&self, cnode: CNodeId, cap: CapId) -> (r: usize)
        ensures
            r == seqs::first_where(self@.entries, in_slot(cnode, cap)),
            r <= self.entries@.len(),
    {
        let mut i: usize = 0;
        while i < self.entries.len() && !(self.entries[i].cnode == cnode && self.entries[i].cap
            == cap)
            invariant
                i <= self.entries@.len(),
                forall|j: int| 0 <= j < i ==> !in_slot(cnode, cap)(#[trigger] self.entries@[j]),
            decreases self.entries@.len() - i,
        {
            i += 1;
        }
        proof {
            seqs::lemma_first_where_is(self.entries@, in_slot(cnode, cap), i as int);
        }
        i
    }

    /// The capability in slot `cap` of `cnode`.
    pub fn resolve(&self, cnode: CNodeId, cap: CapId) -> (r: Option<Capability>)
        ensures
            r == self@.resolve(cnode, cap),
    {
        let i: usize = self.entry_position(cnode, cap);
        if i < self.entries.len() {
            Some(self.entries[i].capability)
        } else {
            None
        }
    }

    /// Puts `capability` into the first free slot of `cnode`.
    pub fn mint(&mut self, cnode: CNodeId, capability: Capability) -> (r: Result<
        CapId,
        KernelError,
    >)
        ensures
            r == old(self)@.mint_verdict(cnode),
            final(self)@ == old(self)@.minted(cnode, capability),
    {
        match self.slots_of(cnode) {
            None => Err(KernelError::InvalidCapability),
            Some(slots) => {
                let last: u64 = slots as u64;
                let mut n: u64 = 1;
                while n <= last
                    invariant
                        *self == *old(self),
                        last == slots,
                        1 <= n <= last + 1,
                        self@.slots_of(cnode) == Some(slots),
                        self@.free_slot_from(cnode, 1, slots as int) == self@.free_slot_from(
                            cnode,
                            n as int,
                            slots as int,
                        ),
                    decreases last + 1 - n,
                {
                    if self.resolve(cnode, CapId(n)).is_none() {
                        self.entries.push(CapEntry { cnode, cap: CapId(n), capability });
                        return Ok(CapId(n));
                    }
                    if n == last {
                        assert(self@.free_slot_from(cnode, n + 1, slots as int) is None);
                        return Err(KernelError::CapabilityFull);
                    }
                    n += 1;
                }
                Err(KernelError::CapabilityFull)
            },
        }
    }

    /// Empties slot `cap` of `cnode`.
    pub fn revoke(&mut self, cnode: CNodeId, cap: CapId)
        ensures
            final(self)@ == old(self)@.revoked(cnode, cap),
    {
        let i: usize = self.entry_position(cnode, cap);
        if i < self.entries.len() {
            let _gone = self.entries.remove(i);
        }
    }

    /// Removes the link to capability `cap` of task `tid`.
    pub fn unlink(&mut self, tid: u64, cap: CapId)
        ensures
            final(self)@ == old(self)@.unlinked(tid, cap),
    {
        let mut i: usize = 0;
        while i < self.links.len() && !(self.links[i].dest_tid == tid && self.links[i].dest_cap
            == cap)
            invariant
                *self == *old(self),
                i <= self.links@.len(),
                forall|j: int| 0 <= j < i ==> !leads_to(tid, cap)(#[trigger] self.links@[j]),
            decreases self.links@.len() - i,
        {
            i += 1;
        }
        proof {
            seqs::lemma_first_where_is(self.links@, leads_to(tid, cap), i as int);
        }
        if i < self.links.len() {
            let _gone = self.links.remove(i);
        }
    }

    /// Creates or resizes the node of process `pid`.
    pub fn set_process_cnode_slots(
        &mut self,
        plan: ControlPlaneCnodePlan,
        pid: u64,
        slots: usize,
        limits: RuntimeCapacityConfig,
    ) -> (r: Result<(), KernelError>)
        ensures
            r == old(self)@.resize_verdict(plan, pid, slots, limits),
            final(self)@ == if r is Ok {
                old(self)@.resized(pid, slots)
            } else {
                old(self)@
            },
    {
        if plan.requester_class != TaskClass::SystemServer && plan.requester_pid != pid {
            return Err(KernelError::MissingRight);
        }
        if slots == 0 {
            return Err(KernelError::WrongObject);
        }
        if slots > limits.max_cnode_slots {
            return Err(KernelError::CapabilityFull);
        }
        let cnode = CNodeId(pid);
        let i: usize = self.cnode_position(cnode);
        if i == self.cnodes.len() && self.cnodes.len() >= limits.max_tasks {
            return Err(KernelError::TaskTableFull);
        }
        let mut j: usize = 0;
        while j < self.entries.len() && !(self.entries[j].cnode == cnode && self.entries[j].cap.0
            > slots as u64)
            invariant
                *self == *old(self),
                j <= self.entries@.len(),
                forall|k: int| 0 <= k < j ==> !beyond(cnode, slots)(#[trigger] self.entries@[k]),
            decreases self.entries@.len() - j,
        {
            j += 1;
        }
        proof {
            seqs::lemma_first_where_is(self.entries@, beyond(cnode, slots), j as int);
        }
        if j < self.entries.len() {
            return Err(KernelError::WrongObject);
        }
        let registered = self.cnode_of(pid).is_some();
        if i < self.cnodes.len() {
            self.cnodes[i] = CnodeRecord { cnode, slots };
        } else {
            self.cnodes.push(CnodeRecord { cnode, slots });
        }
        if !registered {
            self.process_cnodes.push(ProcessCnode { pid, cnode });
        }
        Ok(())
    }
}

} // verus!
