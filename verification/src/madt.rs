//! The interrupt controllers that the multiple APIC description table
//! lists.
//!
//! The table is read by the caller, who hands over its records as plain
//! values. Kept are the records of local APICs and of I/O APICs, in the
//! order of the table.

use vstd::prelude::*;
use crate::addr::{canonical_form, virt_addr_representable, x86_virt_addr_new};

verus! {

/// A record of the table, as far as it is looked at.
#[derive(Debug, Clone, Copy, PartialEq, Eq, Structural)]
pub enum MadtRecord {
    /// A processor's local APIC.
    LocalApic { entry_type: u8, length: u8, processor_id: u8, apic_id: u8, flags: u32 },
    /// An I/O APIC.
    IoApic {
        entry_type: u8,
        length: u8,
        io_apic_id: u8,
        io_apic_address: u32,
        global_system_interrupt_base: u32,
    },
    /// A record of any other kind.
    Other,
}

/// An entry that is kept.
#[derive(Debug, Clone, Copy, PartialEq, Eq, Structural)]
pub enum MadtEntryType {
    LocalApic(LocalApic),
    IoApic(IoApic),
}

/// A processor's local APIC, with the physical address at which the local
/// APICs are reached.
#[derive(Debug, Clone, Copy, PartialEq, Eq, Structural)]
pub struct LocalApic {
    pub entry_type: u8,
    pub entry_length: u8,
    pub processor_id: u8,
    pub apic_id: u8,
    pub flags: u32,
    pub address: u32,
}

impl LocalApic {
    /// The local APIC with the given fields.
    pub fn new(
        entry_type: u8,
        entry_length: u8,
        processor_id: u8,
        apic_id: u8,
        flags: u32,
        address: u32,
    ) -> (apic: Self)
        ensures
            apic == (LocalApic { entry_type, entry_length, processor_id, apic_id, flags, address }),
    {
        Self { entry_type, entry_length, processor_id, apic_id, flags, address }
    }
}

/// An I/O APIC, with its physical address and the virtual address at
/// which physical memory starts.
#[derive(Debug, Clone, Copy, PartialEq, Eq, Structural)]
pub struct IoApic {
    pub entry_type: u8,
    pub entry_length: u8,
    pub apic_id: u8,
    pub address: u32,
    pub global_system_interrupt_base: u32,
    pub physical_memory_offset: u64,
}

impl IoApic {
    /// The I/O APIC with the given fields.
    pub fn new(
        entry_type: u8,
        entry_length: u8,
        apic_id: u8,
        address: u32,
        global_system_interrupt_base: u32,
        physical_memory_offset: u64,
    ) -> (apic: Self)
        ensures
            apic.entry_type == entry_type,
            apic.entry_length == entry_length,
            apic.apic_id == apic_id,
            apic.address == address,
            apic.global_system_interrupt_base == global_system_interrupt_base,
            apic.physical_memory_offset == physical_memory_offset,
    {
        Self {
            entry_type,
            entry_length,
            apic_id,
            address,
            global_system_interrupt_base,
            physical_memory_offset,
        }
    }

    /// The virtual address at which the I/O APIC is reached.
    pub fn address(&self) -> (virt: u64)
        requires
            virt_addr_representable(self.physical_memory_offset + self.address),
        ensures
            virt == canonical_form(self.physical_memory_offset + self.address),
    {
        x86_virt_addr_new(self.physical_memory_offset + self.address as u64)
    }
}

/// The entry that is kept of a record, if any.
pub open spec fn entry_of(
    record: MadtRecord,
    local_apic_address: u32,
    physical_memory_offset: u64,
) -> Option<MadtEntryType> {
    match record {
        MadtRecord::LocalApic { entry_type, length, processor_id, apic_id, flags } => Some(
            MadtEntryType::LocalApic(
                LocalApic {
                    entry_type,
                    entry_length: length,
                    processor_id,
                    apic_id,
                    flags,
                    address: local_apic_address,
                },
            ),
        ),
        MadtRecord::IoApic {
            entry_type,
            length,
            io_apic_id,
            io_apic_address,
            global_system_interrupt_base,
        } => Some(
            MadtEntryType::IoApic(
                IoApic {
                    entry_type,
                    entry_length: length,
                    apic_id: io_apic_id,
                    address: io_apic_address,
                    global_system_interrupt_base,
                    physical_memory_offset,
                },
            ),
        ),
        MadtRecord::Other => None,
    }
}

/// The entries that are kept of a run of records, in their order.
pub open spec fn entries_of(
    records: Seq<MadtRecord>,
    local_apic_address: u32,
    physical_memory_offset: u64,
) -> Seq<MadtEntryType>
    decreases records.len(),
{
    if records.len() == 0 {
        Seq::empty()
    } else {
        let before = entries_of(records.drop_last(), local_apic_address, physical_memory_offset);
        match entry_of(records.last(), local_apic_address, physical_memory_offset) {
            Some(entry) => before.push(entry),
            None => before,
        }
    }
}

/// The I/O APICs among a run of entries, in their order.
pub open spec fn io_apics_of(entries: Seq<MadtEntryType>) -> Seq<IoApic>
    decreases entries.len(),
{
    if entries.len() == 0 {
        Seq::empty()
    } else {
        let before = io_apics_of(entries.drop_last());
        match entries.last() {
            MadtEntryType::IoApic(io_apic) => before.push(io_apic),
            MadtEntryType::LocalApic(_) => before,
        }
    }
}

/// The first local APIC of a run of entries, if it holds one.
pub open spec fn first_local_apic(entries: Seq<MadtEntryType>) -> Option<LocalApic>
    decreases entries.len(),
{
    if entries.len() == 0 {
        None
    } else {
        match entries[0] {
            MadtEntryType::LocalApic(local_apic) => Some(local_apic),
            MadtEntryType::IoApic(_) => first_local_apic(entries.drop_first()),
        }
    }
}

/// The interrupt controllers of the table.
pub struct MadtTable {
    madt_entries: Vec<MadtEntryType>,
    physical_memory_offset: u64,
}

impl MadtTable {
    /// The entries, in the order of the table.
    pub closed spec fn entries(&self) -> Seq<MadtEntryType> {
        self.madt_entries@
    }

    /// The virtual address at which physical memory starts.
    pub closed spec fn offset(&self) -> u64 {
        self.physical_memory_offset
    }

    /// The controllers among `madt_entries`. Every local APIC is given the
    /// address `local_apic_address`.
    pub fn new(
        local_apic_address: u32,
        madt_entries: &[MadtRecord],
        physical_memory_offset: u64,
    ) -> (table: Self)
        ensures
            table.entries() == entries_of(madt_entries@, local_apic_address, physical_memory_offset),
            table.offset() == physical_memory_offset,
    {
        let mut madt_entry_vec: Vec<MadtEntryType> = Vec::new();
        let mut i: usize = 0;
        while i < madt_entries.len()
            invariant
                i <= madt_entries.len(),
                madt_entry_vec@ == entries_of(
                    madt_entries@.subrange(0, i as int),
                    local_apic_address,
                    physical_memory_offset,
                ),
            decreases madt_entries.len() - i,
        {
            assert(madt_entries@.subrange(0, i as int + 1).drop_last() =~= madt_entries@.subrange(
                0,
                i as int,
            ));
            match madt_entries[i] {
                MadtRecord::LocalApic { entry_type, length, processor_id, apic_id, flags } => {
                    madt_entry_vec.push(
                        MadtEntryType::LocalApic(
                            LocalApic::new(
                                entry_type,
                                length,
                                processor_id,
                                apic_id,
                                flags,
                                local_apic_address,
                            ),
                        ),
                    );
                },
                MadtRecord::IoApic {
                    entry_type,
                    length,
                    io_apic_id,
                    io_apic_address,
                    global_system_interrupt_base,
                } => {
                    madt_entry_vec.push(
                        MadtEntryType::IoApic(
                            IoApic::new(
                                entry_type,
                                length,
                                io_apic_id,
                                io_apic_address,
                                global_system_interrupt_base,
                                physical_memory_offset,
                            ),
                        ),
                    );
                },
                MadtRecord::Other => {},
            }
            i = i + 1;
        }
        assert(madt_entries@.subrange(0, i as int) =~= madt_entries@);
        Self { madt_entries: madt_entry_vec, physical_memory_offset }
    }

    /// The first local APIC of the table, if it has one.
    pub fn local_apic(&self) -> (apic: Option<&LocalApic>)
        ensures
            apic.is_some() == first_local_apic(self.entries()).is_some(),
            apic.is_some() ==> *apic.unwrap() == first_local_apic(self.entries()).unwrap(),
    {
        let mut i: usize = 0;
        assert(self.madt_entries@.subrange(0, self.madt_entries@.len() as int)
            =~= self.madt_entries@);
        while i < self.madt_entries.len()
            invariant
                i <= self.madt_entries.len(),
                first_local_apic(self.madt_entries@) == first_local_apic(
                    self.madt_entries@.subrange(i as int, self.madt_entries@.len() as int),
                ),
            decreases self.madt_entries.len() - i,
        {
            let ghost rest = self.madt_entries@.subrange(
                i as int,
                self.madt_entries@.len() as int,
            );
            assert(rest.drop_first() =~= self.madt_entries@.subrange(
                i as int + 1,
                self.madt_entries@.len() as int,
            ));
            assert(rest[0] == self.madt_entries@[i as int]);
            if let MadtEntryType::LocalApic(local_apic) = &self.madt_entries[i] {
                return Some(local_apic);
            }
            i = i + 1;
        }
        None
    }

    /// The physical address of the local APIC.
    pub fn phys_lapic_addr(&self) -> (addr: u64)
        requires
            first_local_apic(self.entries()).is_some(),
        ensures
            addr == first_local_apic(self.entries()).unwrap().address,
    {
        let apic = self.local_apic().unwrap();
        apic.address as u64
    }

    /// The virtual address of the local APIC.
    pub fn virt_lapic_addr(&self) -> (addr: u64)
        requires
            first_local_apic(self.entries()).is_some(),
            virt_addr_representable(
                self.offset() + first_local_apic(self.entries()).unwrap().address,
            ),
        ensures
            addr == canonical_form(
                self.offset() + first_local_apic(self.entries()).unwrap().address,
            ),
    {
        let apic = self.local_apic().unwrap();
        x86_virt_addr_new(self.physical_memory_offset + apic.address as u64)
    }

    /// The I/O APICs of the table, in its order.
    pub fn io_apics(&self) -> (apics: Vec<IoApic>)
        ensures
            apics@ == io_apics_of(self.entries()),
    {
        let mut apics: Vec<IoApic> = Vec::new();
        let mut i: usize = 0;
        while i < self.madt_entries.len()
            invariant
                i <= self.madt_entries.len(),
                apics@ == io_apics_of(self.madt_entries@.subrange(0, i as int)),
            decreases self.madt_entries.len() - i,
        {
            assert(self.madt_entries@.subrange(0, i as int + 1).drop_last()
                =~= self.madt_entries@.subrange(0, i as int));
            if let MadtEntryType::IoApic(io_apic) = &self.madt_entries[i] {
                apics.push(*io_apic);
            }
            i = i + 1;
        }
        assert(self.madt_entries@.subrange(0, i as int) =~= self.madt_entries@);
        apics
    }
}

} // verus!
