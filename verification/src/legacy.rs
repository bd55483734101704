//! The older schema of an executable, and its migration to the current one.
//!
//! A legacy record lists its instructions compactly, stores each memory value
//! as a field element, and carries a step between program counters that the
//! current schema has no place for.
use vstd::prelude::*;
use crate::executable::{
    Executable,
    ExecutableView,
    FnBound,
    MemoryCell,
    Program,
    addressed,
    memory_map,
};
use crate::field::{FieldElement, byte_of, to_byte};
use crate::program::{
    ExpandError,
    Instruction,
    SparseEntry,
    expand,
    expanded,
    expansion_fault,
};

verus! {

/// One instruction of a legacy program, with the slot it belongs to.
#[derive(Clone, Copy, Debug, PartialEq, Eq, Structural)]
pub struct LegacyEntry {
    pub instruction: Instruction,
    pub position: u32,
}

/// A legacy program: the compact listing, the length of the slot array it
/// stands for, the step between program counters, and the base address.
#[derive(Clone, Debug, PartialEq, Eq)]
pub struct LegacyProgram {
    pub entries: Vec<LegacyEntry>,
    pub total_len: u32,
    pub step: u32,
    pub pc_base: u32,
}

/// One value of a legacy memory image, at `offset` in `address_space`.
#[derive(Clone, Copy, Debug, PartialEq, Eq, Structural)]
pub struct LegacyCell {
    pub address_space: u32,
    pub offset: u32,
    pub value: FieldElement,
}

/// A legacy executable record.
#[derive(Clone, Debug, PartialEq, Eq)]
pub struct LegacyExecutable {
    pub program: LegacyProgram,
    pub pc_start: u32,
    pub init_memory: Vec<LegacyCell>,
    pub fn_bounds: Vec<FnBound>,
}

/// What a legacy record holds, as plain sequences.
pub struct LegacyExecutableView {
    pub entries: Seq<LegacyEntry>,
    pub total_len: u32,
    pub step: u32,
    pub pc_base: u32,
    pub pc_start: u32,
    pub init_memory: Seq<LegacyCell>,
    pub fn_bounds: Seq<FnBound>,
}

impl View for LegacyExecutable {
    type V = LegacyExecutableView;

    open spec fn view(&self) -> LegacyExecutableView {
        LegacyExecutableView {
            entries: self.program.entries@,
            total_len: self.program.total_len,
            step: self.program.step,
            pc_base: self.program.pc_base,
            pc_start: self.pc_start,
            init_memory: self.init_memory@,
            fn_bounds: self.fn_bounds@,
        }
    }
}

/// A memory value that does not fit in a byte.
#[derive(Clone, Copy, Debug, PartialEq, Eq, Structural)]
pub struct MemoryFault {
    /// The place of the cell in the legacy memory image.
    pub index: usize,
    pub address_space: u32,
    pub offset: u32,
    /// The canonical representative of the value found there.
    pub value: u32,
}

/// Why a legacy record cannot become an executable.
#[derive(Clone, Copy, Debug, PartialEq, Eq, Structural)]
pub enum MigrateError {
    /// The compact instruction listing cannot be expanded.
    Program(ExpandError),
    /// A value of the memory image is too large for a byte.
    Memory(MemoryFault),
}

/// The compact listing of a legacy program as sparse entries. A legacy record
/// carries no debug information.
pub open spec fn listing(entries: Seq<LegacyEntry>) -> Seq<SparseEntry> {
    entries.map_values(
        |entry: LegacyEntry|
            SparseEntry {
                instruction: entry.instruction,
                debug_info: None,
                position: entry.position,
            },
    )
}

/// The cell at `index` holds a value too large for a byte, and no cell before
/// it does.
pub open spec fn is_first_wide(cells: Seq<LegacyCell>, index: int) -> bool {
    &&& 0 <= index < cells.len()
    &&& byte_of(cells[index].value) is None
    &&& forall|before: int| 0 <= before < index ==> byte_of(#[trigger] cells[before].value) is Some
}

/// Every value of the memory image fits in a byte.
pub open spec fn narrowable(cells: Seq<LegacyCell>) -> bool {
    forall|index: int| 0 <= index < cells.len() ==> byte_of(#[trigger] cells[index].value) is Some
}

/// The report of the cell at `index`.
pub open spec fn wide_at(cells: Seq<LegacyCell>, index: int) -> MemoryFault {
    MemoryFault {
        index: index as usize,
        address_space: cells[index].address_space,
        offset: cells[index].offset,
        value: cells[index].value.value,
    }
}

/// The fault that narrowing `cells` ends in: none when every value fits in a
/// byte, and otherwise the report of the first cell whose value does not.
pub open spec fn memory_fault(cells: Seq<LegacyCell>) -> Option<MemoryFault> {
    if narrowable(cells) {
        None
    } else {
        Some(wide_at(cells, choose|index: int| is_first_wide(cells, index)))
    }
}

/// The cell of the current schema that stands for a legacy cell whose value
/// fits in a byte: the same address, and the value as a byte.
pub open spec fn narrowed_cell(cell: LegacyCell) -> MemoryCell {
    MemoryCell {
        address_space: cell.address_space,
        offset: cell.offset,
        value: cell.value.value as u8,
    }
}

/// The memory image of the current schema that stands for `cells`.
pub open spec fn narrowed(cells: Seq<LegacyCell>) -> Seq<MemoryCell> {
    cells.map_values(|cell: LegacyCell| narrowed_cell(cell))
}

/// What migrating a legacy record yields.
///
/// The instruction listing is expanded first and the memory image narrowed
/// second, so a record with both faults reports the one in its listing. The
/// entry point, the base address and the function ranges are taken over as
/// they are; the step is left behind.
pub open spec fn migrated(legacy: LegacyExecutableView) -> Result<ExecutableView, MigrateError> {
    match expansion_fault(listing(legacy.entries), legacy.total_len as nat) {
        Some(fault) => Err(MigrateError::Program(fault)),
        None => match memory_fault(legacy.init_memory) {
            Some(fault) => Err(MigrateError::Memory(fault)),
            None => Ok(
                ExecutableView {
                    instructions: expanded(listing(legacy.entries), legacy.total_len as nat),
                    pc_base: legacy.pc_base,
                    pc_start: legacy.pc_start,
                    init_memory: narrowed(legacy.init_memory),
                    fn_bounds: legacy.fn_bounds,
                },
            ),
        },
    }
}

/// The view of a migration's outcome.
pub open spec fn outcome_view(outcome: Result<Executable, MigrateError>) -> Result<
    ExecutableView,
    MigrateError,
> {
    match outcome {
        Ok(executable) => Ok(executable@),
        Err(fault) => Err(fault),
    }
}

/// A memory image has at most one first cell that is too wide, and the fault
/// that narrowing ends in is the report of that cell.
pub proof fn lemma_first_wide(cells: Seq<LegacyCell>, index: int)
    requires
        is_first_wide(cells, index),
    ensures
        memory_fault(cells) == Some(wide_at(cells, index)),
{
    let chosen = choose|chosen: int| is_first_wide(cells, chosen);
    assert(is_first_wide(cells, chosen));
    if chosen < index {
        assert(byte_of(cells[chosen].value) is Some);
    } else if index < chosen {
        assert(byte_of(cells[index].value) is Some);
    }
}

/// Turns the compact listing of a legacy program into sparse entries.
fn sparse_entries(entries: &Vec<LegacyEntry>) -> (sparse: Vec<SparseEntry>)
    ensures
        sparse@ == listing(entries@),
{
    let mut sparse: Vec<SparseEntry> = Vec::new();
    let mut index: usize = 0;
    while index < entries.len()
        invariant
            index <= entries@.len(),
            sparse@ == listing(entries@.take(index as int)),
        decreases entries@.len() - index,
    {
        let entry = entries[index];
        sparse.push(
            SparseEntry {
                instruction: entry.instruction,
                debug_info: None,
                position: entry.position,
            },
        );
        index = index + 1;
        assert(sparse@ =~= listing(entries@.take(index as int)));
    }
    assert(entries@.take(index as int) =~= entries@);
    sparse
}

/// Narrows every value of a legacy memory image to a byte and keeps every
/// address as it is.
///
/// Fails on the first value that does not fit in a byte, and then yields no
/// cell at all.
pub fn narrow_memory(cells: &Vec<LegacyCell>) -> (outcome: Result<Vec<MemoryCell>, MemoryFault>)
    ensures
        match outcome {
            Ok(bytes) => memory_fault(cells@) is None && bytes@ == narrowed(cells@),
            Err(fault) => memory_fault(cells@) == Some(fault),
        },
{
    let mut bytes: Vec<MemoryCell> = Vec::new();
    let mut index: usize = 0;
    while index < cells.len()
        invariant
            index <= cells@.len(),
            bytes@ == narrowed(cells@.take(index as int)),
            forall|done: int| 0 <= done < index ==> byte_of(#[trigger] cells@[done].value) is Some,
        decreases cells@.len() - index,
    {
        let cell = cells[index];
        match to_byte(cell.value) {
            Ok(value) => {
                bytes.push(
                    MemoryCell { address_space: cell.address_space, offset: cell.offset, value },
                );
            },
            Err(wide) => {
                proof {
                    lemma_first_wide(cells@, index as int);
                }
                return Err(
                    MemoryFault {
                        index,
                        address_space: cell.address_space,
                        offset: cell.offset,
                        value: wide.value,
                    },
                );
            },
        }
        index = index + 1;
        assert(bytes@ =~= narrowed(cells@.take(index as int)));
    }
    assert(cells@.take(index as int) =~= cells@);
    Ok(bytes)
}

/// Migrates a legacy record to an executable of the current schema.
///
/// The instruction listing is expanded to the declared length, every memory
/// value is narrowed to a byte under its unchanged address, and the entry
/// point, the base address and the function ranges are taken over. The step of
/// the legacy program is dropped. A fault anywhere fails the whole migration:
/// no partial executable is produced.
pub fn migrate(legacy: LegacyExecutable) -> (outcome: Result<Executable, MigrateError>)
    ensures
        outcome_view(outcome) == migrated(legacy@),
{
    let sparse = sparse_entries(&legacy.program.entries);
    let instructions = match expand(sparse, legacy.program.total_len) {
        Ok(slots) => slots,
        Err(fault) => {
            return Err(MigrateError::Program(fault));
        },
    };
    let init_memory = match narrow_memory(&legacy.init_memory) {
        Ok(bytes) => bytes,
        Err(fault) => {
            return Err(MigrateError::Memory(fault));
        },
    };
    Ok(
        Executable {
            program: Program { instructions, pc_base: legacy.program.pc_base },
            pc_start: legacy.pc_start,
            init_memory,
            fn_bounds: legacy.fn_bounds,
        },
    )
}

/// Migration is a function of the record: whatever two runs on the same
/// record return, they return the same executable or the same fault.
pub proof fn lemma_migration_repeats(
    legacy: LegacyExecutable,
    first: Result<Executable, MigrateError>,
    second: Result<Executable, MigrateError>,
)
    requires
        outcome_view(first) == migrated(legacy@),
        outcome_view(second) == migrated(legacy@),
    ensures
        outcome_view(first) == outcome_view(second),
{
}

/// Migration succeeds exactly on the records whose listing can be placed and
/// whose memory values all lie below 256.
pub proof fn lemma_migration_succeeds(legacy: LegacyExecutableView)
    ensures
        migrated(legacy) is Ok <==> {
            &&& crate::program::placeable(listing(legacy.entries), legacy.total_len as nat)
            &&& forall|index: int|
                0 <= index < legacy.init_memory.len() ==> (
                #[trigger] legacy.init_memory[index]).value.value < 256
        },
{
    if narrowable(legacy.init_memory) {
        assert forall|index: int| 0 <= index < legacy.init_memory.len() implies (
        #[trigger] legacy.init_memory[index]).value.value < 256 by {
            assert(byte_of(legacy.init_memory[index].value) is Some);
        }
    }
}

/// What a successful migration keeps: the image has as many cells as before,
/// each under its old address and with its old value, and the entry point, the
/// base address and the function ranges are those of the record.
pub proof fn lemma_migration_keeps(legacy: LegacyExecutableView, executable: ExecutableView)
    requires
        migrated(legacy) == Ok::<ExecutableView, MigrateError>(executable),
    ensures
        executable.instructions.len() == legacy.total_len,
        executable.pc_base == legacy.pc_base,
        executable.pc_start == legacy.pc_start,
        executable.fn_bounds == legacy.fn_bounds,
        executable.init_memory.len() == legacy.init_memory.len(),
        forall|index: int|
            0 <= index < legacy.init_memory.len() ==> {
                &&& (#[trigger] executable.init_memory[index]).address_space
                    == legacy.init_memory[index].address_space
                &&& executable.init_memory[index].offset == legacy.init_memory[index].offset
                &&& executable.init_memory[index].value as int
                    == legacy.init_memory[index].value.value as int
            },
{
    assert forall|index: int| 0 <= index < legacy.init_memory.len() implies (
    #[trigger] executable.init_memory[index]).value as int
        == legacy.init_memory[index].value.value as int by {
        assert(byte_of(legacy.init_memory[index].value) is Some);
    }
}

/// No two cells of a legacy memory image share an address.
pub open spec fn legacy_addresses_distinct(cells: Seq<LegacyCell>) -> bool {
    forall|first: int, second: int|
        0 <= first < second < cells.len() ==> !((#[trigger] cells[first]).address_space == (
        #[trigger] cells[second]).address_space && cells[first].offset == cells[second].offset)
}

/// A legacy record whose addresses are distinct migrates to a well formed
/// executable, whose memory mapping has the addresses of the record and no
/// others.
pub proof fn lemma_migration_well_formed(legacy: LegacyExecutableView, executable: ExecutableView)
    requires
        legacy_addresses_distinct(legacy.init_memory),
        migrated(legacy) == Ok::<ExecutableView, MigrateError>(executable),
    ensures
        executable.wf(),
        forall|index: int|
            0 <= index < legacy.init_memory.len() ==> executable.memory().contains_pair(
                (
                    (#[trigger] legacy.init_memory[index]).address_space,
                    legacy.init_memory[index].offset,
                ),
                legacy.init_memory[index].value.value as u8,
            ),
        forall|address: (u32, u32)| #[trigger]
            executable.memory().contains_key(address) ==> exists|index: int|
                0 <= index < legacy.init_memory.len() && (
                #[trigger] legacy.init_memory[index]).address_space == address.0
                    && legacy.init_memory[index].offset == address.1,
{
    let cells = executable.init_memory;
    assert forall|first: int, second: int| 0 <= first < second < cells.len() implies !((
    #[trigger] cells[first]).address_space == (#[trigger] cells[second]).address_space
        && cells[first].offset == cells[second].offset) by {
        assert(legacy.init_memory[first].address_space == cells[first].address_space);
        assert(legacy.init_memory[second].address_space == cells[second].address_space);
    }
    assert forall|index: int| 0 <= index < legacy.init_memory.len() implies executable.memory().contains_pair(
        ((#[trigger] legacy.init_memory[index]).address_space, legacy.init_memory[index].offset),
        legacy.init_memory[index].value.value as u8,
    ) by {
        crate::executable::lemma_memory_map_cell(cells, index);
    }
    assert forall|address: (u32, u32)| #[trigger]
        executable.memory().contains_key(address) implies exists|index: int|
        0 <= index < legacy.init_memory.len() && (
        #[trigger] legacy.init_memory[index]).address_space == address.0
            && legacy.init_memory[index].offset == address.1 by {
        assert(addressed(cells, address.0, address.1));
        let index = choose|index: int|
            0 <= index < cells.len() && (#[trigger] cells[index]).address_space == address.0
                && cells[index].offset == address.1;
        assert(legacy.init_memory[index].address_space == address.0);
    }
}

/// The step of a legacy program plays no part in the migration.
pub proof fn lemma_step_is_dropped(legacy: LegacyExecutableView, step: u32)
    ensures
        migrated(LegacyExecutableView { step, ..legacy }) == migrated(legacy),
{
}

} // verus!
