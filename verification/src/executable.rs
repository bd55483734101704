//! The executable that the proving engine runs.
use vstd::prelude::*;
use crate::program::Slot;

verus! {

/// A program: its slots, and the address of the first of them.
#[derive(Clone, Debug, PartialEq, Eq)]
pub struct Program {
    pub instructions: Vec<Slot>,
    pub pc_base: u32,
}

/// One byte of the initial memory image, at `offset` in `address_space`.
#[derive(Clone, Copy, Debug, PartialEq, Eq, Structural)]
pub struct MemoryCell {
    pub address_space: u32,
    pub offset: u32,
    pub value: u8,
}

/// The address range of one function, filed under `address`. The ranges are
/// carried along and never interpreted here.
#[derive(Clone, Debug, PartialEq, Eq)]
pub struct FnBound {
    pub address: u32,
    pub start: u32,
    pub end: u32,
    pub name: String,
}

/// A program with its entry point, its initial memory and its function ranges.
#[derive(Clone, Debug, PartialEq, Eq)]
pub struct Executable {
    pub program: Program,
    pub pc_start: u32,
    pub init_memory: Vec<MemoryCell>,
    pub fn_bounds: Vec<FnBound>,
}

/// What an executable holds, as plain sequences.
pub struct ExecutableView {
    pub instructions: Seq<Slot>,
    pub pc_base: u32,
    pub pc_start: u32,
    pub init_memory: Seq<MemoryCell>,
    pub fn_bounds: Seq<FnBound>,
}

impl View for Executable {
    type V = ExecutableView;

    open spec fn view(&self) -> ExecutableView {
        ExecutableView {
            instructions: self.program.instructions@,
            pc_base: self.program.pc_base,
            pc_start: self.pc_start,
            init_memory: self.init_memory@,
            fn_bounds: self.fn_bounds@,
        }
    }
}

/// Some cell of `cells` lies at `offset` in `address_space`.
pub open spec fn addressed(cells: Seq<MemoryCell>, address_space: u32, offset: u32) -> bool {
    exists|index: int|
        0 <= index < cells.len() && (#[trigger] cells[index]).address_space == address_space
            && cells[index].offset == offset
}

/// No two cells of `cells` share an address.
pub open spec fn addresses_distinct(cells: Seq<MemoryCell>) -> bool {
    forall|first: int, second: int|
        0 <= first < second < cells.len() ==> !((#[trigger] cells[first]).address_space == (
        #[trigger] cells[second]).address_space && cells[first].offset == cells[second].offset)
}

/// The memory image as a mapping from `(address_space, offset)` to the byte
/// stored there.
pub open spec fn memory_map(cells: Seq<MemoryCell>) -> Map<(u32, u32), u8> {
    Map::new(
        |address: (u32, u32)| addressed(cells, address.0, address.1),
        |address: (u32, u32)|
            {
                let index = choose|index: int|
                    0 <= index < cells.len() && (#[trigger] cells[index]).address_space
                        == address.0 && cells[index].offset == address.1;
                cells[index].value
            },
    )
}

impl ExecutableView {
    /// The executable is well formed: every address of its memory image
    /// occurs once.
    pub open spec fn wf(self) -> bool {
        addresses_distinct(self.init_memory)
    }

    /// The initial memory as a mapping.
    pub open spec fn memory(self) -> Map<(u32, u32), u8> {
        memory_map(self.init_memory)
    }
}

/// The cell at `index` lies at `offset` in `address_space`, and no cell before
/// it does.
pub open spec fn is_first_at(
    cells: Seq<MemoryCell>,
    address_space: u32,
    offset: u32,
    index: int,
) -> bool {
    &&& 0 <= index < cells.len()
    &&& cells[index].address_space == address_space
    &&& cells[index].offset == offset
    &&& forall|before: int|
        0 <= before < index ==> !((#[trigger] cells[before]).address_space == address_space
            && cells[before].offset == offset)
}

impl Executable {
    /// Looks up the byte that the initial memory holds at `offset` in
    /// `address_space`.
    ///
    /// The answer is the byte of the first cell at that address. In a well
    /// formed executable that cell is the only one, and the answer is what the
    /// mapping holds there.
    pub fn memory_byte(&self, address_space: u32, offset: u32) -> (found: Option<u8>)
        ensures
            match found {
                Some(byte) => {
                    &&& exists|index: int|
                        #[trigger] is_first_at(self@.init_memory, address_space, offset, index)
                            && self@.init_memory[index].value == byte
                    &&& self@.wf() ==> self@.memory().contains_pair((address_space, offset), byte)
                },
                None => !self@.memory().contains_key((address_space, offset)),
            },
    {
        let mut index: usize = 0;
        while index < self.init_memory.len()
            invariant
                index <= self.init_memory@.len(),
                forall|seen: int|
                    0 <= seen < index ==> !((#[trigger] self.init_memory@[seen]).address_space
                        == address_space && self.init_memory@[seen].offset == offset),
            decreases self.init_memory@.len() - index,
        {
            let cell = self.init_memory[index];
            if cell.address_space == address_space && cell.offset == offset {
                proof {
                    assert(is_first_at(self@.init_memory, address_space, offset, index as int));
                    if self@.wf() {
                        lemma_memory_map_cell(self.init_memory@, index as int);
                    }
                }
                return Some(cell.value);
            }
            index = index + 1;
        }
        None
    }
}

/// In a memory image whose addresses are distinct, the mapping holds each
/// cell's byte at that cell's address.
pub proof fn lemma_memory_map_cell(cells: Seq<MemoryCell>, index: int)
    requires
        addresses_distinct(cells),
        0 <= index < cells.len(),
    ensures
        memory_map(cells).contains_pair(
            (cells[index].address_space, cells[index].offset),
            cells[index].value,
        ),
{
    let address = (cells[index].address_space, cells[index].offset);
    assert(addressed(cells, address.0, address.1));
    let chosen = choose|chosen: int|
        0 <= chosen < cells.len() && (#[trigger] cells[chosen]).address_space == address.0
            && cells[chosen].offset == address.1;
    if chosen < index {
        assert(cells[chosen].address_space == cells[index].address_space);
    } else if index < chosen {
        assert(cells[chosen].address_space == cells[index].address_space);
    }
}

} // verus!
