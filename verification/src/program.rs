//! Instruction slots and their expansion from a compact listing.
//!
//! A program is an array of slots that the program counter addresses. The
//! compact listing names only the slots that hold an instruction, each with its
//! position, and states the length of the whole array beside them.
use vstd::prelude::*;
use crate::field::FieldElement;

verus! {

/// One instruction: an opcode and its seven operands.
#[derive(Clone, Copy, Debug, PartialEq, Eq, Structural)]
pub struct Instruction {
    pub opcode: usize,
    pub a: FieldElement,
    pub b: FieldElement,
    pub c: FieldElement,
    pub d: FieldElement,
    pub e: FieldElement,
    pub f: FieldElement,
    pub g: FieldElement,
}

/// What a toolchain recorded about the source of an instruction.
#[derive(Clone, Debug, PartialEq, Eq)]
pub struct DebugInfo {
    pub dsl_instruction: String,
}

/// One slot of a program.
#[derive(Clone, Debug, PartialEq, Eq)]
pub enum Slot {
    /// No instruction lives at this position.
    Absent,
    /// The instruction at this position, with its debug information if any.
    Present { instruction: Instruction, debug_info: Option<DebugInfo> },
}

/// One line of a compact listing: an instruction and the slot it belongs to.
#[derive(Clone, Debug, PartialEq, Eq)]
pub struct SparseEntry {
    pub instruction: Instruction,
    pub debug_info: Option<DebugInfo>,
    pub position: u32,
}

/// Why a compact listing cannot be expanded.
#[derive(Clone, Copy, Debug, PartialEq, Eq, Structural)]
pub enum ExpandError {
    /// The entry at `index` names a position at or beyond the declared length.
    PositionOutOfRange { index: usize, position: u32 },
    /// The entry at `index` names a position that an earlier entry has taken.
    DuplicatePosition { index: usize, position: u32 },
}

/// The entry at `index` names a slot outside an array of `total` slots.
pub open spec fn beyond_end(entries: Seq<SparseEntry>, total: nat, index: int) -> bool {
    entries[index].position >= total
}

/// The entry at `index` names a slot that an entry before it names too.
pub open spec fn repeats_earlier(entries: Seq<SparseEntry>, index: int) -> bool {
    exists|earlier: int| 0 <= earlier < index && entries[earlier].position == entries[index].position
}

/// The entry at `index` cannot be placed.
pub open spec fn faulty(entries: Seq<SparseEntry>, total: nat, index: int) -> bool {
    beyond_end(entries, total, index) || repeats_earlier(entries, index)
}

/// Every entry can be placed: all positions lie inside the array and no two
/// entries share one.
pub open spec fn placeable(entries: Seq<SparseEntry>, total: nat) -> bool {
    forall|index: int| 0 <= index < entries.len() ==> !faulty(entries, total, index)
}

/// The error that reports the faulty entry at `index`. A position that is both
/// out of range and repeated is reported as out of range.
pub open spec fn fault_at(entries: Seq<SparseEntry>, total: nat, index: int) -> ExpandError {
    if beyond_end(entries, total, index) {
        ExpandError::PositionOutOfRange {
            index: index as usize,
            position: entries[index].position,
        }
    } else {
        ExpandError::DuplicatePosition { index: index as usize, position: entries[index].position }
    }
}

/// The entry at `index` is faulty and no entry before it is.
pub open spec fn is_first_fault(entries: Seq<SparseEntry>, total: nat, index: int) -> bool {
    &&& 0 <= index < entries.len()
    &&& faulty(entries, total, index)
    &&& forall|before: int| 0 <= before < index ==> !faulty(entries, total, before)
}

/// The error that expanding `entries` into `total` slots ends in: none when
/// every entry can be placed, and otherwise the report of the first faulty
/// entry.
pub open spec fn expansion_fault(entries: Seq<SparseEntry>, total: nat) -> Option<ExpandError> {
    if placeable(entries, total) {
        None
    } else {
        Some(fault_at(entries, total, choose|index: int| is_first_fault(entries, total, index)))
    }
}

/// Some entry names `position`.
pub open spec fn occupied(entries: Seq<SparseEntry>, position: int) -> bool {
    exists|index: int| 0 <= index < entries.len() && entries[index].position == position
}

/// The slot at `position` of the array that `entries` describe: the entry that
/// names the position if there is one, and an absent slot otherwise.
pub open spec fn slot_at(entries: Seq<SparseEntry>, position: int) -> Slot {
    if occupied(entries, position) {
        let index = choose|index: int|
            0 <= index < entries.len() && entries[index].position == position;
        Slot::Present {
            instruction: entries[index].instruction,
            debug_info: entries[index].debug_info,
        }
    } else {
        Slot::Absent
    }
}

/// The array of `total` slots that `entries` describe.
pub open spec fn expanded(entries: Seq<SparseEntry>, total: nat) -> Seq<Slot> {
    Seq::new(total, |position: int| slot_at(entries, position))
}

/// The slot that the entry at `index` names holds that entry.
pub open spec fn holds_entry(slots: Seq<Slot>, entries: Seq<SparseEntry>, index: int) -> bool {
    &&& entries[index].position < slots.len()
    &&& slots[entries[index].position as int] == (Slot::Present {
        instruction: entries[index].instruction,
        debug_info: entries[index].debug_info,
    })
}

impl Slot {
    /// Reports whether the slot holds no instruction.
    pub fn is_absent(&self) -> (absent: bool)
        ensures
            absent == (*self is Absent),
    {
        match self {
            Slot::Absent => true,
            Slot::Present { .. } => false,
        }
    }
}

/// An array of `total` absent slots.
fn absent_slots(total: u32) -> (slots: Vec<Slot>)
    ensures
        slots@.len() == total,
        forall|position: int| 0 <= position < total ==> slots@[position] is Absent,
{
    let mut slots: Vec<Slot> = Vec::new();
    let mut made: u32 = 0;
    while made < total
        invariant
            made <= total,
            slots@.len() == made,
            forall|position: int| 0 <= position < made ==> slots@[position] is Absent,
        decreases total - made,
    {
        slots.push(Slot::Absent);
        made = made + 1;
    }
    slots
}

/// A listing has at most one first faulty entry, and the fault that its
/// expansion ends in is the report of that entry.
pub proof fn lemma_first_fault(entries: Seq<SparseEntry>, total: nat, index: int)
    requires
        is_first_fault(entries, total, index),
    ensures
        expansion_fault(entries, total) == Some(fault_at(entries, total, index)),
{
    let chosen = choose|chosen: int| is_first_fault(entries, total, chosen);
    assert(is_first_fault(entries, total, chosen));
    if chosen < index {
        assert(!faulty(entries, total, chosen));
    } else if index < chosen {
        assert(!faulty(entries, total, index));
    }
}

/// What the expansion of a placeable listing holds: it has the declared
/// length, the slot that an entry names holds that entry, and every slot that
/// no entry names is absent.
pub proof fn lemma_expanded_slots(entries: Seq<SparseEntry>, total: nat)
    requires
        placeable(entries, total),
    ensures
        expanded(entries, total).len() == total,
        forall|index: int|
            0 <= index < entries.len() ==> #[trigger] holds_entry(
                expanded(entries, total),
                entries,
                index,
            ),
        forall|position: int|
            0 <= position < total && !occupied(entries, position) ==> (#[trigger] expanded(
                entries,
                total,
            )[position]) is Absent,
{
    assert forall|index: int| 0 <= index < entries.len() implies #[trigger] holds_entry(
        expanded(entries, total),
        entries,
        index,
    ) by {
        let position = entries[index].position as int;
        assert(!faulty(entries, total, index));
        assert(occupied(entries, position));
        let chosen = choose|chosen: int|
            0 <= chosen < entries.len() && entries[chosen].position == position;
        if chosen < index {
            assert(!faulty(entries, total, index));
        } else if index < chosen {
            assert(!faulty(entries, total, chosen));
        }
    }
}

/// Expands a compact listing into an array of `total_len` slots.
///
/// Every slot is absent unless an entry names it, and then it holds that
/// entry's instruction and debug information. Positions may come in any order.
/// The listing is refused when an entry names a position at or beyond
/// `total_len`, or one that an earlier entry has named already; the error
/// reports the first such entry. Nothing is overwritten silently.
pub fn expand(entries: Vec<SparseEntry>, total_len: u32) -> (outcome: Result<Vec<Slot>, ExpandError>)
    ensures
        match outcome {
            Ok(slots) => expansion_fault(entries@, total_len as nat) is None && slots@ == expanded(
                entries@,
                total_len as nat,
            ),
            Err(fault) => expansion_fault(entries@, total_len as nat) == Some(fault),
        },
{
    let ghost listing = entries@;
    let ghost total = total_len as nat;
    let count: usize = entries.len();
    let mut slots = absent_slots(total_len);
    let mut index: usize = 0;
    for entry in walk: entries.into_iter()
        invariant
            index == walk.index(),
            walk.seq() == listing,
            listing.len() == count,
            total == total_len as nat,
            slots@.len() == total,
            forall|done: int| 0 <= done < index ==> !faulty(listing, total, done),
            forall|done: int| 0 <= done < index ==> #[trigger] holds_entry(slots@, listing, done),
            forall|position: int|
                0 <= position < total && (#[trigger] slots@[position]) !is Absent ==> exists|
                    done: int,
                | 0 <= done < index && listing[done].position == position,
    {
        assert(entry == listing[index as int]);
        let position = entry.position;
        if position >= total_len {
            proof {
                lemma_first_fault(listing, total, index as int);
            }
            return Err(ExpandError::PositionOutOfRange { index, position });
        }
        if !slots[position as usize].is_absent() {
            proof {
                lemma_first_fault(listing, total, index as int);
            }
            return Err(ExpandError::DuplicatePosition { index, position });
        }
        assert forall|done: int| 0 <= done < index implies listing[done].position
            != position by {
            assert(holds_entry(slots@, listing, done));
        }
        let ghost before = slots@;
        slots.set(
            position as usize,
            Slot::Present { instruction: entry.instruction, debug_info: entry.debug_info },
        );
        assert forall|done: int| 0 <= done < index + 1 implies #[trigger] holds_entry(
            slots@,
            listing,
            done,
        ) by {
            if done < index {
                assert(holds_entry(before, listing, done));
            }
        }
        assert forall|place: int|
            0 <= place < total && (#[trigger] slots@[place]) !is Absent implies exists|done: int|
            0 <= done < index + 1 && listing[done].position == place by {
            if place != position {
                assert(before[place] !is Absent);
            }
        }
        index = index + 1;
    }
    proof {
        assert(slots@ =~= expanded(listing, total)) by {
            assert forall|position: int| 0 <= position < total implies slots@[position] == slot_at(
                listing,
                position,
            ) by {
                if occupied(listing, position) {
                    let holder = choose|holder: int|
                        0 <= holder < listing.len() && listing[holder].position == position;
                    assert(holds_entry(slots@, listing, holder));
                } else {
                    if slots@[position] !is Absent {
                        let done = choose|done: int|
                            0 <= done < index && listing[done].position == position;
                        assert(occupied(listing, position));
                    }
                }
            }
        }
    }
    Ok(slots)
}

} // verus!
