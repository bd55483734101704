use prover_inputs::field::FieldElement;
use prover_inputs::program::{expand, DebugInfo, ExpandError, Instruction, Slot, SparseEntry};

fn instruction(opcode: usize) -> Instruction {
    let operand = |value: u32| FieldElement { value };
    Instruction {
        opcode,
        a: operand(1),
        b: operand(2),
        c: operand(3),
        d: operand(4),
        e: operand(5),
        f: operand(6),
        g: operand(7),
    }
}

fn entry(opcode: usize, position: u32) -> SparseEntry {
    SparseEntry {
        instruction: instruction(opcode),
        debug_info: None,
        position,
    }
}

fn present(opcode: usize) -> Slot {
    Slot::Present {
        instruction: instruction(opcode),
        debug_info: None,
    }
}

#[test]
fn two_entries_expand_into_eight_slots() {
    let slots = expand(vec![entry(100, 5), entry(101, 2)], 8).unwrap();
    assert_eq!(slots.len(), 8);
    assert_eq!(slots[2], present(101));
    assert_eq!(slots[5], present(100));
    for position in [0usize, 1, 3, 4, 6, 7] {
        assert_eq!(slots[position], Slot::Absent);
    }
}

#[test]
fn empty_listing_expands_to_absent_slots() {
    let slots = expand(vec![], 4).unwrap();
    assert_eq!(slots, vec![Slot::Absent, Slot::Absent, Slot::Absent, Slot::Absent]);
}

#[test]
fn empty_listing_of_length_zero_expands_to_nothing() {
    assert_eq!(expand(vec![], 0), Ok(vec![]));
}

#[test]
fn full_listing_in_reverse_order_fills_every_slot() {
    let slots = expand(vec![entry(12, 2), entry(11, 1), entry(10, 0)], 3).unwrap();
    assert_eq!(slots, vec![present(10), present(11), present(12)]);
}

#[test]
fn last_slot_can_be_named() {
    let slots = expand(vec![entry(9, 3)], 4).unwrap();
    assert_eq!(slots[3], present(9));
    assert!(slots[3].is_absent() == false);
    assert!(slots[0].is_absent());
}

#[test]
fn debug_information_stays_with_its_instruction() {
    let info = DebugInfo {
        dsl_instruction: String::from("add x y"),
    };
    let listed = SparseEntry {
        instruction: instruction(3),
        debug_info: Some(info.clone()),
        position: 1,
    };
    let slots = expand(vec![listed, entry(4, 0)], 2).unwrap();
    assert_eq!(
        slots[1],
        Slot::Present {
            instruction: instruction(3),
            debug_info: Some(info),
        }
    );
    assert_eq!(slots[0], present(4));
}

#[test]
fn position_at_the_declared_length_is_refused() {
    assert_eq!(
        expand(vec![entry(1, 0), entry(2, 8)], 8),
        Err(ExpandError::PositionOutOfRange {
            index: 1,
            position: 8
        })
    );
}

#[test]
fn any_position_is_out_of_range_for_length_zero() {
    assert_eq!(
        expand(vec![entry(1, 0)], 0),
        Err(ExpandError::PositionOutOfRange {
            index: 0,
            position: 0
        })
    );
}

#[test]
fn repeated_position_is_refused_not_overwritten() {
    assert_eq!(
        expand(vec![entry(1, 3), entry(2, 1), entry(3, 3)], 8),
        Err(ExpandError::DuplicatePosition {
            index: 2,
            position: 3
        })
    );
}

#[test]
fn the_first_faulty_entry_is_the_one_reported() {
    assert_eq!(
        expand(vec![entry(1, 3), entry(2, 3), entry(3, 99)], 8),
        Err(ExpandError::DuplicatePosition {
            index: 1,
            position: 3
        })
    );
    assert_eq!(
        expand(vec![entry(1, 3), entry(3, 99), entry(2, 3)], 8),
        Err(ExpandError::PositionOutOfRange {
            index: 1,
            position: 99
        })
    );
}

#[test]
fn repeated_position_beyond_the_end_is_out_of_range() {
    assert_eq!(
        expand(vec![entry(1, 9), entry(2, 9)], 4),
        Err(ExpandError::PositionOutOfRange {
            index: 0,
            position: 9
        })
    );
}
