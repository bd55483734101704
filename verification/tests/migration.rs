use prover_inputs::executable::{Executable, FnBound, MemoryCell, Program};
use prover_inputs::field::FieldElement;
use prover_inputs::legacy::{
    migrate, narrow_memory, LegacyCell, LegacyEntry, LegacyExecutable, LegacyProgram,
    MemoryFault, MigrateError,
};
use prover_inputs::program::{ExpandError, Instruction, Slot};

fn op(opcode: usize) -> Instruction {
    let operand = |value: u32| FieldElement { value };
    Instruction {
        opcode,
        a: operand(10),
        b: operand(20),
        c: operand(30),
        d: operand(40),
        e: operand(50),
        f: operand(0),
        g: operand(0),
    }
}

fn cell(address_space: u32, offset: u32, value: u32) -> LegacyCell {
    LegacyCell {
        address_space,
        offset,
        value: FieldElement { value },
    }
}

fn bound(address: u32, name: &str) -> FnBound {
    FnBound {
        address,
        start: address,
        end: address + 16,
        name: String::from(name),
    }
}

fn record(cells: Vec<LegacyCell>) -> LegacyExecutable {
    LegacyExecutable {
        program: LegacyProgram {
            entries: vec![
                LegacyEntry {
                    instruction: op(100),
                    position: 5,
                },
                LegacyEntry {
                    instruction: op(101),
                    position: 2,
                },
            ],
            total_len: 8,
            step: 4,
            pc_base: 0x20_0000,
        },
        pc_start: 0x20_0008,
        init_memory: cells,
        fn_bounds: vec![bound(0x20_0000, "main"), bound(0x20_0010, "helper")],
    }
}

#[test]
fn legacy_record_migrates_field_by_field() {
    let executable = migrate(record(vec![cell(2, 0, 1), cell(2, 4, 17), cell(3, 0, 255)])).unwrap();
    let mut slots = vec![Slot::Absent; 8];
    slots[5] = Slot::Present {
        instruction: op(100),
        debug_info: None,
    };
    slots[2] = Slot::Present {
        instruction: op(101),
        debug_info: None,
    };
    assert_eq!(
        executable,
        Executable {
            program: Program {
                instructions: slots,
                pc_base: 0x20_0000,
            },
            pc_start: 0x20_0008,
            init_memory: vec![
                MemoryCell {
                    address_space: 2,
                    offset: 0,
                    value: 1
                },
                MemoryCell {
                    address_space: 2,
                    offset: 4,
                    value: 17
                },
                MemoryCell {
                    address_space: 3,
                    offset: 0,
                    value: 255
                },
            ],
            fn_bounds: vec![bound(0x20_0000, "main"), bound(0x20_0010, "helper")],
        }
    );
}

#[test]
fn memory_value_255_migrates_to_byte_255() {
    let executable = migrate(record(vec![cell(2, 8, 255)])).unwrap();
    assert_eq!(
        executable.init_memory,
        vec![MemoryCell {
            address_space: 2,
            offset: 8,
            value: 255
        }]
    );
    assert_eq!(executable.memory_byte(2, 8), Some(255));
}

#[test]
fn memory_value_256_fails_the_whole_migration() {
    assert_eq!(
        migrate(record(vec![cell(2, 0, 3), cell(2, 8, 256), cell(2, 12, 4)])),
        Err(MigrateError::Memory(MemoryFault {
            index: 1,
            address_space: 2,
            offset: 8,
            value: 256
        }))
    );
}

#[test]
fn the_first_wide_value_is_the_one_reported() {
    assert_eq!(
        narrow_memory(&vec![cell(1, 0, 0), cell(1, 1, 70_000), cell(1, 2, 300)]),
        Err(MemoryFault {
            index: 1,
            address_space: 1,
            offset: 1,
            value: 70_000
        })
    );
}

#[test]
fn narrowing_keeps_addresses_and_order() {
    assert_eq!(
        narrow_memory(&vec![cell(9, 7, 0), cell(1, 3, 200), cell(4, 4, 44)]),
        Ok(vec![
            MemoryCell {
                address_space: 9,
                offset: 7,
                value: 0
            },
            MemoryCell {
                address_space: 1,
                offset: 3,
                value: 200
            },
            MemoryCell {
                address_space: 4,
                offset: 4,
                value: 44
            },
        ])
    );
}

#[test]
fn empty_memory_image_narrows_to_an_empty_one() {
    assert_eq!(narrow_memory(&vec![]), Ok(vec![]));
}

#[test]
fn migrating_twice_gives_identical_executables() {
    let legacy = record(vec![cell(2, 0, 1), cell(2, 4, 2)]);
    let first = migrate(legacy.clone());
    let second = migrate(legacy);
    assert!(first.is_ok());
    assert_eq!(first, second);
}

#[test]
fn migrating_twice_gives_identical_faults() {
    let legacy = record(vec![cell(2, 0, 1000)]);
    let first = migrate(legacy.clone());
    let second = migrate(legacy);
    assert!(first.is_err());
    assert_eq!(first, second);
}

#[test]
fn the_step_plays_no_part() {
    let mut other = record(vec![cell(2, 0, 1)]);
    other.program.step = 1;
    assert_eq!(migrate(other), migrate(record(vec![cell(2, 0, 1)])));
}

#[test]
fn a_listing_fault_fails_the_migration() {
    let mut legacy = record(vec![cell(2, 0, 1)]);
    legacy.program.total_len = 5;
    assert_eq!(
        migrate(legacy),
        Err(MigrateError::Program(ExpandError::PositionOutOfRange {
            index: 0,
            position: 5
        }))
    );
}

#[test]
fn a_listing_fault_is_reported_before_a_memory_fault() {
    let mut legacy = record(vec![cell(2, 0, 256)]);
    legacy.program.entries.push(LegacyEntry {
        instruction: op(102),
        position: 2,
    });
    assert_eq!(
        migrate(legacy),
        Err(MigrateError::Program(ExpandError::DuplicatePosition {
            index: 2,
            position: 2
        }))
    );
}

#[test]
fn memory_lookup_finds_each_cell_and_nothing_else() {
    let executable = migrate(record(vec![cell(2, 0, 11), cell(2, 4, 22), cell(3, 0, 33)])).unwrap();
    assert_eq!(executable.memory_byte(2, 0), Some(11));
    assert_eq!(executable.memory_byte(2, 4), Some(22));
    assert_eq!(executable.memory_byte(3, 0), Some(33));
    assert_eq!(executable.memory_byte(3, 4), None);
    assert_eq!(executable.memory_byte(0, 0), None);
}
