use prover_inputs::executable::{Executable, FnBound, MemoryCell, Program};
use prover_inputs::field::FieldElement;
use prover_inputs::legacy::{
    LegacyCell, LegacyEntry, LegacyExecutable, LegacyProgram, MemoryFault, MigrateError,
};
use prover_inputs::loader::{advance, begin, LoadError, LoadEvent, LoadRequest, LoadState, LoadStep};
use prover_inputs::program::{DebugInfo, Instruction, Slot};

fn word(opcode: usize) -> Instruction {
    let operand = |value: u32| FieldElement { value };
    Instruction {
        opcode,
        a: operand(1),
        b: operand(0),
        c: operand(0),
        d: operand(0),
        e: operand(0),
        f: operand(0),
        g: operand(0),
    }
}

fn modern() -> Executable {
    Executable {
        program: Program {
            instructions: vec![
                Slot::Present {
                    instruction: word(1),
                    debug_info: Some(DebugInfo {
                        dsl_instruction: String::from("halt"),
                    }),
                },
                Slot::Absent,
                Slot::Present {
                    instruction: word(2),
                    debug_info: None,
                },
            ],
            pc_base: 64,
        },
        pc_start: 72,
        init_memory: vec![MemoryCell {
            address_space: 2,
            offset: 16,
            value: 200,
        }],
        fn_bounds: vec![FnBound {
            address: 64,
            start: 64,
            end: 76,
            name: String::from("entry"),
        }],
    }
}

fn legacy(value: u32) -> LegacyExecutable {
    LegacyExecutable {
        program: LegacyProgram {
            entries: vec![LegacyEntry {
                instruction: word(7),
                position: 1,
            }],
            total_len: 2,
            step: 4,
            pc_base: 0,
        },
        pc_start: 4,
        init_memory: vec![LegacyCell {
            address_space: 2,
            offset: 0,
            value: FieldElement { value },
        }],
        fn_bounds: vec![],
    }
}

#[test]
fn a_load_starts_by_reading_the_file() {
    assert_eq!(
        begin(String::from("fixtures/app.vmexe")),
        LoadStep::Ask(
            LoadState::Reading {
                path: String::from("fixtures/app.vmexe")
            },
            LoadRequest::ReadFile
        )
    );
}

#[test]
fn a_file_that_was_read_is_decoded_in_the_current_schema_first() {
    let state = LoadState::Reading {
        path: String::from("a"),
    };
    assert_eq!(
        advance(state, LoadEvent::FileRead),
        LoadStep::Ask(LoadState::DecodingModern, LoadRequest::DecodeModern)
    );
}

#[test]
fn an_unreadable_file_is_reported_with_its_path() {
    let state = LoadState::Reading {
        path: String::from("fixtures/none.vmexe"),
    };
    assert_eq!(
        advance(state, LoadEvent::FileUnreadable(String::from("not found"))),
        LoadStep::Done(Err(LoadError::Unreadable {
            path: String::from("fixtures/none.vmexe"),
            reason: String::from("not found"),
        }))
    );
}

#[test]
fn a_modern_executable_is_delivered_unchanged() {
    assert_eq!(
        advance(LoadState::DecodingModern, LoadEvent::ModernDecoded(modern())),
        LoadStep::Done(Ok(modern()))
    );
}

#[test]
fn a_modern_rejection_leads_to_the_legacy_schema() {
    assert_eq!(
        advance(
            LoadState::DecodingModern,
            LoadEvent::ModernRejected(String::from("bad tag"))
        ),
        LoadStep::Ask(LoadState::DecodingLegacy, LoadRequest::DecodeLegacy)
    );
}

#[test]
fn a_legacy_record_is_migrated() {
    let delivered = advance(LoadState::DecodingLegacy, LoadEvent::LegacyDecoded(legacy(9)));
    assert_eq!(
        delivered,
        LoadStep::Done(Ok(Executable {
            program: Program {
                instructions: vec![
                    Slot::Absent,
                    Slot::Present {
                        instruction: word(7),
                        debug_info: None
                    }
                ],
                pc_base: 0,
            },
            pc_start: 4,
            init_memory: vec![MemoryCell {
                address_space: 2,
                offset: 0,
                value: 9
            }],
            fn_bounds: vec![],
        }))
    );
}

#[test]
fn a_legacy_record_with_a_wide_value_fails_the_load() {
    assert_eq!(
        advance(LoadState::DecodingLegacy, LoadEvent::LegacyDecoded(legacy(256))),
        LoadStep::Done(Err(LoadError::Integrity(MigrateError::Memory(MemoryFault {
            index: 0,
            address_space: 2,
            offset: 0,
            value: 256,
        }))))
    );
}

#[test]
fn when_both_schemas_reject_the_legacy_reason_surfaces() {
    let mut step = begin(String::from("fixtures/garbage.vmexe"));
    let events = vec![
        LoadEvent::FileRead,
        LoadEvent::ModernRejected(String::from("modern: unexpected end")),
        LoadEvent::LegacyRejected(String::from("legacy: invalid length")),
    ];
    let mut requests = vec![];
    for event in events {
        match step {
            LoadStep::Ask(state, request) => {
                requests.push(request);
                step = advance(state, event);
            }
            LoadStep::Done(_) => panic!("the load ended early"),
        }
    }
    assert_eq!(
        requests,
        vec![
            LoadRequest::ReadFile,
            LoadRequest::DecodeModern,
            LoadRequest::DecodeLegacy
        ]
    );
    assert_eq!(
        step,
        LoadStep::Done(Err(LoadError::LegacySchema(String::from(
            "legacy: invalid length"
        ))))
    );
}

#[test]
fn an_event_out_of_turn_ends_the_load() {
    assert_eq!(
        advance(LoadState::DecodingModern, LoadEvent::LegacyDecoded(legacy(1))),
        LoadStep::Done(Err(LoadError::OutOfTurn))
    );
    assert_eq!(
        advance(LoadState::DecodingLegacy, LoadEvent::ModernDecoded(modern())),
        LoadStep::Done(Err(LoadError::OutOfTurn))
    );
    assert_eq!(
        advance(
            LoadState::Reading {
                path: String::from("a")
            },
            LoadEvent::LegacyRejected(String::from("x"))
        ),
        LoadStep::Done(Err(LoadError::OutOfTurn))
    );
    assert_eq!(
        advance(LoadState::DecodingLegacy, LoadEvent::FileRead),
        LoadStep::Done(Err(LoadError::OutOfTurn))
    );
}
