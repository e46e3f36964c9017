use wasm_lowering::codegen::table::{
    build_table, generate_table_initialization_stub, TABLE_NAME, TABLE_SIZE,
};
use wasm_lowering::error::CodegenError;
use wasm_lowering::native::{GlobalContent, NativeModule};
use wasm_lowering::types::ResizableLimits;
use wasm_lowering::wasm::{Instruction, TableInitializer};

fn limits(initial: u32, maximum: Option<u32>) -> ResizableLimits {
    ResizableLimits { initial, maximum }
}

fn elements(offset: i32, functions: Vec<u32>) -> TableInitializer {
    TableInitializer {
        offset_expression: vec![Instruction::I32Const(offset)],
        function_indexes: functions,
    }
}

fn handles(count: usize) -> Vec<usize> {
    (0..count).collect()
}

#[test]
fn table_has_1024_slots() {
    assert_eq!(TABLE_SIZE, 1024);
    let table = build_table(&limits(0, None), &handles(0), &vec![]).unwrap();
    assert_eq!(table, vec![None; 1024]);
}

#[test]
fn function_three_at_slot_five() {
    let table = build_table(&limits(10, Some(10)), &handles(4), &vec![elements(5, vec![3])])
        .unwrap();
    assert_eq!(table.len(), 1024);
    assert_eq!(table[5], Some(3));
    for (slot, entry) in table.iter().enumerate() {
        if slot != 5 {
            assert_eq!(*entry, None);
        }
    }
}

#[test]
fn entries_fill_the_slots_from_the_offset_on() {
    let table =
        build_table(&limits(8, None), &handles(3), &vec![elements(2, vec![2, 0, 1, 1])]).unwrap();
    assert_eq!(&table[..7], &[None, None, Some(2), Some(0), Some(1), Some(1), None]);
}

#[test]
fn entries_are_the_handles_of_the_prototypes() {
    let table =
        build_table(&limits(8, None), &vec![10, 11, 12], &vec![elements(0, vec![2, 0])]).unwrap();
    assert_eq!(&table[..3], &[Some(12), Some(10), None]);
}

#[test]
fn later_element_segment_wins() {
    let table = build_table(
        &limits(8, None),
        &handles(5),
        &vec![elements(0, vec![1, 1, 1]), elements(1, vec![4])],
    )
    .unwrap();
    assert_eq!(&table[..4], &[Some(1), Some(4), Some(1), None]);
}

#[test]
fn declared_size_above_the_ceiling_is_refused() {
    assert_eq!(
        build_table(&limits(2000, None), &handles(1), &vec![]),
        Err(CodegenError::TableTooLarge)
    );
    assert_eq!(
        build_table(&limits(1025, Some(1025)), &handles(1), &vec![]),
        Err(CodegenError::TableTooLarge)
    );
    assert_eq!(
        build_table(&limits(1, Some(1025)), &handles(1), &vec![]),
        Err(CodegenError::TableTooLarge)
    );
    assert!(build_table(&limits(1024, Some(1024)), &handles(1), &vec![]).is_ok());
    assert!(build_table(&limits(1024, None), &handles(1), &vec![]).is_ok());
}

#[test]
fn size_is_tested_before_the_segments() {
    assert_eq!(
        build_table(&limits(2000, None), &handles(1), &vec![elements(0, vec![7])]),
        Err(CodegenError::TableTooLarge)
    );
}

#[test]
fn faults_of_element_segments() {
    let ok = elements(0, vec![0]);
    assert_eq!(
        build_table(
            &limits(1, None),
            &handles(1),
            &vec![
                ok.clone(),
                TableInitializer { offset_expression: vec![], function_indexes: vec![] },
            ]
        ),
        Err(CodegenError::NonConstantElementOffset { segment: 1 })
    );
    assert_eq!(
        build_table(
            &limits(1, None),
            &handles(1),
            &vec![TableInitializer {
                offset_expression: vec![Instruction::F32Const(0)],
                function_indexes: vec![0],
            }]
        ),
        Err(CodegenError::ElementOffsetNotI32 { segment: 0 })
    );
    assert_eq!(
        build_table(
            &limits(1, None),
            &handles(1),
            &vec![TableInitializer {
                offset_expression: vec![Instruction::I64Const(0)],
                function_indexes: vec![0],
            }]
        ),
        Err(CodegenError::ElementOffsetNotI32 { segment: 0 })
    );
    assert_eq!(
        build_table(&limits(1, None), &handles(1), &vec![ok.clone(), elements(1024, vec![0])]),
        Err(CodegenError::ElementOutOfBounds { segment: 1 })
    );
    assert_eq!(
        build_table(&limits(1, None), &handles(1), &vec![elements(-1, vec![0])]),
        Err(CodegenError::ElementOutOfBounds { segment: 0 })
    );
    assert_eq!(
        build_table(&limits(1, None), &handles(1), &vec![elements(1023, vec![0, 0])]),
        Err(CodegenError::ElementOutOfBounds { segment: 0 })
    );
    assert_eq!(
        build_table(&limits(1, None), &handles(1), &vec![ok.clone(), ok, elements(3, vec![0, 1])]),
        Err(CodegenError::UnknownFunction { segment: 2 })
    );
}

#[test]
fn last_slot_can_be_filled() {
    let table =
        build_table(&limits(1024, None), &handles(1), &vec![elements(1023, vec![0])]).unwrap();
    assert_eq!(table[1023], Some(0));
}

#[test]
fn slot_outside_comes_before_an_unknown_function() {
    assert_eq!(
        build_table(&limits(1, None), &handles(1), &vec![elements(2000, vec![9])]),
        Err(CodegenError::ElementOutOfBounds { segment: 0 })
    );
}

#[test]
fn empty_element_segment_fills_nothing() {
    let table = build_table(&limits(1, None), &handles(0), &vec![elements(-5, vec![])]).unwrap();
    assert_eq!(table, vec![None; 1024]);
}

#[test]
fn table_becomes_one_constant_global() {
    let mut module = NativeModule::new("m".to_string());
    let handle = generate_table_initialization_stub(
        &mut module,
        &limits(6, None),
        &handles(4),
        vec![elements(5, vec![3])],
    )
    .unwrap();
    assert_eq!(handle, 0);
    assert_eq!(module.globals.len(), 1);
    assert_eq!(module.globals[0].name, TABLE_NAME);
    assert!(module.globals[0].constant);
    match &module.globals[0].content {
        GlobalContent::FunctionPointers(slots) => {
            assert_eq!(slots.len(), 1024);
            assert_eq!(slots[5], Some(3));
            assert_eq!(slots.iter().filter(|s| s.is_some()).count(), 1);
        }
        other => panic!("not a table: {:?}", other),
    }
}

#[test]
fn module_is_untouched_without_a_table() {
    let mut module = NativeModule::new("m".to_string());
    let before = module.clone();
    assert_eq!(
        generate_table_initialization_stub(&mut module, &limits(2000, None), &handles(1), vec![]),
        Err(CodegenError::TableTooLarge)
    );
    assert_eq!(module, before);
}
