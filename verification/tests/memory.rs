use wasm_lowering::codegen::memory::{
    add_memory_size_globals, build_memory_image, copy_instructions, evaluate_offset,
    generate_linear_memory_simulation, generate_memory_initialization_stub,
    generate_offset_function, MemoryInitialization, OffsetFault, Region, LINEAR_MEMORY_NAME,
    PAGE_SIZE,
};
use wasm_lowering::error::CodegenError;
use wasm_lowering::native::{
    Constant, GlobalContent, NativeFunction, NativeGlobal, NativeModule,
};
use wasm_lowering::types::{FuncType, ResizableLimits, ValueType};
use wasm_lowering::wasm::{DataInitializer, ImplementedFunction, Instruction};

fn segment(offset: i32, bytes: Vec<u8>) -> DataInitializer {
    DataInitializer { offset_expression: vec![Instruction::I32Const(offset)], body: vec![bytes] }
}

#[test]
fn page_size_is_64_kib() {
    assert_eq!(PAGE_SIZE, 64 * 1024);
}

#[test]
fn offset_of_integer_constants() {
    assert_eq!(evaluate_offset(&vec![Instruction::I32Const(12)]), Ok(12));
    assert_eq!(evaluate_offset(&vec![Instruction::I32Const(-1)]), Ok(-1));
    assert_eq!(evaluate_offset(&vec![Instruction::I32Const(i32::MAX)]), Ok(i32::MAX));
    assert_eq!(evaluate_offset(&vec![Instruction::I32Const(i32::MIN)]), Ok(i32::MIN));
}

#[test]
fn offset_of_a_64_bit_constant_is_a_fault() {
    assert_eq!(evaluate_offset(&vec![Instruction::I64Const(0)]), Err(OffsetFault::NotI32));
    assert_eq!(evaluate_offset(&vec![Instruction::I64Const(70000)]), Err(OffsetFault::NotI32));
    assert_eq!(
        evaluate_offset(&vec![Instruction::I64Const((1 << 32) + 5)]),
        Err(OffsetFault::NotI32)
    );
    assert_eq!(evaluate_offset(&vec![Instruction::I64Const(-3)]), Err(OffsetFault::NotI32));
    let initializers = vec![DataInitializer {
        offset_expression: vec![Instruction::I64Const(0)],
        body: vec![vec![1]],
    }];
    assert_eq!(
        build_memory_image(&initializers),
        Err(CodegenError::OffsetNotI32 { segment: 0 })
    );
    let mut module = NativeModule::new("m".to_string());
    assert_eq!(
        generate_linear_memory_simulation(&mut module, initializers),
        Err(CodegenError::OffsetNotI32 { segment: 0 })
    );
    assert!(module.globals.is_empty());
}

#[test]
fn offset_faults() {
    assert_eq!(evaluate_offset(&vec![]), Err(OffsetFault::NotConstant));
    assert_eq!(
        evaluate_offset(&vec![Instruction::I32Const(0), Instruction::End]),
        Err(OffsetFault::NotConstant)
    );
    assert_eq!(
        evaluate_offset(&vec![Instruction::GetGlobal { index: 0 }]),
        Err(OffsetFault::NotConstant)
    );
    assert_eq!(evaluate_offset(&vec![Instruction::F32Const(0)]), Err(OffsetFault::NotI32));
    assert_eq!(evaluate_offset(&vec![Instruction::F64Const(0)]), Err(OffsetFault::NotI32));
}

#[test]
fn later_segment_wins_where_two_overlap() {
    let image =
        build_memory_image(&vec![segment(0, vec![1, 2, 3]), segment(1, vec![9, 9])]).unwrap();
    assert_eq!(image.len(), 65536);
    assert_eq!(&image[..4], &[1, 9, 9, 0]);
    assert!(image[4..].iter().all(|b| *b == 0));
}

#[test]
fn earlier_segment_loses_whatever_its_place() {
    let image =
        build_memory_image(&vec![segment(1, vec![9, 9]), segment(0, vec![1, 2, 3])]).unwrap();
    assert_eq!(&image[..4], &[1, 2, 3, 0]);
}

#[test]
fn seventy_thousand_bytes_take_two_pages() {
    let image = build_memory_image(&vec![segment(0, vec![7; 70_000])]).unwrap();
    assert_eq!(image.len(), 131_072);
    assert_eq!(image.len(), 2 * PAGE_SIZE);
    assert!(image[..70_000].iter().all(|b| *b == 7));
    assert!(image[70_000..].iter().all(|b| *b == 0));
}

#[test]
fn no_written_byte_gives_an_empty_image() {
    assert_eq!(build_memory_image(&vec![]), Ok(vec![]));
}

#[test]
fn one_byte_takes_a_page() {
    let image = build_memory_image(&vec![segment(0, vec![5])]).unwrap();
    assert_eq!(image.len(), 65536);
}

#[test]
fn a_full_page_of_bytes_takes_one_page() {
    let image = build_memory_image(&vec![segment(0, vec![1; 65535])]).unwrap();
    assert_eq!(image.len(), 65536);
    let image = build_memory_image(&vec![segment(0, vec![1; 65536])]).unwrap();
    assert_eq!(image.len(), 65536);
    assert!(image.iter().all(|b| *b == 1));
    let image = build_memory_image(&vec![segment(0, vec![1; 65537])]).unwrap();
    assert_eq!(image.len(), 131_072);
}

#[test]
fn size_counts_bytes_written_twice_twice() {
    let image =
        build_memory_image(&vec![segment(0, vec![1; 40_000]), segment(0, vec![2; 40_000])])
            .unwrap();
    assert_eq!(image.len(), 131_072);
    assert!(image[..40_000].iter().all(|b| *b == 2));
    assert!(image[40_000..].iter().all(|b| *b == 0));
}

#[test]
fn chunks_of_a_body_follow_each_other() {
    let image = build_memory_image(&vec![DataInitializer {
        offset_expression: vec![Instruction::I32Const(2)],
        body: vec![vec![1, 2], vec![], vec![3], vec![4, 5]],
    }])
    .unwrap();
    assert_eq!(&image[..8], &[0, 0, 1, 2, 3, 4, 5, 0]);
}

#[test]
fn segment_may_end_at_the_end_of_the_image() {
    let image = build_memory_image(&vec![segment(65533, vec![1, 2, 3])]).unwrap();
    assert_eq!(image.len(), 65536);
    assert_eq!(&image[65533..], &[1, 2, 3]);
}

#[test]
fn segment_past_the_end_of_the_image_is_a_fault() {
    assert_eq!(
        build_memory_image(&vec![segment(0, vec![1]), segment(65534, vec![1, 2, 3])]),
        Err(CodegenError::SegmentOutOfBounds { segment: 1 })
    );
    assert_eq!(
        build_memory_image(&vec![segment(1_000_000, vec![1])]),
        Err(CodegenError::SegmentOutOfBounds { segment: 0 })
    );
    assert_eq!(
        build_memory_image(&vec![segment(i32::MAX, vec![1, 2])]),
        Err(CodegenError::SegmentOutOfBounds { segment: 0 })
    );
}

#[test]
fn segment_before_the_image_is_a_fault() {
    assert_eq!(
        build_memory_image(&vec![segment(-1, vec![1])]),
        Err(CodegenError::SegmentOutOfBounds { segment: 0 })
    );
}

#[test]
fn empty_segment_writes_nothing_wherever_it_is() {
    let image = build_memory_image(&vec![
        segment(-7, vec![]),
        segment(3, vec![8]),
        segment(1 << 30, vec![]),
    ])
    .unwrap();
    assert_eq!(image.len(), 65536);
    assert_eq!(&image[..5], &[0, 0, 0, 8, 0]);
}

#[test]
fn faulty_offset_comes_before_a_segment_out_of_bounds() {
    assert_eq!(
        build_memory_image(&vec![
            segment(-1, vec![1]),
            DataInitializer { offset_expression: vec![], body: vec![] },
        ]),
        Err(CodegenError::NonConstantOffset { segment: 1 })
    );
    assert_eq!(
        build_memory_image(&vec![
            segment(0, vec![1]),
            DataInitializer { offset_expression: vec![Instruction::F64Const(1)], body: vec![] },
            DataInitializer { offset_expression: vec![Instruction::End], body: vec![] },
        ]),
        Err(CodegenError::OffsetNotI32 { segment: 1 })
    );
}

#[test]
fn image_becomes_one_mutable_global() {
    let mut module = NativeModule::new("m".to_string());
    module.add_global(NativeGlobal {
        name: "g".to_string(),
        content: GlobalContent::Scalar(Constant::I32(0)),
        constant: false,
    });
    let handle =
        generate_linear_memory_simulation(&mut module, vec![segment(0, vec![0xAA])]).unwrap();
    assert_eq!(handle, 1);
    assert_eq!(module.globals.len(), 2);
    assert_eq!(LINEAR_MEMORY_NAME, "linear_memory");
    assert_eq!(module.globals[1].name, "linear_memory");
    assert!(!module.globals[1].constant);
    match &module.globals[1].content {
        GlobalContent::Bytes(bytes) => {
            assert_eq!(bytes.len(), 65536);
            assert_eq!(bytes[0], 0xAA);
            assert!(bytes[1..].iter().all(|b| *b == 0));
        }
        other => panic!("not an array of bytes: {:?}", other),
    }
}

#[test]
fn module_is_untouched_without_an_image() {
    let mut module = NativeModule::new("m".to_string());
    let before = module.clone();
    assert_eq!(
        generate_linear_memory_simulation(&mut module, vec![segment(-1, vec![1])]),
        Err(CodegenError::SegmentOutOfBounds { segment: 0 })
    );
    assert_eq!(module, before);
}

#[test]
fn memory_size_globals() {
    let mut module = NativeModule::new("m".to_string());
    add_memory_size_globals(&mut module, &ResizableLimits { initial: 3, maximum: Some(17) });
    assert_eq!(
        module.globals,
        vec![
            NativeGlobal {
                name: "starting_pages".to_string(),
                content: GlobalContent::Scalar(Constant::I32(3)),
                constant: true,
            },
            NativeGlobal {
                name: "max_pages".to_string(),
                content: GlobalContent::Scalar(Constant::I32(17)),
                constant: true,
            },
        ]
    );
}

#[test]
fn memory_size_globals_without_maximum() {
    let mut module = NativeModule::new("m".to_string());
    add_memory_size_globals(&mut module, &ResizableLimits { initial: 0, maximum: None });
    assert_eq!(module.globals[0].content, GlobalContent::Scalar(Constant::I32(0)));
    assert_eq!(module.globals[1].content, GlobalContent::Scalar(Constant::I32(0)));
    let mut module = NativeModule::new("m".to_string());
    add_memory_size_globals(
        &mut module,
        &ResizableLimits { initial: u32::MAX, maximum: Some(0x8000_0000) },
    );
    assert_eq!(module.globals[0].content, GlobalContent::Scalar(Constant::I32(-1)));
    assert_eq!(module.globals[1].content, GlobalContent::Scalar(Constant::I32(i32::MIN)));
}

#[test]
fn copy_of_instructions() {
    let code =
        vec![Instruction::I32Const(1), Instruction::GetGlobal { index: 2 }, Instruction::End];
    assert_eq!(copy_instructions(&code), code);
    assert_eq!(copy_instructions(&vec![]), vec![]);
}

#[test]
fn offset_function_is_declared_and_returned() {
    let mut module = NativeModule::new("m".to_string());
    module.add_function(NativeFunction {
        name: "f".to_string(),
        ty: FuncType { params: vec![], returns: vec![] },
        import: None,
    });
    let (handle, function) =
        generate_offset_function(&mut module, "memory", 12, vec![Instruction::I32Const(8)]);
    assert_eq!(handle, 1);
    let ty = FuncType { params: vec![], returns: vec![ValueType::I32] };
    assert_eq!(
        function,
        ImplementedFunction {
            generated_name: "init_memory_offset_12".to_string(),
            ty: ty.clone(),
            locals: vec![],
            code: vec![Instruction::I32Const(8), Instruction::End],
        }
    );
    assert_eq!(
        module.functions[1],
        NativeFunction { name: "init_memory_offset_12".to_string(), ty, import: None }
    );
    let (handle, function) = generate_offset_function(&mut module, "table", 0, vec![]);
    assert_eq!(handle, 2);
    assert_eq!(function.generated_name, "init_table_offset_0");
    assert_eq!(function.code, vec![Instruction::End]);
}

#[test]
fn memory_initialization_stub() {
    let mut module = NativeModule::new("m".to_string());
    module.add_function(NativeFunction {
        name: "f".to_string(),
        ty: FuncType { params: vec![], returns: vec![] },
        import: None,
    });
    module.add_global(NativeGlobal {
        name: "g".to_string(),
        content: GlobalContent::Scalar(Constant::I32(0)),
        constant: false,
    });
    module.add_global(NativeGlobal {
        name: "h".to_string(),
        content: GlobalContent::Scalar(Constant::I32(0)),
        constant: false,
    });
    let initializers = vec![
        DataInitializer {
            offset_expression: vec![Instruction::I32Const(16)],
            body: vec![vec![1, 2], vec![3]],
        },
        DataInitializer {
            offset_expression: vec![Instruction::GetGlobal { index: 0 }],
            body: vec![vec![4]],
        },
    ];
    let stub = generate_memory_initialization_stub(&mut module, initializers);
    let offset_ty = FuncType { params: vec![], returns: vec![ValueType::I32] };
    assert_eq!(
        stub,
        MemoryInitialization {
            setup_function: 3,
            offset_functions: vec![
                ImplementedFunction {
                    generated_name: "init_memory_offset_0".to_string(),
                    ty: offset_ty.clone(),
                    locals: vec![],
                    code: vec![Instruction::I32Const(16), Instruction::End],
                },
                ImplementedFunction {
                    generated_name: "init_memory_offset_1".to_string(),
                    ty: offset_ty.clone(),
                    locals: vec![],
                    code: vec![Instruction::GetGlobal { index: 0 }, Instruction::End],
                },
            ],
            regions: vec![
                Region { offset_function: 1, data: 2 },
                Region { offset_function: 2, data: 3 },
            ],
        }
    );
    let names: Vec<&str> = module.functions.iter().map(|f| f.name.as_str()).collect();
    assert_eq!(names, vec!["f", "init_memory_offset_0", "init_memory_offset_1", "populate_memory"]);
    assert_eq!(module.functions[3].ty, FuncType { params: vec![], returns: vec![] });
    assert_eq!(
        &module.globals[2..],
        &[
            NativeGlobal {
                name: "init_vector_0".to_string(),
                content: GlobalContent::Bytes(vec![1, 2, 3]),
                constant: true,
            },
            NativeGlobal {
                name: "init_vector_1".to_string(),
                content: GlobalContent::Bytes(vec![4]),
                constant: true,
            },
        ]
    );
}

#[test]
fn memory_initialization_stub_without_segments() {
    let mut module = NativeModule::new("m".to_string());
    let stub = generate_memory_initialization_stub(&mut module, vec![]);
    assert_eq!(
        stub,
        MemoryInitialization { setup_function: 0, offset_functions: vec![], regions: vec![] }
    );
    assert_eq!(module.functions.len(), 1);
    assert_eq!(module.functions[0].name, "populate_memory");
    assert!(module.globals.is_empty());
}
