use wasm_lowering::error::CodegenError;
use wasm_lowering::options::copy_text;
use wasm_lowering::text::{append_decimal, numbered};
use wasm_lowering::types::{copy_value_types, FuncType, ValueType};

#[test]
fn decimal_digits() {
    for n in [0usize, 1, 9, 10, 11, 99, 100, 101, 1234567890, usize::MAX] {
        let mut text = String::from("x");
        append_decimal(&mut text, n);
        assert_eq!(text, format!("x{}", n));
    }
}

#[test]
fn numbered_names() {
    assert_eq!(numbered("init_vector_", 0), "init_vector_0");
    assert_eq!(numbered("init_vector_", 305), "init_vector_305");
    assert_eq!(numbered("", 7), "7");
}

#[test]
fn messages_name_the_item_at_fault() {
    assert_eq!(
        CodegenError::NonSimpleInitializer { global: 3 }.message(),
        "non-simple initializer of global 3"
    );
    assert_eq!(
        CodegenError::InitializerTypeMismatch { global: 12 }.message(),
        "initializer of another type than global 12"
    );
    assert_eq!(
        CodegenError::ExportOutOfRange { export: 0 }.message(),
        "nothing to export for export 0"
    );
    assert_eq!(
        CodegenError::NonConstantOffset { segment: 4 }.message(),
        "non-constant offset of data segment 4"
    );
    assert_eq!(
        CodegenError::OffsetNotI32 { segment: 5 }.message(),
        "offset that is no 32-bit integer of data segment 5"
    );
    assert_eq!(
        CodegenError::SegmentOutOfBounds { segment: 6 }.message(),
        "write outside the memory image by data segment 6"
    );
    assert_eq!(CodegenError::ImageTooLarge.message(), "memory image too large");
    assert_eq!(CodegenError::TableTooLarge.message(), "table too large");
    assert_eq!(
        CodegenError::NonConstantElementOffset { segment: 7 }.message(),
        "non-constant offset of element segment 7"
    );
    assert_eq!(
        CodegenError::ElementOffsetNotI32 { segment: 8 }.message(),
        "offset that is no 32-bit integer of element segment 8"
    );
    assert_eq!(
        CodegenError::ElementOutOfBounds { segment: 9 }.message(),
        "slot outside the table in element segment 9"
    );
    assert_eq!(
        CodegenError::UnknownFunction { segment: 10 }.message(),
        "unknown function in element segment 10"
    );
    assert_eq!(
        CodegenError::StoreToInlinedConstant.message(),
        "cannot write to an inlined constant"
    );
}

#[test]
fn copies() {
    assert_eq!(copy_text(&None), None);
    assert_eq!(copy_text(&Some("wasm32".to_string())), Some("wasm32".to_string()));
    let types = vec![ValueType::I32, ValueType::F64];
    assert_eq!(copy_value_types(&types), types);
    let ty = FuncType { params: types, returns: vec![ValueType::I64] };
    assert_eq!(ty.duplicate(), ty);
}
