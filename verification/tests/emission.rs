use llvm::{Compile, Context, FunctionType, GlobalVariable, Module, Sub, Type, Value};
use wasm_lowering::codegen::process_to_llvm as lower;
use wasm_lowering::native::{Constant, GlobalContent, NativeModule};
use wasm_lowering::types::{FuncType, NativeType, ResizableLimits, ValueType};
use wasm_lowering::wasm::{
    DataInitializer, Export, Function, Global, ImplementedFunction, Instruction, Memory,
    WasmModule,
};
use wasm_lowering::Opt;

fn native_type<'a>(ctx: &'a Context, ty: NativeType) -> &'a Type {
    match ty {
        NativeType::Int32 => Type::get::<i32>(ctx),
        NativeType::Int64 => Type::get::<i64>(ctx),
        NativeType::Float => Type::get::<f32>(ctx),
        NativeType::Double => Type::get::<f64>(ctx),
    }
}

fn signature<'a>(ctx: &'a Context, ty: &FuncType) -> &'a Type {
    let params: Vec<&Type> = ty
        .params
        .iter()
        .map(|p| native_type(ctx, wasm_lowering::types::wasm_type_to_native(*p)))
        .collect();
    let result = match ty.returns.first() {
        Some(one) => native_type(ctx, wasm_lowering::types::wasm_type_to_native(*one)),
        None => Type::get::<()>(ctx),
    };
    FunctionType::new(result, &params).to_super()
}

fn emit<'a>(ctx: &'a Context, module: &'a Module, lowered: &NativeModule) {
    for function in &lowered.functions {
        module.add_function(&function.name, signature(ctx, &function.ty));
    }
    for global in &lowered.globals {
        let emitted: &GlobalVariable = match &global.content {
            GlobalContent::External(ty) => module.add_global(&global.name, native_type(ctx, *ty)),
            GlobalContent::Scalar(c) => {
                let value: &Value = match *c {
                    Constant::I32(v) => v.compile(ctx),
                    Constant::I64(v) => v.compile(ctx),
                    Constant::F32(bits) => f32::from_bits(bits).compile(ctx),
                    Constant::F64(bits) => f64::from_bits(bits).compile(ctx),
                };
                module.add_global_variable(&global.name, value)
            }
            GlobalContent::Bytes(bytes) => {
                let values: Vec<&Value> = bytes.iter().map(|b| (*b).compile(ctx)).collect();
                module.add_global_variable(&global.name, Value::new_vector(&values))
            }
            GlobalContent::FunctionPointers(_) => panic!("no table in these tests"),
        };
        emitted.set_constant(global.constant);
    }
}

#[test]
fn lowered_module_goes_into_a_backend_module() {
    let module = WasmModule {
        source_name: "end_to_end".to_string(),
        types: vec![],
        globals: vec![
            Global::InModule {
                generated_name: "global_0".to_string(),
                content_type: ValueType::I32,
                mutable: true,
                initializer: vec![Instruction::I32Const(42)],
            },
            Global::InModule {
                generated_name: "global_1".to_string(),
                content_type: ValueType::I32,
                mutable: false,
                initializer: vec![Instruction::I32Const(7)],
            },
            Global::Imported {
                name: "host_ratio".to_string(),
                content_type: ValueType::F64,
                mutable: false,
            },
        ],
        functions: vec![
            Function::Implemented {
                f: ImplementedFunction {
                    generated_name: "f_0".to_string(),
                    ty: FuncType { params: vec![ValueType::F32], returns: vec![ValueType::I64] },
                    locals: vec![],
                    code: vec![0u8, 1, 2],
                },
            },
            Function::Imported {
                source: "env".to_string(),
                import_name: "host_print".to_string(),
                name: "host_print".to_string(),
                ty: FuncType { params: vec![ValueType::I32], returns: vec![] },
            },
        ],
        memories: vec![Memory { limits: ResizableLimits { initial: 1, maximum: None } }],
        data_initializers: vec![DataInitializer {
            offset_expression: vec![Instruction::I32Const(0)],
            body: vec![vec![0xAA]],
        }],
        tables: vec![],
        table_initializers: vec![],
        exports: vec![Export::Function { index: 0, name: "main".to_string() }],
    };
    let opt = Opt {
        inline_constant_globals: true,
        target: Some("x86_64-unknown-linux-gnu".to_string()),
        layout: None,
    };
    let lowered = lower(&opt, module).unwrap();

    let ctx = Context::new();
    let backend = Module::new(&lowered.module.name, &ctx);
    if let Some(target) = &lowered.module.target {
        backend.set_target(target);
    }
    emit(&ctx, &backend, &lowered.module);

    assert_eq!(backend.get_target(), "x86_64-unknown-linux-gnu");
    let storage = backend.get_global("global_0").expect("the mutable global has storage");
    assert!(!storage.is_declaration());
    assert!(backend.get_global("global_1").is_none());
    let imported = backend.get_global("host_ratio").expect("the imported global is declared");
    assert!(imported.is_declaration());
    let memory = backend.get_global("linear_memory").expect("the image is a global");
    assert!(!memory.is_declaration());
    let main = backend.get_function("main").expect("the exported function is prototyped");
    assert_eq!(main.get_signature().num_params(), 1);
    assert!(main.is_declaration());
    assert!(backend.get_function("f_0").is_none());
    assert_eq!(backend.get_function("host_print").unwrap().get_signature().num_params(), 1);
    assert!(backend.verify().is_ok());
}
