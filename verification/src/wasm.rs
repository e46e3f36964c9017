//! The parsed and validated WebAssembly module that the lowering consumes.

use vstd::prelude::*;
use crate::types::{views, FuncType, FuncTypeView, ResizableLimits, ValueType};

verus! {

/// An instruction of a constant expression: what the initializer of a
/// global and the offset of a segment are made of. A floating-point constant
/// is held by its bit pattern.
#[derive(Clone, Copy, Debug, PartialEq, Eq, Structural)]
pub enum Instruction {
    I32Const(i32),
    I64Const(i64),
    F32Const(u32),
    F64Const(u64),
    GetGlobal { index: u32 },
    End,
}

/// A global declaration.
#[derive(Clone, Debug, PartialEq, Eq)]
pub enum Global {
    /// Supplied by the host under `name`.
    Imported { name: String, content_type: ValueType, mutable: bool },
    /// Defined by the module, with the expression that gives its first value.
    InModule {
        generated_name: String,
        content_type: ValueType,
        mutable: bool,
        initializer: Vec<Instruction>,
    },
}

pub enum GlobalView {
    Imported { name: Seq<char>, content_type: ValueType, mutable: bool },
    InModule {
        generated_name: Seq<char>,
        content_type: ValueType,
        mutable: bool,
        initializer: Seq<Instruction>,
    },
}

impl View for Global {
    type V = GlobalView;

    open spec fn view(&self) -> GlobalView {
        match *self {
            Global::Imported { name, content_type, mutable } => GlobalView::Imported {
                name: name@,
                content_type,
                mutable,
            },
            Global::InModule {
                generated_name,
                content_type,
                mutable,
                initializer,
            } => GlobalView::InModule {
                generated_name: generated_name@,
                content_type,
                mutable,
                initializer: initializer@,
            },
        }
    }
}

impl GlobalView {
    /// The name under which the global is known to the native module.
    pub open spec fn name(self) -> Seq<char> {
        match self {
            GlobalView::Imported { name, .. } => name,
            GlobalView::InModule { generated_name, .. } => generated_name,
        }
    }

    /// The same declaration under another name.
    pub open spec fn renamed(self, new_name: Seq<char>) -> GlobalView {
        match self {
            GlobalView::Imported { content_type, mutable, .. } => GlobalView::Imported {
                name: new_name,
                content_type,
                mutable,
            },
            GlobalView::InModule {
                content_type,
                mutable,
                initializer,
                ..
            } => GlobalView::InModule {
                generated_name: new_name,
                content_type,
                mutable,
                initializer,
            },
        }
    }
}

impl Global {
    pub fn get_name(&self) -> (name: &String)
        ensures
            name@ == self@.name(),
    {
        match self {
            Global::Imported { name, .. } => name,
            Global::InModule { generated_name, .. } => generated_name,
        }
    }

    pub fn set_name(&mut self, new_name: String)
        ensures
            final(self)@ == old(self)@.renamed(new_name@),
    {
        match self {
            Global::Imported { name, .. } => {
                *name = new_name;
            },
            Global::InModule { generated_name, .. } => {
                *generated_name = new_name;
            },
        }
    }
}

/// A function that the module defines: its name, signature, the types of
/// its locals and its body. The body is of the type `B` in which the caller
/// keeps bodies: the lowering hands it on to the compiler of bodies and
/// never reads it.
#[derive(Clone, Debug, PartialEq, Eq)]
pub struct ImplementedFunction<B> {
    pub generated_name: String,
    pub ty: FuncType,
    pub locals: Vec<ValueType>,
    pub code: B,
}

pub struct ImplementedFunctionView<B: View> {
    pub generated_name: Seq<char>,
    pub ty: FuncTypeView,
    pub locals: Seq<ValueType>,
    pub code: B::V,
}

impl<B: View> View for ImplementedFunction<B> {
    type V = ImplementedFunctionView<B>;

    open spec fn view(&self) -> ImplementedFunctionView<B> {
        ImplementedFunctionView {
            generated_name: self.generated_name@,
            ty: self.ty@,
            locals: self.locals@,
            code: self.code@,
        }
    }
}

/// A function declaration.
#[derive(Clone, Debug, PartialEq, Eq)]
pub enum Function<B> {
    /// Supplied by the host: the module it comes from and its name there,
    /// which no export changes, and the name under which the native module
    /// knows it.
    Imported { source: String, import_name: String, name: String, ty: FuncType },
    Implemented { f: ImplementedFunction<B> },
}

pub enum FunctionView<B: View> {
    Imported { source: Seq<char>, import_name: Seq<char>, name: Seq<char>, ty: FuncTypeView },
    Implemented { f: ImplementedFunctionView<B> },
}

impl<B: View> View for Function<B> {
    type V = FunctionView<B>;

    open spec fn view(&self) -> FunctionView<B> {
        match *self {
            Function::Imported { source, import_name, name, ty } => FunctionView::Imported {
                source: source@,
                import_name: import_name@,
                name: name@,
                ty: ty@,
            },
            Function::Implemented { f } => FunctionView::Implemented { f: f@ },
        }
    }
}

impl<B: View> FunctionView<B> {
    /// The name under which the function is known to the native module.
    pub open spec fn name(self) -> Seq<char> {
        match self {
            FunctionView::Imported { name, .. } => name,
            FunctionView::Implemented { f } => f.generated_name,
        }
    }

    pub open spec fn ty(self) -> FuncTypeView {
        match self {
            FunctionView::Imported { ty, .. } => ty,
            FunctionView::Implemented { f } => f.ty,
        }
    }

    /// The same declaration under another name. An import keeps the name
    /// that it has in the module that it comes from.
    pub open spec fn renamed(self, new_name: Seq<char>) -> FunctionView<B> {
        match self {
            FunctionView::Imported { source, import_name, ty, .. } => FunctionView::Imported {
                source,
                import_name,
                name: new_name,
                ty,
            },
            FunctionView::Implemented { f } => FunctionView::Implemented {
                f: ImplementedFunctionView {
                    generated_name: new_name,
                    ty: f.ty,
                    locals: f.locals,
                    code: f.code,
                },
            },
        }
    }
}

impl<B: View> Function<B> {
    pub fn get_name(&self) -> (name: &String)
        ensures
            name@ == self@.name(),
    {
        match self {
            Function::Imported { name, .. } => name,
            Function::Implemented { f } => &f.generated_name,
        }
    }

    pub fn get_type(&self) -> (ty: &FuncType)
        ensures
            ty@ == self@.ty(),
    {
        match self {
            Function::Imported { ty, .. } => ty,
            Function::Implemented { f } => &f.ty,
        }
    }

    pub fn set_name(&mut self, new_name: String)
        ensures
            final(self)@ == old(self)@.renamed(new_name@),
    {
        match self {
            Function::Imported { name, .. } => {
                *name = new_name;
            },
            Function::Implemented { f } => {
                f.generated_name = new_name;
            },
        }
    }
}

/// The chunks of a body as sequences of bytes.
pub open spec fn spec_chunks(body: Seq<Vec<u8>>) -> Seq<Seq<u8>> {
    body.map_values(|chunk: Vec<u8>| chunk@)
}

/// A data segment: the expression that gives its place in linear memory and
/// its bytes, in chunks.
#[derive(Clone, Debug, PartialEq, Eq)]
pub struct DataInitializer {
    pub offset_expression: Vec<Instruction>,
    pub body: Vec<Vec<u8>>,
}

pub struct DataInitializerView {
    pub offset_expression: Seq<Instruction>,
    pub body: Seq<Seq<u8>>,
}

impl View for DataInitializer {
    type V = DataInitializerView;

    open spec fn view(&self) -> DataInitializerView {
        DataInitializerView {
            offset_expression: self.offset_expression@,
            body: spec_chunks(self.body@),
        }
    }
}

impl DataInitializerView {
    /// The bytes of the segment: its chunks one after the other.
    pub open spec fn payload(self) -> Seq<u8> {
        self.body.flatten()
    }
}

/// An element segment: the expression that gives its first table slot and the
/// functions that fill the slots from there on.
#[derive(Clone, Debug, PartialEq, Eq)]
pub struct TableInitializer {
    pub offset_expression: Vec<Instruction>,
    pub function_indexes: Vec<u32>,
}

pub struct TableInitializerView {
    pub offset_expression: Seq<Instruction>,
    pub function_indexes: Seq<u32>,
}

impl View for TableInitializer {
    type V = TableInitializerView;

    open spec fn view(&self) -> TableInitializerView {
        TableInitializerView {
            offset_expression: self.offset_expression@,
            function_indexes: self.function_indexes@,
        }
    }
}

/// An entry of the export table: the item that is exported and the name
/// under which the outside sees it.
#[derive(Clone, Debug, PartialEq, Eq)]
pub enum Export {
    Function { index: usize, name: String },
    Global { index: usize, name: String },
    Memory { index: usize, name: String },
}

pub enum ExportView {
    Function { index: usize, name: Seq<char> },
    Global { index: usize, name: Seq<char> },
    Memory { index: usize, name: Seq<char> },
}

impl View for Export {
    type V = ExportView;

    open spec fn view(&self) -> ExportView {
        match *self {
            Export::Function { index, name } => ExportView::Function { index, name: name@ },
            Export::Global { index, name } => ExportView::Global { index, name: name@ },
            Export::Memory { index, name } => ExportView::Memory { index, name: name@ },
        }
    }
}

/// A linear memory declaration.
#[derive(Clone, Copy, Debug, PartialEq, Eq, Structural)]
pub struct Memory {
    pub limits: ResizableLimits,
}

/// A table declaration.
#[derive(Clone, Copy, Debug, PartialEq, Eq, Structural)]
pub struct Table {
    pub limits: ResizableLimits,
}

/// A whole module, with the bodies of its functions of type `B`.
#[derive(Clone, Debug, PartialEq, Eq)]
pub struct WasmModule<B> {
    pub source_name: String,
    pub types: Vec<FuncType>,
    pub globals: Vec<Global>,
    pub functions: Vec<Function<B>>,
    pub memories: Vec<Memory>,
    pub data_initializers: Vec<DataInitializer>,
    pub tables: Vec<Table>,
    pub table_initializers: Vec<TableInitializer>,
    pub exports: Vec<Export>,
}

pub struct WasmModuleView<B: View> {
    pub source_name: Seq<char>,
    pub types: Seq<FuncTypeView>,
    pub globals: Seq<GlobalView>,
    pub functions: Seq<FunctionView<B>>,
    pub memories: Seq<Memory>,
    pub data_initializers: Seq<DataInitializerView>,
    pub tables: Seq<Table>,
    pub table_initializers: Seq<TableInitializerView>,
    pub exports: Seq<ExportView>,
}

impl<B: View> View for WasmModule<B> {
    type V = WasmModuleView<B>;

    open spec fn view(&self) -> WasmModuleView<B> {
        WasmModuleView {
            source_name: self.source_name@,
            types: views(self.types@),
            globals: views(self.globals@),
            functions: views(self.functions@),
            memories: self.memories@,
            data_initializers: views(self.data_initializers@),
            tables: self.tables@,
            table_initializers: views(self.table_initializers@),
            exports: views(self.exports@),
        }
    }
}

} // verus!
