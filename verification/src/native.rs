//! The native module that the lowering builds, as plain data.
//!
//! Globals and functions are kept in the order in which they were added; the
//! position of an item is its handle, and it never changes.

use vstd::prelude::*;
use crate::options::{copy_text, text_of};
use crate::types::{views, FuncType, FuncTypeView, NativeType};

verus! {

/// A scalar constant. A floating-point constant is held by its bit pattern.
#[derive(Clone, Copy, Debug, PartialEq, Eq, Structural)]
pub enum Constant {
    I32(i32),
    I64(i64),
    F32(u32),
    F64(u64),
}

impl Constant {
    pub open spec fn spec_native_type(self) -> NativeType {
        match self {
            Constant::I32(_) => NativeType::Int32,
            Constant::I64(_) => NativeType::Int64,
            Constant::F32(_) => NativeType::Float,
            Constant::F64(_) => NativeType::Double,
        }
    }

    /// The native type of this constant.
    pub fn get_type(&self) -> (ty: NativeType)
        ensures
            ty == self.spec_native_type(),
    {
        match self {
            Constant::I32(_) => NativeType::Int32,
            Constant::I64(_) => NativeType::Int64,
            Constant::F32(_) => NativeType::Float,
            Constant::F64(_) => NativeType::Double,
        }
    }
}

/// What a global of the native module holds.
#[derive(Clone, Debug, PartialEq, Eq)]
pub enum GlobalContent {
    /// Nothing here: a declaration of the given type, which the host fills.
    External(NativeType),
    /// A scalar with its first value.
    Scalar(Constant),
    /// An array of bytes.
    Bytes(Vec<u8>),
    /// An array of function pointers; an empty slot traps when called. Each
    /// pointer is the handle of a function of the same module.
    FunctionPointers(Vec<Option<usize>>),
}

pub enum GlobalContentView {
    External(NativeType),
    Scalar(Constant),
    Bytes(Seq<u8>),
    FunctionPointers(Seq<Option<usize>>),
}

impl View for GlobalContent {
    type V = GlobalContentView;

    open spec fn view(&self) -> GlobalContentView {
        match *self {
            GlobalContent::External(ty) => GlobalContentView::External(ty),
            GlobalContent::Scalar(c) => GlobalContentView::Scalar(c),
            GlobalContent::Bytes(bytes) => GlobalContentView::Bytes(bytes@),
            GlobalContent::FunctionPointers(slots) => GlobalContentView::FunctionPointers(slots@),
        }
    }
}

/// A global of the native module.
#[derive(Clone, Debug, PartialEq, Eq)]
pub struct NativeGlobal {
    pub name: String,
    pub content: GlobalContent,
    /// Whether the global is flagged as never written.
    pub constant: bool,
}

pub struct NativeGlobalView {
    pub name: Seq<char>,
    pub content: GlobalContentView,
    pub constant: bool,
}

impl View for NativeGlobal {
    type V = NativeGlobalView;

    open spec fn view(&self) -> NativeGlobalView {
        NativeGlobalView { name: self.name@, content: self.content@, constant: self.constant }
    }
}

/// Where an imported function comes from.
#[derive(Clone, Debug, PartialEq, Eq)]
pub struct ImportMetadata {
    pub module: String,
    pub name: String,
}

pub struct ImportMetadataView {
    pub module: Seq<char>,
    pub name: Seq<char>,
}

impl View for ImportMetadata {
    type V = ImportMetadataView;

    open spec fn view(&self) -> ImportMetadataView {
        ImportMetadataView { module: self.module@, name: self.name@ }
    }
}

/// The prototype of a function of the native module: its name and signature
/// and, for an import, the two attributes that say where it comes from.
#[derive(Clone, Debug, PartialEq, Eq)]
pub struct NativeFunction {
    pub name: String,
    pub ty: FuncType,
    pub import: Option<ImportMetadata>,
}

pub struct NativeFunctionView {
    pub name: Seq<char>,
    pub ty: FuncTypeView,
    pub import: Option<ImportMetadataView>,
}

impl View for NativeFunction {
    type V = NativeFunctionView;

    open spec fn view(&self) -> NativeFunctionView {
        NativeFunctionView {
            name: self.name@,
            ty: self.ty@,
            import: match self.import {
                Some(m) => Some(m@),
                None => None,
            },
        }
    }
}

/// The native module.
#[derive(Clone, Debug, PartialEq, Eq)]
pub struct NativeModule {
    pub name: String,
    pub target: Option<String>,
    pub layout: Option<String>,
    pub globals: Vec<NativeGlobal>,
    pub functions: Vec<NativeFunction>,
}

pub struct NativeModuleView {
    pub name: Seq<char>,
    pub target: Option<Seq<char>>,
    pub layout: Option<Seq<char>>,
    pub globals: Seq<NativeGlobalView>,
    pub functions: Seq<NativeFunctionView>,
}

impl View for NativeModule {
    type V = NativeModuleView;

    open spec fn view(&self) -> NativeModuleView {
        NativeModuleView {
            name: self.name@,
            target: text_of(self.target),
            layout: text_of(self.layout),
            globals: views(self.globals@),
            functions: views(self.functions@),
        }
    }
}

impl NativeModuleView {
    /// The module with one more global at its end.
    pub open spec fn with_global(self, global: NativeGlobalView) -> NativeModuleView {
        NativeModuleView { globals: self.globals.push(global), ..self }
    }

    /// The module with more globals at its end.
    pub open spec fn with_globals(self, globals: Seq<NativeGlobalView>) -> NativeModuleView {
        NativeModuleView { globals: self.globals + globals, ..self }
    }

    /// The module with one more function at its end.
    pub open spec fn with_function(self, function: NativeFunctionView) -> NativeModuleView {
        NativeModuleView { functions: self.functions.push(function), ..self }
    }

    /// The module with more functions at its end.
    pub open spec fn with_functions(self, functions: Seq<NativeFunctionView>) -> NativeModuleView {
        NativeModuleView { functions: self.functions + functions, ..self }
    }
}

impl NativeModule {
    /// An empty module for the host's target.
    pub fn new(name: String) -> (module: NativeModule)
        ensures
            module@ == (NativeModuleView {
                name: name@,
                target: None,
                layout: None,
                globals: Seq::empty(),
                functions: Seq::empty(),
            }),
    {
        let module = NativeModule {
            name,
            target: None,
            layout: None,
            globals: Vec::new(),
            functions: Vec::new(),
        };
        assert(views(module.globals@) =~= Seq::<NativeGlobalView>::empty());
        assert(views(module.functions@) =~= Seq::<NativeFunctionView>::empty());
        module
    }

    /// Sets the target triple and the data layout, each where one is given.
    pub fn configure(&mut self, target: &Option<String>, layout: &Option<String>)
        ensures
            final(self)@ == (NativeModuleView {
                target: if target is Some { text_of(*target) } else { old(self)@.target },
                layout: if layout is Some { text_of(*layout) } else { old(self)@.layout },
                ..old(self)@
            }),
    {
        if target.is_some() {
            self.target = copy_text(target);
        }
        if layout.is_some() {
            self.layout = copy_text(layout);
        }
    }

    /// Adds a global and returns its handle.
    pub fn add_global(&mut self, global: NativeGlobal) -> (handle: usize)
        ensures
            handle == old(self)@.globals.len(),
            final(self)@ == old(self)@.with_global(global@),
    {
        let handle = self.globals.len();
        self.globals.push(global);
        assert(views(self.globals@) =~= views(old(self).globals@).push(global@));
        handle
    }

    /// Adds the prototype of a function and returns its handle.
    pub fn add_function(&mut self, function: NativeFunction) -> (handle: usize)
        ensures
            handle == old(self)@.functions.len(),
            final(self)@ == old(self)@.with_function(function@),
    {
        let handle = self.functions.len();
        self.functions.push(function);
        assert(views(self.functions@) =~= views(old(self).functions@).push(function@));
        handle
    }
}

} // verus!
