//! The assembly of the native module: globals first, then the prototype of
//! every function, then the memory image and the indirect-call table. No
//! body is compiled before all of this stands, so that a body may refer to
//! any global and call any function of the module, itself included.

pub mod globals;
pub mod memory;
pub mod table;

use vstd::prelude::*;
use crate::error::{
    first_fault, lemma_first_fault_at, lemma_first_fault_is_least, lemma_first_fault_none,
    CodegenError,
};
use crate::codegen::globals::{
    insert_globals, lemma_global_values_resolve, spec_global_faults, spec_global_values,
    spec_resolves, spec_storages, GlobalValue,
};
use crate::codegen::memory::{
    generate_linear_memory_simulation, spec_linear_memory, spec_memory_fault,
};
use crate::codegen::table::{
    generate_table_initialization_stub, lemma_slot_is_entry, spec_element_faults, spec_table,
    spec_table_fault, spec_table_fits, spec_table_global,
};
use crate::native::{
    GlobalContentView, ImportMetadata, ImportMetadataView, NativeFunction, NativeFunctionView,
    NativeGlobalView, NativeModule, NativeModuleView,
};
use crate::options::{Opt, OptView};
use crate::types::{views, FuncType, FuncTypeView};
use crate::wasm::{
    Export, ExportView, Function, FunctionView, Global, GlobalView, WasmModule, WasmModuleView,
};

verus! {

/// The fault in export number `index` of a module with `functions` functions
/// and `globals` globals, if it has one.
pub open spec fn spec_export_fault(
    index: int,
    export: ExportView,
    functions: int,
    globals: int,
) -> Option<CodegenError> {
    match export {
        ExportView::Function { index: i, .. } => if i < functions {
            None
        } else {
            Some(CodegenError::ExportOutOfRange { export: index as usize })
        },
        ExportView::Global { index: i, .. } => if i < globals {
            None
        } else {
            Some(CodegenError::ExportOutOfRange { export: index as usize })
        },
        ExportView::Memory { .. } => None,
    }
}

pub open spec fn spec_export_faults(exports: Seq<ExportView>, functions: int, globals: int) -> Seq<
    Option<CodegenError>,
> {
    Seq::new(exports.len(), |i: int| spec_export_fault(i, exports[i], functions, globals))
}

/// The name of function number `index` under the exports: the name that the
/// last export of that function gives it, and `declared` where the function
/// is not exported.
pub open spec fn spec_function_name(
    exports: Seq<ExportView>,
    index: int,
    declared: Seq<char>,
) -> Seq<char>
    decreases exports.len(),
{
    if exports.len() == 0 {
        declared
    } else {
        match exports.last() {
            ExportView::Function { index: i, name } if i == index => name,
            _ => spec_function_name(exports.drop_last(), index, declared),
        }
    }
}

/// The name of global number `index` under the exports: the name that the
/// last export of that global gives it, and `declared` where the global is
/// not exported.
pub open spec fn spec_global_name(
    exports: Seq<ExportView>,
    index: int,
    declared: Seq<char>,
) -> Seq<char>
    decreases exports.len(),
{
    if exports.len() == 0 {
        declared
    } else {
        match exports.last() {
            ExportView::Global { index: i, name } if i == index => name,
            _ => spec_global_name(exports.drop_last(), index, declared),
        }
    }
}

/// The functions under the names that the exports give them.
pub open spec fn spec_exported_functions<B: View>(
    functions: Seq<FunctionView<B>>,
    exports: Seq<ExportView>,
) -> Seq<FunctionView<B>> {
    Seq::new(
        functions.len(),
        |i: int| functions[i].renamed(spec_function_name(exports, i, functions[i].name())),
    )
}

/// The globals under the names that the exports give them.
pub open spec fn spec_exported_globals(globals: Seq<GlobalView>, exports: Seq<ExportView>) -> Seq<
    GlobalView,
> {
    Seq::new(
        globals.len(),
        |i: int| globals[i].renamed(spec_global_name(exports, i, globals[i].name())),
    )
}

/// Gives every exported function and global the name under which it is
/// exported, the exports taken in their order; an exported memory keeps its
/// name. Where an export names what the module does not have, nothing is
/// renamed.
pub fn apply_exports<B: View>(
    functions: &mut Vec<Function<B>>,
    globals: &mut Vec<Global>,
    exports: &Vec<Export>,
) -> (r: Result<(), CodegenError>)
    ensures
        match r {
            Ok(()) => {
                &&& first_fault(
                    spec_export_faults(
                        views(exports@),
                        old(functions)@.len() as int,
                        old(globals)@.len() as int,
                    ),
                ) is None
                &&& views(final(functions)@) == spec_exported_functions(
                    views(old(functions)@),
                    views(exports@),
                )
                &&& views(final(globals)@) == spec_exported_globals(
                    views(old(globals)@),
                    views(exports@),
                )
            },
            Err(e) => {
                &&& first_fault(
                    spec_export_faults(
                        views(exports@),
                        old(functions)@.len() as int,
                        old(globals)@.len() as int,
                    ),
                ) == Some(e)
                &&& *final(functions) == *old(functions)
                &&& *final(globals) == *old(globals)
            },
        },
{
    let ghost ev = views(exports@);
    let ghost fv = views(functions@);
    let ghost gv = views(globals@);
    let ghost faults = spec_export_faults(ev, functions@.len() as int, globals@.len() as int);
    let mut i: usize = 0;
    while i < exports.len()
        invariant
            i <= exports.len(),
            ev == views(exports@),
            faults == spec_export_faults(ev, functions@.len() as int, globals@.len() as int),
            forall|j: int| 0 <= j < i ==> (#[trigger] faults[j]) is None,
        decreases exports.len() - i,
    {
        assert(ev[i as int] == exports@[i as int]@);
        let in_range = match &exports[i] {
            Export::Function { index, .. } => *index < functions.len(),
            Export::Global { index, .. } => *index < globals.len(),
            Export::Memory { .. } => true,
        };
        if !in_range {
            proof {
                lemma_first_fault_at(faults, i as int);
            }
            return Err(CodegenError::ExportOutOfRange { export: i });
        }
        i = i + 1;
    }
    proof {
        lemma_first_fault_none(faults);
        assert(ev.take(0) =~= Seq::<ExportView>::empty());
        assert(views(functions@) =~= spec_exported_functions(fv, ev.take(0)));
        assert(views(globals@) =~= spec_exported_globals(gv, ev.take(0)));
    }
    let mut k: usize = 0;
    while k < exports.len()
        invariant
            k <= exports.len(),
            ev == views(exports@),
            functions@.len() == fv.len(),
            globals@.len() == gv.len(),
            faults == spec_export_faults(ev, fv.len() as int, gv.len() as int),
            forall|j: int| 0 <= j < faults.len() ==> (#[trigger] faults[j]) is None,
            views(functions@) == spec_exported_functions(fv, ev.take(k as int)),
            views(globals@) == spec_exported_globals(gv, ev.take(k as int)),
        decreases exports.len() - k,
    {
        assert(ev[k as int] == exports@[k as int]@);
        assert(faults[k as int] is None);
        let ghost functions_before = views(functions@);
        let ghost globals_before = views(globals@);
        assert(ev.take(k as int + 1).drop_last() =~= ev.take(k as int));
        match &exports[k] {
            Export::Function { index, name } => {
                functions[*index].set_name(name.clone());
                proof {
                    let grown = spec_exported_functions(fv, ev.take(k as int + 1));
                    assert forall|j: int| 0 <= j < grown.len() implies views(functions@)[j]
                        == grown[j] by {
                        assert(functions_before[j] == spec_exported_functions(
                            fv,
                            ev.take(k as int),
                        )[j]);
                    }
                    assert(views(functions@) =~= grown);
                    assert(spec_exported_globals(gv, ev.take(k as int + 1)) =~= globals_before);
                }
            },
            Export::Global { index, name } => {
                globals[*index].set_name(name.clone());
                proof {
                    let grown = spec_exported_globals(gv, ev.take(k as int + 1));
                    assert forall|j: int| 0 <= j < grown.len() implies views(globals@)[j]
                        == grown[j] by {
                        assert(globals_before[j] == spec_exported_globals(
                            gv,
                            ev.take(k as int),
                        )[j]);
                    }
                    assert(views(globals@) =~= grown);
                    assert(spec_exported_functions(fv, ev.take(k as int + 1))
                        =~= functions_before);
                }
            },
            Export::Memory { .. } => {
                proof {
                    assert(spec_exported_functions(fv, ev.take(k as int + 1))
                        =~= functions_before);
                    assert(spec_exported_globals(gv, ev.take(k as int + 1)) =~= globals_before);
                }
            },
        }
        k = k + 1;
    }
    proof {
        assert(ev.take(k as int) =~= ev);
    }
    Ok(())
}

/// The prototype of a function: its name and signature and, for an import,
/// the module that it comes from and its name there, whatever the name of
/// the prototype is.
pub open spec fn spec_prototype<B: View>(function: FunctionView<B>) -> NativeFunctionView {
    NativeFunctionView {
        name: function.name(),
        ty: function.ty(),
        import: match function {
            FunctionView::Imported { source, import_name, .. } => Some(
                ImportMetadataView { module: source, name: import_name },
            ),
            FunctionView::Implemented { .. } => None,
        },
    }
}

/// The prototypes of a list of functions, in the order of the functions.
pub open spec fn spec_prototypes<B: View>(functions: Seq<FunctionView<B>>) -> Seq<
    NativeFunctionView,
> {
    Seq::new(functions.len(), |i: int| spec_prototype(functions[i]))
}

/// The handles of `count` prototypes that are added to a module which holds
/// `base` functions already.
pub open spec fn spec_handles(base: int, count: int) -> Seq<usize> {
    Seq::new(count as nat, |i: int| (base + i) as usize)
}

/// Adds the prototype of every function to the native module, imported and
/// implemented ones alike and in the order of the declarations, and returns
/// the handles of the prototypes in that order.
pub fn prototype_functions<B: View>(
    module: &mut NativeModule,
    functions: &Vec<Function<B>>,
) -> (handles: Vec<usize>)
    ensures
        final(module)@ == old(module)@.with_functions(spec_prototypes(views(functions@))),
        handles@ == spec_handles(old(module)@.functions.len() as int, functions.len() as int),
{
    let ghost start = module@;
    let ghost prototypes = spec_prototypes(views(functions@));
    let mut handles: Vec<usize> = Vec::new();
    let mut i: usize = 0;
    proof {
        assert(start.with_functions(prototypes.take(0)) =~= start);
    }
    while i < functions.len()
        invariant
            i <= functions.len(),
            prototypes == spec_prototypes(views(functions@)),
            module@ == start.with_functions(prototypes.take(i as int)),
            handles@.len() == i,
            forall|j: int| 0 <= j < i ==> #[trigger] handles@[j] == start.functions.len() + j,
        decreases functions.len() - i,
    {
        let function = &functions[i];
        assert(views(functions@)[i as int] == function@);
        let import = match function {
            Function::Imported { source, import_name, .. } => Some(
                ImportMetadata { module: source.clone(), name: import_name.clone() },
            ),
            Function::Implemented { .. } => None,
        };
        let handle = module.add_function(
            NativeFunction {
                name: function.get_name().clone(),
                ty: function.get_type().duplicate(),
                import,
            },
        );
        handles.push(handle);
        proof {
            assert(prototypes.take(i as int + 1) =~= prototypes.take(i as int).push(
                prototypes[i as int],
            ));
            assert(module@.functions =~= start.functions + prototypes.take(i as int + 1));
        }
        i = i + 1;
    }
    proof {
        assert(prototypes.take(i as int) =~= prototypes);
        assert(handles@ =~= spec_handles(start.functions.len() as int, functions.len() as int));
    }
    handles
}

/// What every body of a module is compiled against: the options, the native
/// module with all that it declares, and for each global, function, the
/// memory and the table of the module what stands for it there.
#[derive(Clone, Debug, PartialEq, Eq)]
pub struct ModuleCtx<'a, B> {
    pub opt: &'a Opt,
    pub module: NativeModule,
    /// The handle of the global that holds the memory image, where the
    /// module has a memory.
    pub linear_memory: Option<usize>,
    /// The handle of the global that holds the indirect-call table, where
    /// the module has a table.
    pub table: Option<usize>,
    pub types: Vec<FuncType>,
    /// What each global has become, index for index.
    pub globals: Vec<GlobalValue>,
    /// The functions of the module under their final names.
    pub functions: Vec<Function<B>>,
    /// The handle of the prototype of each function, index for index.
    pub function_handles: Vec<usize>,
}

pub struct ModuleCtxView<B: View> {
    pub opt: OptView,
    pub module: NativeModuleView,
    pub linear_memory: Option<usize>,
    pub table: Option<usize>,
    pub types: Seq<FuncTypeView>,
    pub globals: Seq<GlobalValue>,
    pub functions: Seq<FunctionView<B>>,
    pub function_handles: Seq<usize>,
}

impl<'a, B: View> View for ModuleCtx<'a, B> {
    type V = ModuleCtxView<B>;

    open spec fn view(&self) -> ModuleCtxView<B> {
        ModuleCtxView {
            opt: self.opt@,
            module: self.module@,
            linear_memory: self.linear_memory,
            table: self.table,
            types: views(self.types@),
            globals: self.globals@,
            functions: views(self.functions@),
            function_handles: self.function_handles@,
        }
    }
}

impl<B: View> ModuleCtxView<B> {
    /// Whether every handle that the context holds is a handle of its own
    /// module: that of each function and of each global with storage, that
    /// of the memory image and of the table, and those in the table.
    pub open spec fn well_formed(self) -> bool {
        &&& self.function_handles.len() == self.functions.len()
        &&& forall|i: int|
            0 <= i < self.function_handles.len() ==> (#[trigger] self.function_handles[i])
                < self.module.functions.len()
        &&& forall|i: int|
            0 <= i < self.globals.len() ==> (
            (#[trigger] self.globals[i]) matches GlobalValue::Native(handle) ==> handle
                < self.module.globals.len())
        &&& self.linear_memory matches Some(handle) ==> {
            &&& handle < self.module.globals.len()
            &&& self.module.globals[handle as int].content is Bytes
        }
        &&& self.table matches Some(handle) ==> {
            &&& handle < self.module.globals.len()
            &&& self.module.globals[handle as int].content
                matches GlobalContentView::FunctionPointers(slots)
            &&& forall|p: int|
                0 <= p < slots.len() ==> ((#[trigger] slots[p]) matches Some(function)
                    ==> function < self.module.functions.len())
        }
    }
}

/// The functions whose bodies are to be compiled, by their indices and in
/// the order of the declarations: those that the module implements.
pub open spec fn spec_bodies<B: View>(functions: Seq<FunctionView<B>>) -> Seq<usize>
    decreases functions.len(),
{
    if functions.len() == 0 {
        Seq::empty()
    } else if functions.last() is Implemented {
        spec_bodies(functions.drop_last()).push((functions.len() - 1) as usize)
    } else {
        spec_bodies(functions.drop_last())
    }
}

impl<'a, B: View> ModuleCtx<'a, B> {
    /// What global number `index` has become, if there is such a global.
    pub fn global(&self, index: u32) -> (value: Option<GlobalValue>)
        ensures
            value == if index < self@.globals.len() {
                Some(self@.globals[index as int])
            } else {
                None
            },
    {
        if (index as usize) < self.globals.len() {
            Some(self.globals[index as usize])
        } else {
            None
        }
    }

    /// The handle of the prototype of function number `index`, if there is
    /// such a function.
    pub fn function(&self, index: u32) -> (handle: Option<usize>)
        ensures
            handle == if index < self@.function_handles.len() {
                Some(self@.function_handles[index as int])
            } else {
                None
            },
    {
        if (index as usize) < self.function_handles.len() {
            Some(self.function_handles[index as usize])
        } else {
            None
        }
    }

    /// The functions whose bodies are to be compiled, by their indices and
    /// in the order in which to compile them.
    pub fn bodies(&self) -> (indices: Vec<usize>)
        ensures
            indices@ == spec_bodies(self@.functions),
    {
        let ghost functions = views(self.functions@);
        let mut indices: Vec<usize> = Vec::new();
        let mut i: usize = 0;
        proof {
            assert(functions.take(0) =~= Seq::<FunctionView<B>>::empty());
        }
        while i < self.functions.len()
            invariant
                i <= self.functions.len(),
                functions == views(self.functions@),
                indices@ == spec_bodies(functions.take(i as int)),
            decreases self.functions.len() - i,
        {
            proof {
                assert(functions.take(i as int + 1).drop_last() =~= functions.take(i as int));
                assert(functions[i as int] == self.functions@[i as int]@);
            }
            match &self.functions[i] {
                Function::Implemented { .. } => {
                    indices.push(i);
                },
                Function::Imported { .. } => {},
            }
            i = i + 1;
        }
        proof {
            assert(functions.take(i as int) =~= functions);
        }
        indices
    }
}

/// Whether the module declares a memory. However many it declares, there is
/// one image, and every data segment is applied to it.
pub open spec fn spec_has_memory<B: View>(module: WasmModuleView<B>) -> bool {
    module.memories.len() >= 1
}

/// Whether the module declares a table. However many it declares, there is
/// one table, every element segment is applied to it, and it is the size
/// that the first declares that must not be above the ceiling.
pub open spec fn spec_has_table<B: View>(module: WasmModuleView<B>) -> bool {
    module.tables.len() >= 1
}

/// The fault for which a module is not lowered: the first of a faulty
/// export, a faulty global, a fault in the data segments where the module
/// has a memory, and a fault in its table where it has one.
pub open spec fn spec_module_fault<B: View>(module: WasmModuleView<B>) -> Option<CodegenError> {
    let exports = first_fault(
        spec_export_faults(
            module.exports,
            module.functions.len() as int,
            module.globals.len() as int,
        ),
    );
    let globals = first_fault(
        spec_global_faults(spec_exported_globals(module.globals, module.exports)),
    );
    let memory = if spec_has_memory(module) {
        spec_memory_fault(module.data_initializers)
    } else {
        None
    };
    let table = if spec_has_table(module) {
        spec_table_fault(
            module.tables[0].limits,
            module.table_initializers,
            module.functions.len() as int,
        )
    } else {
        None
    };
    if exports is Some {
        exports
    } else if globals is Some {
        globals
    } else if memory is Some {
        memory
    } else {
        table
    }
}

/// The native module of a module without fault, before its memory and its
/// table are added: the storage of its globals and the prototypes of its
/// functions, each in the order of the declarations.
pub open spec fn spec_declarations<B: View>(
    opt: OptView,
    module: WasmModuleView<B>,
) -> NativeModuleView {
    NativeModuleView {
        name: module.source_name,
        target: opt.target,
        layout: opt.layout,
        globals: spec_storages(
            opt.inline_constant_globals,
            spec_exported_globals(module.globals, module.exports),
        ),
        functions: spec_prototypes(spec_exported_functions(module.functions, module.exports)),
    }
}

/// The native module with the memory image, where the module has a memory.
pub open spec fn spec_with_memory<B: View>(
    opt: OptView,
    module: WasmModuleView<B>,
) -> NativeModuleView {
    if spec_has_memory(module) {
        spec_declarations(opt, module).with_global(spec_linear_memory(module.data_initializers))
    } else {
        spec_declarations(opt, module)
    }
}

/// The native module with the memory image and the table, each where the
/// module has one.
pub open spec fn spec_with_table<B: View>(
    opt: OptView,
    module: WasmModuleView<B>,
) -> NativeModuleView {
    if spec_has_table(module) {
        spec_with_memory(opt, module).with_global(
            spec_table_global(
                module.table_initializers,
                spec_handles(0, module.functions.len() as int),
            ),
        )
    } else {
        spec_with_memory(opt, module)
    }
}

/// What a module without fault is lowered to.
pub open spec fn spec_lowering<B: View>(
    opt: OptView,
    module: WasmModuleView<B>,
) -> ModuleCtxView<B> {
    ModuleCtxView {
        opt,
        module: spec_with_table(opt, module),
        linear_memory: if spec_has_memory(module) {
            Some(spec_declarations(opt, module).globals.len() as usize)
        } else {
            None
        },
        table: if spec_has_table(module) {
            Some(spec_with_memory(opt, module).globals.len() as usize)
        } else {
            None
        },
        types: module.types,
        globals: spec_global_values(
            opt.inline_constant_globals,
            spec_exported_globals(module.globals, module.exports),
            0,
        ),
        functions: spec_exported_functions(module.functions, module.exports),
        function_handles: spec_handles(0, module.functions.len() as int),
    }
}

/// Lowers a module: builds the native module with all that the bodies of the
/// functions refer to, and compiles no body.
///
/// The native module gets its name from the module, and its target and data
/// layout from the options. Exported functions and globals get the names
/// under which they are exported. Then the globals are resolved, every
/// function is prototyped, and the memory image and the table are built,
/// each only where the module declares a memory or a table. A fault at any
/// of these steps refuses the module as a whole.
pub fn process_to_llvm<'a, B: View>(opt: &'a Opt, wasm_module: WasmModule<B>) -> (r: Result<
    ModuleCtx<'a, B>,
    CodegenError,
>)
    ensures
        match r {
            Ok(ctx) => {
                &&& spec_module_fault(wasm_module@) is None
                &&& ctx@ == spec_lowering(opt@, wasm_module@)
                &&& ctx@.well_formed()
                &&& forall|i: int|
                    0 <= i < ctx@.globals.len() ==> spec_resolves(
                        opt.inline_constant_globals,
                        spec_exported_globals(wasm_module@.globals, wasm_module@.exports)[i],
                        #[trigger] ctx@.globals[i],
                        ctx@.module.globals,
                    )
            },
            Err(e) => spec_module_fault(wasm_module@) == Some(e),
        },
{
    let ghost source = wasm_module@;
    let WasmModule {
        source_name,
        types,
        globals,
        functions,
        memories,
        data_initializers,
        tables,
        table_initializers,
        exports,
    } = wasm_module;
    let mut globals = globals;
    let mut functions = functions;
    let mut module = NativeModule::new(source_name);
    module.configure(&opt.target, &opt.layout);
    match apply_exports(&mut functions, &mut globals, &exports) {
        Err(e) => {
            return Err(e);
        },
        Ok(()) => {},
    }
    let ghost renamed = views(globals@);
    let values = match insert_globals(opt, &mut module, globals) {
        Err(e) => {
            return Err(e);
        },
        Ok(values) => values,
    };
    let function_handles = prototype_functions(&mut module, &functions);
    proof {
        assert(module@.globals =~= spec_declarations(opt@, source).globals);
        assert(module@.functions =~= spec_declarations(opt@, source).functions);
        assert(module@ == spec_declarations(opt@, source));
    }
    let linear_memory = if memories.len() >= 1 {
        match generate_linear_memory_simulation(&mut module, data_initializers) {
            Err(e) => {
                return Err(e);
            },
            Ok(handle) => Some(handle),
        }
    } else {
        None
    };
    let table = if tables.len() >= 1 {
        match generate_table_initialization_stub(
            &mut module,
            &tables[0].limits,
            &function_handles,
            table_initializers,
        ) {
            Err(e) => {
                return Err(e);
            },
            Ok(handle) => Some(handle),
        }
    } else {
        None
    };
    let ctx = ModuleCtx {
        opt,
        module,
        linear_memory,
        table,
        types,
        globals: values,
        functions,
        function_handles,
    };
    proof {
        assert(ctx@.module.globals.len() == ctx.module.globals.len());
        assert(source.functions.len() == ctx.functions.len());
        lemma_lowering_is_well_formed(opt@, source);
        assert forall|i: int| 0 <= i < ctx@.globals.len() implies spec_resolves(
            opt.inline_constant_globals,
            spec_exported_globals(source.globals, source.exports)[i],
            #[trigger] ctx@.globals[i],
            ctx@.module.globals,
        ) by {
            assert(spec_resolves(
                opt.inline_constant_globals,
                renamed[i],
                values@[i],
                spec_declarations(opt@, source).globals,
            ));
        }
    }
    Ok(ctx)
}

/// In a lowered module every global is resolved: what the context holds for
/// it is its first value where it is inlined, and else the handle of its
/// storage in the native module, whatever was added to that module after the
/// globals.
pub proof fn lemma_lowering_resolves_globals<B: View>(
    opt: OptView,
    module: WasmModuleView<B>,
    index: int,
)
    requires
        0 <= index < module.globals.len(),
        spec_lowering(opt, module).module.globals.len() <= usize::MAX,
    ensures
        spec_lowering(opt, module).globals.len() == module.globals.len(),
        spec_resolves(
            opt.inline_constant_globals,
            spec_exported_globals(module.globals, module.exports)[index],
            spec_lowering(opt, module).globals[index],
            spec_lowering(opt, module).module.globals,
        ),
{
    let globals = spec_exported_globals(module.globals, module.exports);
    let storage = spec_storages(opt.inline_constant_globals, globals);
    assert(Seq::<NativeGlobalView>::empty() + storage =~= storage);
    lemma_global_values_resolve(
        opt.inline_constant_globals,
        globals,
        Seq::<NativeGlobalView>::empty(),
        index,
    );
}

/// A lowered module is well formed.
pub proof fn lemma_lowering_is_well_formed<B: View>(opt: OptView, module: WasmModuleView<B>)
    requires
        spec_module_fault(module) is None,
        module.functions.len() <= usize::MAX,
        spec_lowering(opt, module).module.globals.len() <= usize::MAX,
    ensures
        spec_lowering(opt, module).well_formed(),
{
    let ctx = spec_lowering(opt, module);
    assert forall|i: int| 0 <= i < ctx.globals.len() implies ((
    #[trigger] ctx.globals[i]) matches GlobalValue::Native(handle) ==> handle
        < ctx.module.globals.len()) by {
        lemma_lowering_resolves_globals(opt, module, i);
    }
    if spec_has_table(module) {
        let handles = spec_handles(0, module.functions.len() as int);
        let segments = module.table_initializers;
        let slots = spec_table(segments, handles);
        let faults = spec_element_faults(segments, module.functions.len() as int);
        lemma_first_fault_is_least(faults);
        assert forall|p: int| 0 <= p < slots.len() implies ((#[trigger] slots[p]) matches Some(
            function,
        ) ==> function < ctx.module.functions.len()) by {
            lemma_slot_is_entry(segments, handles, p);
            if slots[p] is Some {
                let (k, e) = choose|k: int, e: int|
                    {
                        &&& 0 <= k < segments.len()
                        &&& 0 <= e < segments[k].function_indexes.len()
                        &&& slots[p]->0
                            == handles[#[trigger] segments[k].function_indexes[e] as int]
                    };
                assert(faults[k] is None);
                assert(segments[k].known(module.functions.len() as int));
                assert(segments[k].function_indexes[e] < module.functions.len());
            }
        }
    }
}

/// An export changes the name of the prototype of a function and nothing
/// else of it: an import keeps the module and the name that it comes from,
/// and an implemented function gets neither.
pub proof fn lemma_export_keeps_import<B: View>(
    functions: Seq<FunctionView<B>>,
    exports: Seq<ExportView>,
    index: int,
)
    requires
        0 <= index < functions.len(),
    ensures
        spec_prototype(spec_exported_functions(functions, exports)[index]).name
            == spec_function_name(exports, index, functions[index].name()),
        spec_prototype(spec_exported_functions(functions, exports)[index]).ty
            == functions[index].ty(),
        spec_prototype(spec_exported_functions(functions, exports)[index]).import
            == match functions[index] {
            FunctionView::Imported { source, import_name, .. } => Some(
                ImportMetadataView { module: source, name: import_name },
            ),
            FunctionView::Implemented { .. } => None,
        },
{
}

/// Every function of a lowered module has its prototype in the native
/// module, under its final name and with its signature, wherever in the
/// order of the declarations it stands: a body may call a function that is
/// declared after it, and itself.
pub proof fn lemma_every_function_is_prototyped<B: View>(
    opt: OptView,
    module: WasmModuleView<B>,
    index: int,
)
    requires
        0 <= index < module.functions.len(),
        module.functions.len() <= usize::MAX,
    ensures
        spec_lowering(opt, module).functions.len() == module.functions.len(),
        spec_lowering(opt, module).function_handles.len() == module.functions.len(),
        spec_lowering(opt, module).function_handles[index] < spec_lowering(
            opt,
            module,
        ).module.functions.len(),
        spec_lowering(opt, module).module.functions[spec_lowering(
            opt,
            module,
        ).function_handles[index] as int] == spec_prototype(
            spec_lowering(opt, module).functions[index],
        ),
{
}

/// A module whose table is declared larger than the ceiling is refused.
pub proof fn lemma_oversized_table_is_refused<B: View>(module: WasmModuleView<B>)
    requires
        spec_has_table(module),
        !spec_table_fits(module.tables[0].limits),
    ensures
        spec_module_fault(module) is Some,
{
}

} // verus!
