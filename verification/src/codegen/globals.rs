//! Globals: each declaration becomes either a constant that is put in place
//! of every read, or a storage location of the native module.

use vstd::prelude::*;
use crate::error::{
    first_fault, lemma_first_fault_at, lemma_first_fault_is_least, lemma_first_fault_none,
    CodegenError,
};
use crate::native::{
    Constant, GlobalContent, GlobalContentView, NativeGlobal, NativeGlobalView, NativeModule,
};
use crate::options::Opt;
use crate::types::{
    native_type_to_wasm, spec_native_type_to_wasm, spec_wasm_type_to_native, views,
    wasm_type_to_native, ValueType,
};
use crate::wasm::{Global, GlobalView, Instruction};

verus! {

/// What a global declaration has become.
#[derive(Clone, Copy, Debug, PartialEq, Eq, Structural)]
pub enum GlobalValue {
    /// A bare constant: the global has no storage.
    InlinedConstant(Constant),
    /// The storage location with this handle in the native module.
    Native(usize),
}

/// What a read of a global yields.
#[derive(Clone, Copy, Debug, PartialEq, Eq, Structural)]
pub enum Operand {
    /// The constant itself; no memory is read.
    Constant(Constant),
    /// The value read from the storage location with this handle.
    Load(usize),
}

impl GlobalValue {
    /// The value of the global at the place of a read.
    pub fn load(&self) -> (operand: Operand)
        ensures
            operand == match *self {
                GlobalValue::InlinedConstant(c) => Operand::Constant(c),
                GlobalValue::Native(handle) => Operand::Load(handle),
            },
    {
        match self {
            GlobalValue::InlinedConstant(c) => Operand::Constant(*c),
            GlobalValue::Native(handle) => Operand::Load(*handle),
        }
    }

    /// The storage location that a write to the global goes to. A global
    /// without storage cannot be written.
    pub fn store(&self) -> (target: Result<usize, CodegenError>)
        ensures
            target == match *self {
                GlobalValue::InlinedConstant(_) => Err::<usize, CodegenError>(
                    CodegenError::StoreToInlinedConstant,
                ),
                GlobalValue::Native(handle) => Ok(handle),
            },
    {
        match self {
            GlobalValue::InlinedConstant(_) => Err(CodegenError::StoreToInlinedConstant),
            GlobalValue::Native(handle) => Ok(*handle),
        }
    }
}

/// The constant that an instruction produces, if it does nothing else.
pub open spec fn spec_constant_of(instruction: Instruction) -> Option<Constant> {
    match instruction {
        Instruction::I32Const(v) => Some(Constant::I32(v)),
        Instruction::I64Const(v) => Some(Constant::I64(v)),
        Instruction::F32Const(bits) => Some(Constant::F32(bits)),
        Instruction::F64Const(bits) => Some(Constant::F64(bits)),
        _ => None,
    }
}

/// The constant that an instruction produces, if it does nothing else.
pub fn constant_of(instruction: Instruction) -> (constant: Option<Constant>)
    ensures
        constant == spec_constant_of(instruction),
{
    match instruction {
        Instruction::I32Const(v) => Some(Constant::I32(v)),
        Instruction::I64Const(v) => Some(Constant::I64(v)),
        Instruction::F32Const(bits) => Some(Constant::F32(bits)),
        Instruction::F64Const(bits) => Some(Constant::F64(bits)),
        _ => None,
    }
}

/// The value of the initializer of global number `global`, declared with
/// `content_type`: the initializer is one constant instruction, and the
/// native type of its constant, taken back to a WebAssembly type, is the
/// declared one.
pub open spec fn spec_initializer_to_value(
    global: usize,
    content_type: ValueType,
    initializer: Seq<Instruction>,
) -> Result<Constant, CodegenError> {
    if initializer.len() != 1 {
        Err(CodegenError::NonSimpleInitializer { global })
    } else {
        match spec_constant_of(initializer[0]) {
            None => Err(CodegenError::NonSimpleInitializer { global }),
            Some(c) => if spec_native_type_to_wasm(c.spec_native_type()) == content_type {
                Ok(c)
            } else {
                Err(CodegenError::InitializerTypeMismatch { global })
            },
        }
    }
}

/// Evaluates the initializer of global number `global`.
pub fn initializer_to_value(
    global: usize,
    content_type: ValueType,
    initializer: &Vec<Instruction>,
) -> (value: Result<Constant, CodegenError>)
    ensures
        value == spec_initializer_to_value(global, content_type, initializer@),
{
    if initializer.len() != 1 {
        return Err(CodegenError::NonSimpleInitializer { global });
    }
    match constant_of(initializer[0]) {
        None => Err(CodegenError::NonSimpleInitializer { global }),
        Some(c) => {
            let ty = native_type_to_wasm(c.get_type());
            if ty == content_type {
                Ok(c)
            } else {
                Err(CodegenError::InitializerTypeMismatch { global })
            }
        },
    }
}

/// An initializer is taken exactly when the type of its constant goes back
/// to the declared type; a constant of another type is a fault, never a
/// value of the declared type.
pub proof fn lemma_initializer_type_round_trip(
    global: usize,
    content_type: ValueType,
    initializer: Seq<Instruction>,
)
    ensures
        spec_initializer_to_value(global, content_type, initializer) matches Ok(c) ==> {
            &&& initializer.len() == 1
            &&& spec_constant_of(initializer[0]) == Some(c)
            &&& spec_native_type_to_wasm(c.spec_native_type()) == content_type
            &&& c.spec_native_type() == spec_wasm_type_to_native(content_type)
        },
        initializer.len() == 1 ==> (spec_constant_of(initializer[0]) matches Some(c)
            && spec_native_type_to_wasm(c.spec_native_type()) != content_type
            ==> spec_initializer_to_value(global, content_type, initializer) == Err::<
            Constant,
            CodegenError,
        >(CodegenError::InitializerTypeMismatch { global })),
{
}

/// The fault, if there is one, in global number `index`.
pub open spec fn spec_global_fault(index: int, g: GlobalView) -> Option<CodegenError> {
    match g {
        GlobalView::Imported { .. } => None,
        GlobalView::InModule { content_type, initializer, .. } => match spec_initializer_to_value(
            index as usize,
            content_type,
            initializer,
        ) {
            Ok(_) => None,
            Err(e) => Some(e),
        },
    }
}

/// The faults of the globals, one finding for each.
pub open spec fn spec_global_faults(globals: Seq<GlobalView>) -> Seq<Option<CodegenError>> {
    Seq::new(globals.len(), |i: int| spec_global_fault(i, globals[i]))
}

/// The constant that a global without fault starts with.
pub open spec fn spec_first_value(g: GlobalView) -> Constant
    recommends
        g is InModule,
{
    spec_constant_of(g->initializer[0])->0
}

/// The storage location of a global, if it gets one.
///
/// An imported global gets a declaration without a first value: the host
/// supplies it. A global of the module gets none if constants are inlined
/// and it is immutable, and otherwise a location that holds its first value.
/// Either location is flagged constant exactly if the global is immutable.
pub open spec fn spec_storage(inline: bool, g: GlobalView) -> Option<NativeGlobalView> {
    match g {
        GlobalView::Imported { name, content_type, mutable } => Some(
            NativeGlobalView {
                name,
                content: GlobalContentView::External(spec_wasm_type_to_native(content_type)),
                constant: !mutable,
            },
        ),
        GlobalView::InModule { generated_name, mutable, .. } => if inline && !mutable {
            None
        } else {
            Some(
                NativeGlobalView {
                    name: generated_name,
                    content: GlobalContentView::Scalar(spec_first_value(g)),
                    constant: !mutable,
                },
            )
        },
    }
}

/// The storage locations of a list of globals, in the order of the globals.
pub open spec fn spec_storages(inline: bool, globals: Seq<GlobalView>) -> Seq<NativeGlobalView>
    decreases globals.len(),
{
    if globals.len() == 0 {
        Seq::empty()
    } else {
        let before = spec_storages(inline, globals.drop_last());
        match spec_storage(inline, globals.last()) {
            Some(storage) => before.push(storage),
            None => before,
        }
    }
}

/// What a global becomes, where `slot` is the handle of the next storage
/// location: its first value if it gets no storage, else that handle.
pub open spec fn spec_global_value(inline: bool, g: GlobalView, slot: int) -> GlobalValue {
    if spec_storage(inline, g) is None {
        GlobalValue::InlinedConstant(spec_first_value(g))
    } else {
        GlobalValue::Native(slot as usize)
    }
}

/// What a list of globals becomes in a module that holds `base` globals
/// already: one value for each global, index for index.
pub open spec fn spec_global_values(inline: bool, globals: Seq<GlobalView>, base: int) -> Seq<
    GlobalValue,
> {
    Seq::new(
        globals.len(),
        |i: int|
            spec_global_value(
                inline,
                globals[i],
                base + spec_storages(inline, globals.take(i)).len(),
            ),
    )
}

/// Whether `value` stands for the global `g` in a module with the globals
/// `storage`: it is the first value of `g` where `g` gets no storage, and
/// else the handle of the location of `g`.
pub open spec fn spec_resolves(
    inline: bool,
    g: GlobalView,
    value: GlobalValue,
    storage: Seq<NativeGlobalView>,
) -> bool {
    match spec_storage(inline, g) {
        None => value == GlobalValue::InlinedConstant(spec_first_value(g)),
        Some(location) => {
            &&& value matches GlobalValue::Native(handle)
            &&& handle < storage.len()
            &&& storage[handle as int] == location
        },
    }
}

/// The storage of the first globals of a list is the start of the storage of
/// the whole list.
pub proof fn lemma_storages_prefix(inline: bool, globals: Seq<GlobalView>, i: int)
    requires
        0 <= i <= globals.len(),
    ensures
        spec_storages(inline, globals.take(i)).len() <= spec_storages(inline, globals).len(),
        spec_storages(inline, globals.take(i)) == spec_storages(inline, globals).take(
            spec_storages(inline, globals.take(i)).len() as int,
        ),
    decreases globals.len() - i,
{
    if i == globals.len() {
        assert(globals.take(i) =~= globals);
        assert(spec_storages(inline, globals).take(spec_storages(inline, globals).len() as int)
            =~= spec_storages(inline, globals));
    } else {
        lemma_storages_step(inline, globals, i);
        lemma_storages_prefix(inline, globals, i + 1);
        let longer = spec_storages(inline, globals.take(i + 1));
        let shorter = spec_storages(inline, globals.take(i));
        assert(shorter =~= longer.take(shorter.len() as int));
        assert(shorter =~= spec_storages(inline, globals).take(shorter.len() as int));
    }
}

/// In a module that held the globals `before` and to which the storage of
/// `globals` was added, the value of each global stands for that global.
pub proof fn lemma_global_values_resolve(
    inline: bool,
    globals: Seq<GlobalView>,
    before: Seq<NativeGlobalView>,
    i: int,
)
    requires
        0 <= i < globals.len(),
        before.len() + spec_storages(inline, globals).len() <= usize::MAX,
    ensures
        spec_resolves(
            inline,
            globals[i],
            spec_global_values(inline, globals, before.len() as int)[i],
            before + spec_storages(inline, globals),
        ),
{
    lemma_storages_step(inline, globals, i);
    lemma_storages_prefix(inline, globals, i);
    lemma_storages_prefix(inline, globals, i + 1);
    let count = spec_storages(inline, globals.take(i)).len() as int;
    if spec_storage(inline, globals[i]) is Some {
        let longer = spec_storages(inline, globals.take(i + 1));
        assert(longer[count] == spec_storage(inline, globals[i])->0);
        assert(spec_storages(inline, globals).take(longer.len() as int)[count] == longer[count]);
    }
}

/// An immutable global of the module, with constants inlined, is the value
/// of its initializer and has no storage; with constants not inlined, or
/// where the global is mutable, it is a storage location that starts with
/// that value and is flagged constant exactly if the global is immutable.
pub proof fn lemma_in_module_global(
    inline: bool,
    globals: Seq<GlobalView>,
    before: Seq<NativeGlobalView>,
    i: int,
)
    requires
        0 <= i < globals.len(),
        globals[i] is InModule,
        first_fault(spec_global_faults(globals)) is None,
        before.len() + spec_storages(inline, globals).len() <= usize::MAX,
    ensures
        ({
            let g = globals[i];
            let value = spec_global_values(inline, globals, before.len() as int)[i];
            let storage = before + spec_storages(inline, globals);
            &&& spec_initializer_to_value(i as usize, g->InModule_content_type, g->initializer)
                matches Ok(c)
            &&& if inline && !g->InModule_mutable {
                value == GlobalValue::InlinedConstant(c)
            } else {
                &&& value matches GlobalValue::Native(handle)
                &&& handle < storage.len()
                &&& storage[handle as int] == (NativeGlobalView {
                    name: g->generated_name,
                    content: GlobalContentView::Scalar(c),
                    constant: !g->InModule_mutable,
                })
            }
        }),
{
    lemma_first_fault_is_least(spec_global_faults(globals));
    assert(spec_global_faults(globals)[i] is None);
    lemma_global_values_resolve(inline, globals, before, i);
}

/// An imported global is a storage location without a first value, flagged
/// constant exactly if the global is immutable, whatever the options say.
pub proof fn lemma_imported_global(
    inline: bool,
    globals: Seq<GlobalView>,
    before: Seq<NativeGlobalView>,
    i: int,
)
    requires
        0 <= i < globals.len(),
        globals[i] is Imported,
        before.len() + spec_storages(inline, globals).len() <= usize::MAX,
    ensures
        ({
            let g = globals[i];
            let value = spec_global_values(inline, globals, before.len() as int)[i];
            let storage = before + spec_storages(inline, globals);
            &&& value matches GlobalValue::Native(handle)
            &&& handle < storage.len()
            &&& storage[handle as int] == (NativeGlobalView {
                name: g->name,
                content: GlobalContentView::External(
                    spec_wasm_type_to_native(g->Imported_content_type),
                ),
                constant: !g->Imported_mutable,
            })
        }),
{
    lemma_global_values_resolve(inline, globals, before, i);
}

proof fn lemma_storages_step(inline: bool, globals: Seq<GlobalView>, i: int)
    requires
        0 <= i < globals.len(),
    ensures
        spec_storages(inline, globals.take(i + 1)) == match spec_storage(inline, globals[i]) {
            Some(storage) => spec_storages(inline, globals.take(i)).push(storage),
            None => spec_storages(inline, globals.take(i)),
        },
{
    assert(globals.take(i + 1).drop_last() =~= globals.take(i));
}

/// Checks every initializer and reports the first fault.
fn check_globals(globals: &Vec<Global>) -> (r: Result<(), CodegenError>)
    ensures
        r matches Err(e) ==> first_fault(spec_global_faults(views(globals@))) == Some(e),
        r is Ok ==> forall|i: int|
            0 <= i < globals.len() ==> spec_global_fault(i, #[trigger] globals@[i]@) is None,
{
    let ghost faults = spec_global_faults(views(globals@));
    let mut i: usize = 0;
    while i < globals.len()
        invariant
            i <= globals.len(),
            faults == spec_global_faults(views(globals@)),
            forall|j: int| 0 <= j < i ==> spec_global_fault(j, #[trigger] globals@[j]@) is None,
        decreases globals.len() - i,
    {
        match &globals[i] {
            Global::Imported { .. } => {},
            Global::InModule { content_type, initializer, .. } => {
                match initializer_to_value(i, *content_type, initializer) {
                    Ok(_) => {},
                    Err(e) => {
                        proof {
                            assert forall|j: int| 0 <= j < i implies faults[j] is None by {
                                assert(spec_global_fault(j, globals@[j]@) is None);
                            }
                            lemma_first_fault_at(faults, i as int);
                        }
                        return Err(e);
                    },
                }
            },
        }
        i = i + 1;
    }
    Ok(())
}

/// Turns each global into its value and adds the storage locations to the
/// native module, in the order of the declarations. A module with a faulty
/// initializer is refused as a whole: nothing is added for it.
pub fn insert_native_globals(opt: &Opt, module: &mut NativeModule, globals: Vec<Global>) -> (r:
    Result<Vec<GlobalValue>, CodegenError>)
    ensures
        match r {
            Ok(values) => {
                &&& first_fault(spec_global_faults(views(globals@))) is None
                &&& final(module)@ == old(module)@.with_globals(
                    spec_storages(opt.inline_constant_globals, views(globals@)),
                )
                &&& values@ == spec_global_values(
                    opt.inline_constant_globals,
                    views(globals@),
                    old(module)@.globals.len() as int,
                )
                &&& forall|i: int|
                    0 <= i < globals.len() ==> spec_resolves(
                        opt.inline_constant_globals,
                        #[trigger] views(globals@)[i],
                        values@[i],
                        final(module)@.globals,
                    )
            },
            Err(e) => {
                &&& first_fault(spec_global_faults(views(globals@))) == Some(e)
                &&& *final(module) == *old(module)
            },
        },
{
    let inline = opt.inline_constant_globals;
    let ghost gv = views(globals@);
    let ghost start = module@;
    let ghost base = module@.globals.len() as int;
    match check_globals(&globals) {
        Err(e) => {
            return Err(e);
        },
        Ok(()) => {},
    }
    proof {
        assert forall|j: int| 0 <= j < gv.len() implies spec_global_faults(gv)[j] is None by {
            assert(spec_global_fault(j, globals@[j]@) is None);
        }
        lemma_first_fault_none(spec_global_faults(gv));
        assert(start.with_globals(spec_storages(inline, gv.take(0))) =~= start);
    }
    let mut values: Vec<GlobalValue> = Vec::new();
    let mut i: usize = 0;
    while i < globals.len()
        invariant
            i <= globals.len(),
            gv == views(globals@),
            inline == opt.inline_constant_globals,
            base == start.globals.len(),
            forall|j: int| 0 <= j < gv.len() ==> spec_global_fault(j, #[trigger] gv[j]) is None,
            module@ == start.with_globals(spec_storages(inline, gv.take(i as int))),
            values@.len() == i,
            forall|j: int|
                0 <= j < i ==> #[trigger] values@[j] == spec_global_value(
                    inline,
                    gv[j],
                    base + spec_storages(inline, gv.take(j)).len(),
                ),
            forall|j: int|
                0 <= j < i ==> spec_resolves(inline, #[trigger] gv[j], values@[j], module@.globals),
        decreases globals.len() - i,
    {
        proof {
            lemma_storages_step(inline, gv, i as int);
            assert(spec_global_fault(i as int, gv[i as int]) is None);
        }
        let ghost before = module@;
        let value = match &globals[i] {
            Global::Imported { name, content_type, mutable } => {
                let handle = module.add_global(
                    NativeGlobal {
                        name: name.clone(),
                        content: GlobalContent::External(wasm_type_to_native(*content_type)),
                        constant: !*mutable,
                    },
                );
                GlobalValue::Native(handle)
            },
            Global::InModule { generated_name, content_type, mutable, initializer } => {
                let c = constant_of(initializer[0]).unwrap();
                if inline && !*mutable {
                    GlobalValue::InlinedConstant(c)
                } else {
                    let handle = module.add_global(
                        NativeGlobal {
                            name: generated_name.clone(),
                            content: GlobalContent::Scalar(c),
                            constant: !*mutable,
                        },
                    );
                    GlobalValue::Native(handle)
                }
            },
        };
        values.push(value);
        proof {
            let next = spec_storages(inline, gv.take(i as int + 1));
            assert(module@.globals =~= start.globals + next);
            assert(module@ == start.with_globals(next));
            assert forall|j: int| 0 <= j < i + 1 implies spec_resolves(
                inline,
                #[trigger] gv[j],
                values@[j],
                module@.globals,
            ) by {
                if j < i {
                    assert(spec_resolves(inline, gv[j], values@[j], before.globals));
                }
            }
        }
        i = i + 1;
    }
    proof {
        assert(gv.take(i as int) =~= gv);
        assert(values@ =~= spec_global_values(inline, gv, base));
    }
    Ok(values)
}

/// Turns each global into its value and adds the storage locations to the
/// native module.
pub fn insert_globals(opt: &Opt, module: &mut NativeModule, globals: Vec<Global>) -> (r: Result<
    Vec<GlobalValue>,
    CodegenError,
>)
    ensures
        match r {
            Ok(values) => {
                &&& first_fault(spec_global_faults(views(globals@))) is None
                &&& final(module)@ == old(module)@.with_globals(
                    spec_storages(opt.inline_constant_globals, views(globals@)),
                )
                &&& values@ == spec_global_values(
                    opt.inline_constant_globals,
                    views(globals@),
                    old(module)@.globals.len() as int,
                )
                &&& forall|i: int|
                    0 <= i < globals.len() ==> spec_resolves(
                        opt.inline_constant_globals,
                        #[trigger] views(globals@)[i],
                        values@[i],
                        final(module)@.globals,
                    )
            },
            Err(e) => {
                &&& first_fault(spec_global_faults(views(globals@))) == Some(e)
                &&& *final(module) == *old(module)
            },
        },
{
    insert_native_globals(opt, module, globals)
}

} // verus!
