//! Value types on both sides of the lowering, function signatures and size
//! limits.

use vstd::prelude::*;

verus! {

/// The views of the items of a sequence, in the same order.
pub open spec fn views<T: View>(s: Seq<T>) -> Seq<T::V> {
    s.map_values(|x: T| x@)
}

/// The type of a WebAssembly value.
#[derive(Clone, Copy, Debug, PartialEq, Eq, Structural)]
pub enum ValueType {
    I32,
    I64,
    F32,
    F64,
}

/// A first-class scalar type of the native module.
#[derive(Clone, Copy, Debug, PartialEq, Eq, Structural)]
pub enum NativeType {
    Int32,
    Int64,
    Float,
    Double,
}

/// The native type that stores a value of WebAssembly type `ty`.
pub open spec fn spec_wasm_type_to_native(ty: ValueType) -> NativeType {
    match ty {
        ValueType::I32 => NativeType::Int32,
        ValueType::I64 => NativeType::Int64,
        ValueType::F32 => NativeType::Float,
        ValueType::F64 => NativeType::Double,
    }
}

/// The WebAssembly type whose values the native type `ty` stores.
pub open spec fn spec_native_type_to_wasm(ty: NativeType) -> ValueType {
    match ty {
        NativeType::Int32 => ValueType::I32,
        NativeType::Int64 => ValueType::I64,
        NativeType::Float => ValueType::F32,
        NativeType::Double => ValueType::F64,
    }
}

pub fn wasm_type_to_native(ty: ValueType) -> (native: NativeType)
    ensures
        native == spec_wasm_type_to_native(ty),
{
    match ty {
        ValueType::I32 => NativeType::Int32,
        ValueType::I64 => NativeType::Int64,
        ValueType::F32 => NativeType::Float,
        ValueType::F64 => NativeType::Double,
    }
}

pub fn native_type_to_wasm(ty: NativeType) -> (wasm: ValueType)
    ensures
        wasm == spec_native_type_to_wasm(ty),
{
    match ty {
        NativeType::Int32 => ValueType::I32,
        NativeType::Int64 => ValueType::I64,
        NativeType::Float => ValueType::F32,
        NativeType::Double => ValueType::F64,
    }
}

/// The two mappings are inverse to each other.
pub proof fn lemma_type_conversion_round_trip(wasm: ValueType, native: NativeType)
    ensures
        spec_native_type_to_wasm(spec_wasm_type_to_native(wasm)) == wasm,
        spec_wasm_type_to_native(spec_native_type_to_wasm(native)) == native,
{
}

/// The signature of a function.
#[derive(Clone, Debug, PartialEq, Eq)]
pub struct FuncType {
    pub params: Vec<ValueType>,
    pub returns: Vec<ValueType>,
}

/// A signature as a pair of sequences.
pub struct FuncTypeView {
    pub params: Seq<ValueType>,
    pub returns: Seq<ValueType>,
}

impl View for FuncType {
    type V = FuncTypeView;

    open spec fn view(&self) -> FuncTypeView {
        FuncTypeView { params: self.params@, returns: self.returns@ }
    }
}

/// A copy of a list of value types.
pub fn copy_value_types(types: &Vec<ValueType>) -> (r: Vec<ValueType>)
    ensures
        r@ == types@,
{
    let mut r: Vec<ValueType> = Vec::new();
    let mut i: usize = 0;
    while i < types.len()
        invariant
            i <= types.len(),
            r@ == types@.take(i as int),
        decreases types.len() - i,
    {
        r.push(types[i]);
        i = i + 1;
    }
    r
}

impl FuncType {
    /// A copy of this signature.
    pub fn duplicate(&self) -> (r: FuncType)
        ensures
            r@ == self@,
    {
        FuncType {
            params: copy_value_types(&self.params),
            returns: copy_value_types(&self.returns),
        }
    }
}

/// The declared size of a memory or a table: the initial size and, where
/// one is declared, the largest that it may grow to.
#[derive(Clone, Copy, Debug, PartialEq, Eq, Structural)]
pub struct ResizableLimits {
    pub initial: u32,
    pub maximum: Option<u32>,
}

} // verus!
