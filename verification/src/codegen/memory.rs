//! Linear memory: the data segments of a module become one image, a whole
//! number of pages long, which the native module holds as a single global.

use vstd::prelude::*;
use vstd::string::*;
use crate::error::{first_fault, lemma_first_fault_at, lemma_first_fault_none, CodegenError};
use crate::native::{
    Constant, GlobalContent, GlobalContentView, NativeFunction, NativeFunctionView, NativeGlobal,
    NativeGlobalView, NativeModule,
};
use crate::text::{append_decimal, numbered, spec_decimal, spec_numbered};
use crate::types::{views, FuncType, FuncTypeView, ResizableLimits, ValueType};
use crate::wasm::{
    spec_chunks, DataInitializer, DataInitializerView, ImplementedFunction,
    ImplementedFunctionView, Instruction,
};

verus! {

/// The size of a page of linear memory, in bytes.
pub const PAGE_SIZE: usize = 65536;

/// Why an offset expression gives no offset.
#[derive(Clone, Copy, Debug, PartialEq, Eq, Structural)]
pub enum OffsetFault {
    /// It is not one constant instruction.
    NotConstant,
    /// It is a constant, but no 32-bit integer.
    NotI32,
}

/// The offset that an offset expression gives: the value of its one
/// instruction, a 32-bit integer constant. A constant of any other type, a
/// 64-bit integer too, gives no offset.
pub open spec fn spec_evaluate_offset(expression: Seq<Instruction>) -> Result<i32, OffsetFault> {
    if expression.len() != 1 {
        Err(OffsetFault::NotConstant)
    } else {
        match expression[0] {
            Instruction::I32Const(v) => Ok(v),
            Instruction::I64Const(_) => Err(OffsetFault::NotI32),
            Instruction::F32Const(_) => Err(OffsetFault::NotI32),
            Instruction::F64Const(_) => Err(OffsetFault::NotI32),
            _ => Err(OffsetFault::NotConstant),
        }
    }
}

/// Evaluates an offset expression.
pub fn evaluate_offset(expression: &Vec<Instruction>) -> (offset: Result<i32, OffsetFault>)
    ensures
        offset == spec_evaluate_offset(expression@),
{
    if expression.len() != 1 {
        return Err(OffsetFault::NotConstant);
    }
    match expression[0] {
        Instruction::I32Const(v) => Ok(v),
        Instruction::I64Const(_) => Err(OffsetFault::NotI32),
        Instruction::F32Const(_) => Err(OffsetFault::NotI32),
        Instruction::F64Const(_) => Err(OffsetFault::NotI32),
        _ => Err(OffsetFault::NotConstant),
    }
}

impl DataInitializerView {
    /// The offset of the segment, where its expression gives one.
    pub open spec fn offset(self) -> int {
        spec_evaluate_offset(self.offset_expression)->Ok_0 as int
    }

    /// Whether the segment writes the byte at position `p`.
    pub open spec fn covers(self, p: int) -> bool {
        self.offset() <= p < self.offset() + self.payload().len()
    }

    /// Whether every byte that the segment writes lies in an image of `size`
    /// bytes. A segment without bytes writes nothing.
    pub open spec fn fits(self, size: int) -> bool {
        self.payload().len() == 0 || (0 <= self.offset() && self.offset() + self.payload().len()
            <= size)
    }
}

/// The number of bytes that the segments write, those written twice counted
/// twice.
pub open spec fn spec_total_written(segments: Seq<DataInitializerView>) -> nat
    decreases segments.len(),
{
    if segments.len() == 0 {
        0
    } else {
        spec_total_written(segments.drop_last()) + segments.last().payload().len()
    }
}

/// The size of the image for `total` written bytes: `total` rounded up to
/// whole pages.
pub open spec fn spec_image_size(total: nat) -> nat {
    ((total + PAGE_SIZE - 1) as nat / PAGE_SIZE as nat) * PAGE_SIZE as nat
}

/// The byte at position `p` of the image: the byte that the last of the
/// segments that cover `p` writes there, and zero where none does.
pub open spec fn spec_image_byte(segments: Seq<DataInitializerView>, p: int) -> u8
    decreases segments.len(),
{
    if segments.len() == 0 {
        0
    } else if segments.last().covers(p) {
        segments.last().payload()[p - segments.last().offset()]
    } else {
        spec_image_byte(segments.drop_last(), p)
    }
}

/// The image of the segments.
pub open spec fn spec_image(segments: Seq<DataInitializerView>) -> Seq<u8> {
    Seq::new(spec_image_size(spec_total_written(segments)), |p: int| spec_image_byte(segments, p))
}

/// An image is a whole number of pages: the least that holds as many bytes
/// as are written.
pub proof fn lemma_image_size(total: nat)
    ensures
        spec_image_size(total) % (PAGE_SIZE as nat) == 0,
        total <= spec_image_size(total) < total + PAGE_SIZE,
{
    let pages = (total + 65535) as nat / 65536;
    assert(spec_image_size(total) == pages * 65536);
    assert((pages * 65536) % 65536 == 0) by (nonlinear_arith);
}

/// A byte that no segment covers is zero.
pub proof fn lemma_untouched_byte(segments: Seq<DataInitializerView>, p: int)
    requires
        forall|i: int| 0 <= i < segments.len() ==> !(#[trigger] segments[i]).covers(p),
    ensures
        spec_image_byte(segments, p) == 0,
    decreases segments.len(),
{
    if segments.len() > 0 {
        assert(!segments[segments.len() - 1].covers(p));
        assert forall|i: int| 0 <= i < segments.drop_last().len() implies !(
        #[trigger] segments.drop_last()[i]).covers(p) by {
            assert(!segments[i].covers(p));
        }
        lemma_untouched_byte(segments.drop_last(), p);
    }
}

/// A byte is what the last segment that covers it writes there, whatever
/// the segments before it write.
pub proof fn lemma_covered_byte(segments: Seq<DataInitializerView>, k: int, p: int)
    requires
        0 <= k < segments.len(),
        segments[k].covers(p),
        forall|i: int| k < i < segments.len() ==> !(#[trigger] segments[i]).covers(p),
    ensures
        spec_image_byte(segments, p) == segments[k].payload()[p - segments[k].offset()],
    decreases segments.len(),
{
    if k < segments.len() - 1 {
        assert(!segments[segments.len() - 1].covers(p));
        assert forall|i: int| k < i < segments.drop_last().len() implies !(
        #[trigger] segments.drop_last()[i]).covers(p) by {
            assert(!segments[i].covers(p));
        }
        lemma_covered_byte(segments.drop_last(), k, p);
    }
}

/// The fault in the offset of data segment number `index`, if it has one.
pub open spec fn spec_offset_fault(index: int, segment: DataInitializerView) -> Option<
    CodegenError,
> {
    match spec_evaluate_offset(segment.offset_expression) {
        Ok(_) => None,
        Err(OffsetFault::NotConstant) => Some(
            CodegenError::NonConstantOffset { segment: index as usize },
        ),
        Err(OffsetFault::NotI32) => Some(
            CodegenError::OffsetNotI32 { segment: index as usize },
        ),
    }
}

pub open spec fn spec_offset_faults(segments: Seq<DataInitializerView>) -> Seq<
    Option<CodegenError>,
> {
    Seq::new(segments.len(), |i: int| spec_offset_fault(i, segments[i]))
}

/// For each segment, whether it writes outside an image of `size` bytes.
pub open spec fn spec_bounds_faults(segments: Seq<DataInitializerView>, size: int) -> Seq<
    Option<CodegenError>,
> {
    Seq::new(
        segments.len(),
        |i: int|
            if segments[i].fits(size) {
                None
            } else {
                Some(CodegenError::SegmentOutOfBounds { segment: i as usize })
            },
    )
}

/// The fault for which the segments have no image: the first offset that is
/// no 32-bit integer constant; else an image that is larger than a buffer can
/// be;
/// else the first segment that writes outside the image.
pub open spec fn spec_memory_fault(segments: Seq<DataInitializerView>) -> Option<CodegenError> {
    let size = spec_image_size(spec_total_written(segments));
    if first_fault(spec_offset_faults(segments)) is Some {
        first_fault(spec_offset_faults(segments))
    } else if size > isize::MAX {
        Some(CodegenError::ImageTooLarge)
    } else {
        first_fault(spec_bounds_faults(segments, size as int))
    }
}

/// The chunks of a body, one after the other.
fn concat_body(body: &Vec<Vec<u8>>) -> (payload: Vec<u8>)
    ensures
        payload@ == spec_chunks(body@).flatten(),
{
    let ghost chunks = spec_chunks(body@);
    let mut payload: Vec<u8> = Vec::new();
    let mut i: usize = 0;
    proof {
        assert(chunks.take(0) =~= Seq::<Seq<u8>>::empty());
    }
    while i < body.len()
        invariant
            i <= body.len(),
            chunks == spec_chunks(body@),
            payload@ == chunks.take(i as int).flatten(),
        decreases body.len() - i,
    {
        let chunk = &body[i];
        let ghost before = payload@;
        let mut j: usize = 0;
        while j < chunk.len()
            invariant
                j <= chunk.len(),
                payload@ == before + chunk@.take(j as int),
            decreases chunk.len() - j,
        {
            payload.push(chunk[j]);
            proof {
                assert(chunk@.take(j as int + 1) =~= chunk@.take(j as int).push(chunk@[j as int]));
            }
            j = j + 1;
        }
        proof {
            assert(chunk@.take(j as int) =~= chunk@);
            assert(chunks.take(i as int + 1) =~= chunks.take(i as int).push(chunks[i as int]));
            chunks.take(i as int).lemma_flatten_push(chunks[i as int]);
        }
        i = i + 1;
    }
    proof {
        assert(chunks.take(i as int) =~= chunks);
    }
    payload
}

proof fn lemma_total_written_step(segments: Seq<DataInitializerView>, i: int)
    requires
        0 <= i < segments.len(),
    ensures
        spec_total_written(segments.take(i + 1)) == spec_total_written(segments.take(i))
            + segments[i].payload().len(),
{
    assert(segments.take(i + 1).drop_last() =~= segments.take(i));
}

proof fn lemma_image_byte_step(segments: Seq<DataInitializerView>, i: int, p: int)
    requires
        0 <= i < segments.len(),
    ensures
        spec_image_byte(segments.take(i + 1), p) == if segments[i].covers(p) {
            segments[i].payload()[p - segments[i].offset()]
        } else {
            spec_image_byte(segments.take(i), p)
        },
{
    assert(segments.take(i + 1).drop_last() =~= segments.take(i));
}

/// The size in bytes of the image for `total` written bytes; `None` stands
/// for a total, or a size, that no buffer can have.
fn image_size(total: Option<usize>) -> (size: Option<usize>)
    ensures
        match size {
            Some(s) => total is Some && s == spec_image_size(total->0 as nat) && s <= isize::MAX,
            None => total is Some ==> spec_image_size(total->0 as nat) > isize::MAX,
        },
{
    match total {
        None => None,
        Some(t) => {
            let pages = if t % PAGE_SIZE == 0 {
                t / PAGE_SIZE
            } else {
                t / PAGE_SIZE + 1
            };
            let limit = (isize::MAX as usize) / PAGE_SIZE;
            if pages > limit {
                None
            } else {
                Some(pages * PAGE_SIZE)
            }
        },
    }
}

/// Writes `data` into `image` from position `offset` on.
fn write_segment(image: &mut Vec<u8>, offset: usize, data: &Vec<u8>)
    requires
        offset + data.len() <= old(image).len(),
    ensures
        final(image)@.len() == old(image)@.len(),
        forall|p: int|
            0 <= p < old(image)@.len() ==> #[trigger] final(image)@[p] == if offset <= p < offset
                + data.len() {
                data@[p - offset]
            } else {
                old(image)@[p]
            },
{
    let mut j: usize = 0;
    while j < data.len()
        invariant
            j <= data.len(),
            offset + data.len() <= image.len(),
            image@.len() == old(image)@.len(),
            forall|p: int|
                0 <= p < image@.len() ==> #[trigger] image@[p] == if offset <= p < offset + j {
                    data@[p - offset]
                } else {
                    old(image)@[p]
                },
        decreases data.len() - j,
    {
        image.set(offset + j, data[j]);
        j = j + 1;
    }
}

/// Builds the memory image of the data segments.
///
/// The segments are applied in their order to an image of zeros, so that of
/// two segments that write the same byte the later one stays. The size of
/// the image is the number of bytes that the segments write, rounded up to
/// whole pages, wherever they write them; a segment that writes outside the
/// image is a fault, and the image does not grow for it.
pub fn build_memory_image(initializers: &Vec<DataInitializer>) -> (r: Result<Vec<u8>, CodegenError>)
    ensures
        match r {
            Ok(image) => {
                &&& spec_memory_fault(views(initializers@)) is None
                &&& image@ == spec_image(views(initializers@))
            },
            Err(e) => spec_memory_fault(views(initializers@)) == Some(e),
        },
{
    let ghost segments = views(initializers@);
    let mut offsets: Vec<i32> = Vec::new();
    let mut payloads: Vec<Vec<u8>> = Vec::new();
    let mut total: Option<usize> = Some(0);
    let mut i: usize = 0;
    proof {
        assert(segments.take(0) =~= Seq::<DataInitializerView>::empty());
    }
    while i < initializers.len()
        invariant
            i <= initializers.len(),
            segments == views(initializers@),
            offsets@.len() == i,
            payloads@.len() == i,
            forall|j: int|
                0 <= j < i ==> spec_evaluate_offset(segments[j].offset_expression) == Ok::<
                    i32,
                    OffsetFault,
                >(#[trigger] offsets@[j]),
            forall|j: int| 0 <= j < i ==> (#[trigger] payloads@[j])@ == segments[j].payload(),
            match total {
                Some(t) => t == spec_total_written(segments.take(i as int)),
                None => spec_total_written(segments.take(i as int)) > usize::MAX,
            },
        decreases initializers.len() - i,
    {
        let initializer = &initializers[i];
        assert(segments[i as int] == initializer@);
        let offset = match evaluate_offset(&initializer.offset_expression) {
            Ok(offset) => offset,
            Err(fault) => {
                proof {
                    let faults = spec_offset_faults(segments);
                    assert forall|j: int| 0 <= j < i implies faults[j] is None by {
                        assert(spec_evaluate_offset(segments[j].offset_expression) == Ok::<
                            i32,
                            OffsetFault,
                        >(offsets@[j]));
                    }
                    lemma_first_fault_at(faults, i as int);
                }
                return Err(
                    match fault {
                        OffsetFault::NotConstant => CodegenError::NonConstantOffset { segment: i },
                        OffsetFault::NotI32 => CodegenError::OffsetNotI32 { segment: i },
                    },
                );
            },
        };
        let payload = concat_body(&initializer.body);
        proof {
            lemma_total_written_step(segments, i as int);
        }
        total =
        match total {
            Some(t) => t.checked_add(payload.len()),
            None => None,
        };
        offsets.push(offset);
        payloads.push(payload);
        i = i + 1;
    }
    proof {
        assert(segments.take(i as int) =~= segments);
        let faults = spec_offset_faults(segments);
        assert forall|j: int| 0 <= j < faults.len() implies faults[j] is None by {
            assert(spec_evaluate_offset(segments[j].offset_expression) == Ok::<i32, OffsetFault>(
                offsets@[j],
            ));
        }
        lemma_first_fault_none(faults);
    }
    let size = match image_size(total) {
        Some(size) => size,
        None => {
            return Err(CodegenError::ImageTooLarge);
        },
    };
    let mut image: Vec<u8> = vec![0u8; size];
    let mut k: usize = 0;
    while k < initializers.len()
        invariant
            k <= initializers.len(),
            segments == views(initializers@),
            offsets@.len() == initializers.len(),
            payloads@.len() == initializers.len(),
            forall|j: int|
                0 <= j < offsets@.len() ==> spec_evaluate_offset(segments[j].offset_expression)
                    == Ok::<i32, OffsetFault>(#[trigger] offsets@[j]),
            forall|j: int|
                0 <= j < payloads@.len() ==> (#[trigger] payloads@[j])@ == segments[j].payload(),
            first_fault(spec_offset_faults(segments)) is None,
            size == spec_image_size(spec_total_written(segments)),
            size <= isize::MAX,
            image@.len() == size,
            forall|p: int|
                0 <= p < size ==> #[trigger] image@[p] == spec_image_byte(
                    segments.take(k as int),
                    p,
                ),
            forall|j: int| 0 <= j < k ==> (#[trigger] segments[j]).fits(size as int),
        decreases initializers.len() - k,
    {
        let data = &payloads[k];
        let offset = offsets[k];
        let ghost segment = segments[k as int];
        assert(segment.payload() == data@);
        assert(segment.offset() == offset);
        if data.len() > 0 {
            if offset < 0 || offset as usize > size || data.len() > size - offset as usize {
                proof {
                    let faults = spec_bounds_faults(segments, size as int);
                    assert forall|j: int| 0 <= j < k implies faults[j] is None by {
                        assert(segments[j].fits(size as int));
                    }
                    lemma_first_fault_at(faults, k as int);
                }
                return Err(CodegenError::SegmentOutOfBounds { segment: k });
            }
            write_segment(&mut image, offset as usize, data);
        }
        proof {
            assert forall|p: int| 0 <= p < size implies #[trigger] image@[p] == spec_image_byte(
                segments.take(k as int + 1),
                p,
            ) by {
                lemma_image_byte_step(segments, k as int, p);
            }
        }
        k = k + 1;
    }
    proof {
        assert(segments.take(k as int) =~= segments);
        let faults = spec_bounds_faults(segments, size as int);
        assert forall|j: int| 0 <= j < faults.len() implies faults[j] is None by {
            assert(segments[j].fits(size as int));
        }
        lemma_first_fault_none(faults);
        assert(image@ =~= spec_image(segments));
    }
    Ok(image)
}

/// The name of the global that holds the memory image.
pub const LINEAR_MEMORY_NAME: &'static str = "linear_memory";

/// The global that holds the memory image of the segments.
pub open spec fn spec_linear_memory(segments: Seq<DataInitializerView>) -> NativeGlobalView {
    NativeGlobalView {
        name: LINEAR_MEMORY_NAME@,
        content: GlobalContentView::Bytes(spec_image(segments)),
        constant: false,
    }
}

/// Builds the memory image of the data segments and adds it to the native
/// module as one global, whose handle is returned. Where the segments have
/// no image, the module stays as it is.
pub fn generate_linear_memory_simulation(
    module: &mut NativeModule,
    initializers: Vec<DataInitializer>,
) -> (r: Result<usize, CodegenError>)
    ensures
        match r {
            Ok(handle) => {
                &&& spec_memory_fault(views(initializers@)) is None
                &&& handle == old(module)@.globals.len()
                &&& final(module)@ == old(module)@.with_global(
                    spec_linear_memory(views(initializers@)),
                )
            },
            Err(e) => {
                &&& spec_memory_fault(views(initializers@)) == Some(e)
                &&& *final(module) == *old(module)
            },
        },
{
    match build_memory_image(&initializers) {
        Ok(image) => {
            let handle = module.add_global(
                NativeGlobal {
                    name: String::from_str(LINEAR_MEMORY_NAME),
                    content: GlobalContent::Bytes(image),
                    constant: false,
                },
            );
            Ok(handle)
        },
        Err(e) => Err(e),
    }
}

/// The name of the global that holds the number of pages at the start.
pub const STARTING_PAGES_NAME: &'static str = "starting_pages";

/// The name of the global that holds the largest number of pages.
pub const MAX_PAGES_NAME: &'static str = "max_pages";

/// A constant global that holds a number of pages in 32 bits: the 32-bit
/// integer constant of the same bits.
pub open spec fn spec_page_count_global(name: Seq<char>, pages: u32) -> NativeGlobalView {
    NativeGlobalView {
        name,
        content: GlobalContentView::Scalar(Constant::I32(pages as i32)),
        constant: true,
    }
}

/// Tells the runtime how much memory the module starts with and how much it
/// may grow to: two constant globals, the second zero where no maximum is
/// declared.
pub fn add_memory_size_globals(module: &mut NativeModule, limits: &ResizableLimits)
    ensures
        final(module)@ == old(module)@.with_global(
            spec_page_count_global(STARTING_PAGES_NAME@, limits.initial),
        ).with_global(
            spec_page_count_global(
                MAX_PAGES_NAME@,
                match limits.maximum {
                    Some(maximum) => maximum,
                    None => 0,
                },
            ),
        ),
{
    module.add_global(
        NativeGlobal {
            name: String::from_str(STARTING_PAGES_NAME),
            content: GlobalContent::Scalar(
                Constant::I32(#[verifier::truncate] (limits.initial as i32)),
            ),
            constant: true,
        },
    );
    let maximum: u32 = match limits.maximum {
        Some(maximum) => maximum,
        None => 0,
    };
    module.add_global(
        NativeGlobal {
            name: String::from_str(MAX_PAGES_NAME),
            content: GlobalContent::Scalar(Constant::I32(#[verifier::truncate] (maximum as i32))),
            constant: true,
        },
    );
}

/// A number of pages below 2^31 is held as it is.
pub proof fn lemma_page_count(pages: u32)
    requires
        pages <= i32::MAX,
    ensures
        pages as i32 == pages,
{
    assert(pages as i32 == pages) by (bit_vector)
        requires
            pages <= 0x7fff_ffff,
    ;
}

/// The signature of a function that takes nothing and returns what
/// `results` lists.
pub open spec fn spec_nullary(results: Seq<ValueType>) -> FuncTypeView {
    FuncTypeView { params: Seq::empty(), returns: results }
}

/// The name of the function that evaluates offset number `n` of the section
/// called `prefix`.
pub open spec fn spec_offset_function_name(prefix: Seq<char>, n: nat) -> Seq<char> {
    "init_"@ + prefix + "_offset_"@ + spec_decimal(n)
}

/// The function that evaluates an offset expression: it takes nothing, runs
/// the expression and returns the 32-bit integer that it leaves.
pub open spec fn spec_offset_function(
    prefix: Seq<char>,
    n: nat,
    offset_expression: Seq<Instruction>,
) -> ImplementedFunctionView<Vec<Instruction>> {
    ImplementedFunctionView {
        generated_name: spec_offset_function_name(prefix, n),
        ty: spec_nullary(seq![ValueType::I32]),
        locals: Seq::empty(),
        code: offset_expression.push(Instruction::End),
    }
}

/// The prototype of a function that the lowering itself defines.
pub open spec fn spec_own_prototype(name: Seq<char>, ty: FuncTypeView) -> NativeFunctionView {
    NativeFunctionView { name, ty, import: None }
}

/// Declares the function that evaluates offset number `n` of the section
/// called `prefix`: its prototype is added to the native module, and the
/// function is returned with the handle of the prototype, for its body to be
/// compiled.
pub fn generate_offset_function(
    module: &mut NativeModule,
    prefix: &str,
    n: usize,
    offset_expression: Vec<Instruction>,
) -> (r: (usize, ImplementedFunction<Vec<Instruction>>))
    ensures
        r.0 == old(module)@.functions.len(),
        r.1@ == spec_offset_function(prefix@, n as nat, offset_expression@),
        final(module)@ == old(module)@.with_function(
            spec_own_prototype(
                spec_offset_function_name(prefix@, n as nat),
                spec_nullary(seq![ValueType::I32]),
            ),
        ),
{
    let mut name = String::from_str("init_");
    name.append(prefix);
    name.append("_offset_");
    append_decimal(&mut name, n);
    let mut results: Vec<ValueType> = Vec::new();
    results.push(ValueType::I32);
    let ty = FuncType { params: Vec::new(), returns: results };
    assert(ty@.returns =~= seq![ValueType::I32]);
    let mut code = offset_expression;
    code.push(Instruction::End);
    let handle = module.add_function(
        NativeFunction { name: name.clone(), ty: ty.duplicate(), import: None },
    );
    (handle, ImplementedFunction { generated_name: name, ty, locals: Vec::new(), code })
}

/// The name of the section of the data segments.
pub const MEMORY_SECTION: &'static str = "memory";

/// The name of the function that fills the memory when the program starts.
pub const POPULATE_MEMORY_NAME: &'static str = "populate_memory";

/// The start of the name of each global that holds the bytes of a segment.
pub const INIT_VECTOR_PREFIX: &'static str = "init_vector_";

/// One step of the function that fills the memory: the function that gives
/// the place and the global that holds the bytes, each by its handle.
#[derive(Clone, Copy, Debug, PartialEq, Eq, Structural)]
pub struct Region {
    pub offset_function: usize,
    pub data: usize,
}

/// The function that fills the memory when the program starts, for the
/// caller to give it its body.
#[derive(Clone, Debug, PartialEq, Eq)]
pub struct MemoryInitialization {
    /// The handle of the function.
    pub setup_function: usize,
    /// The functions that give the places, to be compiled: one for each
    /// segment.
    pub offset_functions: Vec<ImplementedFunction<Vec<Instruction>>>,
    /// The steps, one for each segment and in the order of the segments.
    pub regions: Vec<Region>,
}

pub struct MemoryInitializationView {
    pub setup_function: usize,
    pub offset_functions: Seq<ImplementedFunctionView<Vec<Instruction>>>,
    pub regions: Seq<Region>,
}

impl View for MemoryInitialization {
    type V = MemoryInitializationView;

    open spec fn view(&self) -> MemoryInitializationView {
        MemoryInitializationView {
            setup_function: self.setup_function,
            offset_functions: views(self.offset_functions@),
            regions: self.regions@,
        }
    }
}

/// The prototypes that filling the memory takes: one function for the offset
/// of each segment, then the function that fills the memory.
pub open spec fn spec_initialization_functions(segments: Seq<DataInitializerView>) -> Seq<
    NativeFunctionView,
> {
    Seq::new(
        segments.len(),
        |i: int|
            spec_own_prototype(
                spec_offset_function_name(MEMORY_SECTION@, i as nat),
                spec_nullary(seq![ValueType::I32]),
            ),
    ).push(spec_own_prototype(POPULATE_MEMORY_NAME@, spec_nullary(Seq::empty())))
}

/// The globals that filling the memory takes: for each segment a constant
/// that holds its bytes.
pub open spec fn spec_initialization_globals(segments: Seq<DataInitializerView>) -> Seq<
    NativeGlobalView,
> {
    Seq::new(
        segments.len(),
        |i: int|
            NativeGlobalView {
                name: spec_numbered(INIT_VECTOR_PREFIX@, i as nat),
                content: GlobalContentView::Bytes(segments[i].payload()),
                constant: true,
            },
    )
}

/// What filling the memory comes to in a module that holds `functions`
/// functions and `globals` globals already.
pub open spec fn spec_memory_initialization(
    functions: int,
    globals: int,
    segments: Seq<DataInitializerView>,
) -> MemoryInitializationView {
    MemoryInitializationView {
        setup_function: (functions + segments.len()) as usize,
        offset_functions: Seq::new(
            segments.len(),
            |i: int|
                spec_offset_function(MEMORY_SECTION@, i as nat, segments[i].offset_expression),
        ),
        regions: Seq::new(
            segments.len(),
            |i: int|
                Region { offset_function: (functions + i) as usize, data: (globals + i) as usize },
        ),
    }
}

/// A copy of a list of instructions.
pub fn copy_instructions(code: &Vec<Instruction>) -> (r: Vec<Instruction>)
    ensures
        r@ == code@,
{
    let mut r: Vec<Instruction> = Vec::new();
    let mut i: usize = 0;
    while i < code.len()
        invariant
            i <= code.len(),
            r@ == code@.take(i as int),
        decreases code.len() - i,
    {
        r.push(code[i]);
        i = i + 1;
    }
    r
}

/// Declares what fills the memory when the program starts, in place of an
/// image: for each segment a function that evaluates its offset and a
/// constant that holds its bytes, and one function that is to copy the bytes
/// of each segment to its place.
pub fn generate_memory_initialization_stub(
    module: &mut NativeModule,
    initializers: Vec<DataInitializer>,
) -> (stub: MemoryInitialization)
    ensures
        stub@ == spec_memory_initialization(
            old(module)@.functions.len() as int,
            old(module)@.globals.len() as int,
            views(initializers@),
        ),
        final(module)@ == old(module)@.with_functions(
            spec_initialization_functions(views(initializers@)),
        ).with_globals(spec_initialization_globals(views(initializers@))),
{
    let ghost start = module@;
    let ghost segments = views(initializers@);
    let ghost expected = spec_memory_initialization(
        start.functions.len() as int,
        start.globals.len() as int,
        segments,
    );
    let ghost prototypes = spec_initialization_functions(segments);
    let ghost constants = spec_initialization_globals(segments);
    let mut offset_functions: Vec<ImplementedFunction<Vec<Instruction>>> = Vec::new();
    let mut handles: Vec<usize> = Vec::new();
    let mut i: usize = 0;
    proof {
        assert(start.with_functions(prototypes.take(0)) =~= start);
    }
    while i < initializers.len()
        invariant
            i <= initializers.len(),
            segments == views(initializers@),
            expected == spec_memory_initialization(
                start.functions.len() as int,
                start.globals.len() as int,
                segments,
            ),
            prototypes == spec_initialization_functions(segments),
            module@ == start.with_functions(prototypes.take(i as int)),
            views(offset_functions@) == expected.offset_functions.take(i as int),
            offset_functions@.len() == i,
            expected.offset_functions.len() == initializers.len(),
            handles@.len() == i,
            forall|j: int| 0 <= j < i ==> #[trigger] handles@[j] == start.functions.len() + j,
        decreases initializers.len() - i,
    {
        let ghost before = module@;
        let expression = copy_instructions(&initializers[i].offset_expression);
        assert(segments[i as int] == initializers@[i as int]@);
        let (handle, function) = generate_offset_function(module, MEMORY_SECTION, i, expression);
        proof {
            assert(prototypes.take(i as int + 1) =~= prototypes.take(i as int).push(
                prototypes[i as int],
            ));
            assert(module@.functions =~= start.functions + prototypes.take(i as int + 1));
            let grown = views(offset_functions@.push(function));
            let wanted = expected.offset_functions.take(i as int + 1);
            assert(grown.len() == wanted.len());
            assert forall|j: int| 0 <= j < grown.len() implies grown[j] == wanted[j] by {
                if j < i {
                    assert(views(offset_functions@)[j] == expected.offset_functions.take(
                        i as int,
                    )[j]);
                } else {
                    assert(function@ == expected.offset_functions[i as int]);
                }
            }
            assert(grown =~= wanted);
        }
        offset_functions.push(function);
        handles.push(handle);
        i = i + 1;
    }
    let results: Vec<ValueType> = Vec::new();
    let setup_function = module.add_function(
        NativeFunction {
            name: String::from_str(POPULATE_MEMORY_NAME),
            ty: FuncType { params: Vec::new(), returns: results },
            import: None,
        },
    );
    proof {
        assert(prototypes.take(i as int).push(prototypes[i as int]) =~= prototypes);
        assert(module@.functions =~= start.functions + prototypes);
        assert(expected.offset_functions.take(i as int) =~= expected.offset_functions);
        assert(module@ == start.with_functions(prototypes).with_globals(constants.take(0)));
    }
    let ghost declared = start.with_functions(prototypes);
    let mut regions: Vec<Region> = Vec::new();
    let mut k: usize = 0;
    while k < initializers.len()
        invariant
            k <= initializers.len(),
            segments == views(initializers@),
            constants == spec_initialization_globals(segments),
            expected == spec_memory_initialization(
                start.functions.len() as int,
                start.globals.len() as int,
                segments,
            ),
            declared.globals == start.globals,
            module@ == declared.with_globals(constants.take(k as int)),
            handles@.len() == initializers.len(),
            forall|j: int|
                0 <= j < handles@.len() ==> #[trigger] handles@[j] == start.functions.len() + j,
            regions@ == expected.regions.take(k as int),
        decreases initializers.len() - k,
    {
        assert(segments[k as int] == initializers@[k as int]@);
        let payload = concat_body(&initializers[k].body);
        let data = module.add_global(
            NativeGlobal {
                name: numbered(INIT_VECTOR_PREFIX, k),
                content: GlobalContent::Bytes(payload),
                constant: true,
            },
        );
        regions.push(Region { offset_function: handles[k], data });
        proof {
            assert(constants.take(k as int + 1) =~= constants.take(k as int).push(
                constants[k as int],
            ));
            assert(module@.globals =~= declared.globals + constants.take(k as int + 1));
            assert(regions@ =~= expected.regions.take(k as int + 1));
        }
        k = k + 1;
    }
    proof {
        assert(constants.take(k as int) =~= constants);
        assert(expected.regions.take(k as int) =~= expected.regions);
    }
    MemoryInitialization { setup_function, offset_functions, regions }
}

} // verus!
