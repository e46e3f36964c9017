//! The indirect-call table: the element segments of a module become one
//! array of function pointers, which the native module holds as a global.

use vstd::prelude::*;
use vstd::string::*;
use crate::codegen::memory::{evaluate_offset, spec_evaluate_offset, OffsetFault};
use crate::error::{first_fault, lemma_first_fault_at, lemma_first_fault_none, CodegenError};
use crate::native::{GlobalContent, GlobalContentView, NativeGlobal, NativeGlobalView, NativeModule};
use crate::types::{views, ResizableLimits};
use crate::wasm::{TableInitializer, TableInitializerView};

verus! {

/// The number of slots of the table, and the largest size that a module may
/// declare for its table.
pub const TABLE_SIZE: usize = 1024;

/// The name of the global that holds the table.
pub const TABLE_NAME: &'static str = "indirect_call_table";

/// Whether a declared table fits: neither its initial size nor its maximum,
/// where it declares one, is above the ceiling.
pub open spec fn spec_table_fits(limits: ResizableLimits) -> bool {
    &&& limits.initial <= TABLE_SIZE
    &&& limits.maximum matches Some(maximum) ==> maximum <= TABLE_SIZE
}

impl TableInitializerView {
    /// The first slot of the segment, where its expression gives one.
    pub open spec fn offset(self) -> int {
        spec_evaluate_offset(self.offset_expression)->Ok_0 as int
    }

    /// Whether the segment fills slot `p`.
    pub open spec fn covers(self, p: int) -> bool {
        self.offset() <= p < self.offset() + self.function_indexes.len()
    }

    /// Whether every slot that the segment fills is a slot of the table. A
    /// segment without entries fills nothing.
    pub open spec fn fits(self) -> bool {
        self.function_indexes.len() == 0 || (0 <= self.offset() && self.offset()
            + self.function_indexes.len() <= TABLE_SIZE)
    }

    /// Whether every entry of the segment is one of the first `functions`
    /// functions.
    pub open spec fn known(self, functions: int) -> bool {
        forall|e: int| 0 <= e < self.function_indexes.len() ==> self.function_indexes[e] < functions
    }
}

/// The fault in element segment number `index` of a module with `functions`
/// functions, if it has one: an offset that is no 32-bit integer constant;
/// else a slot outside the table; else an entry that is no function of the
/// module.
pub open spec fn spec_element_fault(
    index: int,
    segment: TableInitializerView,
    functions: int,
) -> Option<CodegenError> {
    match spec_evaluate_offset(segment.offset_expression) {
        Err(OffsetFault::NotConstant) => Some(
            CodegenError::NonConstantElementOffset { segment: index as usize },
        ),
        Err(OffsetFault::NotI32) => Some(
            CodegenError::ElementOffsetNotI32 { segment: index as usize },
        ),
        Ok(_) => if !segment.fits() {
            Some(CodegenError::ElementOutOfBounds { segment: index as usize })
        } else if !segment.known(functions) {
            Some(CodegenError::UnknownFunction { segment: index as usize })
        } else {
            None
        },
    }
}

pub open spec fn spec_element_faults(segments: Seq<TableInitializerView>, functions: int) -> Seq<
    Option<CodegenError>,
> {
    Seq::new(segments.len(), |i: int| spec_element_fault(i, segments[i], functions))
}

/// The fault for which a module has no table: a declared size above the
/// ceiling; else the fault of the first element segment that has one.
pub open spec fn spec_table_fault(
    limits: ResizableLimits,
    segments: Seq<TableInitializerView>,
    functions: int,
) -> Option<CodegenError> {
    if !spec_table_fits(limits) {
        Some(CodegenError::TableTooLarge)
    } else {
        first_fault(spec_element_faults(segments, functions))
    }
}

/// What slot `p` of the table holds: the function that the last of the
/// segments that cover `p` puts there, by the handle of its prototype, and
/// nothing where no segment covers `p`.
pub open spec fn spec_table_slot(
    segments: Seq<TableInitializerView>,
    handles: Seq<usize>,
    p: int,
) -> Option<usize>
    decreases segments.len(),
{
    if segments.len() == 0 {
        None
    } else if segments.last().covers(p) {
        Some(handles[segments.last().function_indexes[p - segments.last().offset()] as int])
    } else {
        spec_table_slot(segments.drop_last(), handles, p)
    }
}

/// The table of the segments.
pub open spec fn spec_table(segments: Seq<TableInitializerView>, handles: Seq<usize>) -> Seq<
    Option<usize>,
> {
    Seq::new(TABLE_SIZE as nat, |p: int| spec_table_slot(segments, handles, p))
}

/// The global that holds the table of the segments.
pub open spec fn spec_table_global(
    segments: Seq<TableInitializerView>,
    handles: Seq<usize>,
) -> NativeGlobalView {
    NativeGlobalView {
        name: TABLE_NAME@,
        content: GlobalContentView::FunctionPointers(spec_table(segments, handles)),
        constant: true,
    }
}

proof fn lemma_table_slot_step(
    segments: Seq<TableInitializerView>,
    handles: Seq<usize>,
    i: int,
    p: int,
)
    requires
        0 <= i < segments.len(),
    ensures
        spec_table_slot(segments.take(i + 1), handles, p) == if segments[i].covers(p) {
            Some(handles[segments[i].function_indexes[p - segments[i].offset()] as int])
        } else {
            spec_table_slot(segments.take(i), handles, p)
        },
{
    assert(segments.take(i + 1).drop_last() =~= segments.take(i));
}

/// A slot that no segment covers is empty.
pub proof fn lemma_untouched_slot(
    segments: Seq<TableInitializerView>,
    handles: Seq<usize>,
    p: int,
)
    requires
        forall|i: int| 0 <= i < segments.len() ==> !(#[trigger] segments[i]).covers(p),
    ensures
        spec_table_slot(segments, handles, p) is None,
    decreases segments.len(),
{
    if segments.len() > 0 {
        assert(!segments[segments.len() - 1].covers(p));
        assert forall|i: int| 0 <= i < segments.drop_last().len() implies !(
        #[trigger] segments.drop_last()[i]).covers(p) by {
            assert(!segments[i].covers(p));
        }
        lemma_untouched_slot(segments.drop_last(), handles, p);
    }
}

/// A slot holds what the last segment that covers it puts there: the
/// function whose index stands in the segment at the place of the slot.
pub proof fn lemma_covered_slot(
    segments: Seq<TableInitializerView>,
    handles: Seq<usize>,
    k: int,
    p: int,
)
    requires
        0 <= k < segments.len(),
        segments[k].covers(p),
        forall|i: int| k < i < segments.len() ==> !(#[trigger] segments[i]).covers(p),
    ensures
        spec_table_slot(segments, handles, p) == Some(
            handles[segments[k].function_indexes[p - segments[k].offset()] as int],
        ),
    decreases segments.len(),
{
    if k < segments.len() - 1 {
        assert(!segments[segments.len() - 1].covers(p));
        assert forall|i: int| k < i < segments.drop_last().len() implies !(
        #[trigger] segments.drop_last()[i]).covers(p) by {
            assert(!segments[i].covers(p));
        }
        lemma_covered_slot(segments.drop_last(), handles, k, p);
    }
}

/// What a slot holds is the handle of a function that one of the segments
/// names.
pub proof fn lemma_slot_is_entry(
    segments: Seq<TableInitializerView>,
    handles: Seq<usize>,
    p: int,
)
    ensures
        spec_table_slot(segments, handles, p) matches Some(handle) ==> exists|k: int, e: int|
            {
                &&& 0 <= k < segments.len()
                &&& 0 <= e < segments[k].function_indexes.len()
                &&& handle == handles[#[trigger] segments[k].function_indexes[e] as int]
            },
    decreases segments.len(),
{
    if segments.len() > 0 {
        let last = segments.len() - 1;
        if segments.last().covers(p) {
            let e = p - segments.last().offset();
            assert(spec_table_slot(segments, handles, p) == Some(
                handles[segments[last].function_indexes[e] as int],
            ));
        } else {
            lemma_slot_is_entry(segments.drop_last(), handles, p);
            if spec_table_slot(segments, handles, p) is Some {
                let before = segments.drop_last();
                let (k, e) = choose|k: int, e: int|
                    {
                        &&& 0 <= k < before.len()
                        &&& 0 <= e < before[k].function_indexes.len()
                        &&& spec_table_slot(segments, handles, p)->0
                            == handles[#[trigger] before[k].function_indexes[e] as int]
                    };
                assert(segments[k] == before[k]);
                assert(spec_table_slot(segments, handles, p)->0
                    == handles[segments[k].function_indexes[e] as int]);
            }
        }
    }
}

/// Checks one element segment and gives its first slot.
fn check_element(index: usize, initializer: &TableInitializer, functions: usize) -> (r: Result<
    i32,
    CodegenError,
>)
    ensures
        match r {
            Ok(offset) => {
                &&& spec_element_fault(index as int, initializer@, functions as int) is None
                &&& spec_evaluate_offset(initializer@.offset_expression) == Ok::<i32, OffsetFault>(
                    offset,
                )
            },
            Err(e) => spec_element_fault(index as int, initializer@, functions as int) == Some(e),
        },
{
    let offset = match evaluate_offset(&initializer.offset_expression) {
        Ok(offset) => offset,
        Err(OffsetFault::NotConstant) => {
            return Err(CodegenError::NonConstantElementOffset { segment: index });
        },
        Err(OffsetFault::NotI32) => {
            return Err(CodegenError::ElementOffsetNotI32 { segment: index });
        },
    };
    let entries = &initializer.function_indexes;
    if entries.len() > 0 {
        if offset < 0 || offset as usize > TABLE_SIZE || entries.len() > TABLE_SIZE
            - offset as usize {
            return Err(CodegenError::ElementOutOfBounds { segment: index });
        }
    }
    let mut e: usize = 0;
    while e < entries.len()
        invariant
            e <= entries.len(),
            entries@ == initializer@.function_indexes,
            spec_evaluate_offset(initializer@.offset_expression) == Ok::<i32, OffsetFault>(offset),
            initializer@.fits(),
            forall|j: int| 0 <= j < e ==> entries@[j] < functions,
        decreases entries.len() - e,
    {
        if entries[e] as usize >= functions {
            assert(!initializer@.known(functions as int)) by {
                assert(!(initializer@.function_indexes[e as int] < functions));
            }
            return Err(CodegenError::UnknownFunction { segment: index });
        }
        e = e + 1;
    }
    Ok(offset)
}

/// Puts the functions of one segment into the slots from `offset` on.
fn fill_slots(
    slots: &mut Vec<Option<usize>>,
    offset: usize,
    entries: &Vec<u32>,
    handles: &Vec<usize>,
)
    requires
        offset + entries.len() <= old(slots).len(),
        forall|e: int| 0 <= e < entries.len() ==> entries@[e] < handles.len(),
    ensures
        final(slots)@.len() == old(slots)@.len(),
        forall|p: int|
            0 <= p < old(slots)@.len() ==> #[trigger] final(slots)@[p] == if offset <= p < offset
                + entries.len() {
                Some(handles@[entries@[p - offset] as int])
            } else {
                old(slots)@[p]
            },
{
    let mut j: usize = 0;
    while j < entries.len()
        invariant
            j <= entries.len(),
            offset + entries.len() <= slots.len(),
            slots@.len() == old(slots)@.len(),
            forall|e: int| 0 <= e < entries.len() ==> entries@[e] < handles.len(),
            forall|p: int|
                0 <= p < slots@.len() ==> #[trigger] slots@[p] == if offset <= p < offset + j {
                    Some(handles@[entries@[p - offset] as int])
                } else {
                    old(slots)@[p]
                },
        decreases entries.len() - j,
    {
        slots.set(offset + j, Some(handles[entries[j] as usize]));
        j = j + 1;
    }
}

/// Builds the table of the element segments.
///
/// `handles` holds the handle of the prototype of every function of the
/// module, in the order of the declarations, so that an entry of a segment
/// is resolved whether its function is declared before or after any other.
/// The segments are applied in their order to a table of empty slots.
pub fn build_table(
    limits: &ResizableLimits,
    handles: &Vec<usize>,
    initializers: &Vec<TableInitializer>,
) -> (r: Result<Vec<Option<usize>>, CodegenError>)
    ensures
        match r {
            Ok(slots) => {
                &&& spec_table_fault(*limits, views(initializers@), handles.len() as int) is None
                &&& slots@ == spec_table(views(initializers@), handles@)
            },
            Err(e) => spec_table_fault(*limits, views(initializers@), handles.len() as int)
                == Some(e),
        },
{
    let ghost segments = views(initializers@);
    let ghost faults = spec_element_faults(segments, handles.len() as int);
    if limits.initial as usize > TABLE_SIZE {
        return Err(CodegenError::TableTooLarge);
    }
    match limits.maximum {
        Some(maximum) => {
            if maximum as usize > TABLE_SIZE {
                return Err(CodegenError::TableTooLarge);
            }
        },
        None => {},
    }
    let mut offsets: Vec<i32> = Vec::new();
    let mut i: usize = 0;
    while i < initializers.len()
        invariant
            i <= initializers.len(),
            segments == views(initializers@),
            faults == spec_element_faults(segments, handles.len() as int),
            spec_table_fits(*limits),
            offsets@.len() == i,
            forall|j: int| 0 <= j < i ==> (#[trigger] faults[j]) is None,
            forall|j: int|
                0 <= j < i ==> spec_evaluate_offset(segments[j].offset_expression) == Ok::<
                    i32,
                    OffsetFault,
                >(#[trigger] offsets@[j]),
        decreases initializers.len() - i,
    {
        assert(segments[i as int] == initializers@[i as int]@);
        match check_element(i, &initializers[i], handles.len()) {
            Ok(offset) => {
                offsets.push(offset);
            },
            Err(e) => {
                proof {
                    lemma_first_fault_at(faults, i as int);
                }
                return Err(e);
            },
        }
        i = i + 1;
    }
    proof {
        lemma_first_fault_none(faults);
    }
    let mut slots: Vec<Option<usize>> = Vec::new();
    let mut n: usize = 0;
    while n < TABLE_SIZE
        invariant
            n <= TABLE_SIZE,
            slots@.len() == n,
            forall|p: int| 0 <= p < n ==> (#[trigger] slots@[p]) is None,
        decreases TABLE_SIZE - n,
    {
        slots.push(None);
        n = n + 1;
    }
    let mut k: usize = 0;
    while k < initializers.len()
        invariant
            k <= initializers.len(),
            segments == views(initializers@),
            faults == spec_element_faults(segments, handles.len() as int),
            offsets@.len() == initializers.len(),
            forall|j: int| 0 <= j < faults.len() ==> (#[trigger] faults[j]) is None,
            forall|j: int|
                0 <= j < offsets@.len() ==> spec_evaluate_offset(segments[j].offset_expression)
                    == Ok::<i32, OffsetFault>(#[trigger] offsets@[j]),
            slots@.len() == TABLE_SIZE,
            forall|p: int|
                0 <= p < TABLE_SIZE ==> #[trigger] slots@[p] == spec_table_slot(
                    segments.take(k as int),
                    handles@,
                    p,
                ),
        decreases initializers.len() - k,
    {
        let entries = &initializers[k].function_indexes;
        let offset = offsets[k];
        let ghost segment = segments[k as int];
        assert(segment == initializers@[k as int]@);
        assert(faults[k as int] is None);
        assert(segment.fits() && segment.known(handles.len() as int));
        assert(segment.offset() == offset);
        if entries.len() > 0 {
            assert forall|e: int| 0 <= e < entries.len() implies entries@[e] < handles.len() by {
                assert(segment.function_indexes[e] < handles.len());
            }
            fill_slots(&mut slots, offset as usize, entries, handles);
        }
        proof {
            assert forall|p: int| 0 <= p < TABLE_SIZE implies #[trigger] slots@[p]
                == spec_table_slot(segments.take(k as int + 1), handles@, p) by {
                lemma_table_slot_step(segments, handles@, k as int, p);
            }
        }
        k = k + 1;
    }
    proof {
        assert(segments.take(k as int) =~= segments);
        assert(slots@ =~= spec_table(segments, handles@));
    }
    Ok(slots)
}

/// Builds the table of the element segments and adds it to the native module
/// as one constant global, whose handle is returned. Where the declared size
/// or a segment is at fault, the native module stays as it is.
pub fn generate_table_initialization_stub(
    module: &mut NativeModule,
    limits: &ResizableLimits,
    handles: &Vec<usize>,
    initializers: Vec<TableInitializer>,
) -> (r: Result<usize, CodegenError>)
    ensures
        match r {
            Ok(handle) => {
                &&& spec_table_fault(*limits, views(initializers@), handles.len() as int) is None
                &&& handle == old(module)@.globals.len()
                &&& final(module)@ == old(module)@.with_global(
                    spec_table_global(views(initializers@), handles@),
                )
            },
            Err(e) => {
                &&& spec_table_fault(*limits, views(initializers@), handles.len() as int) == Some(e)
                &&& *final(module) == *old(module)
            },
        },
{
    match build_table(limits, handles, &initializers) {
        Ok(slots) => {
            let handle = module.add_global(
                NativeGlobal {
                    name: String::from_str(TABLE_NAME),
                    content: GlobalContent::FunctionPointers(slots),
                    constant: true,
                },
            );
            Ok(handle)
        },
        Err(e) => Err(e),
    }
}

} // verus!
