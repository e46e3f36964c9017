//! Why a module cannot be lowered.

use vstd::prelude::*;
use vstd::string::*;
use crate::text::{numbered, spec_numbered};

verus! {

/// The first fault found in a module. Each names the item at fault by its
/// index in the module's own list.
#[derive(Clone, Copy, Debug, PartialEq, Eq, Structural)]
pub enum CodegenError {
    /// An export names a function or a global that the module does not have.
    ExportOutOfRange { export: usize },
    /// The initializer of a global is not one constant instruction.
    NonSimpleInitializer { global: usize },
    /// The constant that initializes a global is not of the declared type.
    InitializerTypeMismatch { global: usize },
    /// The offset of a data segment is not one constant instruction.
    NonConstantOffset { segment: usize },
    /// The offset of a data segment is a constant, but no 32-bit integer.
    OffsetNotI32 { segment: usize },
    /// A data segment writes outside the memory image.
    SegmentOutOfBounds { segment: usize },
    /// The memory image is larger than a buffer can be.
    ImageTooLarge,
    /// The declared size of the table is above the ceiling.
    TableTooLarge,
    /// The offset of an element segment is not one constant instruction.
    NonConstantElementOffset { segment: usize },
    /// The offset of an element segment is a constant, but no 32-bit integer.
    ElementOffsetNotI32 { segment: usize },
    /// An element segment fills a slot outside the table.
    ElementOutOfBounds { segment: usize },
    /// An element segment names a function that the module does not have.
    UnknownFunction { segment: usize },
    /// A write to a global that has no storage.
    StoreToInlinedConstant,
}

/// The two classes of faults.
#[derive(Clone, Copy, Debug, PartialEq, Eq, Structural)]
pub enum ErrorKind {
    /// The module holds what this stage does not take.
    Format,
    /// The module asks for more than this stage provides.
    Capacity,
}

impl CodegenError {
    pub open spec fn spec_kind(self) -> ErrorKind {
        match self {
            CodegenError::ImageTooLarge => ErrorKind::Capacity,
            CodegenError::TableTooLarge => ErrorKind::Capacity,
            _ => ErrorKind::Format,
        }
    }

    pub open spec fn spec_message(self) -> Seq<char> {
        match self {
            CodegenError::ExportOutOfRange { export } => spec_numbered(
                "nothing to export for export "@,
                export as nat,
            ),
            CodegenError::NonSimpleInitializer { global } => spec_numbered(
                "non-simple initializer of global "@,
                global as nat,
            ),
            CodegenError::InitializerTypeMismatch { global } => spec_numbered(
                "initializer of another type than global "@,
                global as nat,
            ),
            CodegenError::NonConstantOffset { segment } => spec_numbered(
                "non-constant offset of data segment "@,
                segment as nat,
            ),
            CodegenError::OffsetNotI32 { segment } => spec_numbered(
                "offset that is no 32-bit integer of data segment "@,
                segment as nat,
            ),
            CodegenError::SegmentOutOfBounds { segment } => spec_numbered(
                "write outside the memory image by data segment "@,
                segment as nat,
            ),
            CodegenError::ImageTooLarge => "memory image too large"@,
            CodegenError::TableTooLarge => "table too large"@,
            CodegenError::NonConstantElementOffset { segment } => spec_numbered(
                "non-constant offset of element segment "@,
                segment as nat,
            ),
            CodegenError::ElementOffsetNotI32 { segment } => spec_numbered(
                "offset that is no 32-bit integer of element segment "@,
                segment as nat,
            ),
            CodegenError::ElementOutOfBounds { segment } => spec_numbered(
                "slot outside the table in element segment "@,
                segment as nat,
            ),
            CodegenError::UnknownFunction { segment } => spec_numbered(
                "unknown function in element segment "@,
                segment as nat,
            ),
            CodegenError::StoreToInlinedConstant => "cannot write to an inlined constant"@,
        }
    }

    /// What is wrong, in words, with the number of the item at fault.
    pub fn message(&self) -> (text: String)
        ensures
            text@ == self.spec_message(),
    {
        match self {
            CodegenError::ExportOutOfRange { export } => numbered(
                "nothing to export for export ",
                *export,
            ),
            CodegenError::NonSimpleInitializer { global } => numbered(
                "non-simple initializer of global ",
                *global,
            ),
            CodegenError::InitializerTypeMismatch { global } => numbered(
                "initializer of another type than global ",
                *global,
            ),
            CodegenError::NonConstantOffset { segment } => numbered(
                "non-constant offset of data segment ",
                *segment,
            ),
            CodegenError::OffsetNotI32 { segment } => numbered(
                "offset that is no 32-bit integer of data segment ",
                *segment,
            ),
            CodegenError::SegmentOutOfBounds { segment } => numbered(
                "write outside the memory image by data segment ",
                *segment,
            ),
            CodegenError::ImageTooLarge => String::from_str("memory image too large"),
            CodegenError::TableTooLarge => String::from_str("table too large"),
            CodegenError::NonConstantElementOffset { segment } => numbered(
                "non-constant offset of element segment ",
                *segment,
            ),
            CodegenError::ElementOffsetNotI32 { segment } => numbered(
                "offset that is no 32-bit integer of element segment ",
                *segment,
            ),
            CodegenError::ElementOutOfBounds { segment } => numbered(
                "slot outside the table in element segment ",
                *segment,
            ),
            CodegenError::UnknownFunction { segment } => numbered(
                "unknown function in element segment ",
                *segment,
            ),
            CodegenError::StoreToInlinedConstant => String::from_str(
                "cannot write to an inlined constant",
            ),
        }
    }

    /// The class of this fault.
    pub fn kind(&self) -> (kind: ErrorKind)
        ensures
            kind == self.spec_kind(),
    {
        match self {
            CodegenError::ImageTooLarge => ErrorKind::Capacity,
            CodegenError::TableTooLarge => ErrorKind::Capacity,
            _ => ErrorKind::Format,
        }
    }
}

/// The first fault in a list of findings, one finding for each item in the
/// order of the items, if there is a fault at all.
pub open spec fn first_fault(findings: Seq<Option<CodegenError>>) -> Option<CodegenError>
    decreases findings.len(),
{
    if findings.len() == 0 {
        None
    } else if findings[0] is Some {
        findings[0]
    } else {
        first_fault(findings.drop_first())
    }
}

/// A list without a fault has no first fault.
pub proof fn lemma_first_fault_none(findings: Seq<Option<CodegenError>>)
    requires
        forall|i: int| 0 <= i < findings.len() ==> findings[i] is None,
    ensures
        first_fault(findings) is None,
    decreases findings.len(),
{
    if findings.len() > 0 {
        lemma_first_fault_none(findings.drop_first());
    }
}

/// The first fault is the fault of the first item that has one.
pub proof fn lemma_first_fault_at(findings: Seq<Option<CodegenError>>, k: int)
    requires
        0 <= k < findings.len(),
        findings[k] is Some,
        forall|i: int| 0 <= i < k ==> findings[i] is None,
    ensures
        first_fault(findings) == findings[k],
    decreases findings.len(),
{
    if k > 0 {
        lemma_first_fault_at(findings.drop_first(), k - 1);
    }
}

/// Where the first fault is: at the first item that has a fault, and
/// nowhere if no item has one.
pub proof fn lemma_first_fault_is_least(findings: Seq<Option<CodegenError>>)
    ensures
        first_fault(findings) is None ==> forall|i: int|
            0 <= i < findings.len() ==> (#[trigger] findings[i]) is None,
        first_fault(findings) is Some ==> exists|k: int|
            {
                &&& 0 <= k < findings.len()
                &&& #[trigger] findings[k] == first_fault(findings)
                &&& forall|i: int| 0 <= i < k ==> (#[trigger] findings[i]) is None
            },
    decreases findings.len(),
{
    if findings.len() > 0 {
        if findings[0] is Some {
            assert(findings[0] == first_fault(findings));
        } else {
            let rest = findings.drop_first();
            lemma_first_fault_is_least(rest);
            if first_fault(rest) is None {
                assert forall|i: int| 0 <= i < findings.len() implies (
                #[trigger] findings[i]) is None by {
                    if i > 0 {
                        assert(rest[i - 1] is None);
                    }
                }
            } else {
                let k = choose|k: int|
                    {
                        &&& 0 <= k < rest.len()
                        &&& #[trigger] rest[k] == first_fault(rest)
                        &&& forall|i: int| 0 <= i < k ==> (#[trigger] rest[i]) is None
                    };
                assert(findings[k + 1] == first_fault(findings));
                assert forall|i: int| 0 <= i < k + 1 implies (#[trigger] findings[i]) is None by {
                    if i > 0 {
                        assert(rest[i - 1] is None);
                    }
                }
            }
        }
    }
}

} // verus!
