//! The configuration that the lowering reads.

use vstd::prelude::*;

verus! {

/// Options of one compilation.
#[derive(Clone, Debug, PartialEq, Eq)]
pub struct Opt {
    /// Replace every read of an immutable in-module global by its constant.
    pub inline_constant_globals: bool,
    /// Target triple of the native module; the host's when absent.
    pub target: Option<String>,
    /// Data-layout string of the native module; the host's when absent.
    pub layout: Option<String>,
}

pub struct OptView {
    pub inline_constant_globals: bool,
    pub target: Option<Seq<char>>,
    pub layout: Option<Seq<char>>,
}

impl View for Opt {
    type V = OptView;

    open spec fn view(&self) -> OptView {
        OptView {
            inline_constant_globals: self.inline_constant_globals,
            target: text_of(self.target),
            layout: text_of(self.layout),
        }
    }
}

/// What an optional piece of text holds.
pub open spec fn text_of(s: Option<String>) -> Option<Seq<char>> {
    match s {
        Some(t) => Some(t@),
        None => None,
    }
}

/// A copy of an optional piece of text.
pub fn copy_text(s: &Option<String>) -> (r: Option<String>)
    ensures
        text_of(r) == text_of(*s),
{
    match s {
        Some(t) => Some(t.clone()),
        None => None,
    }
}

} // verus!
