//! Rendering of source-code diagnostics: a source buffer addressable by line
//! and column, character references into it, spans, and a layout engine that
//! turns a span plus messages into styled text segments.

pub mod code_reference;
pub mod span;
pub mod text;
pub mod warn;

use vstd::prelude::*;

verus! {

/// A diagnosed element of the source: the span delimiting it — `first` must
/// not be positioned after `last` — and the element itself, carried for the
/// caller's bookkeeping; the renderers never inspect the payload.
pub struct ElementReference<T> {
    /// The first character of the diagnosed region.
    pub first: code_reference::CharRef,
    /// The reference whose column is the exclusive end of the region.
    pub last: code_reference::CharRef,
    /// The element the region was parsed into.
    pub element: Element<T>,
}

/// An element extracted from the code: either a finished object, carried
/// opaquely, or a function call with its name and its arguments.
pub enum Element<T> {
    /// An object that needs no further processing, e.g. a literal.
    Object {
        /// The object itself; never inspected here.
        value: T,
    },
    /// A function call.
    Function {
        /// The name of the called function.
        name: String,
        /// The arguments of the call, each a diagnosed element of its own.
        args: Vec<ElementReference<T>>,
    },
}

} // verus!
