//! Why formatting can fail.

use vstd::prelude::*;

verus! {

/// Why a template could not be formatted.
#[derive(Clone, Copy, Debug, PartialEq, Eq, Structural)]
pub enum FormatError {
    /// The parser did not accept the Jinja grammar.
    Language,
    /// The parser returned no tree.
    Parse,
    /// The tree cannot be formatted against the source: it has no children,
    /// a text cannot be read, a statement has no keyword, or a sibling
    /// would be emitted below level zero.
    Unformattable,
}

} // verus!
