//! Resolved annotations.

use crate::syntax::Ident;
use crate::text::same_text;
use vstd::prelude::*;

verus! {

/// The source-level annotation that decides whether a source takes part.
pub const CONDITION: &'static str = "cond";

/// The annotation that silences warnings.
pub const SUPPRESS: &'static str = "suppress";

/// Whether `name` is one of the annotations the language has.
pub open spec fn recognized(name: Seq<char>) -> bool {
    ||| name == CONDITION@
    ||| name == SUPPRESS@
    ||| name == "inline"@
    ||| name == "layout"@
    ||| name == "naked"@
    ||| name == "symbol"@
}

pub fn is_recognized(name: &str) -> (r: bool)
    ensures
        r == recognized(name@),
{
    same_text(name, CONDITION) || same_text(name, SUPPRESS) || same_text(name, "inline")
        || same_text(name, "layout") || same_text(name, "naked") || same_text(name, "symbol")
}

/// The packing chunk and declared alignment of an aggregate, in bytes.
#[derive(Debug, Clone, Copy, PartialEq, Eq, Hash, Structural)]
pub struct Layout {
    pub pack: u32,
    pub align: u32,
}

impl Layout {
    /// The layout of an aggregate without an annotation.
    pub open spec fn standard() -> Layout {
        Layout { pack: 1, align: 1 }
    }
}

impl Default for Layout {
    fn default() -> (layout: Self)
        ensures
            layout == Layout::standard(),
    {
        Layout { pack: 1, align: 1 }
    }
}

/// What the annotations of one function declaration resolved to.
#[derive(Debug)]
pub struct ResolvedAnnotations {
    pub inline: bool,
    pub naked: bool,
    pub suppress: Vec<Ident>,
}

} // verus!
