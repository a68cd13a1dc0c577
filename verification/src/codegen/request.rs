//! What code generation is asked for and what it gives back.

use crate::codegen::mir::{EmissionUnit, ExternFunctionRef};
use crate::codegen::options::{EmitKind, OptLevel};
use crate::syntax::Ident;
use crate::target::Target;
use vstd::prelude::*;

verus! {

/// What was emitted.
#[derive(Debug)]
pub enum EmitOutput {
    Object(Vec<u8>),
    Text(String),
}

/// One emitted artifact, tagged with the physical source that owns it. The
/// source path is relative to the package root, so a caller reproduces the
/// on-disk tree by replacing its `.omg` extension with the emit kind's.
#[derive(Debug)]
pub struct EmittedArtifact {
    pub source: String,
    pub output: EmitOutput,
}

#[derive(Debug)]
pub struct CodegenRequest {
    pub target: Target,
    pub opt_level: OptLevel,
    pub emit: EmitKind,
    /// One unit per physical source file, in emission order.
    pub units: Vec<EmissionUnit>,
    /// Retained for public API compatibility. Lowering consumes entry identity;
    /// native emission does not currently inspect this field.
    pub entry: Vec<Ident>,
    pub extern_functions: Vec<ExternFunctionRef>,
}

} // verus!
