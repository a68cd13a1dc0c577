//! Code generation: from lowered functions to what the backends are told to
//! emit.

pub mod abi;
pub mod admission;
pub mod backend;
pub mod catalog;
pub mod catalog_laws;
pub mod constant_laws;
pub mod constants;
pub mod cranelift;
pub mod fits;
pub mod float_bits;
pub mod frame;
pub mod inline_asm;
pub mod llvm;
pub mod machine;
pub mod mir;
pub mod number_laws;
pub mod options;
pub mod pool_laws;
pub mod request;
pub mod shared;
pub mod symbol;
