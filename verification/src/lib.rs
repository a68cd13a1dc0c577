pub mod acceptance_laws;
pub mod annotations;
pub mod canonical_laws;
pub mod check_laws;
pub mod checked;
pub mod codegen;
pub mod diagnostics;
pub mod edit_laws;
pub mod error;
pub mod exhaustiveness;
pub mod generics;
pub mod hir;
pub mod inference_laws;
pub mod key_laws;
pub mod layout;
pub mod layout_laws;
pub mod measure;
pub mod order;
pub mod pattern_laws;
pub mod phrases;
pub mod resolved_type;
pub mod resolver;
pub mod runtime_checks;
pub mod search_laws;
pub mod shape_laws;
pub mod similarity;
pub mod source_annotations;
pub mod syntax;
pub mod target;
pub mod template;
pub mod template_laws;
pub mod text;
pub mod type_alike;
pub mod type_eq;
pub mod type_hash;
pub mod type_key;
pub mod type_text;
