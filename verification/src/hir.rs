//! Declaration identities and the parts of lowered declarations that type
//! analysis reads.

use crate::syntax::{GenericArg, GenericParamKind, Ident, Type};
use vstd::prelude::*;

verus! {

/// A module of the compilation.
#[derive(Debug, Clone, Copy, PartialEq, Eq, Hash, Structural)]
pub struct ModuleId(pub u32);

/// The number of the module that owns declarations no source file wrote.
pub const SYNTHETIC_MODULE: u32 = 0xffff_ffff;

/// The identity of one declaration.
#[derive(Debug, Clone, Copy, PartialEq, Eq, Hash, Structural)]
pub struct HirId {
    pub module: ModuleId,
    pub local: u32,
}

/// A declared generic parameter.
#[derive(Debug)]
pub struct HirGenericParam {
    pub ident: Ident,
    pub kind: GenericParamKind,
    pub default: Option<GenericArg>,
}

impl HirGenericParam {
    /// A type parameter with its bounds and default.
    pub fn type_param(ident: Ident, bounds: Vec<Type>, default: Option<GenericArg>) -> (param: Self)
        ensures
            param == (HirGenericParam {
                ident,
                kind: GenericParamKind::Type { bounds: std::rc::Rc::new(bounds) },
                default,
            }),
    {
        HirGenericParam {
            ident,
            kind: GenericParamKind::Type { bounds: std::rc::Rc::new(bounds) },
            default,
        }
    }

    /// Whether this parameter binds a compile-time value.
    pub open spec fn comp(&self) -> bool {
        self.kind is Comp
    }

    pub fn is_comp(&self) -> (r: bool)
        ensures
            r == self.comp(),
    {
        match self.kind {
            GenericParamKind::Comp { .. } => true,
            _ => false,
        }
    }
}

impl Clone for HirGenericParam {
    fn clone(&self) -> (copy: Self)
        ensures
            copy == *self,
    {
        HirGenericParam {
            ident: self.ident.clone(),
            kind: self.kind.clone(),
            default: match &self.default {
                Some(arg) => Some(arg.clone()),
                None => None,
            },
        }
    }
}

/// A declared function parameter.
#[derive(Debug)]
pub struct HirParam {
    pub ident: Ident,
    pub ty: Type,
}

impl Clone for HirParam {
    fn clone(&self) -> (copy: Self)
        ensures
            copy == *self,
    {
        HirParam { ident: self.ident.clone(), ty: self.ty.clone() }
    }
}

/// A function declaration before its signature is resolved.
#[derive(Debug)]
pub struct HirFunctionDef {
    pub id: HirId,
    pub ident: Ident,
    pub generics: Vec<HirGenericParam>,
    pub params: Vec<HirParam>,
    pub return_type: Type,
}

} // verus!
