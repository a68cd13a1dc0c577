//! Resolved types: what a written type denotes once every name in it has been
//! looked up.
//!
//! Nominal declarations are shared by pointer and identified by their
//! `HirId`; everything else is identified by its structure.

use crate::annotations::{Layout, ResolvedAnnotations};
use crate::checked::NumberValue;
use crate::hir::{HirGenericParam, HirId, HirParam};
use crate::syntax::{copy_names, Ident, SelfMode, Span, Type, Visibility};
use crate::target::{Arch, Target};
use crate::text::{same_text, share};
use std::rc::Rc;
use vstd::arithmetic::power2::pow2;
use vstd::prelude::*;

verus! {

/// The resolved calling convention of a function type. `Omega` is the
/// implicit convention of every ordinary function type; the others are
/// selected only by explicit `foreign(cc)` syntax. The conventions are
/// distinct even where a target lowers two of them identically.
#[derive(Debug, Clone, Copy, PartialEq, Eq, Hash, Structural)]
pub enum CallingConvention {
    Omega,
    C,
    SysV64,
}

impl CallingConvention {
    /// Whether this convention can express a variadic tail at all, before
    /// any target gating. Ordinary functions are never variadic.
    pub fn supports_variadic(self) -> (r: bool)
        ensures
            r == !(self is Omega),
    {
        match self {
            CallingConvention::Omega => false,
            CallingConvention::C | CallingConvention::SysV64 => true,
        }
    }

    /// The convention's spelling.
    pub open spec fn spelling(self) -> Seq<char> {
        match self {
            CallingConvention::Omega => "omega"@,
            CallingConvention::C => "c"@,
            CallingConvention::SysV64 => "sysv64"@,
        }
    }

    pub fn name(self) -> (text: &'static str)
        ensures
            text@ == self.spelling(),
    {
        match self {
            CallingConvention::Omega => "omega",
            CallingConvention::C => "c",
            CallingConvention::SysV64 => "sysv64",
        }
    }

    /// Whether this convention is meaningful on `target` at all. `sysv64`
    /// names one specific machine convention and fails off its x86-64
    /// targets rather than silently falling back.
    pub fn is_available_on(self, target: Target) -> (r: bool)
        ensures
            r == (self is SysV64 ==> target.arch is X86_64),
    {
        match self {
            CallingConvention::Omega | CallingConvention::C => true,
            CallingConvention::SysV64 => target.arch == Arch::X86_64,
        }
    }

    pub fn to_string(&self) -> (text: String)
        ensures
            text@ == self.spelling(),
    {
        self.name().to_owned()
    }
}

/// A resolved function-type parameter. `name` is the optional descriptor
/// written at the source level, or a declaration's binding name carried
/// through for presentation. It is metadata only: function-type identity
/// depends on `ty` alone.
#[derive(Debug)]
pub struct ResolvedFunctionParam {
    pub name: Option<Ident>,
    pub ty: ResolvedType,
}

impl ResolvedFunctionParam {
    pub fn described(name: Ident, ty: ResolvedType) -> (param: Self)
        ensures
            param == (ResolvedFunctionParam { name: Some(name), ty }),
    {
        ResolvedFunctionParam { name: Some(name), ty }
    }

    pub fn anonymous(ty: ResolvedType) -> (param: Self)
        ensures
            param == (ResolvedFunctionParam { name: None, ty }),
    {
        ResolvedFunctionParam { name: None, ty }
    }
}

impl Clone for ResolvedFunctionParam {
    fn clone(&self) -> (copy: Self)
        ensures
            copy == *self,
    {
        ResolvedFunctionParam {
            name: match &self.name {
                Some(name) => Some(name.clone()),
                None => None,
            },
            ty: self.ty.clone(),
        }
    }
}

/// A resolved function type.
#[derive(Debug)]
pub struct ResolvedFunctionType {
    pub params: Vec<ResolvedFunctionParam>,
    pub return_type: Rc<ResolvedType>,
    pub is_variadic: bool,
    pub self_mode: Option<SelfMode>,
    pub calling_convention: CallingConvention,
}

/// A resolved declaration of an associated function.
#[derive(Debug)]
pub struct ResolvedMethod {
    pub decl_id: HirId,
    pub fn_type: Rc<ResolvedFunctionType>,
    pub visibility: Visibility,
    pub annotations: Rc<ResolvedAnnotations>,
    pub source: Option<Rc<ConformanceSource>>,
}

/// The spec application that supplied a method.
#[derive(Debug)]
pub struct ConformanceSource {
    pub spec: Rc<ResolvedSpecType>,
    pub spec_args: Vec<ResolvedGenericArg>,
}

/// A type's implementation of one spec application.
#[derive(Debug)]
pub struct ResolvedConformance {
    pub target: ResolvedType,
    pub spec: Rc<ResolvedSpecType>,
    pub spec_args: Vec<ResolvedGenericArg>,
    pub methods: Vec<(Ident, ResolvedMethod)>,
}

/// A spec application that a type is required to implement.
#[derive(Debug)]
pub struct ResolvedBound {
    pub target: ResolvedType,
    pub spec: Rc<ResolvedSpecType>,
    pub spec_args: Vec<ResolvedGenericArg>,
}

impl ResolvedBound {
    pub fn new(
        target: ResolvedType,
        spec: Rc<ResolvedSpecType>,
        spec_args: Vec<ResolvedGenericArg>,
    ) -> (bound: Self)
        ensures
            bound == (ResolvedBound { target, spec, spec_args }),
    {
        ResolvedBound { target, spec, spec_args }
    }
}

/// A field of an aggregate.
#[derive(Debug)]
pub struct ResolvedField {
    pub name: Ident,
    pub ty: ResolvedType,
    pub visibility: Visibility,
}

impl ResolvedField {
    pub fn new(name: Ident, ty: ResolvedType, visibility: Visibility) -> (field: Self)
        ensures
            field == (ResolvedField { name, ty, visibility }),
    {
        ResolvedField { name, ty, visibility }
    }
}

/// A struct declaration, applied to its generic arguments.
#[derive(Debug)]
pub struct ResolvedStructType {
    pub id: HirId,
    pub name: Ident,
    pub module: Vec<Ident>,
    pub generic_args: Vec<ResolvedGenericArg>,
    pub fields: Vec<ResolvedField>,
    pub functions: Vec<(Ident, ResolvedMethod)>,
    pub layout: Layout,
    pub suppress: Vec<Ident>,
    pub is_marker: bool,
}

/// A union declaration, applied to its generic arguments.
#[derive(Debug)]
pub struct ResolvedUnionType {
    pub id: HirId,
    pub name: Ident,
    pub module: Vec<Ident>,
    pub generic_args: Vec<ResolvedGenericArg>,
    pub fields: Vec<ResolvedField>,
    pub functions: Vec<(Ident, ResolvedMethod)>,
    pub suppress: Vec<Ident>,
}

/// One variant of a named enum.
#[derive(Debug)]
pub struct ResolvedEnumVariant {
    pub name: Ident,
    pub tag: NumberValue,
    pub header_values: Rc<Vec<ConstValue>>,
    pub fields: Vec<ResolvedField>,
}

/// An enum declaration, applied to its generic arguments.
#[derive(Debug)]
pub struct ResolvedEnumType {
    pub id: HirId,
    pub name: Ident,
    pub module: Vec<Ident>,
    pub generic_args: Vec<ResolvedGenericArg>,
    pub tag_type: ResolvedType,
    pub header: Vec<ResolvedField>,
    pub dynamic_fields: Vec<ResolvedField>,
    pub variants: Vec<ResolvedEnumVariant>,
    pub functions: Vec<(Ident, ResolvedMethod)>,
    pub layout: Layout,
    pub suppress: Vec<Ident>,
}

impl ResolvedEnumType {
    /// Whether `index` is the first variant called `name`.
    pub open spec fn is_variant_named(&self, name: Seq<char>, index: int) -> bool {
        &&& 0 <= index < self.variants@.len()
        &&& self.variants@[index].name@ == name
        &&& forall|k: int| 0 <= k < index ==> self.variants@[k].name@ != name
    }

    /// The first variant called `name`, with its index.
    pub fn variant(&self, name: &Ident) -> (found: Option<(usize, &ResolvedEnumVariant)>)
        ensures
            match found {
                Some((index, variant)) => self.is_variant_named(name@, index as int) && *variant
                    == self.variants@[index as int],
                None => forall|k: int|
                    0 <= k < self.variants@.len() ==> self.variants@[k].name@ != name@,
            },
    {
        let mut i: usize = 0;
        while i < self.variants.len()
            invariant
                i <= self.variants@.len(),
                forall|k: int| 0 <= k < i ==> self.variants@[k].name@ != name@,
            decreases self.variants.len() - i,
        {
            if same_text(self.variants[i].name.as_ref(), name.as_ref()) {
                return Some((i, &self.variants[i]));
            }
            i = i + 1;
        }
        None
    }
}

/// A spec declaration.
#[derive(Debug)]
pub struct ResolvedSpecType {
    pub id: HirId,
    pub name: Ident,
    pub visibility: Visibility,
    pub generics: Vec<HirGenericParam>,
    pub module: Vec<Ident>,
    pub generic_args: Vec<ResolvedGenericArg>,
    pub is_object_safe: bool,
    pub functions: Vec<(Ident, RawSpecFunctionSig)>,
    pub suppress: Vec<Ident>,
}

/// One resolved member of a spec conjunction: a spec declaration plus its
/// resolved generic arguments. The declaration is shared, so every
/// application pairs it with its own argument list here.
#[derive(Debug)]
pub struct ResolvedSpecApplication {
    pub spec: Rc<ResolvedSpecType>,
    pub spec_args: Rc<Vec<ResolvedGenericArg>>,
}

impl ResolvedSpecApplication {
    pub fn new(spec: Rc<ResolvedSpecType>, spec_args: Vec<ResolvedGenericArg>) -> (application:
        Self)
        ensures
            application == (ResolvedSpecApplication { spec, spec_args: Rc::new(spec_args) }),
    {
        ResolvedSpecApplication { spec, spec_args: Rc::new(spec_args) }
    }
}

impl Clone for ResolvedSpecApplication {
    fn clone(&self) -> (copy: Self)
        ensures
            copy == *self,
    {
        ResolvedSpecApplication { spec: share(&self.spec), spec_args: share(&self.spec_args) }
    }
}

/// A canonical spec conjunction: a deduplicated, deterministically ordered
/// list of resolved spec applications.
#[derive(Debug)]
pub struct ResolvedSpecShape {
    pub members: Vec<ResolvedSpecApplication>,
}

/// The canonical member list of an anonymous enum.
///
/// Members are flattened to leaves, ordered by structural key, and exact
/// duplicates are removed, so `enum A | B`, `enum B | A`, `enum A | B | A`,
/// and `enum (enum A | B) | B` are one type with one layout and one tag
/// assignment.
#[derive(Debug)]
pub struct ResolvedAnonymousEnum {
    pub members: Vec<ResolvedType>,
}

/// A spec's function signature before resolution.
#[derive(Debug)]
pub struct RawSpecFunctionSig {
    pub decl_id: HirId,
    pub name: Ident,
    pub span: Span,
    pub name_span: Span,
    pub signature_span: Span,
    pub return_type_span: Span,
    pub visibility: Visibility,
    pub generics: Vec<HirGenericParam>,
    pub self_mode: Option<SelfMode>,
    pub params: Vec<HirParam>,
    pub is_variadic: bool,
    pub return_type: Type,
    pub default_body: Option<HirId>,
}

/// A function declared by a gap.
#[derive(Debug)]
pub struct GapFunction {
    pub decl_id: HirId,
    pub span: Span,
    /// Who may *call* this function through an ordinary path. Glue matching
    /// is not a call, so this is not part of the gap's conformance identity.
    pub visibility: Visibility,
    pub fn_type: ResolvedFunctionType,
}

/// A gap declaration.
#[derive(Debug)]
pub struct ResolvedGap {
    pub id: HirId,
    pub name: Ident,
    pub module: Vec<Ident>,
    pub span: Span,
    pub functions: Vec<(Ident, GapFunction)>,
}

/// A compile-time value.
#[derive(Debug)]
pub enum ConstValue {
    Number(NumberValue),
    Bool(bool),
    Char(char),
    Str(String),
    Slice(Vec<ConstValue>),
    Array(Vec<ConstValue>),
    Struct(Vec<ConstValue>),
    Enum {
        variant_index: usize,
        tag: NumberValue,
        header: Vec<ConstValue>,
        dynamic_fields: Vec<ConstValue>,
        fields: Vec<ConstValue>,
    },
    Union { field_index: usize, value: Box<ConstValue> },
    Ref(Box<ConstValue>),
}

impl ConstValue {
    /// An anonymous enum's constant form: the tag is the canonical member
    /// index, and the shape has no header or dynamic field to fill.
    pub fn anonymous_enum(index: usize, fields: Vec<ConstValue>) -> (value: Self)
        ensures
            match value {
                ConstValue::Enum { variant_index, tag, header, dynamic_fields, fields: body } => {
                    &&& variant_index == index
                    &&& tag == NumberValue::Unsigned(index as u64)
                    &&& header@.len() == 0
                    &&& dynamic_fields@.len() == 0
                    &&& body == fields
                },
                _ => false,
            },
    {
        ConstValue::Enum {
            variant_index: index,
            tag: NumberValue::Unsigned(index as u64),
            header: Vec::new(),
            dynamic_fields: Vec::new(),
            fields,
        }
    }
}

/// The integer primitives a `comp` generic parameter may be declared with.
#[derive(Debug, Clone, Copy, PartialEq, Eq, Hash, Structural)]
pub enum CompIntType {
    I8,
    I16,
    I32,
    I64,
    ISize,
    U8,
    U16,
    U32,
    U64,
    USize,
}

impl CompIntType {
    /// The resolved type of this primitive.
    pub open spec fn denoted(self) -> ResolvedType {
        match self {
            CompIntType::I8 => ResolvedType::I8,
            CompIntType::I16 => ResolvedType::I16,
            CompIntType::I32 => ResolvedType::I32,
            CompIntType::I64 => ResolvedType::I64,
            CompIntType::ISize => ResolvedType::ISize,
            CompIntType::U8 => ResolvedType::U8,
            CompIntType::U16 => ResolvedType::U16,
            CompIntType::U32 => ResolvedType::U32,
            CompIntType::U64 => ResolvedType::U64,
            CompIntType::USize => ResolvedType::USize,
        }
    }

    /// The primitive that `ty` is, if it is one of these.
    pub fn from_resolved(ty: &ResolvedType) -> (found: Option<Self>)
        ensures
            match found {
                Some(prim) => prim.denoted() == *ty,
                None => forall|prim: CompIntType| #[trigger] prim.denoted() != *ty,
            },
    {
        match ty {
            ResolvedType::I8 => Some(CompIntType::I8),
            ResolvedType::I16 => Some(CompIntType::I16),
            ResolvedType::I32 => Some(CompIntType::I32),
            ResolvedType::I64 => Some(CompIntType::I64),
            ResolvedType::ISize => Some(CompIntType::ISize),
            ResolvedType::U8 => Some(CompIntType::U8),
            ResolvedType::U16 => Some(CompIntType::U16),
            ResolvedType::U32 => Some(CompIntType::U32),
            ResolvedType::U64 => Some(CompIntType::U64),
            ResolvedType::USize => Some(CompIntType::USize),
            _ => None,
        }
    }

    pub fn resolved(self) -> (ty: ResolvedType)
        ensures
            ty == self.denoted(),
    {
        match self {
            CompIntType::I8 => ResolvedType::I8,
            CompIntType::I16 => ResolvedType::I16,
            CompIntType::I32 => ResolvedType::I32,
            CompIntType::I64 => ResolvedType::I64,
            CompIntType::ISize => ResolvedType::ISize,
            CompIntType::U8 => ResolvedType::U8,
            CompIntType::U16 => ResolvedType::U16,
            CompIntType::U32 => ResolvedType::U32,
            CompIntType::U64 => ResolvedType::U64,
            CompIntType::USize => ResolvedType::USize,
        }
    }

    /// Whether the primitive holds negative values.
    pub open spec fn signed(self) -> bool {
        self is I8 || self is I16 || self is I32 || self is I64 || self is ISize
    }

    pub fn is_signed(self) -> (r: bool)
        ensures
            r == self.signed(),
    {
        match self {
            CompIntType::I8
            | CompIntType::I16
            | CompIntType::I32
            | CompIntType::I64
            | CompIntType::ISize => true,
            _ => false,
        }
    }
}

/// The types a `comp` generic parameter may be declared with.
#[derive(Debug, Clone, Copy, PartialEq, Eq, Hash, Structural)]
pub enum CompScalarType {
    Int(CompIntType),
    Bool,
    Char,
}

impl CompScalarType {
    /// The resolved type of this scalar.
    pub open spec fn denoted(self) -> ResolvedType {
        match self {
            CompScalarType::Int(prim) => prim.denoted(),
            CompScalarType::Bool => ResolvedType::Bool,
            CompScalarType::Char => ResolvedType::Char,
        }
    }

    /// The scalar that `ty` is, if it is one of these.
    pub fn from_resolved(ty: &ResolvedType) -> (found: Option<Self>)
        ensures
            match found {
                Some(scalar) => scalar.denoted() == *ty,
                None => forall|scalar: CompScalarType| #[trigger] scalar.denoted() != *ty,
            },
    {
        match ty {
            ResolvedType::Bool => Some(CompScalarType::Bool),
            ResolvedType::Char => Some(CompScalarType::Char),
            other => match CompIntType::from_resolved(other) {
                Some(prim) => Some(CompScalarType::Int(prim)),
                None => None,
            },
        }
    }

    pub fn resolved(self) -> (ty: ResolvedType)
        ensures
            ty == self.denoted(),
    {
        match self {
            CompScalarType::Int(prim) => prim.resolved(),
            CompScalarType::Bool => ResolvedType::Bool,
            CompScalarType::Char => ResolvedType::Char,
        }
    }
}

/// A canonical compile-time value bound to a `comp` generic parameter. The
/// declared type is part of the value's identity: the same digits under two
/// declared types are different instantiations.
#[derive(Debug, Clone, Copy, PartialEq, Eq, Hash, Structural)]
pub enum CompScalar {
    Int { ty: CompIntType, value: i128 },
    Bool(bool),
    Char(char),
}

impl CompScalar {
    /// The declared type of this value.
    pub open spec fn declared(self) -> CompScalarType {
        match self {
            CompScalar::Int { ty, .. } => CompScalarType::Int(ty),
            CompScalar::Bool(_) => CompScalarType::Bool,
            CompScalar::Char(_) => CompScalarType::Char,
        }
    }

    pub fn resolved_type(&self) -> (ty: ResolvedType)
        ensures
            ty == self.declared().denoted(),
    {
        match self {
            CompScalar::Int { ty, .. } => ty.resolved(),
            CompScalar::Bool(_) => ResolvedType::Bool,
            CompScalar::Char(_) => ResolvedType::Char,
        }
    }

    pub fn as_int(&self) -> (found: Option<i128>)
        ensures
            found == match *self {
                CompScalar::Int { value, .. } => Some(value),
                _ => None,
            },
    {
        match self {
            CompScalar::Int { value, .. } => Some(*value),
            _ => None,
        }
    }

    /// The ordinary compile-time value this binding hands to the rest of the
    /// analyzer.
    ///
    /// A value outside 64 bits keeps its low 64 bits, which no value that
    /// [`Self::normalize`] builds needs.
    pub fn const_value(&self) -> (value: ConstValue)
        ensures
            match *self {
                CompScalar::Int { ty, value: v } if ty.signed() => value == ConstValue::Number(
                    NumberValue::Signed(v as i64),
                ),
                CompScalar::Int { value: v, .. } => value == ConstValue::Number(
                    NumberValue::Unsigned(v as u64),
                ),
                CompScalar::Bool(b) => value == ConstValue::Bool(b),
                CompScalar::Char(c) => value == ConstValue::Char(c),
            },
    {
        match self {
            CompScalar::Int { ty, value } => if ty.is_signed() {
                ConstValue::Number(NumberValue::Signed(#[verifier::truncate] (*value as i64)))
            } else {
                ConstValue::Number(NumberValue::Unsigned(#[verifier::truncate] (*value as u64)))
            },
            CompScalar::Bool(value) => ConstValue::Bool(*value),
            CompScalar::Char(value) => ConstValue::Char(*value),
        }
    }

    /// The canonical form of `value` under a declared type: an integer of any
    /// compile-time integer type that the declared type represents exactly, or
    /// a value of the declared kind.
    pub open spec fn normalized(
        value: ConstValue,
        declared: CompScalarType,
        pointer_bits: u32,
    ) -> Option<CompScalar> {
        match (declared, value) {
            (CompScalarType::Int(ty), ConstValue::Number(number)) => match number.integer() {
                Some(v) => if ty.denoted().in_domain(v, pointer_bits) {
                    Some(CompScalar::Int { ty, value: v as i128 })
                } else {
                    None
                },
                None => None,
            },
            (CompScalarType::Bool, ConstValue::Bool(b)) => Some(CompScalar::Bool(b)),
            (CompScalarType::Char, ConstValue::Char(c)) => Some(CompScalar::Char(c)),
            _ => None,
        }
    }

    /// Canonicalizes an already-evaluated compile-time value against the
    /// declared parameter type, which is authoritative. Nothing is truncated,
    /// wrapped, or implicitly converted across kinds.
    pub fn normalize(
        value: &ConstValue,
        declared: CompScalarType,
        pointer_bits: u32,
    ) -> (found: Option<Self>)
        requires
            1 <= pointer_bits <= 126,
        ensures
            found == CompScalar::normalized(*value, declared, pointer_bits),
    {
        match (declared, value) {
            (CompScalarType::Int(ty), ConstValue::Number(number)) => {
                let v: i128 = match number {
                    NumberValue::Signed(v) => *v as i128,
                    NumberValue::Unsigned(v) => *v as i128,
                    NumberValue::Float(_) => {
                        return None;
                    },
                };
                match ty.resolved().integer_domain(pointer_bits) {
                    Some((min, max)) => if min <= v && v <= max {
                        Some(CompScalar::Int { ty, value: v })
                    } else {
                        None
                    },
                    None => None,
                }
            },
            (CompScalarType::Bool, ConstValue::Bool(value)) => Some(CompScalar::Bool(*value)),
            (CompScalarType::Char, ConstValue::Char(value)) => Some(CompScalar::Char(*value)),
            _ => None,
        }
    }
}

/// One resolved generic argument. A position is a type or a compile-time
/// value according to the declared parameter's kind, and both take part in
/// type identity.
#[derive(Debug)]
pub enum ResolvedGenericArg {
    Type(ResolvedType),
    Comp(CompScalar),
}

impl Clone for ResolvedGenericArg {
    fn clone(&self) -> (copy: Self)
        ensures
            copy == *self,
    {
        match self {
            ResolvedGenericArg::Type(ty) => ResolvedGenericArg::Type(ty.clone()),
            ResolvedGenericArg::Comp(value) => ResolvedGenericArg::Comp(*value),
        }
    }
}

impl ResolvedGenericArg {
    pub fn as_type(&self) -> (found: Option<&ResolvedType>)
        ensures
            match *self {
                ResolvedGenericArg::Type(ty) => found == Some(&ty),
                ResolvedGenericArg::Comp(_) => found is None,
            },
    {
        match self {
            ResolvedGenericArg::Type(ty) => Some(ty),
            ResolvedGenericArg::Comp(_) => None,
        }
    }

    pub fn as_comp(&self) -> (found: Option<CompScalar>)
        ensures
            match *self {
                ResolvedGenericArg::Type(_) => found is None,
                ResolvedGenericArg::Comp(value) => found == Some(value),
            },
    {
        match self {
            ResolvedGenericArg::Comp(value) => Some(*value),
            ResolvedGenericArg::Type(_) => None,
        }
    }

    pub fn is_comp(&self) -> (r: bool)
        ensures
            r == (self is Comp),
    {
        match self {
            ResolvedGenericArg::Comp(_) => true,
            _ => false,
        }
    }

    /// This argument without any refinement of the type it names.
    pub open spec fn without_refinement(self) -> ResolvedGenericArg {
        match self {
            ResolvedGenericArg::Type(ty) => ResolvedGenericArg::Type(ty.without_refinement()),
            ResolvedGenericArg::Comp(value) => ResolvedGenericArg::Comp(value),
        }
    }

    pub fn widened(&self) -> (wide: Self)
        ensures
            wide == self.without_refinement(),
    {
        match self {
            ResolvedGenericArg::Type(ty) => ResolvedGenericArg::Type(ty.widened()),
            ResolvedGenericArg::Comp(value) => ResolvedGenericArg::Comp(*value),
        }
    }
}

impl From<ResolvedType> for ResolvedGenericArg {
    fn from(ty: ResolvedType) -> (arg: Self) {
        ResolvedGenericArg::Type(ty)
    }
}

impl vstd::std_specs::convert::FromSpecImpl<ResolvedType> for ResolvedGenericArg {
    open spec fn obeys_from_spec() -> bool {
        true
    }

    open spec fn from_spec(ty: ResolvedType) -> Self {
        ResolvedGenericArg::Type(ty)
    }
}

/// How a numeric type is computed with, and its width in bits.
#[derive(Debug, Clone, Copy, PartialEq, Eq, Structural)]
pub enum NumericKind {
    Signed(u32),
    Unsigned(u32),
    Float(u32),
}

impl NumericKind {
    /// Width in bits.
    pub open spec fn width(self) -> u32 {
        match self {
            NumericKind::Signed(w) => w,
            NumericKind::Unsigned(w) => w,
            NumericKind::Float(w) => w,
        }
    }
}

/// How a value takes part in a cast.
#[derive(Debug, Clone, Copy, PartialEq, Eq, Structural)]
pub enum CastClass {
    Int { width: u32, signed: bool },
    Float { width: u32 },
}

/// A resolved type.
#[allow(inconsistent_fields)]
#[derive(Debug)]
pub enum ResolvedType {
    Void,
    Never,
    Bool,
    Char,
    I8,
    I16,
    I32,
    I64,
    ISize,
    U8,
    U16,
    U32,
    U64,
    USize,
    F32,
    F64,
    Pointer { pointee: Rc<ResolvedType>, mutable: bool },
    Function(Rc<ResolvedFunctionType>),
    Array(Rc<ResolvedType>, bool),
    SizedArray(Rc<ResolvedType>, u32),
    Slice { item: Rc<ResolvedType>, mutable: bool },
    Str { mutable: bool },
    Struct(Rc<ResolvedStructType>),
    Union(Rc<ResolvedUnionType>),
    Enum { cell: Rc<ResolvedEnumType>, variant: Option<usize> },
    Spec(Rc<ResolvedSpecType>),
    SpecObject { shape: Rc<ResolvedSpecShape>, mutable: bool },
    /// A structural `enum A | B | ...`. `variant` mirrors `Enum`'s: it is a
    /// lexical proof that the value currently holds that canonical member,
    /// never a change of storage.
    AnonymousEnum { shape: Rc<ResolvedAnonymousEnum>, variant: Option<usize> },
}

impl Clone for ResolvedType {
    fn clone(&self) -> (copy: Self)
        ensures
            copy == *self,
    {
        match self {
            ResolvedType::Void => ResolvedType::Void,
            ResolvedType::Never => ResolvedType::Never,
            ResolvedType::Bool => ResolvedType::Bool,
            ResolvedType::Char => ResolvedType::Char,
            ResolvedType::I8 => ResolvedType::I8,
            ResolvedType::I16 => ResolvedType::I16,
            ResolvedType::I32 => ResolvedType::I32,
            ResolvedType::I64 => ResolvedType::I64,
            ResolvedType::ISize => ResolvedType::ISize,
            ResolvedType::U8 => ResolvedType::U8,
            ResolvedType::U16 => ResolvedType::U16,
            ResolvedType::U32 => ResolvedType::U32,
            ResolvedType::U64 => ResolvedType::U64,
            ResolvedType::USize => ResolvedType::USize,
            ResolvedType::F32 => ResolvedType::F32,
            ResolvedType::F64 => ResolvedType::F64,
            ResolvedType::Pointer { pointee, mutable } => ResolvedType::Pointer {
                pointee: share(pointee),
                mutable: *mutable,
            },
            ResolvedType::Function(fn_type) => ResolvedType::Function(share(fn_type)),
            ResolvedType::Array(item, mutable) => ResolvedType::Array(share(item), *mutable),
            ResolvedType::SizedArray(item, size) => ResolvedType::SizedArray(share(item), *size),
            ResolvedType::Slice { item, mutable } => ResolvedType::Slice {
                item: share(item),
                mutable: *mutable,
            },
            ResolvedType::Str { mutable } => ResolvedType::Str { mutable: *mutable },
            ResolvedType::Struct(cell) => ResolvedType::Struct(share(cell)),
            ResolvedType::Union(cell) => ResolvedType::Union(share(cell)),
            ResolvedType::Enum { cell, variant } => ResolvedType::Enum {
                cell: share(cell),
                variant: *variant,
            },
            ResolvedType::Spec(cell) => ResolvedType::Spec(share(cell)),
            ResolvedType::SpecObject { shape, mutable } => ResolvedType::SpecObject {
                shape: share(shape),
                mutable: *mutable,
            },
            ResolvedType::AnonymousEnum { shape, variant } => ResolvedType::AnonymousEnum {
                shape: share(shape),
                variant: *variant,
            },
        }
    }
}

impl ResolvedType {
    /// How values of this type are computed with.
    pub open spec fn kind_of_number(self, pointer_bits: u32) -> Option<NumericKind> {
        match self {
            ResolvedType::I8 => Some(NumericKind::Signed(8)),
            ResolvedType::I16 => Some(NumericKind::Signed(16)),
            ResolvedType::I32 => Some(NumericKind::Signed(32)),
            ResolvedType::I64 => Some(NumericKind::Signed(64)),
            ResolvedType::ISize => Some(NumericKind::Signed(pointer_bits)),
            ResolvedType::U8 => Some(NumericKind::Unsigned(8)),
            ResolvedType::U16 => Some(NumericKind::Unsigned(16)),
            ResolvedType::U32 => Some(NumericKind::Unsigned(32)),
            ResolvedType::U64 => Some(NumericKind::Unsigned(64)),
            ResolvedType::USize => Some(NumericKind::Unsigned(pointer_bits)),
            ResolvedType::F32 => Some(NumericKind::Float(32)),
            ResolvedType::F64 => Some(NumericKind::Float(64)),
            _ => None,
        }
    }

    pub fn numeric_kind(&self, pointer_bits: u32) -> (kind: Option<NumericKind>)
        ensures
            kind == self.kind_of_number(pointer_bits),
    {
        match self {
            ResolvedType::I8 => Some(NumericKind::Signed(8)),
            ResolvedType::I16 => Some(NumericKind::Signed(16)),
            ResolvedType::I32 => Some(NumericKind::Signed(32)),
            ResolvedType::I64 => Some(NumericKind::Signed(64)),
            ResolvedType::ISize => Some(NumericKind::Signed(pointer_bits)),
            ResolvedType::U8 => Some(NumericKind::Unsigned(8)),
            ResolvedType::U16 => Some(NumericKind::Unsigned(16)),
            ResolvedType::U32 => Some(NumericKind::Unsigned(32)),
            ResolvedType::U64 => Some(NumericKind::Unsigned(64)),
            ResolvedType::USize => Some(NumericKind::Unsigned(pointer_bits)),
            ResolvedType::F32 => Some(NumericKind::Float(32)),
            ResolvedType::F64 => Some(NumericKind::Float(64)),
            _ => None,
        }
    }

    /// The integer type a pointer's arithmetic is done in.
    pub fn arithmetic_repr(&self) -> (repr: Option<ResolvedType>)
        ensures
            repr == (if self is Pointer {
                Some(ResolvedType::USize)
            } else {
                None
            }),
    {
        match self {
            ResolvedType::Pointer { .. } => Some(ResolvedType::USize),
            _ => None,
        }
    }

    /// Bytes of a primitive, and nothing for any other type.
    pub fn primitive_byte_size(&self, pointer_bytes: u32) -> (bytes: Option<u32>)
        requires
            pointer_bytes * 8 <= u32::MAX,
        ensures
            bytes == (match *self {
                ResolvedType::Bool => Some(1u32),
                ResolvedType::Char => Some(4u32),
                ResolvedType::Pointer { .. } => Some(pointer_bytes),
                _ => match self.kind_of_number((pointer_bytes * 8) as u32) {
                    Some(kind) => Some((kind.width() / 8) as u32),
                    None => None,
                },
            }),
    {
        match self {
            ResolvedType::Bool => Some(1),
            ResolvedType::Char => Some(4),
            ResolvedType::Pointer { .. } => Some(pointer_bytes),
            _ => match self.numeric_kind(pointer_bytes * 8) {
                Some(kind) => {
                    let width: u32 = match kind {
                        NumericKind::Signed(w) => w,
                        NumericKind::Unsigned(w) => w,
                        NumericKind::Float(w) => w,
                    };
                    Some(width / 8)
                },
                None => None,
            },
        }
    }

    /// How a value of this type takes part in a cast.
    pub open spec fn class_of_cast(self, pointer_bits: u32) -> Option<CastClass> {
        match self.kind_of_number(pointer_bits) {
            Some(NumericKind::Signed(width)) => Some(CastClass::Int { width, signed: true }),
            Some(NumericKind::Unsigned(width)) => Some(CastClass::Int { width, signed: false }),
            Some(NumericKind::Float(width)) => Some(CastClass::Float { width }),
            None => match self {
                ResolvedType::Pointer { .. } => Some(
                    CastClass::Int { width: pointer_bits, signed: false },
                ),
                ResolvedType::Char => Some(CastClass::Int { width: 32, signed: false }),
                ResolvedType::Bool => Some(CastClass::Int { width: 8, signed: false }),
                _ => None,
            },
        }
    }

    pub fn cast_class(&self, pointer_bits: u32) -> (class: Option<CastClass>)
        ensures
            class == self.class_of_cast(pointer_bits),
    {
        if let Some(kind) = self.numeric_kind(pointer_bits) {
            return Some(
                match kind {
                    NumericKind::Signed(width) => CastClass::Int { width, signed: true },
                    NumericKind::Unsigned(width) => CastClass::Int { width, signed: false },
                    NumericKind::Float(width) => CastClass::Float { width },
                },
            );
        }
        match self {
            ResolvedType::Pointer { .. } => Some(
                CastClass::Int { width: pointer_bits, signed: false },
            ),
            ResolvedType::Char => Some(CastClass::Int { width: 32, signed: false }),
            ResolvedType::Bool => Some(CastClass::Int { width: 8, signed: false }),
            _ => None,
        }
    }

    /// The least and greatest integer of a type whose values are integers.
    pub open spec fn domain(self, pointer_bits: u32) -> Option<(int, int)> {
        match self {
            ResolvedType::Bool => Some((0, 1)),
            ResolvedType::Char => Some((0, 0x10ffff)),
            _ => match self.kind_of_number(pointer_bits) {
                Some(NumericKind::Signed(width)) => Some(
                    (-(pow2((width - 1) as nat) as int), pow2((width - 1) as nat) - 1),
                ),
                Some(NumericKind::Unsigned(width)) => Some((0, pow2(width as nat) - 1)),
                _ => None,
            },
        }
    }

    /// Whether `value` is one of this type's integers.
    pub open spec fn in_domain(self, value: int, pointer_bits: u32) -> bool {
        match self.domain(pointer_bits) {
            Some((min, max)) => min <= value <= max,
            None => false,
        }
    }

    pub fn integer_domain(&self, pointer_bits: u32) -> (domain: Option<(i128, i128)>)
        requires
            self is ISize ==> 1 <= pointer_bits <= 127,
            self is USize ==> pointer_bits <= 126,
        ensures
            match domain {
                Some((min, max)) => self.domain(pointer_bits) == Some((min as int, max as int)),
                None => self.domain(pointer_bits) is None,
            },
    {
        proof {
            vstd::arithmetic::power2::lemma2_to64();
            vstd::arithmetic::power2::lemma2_to64_rest();
        }
        match self {
            ResolvedType::Bool => Some((0, 1)),
            ResolvedType::Char => Some((0, 0x10ffff)),
            ResolvedType::I8 => Some((-0x80, 0x7f)),
            ResolvedType::I16 => Some((-0x8000, 0x7fff)),
            ResolvedType::I32 => Some((-0x8000_0000, 0x7fff_ffff)),
            ResolvedType::I64 => Some((-0x8000_0000_0000_0000, 0x7fff_ffff_ffff_ffff)),
            ResolvedType::ISize => {
                let half: i128 = power_of_two(pointer_bits - 1);
                Some((-half, half - 1))
            },
            ResolvedType::U8 => Some((0, 0xff)),
            ResolvedType::U16 => Some((0, 0xffff)),
            ResolvedType::U32 => Some((0, 0xffff_ffff)),
            ResolvedType::U64 => Some((0, 0xffff_ffff_ffff_ffff)),
            ResolvedType::USize => {
                let size: i128 = power_of_two(pointer_bits);
                Some((0, size - 1))
            },
            _ => None,
        }
    }

    /// This type with a statically known variant forgotten.
    pub open spec fn without_refinement(self) -> ResolvedType {
        match self {
            ResolvedType::Enum { cell, .. } => ResolvedType::Enum { cell, variant: None },
            ResolvedType::AnonymousEnum { shape, .. } => ResolvedType::AnonymousEnum {
                shape,
                variant: None,
            },
            other => other,
        }
    }

    pub fn widened(&self) -> (wide: ResolvedType)
        ensures
            wide == self.without_refinement(),
    {
        match self {
            ResolvedType::Enum { cell, .. } => ResolvedType::Enum {
                cell: share(cell),
                variant: None,
            },
            ResolvedType::AnonymousEnum { shape, .. } => ResolvedType::AnonymousEnum {
                shape: share(shape),
                variant: None,
            },
            other => other.clone(),
        }
    }

    /// The member an anonymous-enum refinement proves, if this type is one.
    pub fn refined_anonymous_member(&self) -> (found: Option<(usize, &ResolvedType)>)
        requires
            self matches ResolvedType::AnonymousEnum { shape, variant: Some(index) } ==> index
                < shape.members@.len(),
        ensures
            match *self {
                ResolvedType::AnonymousEnum { shape, variant: Some(index) } => found == Some(
                    (index, &shape.members@[index as int]),
                ),
                _ => found is None,
            },
    {
        match self {
            ResolvedType::AnonymousEnum { shape, variant: Some(index) } => Some(
                (*index, &shape.members[*index]),
            ),
            _ => None,
        }
    }

    /// This type as method lookup sees it: without refinement, and with every
    /// pointer on the way to it read-only.
    pub open spec fn as_lookup_key(self) -> ResolvedType
        decreases self,
    {
        match self {
            ResolvedType::Enum { cell, .. } => ResolvedType::Enum { cell, variant: None },
            ResolvedType::AnonymousEnum { shape, .. } => ResolvedType::AnonymousEnum {
                shape,
                variant: None,
            },
            ResolvedType::Pointer { pointee, .. } => ResolvedType::Pointer {
                pointee: Rc::new(pointee.as_lookup_key()),
                mutable: false,
            },
            ResolvedType::Slice { item, .. } => ResolvedType::Slice {
                item: Rc::new(item.as_lookup_key()),
                mutable: false,
            },
            ResolvedType::Str { .. } => ResolvedType::Str { mutable: false },
            other => other,
        }
    }

    pub fn lookup_key(&self) -> (key: ResolvedType)
        ensures
            key == self.as_lookup_key(),
        decreases self,
    {
        match self {
            ResolvedType::Enum { cell, .. } => ResolvedType::Enum {
                cell: share(cell),
                variant: None,
            },
            ResolvedType::AnonymousEnum { shape, .. } => ResolvedType::AnonymousEnum {
                shape: share(shape),
                variant: None,
            },
            ResolvedType::Pointer { pointee, .. } => ResolvedType::Pointer {
                pointee: Rc::new(pointee.lookup_key()),
                mutable: false,
            },
            ResolvedType::Slice { item, .. } => ResolvedType::Slice {
                item: Rc::new(item.lookup_key()),
                mutable: false,
            },
            ResolvedType::Str { .. } => ResolvedType::Str { mutable: false },
            other => other.clone(),
        }
    }

    /// The functions a nominal type declares, across both namespaces.
    pub open spec fn declared(self) -> Option<Seq<(Ident, ResolvedMethod)>> {
        match self {
            ResolvedType::Struct(cell) => Some(cell.functions@),
            ResolvedType::Union(cell) => Some(cell.functions@),
            ResolvedType::Enum { cell, .. } => Some(cell.functions@),
            _ => None,
        }
    }

    /// The declarations of `name` this owner offers in `namespace`, in
    /// declaration order. Nothing for a type that owns no declarations.
    pub fn candidates_in(&self, namespace: FunctionNamespace, name: &Ident) -> (found: Option<
        Vec<ResolvedMethod>,
    >)
        ensures
            match (found, self.declared()) {
                (Some(methods), Some(functions)) => methods@ == selected(
                    functions,
                    namespace,
                    name@,
                ),
                (None, None) => true,
                _ => false,
            },
    {
        match self {
            ResolvedType::Struct(cell) => Some(namespace.select(&cell.functions, name)),
            ResolvedType::Union(cell) => Some(namespace.select(&cell.functions, name)),
            ResolvedType::Enum { cell, .. } => Some(namespace.select(&cell.functions, name)),
            _ => None,
        }
    }

    /// The module and identity of a nominal type's declaration.
    pub fn declaring_owner(&self) -> (owner: Option<(Vec<Ident>, HirId)>)
        ensures
            match *self {
                ResolvedType::Struct(cell) => owner matches Some((path, id)) && path@
                    == cell.module@ && id == cell.id,
                ResolvedType::Union(cell) => owner matches Some((path, id)) && path@
                    == cell.module@ && id == cell.id,
                ResolvedType::Enum { cell, .. } => owner matches Some((path, id)) && path@
                    == cell.module@ && id == cell.id,
                _ => owner is None,
            },
    {
        match self {
            ResolvedType::Struct(cell) => Some((copy_names(&cell.module), cell.id)),
            ResolvedType::Union(cell) => Some((copy_names(&cell.module), cell.id)),
            ResolvedType::Enum { cell, .. } => Some((copy_names(&cell.module), cell.id)),
            _ => None,
        }
    }

    /// What a pointer points to; any other type itself.
    pub fn autoderef(&self) -> (inner: &ResolvedType)
        ensures
            *inner == (match *self {
                ResolvedType::Pointer { pointee, .. } => *pointee,
                other => other,
            }),
    {
        match self {
            ResolvedType::Pointer { pointee, .. } => pointee,
            other => other,
        }
    }

    /// Whether data behind a pointer-like type may be written.
    pub fn pointer_like_mutable(&self) -> (r: Option<bool>)
        ensures
            r == (match *self {
                ResolvedType::Pointer { mutable, .. } => Some(mutable),
                ResolvedType::Slice { mutable, .. } => Some(mutable),
                ResolvedType::Str { mutable } => Some(mutable),
                ResolvedType::Array(_, mutable) => Some(mutable),
                _ => None,
            }),
    {
        match self {
            ResolvedType::Pointer { mutable, .. } => Some(*mutable),
            ResolvedType::Slice { mutable, .. } => Some(*mutable),
            ResolvedType::Str { mutable } => Some(*mutable),
            ResolvedType::Array(_, mutable) => Some(*mutable),
            _ => None,
        }
    }
}

/// `2` to the power `exponent`.
fn power_of_two(exponent: u32) -> (power: i128)
    requires
        exponent <= 126,
    ensures
        power == pow2(exponent as nat),
        1 <= power <= 0x4000_0000_0000_0000_0000_0000_0000_0000,
{
    let mut power: i128 = 1;
    let mut k: u32 = 0;
    proof {
        vstd::arithmetic::power2::lemma2_to64();
        lemma_pow2_126();
    }
    while k < exponent
        invariant
            k <= exponent <= 126,
            power == pow2(k as nat),
            pow2(126) == 0x4000_0000_0000_0000_0000_0000_0000_0000,
        decreases exponent - k,
    {
        proof {
            vstd::arithmetic::power2::lemma_pow2_unfold((k + 1) as nat);
            if k + 1 < 126 {
                vstd::arithmetic::power2::lemma_pow2_strictly_increases((k + 1) as nat, 126);
            }
        }
        power = power * 2;
        k = k + 1;
    }
    proof {
        if exponent < 126 {
            vstd::arithmetic::power2::lemma_pow2_strictly_increases(exponent as nat, 126);
        }
        vstd::arithmetic::power2::lemma_pow2_pos(exponent as nat);
    }
    power
}

proof fn lemma_pow2_126()
    ensures
        pow2(126) == 0x4000_0000_0000_0000_0000_0000_0000_0000,
{
    vstd::arithmetic::power2::lemma2_to64();
    vstd::arithmetic::power2::lemma2_to64_rest();
    vstd::arithmetic::power2::lemma_pow2_adds(62, 64);
}

/// Which associated-function namespace a type-qualified path selects.
///
/// The two namespaces are independent: a receiverless and a receiver-bearing
/// function may share a name and a parameter list without colliding, and
/// neither namespace can be reached with the other's spelling.
#[derive(Debug, Clone, Copy, PartialEq, Eq, Structural)]
pub enum FunctionNamespace {
    /// `Type::name` -- receiverless associated functions.
    Static,
    /// `Type::self::name` -- functions declaring a receiver.
    Member,
}

/// The contextual segment selecting the member namespace.
pub const MEMBER_SEGMENT: &'static str = "self";

/// The methods among `functions` that are called `name` and belong to
/// `namespace`, in order.
pub open spec fn selected(
    functions: Seq<(Ident, ResolvedMethod)>,
    namespace: FunctionNamespace,
    name: Seq<char>,
) -> Seq<ResolvedMethod>
    decreases functions.len(),
{
    if functions.len() == 0 {
        Seq::empty()
    } else {
        let (candidate, method) = functions.last();
        let before = selected(functions.drop_last(), namespace, name);
        if candidate@ == name && method.in_namespace() == namespace {
            before.push(method)
        } else {
            before
        }
    }
}

/// The names of the methods that belong to `namespace`, in order.
pub open spec fn offered(
    functions: Seq<(Ident, ResolvedMethod)>,
    namespace: FunctionNamespace,
) -> Seq<Ident>
    decreases functions.len(),
{
    if functions.len() == 0 {
        Seq::empty()
    } else {
        let (candidate, method) = functions.last();
        let before = offered(functions.drop_last(), namespace);
        if method.in_namespace() == namespace {
            before.push(candidate)
        } else {
            before
        }
    }
}

impl FunctionNamespace {
    /// The namespace a declared receiver form belongs to.
    pub open spec fn of_receiver(self_mode: Option<SelfMode>) -> FunctionNamespace {
        if self_mode is Some {
            FunctionNamespace::Member
        } else {
            FunctionNamespace::Static
        }
    }

    pub fn of(fn_type: &ResolvedFunctionType) -> (namespace: Self)
        ensures
            namespace == FunctionNamespace::of_receiver(fn_type.self_mode),
    {
        FunctionNamespace::of_declaration(fn_type.self_mode)
    }

    /// The namespace a declaration's written receiver form places it in.
    pub fn of_declaration(self_mode: Option<SelfMode>) -> (namespace: Self)
        ensures
            namespace == FunctionNamespace::of_receiver(self_mode),
    {
        match self_mode {
            Some(_) => FunctionNamespace::Member,
            None => FunctionNamespace::Static,
        }
    }

    /// The namespace that is not this one.
    pub open spec fn opposite(self) -> FunctionNamespace {
        match self {
            FunctionNamespace::Static => FunctionNamespace::Member,
            FunctionNamespace::Member => FunctionNamespace::Static,
        }
    }

    pub fn other(self) -> (namespace: Self)
        ensures
            namespace == self.opposite(),
            namespace != self,
            namespace.opposite() == self,
    {
        match self {
            FunctionNamespace::Static => FunctionNamespace::Member,
            FunctionNamespace::Member => FunctionNamespace::Static,
        }
    }

    /// The declarations named `name` that belong to this namespace, in
    /// declaration order.
    pub fn select(self, functions: &Vec<(Ident, ResolvedMethod)>, name: &Ident) -> (found: Vec<
        ResolvedMethod,
    >)
        ensures
            found@ == selected(functions@, self, name@),
    {
        let mut found: Vec<ResolvedMethod> = Vec::new();
        let mut i: usize = 0;
        while i < functions.len()
            invariant
                i <= functions@.len(),
                found@ == selected(functions@.take(i as int), self, name@),
            decreases functions.len() - i,
        {
            proof {
                assert(functions@.take(i as int + 1).drop_last() =~= functions@.take(i as int));
            }
            let entry: &(Ident, ResolvedMethod) = &functions[i];
            if same_text(entry.0.as_ref(), name.as_ref()) && entry.1.namespace() == self {
                found.push(entry.1.clone());
            }
            i = i + 1;
        }
        assert(functions@.take(i as int) =~= functions@);
        found
    }

    /// The names this namespace offers, in declaration order.
    pub fn names(self, functions: &Vec<(Ident, ResolvedMethod)>) -> (found: Vec<Ident>)
        ensures
            found@ == offered(functions@, self),
    {
        let mut found: Vec<Ident> = Vec::new();
        let mut i: usize = 0;
        while i < functions.len()
            invariant
                i <= functions@.len(),
                found@ == offered(functions@.take(i as int), self),
            decreases functions.len() - i,
        {
            proof {
                assert(functions@.take(i as int + 1).drop_last() =~= functions@.take(i as int));
            }
            let entry: &(Ident, ResolvedMethod) = &functions[i];
            if entry.1.namespace() == self {
                found.push(entry.0.clone());
            }
            i = i + 1;
        }
        assert(functions@.take(i as int) =~= functions@);
        found
    }

    /// How a path selecting this namespace is written.
    pub open spec fn spelled(self, owner: Seq<char>, name: Seq<char>) -> Seq<char> {
        match self {
            FunctionNamespace::Static => owner + "::"@ + name,
            FunctionNamespace::Member => owner + "::"@ + "self"@ + "::"@ + name,
        }
    }

    pub fn spelling(self, owner: &str, name: &Ident) -> (text: String)
        ensures
            text@ == self.spelled(owner@, name@),
    {
        let mut text: String = owner.to_owned();
        text.append("::");
        match self {
            FunctionNamespace::Static => {},
            FunctionNamespace::Member => {
                text.append(MEMBER_SEGMENT);
                text.append("::");
            },
        }
        text.append(name.as_ref());
        text
    }
}

impl ResolvedMethod {
    /// The namespace this method belongs to.
    pub open spec fn in_namespace(self) -> FunctionNamespace {
        FunctionNamespace::of_receiver(self.fn_type.self_mode)
    }

    pub fn namespace(&self) -> (namespace: FunctionNamespace)
        ensures
            namespace == self.in_namespace(),
    {
        FunctionNamespace::of(&self.fn_type)
    }

    /// This function's type when it is acquired by address rather than
    /// called through its owner.
    pub fn value_fn_type(&self) -> (value: ResolvedFunctionType)
        ensures
            self.fn_type.is_unbound_value(value),
    {
        self.fn_type.unbound_value()
    }
}

impl Clone for ResolvedMethod {
    fn clone(&self) -> (copy: Self)
        ensures
            copy == *self,
    {
        ResolvedMethod {
            decl_id: self.decl_id,
            fn_type: share(&self.fn_type),
            visibility: self.visibility,
            annotations: share(&self.annotations),
            source: match &self.source {
                Some(source) => Some(share(source)),
                None => None,
            },
        }
    }
}

impl ResolvedFunctionType {
    /// The parameter types, in order.
    pub open spec fn types_of_params(self) -> Seq<ResolvedType> {
        self.params@.map_values(|param: ResolvedFunctionParam| param.ty)
    }

    pub fn param_types(&self) -> (types: Vec<ResolvedType>)
        ensures
            types@ == self.types_of_params(),
    {
        let mut types: Vec<ResolvedType> = Vec::new();
        let mut i: usize = 0;
        while i < self.params.len()
            invariant
                i <= self.params@.len(),
                types@ =~= self.types_of_params().take(i as int),
            decreases self.params.len() - i,
        {
            types.push(self.params[i].ty.clone());
            i = i + 1;
        }
        types
    }

    /// Whether `value` is this declaration's type as an unbound first-class
    /// function value: the receiver metadata is dropped, and with it the
    /// descriptor of parameter 0, which the receiver had become.
    pub open spec fn is_unbound_value(self, value: ResolvedFunctionType) -> bool {
        &&& value.self_mode is None
        &&& value.return_type == self.return_type
        &&& value.is_variadic == self.is_variadic
        &&& value.calling_convention == self.calling_convention
        &&& value.params@ == if self.self_mode is Some && self.params@.len() > 0 {
            self.params@.update(0, ResolvedFunctionParam { name: None, ty: self.params@[0].ty })
        } else {
            self.params@
        }
    }

    pub fn unbound_value(&self) -> (value: Self)
        ensures
            self.is_unbound_value(value),
    {
        let mut params: Vec<ResolvedFunctionParam> = Vec::new();
        let mut i: usize = 0;
        while i < self.params.len()
            invariant
                i <= self.params@.len(),
                params@.len() == i,
                forall|k: int|
                    0 <= k < i ==> #[trigger] params@[k] == if self.self_mode is Some && k == 0 {
                        ResolvedFunctionParam { name: None, ty: self.params@[0].ty }
                    } else {
                        self.params@[k]
                    },
            decreases self.params.len() - i,
        {
            if self.self_mode.is_some() && i == 0 {
                params.push(ResolvedFunctionParam::anonymous(self.params[i].ty.clone()));
            } else {
                params.push(self.params[i].clone());
            }
            i = i + 1;
        }
        let value = ResolvedFunctionType {
            params,
            return_type: share(&self.return_type),
            is_variadic: self.is_variadic,
            self_mode: None,
            calling_convention: self.calling_convention,
        };
        assert(value.params@ =~= if self.self_mode is Some && self.params@.len() > 0 {
            self.params@.update(0, ResolvedFunctionParam { name: None, ty: self.params@[0].ty })
        } else {
            self.params@
        });
        value
    }
}

/// Forgetting a refinement twice is forgetting it once.
pub proof fn law_widening_is_idempotent(ty: ResolvedType)
    ensures
        ty.without_refinement().without_refinement() == ty.without_refinement(),
{
}

/// A lookup key is its own lookup key.
pub proof fn law_lookup_key_is_idempotent(ty: &ResolvedType)
    ensures
        ty.as_lookup_key().as_lookup_key() == ty.as_lookup_key(),
    decreases ty,
{
    match ty {
        ResolvedType::Pointer { pointee, .. } => law_lookup_key_is_idempotent(pointee),
        ResolvedType::Slice { item, .. } => law_lookup_key_is_idempotent(&**item),
        _ => {},
    }
}

/// Refinement plays no part in method lookup.
pub proof fn law_lookup_ignores_refinement(ty: ResolvedType)
    ensures
        ty.without_refinement().as_lookup_key() == ty.as_lookup_key(),
{
}

/// A normalized value lies in the domain of the type it was declared with,
/// and normalizing it again changes nothing.
pub proof fn law_normalized_values_are_canonical(
    value: ConstValue,
    declared: CompScalarType,
    pointer_bits: u32,
)
    requires
        1 <= pointer_bits <= 126,
        CompScalar::normalized(value, declared, pointer_bits) is Some,
    ensures
        ({
            let scalar = CompScalar::normalized(value, declared, pointer_bits)->0;
            &&& scalar.declared() == declared
            &&& scalar matches CompScalar::Int { ty, value } ==> ty.denoted().in_domain(
                value as int,
                pointer_bits,
            )
        }),
{
}

} // verus!
