//! What the analysis reports, and how it is worded.

pub mod kind;
pub mod render;
pub mod warning;

use crate::diagnostics::{
    first_primary, Diagnostic, DiagnosticView, Label, LabelStyle, LabelView, SourceId, SourceSpan,
};
use crate::error::kind::AnalysisErrorKind;
use crate::hir::HirId;
use crate::phrases::{bool_text, bool_word, join, path_text};
use crate::resolved_type::{CallingConvention, ResolvedAnonymousEnum, ResolvedType};
use crate::resolver::ResolveError;
use crate::syntax::{ArrayLength, CompLiteral, FunctionTypeParam, GenericArg, Ident, Span, Type};
use crate::target::Target;
use crate::text::{decimal, decimal_text, join_texts, joined, same_text, views};
use crate::type_text::{printable, type_text};
use vstd::prelude::*;

verus! {

/// How a compile-time literal is written.
pub open spec fn literal_text(literal: CompLiteral) -> Seq<char> {
    match literal {
        CompLiteral::Int { negative, number } => if negative {
            "-"@ + number.integer_part@
        } else {
            number.integer_part@
        },
        CompLiteral::Bool(value) => bool_text(value),
        CompLiteral::Char(value) => seq!['\'', value, '\''],
    }
}

pub fn raw_comp_literal_display(literal: &CompLiteral) -> (text: String)
    ensures
        text@ == literal_text(*literal),
{
    match literal {
        CompLiteral::Int { negative, number } => if *negative {
            let mut text: String = "-".to_owned();
            text.append(number.integer_part.as_str());
            text
        } else {
            number.integer_part.as_str().to_owned()
        },
        CompLiteral::Bool(value) => bool_word(*value).to_owned(),
        CompLiteral::Char(value) => {
            let mut text: String = String::new();
            text.push('\'');
            text.push(*value);
            text.push('\'');
            assert(text@ =~= literal_text(*literal));
            text
        },
    }
}

/// How an array length is written.
pub open spec fn length_text(length: ArrayLength) -> Seq<char> {
    match length {
        ArrayLength::Literal(literal) => literal_text(literal),
        ArrayLength::Path(path) => path_text(path.all_segments()),
    }
}

pub fn raw_array_length_display(length: &ArrayLength) -> (text: String)
    ensures
        text@ == length_text(*length),
{
    match length {
        ArrayLength::Literal(literal) => raw_comp_literal_display(literal),
        ArrayLength::Path(path) => join(&path.segments()),
    }
}

/// How a generic argument is written.
pub open spec fn raw_arg_text(arg: GenericArg) -> Seq<char>
    decreases arg, 0int,
{
    match arg {
        GenericArg::Type(ty) => raw_text(ty),
        GenericArg::Value(literal) => literal_text(literal),
    }
}

/// How generic arguments are written, each on its own.
pub open spec fn raw_arg_texts(args: Seq<GenericArg>) -> Seq<Seq<char>>
    decreases args, 0int,
{
    if args.len() == 0 {
        Seq::empty()
    } else {
        raw_arg_texts(args.drop_last()).push(raw_arg_text(args.last()))
    }
}

/// How types are written, each on its own.
pub open spec fn raw_texts(types: Seq<Type>) -> Seq<Seq<char>>
    decreases types, 0int,
{
    if types.len() == 0 {
        Seq::empty()
    } else {
        raw_texts(types.drop_last()).push(raw_text(types.last()))
    }
}

/// How parameters are written, each on its own.
pub open spec fn raw_param_texts(params: Seq<FunctionTypeParam>) -> Seq<Seq<char>>
    decreases params, 0int,
{
    if params.len() == 0 {
        Seq::empty()
    } else {
        raw_param_texts(params.drop_last()).push(
            match params.last().name {
                Some(name) => name@ + ": "@ + raw_text(params.last().ty),
                None => raw_text(params.last().ty),
            },
        )
    }
}

/// How a type is written in the source.
pub open spec fn raw_text(ty: Type) -> Seq<char>
    decreases ty, 0int,
{
    match ty {
        Type::Named(path) => path_text(path.all_segments()),
        Type::Generic(path, args) => path_text(path.all_segments()) + "<"@ + joined(
            raw_arg_texts(args@),
            ", "@,
        ) + ">"@,
        Type::Pointer(inner, mutable) => (if mutable {
            "*mut "@
        } else {
            "*"@
        }) + raw_text(*inner),
        Type::UnknownSizeArray(inner) => "*[?]"@ + raw_text(*inner),
        Type::InferredArray(inner) => "[]"@ + raw_text(*inner),
        Type::SizedArray(inner, length) => "["@ + length_text(length) + "]"@ + raw_text(*inner),
        Type::Function(function) => "("@ + joined(raw_param_texts(function.params@), ", "@)
            + ") => "@ + raw_text(function.return_type),
        Type::SpecStatic(members) => "spec "@ + joined(raw_texts(members@), " + "@),
        Type::AnonymousEnum(members) => "enum "@ + joined(raw_texts(members@), " | "@),
    }
}

/// The written spelling of one generic argument, for diagnostics that echo
/// source syntax back to the reader.
pub fn raw_generic_arg_display(arg: &GenericArg) -> (text: String)
    ensures
        text@ == raw_arg_text(*arg),
    decreases arg, 0int,
{
    match arg {
        GenericArg::Type(ty) => raw_type_display(ty),
        GenericArg::Value(literal) => raw_comp_literal_display(literal),
    }
}

fn raw_args_display(args: &Vec<GenericArg>) -> (items: Vec<String>)
    ensures
        views(items@) == raw_arg_texts(args@),
    decreases args, 0int,
{
    let mut items: Vec<String> = Vec::new();
    let mut i: usize = 0;
    assert(views(items@) =~= Seq::empty());
    while i < args.len()
        invariant
            i <= args@.len(),
            views(items@) == raw_arg_texts(args@.take(i as int)),
        decreases args.len() - i,
    {
        let ghost before = items@;
        assert(args@.take(i as int + 1).drop_last() =~= args@.take(i as int));
        items.push(raw_generic_arg_display(&args[i]));
        assert(views(items@) =~= views(before).push(items@.last()@));
        i = i + 1;
    }
    assert(args@.take(i as int) =~= args@);
    items
}

fn raw_types_display(types: &Vec<Type>) -> (items: Vec<String>)
    ensures
        views(items@) == raw_texts(types@),
    decreases types, 0int,
{
    let mut items: Vec<String> = Vec::new();
    let mut i: usize = 0;
    assert(views(items@) =~= Seq::empty());
    while i < types.len()
        invariant
            i <= types@.len(),
            views(items@) == raw_texts(types@.take(i as int)),
        decreases types.len() - i,
    {
        let ghost before = items@;
        assert(types@.take(i as int + 1).drop_last() =~= types@.take(i as int));
        items.push(raw_type_display(&types[i]));
        assert(views(items@) =~= views(before).push(items@.last()@));
        i = i + 1;
    }
    assert(types@.take(i as int) =~= types@);
    items
}

fn raw_params_display(params: &Vec<FunctionTypeParam>) -> (items: Vec<String>)
    ensures
        views(items@) == raw_param_texts(params@),
    decreases params, 0int,
{
    let mut items: Vec<String> = Vec::new();
    let mut i: usize = 0;
    assert(views(items@) =~= Seq::empty());
    while i < params.len()
        invariant
            i <= params@.len(),
            views(items@) == raw_param_texts(params@.take(i as int)),
        decreases params.len() - i,
    {
        let ghost before = items@;
        assert(params@.take(i as int + 1).drop_last() =~= params@.take(i as int));
        let written: String = raw_type_display(&params[i].ty);
        match &params[i].name {
            Some(name) => {
                let mut item: String = name.as_ref().to_owned();
                item.append(": ");
                item.append(written.as_str());
                items.push(item);
            },
            None => {
                items.push(written);
            },
        }
        assert(views(items@) =~= views(before).push(items@.last()@));
        i = i + 1;
    }
    assert(params@.take(i as int) =~= params@);
    items
}

/// The written spelling of a type.
pub fn raw_type_display(ty: &Type) -> (text: String)
    ensures
        text@ == raw_text(*ty),
    decreases ty, 0int,
{
    match ty {
        Type::Named(path) => join(&path.segments()),
        Type::Generic(path, args) => {
            let items: Vec<String> = raw_args_display(args);
            let mut text: String = join(&path.segments());
            text.append("<");
            text.append(join_texts(&items, ", ").as_str());
            text.append(">");
            text
        },
        Type::Pointer(inner, mutable) => {
            let mut text: String = if *mutable {
                "*mut ".to_owned()
            } else {
                "*".to_owned()
            };
            text.append(raw_type_display(inner).as_str());
            text
        },
        Type::UnknownSizeArray(inner) => {
            let mut text: String = "*[?]".to_owned();
            text.append(raw_type_display(inner).as_str());
            text
        },
        Type::InferredArray(inner) => {
            let mut text: String = "[]".to_owned();
            text.append(raw_type_display(inner).as_str());
            text
        },
        Type::SizedArray(inner, length) => {
            let mut text: String = "[".to_owned();
            text.append(raw_array_length_display(length).as_str());
            text.append("]");
            text.append(raw_type_display(inner).as_str());
            text
        },
        Type::Function(function) => {
            let items: Vec<String> = raw_params_display(&function.params);
            let mut text: String = "(".to_owned();
            text.append(join_texts(&items, ", ").as_str());
            text.append(") => ");
            text.append(raw_type_display(&function.return_type).as_str());
            text
        },
        Type::SpecStatic(members) => {
            let items: Vec<String> = raw_types_display(members);
            let mut text: String = "spec ".to_owned();
            text.append(join_texts(&items, " + ").as_str());
            text
        },
        Type::AnonymousEnum(members) => {
            let items: Vec<String> = raw_types_display(members);
            let mut text: String = "enum ".to_owned();
            text.append(join_texts(&items, " | ").as_str());
            text
        },
    }
}

/// Why a written fixed-array length is not usable as one.
#[derive(Debug, Clone, Copy, PartialEq, Eq, Structural)]
pub enum ArrayLengthProblem {
    NotAnInteger,
    Negative,
    TooLarge,
}

impl ArrayLengthProblem {
    /// The predicate that completes "array length ...".
    pub open spec fn text(self) -> Seq<char> {
        match self {
            ArrayLengthProblem::NotAnInteger => "is not a compile-time integer"@,
            ArrayLengthProblem::Negative => "is negative"@,
            ArrayLengthProblem::TooLarge => "does not fit a u32"@,
        }
    }

    pub fn phrase(self) -> (text: &'static str)
        ensures
            text@ == self.text(),
    {
        match self {
            ArrayLengthProblem::NotAnInteger => "is not a compile-time integer",
            ArrayLengthProblem::Negative => "is negative",
            ArrayLengthProblem::TooLarge => "does not fit a u32",
        }
    }
}

/// Why a written type is not one.
#[derive(Debug)]
#[allow(inconsistent_fields)]
pub enum TypeResolutionError {
    UnrecognizedNamedType { name: Ident, similar: Option<Ident> },
    ModuleNotImported { name: Ident, similar: Option<Ident> },
    /// A written array length that does not resolve to a nonnegative
    /// compile-time integer inside the fixed-array size domain, with the
    /// value it resolved to, when it resolved at all.
    InvalidArrayLength { written: String, value: Option<String>, reason: ArrayLengthProblem },
    /// A path used where a compile-time value is required, but the binding
    /// it names is an ordinary runtime binding.
    NotACompValue(Ident),
    /// A type named where a compile-time value is required.
    CompValueIsAType(Ident),
    /// A `comp` binding whose value is not available at this point.
    CompValueUnavailable(Ident),
    /// A `comp` generic parameter declared with a type that has no canonical
    /// compile-time identity yet.
    UnsupportedCompParamType { param: Ident, ty: ResolvedType },
    /// A generic argument written as the wrong kind for its parameter.
    GenericArgKindMismatch { param: Ident, expected_value: bool },
    /// A written scalar literal whose magnitude no compile-time integer can
    /// hold.
    CompLiteralOutOfRange(CompLiteral),
    /// A compile-time value that cannot be represented exactly in the type
    /// its `comp` parameter declares.
    CompArgNotRepresentable { param: Ident, value: String, declared: ResolvedType },
    ModuleResolution(ResolveError),
    NotAType(Vec<Ident>),
    NoSuchVariantForType { enum_name: Ident, name: Ident, similar: Option<Ident> },
    NotASpec(Ident),
    SpecNotObjectSafe(Ident),
    SpecStaticNotAllowedHere(Ident),
    SpecUsedAsValueType(Ident),
    NeverNotAllowedHere,
    BareUnsizedArray,
    BareUnknownSizeArray,
    UnknownCallingConvention { name: Ident },
    CallingConventionNotAvailable { name: Ident, convention: CallingConvention, target: Target },
    VariadicNotSupportedByConvention { convention: CallingConvention },
    AnonymousEnumTooManyMembers { count: usize },
}

impl TypeResolutionError {
    /// Whether every type this error names can be written.
    pub open spec fn printable(&self) -> bool {
        match *self {
            TypeResolutionError::UnsupportedCompParamType { ty, .. } => printable(ty),
            TypeResolutionError::CompArgNotRepresentable { declared, .. } => printable(declared),
            _ => true,
        }
    }

    /// The headline of this error.
    pub open spec fn message(&self) -> Seq<char> {
        match *self {
            TypeResolutionError::UnrecognizedNamedType { name, .. } => "cannot find type '"@
                + name@
                + "' in this scope"@,
            TypeResolutionError::ModuleNotImported { name, .. } => "module '"@
                + name@
                + "' is not imported"@,
            TypeResolutionError::InvalidArrayLength { written, value, reason } => match value {
                Some(value) if value@ != written@ => "array length '"@
                    + written@
                    + "' ("@
                    + value@
                    + ") "@
                    + reason.text(),
                _ => "array length '"@
                    + written@
                    + "' "@
                    + reason.text(),
            },
            TypeResolutionError::NotACompValue(name) => "'"@
                + name@
                + "' is a runtime binding, but a compile-time value is required here (declare it with 'comp')"@,
            TypeResolutionError::CompValueIsAType(name) => "'"@
                + name@
                + "' is a type, but a compile-time value is required here"@,
            TypeResolutionError::CompValueUnavailable(name) => "the compile-time value of '"@
                + name@
                + "' is not available here"@,
            TypeResolutionError::UnsupportedCompParamType { param, ty } => "'comp "@
                + param@
                + ": "@
                + type_text(ty, false)
                + "' is not supported -- a 'comp' generic parameter must currently be an integer, 'bool', or 'char'"@,
            TypeResolutionError::GenericArgKindMismatch { param, expected_value } => if expected_value {
                "generic parameter '"@
                    + param@
                    + "' is a 'comp' parameter, so it takes a compile-time value, not a type"@
            } else {
                "generic parameter '"@
                    + param@
                    + "' is a type parameter, so it takes a type, not a value"@
            },
            TypeResolutionError::CompLiteralOutOfRange(literal) => "'"@
                + literal_text(literal)
                + "' is outside the range of every compile-time integer type"@,
            TypeResolutionError::CompArgNotRepresentable { param, value, declared } => "'"@
                + value@
                + "' cannot be represented as '"@
                + type_text(declared, false)
                + "', the declared type of 'comp "@
                + param@
                + "'"@,
            TypeResolutionError::ModuleResolution(e) => e.message(),
            TypeResolutionError::NotAType(path) => "'"@
                + path_text(path@)
                + "' is a value, not a type"@,
            TypeResolutionError::NoSuchVariantForType { enum_name, name, .. } => "no variant '"@
                + name@
                + "' on enum '"@
                + enum_name@
                + "'"@,
            TypeResolutionError::NotASpec(name) => "'"@
                + name@
                + "' is not a spec"@,
            TypeResolutionError::SpecNotObjectSafe(name) => "'"@
                + name@
                + "' can't be used as 'spec *"@
                + name@
                + "' -- it has a 'spec T' (static-dispatch) return requirement, which no dynamic-dispatch vtable slot can represent"@,
            TypeResolutionError::SpecStaticNotAllowedHere(name) => "'spec "@
                + name@
                + "' is only allowed as a parameter type, or as a return type inside a spec's own function declaration"@,
            TypeResolutionError::SpecUsedAsValueType(name) => "'"@
                + name@
                + "' is a spec -- it has no size on its own, so it can't be used as a value's type"@,
            TypeResolutionError::NeverNotAllowedHere => "'never' is only allowed as a function/method's own return type"@,
            TypeResolutionError::BareUnsizedArray => "'[]T' is not valid on its own"@,
            TypeResolutionError::BareUnknownSizeArray => "'[?]T' is not valid on its own"@,
            TypeResolutionError::UnknownCallingConvention { name } => "unknown calling convention '"@
                + name@
                + "'"@,
            TypeResolutionError::CallingConventionNotAvailable { name, target, .. } => "calling convention '"@
                + name@
                + "' is not available on target '"@
                + target.spelling()
                + "'"@,
            TypeResolutionError::VariadicNotSupportedByConvention { convention } => "the '"@
                + convention.spelling()
                + "' calling convention does not support variadic functions"@,
            TypeResolutionError::AnonymousEnumTooManyMembers { count } => "an anonymous enum has "@
                + decimal(count as nat)
                + " distinct members, but its tag is a 'u32' and can only distinguish "@
                + decimal(ResolvedAnonymousEnum::MAX_MEMBERS as nat)
                + " of them"@,
        }
    }

    pub fn to_string(&self) -> (text: String)
        requires
            self.printable(),
        ensures
            text@ == self.message(),
    {
        match self {
            TypeResolutionError::UnrecognizedNamedType { name, .. } => {
                let mut out: String = "cannot find type '".to_owned();
                out.append(name.as_ref());
                out.append("' in this scope");
                out
            },
            TypeResolutionError::ModuleNotImported { name, .. } => {
                let mut out: String = "module '".to_owned();
                out.append(name.as_ref());
                out.append("' is not imported");
                out
            },
            TypeResolutionError::InvalidArrayLength { written, value, reason } => match value {
                Some(value) if !same_text(value.as_str(), written.as_str()) => {
                    let mut out: String = "array length '".to_owned();
                    out.append(written.as_str());
                    out.append("' (");
                    out.append(value.as_str());
                    out.append(") ");
                    out.append(reason.phrase());
                    out
                },
                _ => {
                    let mut out: String = "array length '".to_owned();
                    out.append(written.as_str());
                    out.append("' ");
                    out.append(reason.phrase());
                    out
                },
            },
            TypeResolutionError::NotACompValue(name) => {
                let mut out: String = "'".to_owned();
                out.append(name.as_ref());
                out.append("' is a runtime binding, but a compile-time value is required here (declare it with 'comp')");
                out
            },
            TypeResolutionError::CompValueIsAType(name) => {
                let mut out: String = "'".to_owned();
                out.append(name.as_ref());
                out.append("' is a type, but a compile-time value is required here");
                out
            },
            TypeResolutionError::CompValueUnavailable(name) => {
                let mut out: String = "the compile-time value of '".to_owned();
                out.append(name.as_ref());
                out.append("' is not available here");
                out
            },
            TypeResolutionError::UnsupportedCompParamType { param, ty } => {
                let mut out: String = "'comp ".to_owned();
                out.append(param.as_ref());
                out.append(": ");
                out.append(ty.to_string().as_str());
                out.append("' is not supported -- a 'comp' generic parameter must currently be an integer, 'bool', or 'char'");
                out
            },
            TypeResolutionError::GenericArgKindMismatch { param, expected_value } => if *expected_value {
                let mut out: String = "generic parameter '".to_owned();
                out.append(param.as_ref());
                out.append("' is a 'comp' parameter, so it takes a compile-time value, not a type");
                out
            } else {
                let mut out: String = "generic parameter '".to_owned();
                out.append(param.as_ref());
                out.append("' is a type parameter, so it takes a type, not a value");
                out
            },
            TypeResolutionError::CompLiteralOutOfRange(literal) => {
                let mut out: String = "'".to_owned();
                out.append(raw_comp_literal_display(literal).as_str());
                out.append("' is outside the range of every compile-time integer type");
                out
            },
            TypeResolutionError::CompArgNotRepresentable { param, value, declared } => {
                let mut out: String = "'".to_owned();
                out.append(value.as_str());
                out.append("' cannot be represented as '");
                out.append(declared.to_string().as_str());
                out.append("', the declared type of 'comp ");
                out.append(param.as_ref());
                out.append("'");
                out
            },
            TypeResolutionError::ModuleResolution(e) => e.to_string(),
            TypeResolutionError::NotAType(path) => {
                let mut out: String = "'".to_owned();
                out.append(join(path).as_str());
                out.append("' is a value, not a type");
                out
            },
            TypeResolutionError::NoSuchVariantForType { enum_name, name, .. } => {
                let mut out: String = "no variant '".to_owned();
                out.append(name.as_ref());
                out.append("' on enum '");
                out.append(enum_name.as_ref());
                out.append("'");
                out
            },
            TypeResolutionError::NotASpec(name) => {
                let mut out: String = "'".to_owned();
                out.append(name.as_ref());
                out.append("' is not a spec");
                out
            },
            TypeResolutionError::SpecNotObjectSafe(name) => {
                let mut out: String = "'".to_owned();
                out.append(name.as_ref());
                out.append("' can't be used as 'spec *");
                out.append(name.as_ref());
                out.append("' -- it has a 'spec T' (static-dispatch) return requirement, which no dynamic-dispatch vtable slot can represent");
                out
            },
            TypeResolutionError::SpecStaticNotAllowedHere(name) => {
                let mut out: String = "'spec ".to_owned();
                out.append(name.as_ref());
                out.append("' is only allowed as a parameter type, or as a return type inside a spec's own function declaration");
                out
            },
            TypeResolutionError::SpecUsedAsValueType(name) => {
                let mut out: String = "'".to_owned();
                out.append(name.as_ref());
                out.append("' is a spec -- it has no size on its own, so it can't be used as a value's type");
                out
            },
            TypeResolutionError::NeverNotAllowedHere => "'never' is only allowed as a function/method's own return type".to_owned(),
            TypeResolutionError::BareUnsizedArray => "'[]T' is not valid on its own".to_owned(),
            TypeResolutionError::BareUnknownSizeArray => "'[?]T' is not valid on its own".to_owned(),
            TypeResolutionError::UnknownCallingConvention { name } => {
                let mut out: String = "unknown calling convention '".to_owned();
                out.append(name.as_ref());
                out.append("'");
                out
            },
            TypeResolutionError::CallingConventionNotAvailable { name, target, .. } => {
                let mut out: String = "calling convention '".to_owned();
                out.append(name.as_ref());
                out.append("' is not available on target '");
                out.append(target.to_string().as_str());
                out.append("'");
                out
            },
            TypeResolutionError::VariadicNotSupportedByConvention { convention } => {
                let mut out: String = "the '".to_owned();
                out.append(convention.name());
                out.append("' calling convention does not support variadic functions");
                out
            },
            TypeResolutionError::AnonymousEnumTooManyMembers { count } => {
                let mut out: String = "an anonymous enum has ".to_owned();
                out.append(decimal_text(*count as u128).as_str());
                out.append(" distinct members, but its tag is a 'u32' and can only distinguish ");
                out.append(decimal_text(ResolvedAnonymousEnum::MAX_MEMBERS as u128).as_str());
                out.append(" of them");
                out
            },
        }
    }
}

/// Where a finding is honestly actionable when a macro, not the module being
/// analyzed, authored the syntax it is about.
#[derive(Debug)]
pub struct AuthoredSite {
    pub macro_name: Ident,
    /// The macro declaration the syntax was written in.
    pub at: SourceSpan,
    /// The invocation chain that brought it here, innermost first. Entries
    /// whose module has no retained source are dropped rather than guessed.
    pub expansion: Vec<(Ident, SourceSpan)>,
}

/// An error and where it is.
#[derive(Debug)]
pub struct AnalysisError {
    pub node_id: HirId,
    pub span: Span,
    pub kind: AnalysisErrorKind,
    /// The file `span` -- and any other unqualified span this finding carries
    /// -- indexes.
    pub source: Option<SourceId>,
    /// Set when macro expansion put the actionable syntax somewhere other
    /// than `span` in `source`.
    pub authored: Option<AuthoredSite>,
}

impl AnalysisError {
    pub fn new(node_id: HirId, span: Span, kind: AnalysisErrorKind) -> (error: Self)
        ensures
            error == (AnalysisError { node_id, span, kind, source: None, authored: None }),
    {
        AnalysisError { node_id, span, kind, source: None, authored: None }
    }

    pub fn in_source(self, source: Option<SourceId>) -> (error: Self)
        ensures
            error == (AnalysisError { source, ..self }),
    {
        AnalysisError {
            node_id: self.node_id,
            span: self.span,
            kind: self.kind,
            source,
            authored: self.authored,
        }
    }

    pub fn authored_at(self, authored: Option<AuthoredSite>) -> (error: Self)
        ensures
            error == (AnalysisError { authored, ..self }),
    {
        AnalysisError {
            node_id: self.node_id,
            span: self.span,
            kind: self.kind,
            source: self.source,
            authored,
        }
    }

    /// The diagnostic of this error: its kind's, in this error's source, moved
    /// to where a macro authored it.
    pub open spec fn diagnostic(&self, pointer_bits: u32) -> DiagnosticView {
        let placed = self.kind.diagnostic(self.span, pointer_bits).in_source(self.source);
        match self.authored {
            Some(authored) => relocated(placed, authored),
            None => placed,
        }
    }

    /// The full diagnostic. `pointer_bits` is the width of the target's
    /// pointers, which fixes the range of its pointer-sized integers.
    pub fn to_diagnostic(&self, pointer_bits: u32) -> (d: Diagnostic)
        requires
            self.kind.renderable(),
            1 <= pointer_bits <= 126,
        ensures
            d@ == self.diagnostic(pointer_bits),
    {
        let d = self.kind.to_diagnostic(self.span, pointer_bits).in_source(self.source);
        relocate(d, &self.authored)
    }

    pub fn to_string(&self) -> (text: String)
        requires
            self.kind.printable(),
        ensures
            text@ == self.kind.message(),
    {
        self.kind.to_string()
    }
}

/// The finding with its first primary label moved to `at`.
pub open spec fn primary_moved(d: DiagnosticView, at: SourceSpan) -> DiagnosticView {
    match first_primary(d.labels, 0) {
        Some(i) => DiagnosticView {
            labels: d.labels.update(
                i,
                LabelView { source: Some(at.source), span: at.span, ..d.labels[i] },
            ),
            ..d
        },
        None => d,
    }
}

/// The finding with a label at each of the expansions, in order.
pub open spec fn with_expansion(d: DiagnosticView, expansion: Seq<(Ident, SourceSpan)>) -> DiagnosticView
    decreases expansion.len(),
{
    if expansion.len() == 0 {
        d
    } else {
        with_expansion(d, expansion.drop_last()).labelled(
            LabelView {
                style: LabelStyle::Secondary,
                source: Some(expansion.last().1.source),
                span: expansion.last().1.span,
                message: "expanded from `"@ + expansion.last().0@ + "` here"@,
            },
        )
    }
}

/// The finding at its authored site, with the invocation chain as context.
pub open spec fn relocated(d: DiagnosticView, authored: AuthoredSite) -> DiagnosticView {
    with_expansion(primary_moved(d, authored.at), authored.expansion@).with_note(
        "this comes from the `"@ + authored.macro_name@
            + "` macro, so the fix belongs in its definition"@,
    )
}

fn move_primary(diagnostic: Diagnostic, at: SourceSpan) -> (d: Diagnostic)
    ensures
        d@ == primary_moved(diagnostic@, at),
{
    let ghost before = diagnostic@;
    let mut d = diagnostic;
    let mut i: usize = 0;
    while i < d.labels.len()
        invariant
            i <= d.labels@.len(),
            before == diagnostic@,
            d@ == before,
            d@.labels.len() == d.labels@.len(),
            first_primary(before.labels, 0) == first_primary(before.labels, i as int),
        decreases d.labels.len() - i,
    {
        assert(before.labels[i as int] == d.labels@[i as int]@);
        if d.labels[i].style == LabelStyle::Primary {
            let label = Label {
                style: LabelStyle::Primary,
                source: Some(at.source),
                span: at.span,
                message: d.labels[i].message.as_str().to_owned(),
            };
            d.labels.set(i, label);
            assert(label@ == (LabelView {
                source: Some(at.source),
                span: at.span,
                ..before.labels[i as int]
            }));
            assert(d@.labels =~= before.labels.update(i as int, label@));
            assert(first_primary(before.labels, 0) == Some(i as int));
            assert(d@ == (DiagnosticView {
                labels: before.labels.update(i as int, label@),
                ..before
            }));
            return d;
        }
        i = i + 1;
    }
    d
}

/// Moves a finding's primary label to the syntax's authored site and keeps the
/// invocation chain as context. Labels the kind placed elsewhere stay where
/// they are: they describe other declarations, not the reported construct.
pub(crate) fn relocate(diagnostic: Diagnostic, authored: &Option<AuthoredSite>) -> (d: Diagnostic)
    ensures
        d@ == match *authored {
            Some(site) => relocated(diagnostic@, site),
            None => diagnostic@,
        },
{
    let site: &AuthoredSite = match authored {
        Some(site) => site,
        None => {
            return diagnostic;
        },
    };
    let mut d: Diagnostic = move_primary(diagnostic, site.at);
    let ghost moved = d@;
    let mut i: usize = 0;
    while i < site.expansion.len()
        invariant
            i <= site.expansion@.len(),
            d@ == with_expansion(moved, site.expansion@.take(i as int)),
        decreases site.expansion.len() - i,
    {
        assert(site.expansion@.take(i as int + 1).drop_last() =~= site.expansion@.take(i as int));
        let entry = &site.expansion[i];
        let mut message: String = "expanded from `".to_owned();
        message.append(entry.0.as_ref());
        message.append("` here");
        d = d.with_secondary_label_in(entry.1, message);
        i = i + 1;
    }
    assert(site.expansion@.take(i as int) =~= site.expansion@);
    let mut note: String = "this comes from the `".to_owned();
    note.append(site.macro_name.as_ref());
    note.append("` macro, so the fix belongs in its definition");
    d.with_note(note)
}

} // verus!
