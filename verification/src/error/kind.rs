//! The errors of the analysis and their headlines.

use crate::error::TypeResolutionError;
use crate::phrases::{
    field_list, field_list_text, generic_name, generic_name_text, ident_commas, ident_commas_text,
    join, path_text, plural, plural_text, quoted_commas, quoted_commas_text, type_commas,
    type_commas_text,
};
use crate::resolved_type::{ResolvedFunctionType, ResolvedGenericArg, ResolvedType};
use crate::resolver::ResolveError;
use crate::syntax::{BinaryOp, Ident, Span, Visibility};
use crate::text::{decimal, decimal_text};
use crate::type_text::{
    printable, printable_args, printable_function, printable_types, type_text,
};
use std::rc::Rc;
use vstd::prelude::*;

verus! {

/// What the analysis found wrong.
#[derive(Debug)]
#[allow(inconsistent_fields)]
pub enum AnalysisErrorKind {
    UnresolvedType(TypeResolutionError),
    UndefinedVariable { name: Ident, similar: Option<Ident> },
    UndefinedPathHead { name: Ident, similar_module: Option<Ident>, similar_type: Option<Ident> },
    NotAStruct { found: ResolvedType },
    NoSuchField { field: Ident, base: ResolvedType },
    FieldNotVisible { field: Ident, base: ResolvedType },
    MethodNotVisible { method: Ident, base: ResolvedType },
    NotAnArray { found: ResolvedType },
    WrongArgumentCount { expected: usize, found: usize },
    ArgumentTypeMismatch { expected: ResolvedType, found: ResolvedType },
    UnresolvedCallee,
    InvalidNumberType(Ident),
    UnresolvedInnerExpression,
    Redeclaration { name: Ident, previous: Option<Span> },
    AssignmentTargetNotAPlace,
    AssignmentTypeMismatch { target: ResolvedType, value: ResolvedType },
    CompoundAssignTargetNotAPlace,
    NumberLiteralOutOfRange { literal: String, ty: ResolvedType },
    NotAPointer { found: ResolvedType },
    AddressOfNotAPlace,
    InvalidBinaryOperand { op: BinaryOp, ty: ResolvedType },
    CharArithmeticNotAllowed { op: String },
    PointerPairArithmetic { op: BinaryOp },
    InvalidNegateOperand { ty: ResolvedType },
    InvalidBitNotOperand { ty: ResolvedType },
    InvalidNotOperand { ty: ResolvedType },
    InvalidLogicalOperand { op: &'static str, ty: ResolvedType },
    FloatBitwiseOperand,
    NotSliceable { found: ResolvedType },
    SliceRequiresAddressOf,
    ImmutableSliceSource,
    InvalidSliceBound { ty: ResolvedType },
    MissingSliceEnd,
    CompPointerSliceNotSupported,
    RangeNotAllowedHere,
    RangeNeedsBounded { ty: ResolvedType },
    EmptyArrayLiteral,
    ArrayElementTypeMismatch { expected: ResolvedType, found: ResolvedType },
    ArraySizeNotInferable,
    ConstSliceCannotBeMutable,
    ConstSliceElementNotConstant,
    ConstSliceElementTypeMismatch { expected: ResolvedType, found: String },
    BinaryOperandTypeMismatch {
        left: ResolvedType,
        left_span: Span,
        right: ResolvedType,
        right_span: Span,
    },
    FloatRemainder,
    NonBoolCondition { ty: ResolvedType },
    IfBranchTypeMismatch { expected: ResolvedType, found: ResolvedType },
    ReturnTypeMismatch { expected: ResolvedType, found: ResolvedType },
    InvalidMainSignature,
    IncrementTargetNotAPlace,
    InvalidIncrementOperand { ty: ResolvedType },
    ForLoopMissingCondition,
    BreakOutsideLoop,
    ContinueOutsideLoop,
    ModuleResolution(ResolveError),
    MacroDependencyTooPrivate {
        item: Ident,
        macro_visibility: Visibility,
        item_visibility: Visibility,
    },
    NotAValue(Vec<Ident>),
    UnresolvedGenericParam(Ident),
    GenericParamFromFatPointer { parameter: Ident, found: ResolvedType },
    UnresolvedLiteralGeneric { named: Ident, generics: Vec<Ident> },
    DeferInsideLoopNotSupported,
    ReturnInsideDefer,
    NestedDeferNotSupported,
    StructLiteralNotAStruct { found: ResolvedType },
    DuplicateFieldInitializer { field: Ident, previous: Span },
    FieldTypeMismatch { field: Ident, expected: ResolvedType, found: ResolvedType },
    MissingFieldInitializers { struct_name: Ident, missing: Vec<Ident> },
    NoSuchStructFunction { struct_name: Ident, function: Ident, similar: Option<Ident> },
    MemberFunctionWithoutInstance { struct_name: Ident, function: Ident },
    StaticFunctionOnInstance { struct_name: Ident, function: Ident },
    StaticAccessOnNonStruct { found: ResolvedType },
    StructPathTooDeep { struct_name: Ident, function: Ident },
    NotAModule { name: Ident },
    EnumTagNotFirst,
    EnumTagNotInteger { found: ResolvedType },
    EnumImplicitTagOutOfRange { variant: Ident, value: usize, ty: ResolvedType },
    EnumHeaderFieldUnsupportedType { field: Ident, found: ResolvedType },
    EnumVariantArgCount { variant: Ident, expected: usize, found: usize, has_tag: bool },
    EnumValueNotConstant,
    EnumValueTypeMismatch { expected: ResolvedType, found: String },
    DuplicateEnumTag { variant: Ident, value: String, previous_variant: Ident, previous: Span },
    EnumFieldNameCollision { field: Ident, variant: Option<Ident> },
    EnumLiteralWithoutVariant { enum_name: Ident, example: Ident },
    NoSuchEnumMember {
        enum_name: Ident,
        name: Ident,
        similar_variant: Option<Ident>,
        similar_function: Option<Ident>,
    },
    EnumVariantMissingBody { enum_name: Ident, variant: Ident, fields: Vec<Ident> },
    EnumVariantHasNoBody { enum_name: Ident, variant: Ident },
    StructLiteralPathTooDeep { struct_name: Ident, name: Ident },
    EnumFieldWrongVariant { field: Ident, owner: Ident, actual: Ident },
    EnumFieldVariantUnknown { field: Ident, enum_name: Ident, owner: Ident },
    NoSuchEnumField { field: Ident, enum_name: Ident, similar: Option<Ident> },
    GenericPathTooDeep { named: Ident },
    EnumFieldImmutable { field: Ident },
    EnumHeaderFieldInLiteral { field: Ident },
    PatternValueNotConstant,
    NoSuchVariantInPattern { enum_name: Ident, name: Ident, similar: Option<Ident> },
    PatternNotEnumVariant { enum_name: Ident },
    PatternIsEnumVariant { enum_name: Ident, variant: Ident, scrutinee: ResolvedType },
    PatternTypeMismatch { expected: ResolvedType, found: ResolvedType },
    UnsupportedMatchScrutinee { ty: ResolvedType },
    OverlappingMatchArm { previous: Span },
    NonExhaustiveMatchEnum { enum_name: Ident, missing: Vec<Ident> },
    NonExhaustiveMatchAnonymousEnum { enum_type: ResolvedType, missing: Vec<ResolvedType> },
    AnonymousEnumPatternNotAType { enum_type: ResolvedType },
    NotAnAnonymousEnumMember { found: ResolvedType, enum_type: ResolvedType },
    AnonymousEnumNotRefined { enum_type: ResolvedType },
    AnonymousEnumConformTarget { enum_type: ResolvedType },
    NonExhaustiveMatchValue { ty: ResolvedType, gaps: Vec<String> },
    CatchAllRangeNotInferable { gaps: usize },
    CatchAllPatternRedundant,
    MultipleCatchAllPatterns { previous: Span },
    MatchArmTypeMismatch { expected: ResolvedType, found: ResolvedType },
    NotMutableBinding { ident: Ident },
    NotMutablePointer,
    MutateTemporary,
    UnionLiteralMissingField { union_name: Ident },
    UnionLiteralTooManyFields { union_name: Ident, fields: Vec<Ident> },
    InvalidCast { from: ResolvedType, to: ResolvedType },
    CastToMutablePointer { from: ResolvedType, to: ResolvedType },
    NoMatchingOverload { name: Ident, candidates: Vec<Rc<ResolvedFunctionType>> },
    AmbiguousOverload { name: Ident, candidates: Vec<Rc<ResolvedFunctionType>> },
    AmbiguousSelfOverload { name: Ident, previous: Span },
    MissingSpecFunction {
        implementor: Ident,
        spec: Ident,
        spec_type_args: Vec<ResolvedGenericArg>,
        function: Ident,
    },
    ForLoopSourceNotIterable { ty: ResolvedType },
    AmbiguousForLoopElementType { candidates: Vec<ResolvedType> },
    ForLoopElementTypeMismatch { expected: ResolvedType, available: Vec<ResolvedType> },
    NoSuchSpecFunction { spec: Ident, function: Ident },
    SpecSelfMustBePointer { name: Ident },
    VariadicSpecFunctionUnsatisfiable { name: Ident },
    ForeignAggregateByValue { ty: ResolvedType },
    GenericForeignFunctionUnsupported,
    AmbiguousSpecObjectMethod { function: Ident, specs: Vec<Ident> },
    SpecObjectCastImpossible { from: Ident, to: Ident },
    SpecStaticNeedsExpectedType { spec: Ident, function: Ident },
    SpecStaticReturnNotSelf { spec: Ident, function: Ident, return_type: String },
    UnknownAnnotation { name: Ident },
    AnnotationNotApplicable { name: Ident, found: String, allowed: String },
    DuplicateAnnotation { name: Ident },
    InvalidAnnotationArgs { name: Ident, reason: String },
    ManglingDisabledOnGeneric,
    ManglingDisabledOnMethod,
    ManglingForcedOnGeneric,
    GlueTargetNotGap { target: Ident },
    GlueMissingFunction { gap: Ident, function: Ident },
    GlueExtraFunction { gap: Ident, function: Ident },
    GlueFunctionSignatureMismatch { gap: Ident, function: Ident },
    ConformanceOrphanViolation { target_package: Ident, spec_package: Ident },
    ConformTargetNotAType,
    DuplicateConformance { target: String, spec: Ident, previous: Span },
    ConformanceExtraFunction { spec: Ident, function: Ident },
    UnconstrainedConformanceParameter { parameter: Ident },
    AmbiguousConformance { target: String, spec: Ident, first: Span },
    ConformanceCycle { target: String, spec: Ident, chain: Vec<(String, Ident)> },
    BlanketConformanceForeignSpec { spec_package: Ident },
    PrimitiveOutsideCore,
    PrimitiveTargetNotAllowed { target: String },
    DuplicatePrimitiveTarget { target: String, previous: Span },
    AmbiguousConformanceStatic { target: String, function: Ident, specs: Vec<Ident> },
    MethodNotInScope { method: Ident, spec: Ident, ty: ResolvedType },
    MultipleGluesForGap { gap: Ident, glues: Vec<Ident> },
    CompEvalFailed { reason: String, trace: Vec<Span> },
    MutCompBinding,
    TopLevelValueNotComp,
    ZeroSizedAggregate { name: Ident, is_union: bool },
    AsmRegNotOneRegisterOperand { ty: ResolvedType },
    AsmConstNotComp,
    AsmConstUnsupportedShape,
    AsmUnknownBinding { text: String },
    AsmAmbiguousBinding { text: String },
    NakedInlineConflict,
    InvalidNakedBody,
    AsmRegInNakedFunction,
}

/// The verb that agrees with `n` things.
pub open spec fn was_text(n: nat) -> Seq<char> {
    if n == 1 {
        "was"@
    } else {
        "were"@
    }
}

fn was_word(n: usize) -> (text: &'static str)
    ensures
        text@ == was_text(n as nat),
{
    if n == 1 {
        "was"
    } else {
        "were"
    }
}

/// What an aggregate without fields is called.
pub open spec fn aggregate_text(is_union: bool) -> Seq<char> {
    if is_union {
        "union"@
    } else {
        "struct"@
    }
}

pub(crate) fn aggregate_word(is_union: bool) -> (text: &'static str)
    ensures
        text@ == aggregate_text(is_union),
{
    if is_union {
        "union"
    } else {
        "struct"
    }
}

/// The first of the specs, or a placeholder.
pub open spec fn first_spec_text(specs: Seq<Ident>) -> Seq<char> {
    if specs.len() == 0 {
        "<spec>"@
    } else {
        specs[0]@
    }
}

fn first_spec(specs: &Vec<Ident>) -> (text: &str)
    ensures
        text@ == first_spec_text(specs@),
{
    if specs.len() == 0 {
        "<spec>"
    } else {
        specs[0].as_ref()
    }
}

/// Whether each candidate's type can be written.
pub open spec fn printable_functions(candidates: Seq<Rc<ResolvedFunctionType>>) -> bool {
    forall|i: int| 0 <= i < candidates.len() ==> printable_function(*#[trigger] candidates[i])
}

impl AnalysisErrorKind {
    /// Whether every type this error names can be written.
    pub open spec fn printable(&self) -> bool {
        match *self {
            AnalysisErrorKind::UnresolvedType(p0) => p0.printable(),
            AnalysisErrorKind::NotAStruct { found } => printable(found),
            AnalysisErrorKind::NoSuchField { base, .. } => printable(base),
            AnalysisErrorKind::FieldNotVisible { base, .. } => printable(base),
            AnalysisErrorKind::MethodNotVisible { base, .. } => printable(base),
            AnalysisErrorKind::NotAnArray { found } => printable(found),
            AnalysisErrorKind::ArgumentTypeMismatch { expected, found } => printable(expected) && printable(found),
            AnalysisErrorKind::AssignmentTypeMismatch { target, value } => printable(target) && printable(value),
            AnalysisErrorKind::NumberLiteralOutOfRange { ty, .. } => printable(ty),
            AnalysisErrorKind::NotAPointer { found } => printable(found),
            AnalysisErrorKind::InvalidBinaryOperand { ty, .. } => printable(ty),
            AnalysisErrorKind::InvalidNegateOperand { ty } => printable(ty),
            AnalysisErrorKind::InvalidBitNotOperand { ty } => printable(ty),
            AnalysisErrorKind::InvalidNotOperand { ty } => printable(ty),
            AnalysisErrorKind::InvalidLogicalOperand { ty, .. } => printable(ty),
            AnalysisErrorKind::NotSliceable { found } => printable(found),
            AnalysisErrorKind::InvalidSliceBound { ty } => printable(ty),
            AnalysisErrorKind::RangeNeedsBounded { ty } => printable(ty),
            AnalysisErrorKind::ArrayElementTypeMismatch { expected, found } => printable(expected) && printable(found),
            AnalysisErrorKind::ConstSliceElementTypeMismatch { expected, .. } => printable(expected),
            AnalysisErrorKind::BinaryOperandTypeMismatch { left, right, .. } => printable(left) && printable(right),
            AnalysisErrorKind::NonBoolCondition { ty } => printable(ty),
            AnalysisErrorKind::IfBranchTypeMismatch { expected, found } => printable(expected) && printable(found),
            AnalysisErrorKind::ReturnTypeMismatch { expected, found } => printable(expected) && printable(found),
            AnalysisErrorKind::InvalidIncrementOperand { ty } => printable(ty),
            AnalysisErrorKind::GenericParamFromFatPointer { found, .. } => printable(found),
            AnalysisErrorKind::StructLiteralNotAStruct { found } => printable(found),
            AnalysisErrorKind::FieldTypeMismatch { expected, found, .. } => printable(expected) && printable(found),
            AnalysisErrorKind::StaticAccessOnNonStruct { found } => printable(found),
            AnalysisErrorKind::EnumTagNotInteger { found } => printable(found),
            AnalysisErrorKind::EnumImplicitTagOutOfRange { ty, .. } => printable(ty),
            AnalysisErrorKind::EnumHeaderFieldUnsupportedType { found, .. } => printable(found),
            AnalysisErrorKind::EnumValueTypeMismatch { expected, .. } => printable(expected),
            AnalysisErrorKind::PatternIsEnumVariant { scrutinee, .. } => printable(scrutinee),
            AnalysisErrorKind::PatternTypeMismatch { expected, found } => printable(expected) && printable(found),
            AnalysisErrorKind::UnsupportedMatchScrutinee { ty } => printable(ty),
            AnalysisErrorKind::NonExhaustiveMatchAnonymousEnum { enum_type, missing } => printable(enum_type) && printable_types(missing@),
            AnalysisErrorKind::AnonymousEnumPatternNotAType { enum_type } => printable(enum_type),
            AnalysisErrorKind::NotAnAnonymousEnumMember { found, enum_type } => printable(found) && printable(enum_type),
            AnalysisErrorKind::AnonymousEnumNotRefined { enum_type } => printable(enum_type),
            AnalysisErrorKind::AnonymousEnumConformTarget { enum_type } => printable(enum_type),
            AnalysisErrorKind::NonExhaustiveMatchValue { ty, .. } => printable(ty),
            AnalysisErrorKind::MatchArmTypeMismatch { expected, found } => printable(expected) && printable(found),
            AnalysisErrorKind::InvalidCast { from, to } => printable(from) && printable(to),
            AnalysisErrorKind::CastToMutablePointer { from, to } => printable(from) && printable(to),
            AnalysisErrorKind::NoMatchingOverload { candidates, .. } => printable_functions(candidates@),
            AnalysisErrorKind::AmbiguousOverload { candidates, .. } => printable_functions(candidates@),
            AnalysisErrorKind::MissingSpecFunction { spec_type_args, .. } => printable_args(spec_type_args@),
            AnalysisErrorKind::ForLoopSourceNotIterable { ty } => printable(ty),
            AnalysisErrorKind::AmbiguousForLoopElementType { candidates } => printable_types(candidates@),
            AnalysisErrorKind::ForLoopElementTypeMismatch { expected, available } => printable(expected) && printable_types(available@),
            AnalysisErrorKind::ForeignAggregateByValue { ty } => printable(ty),
            AnalysisErrorKind::MethodNotInScope { ty, .. } => printable(ty),
            AnalysisErrorKind::AsmRegNotOneRegisterOperand { ty } => printable(ty),
            _ => true,
        }
    }

    /// The headline of this error.
    pub open spec fn message(&self) -> Seq<char> {
        match *self {
            AnalysisErrorKind::UnresolvedType(e) => e.message(),
            AnalysisErrorKind::UndefinedVariable { name, .. } => "cannot find '"@
                + name@
                + "' in this scope"@,
            AnalysisErrorKind::UndefinedPathHead { name, .. } => "cannot find '"@
                + name@
                + "' in this scope"@,
            AnalysisErrorKind::NotAStruct { found } => "field access on '"@
                + type_text(found, false)
                + "', which is not a struct"@,
            AnalysisErrorKind::NoSuchField { field, base } => "no field '"@
                + field@
                + "' on '"@
                + type_text(base, false)
                + "'"@,
            AnalysisErrorKind::FieldNotVisible { field, base } => "'"@
                + field@
                + "' on '"@
                + type_text(base, false)
                + "' is not visible here"@,
            AnalysisErrorKind::MethodNotVisible { method, base } => "'"@
                + method@
                + "' on '"@
                + type_text(base, false)
                + "' is not visible here"@,
            AnalysisErrorKind::NotAnArray { found } => "cannot index a value of type '"@
                + type_text(found, false)
                + "'"@,
            AnalysisErrorKind::WrongArgumentCount { expected, found } => "this function takes "@
                + decimal(expected as nat)
                + " "@
                + plural_text(expected as nat, "argument"@)
                + " but "@
                + decimal(found as nat)
                + " "@
                + was_text(found as nat)
                + " supplied"@,
            AnalysisErrorKind::ArgumentTypeMismatch { expected, found } => "mismatched types: expected '"@
                + type_text(expected, false)
                + "' for this argument, found '"@
                + type_text(found, false)
                + "'"@,
            AnalysisErrorKind::UnresolvedCallee => "this expression is not a callable function"@,
            AnalysisErrorKind::InvalidNumberType(ident) => "invalid numeric type '"@
                + ident@
                + "' for a number literal"@,
            AnalysisErrorKind::UnresolvedInnerExpression => "inner expression could not be resolved"@,
            AnalysisErrorKind::Redeclaration { name, .. } => "'"@
                + name@
                + "' is declared multiple times in this scope"@,
            AnalysisErrorKind::AssignmentTargetNotAPlace => "invalid assignment target"@,
            AnalysisErrorKind::CompoundAssignTargetNotAPlace => "invalid assignment target"@,
            AnalysisErrorKind::AssignmentTypeMismatch { target, value } => "mismatched types: cannot assign '"@
                + type_text(value, false)
                + "' to a target of type '"@
                + type_text(target, false)
                + "'"@,
            AnalysisErrorKind::NumberLiteralOutOfRange { literal, ty } => "number '"@
                + literal@
                + "' does not fit in '"@
                + type_text(ty, false)
                + "'"@,
            AnalysisErrorKind::NotAPointer { found } => "cannot dereference a value of type '"@
                + type_text(found, false)
                + "'"@,
            AnalysisErrorKind::AddressOfNotAPlace => "cannot take the address of this expression"@,
            AnalysisErrorKind::InvalidBinaryOperand { op, ty } => "cannot apply '"@
                + op.spelling()
                + "' to a value of type '"@
                + type_text(ty, false)
                + "'"@,
            AnalysisErrorKind::CharArithmeticNotAllowed { op } => "cannot apply '"@
                + op@
                + "' to a value of type 'char'"@,
            AnalysisErrorKind::PointerPairArithmetic { op } => "cannot apply '"@
                + op.spelling()
                + "' to two pointer values"@,
            AnalysisErrorKind::InvalidNegateOperand { ty } => "cannot negate a value of type '"@
                + type_text(ty, false)
                + "'"@,
            AnalysisErrorKind::InvalidBitNotOperand { ty } => "cannot apply '~' to a value of type '"@
                + type_text(ty, false)
                + "'"@,
            AnalysisErrorKind::InvalidNotOperand { ty } => "cannot apply '!' to a value of type '"@
                + type_text(ty, false)
                + "'"@,
            AnalysisErrorKind::InvalidLogicalOperand { op, ty } => "'"@
                + op@
                + "' requires 'bool' operands, found '"@
                + type_text(ty, false)
                + "'"@,
            AnalysisErrorKind::FloatBitwiseOperand => "bitwise/shift operators are not supported on floating-point operands"@,
            AnalysisErrorKind::NotSliceable { found } => "cannot slice a value of type '"@
                + type_text(found, false)
                + "'"@,
            AnalysisErrorKind::SliceRequiresAddressOf => "a slice expression must be prefixed with '&' or '&mut'"@,
            AnalysisErrorKind::ImmutableSliceSource => "cannot take a mutable slice of an immutable slice"@,
            AnalysisErrorKind::InvalidSliceBound { ty } => "mismatched types: slice bound must be 'i32', found '"@
                + type_text(ty, false)
                + "'"@,
            AnalysisErrorKind::MissingSliceEnd => "there is no length here to infer a range end from"@,
            AnalysisErrorKind::CompPointerSliceNotSupported => "slicing a 'comp'-bound unsized array is not supported"@,
            AnalysisErrorKind::RangeNotAllowedHere => "bare '..' has no context here"@,
            AnalysisErrorKind::RangeNeedsBounded { ty } => "open range needs Bounded for '"@
                + type_text(ty, false)
                + "'"@,
            AnalysisErrorKind::EmptyArrayLiteral => "cannot infer the element type of an empty array literal"@,
            AnalysisErrorKind::ArrayElementTypeMismatch { .. } => "mismatched types in array literal"@,
            AnalysisErrorKind::ArraySizeNotInferable => "cannot infer this array's length"@,
            AnalysisErrorKind::ConstSliceCannotBeMutable => "a compile-time slice cannot be mutable"@,
            AnalysisErrorKind::ConstSliceElementNotConstant => "compile-time slice elements must be literal constants"@,
            AnalysisErrorKind::ConstSliceElementTypeMismatch { expected, found } => "mismatched types: expected '"@
                + type_text(expected, false)
                + "', found "@
                + found@,
            AnalysisErrorKind::BinaryOperandTypeMismatch { left, right, .. } => "mismatched types: '"@
                + type_text(left, false)
                + "' and '"@
                + type_text(right, false)
                + "'"@,
            AnalysisErrorKind::FloatRemainder => "'%' is not supported on floating-point operands"@,
            AnalysisErrorKind::NonBoolCondition { ty } => "mismatched types: condition must be 'bool', found '"@
                + type_text(ty, false)
                + "'"@,
            AnalysisErrorKind::IfBranchTypeMismatch { .. } => "'if' and 'else' branches have incompatible types"@,
            AnalysisErrorKind::ReturnTypeMismatch { expected, found } => "mismatched types: expected return type '"@
                + type_text(expected, false)
                + "', found '"@
                + type_text(found, false)
                + "'"@,
            AnalysisErrorKind::InvalidMainSignature => "invalid 'main' signature"@,
            AnalysisErrorKind::IncrementTargetNotAPlace => "invalid '++'/'--' operand"@,
            AnalysisErrorKind::InvalidIncrementOperand { ty } => "cannot increment/decrement a value of type '"@
                + type_text(ty, false)
                + "'"@,
            AnalysisErrorKind::ForLoopMissingCondition => "this 'for' loop is missing its condition clause"@,
            AnalysisErrorKind::BreakOutsideLoop => "'break' outside of a loop"@,
            AnalysisErrorKind::ContinueOutsideLoop => "'continue' outside of a loop"@,
            AnalysisErrorKind::ModuleResolution(e) => e.message(),
            AnalysisErrorKind::MacroDependencyTooPrivate { item, macro_visibility, item_visibility } => "macro-visible item '"@
                + item@
                + "' is "@
                + item_visibility.spelling()
                + " but its macro is "@
                + macro_visibility.spelling(),
            AnalysisErrorKind::NotAValue(path) => "'"@
                + path_text(path@)
                + "' is a type, not a value"@,
            AnalysisErrorKind::UnresolvedGenericParam(ident) => "cannot infer type parameter '"@
                + ident@
                + "' from this call's arguments"@,
            AnalysisErrorKind::GenericParamFromFatPointer { parameter, .. } => "cannot infer type parameter '"@
                + parameter@
                + "' from this call's arguments"@,
            AnalysisErrorKind::UnresolvedLiteralGeneric { named, generics } => "cannot infer type argument(s) "@
                + quoted_commas_text(generics@, "'"@)
                + " of '"@
                + named@
                + "' here"@,
            AnalysisErrorKind::DeferInsideLoopNotSupported => "'defer' is not supported inside a loop body"@,
            AnalysisErrorKind::ReturnInsideDefer => "'return' is not supported inside a 'defer' body"@,
            AnalysisErrorKind::NestedDeferNotSupported => "'defer' is not supported inside another 'defer' body"@,
            AnalysisErrorKind::StructLiteralNotAStruct { found } => "cannot build a value of type '"@
                + type_text(found, false)
                + "' with a struct literal"@,
            AnalysisErrorKind::DuplicateFieldInitializer { field, .. } => "field '"@
                + field@
                + "' is set more than once"@,
            AnalysisErrorKind::FieldTypeMismatch { field, expected, found } => "mismatched types: field '"@
                + field@
                + "' is '"@
                + type_text(expected, false)
                + "', found '"@
                + type_text(found, false)
                + "'"@,
            AnalysisErrorKind::MissingFieldInitializers { struct_name, missing } => "missing "@
                + field_list_text(missing@)
                + " in initializer of '"@
                + struct_name@
                + "'"@,
            AnalysisErrorKind::NoSuchStructFunction { struct_name, function, .. } => "no function '"@
                + function@
                + "' on '"@
                + struct_name@
                + "'"@,
            AnalysisErrorKind::MemberFunctionWithoutInstance { struct_name, function } => "'"@
                + struct_name@
                + "::"@
                + function@
                + "' is a member function and cannot be called without an instance"@,
            AnalysisErrorKind::StaticFunctionOnInstance { struct_name, function } => "'"@
                + struct_name@
                + "::"@
                + function@
                + "' is a static function and cannot be called on an instance"@,
            AnalysisErrorKind::StaticAccessOnNonStruct { found } => "type '"@
                + type_text(found, false)
                + "' has no functions"@,
            AnalysisErrorKind::EnumTagNotFirst => "the 'tag' header entry must come first"@,
            AnalysisErrorKind::EnumTagNotInteger { found } => "enum tags must be integers, but this tag is declared as '"@
                + type_text(found, false)
                + "'"@,
            AnalysisErrorKind::EnumImplicitTagOutOfRange { variant, value, ty } => "implicit tag "@
                + decimal(value as nat)
                + " for variant '"@
                + variant@
                + "' does not fit in '"@
                + type_text(ty, false)
                + "'"@,
            AnalysisErrorKind::EnumHeaderFieldUnsupportedType { field, .. } => "header field '"@
                + field@
                + "' has a type that cannot hold a constant"@,
            AnalysisErrorKind::EnumVariantArgCount { variant, expected, found, .. } => "variant '"@
                + variant@
                + "' must supply "@
                + decimal(expected as nat)
                + " "@
                + plural_text(expected as nat, "value"@)
                + ", but supplies "@
                + decimal(found as nat),
            AnalysisErrorKind::EnumValueNotConstant => "enum variant values must be literal constants"@,
            AnalysisErrorKind::EnumValueTypeMismatch { expected, found } => "mismatched types: expected '"@
                + type_text(expected, false)
                + "', found "@
                + found@,
            AnalysisErrorKind::DuplicateEnumTag { variant, value, previous_variant, .. } => "variants '"@
                + previous_variant@
                + "' and '"@
                + variant@
                + "' share the tag value "@
                + value@,
            AnalysisErrorKind::EnumFieldNameCollision { field, variant } => match variant {
                Some(variant) => "field '"@
                    + field@
                    + "' of variant '"@
                    + variant@
                    + "' collides with another field of this enum"@,
                None => "'"@
                    + field@
                    + "' is declared more than once in this enum"@,
            },
            AnalysisErrorKind::EnumLiteralWithoutVariant { enum_name, .. } => "cannot build enum '"@
                + enum_name@
                + "' without naming a variant"@,
            AnalysisErrorKind::NoSuchEnumMember { enum_name, name, .. } => "no variant or function '"@
                + name@
                + "' on enum '"@
                + enum_name@
                + "'"@,
            AnalysisErrorKind::EnumVariantMissingBody { enum_name, variant, .. } => "variant '"@
                + enum_name@
                + "::"@
                + variant@
                + "' has fields that must be initialized"@,
            AnalysisErrorKind::EnumVariantHasNoBody { enum_name, variant } => "variant '"@
                + enum_name@
                + "::"@
                + variant@
                + "' has no fields to initialize"@,
            AnalysisErrorKind::StructLiteralPathTooDeep { struct_name, name } => "'"@
                + struct_name@
                + "' is a struct, so '"@
                + name@
                + "' cannot be one of its variants"@,
            AnalysisErrorKind::EnumFieldWrongVariant { field, owner, .. } => "field '"@
                + field@
                + "' belongs to a different variant ('"@
                + owner@
                + "')"@,
            AnalysisErrorKind::EnumFieldVariantUnknown { field, enum_name, .. } => "cannot access variant field '"@
                + field@
                + "' on a value whose '"@
                + enum_name@
                + "' variant is unknown"@,
            AnalysisErrorKind::NoSuchEnumField { field, enum_name, .. } => "no field '"@
                + field@
                + "' on enum '"@
                + enum_name@
                + "'"@,
            AnalysisErrorKind::GenericPathTooDeep { named } => "path continues too far past '"@
                + named@
                + "'"@,
            AnalysisErrorKind::EnumFieldImmutable { field } => "cannot assign to '"@
                + field@
                + "' of an enum value"@,
            AnalysisErrorKind::EnumHeaderFieldInLiteral { field } => "header field '"@
                + field@
                + "' cannot be initialized at a construction site"@,
            AnalysisErrorKind::StructPathTooDeep { struct_name, function } => "'"@
                + struct_name@
                + "::"@
                + function@
                + "' is a function; there is nothing to look up inside it"@,
            AnalysisErrorKind::NotAModule { name } => "'"@
                + name@
                + "' is a value, not a module or type"@,
            AnalysisErrorKind::PatternValueNotConstant => "match patterns must be literal constants"@,
            AnalysisErrorKind::NoSuchVariantInPattern { enum_name, name, .. } => "no variant '"@
                + name@
                + "' on enum '"@
                + enum_name@
                + "'"@,
            AnalysisErrorKind::PatternNotEnumVariant { enum_name } => "'"@
                + enum_name@
                + "' can only be matched by naming a variant"@,
            AnalysisErrorKind::PatternIsEnumVariant { enum_name, variant, scrutinee } => "mismatched types: expected '"@
                + type_text(scrutinee, false)
                + "', found '"@
                + enum_name@
                + "::"@
                + variant@
                + "'"@,
            AnalysisErrorKind::PatternTypeMismatch { expected, found } => "mismatched types: expected '"@
                + type_text(expected, false)
                + "', found '"@
                + type_text(found, false)
                + "'"@,
            AnalysisErrorKind::UnsupportedMatchScrutinee { ty } => "cannot match on a value of type '"@
                + type_text(ty, false)
                + "'"@,
            AnalysisErrorKind::OverlappingMatchArm { .. } => "overlapping match arms"@,
            AnalysisErrorKind::NonExhaustiveMatchEnum { enum_name, .. } => "match on '"@
                + enum_name@
                + "' does not cover every variant"@,
            AnalysisErrorKind::NonExhaustiveMatchAnonymousEnum { enum_type, .. } => "match on '"@
                + type_text(enum_type, false)
                + "' does not cover every member"@,
            AnalysisErrorKind::AnonymousEnumPatternNotAType { enum_type } => "a match arm on '"@
                + type_text(enum_type, false)
                + "' must name one of its member types"@,
            AnalysisErrorKind::NotAnAnonymousEnumMember { found, enum_type } => "'"@
                + type_text(found, false)
                + "' is not a member of '"@
                + type_text(enum_type, false)
                + "'"@,
            AnalysisErrorKind::AnonymousEnumNotRefined { enum_type } => "'"@
                + type_text(enum_type, false)
                + "' has no members of its own"@,
            AnalysisErrorKind::AnonymousEnumConformTarget { enum_type } => "'"@
                + type_text(enum_type, false)
                + "' has no declaration to conform"@,
            AnalysisErrorKind::NonExhaustiveMatchValue { ty, .. } => "match on '"@
                + type_text(ty, false)
                + "' does not cover every value"@,
            AnalysisErrorKind::CatchAllRangeNotInferable { gaps } => "'..' can't be inferred: "@
                + decimal(gaps as nat)
                + " disjoint ranges are left uncovered, not one"@,
            AnalysisErrorKind::CatchAllPatternRedundant => "'..' has nothing left to cover"@,
            AnalysisErrorKind::MultipleCatchAllPatterns { .. } => "more than one '..' catch-all arm"@,
            AnalysisErrorKind::MatchArmTypeMismatch { .. } => "'match' arms have incompatible types"@,
            AnalysisErrorKind::NotMutableBinding { ident } => "cannot mutate '"@
                + ident@
                + "': not declared 'mut'"@,
            AnalysisErrorKind::NotMutablePointer => "cannot mutate through an immutable pointer"@,
            AnalysisErrorKind::MutateTemporary => "cannot mutate a temporary value"@,
            AnalysisErrorKind::UnionLiteralMissingField { union_name } => "union literal for '"@
                + union_name@
                + "' sets no field"@,
            AnalysisErrorKind::UnionLiteralTooManyFields { union_name, .. } => "union literal for '"@
                + union_name@
                + "' sets more than one field"@,
            AnalysisErrorKind::InvalidCast { from, to } => "cannot cast '"@
                + type_text(from, false)
                + "' to '"@
                + type_text(to, false)
                + "'"@,
            AnalysisErrorKind::CastToMutablePointer { from, to } => "cannot cast '"@
                + type_text(from, false)
                + "' to '"@
                + type_text(to, false)
                + "': target is mutable, source is not"@,
            AnalysisErrorKind::NoMatchingOverload { name, .. } => "no overload of '"@
                + name@
                + "' matches this call"@,
            AnalysisErrorKind::AmbiguousOverload { name, .. } => "ambiguous reference to overloaded '"@
                + name@
                + "'"@,
            AnalysisErrorKind::AmbiguousSelfOverload { name, .. } => "'"@
                + name@
                + "' is declared twice, differing only in how it receives 'self'"@,
            AnalysisErrorKind::MissingSpecFunction { implementor, spec, spec_type_args, function } => "'"@
                + implementor@
                + "' does not implement spec '"@
                + generic_name_text(spec@, spec_type_args@)
                + "': missing '"@
                + function@
                + "'"@,
            AnalysisErrorKind::ForLoopSourceNotIterable { ty } => "'"@
                + type_text(ty, false)
                + "' does not implement 'ToIterator<T>' or 'Iterator<T>'"@,
            AnalysisErrorKind::AmbiguousForLoopElementType { candidates } => "for-loop source has ambiguous element type: "@
                + type_commas_text(candidates@),
            AnalysisErrorKind::ForLoopElementTypeMismatch { expected, available } => "for-loop source produces no '"@
                + type_text(expected, false)
                + "' elements (it produces: "@
                + type_commas_text(available@)
                + ")"@,
            AnalysisErrorKind::NoSuchSpecFunction { spec, function } => "no function '"@
                + function@
                + "' on spec '"@
                + spec@
                + "'"@,
            AnalysisErrorKind::SpecSelfMustBePointer { name } => "spec function '"@
                + name@
                + "' must receive 'self' by pointer"@,
            AnalysisErrorKind::ForeignAggregateByValue { ty } => "'"@
                + type_text(ty, false)
                + "' cannot cross a 'foreign' boundary by value"@,
            AnalysisErrorKind::GenericForeignFunctionUnsupported => "a generic 'foreign' function is not yet supported"@,
            AnalysisErrorKind::VariadicSpecFunctionUnsatisfiable { name } => "spec function '"@
                + name@
                + "' is variadic, which no implementor could satisfy"@,
            AnalysisErrorKind::AmbiguousSpecObjectMethod { function, specs } => "ambiguous method '"@
                + function@
                + "' through a spec object -- declared by "@
                + ident_commas_text(specs@)
                + "; narrow the object with a cast (`<spec *"@
                + first_spec_text(specs@)
                + ">x`) to pick one"@,
            AnalysisErrorKind::SpecObjectCastImpossible { from, to } => "cannot cast `spec *"@
                + from@
                + "` to `spec *"@
                + to@
                + "` -- only narrowing onto one of the object's own specs is possible; widenings and cross-spec casts have no vtable section to point at"@,
            AnalysisErrorKind::SpecStaticNeedsExpectedType { spec, function } => "cannot determine which type implements '"@
                + spec@
                + "' for '"@
                + function@
                + "' -- there is no expected type here to take 'Self' from"@,
            AnalysisErrorKind::SpecStaticReturnNotSelf { spec, function, return_type } => "cannot determine which type implements '"@
                + spec@
                + "' for '"@
                + function@
                + "' -- its return type '"@
                + return_type@
                + "' does not say which type implements it"@,
            AnalysisErrorKind::UnknownAnnotation { name } => "unknown annotation '@"@
                + name@
                + "'"@,
            AnalysisErrorKind::AnnotationNotApplicable { name, found, .. } => "'@"@
                + name@
                + "' cannot be applied to "@
                + found@,
            AnalysisErrorKind::DuplicateAnnotation { name } => "duplicate '@"@
                + name@
                + "' annotation"@,
            AnalysisErrorKind::InvalidAnnotationArgs { name, reason } => "invalid arguments for '@"@
                + name@
                + "': "@
                + reason@,
            AnalysisErrorKind::ManglingDisabledOnGeneric => "cannot disable mangling on a generic function"@,
            AnalysisErrorKind::ManglingDisabledOnMethod => "cannot disable mangling on a method"@,
            AnalysisErrorKind::ManglingForcedOnGeneric => "cannot force a mangled symbol name on a generic function"@,
            AnalysisErrorKind::GlueTargetNotGap { target } => "'"@
                + target@
                + "' is not a gap"@,
            AnalysisErrorKind::GlueMissingFunction { gap, function } => "glue for gap '"@
                + gap@
                + "' is missing function '"@
                + function@
                + "'"@,
            AnalysisErrorKind::GlueExtraFunction { gap, function } => "glue for gap '"@
                + gap@
                + "' has no function '"@
                + function@
                + "'"@,
            AnalysisErrorKind::GlueFunctionSignatureMismatch { gap, function } => "glue function '"@
                + function@
                + "' does not match gap '"@
                + gap@
                + "'"@,
            AnalysisErrorKind::ConformanceOrphanViolation { target_package, spec_package } => "cannot conform a type from '"@
                + target_package@
                + "' to a spec from '"@
                + spec_package@
                + "'"@,
            AnalysisErrorKind::ConformTargetNotAType => "conform target is not a concrete type"@,
            AnalysisErrorKind::DuplicateConformance { target, spec, .. } => "duplicate conform for '"@
                + target@
                + ": "@
                + spec@
                + "'"@,
            AnalysisErrorKind::ConformanceExtraFunction { spec, function } => "conform declares '"@
                + function@
                + "' which is not in spec '"@
                + spec@
                + "'"@,
            AnalysisErrorKind::UnconstrainedConformanceParameter { parameter } => "conformance parameter '"@
                + parameter@
                + "' is not fixed by the target"@,
            AnalysisErrorKind::AmbiguousConformance { target, spec, .. } => "ambiguous conform for '"@
                + target@
                + ": "@
                + spec@
                + "'"@,
            AnalysisErrorKind::ConformanceCycle { target, spec, .. } => "cyclic conformance while proving '"@
                + target@
                + ": "@
                + spec@
                + "'"@,
            AnalysisErrorKind::BlanketConformanceForeignSpec { spec_package } => "a blanket conform cannot implement a foreign spec from '"@
                + spec_package@
                + "'"@,
            AnalysisErrorKind::PrimitiveOutsideCore => "primitive blocks may only be declared in core"@,
            AnalysisErrorKind::PrimitiveTargetNotAllowed { target } => "'"@
                + target@
                + "' is not a primitive target"@,
            AnalysisErrorKind::DuplicatePrimitiveTarget { target, .. } => "duplicate primitive block for '"@
                + target@
                + "'"@,
            AnalysisErrorKind::AmbiguousConformanceStatic { target, function, .. } => "conforming static function '"@
                + target@
                + "::"@
                + function@
                + "' is ambiguous"@,
            AnalysisErrorKind::MethodNotInScope { method, spec, .. } => "method '"@
                + method@
                + "' comes from spec '"@
                + spec@
                + "' but is not in this bound context"@,
            AnalysisErrorKind::MultipleGluesForGap { gap, glues } => "more than one glue declaration implements gap '"@
                + gap@
                + "' ("@
                + ident_commas_text(glues@)
                + ")"@,
            AnalysisErrorKind::CompEvalFailed { reason, .. } => "cannot evaluate this expression at compile time: "@
                + reason@,
            AnalysisErrorKind::MutCompBinding => "a 'comp' binding cannot be 'mut'"@,
            AnalysisErrorKind::TopLevelValueNotComp => "a top-level binding's value must be compile-time-known"@,
            AnalysisErrorKind::ZeroSizedAggregate { name, is_union } => aggregate_text(is_union)
                + " '"@
                + name@
                + "' has no sized fields"@,
            AnalysisErrorKind::AsmRegNotOneRegisterOperand { ty } => "'reg' operand of type '"@
                + type_text(ty, false)
                + "' cannot occupy a single register"@,
            AnalysisErrorKind::AsmConstNotComp => "'const' in 'asm' must name a 'comp' binding"@,
            AnalysisErrorKind::AsmConstUnsupportedShape => "'const' in 'asm' only supports values that convert deterministically to assembler text"@,
            AnalysisErrorKind::AsmUnknownBinding { text } => "'"@
                + text@
                + "' does not refer to any 'reg'/'const' descriptor"@,
            AnalysisErrorKind::AsmAmbiguousBinding { text } => "'"@
                + text@
                + "' is ambiguous: more than one descriptor infers this name"@,
            AnalysisErrorKind::NakedInlineConflict => "'@naked' cannot be combined with '@inline'"@,
            AnalysisErrorKind::InvalidNakedBody => "a '@naked' function's body must be exactly one 'asm' statement and nothing else"@,
            AnalysisErrorKind::AsmRegInNakedFunction => "'reg' is not allowed in a '@naked' function's 'asm'"@,
        }
    }

    pub fn to_string(&self) -> (text: String)
        requires
            self.printable(),
        ensures
            text@ == self.message(),
    {
        match self {
            AnalysisErrorKind::UnresolvedType(e) => e.to_string(),
            AnalysisErrorKind::UndefinedVariable { name, .. } => {
                let mut out: String = "cannot find '".to_owned();
                out.append(name.as_ref());
                out.append("' in this scope");
                out
            },
            AnalysisErrorKind::UndefinedPathHead { name, .. } => {
                let mut out: String = "cannot find '".to_owned();
                out.append(name.as_ref());
                out.append("' in this scope");
                out
            },
            AnalysisErrorKind::NotAStruct { found } => {
                let mut out: String = "field access on '".to_owned();
                out.append(found.to_string().as_str());
                out.append("', which is not a struct");
                out
            },
            AnalysisErrorKind::NoSuchField { field, base } => {
                let mut out: String = "no field '".to_owned();
                out.append(field.as_ref());
                out.append("' on '");
                out.append(base.to_string().as_str());
                out.append("'");
                out
            },
            AnalysisErrorKind::FieldNotVisible { field, base } => {
                let mut out: String = "'".to_owned();
                out.append(field.as_ref());
                out.append("' on '");
                out.append(base.to_string().as_str());
                out.append("' is not visible here");
                out
            },
            AnalysisErrorKind::MethodNotVisible { method, base } => {
                let mut out: String = "'".to_owned();
                out.append(method.as_ref());
                out.append("' on '");
                out.append(base.to_string().as_str());
                out.append("' is not visible here");
                out
            },
            AnalysisErrorKind::NotAnArray { found } => {
                let mut out: String = "cannot index a value of type '".to_owned();
                out.append(found.to_string().as_str());
                out.append("'");
                out
            },
            AnalysisErrorKind::WrongArgumentCount { expected, found } => {
                let mut out: String = "this function takes ".to_owned();
                out.append(decimal_text(*expected as u128).as_str());
                out.append(" ");
                out.append(plural(*expected, "argument").as_str());
                out.append(" but ");
                out.append(decimal_text(*found as u128).as_str());
                out.append(" ");
                out.append(was_word(*found));
                out.append(" supplied");
                out
            },
            AnalysisErrorKind::ArgumentTypeMismatch { expected, found } => {
                let mut out: String = "mismatched types: expected '".to_owned();
                out.append(expected.to_string().as_str());
                out.append("' for this argument, found '");
                out.append(found.to_string().as_str());
                out.append("'");
                out
            },
            AnalysisErrorKind::UnresolvedCallee => "this expression is not a callable function".to_owned(),
            AnalysisErrorKind::InvalidNumberType(ident) => {
                let mut out: String = "invalid numeric type '".to_owned();
                out.append(ident.as_ref());
                out.append("' for a number literal");
                out
            },
            AnalysisErrorKind::UnresolvedInnerExpression => "inner expression could not be resolved".to_owned(),
            AnalysisErrorKind::Redeclaration { name, .. } => {
                let mut out: String = "'".to_owned();
                out.append(name.as_ref());
                out.append("' is declared multiple times in this scope");
                out
            },
            AnalysisErrorKind::AssignmentTargetNotAPlace => "invalid assignment target".to_owned(),
            AnalysisErrorKind::CompoundAssignTargetNotAPlace => "invalid assignment target".to_owned(),
            AnalysisErrorKind::AssignmentTypeMismatch { target, value } => {
                let mut out: String = "mismatched types: cannot assign '".to_owned();
                out.append(value.to_string().as_str());
                out.append("' to a target of type '");
                out.append(target.to_string().as_str());
                out.append("'");
                out
            },
            AnalysisErrorKind::NumberLiteralOutOfRange { literal, ty } => {
                let mut out: String = "number '".to_owned();
                out.append(literal.as_str());
                out.append("' does not fit in '");
                out.append(ty.to_string().as_str());
                out.append("'");
                out
            },
            AnalysisErrorKind::NotAPointer { found } => {
                let mut out: String = "cannot dereference a value of type '".to_owned();
                out.append(found.to_string().as_str());
                out.append("'");
                out
            },
            AnalysisErrorKind::AddressOfNotAPlace => "cannot take the address of this expression".to_owned(),
            AnalysisErrorKind::InvalidBinaryOperand { op, ty } => {
                let mut out: String = "cannot apply '".to_owned();
                out.append(op.symbol());
                out.append("' to a value of type '");
                out.append(ty.to_string().as_str());
                out.append("'");
                out
            },
            AnalysisErrorKind::CharArithmeticNotAllowed { op } => {
                let mut out: String = "cannot apply '".to_owned();
                out.append(op.as_str());
                out.append("' to a value of type 'char'");
                out
            },
            AnalysisErrorKind::PointerPairArithmetic { op } => {
                let mut out: String = "cannot apply '".to_owned();
                out.append(op.symbol());
                out.append("' to two pointer values");
                out
            },
            AnalysisErrorKind::InvalidNegateOperand { ty } => {
                let mut out: String = "cannot negate a value of type '".to_owned();
                out.append(ty.to_string().as_str());
                out.append("'");
                out
            },
            AnalysisErrorKind::InvalidBitNotOperand { ty } => {
                let mut out: String = "cannot apply '~' to a value of type '".to_owned();
                out.append(ty.to_string().as_str());
                out.append("'");
                out
            },
            AnalysisErrorKind::InvalidNotOperand { ty } => {
                let mut out: String = "cannot apply '!' to a value of type '".to_owned();
                out.append(ty.to_string().as_str());
                out.append("'");
                out
            },
            AnalysisErrorKind::InvalidLogicalOperand { op, ty } => {
                let mut out: String = "'".to_owned();
                out.append(*op);
                out.append("' requires 'bool' operands, found '");
                out.append(ty.to_string().as_str());
                out.append("'");
                out
            },
            AnalysisErrorKind::FloatBitwiseOperand => "bitwise/shift operators are not supported on floating-point operands".to_owned(),
            AnalysisErrorKind::NotSliceable { found } => {
                let mut out: String = "cannot slice a value of type '".to_owned();
                out.append(found.to_string().as_str());
                out.append("'");
                out
            },
            AnalysisErrorKind::SliceRequiresAddressOf => "a slice expression must be prefixed with '&' or '&mut'".to_owned(),
            AnalysisErrorKind::ImmutableSliceSource => "cannot take a mutable slice of an immutable slice".to_owned(),
            AnalysisErrorKind::InvalidSliceBound { ty } => {
                let mut out: String = "mismatched types: slice bound must be 'i32', found '".to_owned();
                out.append(ty.to_string().as_str());
                out.append("'");
                out
            },
            AnalysisErrorKind::MissingSliceEnd => "there is no length here to infer a range end from".to_owned(),
            AnalysisErrorKind::CompPointerSliceNotSupported => "slicing a 'comp'-bound unsized array is not supported".to_owned(),
            AnalysisErrorKind::RangeNotAllowedHere => "bare '..' has no context here".to_owned(),
            AnalysisErrorKind::RangeNeedsBounded { ty } => {
                let mut out: String = "open range needs Bounded for '".to_owned();
                out.append(ty.to_string().as_str());
                out.append("'");
                out
            },
            AnalysisErrorKind::EmptyArrayLiteral => "cannot infer the element type of an empty array literal".to_owned(),
            AnalysisErrorKind::ArrayElementTypeMismatch { .. } => "mismatched types in array literal".to_owned(),
            AnalysisErrorKind::ArraySizeNotInferable => "cannot infer this array's length".to_owned(),
            AnalysisErrorKind::ConstSliceCannotBeMutable => "a compile-time slice cannot be mutable".to_owned(),
            AnalysisErrorKind::ConstSliceElementNotConstant => "compile-time slice elements must be literal constants".to_owned(),
            AnalysisErrorKind::ConstSliceElementTypeMismatch { expected, found } => {
                let mut out: String = "mismatched types: expected '".to_owned();
                out.append(expected.to_string().as_str());
                out.append("', found ");
                out.append(found.as_str());
                out
            },
            AnalysisErrorKind::BinaryOperandTypeMismatch { left, right, .. } => {
                let mut out: String = "mismatched types: '".to_owned();
                out.append(left.to_string().as_str());
                out.append("' and '");
                out.append(right.to_string().as_str());
                out.append("'");
                out
            },
            AnalysisErrorKind::FloatRemainder => "'%' is not supported on floating-point operands".to_owned(),
            AnalysisErrorKind::NonBoolCondition { ty } => {
                let mut out: String = "mismatched types: condition must be 'bool', found '".to_owned();
                out.append(ty.to_string().as_str());
                out.append("'");
                out
            },
            AnalysisErrorKind::IfBranchTypeMismatch { .. } => "'if' and 'else' branches have incompatible types".to_owned(),
            AnalysisErrorKind::ReturnTypeMismatch { expected, found } => {
                let mut out: String = "mismatched types: expected return type '".to_owned();
                out.append(expected.to_string().as_str());
                out.append("', found '");
                out.append(found.to_string().as_str());
                out.append("'");
                out
            },
            AnalysisErrorKind::InvalidMainSignature => "invalid 'main' signature".to_owned(),
            AnalysisErrorKind::IncrementTargetNotAPlace => "invalid '++'/'--' operand".to_owned(),
            AnalysisErrorKind::InvalidIncrementOperand { ty } => {
                let mut out: String = "cannot increment/decrement a value of type '".to_owned();
                out.append(ty.to_string().as_str());
                out.append("'");
                out
            },
            AnalysisErrorKind::ForLoopMissingCondition => "this 'for' loop is missing its condition clause".to_owned(),
            AnalysisErrorKind::BreakOutsideLoop => "'break' outside of a loop".to_owned(),
            AnalysisErrorKind::ContinueOutsideLoop => "'continue' outside of a loop".to_owned(),
            AnalysisErrorKind::ModuleResolution(e) => e.to_string(),
            AnalysisErrorKind::MacroDependencyTooPrivate { item, macro_visibility, item_visibility } => {
                let mut out: String = "macro-visible item '".to_owned();
                out.append(item.as_ref());
                out.append("' is ");
                out.append(item_visibility.word());
                out.append(" but its macro is ");
                out.append(macro_visibility.word());
                out
            },
            AnalysisErrorKind::NotAValue(path) => {
                let mut out: String = "'".to_owned();
                out.append(join(path).as_str());
                out.append("' is a type, not a value");
                out
            },
            AnalysisErrorKind::UnresolvedGenericParam(ident) => {
                let mut out: String = "cannot infer type parameter '".to_owned();
                out.append(ident.as_ref());
                out.append("' from this call's arguments");
                out
            },
            AnalysisErrorKind::GenericParamFromFatPointer { parameter, .. } => {
                let mut out: String = "cannot infer type parameter '".to_owned();
                out.append(parameter.as_ref());
                out.append("' from this call's arguments");
                out
            },
            AnalysisErrorKind::UnresolvedLiteralGeneric { named, generics } => {
                let mut out: String = "cannot infer type argument(s) ".to_owned();
                out.append(quoted_commas(generics, "'").as_str());
                out.append(" of '");
                out.append(named.as_ref());
                out.append("' here");
                out
            },
            AnalysisErrorKind::DeferInsideLoopNotSupported => "'defer' is not supported inside a loop body".to_owned(),
            AnalysisErrorKind::ReturnInsideDefer => "'return' is not supported inside a 'defer' body".to_owned(),
            AnalysisErrorKind::NestedDeferNotSupported => "'defer' is not supported inside another 'defer' body".to_owned(),
            AnalysisErrorKind::StructLiteralNotAStruct { found } => {
                let mut out: String = "cannot build a value of type '".to_owned();
                out.append(found.to_string().as_str());
                out.append("' with a struct literal");
                out
            },
            AnalysisErrorKind::DuplicateFieldInitializer { field, .. } => {
                let mut out: String = "field '".to_owned();
                out.append(field.as_ref());
                out.append("' is set more than once");
                out
            },
            AnalysisErrorKind::FieldTypeMismatch { field, expected, found } => {
                let mut out: String = "mismatched types: field '".to_owned();
                out.append(field.as_ref());
                out.append("' is '");
                out.append(expected.to_string().as_str());
                out.append("', found '");
                out.append(found.to_string().as_str());
                out.append("'");
                out
            },
            AnalysisErrorKind::MissingFieldInitializers { struct_name, missing } => {
                let mut out: String = "missing ".to_owned();
                out.append(field_list(missing).as_str());
                out.append(" in initializer of '");
                out.append(struct_name.as_ref());
                out.append("'");
                out
            },
            AnalysisErrorKind::NoSuchStructFunction { struct_name, function, .. } => {
                let mut out: String = "no function '".to_owned();
                out.append(function.as_ref());
                out.append("' on '");
                out.append(struct_name.as_ref());
                out.append("'");
                out
            },
            AnalysisErrorKind::MemberFunctionWithoutInstance { struct_name, function } => {
                let mut out: String = "'".to_owned();
                out.append(struct_name.as_ref());
                out.append("::");
                out.append(function.as_ref());
                out.append("' is a member function and cannot be called without an instance");
                out
            },
            AnalysisErrorKind::StaticFunctionOnInstance { struct_name, function } => {
                let mut out: String = "'".to_owned();
                out.append(struct_name.as_ref());
                out.append("::");
                out.append(function.as_ref());
                out.append("' is a static function and cannot be called on an instance");
                out
            },
            AnalysisErrorKind::StaticAccessOnNonStruct { found } => {
                let mut out: String = "type '".to_owned();
                out.append(found.to_string().as_str());
                out.append("' has no functions");
                out
            },
            AnalysisErrorKind::EnumTagNotFirst => "the 'tag' header entry must come first".to_owned(),
            AnalysisErrorKind::EnumTagNotInteger { found } => {
                let mut out: String = "enum tags must be integers, but this tag is declared as '".to_owned();
                out.append(found.to_string().as_str());
                out.append("'");
                out
            },
            AnalysisErrorKind::EnumImplicitTagOutOfRange { variant, value, ty } => {
                let mut out: String = "implicit tag ".to_owned();
                out.append(decimal_text(*value as u128).as_str());
                out.append(" for variant '");
                out.append(variant.as_ref());
                out.append("' does not fit in '");
                out.append(ty.to_string().as_str());
                out.append("'");
                out
            },
            AnalysisErrorKind::EnumHeaderFieldUnsupportedType { field, .. } => {
                let mut out: String = "header field '".to_owned();
                out.append(field.as_ref());
                out.append("' has a type that cannot hold a constant");
                out
            },
            AnalysisErrorKind::EnumVariantArgCount { variant, expected, found, .. } => {
                let mut out: String = "variant '".to_owned();
                out.append(variant.as_ref());
                out.append("' must supply ");
                out.append(decimal_text(*expected as u128).as_str());
                out.append(" ");
                out.append(plural(*expected, "value").as_str());
                out.append(", but supplies ");
                out.append(decimal_text(*found as u128).as_str());
                out
            },
            AnalysisErrorKind::EnumValueNotConstant => "enum variant values must be literal constants".to_owned(),
            AnalysisErrorKind::EnumValueTypeMismatch { expected, found } => {
                let mut out: String = "mismatched types: expected '".to_owned();
                out.append(expected.to_string().as_str());
                out.append("', found ");
                out.append(found.as_str());
                out
            },
            AnalysisErrorKind::DuplicateEnumTag { variant, value, previous_variant, .. } => {
                let mut out: String = "variants '".to_owned();
                out.append(previous_variant.as_ref());
                out.append("' and '");
                out.append(variant.as_ref());
                out.append("' share the tag value ");
                out.append(value.as_str());
                out
            },
            AnalysisErrorKind::EnumFieldNameCollision { field, variant } => match variant {
                Some(variant) => {
                    let mut out: String = "field '".to_owned();
                    out.append(field.as_ref());
                    out.append("' of variant '");
                    out.append(variant.as_ref());
                    out.append("' collides with another field of this enum");
                    out
                },
                None => {
                    let mut out: String = "'".to_owned();
                    out.append(field.as_ref());
                    out.append("' is declared more than once in this enum");
                    out
                },
            },
            AnalysisErrorKind::EnumLiteralWithoutVariant { enum_name, .. } => {
                let mut out: String = "cannot build enum '".to_owned();
                out.append(enum_name.as_ref());
                out.append("' without naming a variant");
                out
            },
            AnalysisErrorKind::NoSuchEnumMember { enum_name, name, .. } => {
                let mut out: String = "no variant or function '".to_owned();
                out.append(name.as_ref());
                out.append("' on enum '");
                out.append(enum_name.as_ref());
                out.append("'");
                out
            },
            AnalysisErrorKind::EnumVariantMissingBody { enum_name, variant, .. } => {
                let mut out: String = "variant '".to_owned();
                out.append(enum_name.as_ref());
                out.append("::");
                out.append(variant.as_ref());
                out.append("' has fields that must be initialized");
                out
            },
            AnalysisErrorKind::EnumVariantHasNoBody { enum_name, variant } => {
                let mut out: String = "variant '".to_owned();
                out.append(enum_name.as_ref());
                out.append("::");
                out.append(variant.as_ref());
                out.append("' has no fields to initialize");
                out
            },
            AnalysisErrorKind::StructLiteralPathTooDeep { struct_name, name } => {
                let mut out: String = "'".to_owned();
                out.append(struct_name.as_ref());
                out.append("' is a struct, so '");
                out.append(name.as_ref());
                out.append("' cannot be one of its variants");
                out
            },
            AnalysisErrorKind::EnumFieldWrongVariant { field, owner, .. } => {
                let mut out: String = "field '".to_owned();
                out.append(field.as_ref());
                out.append("' belongs to a different variant ('");
                out.append(owner.as_ref());
                out.append("')");
                out
            },
            AnalysisErrorKind::EnumFieldVariantUnknown { field, enum_name, .. } => {
                let mut out: String = "cannot access variant field '".to_owned();
                out.append(field.as_ref());
                out.append("' on a value whose '");
                out.append(enum_name.as_ref());
                out.append("' variant is unknown");
                out
            },
            AnalysisErrorKind::NoSuchEnumField { field, enum_name, .. } => {
                let mut out: String = "no field '".to_owned();
                out.append(field.as_ref());
                out.append("' on enum '");
                out.append(enum_name.as_ref());
                out.append("'");
                out
            },
            AnalysisErrorKind::GenericPathTooDeep { named } => {
                let mut out: String = "path continues too far past '".to_owned();
                out.append(named.as_ref());
                out.append("'");
                out
            },
            AnalysisErrorKind::EnumFieldImmutable { field } => {
                let mut out: String = "cannot assign to '".to_owned();
                out.append(field.as_ref());
                out.append("' of an enum value");
                out
            },
            AnalysisErrorKind::EnumHeaderFieldInLiteral { field } => {
                let mut out: String = "header field '".to_owned();
                out.append(field.as_ref());
                out.append("' cannot be initialized at a construction site");
                out
            },
            AnalysisErrorKind::StructPathTooDeep { struct_name, function } => {
                let mut out: String = "'".to_owned();
                out.append(struct_name.as_ref());
                out.append("::");
                out.append(function.as_ref());
                out.append("' is a function; there is nothing to look up inside it");
                out
            },
            AnalysisErrorKind::NotAModule { name } => {
                let mut out: String = "'".to_owned();
                out.append(name.as_ref());
                out.append("' is a value, not a module or type");
                out
            },
            AnalysisErrorKind::PatternValueNotConstant => "match patterns must be literal constants".to_owned(),
            AnalysisErrorKind::NoSuchVariantInPattern { enum_name, name, .. } => {
                let mut out: String = "no variant '".to_owned();
                out.append(name.as_ref());
                out.append("' on enum '");
                out.append(enum_name.as_ref());
                out.append("'");
                out
            },
            AnalysisErrorKind::PatternNotEnumVariant { enum_name } => {
                let mut out: String = "'".to_owned();
                out.append(enum_name.as_ref());
                out.append("' can only be matched by naming a variant");
                out
            },
            AnalysisErrorKind::PatternIsEnumVariant { enum_name, variant, scrutinee } => {
                let mut out: String = "mismatched types: expected '".to_owned();
                out.append(scrutinee.to_string().as_str());
                out.append("', found '");
                out.append(enum_name.as_ref());
                out.append("::");
                out.append(variant.as_ref());
                out.append("'");
                out
            },
            AnalysisErrorKind::PatternTypeMismatch { expected, found } => {
                let mut out: String = "mismatched types: expected '".to_owned();
                out.append(expected.to_string().as_str());
                out.append("', found '");
                out.append(found.to_string().as_str());
                out.append("'");
                out
            },
            AnalysisErrorKind::UnsupportedMatchScrutinee { ty } => {
                let mut out: String = "cannot match on a value of type '".to_owned();
                out.append(ty.to_string().as_str());
                out.append("'");
                out
            },
            AnalysisErrorKind::OverlappingMatchArm { .. } => "overlapping match arms".to_owned(),
            AnalysisErrorKind::NonExhaustiveMatchEnum { enum_name, .. } => {
                let mut out: String = "match on '".to_owned();
                out.append(enum_name.as_ref());
                out.append("' does not cover every variant");
                out
            },
            AnalysisErrorKind::NonExhaustiveMatchAnonymousEnum { enum_type, .. } => {
                let mut out: String = "match on '".to_owned();
                out.append(enum_type.to_string().as_str());
                out.append("' does not cover every member");
                out
            },
            AnalysisErrorKind::AnonymousEnumPatternNotAType { enum_type } => {
                let mut out: String = "a match arm on '".to_owned();
                out.append(enum_type.to_string().as_str());
                out.append("' must name one of its member types");
                out
            },
            AnalysisErrorKind::NotAnAnonymousEnumMember { found, enum_type } => {
                let mut out: String = "'".to_owned();
                out.append(found.to_string().as_str());
                out.append("' is not a member of '");
                out.append(enum_type.to_string().as_str());
                out.append("'");
                out
            },
            AnalysisErrorKind::AnonymousEnumNotRefined { enum_type } => {
                let mut out: String = "'".to_owned();
                out.append(enum_type.to_string().as_str());
                out.append("' has no members of its own");
                out
            },
            AnalysisErrorKind::AnonymousEnumConformTarget { enum_type } => {
                let mut out: String = "'".to_owned();
                out.append(enum_type.to_string().as_str());
                out.append("' has no declaration to conform");
                out
            },
            AnalysisErrorKind::NonExhaustiveMatchValue { ty, .. } => {
                let mut out: String = "match on '".to_owned();
                out.append(ty.to_string().as_str());
                out.append("' does not cover every value");
                out
            },
            AnalysisErrorKind::CatchAllRangeNotInferable { gaps } => {
                let mut out: String = "'..' can't be inferred: ".to_owned();
                out.append(decimal_text(*gaps as u128).as_str());
                out.append(" disjoint ranges are left uncovered, not one");
                out
            },
            AnalysisErrorKind::CatchAllPatternRedundant => "'..' has nothing left to cover".to_owned(),
            AnalysisErrorKind::MultipleCatchAllPatterns { .. } => "more than one '..' catch-all arm".to_owned(),
            AnalysisErrorKind::MatchArmTypeMismatch { .. } => "'match' arms have incompatible types".to_owned(),
            AnalysisErrorKind::NotMutableBinding { ident } => {
                let mut out: String = "cannot mutate '".to_owned();
                out.append(ident.as_ref());
                out.append("': not declared 'mut'");
                out
            },
            AnalysisErrorKind::NotMutablePointer => "cannot mutate through an immutable pointer".to_owned(),
            AnalysisErrorKind::MutateTemporary => "cannot mutate a temporary value".to_owned(),
            AnalysisErrorKind::UnionLiteralMissingField { union_name } => {
                let mut out: String = "union literal for '".to_owned();
                out.append(union_name.as_ref());
                out.append("' sets no field");
                out
            },
            AnalysisErrorKind::UnionLiteralTooManyFields { union_name, .. } => {
                let mut out: String = "union literal for '".to_owned();
                out.append(union_name.as_ref());
                out.append("' sets more than one field");
                out
            },
            AnalysisErrorKind::InvalidCast { from, to } => {
                let mut out: String = "cannot cast '".to_owned();
                out.append(from.to_string().as_str());
                out.append("' to '");
                out.append(to.to_string().as_str());
                out.append("'");
                out
            },
            AnalysisErrorKind::CastToMutablePointer { from, to } => {
                let mut out: String = "cannot cast '".to_owned();
                out.append(from.to_string().as_str());
                out.append("' to '");
                out.append(to.to_string().as_str());
                out.append("': target is mutable, source is not");
                out
            },
            AnalysisErrorKind::NoMatchingOverload { name, .. } => {
                let mut out: String = "no overload of '".to_owned();
                out.append(name.as_ref());
                out.append("' matches this call");
                out
            },
            AnalysisErrorKind::AmbiguousOverload { name, .. } => {
                let mut out: String = "ambiguous reference to overloaded '".to_owned();
                out.append(name.as_ref());
                out.append("'");
                out
            },
            AnalysisErrorKind::AmbiguousSelfOverload { name, .. } => {
                let mut out: String = "'".to_owned();
                out.append(name.as_ref());
                out.append("' is declared twice, differing only in how it receives 'self'");
                out
            },
            AnalysisErrorKind::MissingSpecFunction { implementor, spec, spec_type_args, function } => {
                let mut out: String = "'".to_owned();
                out.append(implementor.as_ref());
                out.append("' does not implement spec '");
                out.append(generic_name(spec, spec_type_args).as_str());
                out.append("': missing '");
                out.append(function.as_ref());
                out.append("'");
                out
            },
            AnalysisErrorKind::ForLoopSourceNotIterable { ty } => {
                let mut out: String = "'".to_owned();
                out.append(ty.to_string().as_str());
                out.append("' does not implement 'ToIterator<T>' or 'Iterator<T>'");
                out
            },
            AnalysisErrorKind::AmbiguousForLoopElementType { candidates } => {
                let mut out: String = "for-loop source has ambiguous element type: ".to_owned();
                out.append(type_commas(candidates).as_str());
                out
            },
            AnalysisErrorKind::ForLoopElementTypeMismatch { expected, available } => {
                let mut out: String = "for-loop source produces no '".to_owned();
                out.append(expected.to_string().as_str());
                out.append("' elements (it produces: ");
                out.append(type_commas(available).as_str());
                out.append(")");
                out
            },
            AnalysisErrorKind::NoSuchSpecFunction { spec, function } => {
                let mut out: String = "no function '".to_owned();
                out.append(function.as_ref());
                out.append("' on spec '");
                out.append(spec.as_ref());
                out.append("'");
                out
            },
            AnalysisErrorKind::SpecSelfMustBePointer { name } => {
                let mut out: String = "spec function '".to_owned();
                out.append(name.as_ref());
                out.append("' must receive 'self' by pointer");
                out
            },
            AnalysisErrorKind::ForeignAggregateByValue { ty } => {
                let mut out: String = "'".to_owned();
                out.append(ty.to_string().as_str());
                out.append("' cannot cross a 'foreign' boundary by value");
                out
            },
            AnalysisErrorKind::GenericForeignFunctionUnsupported => "a generic 'foreign' function is not yet supported".to_owned(),
            AnalysisErrorKind::VariadicSpecFunctionUnsatisfiable { name } => {
                let mut out: String = "spec function '".to_owned();
                out.append(name.as_ref());
                out.append("' is variadic, which no implementor could satisfy");
                out
            },
            AnalysisErrorKind::AmbiguousSpecObjectMethod { function, specs } => {
                let mut out: String = "ambiguous method '".to_owned();
                out.append(function.as_ref());
                out.append("' through a spec object -- declared by ");
                out.append(ident_commas(specs).as_str());
                out.append("; narrow the object with a cast (`<spec *");
                out.append(first_spec(specs));
                out.append(">x`) to pick one");
                out
            },
            AnalysisErrorKind::SpecObjectCastImpossible { from, to } => {
                let mut out: String = "cannot cast `spec *".to_owned();
                out.append(from.as_ref());
                out.append("` to `spec *");
                out.append(to.as_ref());
                out.append("` -- only narrowing onto one of the object's own specs is possible; widenings and cross-spec casts have no vtable section to point at");
                out
            },
            AnalysisErrorKind::SpecStaticNeedsExpectedType { spec, function } => {
                let mut out: String = "cannot determine which type implements '".to_owned();
                out.append(spec.as_ref());
                out.append("' for '");
                out.append(function.as_ref());
                out.append("' -- there is no expected type here to take 'Self' from");
                out
            },
            AnalysisErrorKind::SpecStaticReturnNotSelf { spec, function, return_type } => {
                let mut out: String = "cannot determine which type implements '".to_owned();
                out.append(spec.as_ref());
                out.append("' for '");
                out.append(function.as_ref());
                out.append("' -- its return type '");
                out.append(return_type.as_str());
                out.append("' does not say which type implements it");
                out
            },
            AnalysisErrorKind::UnknownAnnotation { name } => {
                let mut out: String = "unknown annotation '@".to_owned();
                out.append(name.as_ref());
                out.append("'");
                out
            },
            AnalysisErrorKind::AnnotationNotApplicable { name, found, .. } => {
                let mut out: String = "'@".to_owned();
                out.append(name.as_ref());
                out.append("' cannot be applied to ");
                out.append(found.as_str());
                out
            },
            AnalysisErrorKind::DuplicateAnnotation { name } => {
                let mut out: String = "duplicate '@".to_owned();
                out.append(name.as_ref());
                out.append("' annotation");
                out
            },
            AnalysisErrorKind::InvalidAnnotationArgs { name, reason } => {
                let mut out: String = "invalid arguments for '@".to_owned();
                out.append(name.as_ref());
                out.append("': ");
                out.append(reason.as_str());
                out
            },
            AnalysisErrorKind::ManglingDisabledOnGeneric => "cannot disable mangling on a generic function".to_owned(),
            AnalysisErrorKind::ManglingDisabledOnMethod => "cannot disable mangling on a method".to_owned(),
            AnalysisErrorKind::ManglingForcedOnGeneric => "cannot force a mangled symbol name on a generic function".to_owned(),
            AnalysisErrorKind::GlueTargetNotGap { target } => {
                let mut out: String = "'".to_owned();
                out.append(target.as_ref());
                out.append("' is not a gap");
                out
            },
            AnalysisErrorKind::GlueMissingFunction { gap, function } => {
                let mut out: String = "glue for gap '".to_owned();
                out.append(gap.as_ref());
                out.append("' is missing function '");
                out.append(function.as_ref());
                out.append("'");
                out
            },
            AnalysisErrorKind::GlueExtraFunction { gap, function } => {
                let mut out: String = "glue for gap '".to_owned();
                out.append(gap.as_ref());
                out.append("' has no function '");
                out.append(function.as_ref());
                out.append("'");
                out
            },
            AnalysisErrorKind::GlueFunctionSignatureMismatch { gap, function } => {
                let mut out: String = "glue function '".to_owned();
                out.append(function.as_ref());
                out.append("' does not match gap '");
                out.append(gap.as_ref());
                out.append("'");
                out
            },
            AnalysisErrorKind::ConformanceOrphanViolation { target_package, spec_package } => {
                let mut out: String = "cannot conform a type from '".to_owned();
                out.append(target_package.as_ref());
                out.append("' to a spec from '");
                out.append(spec_package.as_ref());
                out.append("'");
                out
            },
            AnalysisErrorKind::ConformTargetNotAType => "conform target is not a concrete type".to_owned(),
            AnalysisErrorKind::DuplicateConformance { target, spec, .. } => {
                let mut out: String = "duplicate conform for '".to_owned();
                out.append(target.as_str());
                out.append(": ");
                out.append(spec.as_ref());
                out.append("'");
                out
            },
            AnalysisErrorKind::ConformanceExtraFunction { spec, function } => {
                let mut out: String = "conform declares '".to_owned();
                out.append(function.as_ref());
                out.append("' which is not in spec '");
                out.append(spec.as_ref());
                out.append("'");
                out
            },
            AnalysisErrorKind::UnconstrainedConformanceParameter { parameter } => {
                let mut out: String = "conformance parameter '".to_owned();
                out.append(parameter.as_ref());
                out.append("' is not fixed by the target");
                out
            },
            AnalysisErrorKind::AmbiguousConformance { target, spec, .. } => {
                let mut out: String = "ambiguous conform for '".to_owned();
                out.append(target.as_str());
                out.append(": ");
                out.append(spec.as_ref());
                out.append("'");
                out
            },
            AnalysisErrorKind::ConformanceCycle { target, spec, .. } => {
                let mut out: String = "cyclic conformance while proving '".to_owned();
                out.append(target.as_str());
                out.append(": ");
                out.append(spec.as_ref());
                out.append("'");
                out
            },
            AnalysisErrorKind::BlanketConformanceForeignSpec { spec_package } => {
                let mut out: String = "a blanket conform cannot implement a foreign spec from '".to_owned();
                out.append(spec_package.as_ref());
                out.append("'");
                out
            },
            AnalysisErrorKind::PrimitiveOutsideCore => "primitive blocks may only be declared in core".to_owned(),
            AnalysisErrorKind::PrimitiveTargetNotAllowed { target } => {
                let mut out: String = "'".to_owned();
                out.append(target.as_str());
                out.append("' is not a primitive target");
                out
            },
            AnalysisErrorKind::DuplicatePrimitiveTarget { target, .. } => {
                let mut out: String = "duplicate primitive block for '".to_owned();
                out.append(target.as_str());
                out.append("'");
                out
            },
            AnalysisErrorKind::AmbiguousConformanceStatic { target, function, .. } => {
                let mut out: String = "conforming static function '".to_owned();
                out.append(target.as_str());
                out.append("::");
                out.append(function.as_ref());
                out.append("' is ambiguous");
                out
            },
            AnalysisErrorKind::MethodNotInScope { method, spec, .. } => {
                let mut out: String = "method '".to_owned();
                out.append(method.as_ref());
                out.append("' comes from spec '");
                out.append(spec.as_ref());
                out.append("' but is not in this bound context");
                out
            },
            AnalysisErrorKind::MultipleGluesForGap { gap, glues } => {
                let mut out: String = "more than one glue declaration implements gap '".to_owned();
                out.append(gap.as_ref());
                out.append("' (");
                out.append(ident_commas(glues).as_str());
                out.append(")");
                out
            },
            AnalysisErrorKind::CompEvalFailed { reason, .. } => {
                let mut out: String = "cannot evaluate this expression at compile time: ".to_owned();
                out.append(reason.as_str());
                out
            },
            AnalysisErrorKind::MutCompBinding => "a 'comp' binding cannot be 'mut'".to_owned(),
            AnalysisErrorKind::TopLevelValueNotComp => "a top-level binding's value must be compile-time-known".to_owned(),
            AnalysisErrorKind::ZeroSizedAggregate { name, is_union } => {
                let mut out: String = aggregate_word(*is_union).to_owned();
                out.append(" '");
                out.append(name.as_ref());
                out.append("' has no sized fields");
                out
            },
            AnalysisErrorKind::AsmRegNotOneRegisterOperand { ty } => {
                let mut out: String = "'reg' operand of type '".to_owned();
                out.append(ty.to_string().as_str());
                out.append("' cannot occupy a single register");
                out
            },
            AnalysisErrorKind::AsmConstNotComp => "'const' in 'asm' must name a 'comp' binding".to_owned(),
            AnalysisErrorKind::AsmConstUnsupportedShape => "'const' in 'asm' only supports values that convert deterministically to assembler text".to_owned(),
            AnalysisErrorKind::AsmUnknownBinding { text } => {
                let mut out: String = "'".to_owned();
                out.append(text.as_str());
                out.append("' does not refer to any 'reg'/'const' descriptor");
                out
            },
            AnalysisErrorKind::AsmAmbiguousBinding { text } => {
                let mut out: String = "'".to_owned();
                out.append(text.as_str());
                out.append("' is ambiguous: more than one descriptor infers this name");
                out
            },
            AnalysisErrorKind::NakedInlineConflict => "'@naked' cannot be combined with '@inline'".to_owned(),
            AnalysisErrorKind::InvalidNakedBody => "a '@naked' function's body must be exactly one 'asm' statement and nothing else".to_owned(),
            AnalysisErrorKind::AsmRegInNakedFunction => "'reg' is not allowed in a '@naked' function's 'asm'".to_owned(),
        }
    }
}

} // verus!
