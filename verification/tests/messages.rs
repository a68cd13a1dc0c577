use omega::diagnostics::{Footer, LabelStyle, SourceId};
use omega::error::kind::AnalysisErrorKind;
use omega::error::{raw_type_display, AnalysisError, ArrayLengthProblem, TypeResolutionError};
use omega::hir::{HirId, ModuleId};
use omega::phrases::{
    field_list, ident_list, join, join_paths, plural, quoted_commas, type_list,
};
use omega::resolved_type::ResolvedType;
use omega::resolver::{ItemAccess, ResolveError, ResolveItemOptions};
use omega::syntax::{Ident, Path, Span, Type};
use std::rc::Rc;

fn names(list: &[&str]) -> Vec<Ident> {
    list.iter().map(|name| Ident::new(name)).collect()
}

#[test]
fn phrases_join_and_count() {
    assert_eq!(join(&names(&["a", "b", "c"])), "a::b::c");
    assert_eq!(join(&vec![]), "");
    assert_eq!(join_paths(&vec![names(&["a", "b"]), names(&["c"])], " -> "), "a::b -> c");
    assert_eq!(plural(1, "argument"), "argument");
    assert_eq!(plural(0, "argument"), "arguments");
    assert_eq!(plural(12, "field"), "fields");
    assert_eq!(quoted_commas(&names(&["x", "y"]), "'"), "'x', 'y'");
    assert_eq!(ident_list(&vec![]), "");
    assert_eq!(ident_list(&names(&["x"])), "'x'");
    assert_eq!(ident_list(&names(&["x", "y"])), "'x' and 'y'");
    assert_eq!(ident_list(&names(&["x", "y", "z"])), "'x', 'y', and 'z'");
    assert_eq!(
        type_list(&vec![ResolvedType::I32, ResolvedType::Bool]),
        "'i32' and 'bool'"
    );
    assert_eq!(field_list(&names(&["x"])), "field 'x'");
    assert_eq!(field_list(&names(&["x", "y"])), "fields 'x' and 'y'");
}

#[test]
fn resolve_errors_say_what_they_could_not_find() {
    assert_eq!(
        ResolveError::UnknownModule(names(&["a", "b"])).to_string(),
        "cannot find module 'a::b'"
    );
    assert_eq!(
        ResolveError::UnknownItem {
            module: names(&["a"]),
            item: Ident::new("x")
        }
        .to_string(),
        "cannot find 'x' in module 'a'"
    );
    assert_eq!(
        ResolveError::NotVisible {
            module: names(&["a"]),
            item: Ident::new("x")
        }
        .to_string(),
        "'a::x' is not visible here"
    );
    assert_eq!(
        ResolveError::Cycle(vec![names(&["a"]), names(&["b"]), names(&["a"])]).to_string(),
        "cyclic resolution dependency: a -> b -> a"
    );
    assert_eq!(
        ResolveError::SuperAboveRoot {
            depth: 3,
            importer: names(&["pkg", "m"])
        }
        .to_string(),
        "'super' used 3 time(s) from 'pkg::m' would cross the package root"
    );
    assert_eq!(
        ResolveError::InvalidModuleName {
            path: vec![],
            invalid: "9x".to_string()
        }
        .to_string(),
        "'9x' is not a valid Omega module name"
    );
    assert_eq!(
        ResolveError::InvalidModuleName {
            path: names(&["a"]),
            invalid: "9x".to_string()
        }
        .to_string(),
        "'9x' under module 'a' is not a valid Omega module name"
    );
    assert_eq!(
        ResolveError::GenericArgCountMismatch {
            module: names(&["a"]),
            item: Ident::new("Pair"),
            expected: 2,
            found: 1
        }
        .to_string(),
        "'a::Pair' expects 2 type argument(s), found 1"
    );
    assert_eq!(
        ResolveError::SpecNotImplemented {
            subject: "i32".to_string(),
            spec: Ident::new("Show"),
            missing: names(&["show", "width"])
        }
        .to_string(),
        "'i32' does not implement spec 'Show' (missing: show, width)"
    );
}

#[test]
fn analysis_errors_have_a_headline_and_a_primary_label() {
    let error = AnalysisError::new(
        HirId {
            module: ModuleId(0),
            local: 1,
        },
        Span::new(4, 9),
        AnalysisErrorKind::WrongArgumentCount {
            expected: 1,
            found: 3,
        },
    );
    assert!(error.to_string().starts_with("this function takes "), "{}", error.to_string());
    let diagnostic = error.to_diagnostic(64);
    assert_eq!(diagnostic.message, error.to_string());
    let primary: Vec<_> = diagnostic
        .labels
        .iter()
        .filter(|label| label.style == LabelStyle::Primary)
        .collect();
    assert_eq!(primary.len(), 1);
    assert_eq!(primary[0].span, Span::new(4, 9));
}

#[test]
fn a_source_is_given_to_every_label_without_one() {
    let error = AnalysisError::new(
        HirId {
            module: ModuleId(0),
            local: 1,
        },
        Span::new(4, 9),
        AnalysisErrorKind::NotAStruct {
            found: ResolvedType::I32,
        },
    )
    .in_source(Some(SourceId(7)));
    let diagnostic = error.to_diagnostic(64);
    assert!(diagnostic
        .labels
        .iter()
        .all(|label| label.source == Some(SourceId(7))));
    assert!(diagnostic.message.contains("'i32'"));
}

#[test]
fn a_similar_name_is_suggested() {
    let kind = AnalysisErrorKind::UndefinedVariable {
        name: Ident::new("lenght"),
        similar: Some(Ident::new("length")),
    };
    let diagnostic = kind.to_diagnostic(Span::new(0, 6), 64);
    assert!(diagnostic.message.starts_with("cannot find 'lenght'"));
    assert!(diagnostic
        .footers
        .iter()
        .any(|footer| matches!(footer, Footer::Help(text) if text.contains("length"))));
}

#[test]
fn array_lengths_say_what_is_wrong_with_them() {
    assert_eq!(ArrayLengthProblem::Negative.phrase(), "is negative");
    assert_eq!(ArrayLengthProblem::TooLarge.phrase(), "does not fit a u32");
    assert_eq!(
        TypeResolutionError::InvalidArrayLength {
            written: "N".to_string(),
            value: Some("-1".to_string()),
            reason: ArrayLengthProblem::Negative,
        }
        .to_string()
        .contains("is negative"),
        true
    );
}

#[test]
fn written_types_are_shown_as_written() {
    let named = |name: &str| Type::Named(Rc::new(Path::from_ident(Ident::new(name))));
    assert_eq!(raw_type_display(&named("Thing")), "Thing");
    assert_eq!(
        raw_type_display(&Type::Pointer(Rc::new(named("Thing")), true)),
        "*mut Thing"
    );
    assert_eq!(
        raw_type_display(&Type::AnonymousEnum(Rc::new(vec![named("A"), named("B")]))),
        "enum A | B"
    );
}

#[test]
fn access_carries_its_rights_into_a_query() {
    let direct = ResolveItemOptions::direct();
    assert!(!direct.allows_indirection());
    assert!(!direct.bypasses_visibility());
    assert!(ResolveItemOptions::indirect().allows_indirection());
    let gated = ItemAccess::gated(names(&["a", "x"]));
    assert!(!gated.options(direct).bypasses_visibility());
    let authorized = ItemAccess::authorized(names(&["a", "x"]));
    assert!(authorized.options(ResolveItemOptions::direct()).bypasses_visibility());
}

#[test]
fn errors_without_details_have_fixed_headlines() {
    for (kind, text) in [
        (AnalysisErrorKind::UnresolvedCallee, "this expression is not a callable function"),
        (AnalysisErrorKind::UnresolvedInnerExpression, "inner expression could not be resolved"),
        (AnalysisErrorKind::AssignmentTargetNotAPlace, "invalid assignment target"),
        (AnalysisErrorKind::CompoundAssignTargetNotAPlace, "invalid assignment target"),
        (AnalysisErrorKind::AddressOfNotAPlace, "cannot take the address of this expression"),
        (AnalysisErrorKind::FloatBitwiseOperand, "bitwise/shift operators are not supported on floating-point operands"),
        (AnalysisErrorKind::SliceRequiresAddressOf, "a slice expression must be prefixed with '&' or '&mut'"),
        (AnalysisErrorKind::ImmutableSliceSource, "cannot take a mutable slice of an immutable slice"),
        (AnalysisErrorKind::MissingSliceEnd, "there is no length here to infer a range end from"),
        (AnalysisErrorKind::CompPointerSliceNotSupported, "slicing a 'comp'-bound unsized array is not supported"),
        (AnalysisErrorKind::RangeNotAllowedHere, "bare '..' has no context here"),
        (AnalysisErrorKind::EmptyArrayLiteral, "cannot infer the element type of an empty array literal"),
        (AnalysisErrorKind::ArraySizeNotInferable, "cannot infer this array's length"),
        (AnalysisErrorKind::ConstSliceCannotBeMutable, "a compile-time slice cannot be mutable"),
        (AnalysisErrorKind::ConstSliceElementNotConstant, "compile-time slice elements must be literal constants"),
        (AnalysisErrorKind::FloatRemainder, "'%' is not supported on floating-point operands"),
        (AnalysisErrorKind::InvalidMainSignature, "invalid 'main' signature"),
        (AnalysisErrorKind::IncrementTargetNotAPlace, "invalid '++'/'--' operand"),
        (AnalysisErrorKind::ForLoopMissingCondition, "this 'for' loop is missing its condition clause"),
        (AnalysisErrorKind::BreakOutsideLoop, "'break' outside of a loop"),
        (AnalysisErrorKind::ContinueOutsideLoop, "'continue' outside of a loop"),
        (AnalysisErrorKind::DeferInsideLoopNotSupported, "'defer' is not supported inside a loop body"),
        (AnalysisErrorKind::ReturnInsideDefer, "'return' is not supported inside a 'defer' body"),
        (AnalysisErrorKind::NestedDeferNotSupported, "'defer' is not supported inside another 'defer' body"),
        (AnalysisErrorKind::EnumTagNotFirst, "the 'tag' header entry must come first"),
        (AnalysisErrorKind::EnumValueNotConstant, "enum variant values must be literal constants"),
        (AnalysisErrorKind::PatternValueNotConstant, "match patterns must be literal constants"),
        (AnalysisErrorKind::CatchAllPatternRedundant, "'..' has nothing left to cover"),
        (AnalysisErrorKind::NotMutablePointer, "cannot mutate through an immutable pointer"),
        (AnalysisErrorKind::MutateTemporary, "cannot mutate a temporary value"),
        (AnalysisErrorKind::GenericForeignFunctionUnsupported, "a generic 'foreign' function is not yet supported"),
        (AnalysisErrorKind::ManglingDisabledOnGeneric, "cannot disable mangling on a generic function"),
        (AnalysisErrorKind::ManglingDisabledOnMethod, "cannot disable mangling on a method"),
        (AnalysisErrorKind::ManglingForcedOnGeneric, "cannot force a mangled symbol name on a generic function"),
        (AnalysisErrorKind::ConformTargetNotAType, "conform target is not a concrete type"),
        (AnalysisErrorKind::PrimitiveOutsideCore, "primitive blocks may only be declared in core"),
        (AnalysisErrorKind::MutCompBinding, "a 'comp' binding cannot be 'mut'"),
        (AnalysisErrorKind::TopLevelValueNotComp, "a top-level binding's value must be compile-time-known"),
        (AnalysisErrorKind::AsmConstNotComp, "'const' in 'asm' must name a 'comp' binding"),
        (AnalysisErrorKind::AsmConstUnsupportedShape, "'const' in 'asm' only supports values that convert deterministically to assembler text"),
        (AnalysisErrorKind::NakedInlineConflict, "'@naked' cannot be combined with '@inline'"),
        (AnalysisErrorKind::InvalidNakedBody, "a '@naked' function's body must be exactly one 'asm' statement and nothing else"),
        (AnalysisErrorKind::AsmRegInNakedFunction, "'reg' is not allowed in a '@naked' function's 'asm'"),
    ] {
        assert_eq!(kind.to_string(), text);
        assert_eq!(kind.to_diagnostic(Span::new(0, 1), 64).message, text);
    }
}
