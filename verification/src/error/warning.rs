//! The warnings of the analysis.

use crate::diagnostics::{Diagnostic, DiagnosticView};
use crate::hir::HirId;
use crate::phrases::{bool_text, bool_word, quoted_commas, quoted_commas_text};
use crate::resolved_type::ResolvedType;
use crate::syntax::{Ident, Span};
use crate::text::{decimal, decimal_text};
use crate::type_text::{printable, type_text};
use vstd::prelude::*;

verus! {

/// A warning and where it is.
#[derive(Debug)]
pub struct AnalysisWarning {
    pub node_id: HirId,
    pub span: Span,
    pub kind: AnalysisWarningKind,
}

/// What the analysis warns of.
#[derive(Debug)]
#[allow(inconsistent_fields)]
pub enum AnalysisWarningKind {
    UnreachableCode,
    PreferLoop,
    InlineNotEnforced,
    UnusedVariable { name: Ident },
    UnusedParameter { name: Ident },
    UnnecessaryMut { name: Ident },
    UnnecessaryReveal,
    UnusedImport { alias: Ident },
    UnusedField { owner: Ident, field: Ident },
    NeverConstructedVariant { enum_name: Ident, variant: Ident },
    UnusedReturnValue,
    NoOpCast { ty: ResolvedType },
    SelfAssignment,
    AlwaysTrueFalseComparison { result: bool },
    RedundantLayoutAnnotation,
    LargeStructByValue { ty: ResolvedType, size: u32 },
    UnfilledGap { gap: Ident, functions: Vec<Ident> },
}

impl AnalysisWarningKind {
    /// Whether every type this warning names can be written.
    pub open spec fn printable(&self) -> bool {
        match *self {
            AnalysisWarningKind::NoOpCast { ty } => printable(ty),
            AnalysisWarningKind::LargeStructByValue { ty, .. } => printable(ty),
            _ => true,
        }
    }

    /// Whether an annotation can silence this warning.
    pub open spec fn suppressible(&self) -> bool {
        !(*self is UnfilledGap)
    }

    pub fn is_suppressible(&self) -> (r: bool)
        ensures
            r == self.suppressible(),
    {
        match self {
            AnalysisWarningKind::UnfilledGap { .. } => false,
            _ => true,
        }
    }

    /// The name an annotation silences this warning by.
    pub open spec fn key(&self) -> Seq<char> {
        match *self {
            AnalysisWarningKind::UnreachableCode => "unreachable_code"@,
            AnalysisWarningKind::PreferLoop => "prefer_loop"@,
            AnalysisWarningKind::InlineNotEnforced => "inline_not_enforced"@,
            AnalysisWarningKind::UnusedVariable { .. } => "unused_variable"@,
            AnalysisWarningKind::UnusedParameter { .. } => "unused_parameter"@,
            AnalysisWarningKind::UnnecessaryMut { .. } => "unnecessary_mut"@,
            AnalysisWarningKind::UnnecessaryReveal => "unnecessary_reveal"@,
            AnalysisWarningKind::UnusedImport { .. } => "unused_import"@,
            AnalysisWarningKind::UnusedField { .. } => "unused_field"@,
            AnalysisWarningKind::NeverConstructedVariant { .. } => "never_constructed_variant"@,
            AnalysisWarningKind::UnusedReturnValue => "unused_return_value"@,
            AnalysisWarningKind::NoOpCast { .. } => "no_op_cast"@,
            AnalysisWarningKind::SelfAssignment => "self_assignment"@,
            AnalysisWarningKind::AlwaysTrueFalseComparison { .. } => "always_true_false_comparison"@,
            AnalysisWarningKind::RedundantLayoutAnnotation => "redundant_layout_annotation"@,
            AnalysisWarningKind::LargeStructByValue { .. } => "large_struct_by_value"@,
            AnalysisWarningKind::UnfilledGap { .. } => "unfilled_gap"@,
        }
    }

    pub fn name(&self) -> (text: &'static str)
        ensures
            text@ == self.key(),
    {
        match self {
            AnalysisWarningKind::UnreachableCode => "unreachable_code",
            AnalysisWarningKind::PreferLoop => "prefer_loop",
            AnalysisWarningKind::InlineNotEnforced => "inline_not_enforced",
            AnalysisWarningKind::UnusedVariable { .. } => "unused_variable",
            AnalysisWarningKind::UnusedParameter { .. } => "unused_parameter",
            AnalysisWarningKind::UnnecessaryMut { .. } => "unnecessary_mut",
            AnalysisWarningKind::UnnecessaryReveal => "unnecessary_reveal",
            AnalysisWarningKind::UnusedImport { .. } => "unused_import",
            AnalysisWarningKind::UnusedField { .. } => "unused_field",
            AnalysisWarningKind::NeverConstructedVariant { .. } => "never_constructed_variant",
            AnalysisWarningKind::UnusedReturnValue => "unused_return_value",
            AnalysisWarningKind::NoOpCast { .. } => "no_op_cast",
            AnalysisWarningKind::SelfAssignment => "self_assignment",
            AnalysisWarningKind::AlwaysTrueFalseComparison { .. } => "always_true_false_comparison",
            AnalysisWarningKind::RedundantLayoutAnnotation => "redundant_layout_annotation",
            AnalysisWarningKind::LargeStructByValue { .. } => "large_struct_by_value",
            AnalysisWarningKind::UnfilledGap { .. } => "unfilled_gap",
        }
    }

    /// The headline of this warning.
    pub open spec fn message(&self) -> Seq<char> {
        match *self {
            AnalysisWarningKind::UnreachableCode => "unreachable code"@,
            AnalysisWarningKind::PreferLoop => "this `while` condition is always true"@,
            AnalysisWarningKind::InlineNotEnforced => "'@inline' is not enforced by this backend yet"@,
            AnalysisWarningKind::UnusedVariable { name } => "unused variable '"@
                + name@
                + "'"@,
            AnalysisWarningKind::UnusedParameter { name } => "unused parameter '"@
                + name@
                + "'"@,
            AnalysisWarningKind::UnnecessaryMut { name } => "unnecessary 'mut' on '"@
                + name@
                + "'"@,
            AnalysisWarningKind::UnnecessaryReveal => "unnecessary 'reveal'"@,
            AnalysisWarningKind::UnusedImport { alias } => "unused import '"@
                + alias@
                + "'"@,
            AnalysisWarningKind::UnusedField { owner, field } => "field '"@
                + field@
                + "' of '"@
                + owner@
                + "' is never read"@,
            AnalysisWarningKind::NeverConstructedVariant { enum_name, variant } => "variant '"@
                + variant@
                + "' of '"@
                + enum_name@
                + "' is never constructed"@,
            AnalysisWarningKind::UnusedReturnValue => "unused return value"@,
            AnalysisWarningKind::NoOpCast { ty } => "this cast to '"@
                + type_text(ty, false)
                + "' has no effect"@,
            AnalysisWarningKind::SelfAssignment => "self-assignment"@,
            AnalysisWarningKind::AlwaysTrueFalseComparison { result } => "comparison is always "@
                + bool_text(result),
            AnalysisWarningKind::RedundantLayoutAnnotation => "redundant '@layout' arguments"@,
            AnalysisWarningKind::LargeStructByValue { ty, .. } => "large type '"@
                + type_text(ty, false)
                + "' passed by value"@,
            AnalysisWarningKind::UnfilledGap { gap, .. } => "gap '"@
                + gap@
                + "' has no glue implementation"@,
        }
    }

    pub fn to_string(&self) -> (text: String)
        requires
            self.printable(),
        ensures
            text@ == self.message(),
    {
        match self {
            AnalysisWarningKind::UnreachableCode => "unreachable code".to_owned(),
            AnalysisWarningKind::PreferLoop => "this `while` condition is always true".to_owned(),
            AnalysisWarningKind::InlineNotEnforced => "'@inline' is not enforced by this backend yet".to_owned(),
            AnalysisWarningKind::UnusedVariable { name } => {
                let mut out: String = "unused variable '".to_owned();
                out.append(name.as_ref());
                out.append("'");
                out
            },
            AnalysisWarningKind::UnusedParameter { name } => {
                let mut out: String = "unused parameter '".to_owned();
                out.append(name.as_ref());
                out.append("'");
                out
            },
            AnalysisWarningKind::UnnecessaryMut { name } => {
                let mut out: String = "unnecessary 'mut' on '".to_owned();
                out.append(name.as_ref());
                out.append("'");
                out
            },
            AnalysisWarningKind::UnnecessaryReveal => "unnecessary 'reveal'".to_owned(),
            AnalysisWarningKind::UnusedImport { alias } => {
                let mut out: String = "unused import '".to_owned();
                out.append(alias.as_ref());
                out.append("'");
                out
            },
            AnalysisWarningKind::UnusedField { owner, field } => {
                let mut out: String = "field '".to_owned();
                out.append(field.as_ref());
                out.append("' of '");
                out.append(owner.as_ref());
                out.append("' is never read");
                out
            },
            AnalysisWarningKind::NeverConstructedVariant { enum_name, variant } => {
                let mut out: String = "variant '".to_owned();
                out.append(variant.as_ref());
                out.append("' of '");
                out.append(enum_name.as_ref());
                out.append("' is never constructed");
                out
            },
            AnalysisWarningKind::UnusedReturnValue => "unused return value".to_owned(),
            AnalysisWarningKind::NoOpCast { ty } => {
                let mut out: String = "this cast to '".to_owned();
                out.append(ty.to_string().as_str());
                out.append("' has no effect");
                out
            },
            AnalysisWarningKind::SelfAssignment => "self-assignment".to_owned(),
            AnalysisWarningKind::AlwaysTrueFalseComparison { result } => {
                let mut out: String = "comparison is always ".to_owned();
                out.append(bool_word(*result));
                out
            },
            AnalysisWarningKind::RedundantLayoutAnnotation => "redundant '@layout' arguments".to_owned(),
            AnalysisWarningKind::LargeStructByValue { ty, .. } => {
                let mut out: String = "large type '".to_owned();
                out.append(ty.to_string().as_str());
                out.append("' passed by value");
                out
            },
            AnalysisWarningKind::UnfilledGap { gap, .. } => {
                let mut out: String = "gap '".to_owned();
                out.append(gap.as_ref());
                out.append("' has no glue implementation");
                out
            },
        }
    }

    /// The labels and footers of this warning at `span`.
    pub open spec fn annotated(&self, span: Span) -> DiagnosticView {
        let d = DiagnosticView::warning(self.message());
        match *self {
            AnalysisWarningKind::UnreachableCode => {
                let d = d.with_label(span, "this can never run"@);
                let d = d.with_note("it follows something that always diverges (`return`, `break`, `continue`, a `loop` with no way out, or a call to a `never`-returning function)"@);
                d
            },
            AnalysisWarningKind::PreferLoop => {
                let d = d.with_label(span, "this condition is always true"@);
                let d = d.with_help("use `loop { }` instead -- it also lets the compiler prove this always diverges"@);
                d
            },
            AnalysisWarningKind::InlineNotEnforced => {
                let d = d.with_label(span, "this hint is recorded but not acted on"@);
                let d = d.with_note("this backend has no function-inlining support yet"@);
                d
            },
            AnalysisWarningKind::UnusedVariable { name } => {
                let d = d.with_label(span, "`"@
                    + name@
                    + "` is never read"@);
                d
            },
            AnalysisWarningKind::UnusedParameter { name } => {
                let d = d.with_label(span, "`"@
                    + name@
                    + "` is never read"@);
                d
            },
            AnalysisWarningKind::UnnecessaryMut { name } => {
                let d = d.with_label(span, "`"@
                    + name@
                    + "` is declared `mut` but never reassigned"@);
                let d = d.with_help("remove `mut` -- it isn't just a hint, dropping it changes nothing about how this compiles"@);
                d
            },
            AnalysisWarningKind::UnnecessaryReveal => {
                let d = d.with_label(span, "this 'reveal' never suppresses anything"@);
                let d = d.with_help("remove 'reveal' -- every check inside it would already pass without it"@);
                d
            },
            AnalysisWarningKind::UnusedImport { alias } => {
                let d = d.with_label(span, "`"@
                    + alias@
                    + "` is never referenced in this module"@);
                d
            },
            AnalysisWarningKind::UnusedField { owner, field } => {
                let d = d.with_label(span, "`"@
                    + field@
                    + "` is never read anywhere `"@
                    + owner@
                    + "` is used"@);
                d
            },
            AnalysisWarningKind::NeverConstructedVariant { enum_name, variant } => {
                let d = d.with_label(span, "`"@
                    + variant@
                    + "` is never built anywhere `"@
                    + enum_name@
                    + "` is used"@);
                d
            },
            AnalysisWarningKind::UnusedReturnValue => {
                let d = d.with_label(span, "this call's result is discarded"@);
                let d = d.with_note("if that's intentional, bind it to a local instead of leaving it a bare statement"@);
                d
            },
            AnalysisWarningKind::NoOpCast { ty } => {
                let d = d.with_label(span, "`"@
                    + type_text(ty, false)
                    + "` cast to itself changes nothing"@);
                d
            },
            AnalysisWarningKind::SelfAssignment => {
                let d = d.with_label(span, "this assigns a value to itself"@);
                d
            },
            AnalysisWarningKind::AlwaysTrueFalseComparison { result } => {
                let d = d.with_label(span, "this comparison is always "@
                    + bool_text(result)
                    + ", no matter the other operand's value"@);
                d
            },
            AnalysisWarningKind::RedundantLayoutAnnotation => {
                let d = d.with_label(span, "these values are already the default"@);
                let d = d.with_help("remove the explicit arguments, or bare `@layout`, to mean the same thing"@);
                d
            },
            AnalysisWarningKind::LargeStructByValue { ty, size } => {
                let d = d.with_label(span, "`"@
                    + type_text(ty, false)
                    + "` is at least "@
                    + decimal(size as nat)
                    + " bytes, passed by value"@);
                let d = d.with_note("this backend passes structs as flattened scalars, not by reference -- consider a pointer instead"@);
                d
            },
            AnalysisWarningKind::UnfilledGap { functions, .. } => {
                let d = d.with_label(span, "no glue implements this gap anywhere in this compilation"@);
                let d = d.with_note("missing: "@
                    + quoted_commas_text(functions@, "'"@));
                let d = d.with_help("this only matters if something actually calls this gap -- an unglued, uncalled gap links fine"@);
                d
            },
        }
    }
}

impl AnalysisWarning {
    pub fn new(node_id: HirId, span: Span, kind: AnalysisWarningKind) -> (warning: Self)
        ensures
            warning == (AnalysisWarning { node_id, span, kind }),
    {
        AnalysisWarning { node_id, span, kind }
    }

    /// The diagnostic of this warning. It says how to suppress the warning
    /// exactly where that is possible.
    pub open spec fn diagnostic(&self) -> DiagnosticView {
        let d = self.kind.annotated(self.span);
        if self.kind.suppressible() {
            d.with_note("suppress this with '@suppress("@ + self.kind.key() + ")'"@)
        } else {
            d
        }
    }

    pub fn to_diagnostic(&self) -> (diagnostic: Diagnostic)
        requires
            self.kind.printable(),
        ensures
            diagnostic@ == self.diagnostic(),
    {
        let span: Span = self.span;
        let d = Diagnostic::warning(self.kind.to_string());
        let d = match &self.kind {
            AnalysisWarningKind::UnreachableCode => {
                let d = d.with_label(span, "this can never run".to_owned());
                let d = d.with_note("it follows something that always diverges (`return`, `break`, `continue`, a `loop` with no way out, or a call to a `never`-returning function)".to_owned());
                d
            },
            AnalysisWarningKind::PreferLoop => {
                let d = d.with_label(span, "this condition is always true".to_owned());
                let d = d.with_help("use `loop { }` instead -- it also lets the compiler prove this always diverges".to_owned());
                d
            },
            AnalysisWarningKind::InlineNotEnforced => {
                let d = d.with_label(span, "this hint is recorded but not acted on".to_owned());
                let d = d.with_note("this backend has no function-inlining support yet".to_owned());
                d
            },
            AnalysisWarningKind::UnusedVariable { name } => {
                let d = d.with_label(span, {
                    let mut out: String = "`".to_owned();
                    out.append(name.as_ref());
                    out.append("` is never read");
                    out
                });
                d
            },
            AnalysisWarningKind::UnusedParameter { name } => {
                let d = d.with_label(span, {
                    let mut out: String = "`".to_owned();
                    out.append(name.as_ref());
                    out.append("` is never read");
                    out
                });
                d
            },
            AnalysisWarningKind::UnnecessaryMut { name } => {
                let d = d.with_label(span, {
                    let mut out: String = "`".to_owned();
                    out.append(name.as_ref());
                    out.append("` is declared `mut` but never reassigned");
                    out
                });
                let d = d.with_help("remove `mut` -- it isn't just a hint, dropping it changes nothing about how this compiles".to_owned());
                d
            },
            AnalysisWarningKind::UnnecessaryReveal => {
                let d = d.with_label(span, "this 'reveal' never suppresses anything".to_owned());
                let d = d.with_help("remove 'reveal' -- every check inside it would already pass without it".to_owned());
                d
            },
            AnalysisWarningKind::UnusedImport { alias } => {
                let d = d.with_label(span, {
                    let mut out: String = "`".to_owned();
                    out.append(alias.as_ref());
                    out.append("` is never referenced in this module");
                    out
                });
                d
            },
            AnalysisWarningKind::UnusedField { owner, field } => {
                let d = d.with_label(span, {
                    let mut out: String = "`".to_owned();
                    out.append(field.as_ref());
                    out.append("` is never read anywhere `");
                    out.append(owner.as_ref());
                    out.append("` is used");
                    out
                });
                d
            },
            AnalysisWarningKind::NeverConstructedVariant { enum_name, variant } => {
                let d = d.with_label(span, {
                    let mut out: String = "`".to_owned();
                    out.append(variant.as_ref());
                    out.append("` is never built anywhere `");
                    out.append(enum_name.as_ref());
                    out.append("` is used");
                    out
                });
                d
            },
            AnalysisWarningKind::UnusedReturnValue => {
                let d = d.with_label(span, "this call's result is discarded".to_owned());
                let d = d.with_note("if that's intentional, bind it to a local instead of leaving it a bare statement".to_owned());
                d
            },
            AnalysisWarningKind::NoOpCast { ty } => {
                let d = d.with_label(span, {
                    let mut out: String = "`".to_owned();
                    out.append(ty.to_string().as_str());
                    out.append("` cast to itself changes nothing");
                    out
                });
                d
            },
            AnalysisWarningKind::SelfAssignment => {
                let d = d.with_label(span, "this assigns a value to itself".to_owned());
                d
            },
            AnalysisWarningKind::AlwaysTrueFalseComparison { result } => {
                let d = d.with_label(span, {
                    let mut out: String = "this comparison is always ".to_owned();
                    out.append(bool_word(*result));
                    out.append(", no matter the other operand's value");
                    out
                });
                d
            },
            AnalysisWarningKind::RedundantLayoutAnnotation => {
                let d = d.with_label(span, "these values are already the default".to_owned());
                let d = d.with_help("remove the explicit arguments, or bare `@layout`, to mean the same thing".to_owned());
                d
            },
            AnalysisWarningKind::LargeStructByValue { ty, size } => {
                let d = d.with_label(span, {
                    let mut out: String = "`".to_owned();
                    out.append(ty.to_string().as_str());
                    out.append("` is at least ");
                    out.append(decimal_text(*size as u128).as_str());
                    out.append(" bytes, passed by value");
                    out
                });
                let d = d.with_note("this backend passes structs as flattened scalars, not by reference -- consider a pointer instead".to_owned());
                d
            },
            AnalysisWarningKind::UnfilledGap { functions, .. } => {
                let d = d.with_label(span, "no glue implements this gap anywhere in this compilation".to_owned());
                let d = d.with_note({
                    let mut out: String = "missing: ".to_owned();
                    out.append(quoted_commas(functions, "'").as_str());
                    out
                });
                let d = d.with_help("this only matters if something actually calls this gap -- an unglued, uncalled gap links fine".to_owned());
                d
            },
        };
        if self.kind.is_suppressible() {
            let mut note: String = "suppress this with '@suppress(".to_owned();
            note.append(self.kind.name());
            note.append(")'");
            d.with_note(note)
        } else {
            d
        }
    }

    pub fn to_string(&self) -> (text: String)
        requires
            self.kind.printable(),
        ensures
            text@ == self.kind.message(),
    {
        self.kind.to_string()
    }
}

} // verus!
