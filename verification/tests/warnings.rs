use omega::diagnostics::Footer;
use omega::error::warning::{AnalysisWarning, AnalysisWarningKind};
use omega::hir::{HirId, ModuleId, SYNTHETIC_MODULE};
use omega::syntax::{Ident, Span};

#[test]
fn unfilled_gap_does_not_advertise_impossible_suppression() {
    let warning = AnalysisWarning::new(
        HirId { module: ModuleId(SYNTHETIC_MODULE), local: 0 },
        Span::new(0, 0),
        AnalysisWarningKind::UnfilledGap {
            gap: Ident::new("Platform"),
            functions: vec![Ident::new("write")],
        },
    );

    let diagnostic = warning.to_diagnostic();
    assert!(!diagnostic.footers.iter().any(|footer| {
        matches!(footer, Footer::Note(note) if note.contains("@suppress"))
    }));
}

#[test]
fn other_warnings_say_how_they_are_silenced() {
    let warning = AnalysisWarning::new(
        HirId { module: ModuleId(0), local: 0 },
        Span::new(3, 9),
        AnalysisWarningKind::UnreachableCode,
    );
    let diagnostic = warning.to_diagnostic();
    assert_eq!(diagnostic.message, "unreachable code");
    assert!(diagnostic.footers.iter().any(|footer| {
        matches!(footer, Footer::Note(note) if note.contains("@suppress(unreachable_code)"))
    }));
}
