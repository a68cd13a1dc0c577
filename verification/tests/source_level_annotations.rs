use omega::source_annotations::{resolve, source_condition, SourceAnnotationErrorKind};
use omega::syntax::{AnnotationArg, AnnotationNode, AnnotationValue, Ident, Origin, Span};

/// `@[name(args)]`
fn annotation(name: &str, args: Vec<AnnotationArg>) -> AnnotationNode {
    AnnotationNode {
        name: Ident::new(name),
        args,
        span: Span::new(0, 1),
        origin: Origin(0),
    }
}

fn word(text: &str) -> AnnotationArg {
    AnnotationArg::Positional(AnnotationValue::Name(Ident::new(text)))
}

fn truth(value: bool) -> AnnotationArg {
    AnnotationArg::Positional(AnnotationValue::Bool(value))
}

fn named(key: &str, text: &str) -> AnnotationArg {
    AnnotationArg::Named(Ident::new(key), AnnotationValue::Name(Ident::new(text)))
}

#[test]
fn conditions_validate_multiplicity_and_shape() {
    // @[cond(false)] @[cond(true)]
    let twice = vec![
        annotation("cond", vec![truth(false)]),
        annotation("cond", vec![truth(true)]),
    ];
    assert!(matches!(
        source_condition(&twice).unwrap_err().kind,
        SourceAnnotationErrorKind::Duplicate { .. }
    ));
    // @[cond]  @[cond()]  @[cond(a = true)]  @[cond(true, false)]
    for source in [
        vec![annotation("cond", vec![])],
        vec![annotation("cond", vec![])],
        vec![annotation("cond", vec![AnnotationArg::Named(Ident::new("a"), AnnotationValue::Bool(true))])],
        vec![annotation("cond", vec![truth(true), truth(false)])],
    ] {
        assert!(matches!(
            source_condition(&source).unwrap_err().kind,
            SourceAnnotationErrorKind::InvalidArguments { .. }
        ));
    }
}

#[test]
fn known_item_annotations_are_distinct_from_unknown_names() {
    // @[inline]  @[layout]  @[naked]  @[symbol(export)]
    for source in [
        vec![annotation("inline", vec![])],
        vec![annotation("layout", vec![])],
        vec![annotation("naked", vec![])],
        vec![annotation("symbol", vec![word("export")])],
    ] {
        assert!(matches!(
            resolve(&source).1[0].kind,
            SourceAnnotationErrorKind::NotSourceLevel { .. }
        ));
    }
    // @[bogus]
    assert!(matches!(
        resolve(&vec![annotation("bogus", vec![])]).1[0].kind,
        SourceAnnotationErrorKind::Unknown { .. }
    ));
}

#[test]
fn suppression_takes_bare_names_once_per_source() {
    // @[suppress(a)] @[suppress(b)]
    assert!(matches!(
        resolve(&vec![
            annotation("suppress", vec![word("a")]),
            annotation("suppress", vec![word("b")]),
        ])
        .1[0]
            .kind,
        SourceAnnotationErrorKind::Duplicate { .. }
    ));
    // @[suppress(key = value)]
    assert!(matches!(
        resolve(&vec![annotation("suppress", vec![named("key", "value")])]).1[0].kind,
        SourceAnnotationErrorKind::InvalidArguments { .. }
    ));
    // @[cond(true)] @[suppress(a, b)]
    let (resolved, errors) = resolve(&vec![
        annotation("cond", vec![truth(true)]),
        annotation("suppress", vec![word("a"), word("b")]),
    ]);
    assert!(errors.is_empty());
    assert_eq!(
        resolved
            .suppress
            .iter()
            .map(Ident::as_ref)
            .collect::<Vec<_>>(),
        ["a", "b"]
    );
}

#[test]
fn a_lone_condition_is_found_among_other_annotations() {
    let source = vec![
        annotation("suppress", vec![word("a")]),
        annotation("cond", vec![truth(true)]),
    ];
    let found = source_condition(&source).unwrap().unwrap();
    assert_eq!(found.name, Ident::new("cond"));
    assert!(source_condition(&vec![]).unwrap().is_none());
}

#[test]
fn refusals_say_what_they_refuse() {
    let errors = resolve(&vec![
        annotation("bogus", vec![]),
        annotation("inline", vec![]),
        annotation("suppress", vec![word("a")]),
        annotation("suppress", vec![word("b")]),
    ])
    .1;
    let texts: Vec<String> = errors.iter().map(|error| error.to_string()).collect();
    assert_eq!(
        texts,
        [
            "unknown annotation 'bogus'",
            "'@inline' is not a source-level annotation",
            "this source already has a '@[suppress]' annotation",
        ]
    );
    assert_eq!(errors[0].label(), "in this source-level annotation");
    assert_eq!(errors[2].label(), "duplicate source-level annotation");
}
