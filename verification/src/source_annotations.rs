//! Annotations that apply to a whole source.

use crate::annotations::{is_recognized, recognized, CONDITION, SUPPRESS};
use crate::syntax::{AnnotationArg, AnnotationNode, Ident, Origin, Span};
use crate::syntax::names_view;
use crate::text::same_text;
use vstd::prelude::*;

verus! {

/// What a source's annotations resolved to.
#[derive(Debug)]
pub struct SourceAnnotations {
    pub suppress: Vec<Ident>,
}

impl Default for SourceAnnotations {
    fn default() -> (annotations: Self)
        ensures
            annotations.suppress@ == Seq::<Ident>::empty(),
    {
        SourceAnnotations { suppress: Vec::new() }
    }
}

/// A source-level annotation that was refused.
#[derive(Debug)]
pub struct SourceAnnotationError {
    pub span: Span,
    pub origin: Origin,
    pub kind: SourceAnnotationErrorKind,
}

/// Why a source-level annotation was refused.
#[derive(Debug)]
pub enum SourceAnnotationErrorKind {
    Duplicate { name: Ident, first: Span },
    Unknown { name: Ident },
    NotSourceLevel { name: Ident },
    InvalidArguments { name: Ident, reason: String },
}

/// What a [`SourceAnnotationErrorKind`] says.
pub enum ErrorKindView {
    Duplicate { name: Seq<char>, first: Span },
    Unknown { name: Seq<char> },
    NotSourceLevel { name: Seq<char> },
    InvalidArguments { name: Seq<char>, reason: Seq<char> },
}

/// What a [`SourceAnnotationError`] says.
pub struct ErrorView {
    pub span: Span,
    pub origin: Origin,
    pub kind: ErrorKindView,
}

impl View for SourceAnnotationErrorKind {
    type V = ErrorKindView;

    open spec fn view(&self) -> ErrorKindView {
        match *self {
            SourceAnnotationErrorKind::Duplicate { name, first } => ErrorKindView::Duplicate {
                name: name@,
                first,
            },
            SourceAnnotationErrorKind::Unknown { name } => ErrorKindView::Unknown { name: name@ },
            SourceAnnotationErrorKind::NotSourceLevel { name } => ErrorKindView::NotSourceLevel {
                name: name@,
            },
            SourceAnnotationErrorKind::InvalidArguments { name, reason } => {
                ErrorKindView::InvalidArguments { name: name@, reason: reason@ }
            },
        }
    }
}

impl View for SourceAnnotationError {
    type V = ErrorView;

    open spec fn view(&self) -> ErrorView {
        ErrorView { span: self.span, origin: self.origin, kind: self.kind@ }
    }
}

/// What errors say, in order.
pub open spec fn error_views(errors: Seq<SourceAnnotationError>) -> Seq<ErrorView> {
    errors.map_values(|error: SourceAnnotationError| error@)
}

/// The error of `kind` at an annotation.
pub open spec fn error_at(annotation: AnnotationNode, kind: ErrorKindView) -> ErrorView {
    ErrorView { span: annotation.span, origin: annotation.origin, kind }
}

impl SourceAnnotationError {
    fn new(annotation: &AnnotationNode, kind: SourceAnnotationErrorKind) -> (error: Self)
        ensures
            error@ == error_at(*annotation, kind@),
    {
        SourceAnnotationError { span: annotation.span, origin: annotation.origin, kind }
    }

    /// What the diagnostic says at the annotation.
    pub open spec fn label_text(&self) -> Seq<char> {
        if self.kind is Duplicate {
            "duplicate source-level annotation"@
        } else {
            "in this source-level annotation"@
        }
    }

    pub fn label(&self) -> (text: &'static str)
        ensures
            text@ == self.label_text(),
    {
        match self.kind {
            SourceAnnotationErrorKind::Duplicate { .. } => "duplicate source-level annotation",
            _ => "in this source-level annotation",
        }
    }

    /// The message of this error.
    pub open spec fn message(&self) -> Seq<char> {
        match self.kind {
            SourceAnnotationErrorKind::Duplicate { name, .. } => "this source already has a '@["@
                + name@ + "]' annotation"@,
            SourceAnnotationErrorKind::Unknown { name } => "unknown annotation '"@ + name@ + "'"@,
            SourceAnnotationErrorKind::NotSourceLevel { name } => "'@"@ + name@
                + "' is not a source-level annotation"@,
            SourceAnnotationErrorKind::InvalidArguments { name, reason } => {
                "invalid arguments to '@["@ + name@ + "]': "@ + reason@
            },
        }
    }

    pub fn to_string(&self) -> (text: String)
        ensures
            text@ == self.message(),
    {
        match &self.kind {
            SourceAnnotationErrorKind::Duplicate { name, .. } => {
                let mut text: String = "this source already has a '@[".to_owned();
                text.append(name.as_ref());
                text.append("]' annotation");
                text
            },
            SourceAnnotationErrorKind::Unknown { name } => {
                let mut text: String = "unknown annotation '".to_owned();
                text.append(name.as_ref());
                text.append("'");
                text
            },
            SourceAnnotationErrorKind::NotSourceLevel { name } => {
                let mut text: String = "'@".to_owned();
                text.append(name.as_ref());
                text.append("' is not a source-level annotation");
                text
            },
            SourceAnnotationErrorKind::InvalidArguments { name, reason } => {
                let mut text: String = "invalid arguments to '@[".to_owned();
                text.append(name.as_ref());
                text.append("]': ");
                text.append(reason.as_str());
                text
            },
        }
    }
}

/// The position of the first annotation called `name`, from `from` on.
pub open spec fn first_named(annotations: Seq<AnnotationNode>, name: Seq<char>, from: int) -> Option<
    int,
>
    decreases annotations.len() - from,
{
    if from < 0 || from >= annotations.len() {
        None
    } else if annotations[from].name@ == name {
        Some(from)
    } else {
        first_named(annotations, name, from + 1)
    }
}

/// Whether an annotation has exactly one argument, and that positional.
pub open spec fn has_one_condition(annotation: AnnotationNode) -> bool {
    annotation.args@.len() == 1 && annotation.args@[0] is Positional
}

/// What the conditions of a source amount to: the position of the one there
/// is, or the error that the second one, or a malformed one, makes.
pub open spec fn condition_of(annotations: Seq<AnnotationNode>) -> Result<Option<int>, ErrorView> {
    match first_named(annotations, CONDITION@, 0) {
        None => Ok(None),
        Some(first) => match first_named(annotations, CONDITION@, first + 1) {
            Some(second) => Err(
                error_at(
                    annotations[second],
                    ErrorKindView::Duplicate {
                        name: annotations[second].name@,
                        first: annotations[first].span,
                    },
                ),
            ),
            None => if has_one_condition(annotations[first]) {
                Ok(Some(first))
            } else {
                Err(
                    error_at(
                        annotations[first],
                        ErrorKindView::InvalidArguments {
                            name: annotations[first].name@,
                            reason: "expected exactly one positional condition"@,
                        },
                    ),
                )
            },
        },
    }
}

fn find_named(annotations: &Vec<AnnotationNode>, name: &str, from: usize) -> (at: Option<usize>)
    ensures
        match at {
            Some(i) => first_named(annotations@, name@, from as int) == Some(i as int) && i
                < annotations.len(),
            None => first_named(annotations@, name@, from as int) is None,
        },
{
    let mut i: usize = from;
    while i < annotations.len()
        invariant
            from <= i,
            first_named(annotations@, name@, from as int) == first_named(
                annotations@,
                name@,
                i as int,
            ),
        decreases annotations.len() - i,
    {
        if same_text(annotations[i].name.as_ref(), name) {
            return Some(i);
        }
        i = i + 1;
    }
    None
}

/// The annotation that decides whether a source takes part, if there is one.
/// There is at most one, with exactly one positional argument.
pub fn source_condition(annotations: &Vec<AnnotationNode>) -> (condition: Result<
    Option<&AnnotationNode>,
    SourceAnnotationError,
>)
    ensures
        match condition {
            Ok(Some(found)) => exists|i: int|
                0 <= i < annotations@.len() && *found == #[trigger] annotations@[i]
                    && condition_of(annotations@) == Ok::<Option<int>, ErrorView>(Some(i)),
            Ok(None) => condition_of(annotations@) == Ok::<Option<int>, ErrorView>(None),
            Err(error) => condition_of(annotations@) == Err::<Option<int>, ErrorView>(error@),
        },
{
    match find_named(annotations, CONDITION, 0) {
        None => Ok(None),
        Some(first) => {
            if let Some(second) = find_named(annotations, CONDITION, first + 1) {
                return Err(
                    SourceAnnotationError::new(
                        &annotations[second],
                        SourceAnnotationErrorKind::Duplicate {
                            name: annotations[second].name.clone(),
                            first: annotations[first].span,
                        },
                    ),
                );
            }
            let annotation: &AnnotationNode = &annotations[first];
            let well_formed: bool = annotation.args.len() == 1 && match annotation.args[0] {
                AnnotationArg::Positional(_) => true,
                _ => false,
            };
            if !well_formed {
                return Err(
                    SourceAnnotationError::new(
                        annotation,
                        SourceAnnotationErrorKind::InvalidArguments {
                            name: annotation.name.clone(),
                            reason: "expected exactly one positional condition".to_owned(),
                        },
                    ),
                );
            }
            Ok(Some(annotation))
        },
    }
}

/// Why the annotation at `i` is refused as a whole, if it is.
pub open spec fn refusal(annotations: Seq<AnnotationNode>, i: int) -> Option<ErrorKindView> {
    let name = annotations[i].name@;
    let first = first_named(annotations, name, 0);
    if first is Some && first->0 < i {
        Some(ErrorKindView::Duplicate { name, first: annotations[first->0].span })
    } else if !recognized(name) {
        Some(ErrorKindView::Unknown { name })
    } else if name != SUPPRESS@ {
        Some(ErrorKindView::NotSourceLevel { name })
    } else {
        None
    }
}

/// The names that suppression arguments spell, in order.
pub open spec fn suppressed(args: Seq<AnnotationArg>) -> Seq<Seq<char>>
    decreases args.len(),
{
    if args.len() == 0 {
        Seq::empty()
    } else {
        match args.last().bare() {
            Some(name) => suppressed(args.drop_last()).push(name@),
            None => suppressed(args.drop_last()),
        }
    }
}

/// One error for each suppression argument that is not a bare name.
pub open spec fn argument_errors(annotation: AnnotationNode, args: Seq<AnnotationArg>) -> Seq<
    ErrorView,
>
    decreases args.len(),
{
    if args.len() == 0 {
        Seq::empty()
    } else {
        match args.last().bare() {
            Some(_) => argument_errors(annotation, args.drop_last()),
            None => argument_errors(annotation, args.drop_last()).push(
                error_at(
                    annotation,
                    ErrorKindView::InvalidArguments {
                        name: annotation.name@,
                        reason: "expected a bare warning name"@,
                    },
                ),
            ),
        }
    }
}

/// The warnings the first `n` annotations suppress.
pub open spec fn suppressions(annotations: Seq<AnnotationNode>, n: nat) -> Seq<Seq<char>>
    decreases n,
{
    if n == 0 {
        Seq::empty()
    } else {
        let before = suppressions(annotations, (n - 1) as nat);
        if annotations[n - 1].name@ == CONDITION@ || refusal(annotations, n - 1) is Some {
            before
        } else {
            before + suppressed(annotations[n - 1].args@)
        }
    }
}

/// The errors the first `n` annotations make.
pub open spec fn annotation_errors(annotations: Seq<AnnotationNode>, n: nat) -> Seq<ErrorView>
    decreases n,
{
    if n == 0 {
        Seq::empty()
    } else {
        let before = annotation_errors(annotations, (n - 1) as nat);
        if annotations[n - 1].name@ == CONDITION@ {
            before
        } else {
            match refusal(annotations, n - 1) {
                Some(kind) => before.push(error_at(annotations[n - 1], kind)),
                None => before + argument_errors(
                    annotations[n - 1],
                    annotations[n - 1].args@,
                ),
            }
        }
    }
}

fn refuse(annotations: &Vec<AnnotationNode>, i: usize) -> (kind: Option<SourceAnnotationErrorKind>)
    requires
        i < annotations@.len(),
    ensures
        match kind {
            Some(found) => refusal(annotations@, i as int) == Some(found@),
            None => refusal(annotations@, i as int) is None,
        },
{
    let name: &Ident = &annotations[i].name;
    if let Some(first) = find_named(annotations, name.as_ref(), 0) {
        if first < i {
            return Some(
                SourceAnnotationErrorKind::Duplicate {
                    name: name.clone(),
                    first: annotations[first].span,
                },
            );
        }
    }
    if !is_recognized(name.as_ref()) {
        Some(SourceAnnotationErrorKind::Unknown { name: name.clone() })
    } else if !same_text(name.as_ref(), SUPPRESS) {
        Some(SourceAnnotationErrorKind::NotSourceLevel { name: name.clone() })
    } else {
        None
    }
}

proof fn lemma_error_pushed(errors: Seq<SourceAnnotationError>, error: SourceAnnotationError)
    ensures
        error_views(errors.push(error)) == error_views(errors).push(error@),
{
    assert(error_views(errors.push(error)) =~= error_views(errors).push(error@));
}

proof fn lemma_name_pushed(names: Seq<Ident>, name: Ident)
    ensures
        names_view(names.push(name)) == names_view(names).push(name@),
{
    assert(names_view(names.push(name)) =~= names_view(names).push(name@));
}

/// The warnings a source's annotations suppress, and an error for each
/// annotation that is repeated, unknown, not meant for a source, or given
/// anything but bare names. Conditions are judged elsewhere.
pub fn resolve(annotations: &Vec<AnnotationNode>) -> (resolved: (
    SourceAnnotations,
    Vec<SourceAnnotationError>,
))
    ensures
        names_view(resolved.0.suppress@) == suppressions(annotations@, annotations@.len()),
        error_views(resolved.1@) == annotation_errors(annotations@, annotations@.len()),
{
    let mut suppress: Vec<Ident> = Vec::new();
    let mut errors: Vec<SourceAnnotationError> = Vec::new();
    let mut i: usize = 0;
    assert(names_view(suppress@) =~= Seq::empty());
    assert(error_views(errors@) =~= Seq::empty());
    while i < annotations.len()
        invariant
            i <= annotations@.len(),
            names_view(suppress@) == suppressions(annotations@, i as nat),
            error_views(errors@) == annotation_errors(annotations@, i as nat),
        decreases annotations.len() - i,
    {
        let annotation: &AnnotationNode = &annotations[i];
        if !same_text(annotation.name.as_ref(), CONDITION) {
            match refuse(annotations, i) {
                Some(kind) => {
                    let error = SourceAnnotationError::new(annotation, kind);
                    proof {
                        lemma_error_pushed(errors@, error);
                    }
                    errors.push(error);
                },
                None => {
                    let ghost names = names_view(suppress@);
                    let ghost views = error_views(errors@);
                    let args: &Vec<AnnotationArg> = &annotation.args;
                    let mut j: usize = 0;
                    assert(names + suppressed(args@.take(0)) =~= names);
                    assert(views + argument_errors(*annotation, args@.take(0)) =~= views);
                    while j < args.len()
                        invariant
                            j <= args@.len(),
                            *args == annotation.args,
                            names_view(suppress@) == names + suppressed(args@.take(j as int)),
                            error_views(errors@) == views + argument_errors(
                                *annotation,
                                args@.take(j as int),
                            ),
                        decreases args.len() - j,
                    {
                        let ghost front = args@.take(j as int);
                        assert(args@.take(j as int + 1).drop_last() =~= front);
                        match args[j].bare_name() {
                            Some(name) => {
                                let copy: Ident = name.clone();
                                proof {
                                    lemma_name_pushed(suppress@, copy);
                                    assert(names + suppressed(front).push(name@) =~= (names
                                        + suppressed(front)).push(name@));
                                }
                                suppress.push(copy);
                            },
                            None => {
                                let error = SourceAnnotationError::new(
                                    annotation,
                                    SourceAnnotationErrorKind::InvalidArguments {
                                        name: annotation.name.clone(),
                                        reason: "expected a bare warning name".to_owned(),
                                    },
                                );
                                proof {
                                    lemma_error_pushed(errors@, error);
                                    let known = argument_errors(*annotation, front);
                                    assert(views + known.push(error@) =~= (views + known).push(
                                        error@,
                                    ));
                                }
                                errors.push(error);
                            },
                        }
                        j = j + 1;
                    }
                    assert(args@.take(j as int) =~= args@);
                },
            }
        }
        i = i + 1;
    }
    (SourceAnnotations { suppress }, errors)
}

} // verus!
