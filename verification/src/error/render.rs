//! Turning a finding into a fully annotated diagnostic: a headline, a
//! primary label on the offending span, and -- only when it is *always*
//! true -- a help or note.

use crate::diagnostics::{Diagnostic, DiagnosticView};
use crate::error::TypeResolutionError;
use crate::error::kind::{aggregate_text, aggregate_word, printable_functions, AnalysisErrorKind};
use crate::phrases::{
    field_list, field_list_text, generic_name, generic_name_text, ident_commas, ident_commas_text,
    ident_list, ident_list_text, join, join_paths, path_text, paths_text, plural, plural_text,
    quoted_commas, quoted_commas_text, type_commas, type_commas_text, type_list, type_list_text,
};
use crate::resolved_type::{NumericKind, ResolvedFunctionType, ResolvedType};
use crate::resolver::ResolveError;
use crate::syntax::{Ident, Span};
use crate::text::{
    decimal, decimal_int, decimal_int_text, decimal_text, join_texts, joined, same_text, share,
    views,
};
use crate::type_text::{printable, printable_function, type_text};
use std::rc::Rc;
use vstd::prelude::*;

verus! {

/// The plain enum that could hold both types, where both are refined variants
/// of one: the variable was inferred to one specific variant, and declaring
/// it as the plain enum is exactly what holds any.
pub open spec fn plain_enum_name(target: ResolvedType, value: ResolvedType) -> Option<Seq<char>> {
    match (target, value) {
        (
            ResolvedType::Enum { cell: expected, variant: Some(_) },
            ResolvedType::Enum { cell: found, variant: Some(_) },
        ) => if expected.id == found.id {
            Some(expected.name@)
        } else {
            None
        },
        _ => None,
    }
}

fn plain_enum<'a>(target: &'a ResolvedType, value: &'a ResolvedType) -> (name: Option<&'a Ident>)
    ensures
        match name {
            Some(found) => plain_enum_name(*target, *value) == Some(found@),
            None => plain_enum_name(*target, *value) is None,
        },
{
    match (target, value) {
        (
            ResolvedType::Enum { cell: expected, variant: Some(_) },
            ResolvedType::Enum { cell: found, variant: Some(_) },
        ) => if expected.id == found.id {
            Some(&expected.name)
        } else {
            None
        },
        _ => None,
    }
}

fn is_char(ty: &ResolvedType) -> (r: bool)
    ensures
        r == (*ty is Char),
{
    match ty {
        ResolvedType::Char => true,
        _ => false,
    }
}

/// The inclusive value range of an integer type. A float's "range" is about
/// precision, not simple bounds, so it has none.
pub open spec fn range_text(ty: ResolvedType, pointer_bits: u32) -> Option<Seq<char>> {
    match ty.kind_of_number(pointer_bits) {
        Some(NumericKind::Float(_)) => None,
        None => None,
        _ => match ty.domain(pointer_bits) {
            Some((min, max)) => Some(decimal_int(min) + " to "@ + decimal_int(max)),
            None => None,
        },
    }
}

fn type_range(ty: &ResolvedType, pointer_bits: u32) -> (text: Option<String>)
    requires
        1 <= pointer_bits <= 126,
    ensures
        match text {
            Some(range) => range_text(*ty, pointer_bits) == Some(range@),
            None => range_text(*ty, pointer_bits) is None,
        },
{
    match ty.numeric_kind(pointer_bits) {
        Some(NumericKind::Float(_)) => None,
        None => None,
        _ => match ty.integer_domain(pointer_bits) {
            Some((min, max)) => {
                let mut text: String = decimal_int_text(min);
                text.append(" to ");
                text.append(decimal_int_text(max).as_str());
                Some(text)
            },
            None => None,
        },
    }
}

/// What each variant's list of values holds.
pub open spec fn variant_values_text(has_tag: bool) -> Seq<char> {
    if has_tag {
        "the tag, then one value per header field"@
    } else {
        "one value per header field"@
    }
}

fn variant_values(has_tag: bool) -> (text: &'static str)
    ensures
        text@ == variant_values_text(has_tag),
{
    if has_tag {
        "the tag, then one value per header field"
    } else {
        "one value per header field"
    }
}

/// A slot to fill for each field.
pub open spec fn field_slots_text(fields: Seq<Ident>) -> Seq<char> {
    joined(fields.map_values(|field: Ident| field@ + ": ...;"@), " "@)
}

fn field_slots(fields: &Vec<Ident>) -> (text: String)
    ensures
        text@ == field_slots_text(fields@),
{
    let ghost all = fields@.map_values(|field: Ident| field@ + ": ...;"@);
    let mut items: Vec<String> = Vec::new();
    let mut i: usize = 0;
    while i < fields.len()
        invariant
            i <= fields@.len(),
            all == fields@.map_values(|field: Ident| field@ + ": ...;"@),
            views(items@) =~= all.take(i as int),
        decreases fields.len() - i,
    {
        let ghost before = items@;
        let mut item: String = fields[i].as_ref().to_owned();
        item.append(": ...;");
        items.push(item);
        assert(views(items@) =~= views(before).push(items@.last()@));
        i = i + 1;
    }
    assert(views(items@) =~= all);
    join_texts(&items, " ")
}

/// One note for each candidate of an overloaded name.
pub open spec fn candidate_texts(candidates: Seq<Rc<ResolvedFunctionType>>) -> Seq<Seq<char>> {
    candidates.map_values(
        |candidate: Rc<ResolvedFunctionType>|
            "candidate: "@ + type_text(ResolvedType::Function(candidate), false),
    )
}

fn candidate_notes(candidates: &Vec<Rc<ResolvedFunctionType>>) -> (notes: Vec<String>)
    requires
        printable_functions(candidates@),
    ensures
        views(notes@) == candidate_texts(candidates@),
{
    let mut notes: Vec<String> = Vec::new();
    let mut i: usize = 0;
    while i < candidates.len()
        invariant
            i <= candidates@.len(),
            printable_functions(candidates@),
            views(notes@) =~= candidate_texts(candidates@).take(i as int),
        decreases candidates.len() - i,
    {
        let ghost before = notes@;
        assert(printable_function(*candidates@[i as int]));
        let candidate = ResolvedType::Function(share(&candidates[i]));
        assert(printable(candidate));
        let mut note: String = "candidate: ".to_owned();
        note.append(candidate.to_string().as_str());
        notes.push(note);
        assert(views(notes@) =~= views(before).push(notes@.last()@));
        i = i + 1;
    }
    assert(views(notes@) =~= candidate_texts(candidates@));
    notes
}

/// One note for each spec of an object that declares `function`.
pub open spec fn member_texts(specs: Seq<Ident>, function: Seq<char>) -> Seq<Seq<char>> {
    specs.map_values(|spec_name: Ident| "candidate: `"@ + spec_name@ + "::"@ + function + "`"@)
}

fn member_notes(specs: &Vec<Ident>, function: &Ident) -> (notes: Vec<String>)
    ensures
        views(notes@) == member_texts(specs@, function@),
{
    let mut notes: Vec<String> = Vec::new();
    let mut i: usize = 0;
    while i < specs.len()
        invariant
            i <= specs@.len(),
            views(notes@) =~= member_texts(specs@, function@).take(i as int),
        decreases specs.len() - i,
    {
        let ghost before = notes@;
        let mut note: String = "candidate: `".to_owned();
        note.append(specs[i].as_ref());
        note.append("::");
        note.append(function.as_ref());
        note.append("`");
        notes.push(note);
        assert(views(notes@) =~= views(before).push(notes@.last()@));
        i = i + 1;
    }
    assert(views(notes@) =~= member_texts(specs@, function@));
    notes
}

/// One note for each spec that supplies a static function.
pub open spec fn static_texts(target: Seq<char>, specs: Seq<Ident>, function: Seq<char>) -> Seq<
    Seq<char>,
> {
    specs.map_values(
        |spec_name: Ident|
            "candidate: `<"@ + target + " : "@ + spec_name@ + ">::"@ + function + "()`"@,
    )
}

fn static_notes(target: &String, specs: &Vec<Ident>, function: &Ident) -> (notes: Vec<String>)
    ensures
        views(notes@) == static_texts(target@, specs@, function@),
{
    let mut notes: Vec<String> = Vec::new();
    let mut i: usize = 0;
    while i < specs.len()
        invariant
            i <= specs@.len(),
            views(notes@) =~= static_texts(target@, specs@, function@).take(i as int),
        decreases specs.len() - i,
    {
        let ghost before = notes@;
        let mut note: String = "candidate: `<".to_owned();
        note.append(target.as_str());
        note.append(" : ");
        note.append(specs[i].as_ref());
        note.append(">::");
        note.append(function.as_ref());
        note.append("()`");
        notes.push(note);
        assert(views(notes@) =~= views(before).push(notes@.last()@));
        i = i + 1;
    }
    assert(views(notes@) =~= static_texts(target@, specs@, function@));
    notes
}

/// One note for each step of a conformance cycle: a goal and the goal it
/// requires. The final link repeats the first, showing the closure.
pub open spec fn cycle_texts(chain: Seq<(String, Ident)>) -> Seq<Seq<char>> {
    Seq::new(
        if chain.len() == 0 {
            0
        } else {
            (chain.len() - 1) as nat
        },
        |i: int|
            "proving '"@ + chain[i].0@ + ": "@ + chain[i].1@ + "' requires '"@ + chain[i + 1].0@
                + ": "@ + chain[i + 1].1@ + "'"@,
    )
}

fn cycle_notes(chain: &Vec<(String, Ident)>) -> (notes: Vec<String>)
    ensures
        views(notes@) == cycle_texts(chain@),
{
    let mut notes: Vec<String> = Vec::new();
    let mut i: usize = 0;
    while i < chain.len() && i + 1 < chain.len()
        invariant
            i <= chain@.len(),
            chain@.len() > 0 ==> i < chain@.len(),
            views(notes@) =~= cycle_texts(chain@).take(i as int),
        decreases chain.len() - i,
    {
        let ghost before = notes@;
        let mut note: String = "proving '".to_owned();
        note.append(chain[i].0.as_str());
        note.append(": ");
        note.append(chain[i].1.as_ref());
        note.append("' requires '");
        note.append(chain[i + 1].0.as_str());
        note.append(": ");
        note.append(chain[i + 1].1.as_ref());
        note.append("'");
        notes.push(note);
        assert(views(notes@) =~= views(before).push(notes@.last()@));
        i = i + 1;
    }
    assert(views(notes@) =~= cycle_texts(chain@));
    notes
}

/// The last name of a path, or nothing.
pub open spec fn last_name(path: Seq<Ident>) -> Seq<char> {
    if path.len() == 0 {
        ""@
    } else {
        path.last()@
    }
}

fn last_segment(path: &Vec<Ident>) -> (text: &str)
    ensures
        text@ == last_name(path@),
{
    if path.len() == 0 {
        ""
    } else {
        path[path.len() - 1].as_ref()
    }
}

/// The first path, or nothing.
pub open spec fn first_path(paths: Seq<Vec<Ident>>) -> Seq<char> {
    if paths.len() == 0 {
        ""@
    } else {
        path_text(paths[0]@)
    }
}

fn first_candidate(paths: &Vec<Vec<Ident>>) -> (text: String)
    ensures
        text@ == first_path(paths@),
{
    if paths.len() == 0 {
        "".to_owned()
    } else {
        join(&paths[0])
    }
}

/// A primary label, where there is a span to put it on.
pub open spec fn labelled_at(d: DiagnosticView, span: Option<Span>, message: Seq<char>) -> DiagnosticView {
    match span {
        Some(at) => d.with_label(at, message),
        None => d,
    }
}

fn label_at(d: Diagnostic, span: Option<Span>, message: String) -> (labelled: Diagnostic)
    ensures
        labelled@ == labelled_at(d@, span, message@),
{
    match span {
        Some(at) => d.with_label(at, message),
        None => d,
    }
}

impl ResolveError {
    /// The renderable form of this error.
    pub open spec fn diagnostic(&self, span: Option<Span>) -> DiagnosticView {
        let d = DiagnosticView::error(self.message());
        match *self {
            ResolveError::UnknownModule(path) => {
                let d = labelled_at(d, span, "module not found"@);
                let d = d.with_note("modules are looked up as `"@
                    + last_name(path@)
                    + ".omg` files or `"@
                    + last_name(path@)
                    + "/` directories under the compiler's search roots"@);
                d
            },
            ResolveError::UnknownItem { module, .. } => {
                let d = labelled_at(d, span, "not found in `"@
                    + path_text(module@)
                    + "`"@);
                d
            },
            ResolveError::NotVisible { .. } => {
                let d = labelled_at(d, span, "not visible from this module"@);
                d
            },
            ResolveError::Cycle(_) => {
                let d = labelled_at(d, span, "this import completes the cycle"@);
                let d = d.with_note("modules whose imports mutually depend on each other cannot be resolved"@);
                d
            },
            ResolveError::AmbiguousModule(path) => {
                let d = labelled_at(d, span, "ambiguous module reference"@);
                let d = d.with_help("keep either the `"@
                    + last_name(path@)
                    + ".omg` file or the `"@
                    + last_name(path@)
                    + "/` directory, not both"@);
                d
            },
            ResolveError::LoadFailed { .. } => {
                let d = labelled_at(d, span, "imported from here"@);
                d
            },
            ResolveError::RecursiveTypeWithoutIndirection { item, .. } => {
                let d = labelled_at(d, span, "`"@
                    + item@
                    + "` includes itself by value, giving it infinite size"@);
                let d = d.with_help("insert indirection (e.g. a pointer: `*"@
                    + item@
                    + "`) somewhere in the cycle"@);
                d
            },
            ResolveError::ItemFailed { item, .. } => {
                let d = labelled_at(d, span, "cannot be used because of its own error"@);
                let d = d.with_note("`"@
                    + item@
                    + "`'s own error is reported where it is defined"@);
                d
            },
            ResolveError::GenericArgCountMismatch { expected, .. } => {
                let d = labelled_at(d, span, "expected "@
                    + decimal(expected as nat)
                    + " type "@
                    + plural_text(expected as nat, "argument"@));
                d
            },
            ResolveError::SpecDependencyCycle { spec, .. } => {
                let d = labelled_at(d, span, "`"@
                    + spec@
                    + "` depends on itself, directly or through another spec's own dependency list"@);
                let d = d.with_help("break the cycle by removing one of the dependencies, or depending on a common base spec instead"@);
                d
            },
            ResolveError::SpecNotImplemented { missing, .. } => {
                let d = labelled_at(d, span, "does not implement this spec"@);
                let d = d.with_note("missing: "@
                    + ident_commas_text(missing@));
                d
            },
            ResolveError::AmbiguousAmbientName { candidates, .. } => {
                let d = labelled_at(d, span, "ambiguous name"@);
                let d = d.with_note("exposed by: "@
                    + paths_text(candidates@, ", "@));
                let d = d.with_help("write the fully-qualified path instead, e.g. '"@
                    + first_path(candidates@)
                    + "'"@);
                d
            },
            _ => labelled_at(d, span, self.message()),
        }
    }
}

/// The renderable form of a module-resolution failure. `span` is the
/// referencing site (an `import` statement, a qualified path, ...) when the
/// caller has one; a `None` renders headline/footers only.
pub fn resolve_error_diagnostic(error: &ResolveError, span: Option<Span>) -> (diagnostic: Diagnostic)
    ensures
        diagnostic@ == error.diagnostic(span),
{
    let d = Diagnostic::error(error.to_string());
    match error {
        ResolveError::UnknownModule(path) => {
            let d = label_at(d, span, "module not found".to_owned());
            let d = d.with_note({
                let mut out: String = "modules are looked up as `".to_owned();
                out.append(last_segment(path));
                out.append(".omg` files or `");
                out.append(last_segment(path));
                out.append("/` directories under the compiler's search roots");
                out
            });
            d
        },
        ResolveError::UnknownItem { module, .. } => {
            let d = label_at(d, span, {
                let mut out: String = "not found in `".to_owned();
                out.append(join(module).as_str());
                out.append("`");
                out
            });
            d
        },
        ResolveError::NotVisible { .. } => {
            let d = label_at(d, span, "not visible from this module".to_owned());
            d
        },
        ResolveError::Cycle(_) => {
            let d = label_at(d, span, "this import completes the cycle".to_owned());
            let d = d.with_note("modules whose imports mutually depend on each other cannot be resolved".to_owned());
            d
        },
        ResolveError::AmbiguousModule(path) => {
            let d = label_at(d, span, "ambiguous module reference".to_owned());
            let d = d.with_help({
                let mut out: String = "keep either the `".to_owned();
                out.append(last_segment(path));
                out.append(".omg` file or the `");
                out.append(last_segment(path));
                out.append("/` directory, not both");
                out
            });
            d
        },
        ResolveError::LoadFailed { .. } => {
            let d = label_at(d, span, "imported from here".to_owned());
            d
        },
        ResolveError::RecursiveTypeWithoutIndirection { item, .. } => {
            let d = label_at(d, span, {
                let mut out: String = "`".to_owned();
                out.append(item.as_ref());
                out.append("` includes itself by value, giving it infinite size");
                out
            });
            let d = d.with_help({
                let mut out: String = "insert indirection (e.g. a pointer: `*".to_owned();
                out.append(item.as_ref());
                out.append("`) somewhere in the cycle");
                out
            });
            d
        },
        ResolveError::ItemFailed { item, .. } => {
            let d = label_at(d, span, "cannot be used because of its own error".to_owned());
            let d = d.with_note({
                let mut out: String = "`".to_owned();
                out.append(item.as_ref());
                out.append("`'s own error is reported where it is defined");
                out
            });
            d
        },
        ResolveError::GenericArgCountMismatch { expected, .. } => {
            let d = label_at(d, span, {
                let mut out: String = "expected ".to_owned();
                out.append(decimal_text(*expected as u128).as_str());
                out.append(" type ");
                out.append(plural(*expected, "argument").as_str());
                out
            });
            d
        },
        ResolveError::SpecDependencyCycle { spec, .. } => {
            let d = label_at(d, span, {
                let mut out: String = "`".to_owned();
                out.append(spec.as_ref());
                out.append("` depends on itself, directly or through another spec's own dependency list");
                out
            });
            let d = d.with_help("break the cycle by removing one of the dependencies, or depending on a common base spec instead".to_owned());
            d
        },
        ResolveError::SpecNotImplemented { missing, .. } => {
            let d = label_at(d, span, "does not implement this spec".to_owned());
            let d = d.with_note({
                let mut out: String = "missing: ".to_owned();
                out.append(ident_commas(missing).as_str());
                out
            });
            d
        },
        ResolveError::AmbiguousAmbientName { candidates, .. } => {
            let d = label_at(d, span, "ambiguous name".to_owned());
            let d = d.with_note({
                let mut out: String = "exposed by: ".to_owned();
                out.append(join_paths(candidates, ", ").as_str());
                out
            });
            let d = d.with_help({
                let mut out: String = "write the fully-qualified path instead, e.g. '".to_owned();
                out.append(first_candidate(candidates).as_str());
                out.append("'");
                out
            });
            d
        },
        _ => label_at(d, span, error.to_string()),
    }
}

impl TypeResolutionError {
    /// The renderable form of this error.
    pub open spec fn diagnostic(&self, span: Span) -> DiagnosticView {
        let d = DiagnosticView::error(self.message());
        match *self {
            TypeResolutionError::ModuleResolution(e) => e.diagnostic(Some(span)),
            TypeResolutionError::UnrecognizedNamedType { name, similar } => {
                let d = d.with_label(span, "not found in this scope"@);
                let d = match similar {
                    Some(name) => d.with_help("a type with a similar name exists: `"@
                        + name@
                        + "`"@),
                    None => d,
                };
                d
            },
            TypeResolutionError::NotAType(_) => {
                let d = d.with_label(span, "expected a type, found a value"@);
                d
            },
            TypeResolutionError::NoSuchVariantForType { enum_name, name, similar } => {
                let d = d.with_label(span, "not found in `"@
                    + enum_name@
                    + "`"@);
                let d = match similar {
                    Some(name) => d.with_help("a variant with a similar name exists: `"@
                        + name@
                        + "`"@),
                    None => d,
                };
                d
            },
            TypeResolutionError::NotASpec(_) => {
                let d = d.with_label(span, "not a spec"@);
                let d = d.with_help("`spec *...`'s pointee must name a spec, e.g. `spec *Animal`"@);
                d
            },
            TypeResolutionError::SpecNotObjectSafe(_) => {
                let d = d.with_label(span, "not object-safe"@);
                let d = d.with_help("use a generic bound (`T: ...`) or `spec T` static dispatch instead"@);
                d
            },
            TypeResolutionError::SpecStaticNotAllowedHere(_) => {
                let d = d.with_label(span, "`spec ...` (static dispatch) is not a concrete type, and a function definition must name one"@);
                let d = d.with_help("name the concrete type this returns, or take the caller's choice as a bound generic parameter (`f<T: Animal>() => T`)"@);
                d
            },
            TypeResolutionError::SpecUsedAsValueType(name) => {
                let d = d.with_label(span, "a spec has no size or representation on its own"@);
                let d = d.with_help("use `spec *"@
                    + name@
                    + "`/`spec *mut "@
                    + name@
                    + "` for dynamic dispatch, or a generic bound (`T: "@
                    + name@
                    + "`)"@);
                d
            },
            TypeResolutionError::NeverNotAllowedHere => {
                let d = d.with_label(span, "`never` used outside a function's own return type"@);
                let d = d.with_help("there is no such thing as a `never`-typed value -- only a function/method/extern/gap may declare `=> never`"@);
                d
            },
            TypeResolutionError::BareUnsizedArray => {
                let d = d.with_label(span, "unsized array type used on its own"@);
                let d = d.with_help("write `*[]T` (a slice), or use `[]T` only as a declaration's type annotation with an array-literal initializer to infer its length"@);
                d
            },
            TypeResolutionError::BareUnknownSizeArray => {
                let d = d.with_label(span, "unknown-size array type used on its own"@);
                let d = d.with_help("write `*[?]T` (a pointer to an unsized array) instead"@);
                d
            },
            TypeResolutionError::ModuleNotImported { name, similar } => {
                let d = d.with_label(span, "this module is not in scope"@);
                let d = d.with_help("add `import "@
                    + name@
                    + ";` at the top of the file"@);
                let d = match similar {
                    Some(alias) => d.with_help("an imported module with a similar name exists: `"@
                        + alias@
                        + "`"@),
                    None => d,
                };
                d
            },
            TypeResolutionError::InvalidArrayLength { .. } => {
                let d = d.with_label(span, "array size out of range"@);
                let d = d.with_note("an array's length must fit in a `u32`"@);
                d
            },
            _ => d.with_label(span, self.message()),
        }
    }
}

fn type_resolution_diagnostic(error: &TypeResolutionError, span: Span) -> (diagnostic: Diagnostic)
    requires
        error.printable(),
    ensures
        diagnostic@ == error.diagnostic(span),
{
    let d = Diagnostic::error(error.to_string());
    match error {
        TypeResolutionError::ModuleResolution(e) => resolve_error_diagnostic(e, Some(span)),
        TypeResolutionError::UnrecognizedNamedType { name, similar } => {
            let d = d.with_label(span, "not found in this scope".to_owned());
            let d = match similar {
                Some(name) => d.with_help({
                    let mut out: String = "a type with a similar name exists: `".to_owned();
                    out.append(name.as_ref());
                    out.append("`");
                    out
                }),
                None => d,
            };
            d
        },
        TypeResolutionError::NotAType(_) => {
            let d = d.with_label(span, "expected a type, found a value".to_owned());
            d
        },
        TypeResolutionError::NoSuchVariantForType { enum_name, name, similar } => {
            let d = d.with_label(span, {
                let mut out: String = "not found in `".to_owned();
                out.append(enum_name.as_ref());
                out.append("`");
                out
            });
            let d = match similar {
                Some(name) => d.with_help({
                    let mut out: String = "a variant with a similar name exists: `".to_owned();
                    out.append(name.as_ref());
                    out.append("`");
                    out
                }),
                None => d,
            };
            d
        },
        TypeResolutionError::NotASpec(_) => {
            let d = d.with_label(span, "not a spec".to_owned());
            let d = d.with_help("`spec *...`'s pointee must name a spec, e.g. `spec *Animal`".to_owned());
            d
        },
        TypeResolutionError::SpecNotObjectSafe(_) => {
            let d = d.with_label(span, "not object-safe".to_owned());
            let d = d.with_help("use a generic bound (`T: ...`) or `spec T` static dispatch instead".to_owned());
            d
        },
        TypeResolutionError::SpecStaticNotAllowedHere(_) => {
            let d = d.with_label(span, "`spec ...` (static dispatch) is not a concrete type, and a function definition must name one".to_owned());
            let d = d.with_help("name the concrete type this returns, or take the caller's choice as a bound generic parameter (`f<T: Animal>() => T`)".to_owned());
            d
        },
        TypeResolutionError::SpecUsedAsValueType(name) => {
            let d = d.with_label(span, "a spec has no size or representation on its own".to_owned());
            let d = d.with_help({
                let mut out: String = "use `spec *".to_owned();
                out.append(name.as_ref());
                out.append("`/`spec *mut ");
                out.append(name.as_ref());
                out.append("` for dynamic dispatch, or a generic bound (`T: ");
                out.append(name.as_ref());
                out.append("`)");
                out
            });
            d
        },
        TypeResolutionError::NeverNotAllowedHere => {
            let d = d.with_label(span, "`never` used outside a function's own return type".to_owned());
            let d = d.with_help("there is no such thing as a `never`-typed value -- only a function/method/extern/gap may declare `=> never`".to_owned());
            d
        },
        TypeResolutionError::BareUnsizedArray => {
            let d = d.with_label(span, "unsized array type used on its own".to_owned());
            let d = d.with_help("write `*[]T` (a slice), or use `[]T` only as a declaration's type annotation with an array-literal initializer to infer its length".to_owned());
            d
        },
        TypeResolutionError::BareUnknownSizeArray => {
            let d = d.with_label(span, "unknown-size array type used on its own".to_owned());
            let d = d.with_help("write `*[?]T` (a pointer to an unsized array) instead".to_owned());
            d
        },
        TypeResolutionError::ModuleNotImported { name, similar } => {
            let d = d.with_label(span, "this module is not in scope".to_owned());
            let d = d.with_help({
                let mut out: String = "add `import ".to_owned();
                out.append(name.as_ref());
                out.append(";` at the top of the file");
                out
            });
            let d = match similar {
                Some(alias) => d.with_help({
                    let mut out: String = "an imported module with a similar name exists: `".to_owned();
                    out.append(alias.as_ref());
                    out.append("`");
                    out
                }),
                None => d,
            };
            d
        },
        TypeResolutionError::InvalidArrayLength { .. } => {
            let d = d.with_label(span, "array size out of range".to_owned());
            let d = d.with_note("an array's length must fit in a `u32`".to_owned());
            d
        },
        _ => d.with_label(span, error.to_string()),
    }
}

impl AnalysisErrorKind {
    /// Whether this error can be rendered: every type it names can be written,
    /// and an ambiguity through a spec object names the specs.
    pub open spec fn renderable(&self) -> bool {
        &&& self.printable()
        &&& match *self {
            AnalysisErrorKind::AmbiguousSpecObjectMethod { specs, .. } => specs@.len() > 0,
            _ => true,
        }
    }

    /// The labels and footers of errors in annotations, glue, conformances and compile-time values.
    pub open spec fn item_annotated(&self, d: DiagnosticView, span: Span, pointer_bits: u32) -> DiagnosticView {
        match *self {
            AnalysisErrorKind::UnknownAnnotation { name } => {
                let d = d.with_label(span, "'@"@
                    + name@
                    + "' is not a recognized annotation"@);
                d
            },
            AnalysisErrorKind::AnnotationNotApplicable { name, found, allowed } => {
                let d = d.with_label(span, "cannot be used on "@
                    + found@);
                let d = d.with_note("'@"@
                    + name@
                    + "' only applies to "@
                    + allowed@);
                d
            },
            AnalysisErrorKind::DuplicateAnnotation { name } => {
                let d = d.with_label(span, "'@"@
                    + name@
                    + "' is already applied to this item"@);
                d
            },
            AnalysisErrorKind::InvalidAnnotationArgs { name, reason } => {
                let d = d.with_label(span, "'@"@
                    + name@
                    + "' "@
                    + reason@);
                d
            },
            AnalysisErrorKind::ManglingDisabledOnGeneric => {
                let d = d.with_label(span, "cannot disable mangling on a generic function"@);
                let d = d.with_note("the compiler-generated instantiation suffix is the only thing keeping distinct instantiations from colliding on one symbol"@);
                d
            },
            AnalysisErrorKind::ManglingDisabledOnMethod => {
                let d = d.with_label(span, "cannot disable mangling on a struct/enum/union method"@);
                let d = d.with_help("only top-level functions can disable mangling for now"@);
                d
            },
            AnalysisErrorKind::ManglingForcedOnGeneric => {
                let d = d.with_label(span, "cannot force a mangled symbol name on a generic function"@);
                let d = d.with_note("every instantiation would share the exact same hardcoded symbol -- a guaranteed multiple-definition error"@);
                d
            },
            AnalysisErrorKind::GlueTargetNotGap { .. } => {
                let d = d.with_label(span, "this path must name a 'gap' declaration"@);
                d
            },
            AnalysisErrorKind::GlueMissingFunction { function, .. } => {
                let d = d.with_label(span, "missing required function '"@
                    + function@
                    + "'"@);
                d
            },
            AnalysisErrorKind::GlueExtraFunction { function, .. } => {
                let d = d.with_label(span, "'"@
                    + function@
                    + "' is not declared by this gap"@);
                d
            },
            AnalysisErrorKind::GlueFunctionSignatureMismatch { function, .. } => {
                let d = d.with_label(span, "'"@
                    + function@
                    + "' has a different signature in the gap"@);
                d
            },
            AnalysisErrorKind::ConformanceOrphanViolation { target_package, spec_package } => {
                let d = d.with_label(span, "neither the target type nor the spec is local to this package"@);
                let d = d.with_note("target package: '"@
                    + target_package@
                    + "'; spec package: '"@
                    + spec_package@
                    + "'"@);
                let d = d.with_help("declare the conform in one of those two packages"@);
                d
            },
            AnalysisErrorKind::ConformTargetNotAType => {
                let d = d.with_label(span, "this must resolve to a concrete type"@);
                d
            },
            AnalysisErrorKind::DuplicateConformance { previous, .. } => {
                let d = d.with_label(span, "this conform duplicates an existing one"@);
                let d = d.with_secondary_label(previous, "the first conform is here"@);
                d
            },
            AnalysisErrorKind::ConformanceExtraFunction { spec, function } => {
                let d = d.with_label(span, "'"@
                    + function@
                    + "' is not declared by '"@
                    + spec@
                    + "'"@);
                d
            },
            AnalysisErrorKind::UnconstrainedConformanceParameter { parameter } => {
                let d = d.with_label(span, "'"@
                    + parameter@
                    + "' is not fixed by the conform target"@);
                let d = d.with_help("mention this parameter in the target, or remove it from the conform declaration"@);
                d
            },
            AnalysisErrorKind::AmbiguousConformance { target, first, .. } => {
                let d = d.with_label(span, "this conform overlaps another one for `"@
                    + target@
                    + "`"@);
                let d = d.with_secondary_label(first, "the other matching conform is here"@);
                let d = d.with_note("neither conform is more specific for `"@
                    + target@
                    + "`"@);
                d
            },
            AnalysisErrorKind::ConformanceCycle { chain, .. } => {
                let d = d.with_label(span, "this bound re-enters a conformance already being checked"@);
                let d = d.with_notes(cycle_texts(chain@));
                d
            },
            AnalysisErrorKind::BlanketConformanceForeignSpec { spec_package } => {
                let d = d.with_label(span, "a blanket conform may only implement a spec declared in this package"@);
                let d = d.with_note("this spec belongs to package '"@
                    + spec_package@
                    + "'"@);
                let d = d.with_help("declare the blanket alongside that spec, or implement a package-local spec instead"@);
                d
            },
            AnalysisErrorKind::PrimitiveOutsideCore => {
                let d = d.with_label(span, "primitive blocks belong to the core package"@);
                d
            },
            AnalysisErrorKind::PrimitiveTargetNotAllowed { .. } => {
                let d = d.with_label(span, "only built-in scalar, `bool`, `char`, `void`, `never`, `str`, and slice types are allowed"@);
                d
            },
            AnalysisErrorKind::DuplicatePrimitiveTarget { previous, .. } => {
                let d = d.with_label(span, "this primitive target already has a declaration block"@);
                let d = d.with_secondary_label(previous, "the first block is here"@);
                d
            },
            AnalysisErrorKind::AmbiguousConformanceStatic { target, function, specs } => {
                let d = d.with_label(span, "more than one conforming spec provides this static function"@);
                let d = d.with_note("declared by: "@
                    + ident_commas_text(specs@));
                let d = d.with_notes(static_texts(target@, specs@, function@));
                let d = d.with_help("name the one you mean with the fully-qualified spelling"@);
                d
            },
            AnalysisErrorKind::MethodNotInScope { method, spec, ty } => {
                let d = d.with_label(span, "'"@
                    + method@
                    + "' is supplied by '"@
                    + spec@
                    + "'"@);
                let d = d.with_help("call '<"@
                    + type_text(ty, false)
                    + " : "@
                    + spec@
                    + ">::"@
                    + method@
                    + "(value, ...)', or add a generic bound that includes '"@
                    + spec@
                    + "'"@);
                d
            },
            AnalysisErrorKind::MultipleGluesForGap { glues, .. } => {
                let d = d.with_label(span, "this gap has more than one glue implementation"@);
                let d = d.with_note("found: "@
                    + quoted_commas_text(glues@, "'"@));
                let d = d.with_help("exactly one glue declaration is allowed per gap, project-wide -- remove one"@);
                d
            },
            AnalysisErrorKind::CompEvalFailed { trace, .. } => {
                let d = d.with_label(span, "cannot be evaluated at compile time"@);
                let d = d.with_secondary_labels(trace@, "required by this compile-time call"@);
                d
            },
            AnalysisErrorKind::MutCompBinding => {
                let d = d.with_label(span, "'comp' binding cannot be 'mut'"@);
                let d = d.with_note("a 'comp' binding has no storage of its own -- every use is substituted with its already-known value at compile time, so a later mutation could never be observed"@);
                d
            },
            AnalysisErrorKind::TopLevelValueNotComp => {
                let d = d.with_label(span, "this value isn't known at compile time"@);
                let d = d.with_help("write 'comp value' (e.g. 'ident := comp value;' or 'ident : Type = comp value;') if the value should be computed at compile time but still get real, mutable-if-'mut' storage, or 'comp ident := comp value;' for a no-storage substituted binding instead -- a runtime-computed top-level global isn't supported"@);
                d
            },
            AnalysisErrorKind::ZeroSizedAggregate { name, is_union } => {
                let d = d.with_label(span, "`"@
                    + name@
                    + "` has no sized fields"@);
                let d = d.with_help("a "@
                    + aggregate_text(is_union)
                    + " must hold at least one field with nonzero size -- use 'marker' to declare a type with no data"@);
                d
            },
            _ => d.with_label(span, self.message()),
        }
    }

    fn item_diagnostic(&self, d: Diagnostic, span: Span, pointer_bits: u32) -> (diagnostic: Diagnostic)
        requires
            self.renderable(),
            1 <= pointer_bits <= 126,
        ensures
            diagnostic@ == self.item_annotated(d@, span, pointer_bits),
    {
        match self {
            AnalysisErrorKind::UnknownAnnotation { name } => {
                let d = d.with_label(span, {
                    let mut out: String = "'@".to_owned();
                    out.append(name.as_ref());
                    out.append("' is not a recognized annotation");
                    out
                });
                d
            },
            AnalysisErrorKind::AnnotationNotApplicable { name, found, allowed } => {
                let d = d.with_label(span, {
                    let mut out: String = "cannot be used on ".to_owned();
                    out.append(found.as_str());
                    out
                });
                let d = d.with_note({
                    let mut out: String = "'@".to_owned();
                    out.append(name.as_ref());
                    out.append("' only applies to ");
                    out.append(allowed.as_str());
                    out
                });
                d
            },
            AnalysisErrorKind::DuplicateAnnotation { name } => {
                let d = d.with_label(span, {
                    let mut out: String = "'@".to_owned();
                    out.append(name.as_ref());
                    out.append("' is already applied to this item");
                    out
                });
                d
            },
            AnalysisErrorKind::InvalidAnnotationArgs { name, reason } => {
                let d = d.with_label(span, {
                    let mut out: String = "'@".to_owned();
                    out.append(name.as_ref());
                    out.append("' ");
                    out.append(reason.as_str());
                    out
                });
                d
            },
            AnalysisErrorKind::ManglingDisabledOnGeneric => {
                let d = d.with_label(span, "cannot disable mangling on a generic function".to_owned());
                let d = d.with_note("the compiler-generated instantiation suffix is the only thing keeping distinct instantiations from colliding on one symbol".to_owned());
                d
            },
            AnalysisErrorKind::ManglingDisabledOnMethod => {
                let d = d.with_label(span, "cannot disable mangling on a struct/enum/union method".to_owned());
                let d = d.with_help("only top-level functions can disable mangling for now".to_owned());
                d
            },
            AnalysisErrorKind::ManglingForcedOnGeneric => {
                let d = d.with_label(span, "cannot force a mangled symbol name on a generic function".to_owned());
                let d = d.with_note("every instantiation would share the exact same hardcoded symbol -- a guaranteed multiple-definition error".to_owned());
                d
            },
            AnalysisErrorKind::GlueTargetNotGap { .. } => {
                let d = d.with_label(span, "this path must name a 'gap' declaration".to_owned());
                d
            },
            AnalysisErrorKind::GlueMissingFunction { function, .. } => {
                let d = d.with_label(span, {
                    let mut out: String = "missing required function '".to_owned();
                    out.append(function.as_ref());
                    out.append("'");
                    out
                });
                d
            },
            AnalysisErrorKind::GlueExtraFunction { function, .. } => {
                let d = d.with_label(span, {
                    let mut out: String = "'".to_owned();
                    out.append(function.as_ref());
                    out.append("' is not declared by this gap");
                    out
                });
                d
            },
            AnalysisErrorKind::GlueFunctionSignatureMismatch { function, .. } => {
                let d = d.with_label(span, {
                    let mut out: String = "'".to_owned();
                    out.append(function.as_ref());
                    out.append("' has a different signature in the gap");
                    out
                });
                d
            },
            AnalysisErrorKind::ConformanceOrphanViolation { target_package, spec_package } => {
                let d = d.with_label(span, "neither the target type nor the spec is local to this package".to_owned());
                let d = d.with_note({
                    let mut out: String = "target package: '".to_owned();
                    out.append(target_package.as_ref());
                    out.append("'; spec package: '");
                    out.append(spec_package.as_ref());
                    out.append("'");
                    out
                });
                let d = d.with_help("declare the conform in one of those two packages".to_owned());
                d
            },
            AnalysisErrorKind::ConformTargetNotAType => {
                let d = d.with_label(span, "this must resolve to a concrete type".to_owned());
                d
            },
            AnalysisErrorKind::DuplicateConformance { previous, .. } => {
                let d = d.with_label(span, "this conform duplicates an existing one".to_owned());
                let d = d.with_secondary_label(*previous, "the first conform is here".to_owned());
                d
            },
            AnalysisErrorKind::ConformanceExtraFunction { spec, function } => {
                let d = d.with_label(span, {
                    let mut out: String = "'".to_owned();
                    out.append(function.as_ref());
                    out.append("' is not declared by '");
                    out.append(spec.as_ref());
                    out.append("'");
                    out
                });
                d
            },
            AnalysisErrorKind::UnconstrainedConformanceParameter { parameter } => {
                let d = d.with_label(span, {
                    let mut out: String = "'".to_owned();
                    out.append(parameter.as_ref());
                    out.append("' is not fixed by the conform target");
                    out
                });
                let d = d.with_help("mention this parameter in the target, or remove it from the conform declaration".to_owned());
                d
            },
            AnalysisErrorKind::AmbiguousConformance { target, first, .. } => {
                let d = d.with_label(span, {
                    let mut out: String = "this conform overlaps another one for `".to_owned();
                    out.append(target.as_str());
                    out.append("`");
                    out
                });
                let d = d.with_secondary_label(*first, "the other matching conform is here".to_owned());
                let d = d.with_note({
                    let mut out: String = "neither conform is more specific for `".to_owned();
                    out.append(target.as_str());
                    out.append("`");
                    out
                });
                d
            },
            AnalysisErrorKind::ConformanceCycle { chain, .. } => {
                let d = d.with_label(span, "this bound re-enters a conformance already being checked".to_owned());
                let d = d.with_notes(&cycle_notes(chain));
                d
            },
            AnalysisErrorKind::BlanketConformanceForeignSpec { spec_package } => {
                let d = d.with_label(span, "a blanket conform may only implement a spec declared in this package".to_owned());
                let d = d.with_note({
                    let mut out: String = "this spec belongs to package '".to_owned();
                    out.append(spec_package.as_ref());
                    out.append("'");
                    out
                });
                let d = d.with_help("declare the blanket alongside that spec, or implement a package-local spec instead".to_owned());
                d
            },
            AnalysisErrorKind::PrimitiveOutsideCore => {
                let d = d.with_label(span, "primitive blocks belong to the core package".to_owned());
                d
            },
            AnalysisErrorKind::PrimitiveTargetNotAllowed { .. } => {
                let d = d.with_label(span, "only built-in scalar, `bool`, `char`, `void`, `never`, `str`, and slice types are allowed".to_owned());
                d
            },
            AnalysisErrorKind::DuplicatePrimitiveTarget { previous, .. } => {
                let d = d.with_label(span, "this primitive target already has a declaration block".to_owned());
                let d = d.with_secondary_label(*previous, "the first block is here".to_owned());
                d
            },
            AnalysisErrorKind::AmbiguousConformanceStatic { target, function, specs } => {
                let d = d.with_label(span, "more than one conforming spec provides this static function".to_owned());
                let d = d.with_note({
                    let mut out: String = "declared by: ".to_owned();
                    out.append(ident_commas(specs).as_str());
                    out
                });
                let d = d.with_notes(&static_notes(target, specs, function));
                let d = d.with_help("name the one you mean with the fully-qualified spelling".to_owned());
                d
            },
            AnalysisErrorKind::MethodNotInScope { method, spec, ty } => {
                let d = d.with_label(span, {
                    let mut out: String = "'".to_owned();
                    out.append(method.as_ref());
                    out.append("' is supplied by '");
                    out.append(spec.as_ref());
                    out.append("'");
                    out
                });
                let d = d.with_help({
                    let mut out: String = "call '<".to_owned();
                    out.append(ty.to_string().as_str());
                    out.append(" : ");
                    out.append(spec.as_ref());
                    out.append(">::");
                    out.append(method.as_ref());
                    out.append("(value, ...)', or add a generic bound that includes '");
                    out.append(spec.as_ref());
                    out.append("'");
                    out
                });
                d
            },
            AnalysisErrorKind::MultipleGluesForGap { glues, .. } => {
                let d = d.with_label(span, "this gap has more than one glue implementation".to_owned());
                let d = d.with_note({
                    let mut out: String = "found: ".to_owned();
                    out.append(quoted_commas(glues, "'").as_str());
                    out
                });
                let d = d.with_help("exactly one glue declaration is allowed per gap, project-wide -- remove one".to_owned());
                d
            },
            AnalysisErrorKind::CompEvalFailed { trace, .. } => {
                let d = d.with_label(span, "cannot be evaluated at compile time".to_owned());
                let d = d.with_secondary_labels(trace, "required by this compile-time call");
                d
            },
            AnalysisErrorKind::MutCompBinding => {
                let d = d.with_label(span, "'comp' binding cannot be 'mut'".to_owned());
                let d = d.with_note("a 'comp' binding has no storage of its own -- every use is substituted with its already-known value at compile time, so a later mutation could never be observed".to_owned());
                d
            },
            AnalysisErrorKind::TopLevelValueNotComp => {
                let d = d.with_label(span, "this value isn't known at compile time".to_owned());
                let d = d.with_help("write 'comp value' (e.g. 'ident := comp value;' or 'ident : Type = comp value;') if the value should be computed at compile time but still get real, mutable-if-'mut' storage, or 'comp ident := comp value;' for a no-storage substituted binding instead -- a runtime-computed top-level global isn't supported".to_owned());
                d
            },
            AnalysisErrorKind::ZeroSizedAggregate { name, is_union } => {
                let d = d.with_label(span, {
                    let mut out: String = "`".to_owned();
                    out.append(name.as_ref());
                    out.append("` has no sized fields");
                    out
                });
                let d = d.with_help({
                    let mut out: String = "a ".to_owned();
                    out.append(aggregate_word(*is_union));
                    out.append(" must hold at least one field with nonzero size -- use 'marker' to declare a type with no data");
                    out
                });
                d
            },
            _ => d.with_label(span, self.to_string()),
        }
    }

    /// The labels and footers of errors in mutability, casts, overloads and specs.
    pub open spec fn dispatch_annotated(&self, d: DiagnosticView, span: Span, pointer_bits: u32) -> DiagnosticView {
        match *self {
            AnalysisErrorKind::NotMutableBinding { ident } => {
                let d = d.with_label(span, "`"@
                    + ident@
                    + "` is not declared `mut`"@);
                let d = d.with_help("declare it `mut "@
                    + ident@
                    + "`"@);
                d
            },
            AnalysisErrorKind::NotMutablePointer => {
                let d = d.with_label(span, "this pointer's pointee is immutable"@);
                let d = d.with_help("use `*mut T` instead of `*T`, and `&mut` to create one"@);
                d
            },
            AnalysisErrorKind::MutateTemporary => {
                let d = d.with_label(span, "this value has no storage to write to"@);
                let d = d.with_note("a write needs a place; a freshly-produced value is discarded at the end of the expression, so the write could never be observed"@);
                let d = d.with_help("bind it to a `mut` local first"@);
                d
            },
            AnalysisErrorKind::UnionLiteralMissingField { union_name } => {
                let d = d.with_label(span, "no field set"@);
                let d = d.with_help("set exactly one of `"@
                    + union_name@
                    + "`'s fields"@);
                d
            },
            AnalysisErrorKind::UnionLiteralTooManyFields { union_name, fields } => {
                let d = d.with_label(span, field_list_text(fields@)
                    + " set, but a union literal may only set one"@);
                let d = d.with_help("`"@
                    + union_name@
                    + "`'s fields overlap the same storage; pick exactly one"@);
                d
            },
            AnalysisErrorKind::InvalidCast { from, to } => {
                let d = d.with_label(span, "no cast exists from '"@
                    + type_text(from, false)
                    + "' to '"@
                    + type_text(to, false)
                    + "'"@);
                let d = d.with_note("casts are only supported between numeric types, pointers, the str/byte-slice family (*str, *[u8], *[i8]), and into a spec object (spec *Spec) when the source genuinely implements it"@);
                let d = if to is Char && from.kind_of_number(pointer_bits) is Some {
                    d.with_help("use `char::from_u32` for a checked Unicode scalar conversion"@)
                } else {
                    d
                };
                d
            },
            AnalysisErrorKind::CastToMutablePointer { from, to } => {
                let d = d.with_label(span, "cannot cast '"@
                    + type_text(from, false)
                    + "' to '"@
                    + type_text(to, false)
                    + "'"@);
                let d = d.with_help("a cast can only target a mutable pointer/slice/str if the source is already mutable"@);
                d
            },
            AnalysisErrorKind::NoMatchingOverload { name, candidates } => {
                let d = d.with_label(span, "no overload of `"@
                    + name@
                    + "` matches this"@);
                let d = d.with_notes(candidate_texts(candidates@));
                d
            },
            AnalysisErrorKind::AmbiguousOverload { name, candidates } => {
                let d = d.with_label(span, "reference to `"@
                    + name@
                    + "` is ambiguous"@);
                let d = d.with_notes(candidate_texts(candidates@));
                d
            },
            AnalysisErrorKind::AmbiguousSelfOverload { name, previous } => {
                let d = d.with_label(span, "`"@
                    + name@
                    + "` differs from the other declaration only in how it receives `self`"@);
                let d = d.with_secondary_label(previous, "`"@
                    + name@
                    + "` first declared here"@);
                let d = d.with_help("a call site has no syntax to choose between receiving `self` by value and by pointer -- give these methods different names, or make another parameter differ too"@);
                d
            },
            AnalysisErrorKind::MissingSpecFunction { implementor, spec, spec_type_args, function } => {
                let d = d.with_label(span, "`"@
                    + implementor@
                    + "` does not implement `"@
                    + generic_name_text(spec@, spec_type_args@)
                    + "`"@);
                let d = d.with_help("add a `"@
                    + function@
                    + "` method to `"@
                    + implementor@
                    + "`, or give `"@
                    + function@
                    + "` a default implementation"@);
                d
            },
            AnalysisErrorKind::ForLoopSourceNotIterable { ty } => {
                let d = d.with_label(span, "`"@
                    + type_text(ty, false)
                    + "` does not implement `ToIterator<T>` or `Iterator<T>`"@);
                let d = d.with_help("declare `"@
                    + type_text(ty, false)
                    + " : ToIterator<T>` and implement `to_iterator`, or `"@
                    + type_text(ty, false)
                    + " : Iterator<T>` and implement `next` directly"@);
                d
            },
            AnalysisErrorKind::AmbiguousForLoopElementType { candidates } => {
                let d = d.with_label(span, "multiple `ToIterator<T>` implementations produce: "@
                    + type_commas_text(candidates@));
                let d = d.with_help("write an element annotation, for example `for item : u8 in source { ... }`"@);
                d
            },
            AnalysisErrorKind::ForLoopElementTypeMismatch { expected, available } => {
                let d = d.with_label(span, "no `ToIterator<"@
                    + type_text(expected, false)
                    + ">` for this source"@);
                let d = d.with_help("it conforms to `ToIterator` at: "@
                    + type_commas_text(available@)
                    + " -- annotate the binding with one of those, or add `conform <source> to ToIterator<"@
                    + type_text(expected, false)
                    + ">`"@);
                d
            },
            AnalysisErrorKind::NoSuchSpecFunction { spec, function } => {
                let d = d.with_label(span, "no function `"@
                    + function@
                    + "` on spec `"@
                    + spec@
                    + "`"@);
                d
            },
            AnalysisErrorKind::SpecSelfMustBePointer { name } => {
                let d = d.with_label(span, "`"@
                    + name@
                    + "` receives `self` by value"@);
                let d = d.with_help("spec functions must receive `self` by pointer (`*self`/`*mut self`) -- `spec *T` dynamic dispatch erases the concrete type down to a bare data pointer, which can't carry a by-value copy"@);
                d
            },
            AnalysisErrorKind::VariadicSpecFunctionUnsatisfiable { name } => {
                let d = d.with_label(span, "`"@
                    + name@
                    + "` is declared variadic"@);
                let d = d.with_help("Omega has no variadic function definitions -- only `extern` declarations may be variadic -- so no `conform` block or spec default could ever supply a matching body"@);
                d
            },
            AnalysisErrorKind::AmbiguousSpecObjectMethod { function, specs } => {
                let d = d.with_label(span, "`"@
                    + function@
                    + "` is declared by more than one of this object's specs"@);
                let d = d.with_notes(member_texts(specs@, function@));
                let d = d.with_help("narrow the object first (`<spec *"@
                    + specs@[0]@
                    + ">x`), which picks "@
                    + specs@[0]@
                    + "'s section of the vtable"@);
                d
            },
            AnalysisErrorKind::SpecObjectCastImpossible { from, to } => {
                let d = d.with_label(span, "`"@
                    + from@
                    + "`'s vtable has no section for `"@
                    + to@
                    + "`"@);
                let d = d.with_note("a spec object's vtable is sectioned per spec, and only narrowing onto an existing section is a real offset"@);
                let d = d.with_help("keep the concrete pointer (`&value`) and coerce it to the wanted spec directly"@);
                d
            },
            AnalysisErrorKind::SpecStaticNeedsExpectedType { spec, function } => {
                let d = d.with_label(span, "nothing at this call site names the implementing type"@);
                let d = d.with_note("'"@
                    + spec@
                    + "::"@
                    + function@
                    + "' is receiverless, so 'Self' can only come from the expected type"@);
                let d = d.with_help("write the type explicitly: `<Type : "@
                    + spec@
                    + ">::"@
                    + function@
                    + "()`, or call it as `Type::"@
                    + function@
                    + "()` when unambiguous"@);
                d
            },
            AnalysisErrorKind::SpecStaticReturnNotSelf { spec, function, .. } => {
                let d = d.with_label(span, "'Self' cannot be inferred from the expected type here"@);
                let d = d.with_note("'"@
                    + spec@
                    + "::"@
                    + function@
                    + "' does not return exactly 'Self', so the expected type never names the implementing type"@);
                let d = d.with_help("write the type explicitly: `<Type : "@
                    + spec@
                    + ">::"@
                    + function@
                    + "()`, or call it as `Type::"@
                    + function@
                    + "()` when unambiguous"@);
                d
            },
            _ => self.item_annotated(d, span, pointer_bits),
        }
    }

    fn dispatch_diagnostic(&self, d: Diagnostic, span: Span, pointer_bits: u32) -> (diagnostic: Diagnostic)
        requires
            self.renderable(),
            1 <= pointer_bits <= 126,
        ensures
            diagnostic@ == self.dispatch_annotated(d@, span, pointer_bits),
    {
        match self {
            AnalysisErrorKind::NotMutableBinding { ident } => {
                let d = d.with_label(span, {
                    let mut out: String = "`".to_owned();
                    out.append(ident.as_ref());
                    out.append("` is not declared `mut`");
                    out
                });
                let d = d.with_help({
                    let mut out: String = "declare it `mut ".to_owned();
                    out.append(ident.as_ref());
                    out.append("`");
                    out
                });
                d
            },
            AnalysisErrorKind::NotMutablePointer => {
                let d = d.with_label(span, "this pointer's pointee is immutable".to_owned());
                let d = d.with_help("use `*mut T` instead of `*T`, and `&mut` to create one".to_owned());
                d
            },
            AnalysisErrorKind::MutateTemporary => {
                let d = d.with_label(span, "this value has no storage to write to".to_owned());
                let d = d.with_note("a write needs a place; a freshly-produced value is discarded at the end of the expression, so the write could never be observed".to_owned());
                let d = d.with_help("bind it to a `mut` local first".to_owned());
                d
            },
            AnalysisErrorKind::UnionLiteralMissingField { union_name } => {
                let d = d.with_label(span, "no field set".to_owned());
                let d = d.with_help({
                    let mut out: String = "set exactly one of `".to_owned();
                    out.append(union_name.as_ref());
                    out.append("`'s fields");
                    out
                });
                d
            },
            AnalysisErrorKind::UnionLiteralTooManyFields { union_name, fields } => {
                let d = d.with_label(span, {
                    let mut out: String = field_list(fields).as_str().to_owned();
                    out.append(" set, but a union literal may only set one");
                    out
                });
                let d = d.with_help({
                    let mut out: String = "`".to_owned();
                    out.append(union_name.as_ref());
                    out.append("`'s fields overlap the same storage; pick exactly one");
                    out
                });
                d
            },
            AnalysisErrorKind::InvalidCast { from, to } => {
                let d = d.with_label(span, {
                    let mut out: String = "no cast exists from '".to_owned();
                    out.append(from.to_string().as_str());
                    out.append("' to '");
                    out.append(to.to_string().as_str());
                    out.append("'");
                    out
                });
                let d = d.with_note("casts are only supported between numeric types, pointers, the str/byte-slice family (*str, *[u8], *[i8]), and into a spec object (spec *Spec) when the source genuinely implements it".to_owned());
                let d = if is_char(to) && from.numeric_kind(pointer_bits).is_some() {
                    d.with_help("use `char::from_u32` for a checked Unicode scalar conversion".to_owned())
                } else {
                    d
                };
                d
            },
            AnalysisErrorKind::CastToMutablePointer { from, to } => {
                let d = d.with_label(span, {
                    let mut out: String = "cannot cast '".to_owned();
                    out.append(from.to_string().as_str());
                    out.append("' to '");
                    out.append(to.to_string().as_str());
                    out.append("'");
                    out
                });
                let d = d.with_help("a cast can only target a mutable pointer/slice/str if the source is already mutable".to_owned());
                d
            },
            AnalysisErrorKind::NoMatchingOverload { name, candidates } => {
                let d = d.with_label(span, {
                    let mut out: String = "no overload of `".to_owned();
                    out.append(name.as_ref());
                    out.append("` matches this");
                    out
                });
                let d = d.with_notes(&candidate_notes(candidates));
                d
            },
            AnalysisErrorKind::AmbiguousOverload { name, candidates } => {
                let d = d.with_label(span, {
                    let mut out: String = "reference to `".to_owned();
                    out.append(name.as_ref());
                    out.append("` is ambiguous");
                    out
                });
                let d = d.with_notes(&candidate_notes(candidates));
                d
            },
            AnalysisErrorKind::AmbiguousSelfOverload { name, previous } => {
                let d = d.with_label(span, {
                    let mut out: String = "`".to_owned();
                    out.append(name.as_ref());
                    out.append("` differs from the other declaration only in how it receives `self`");
                    out
                });
                let d = d.with_secondary_label(*previous, {
                    let mut out: String = "`".to_owned();
                    out.append(name.as_ref());
                    out.append("` first declared here");
                    out
                });
                let d = d.with_help("a call site has no syntax to choose between receiving `self` by value and by pointer -- give these methods different names, or make another parameter differ too".to_owned());
                d
            },
            AnalysisErrorKind::MissingSpecFunction { implementor, spec, spec_type_args, function } => {
                let d = d.with_label(span, {
                    let mut out: String = "`".to_owned();
                    out.append(implementor.as_ref());
                    out.append("` does not implement `");
                    out.append(generic_name(spec, spec_type_args).as_str());
                    out.append("`");
                    out
                });
                let d = d.with_help({
                    let mut out: String = "add a `".to_owned();
                    out.append(function.as_ref());
                    out.append("` method to `");
                    out.append(implementor.as_ref());
                    out.append("`, or give `");
                    out.append(function.as_ref());
                    out.append("` a default implementation");
                    out
                });
                d
            },
            AnalysisErrorKind::ForLoopSourceNotIterable { ty } => {
                let d = d.with_label(span, {
                    let mut out: String = "`".to_owned();
                    out.append(ty.to_string().as_str());
                    out.append("` does not implement `ToIterator<T>` or `Iterator<T>`");
                    out
                });
                let d = d.with_help({
                    let mut out: String = "declare `".to_owned();
                    out.append(ty.to_string().as_str());
                    out.append(" : ToIterator<T>` and implement `to_iterator`, or `");
                    out.append(ty.to_string().as_str());
                    out.append(" : Iterator<T>` and implement `next` directly");
                    out
                });
                d
            },
            AnalysisErrorKind::AmbiguousForLoopElementType { candidates } => {
                let d = d.with_label(span, {
                    let mut out: String = "multiple `ToIterator<T>` implementations produce: ".to_owned();
                    out.append(type_commas(candidates).as_str());
                    out
                });
                let d = d.with_help("write an element annotation, for example `for item : u8 in source { ... }`".to_owned());
                d
            },
            AnalysisErrorKind::ForLoopElementTypeMismatch { expected, available } => {
                let d = d.with_label(span, {
                    let mut out: String = "no `ToIterator<".to_owned();
                    out.append(expected.to_string().as_str());
                    out.append(">` for this source");
                    out
                });
                let d = d.with_help({
                    let mut out: String = "it conforms to `ToIterator` at: ".to_owned();
                    out.append(type_commas(available).as_str());
                    out.append(" -- annotate the binding with one of those, or add `conform <source> to ToIterator<");
                    out.append(expected.to_string().as_str());
                    out.append(">`");
                    out
                });
                d
            },
            AnalysisErrorKind::NoSuchSpecFunction { spec, function } => {
                let d = d.with_label(span, {
                    let mut out: String = "no function `".to_owned();
                    out.append(function.as_ref());
                    out.append("` on spec `");
                    out.append(spec.as_ref());
                    out.append("`");
                    out
                });
                d
            },
            AnalysisErrorKind::SpecSelfMustBePointer { name } => {
                let d = d.with_label(span, {
                    let mut out: String = "`".to_owned();
                    out.append(name.as_ref());
                    out.append("` receives `self` by value");
                    out
                });
                let d = d.with_help("spec functions must receive `self` by pointer (`*self`/`*mut self`) -- `spec *T` dynamic dispatch erases the concrete type down to a bare data pointer, which can't carry a by-value copy".to_owned());
                d
            },
            AnalysisErrorKind::VariadicSpecFunctionUnsatisfiable { name } => {
                let d = d.with_label(span, {
                    let mut out: String = "`".to_owned();
                    out.append(name.as_ref());
                    out.append("` is declared variadic");
                    out
                });
                let d = d.with_help("Omega has no variadic function definitions -- only `extern` declarations may be variadic -- so no `conform` block or spec default could ever supply a matching body".to_owned());
                d
            },
            AnalysisErrorKind::AmbiguousSpecObjectMethod { function, specs } => {
                let d = d.with_label(span, {
                    let mut out: String = "`".to_owned();
                    out.append(function.as_ref());
                    out.append("` is declared by more than one of this object's specs");
                    out
                });
                let d = d.with_notes(&member_notes(specs, function));
                let d = d.with_help({
                    let mut out: String = "narrow the object first (`<spec *".to_owned();
                    out.append(specs[0].as_ref());
                    out.append(">x`), which picks ");
                    out.append(specs[0].as_ref());
                    out.append("'s section of the vtable");
                    out
                });
                d
            },
            AnalysisErrorKind::SpecObjectCastImpossible { from, to } => {
                let d = d.with_label(span, {
                    let mut out: String = "`".to_owned();
                    out.append(from.as_ref());
                    out.append("`'s vtable has no section for `");
                    out.append(to.as_ref());
                    out.append("`");
                    out
                });
                let d = d.with_note("a spec object's vtable is sectioned per spec, and only narrowing onto an existing section is a real offset".to_owned());
                let d = d.with_help("keep the concrete pointer (`&value`) and coerce it to the wanted spec directly".to_owned());
                d
            },
            AnalysisErrorKind::SpecStaticNeedsExpectedType { spec, function } => {
                let d = d.with_label(span, "nothing at this call site names the implementing type".to_owned());
                let d = d.with_note({
                    let mut out: String = "'".to_owned();
                    out.append(spec.as_ref());
                    out.append("::");
                    out.append(function.as_ref());
                    out.append("' is receiverless, so 'Self' can only come from the expected type");
                    out
                });
                let d = d.with_help({
                    let mut out: String = "write the type explicitly: `<Type : ".to_owned();
                    out.append(spec.as_ref());
                    out.append(">::");
                    out.append(function.as_ref());
                    out.append("()`, or call it as `Type::");
                    out.append(function.as_ref());
                    out.append("()` when unambiguous");
                    out
                });
                d
            },
            AnalysisErrorKind::SpecStaticReturnNotSelf { spec, function, .. } => {
                let d = d.with_label(span, "'Self' cannot be inferred from the expected type here".to_owned());
                let d = d.with_note({
                    let mut out: String = "'".to_owned();
                    out.append(spec.as_ref());
                    out.append("::");
                    out.append(function.as_ref());
                    out.append("' does not return exactly 'Self', so the expected type never names the implementing type");
                    out
                });
                let d = d.with_help({
                    let mut out: String = "write the type explicitly: `<Type : ".to_owned();
                    out.append(spec.as_ref());
                    out.append(">::");
                    out.append(function.as_ref());
                    out.append("()`, or call it as `Type::");
                    out.append(function.as_ref());
                    out.append("()` when unambiguous");
                    out
                });
                d
            },
            _ => self.item_diagnostic(d, span, pointer_bits),
        }
    }

    /// The labels and footers of errors in patterns and matches.
    pub open spec fn pattern_annotated(&self, d: DiagnosticView, span: Span, pointer_bits: u32) -> DiagnosticView {
        match *self {
            AnalysisErrorKind::PatternValueNotConstant => {
                let d = d.with_label(span, "not a literal constant"@);
                let d = d.with_note("a match pattern is checked against the scrutinee's whole domain at compile time,\nso its bounds must be literals (a number, bool, or char)"@);
                d
            },
            AnalysisErrorKind::NoSuchVariantInPattern { enum_name, name, similar } => {
                let d = d.with_label(span, "not found in `"@
                    + enum_name@
                    + "`"@);
                let d = match similar {
                    Some(name) => d.with_help("a variant with a similar name exists: `"@
                        + name@
                        + "`"@),
                    None => d,
                };
                d
            },
            AnalysisErrorKind::PatternNotEnumVariant { enum_name } => {
                let d = d.with_label(span, "`"@
                    + enum_name@
                    + "` can only be matched by naming one of its variants"@);
                let d = d.with_help("write a pattern like `"@
                    + enum_name@
                    + "::SomeVariant`"@);
                d
            },
            AnalysisErrorKind::PatternIsEnumVariant { enum_name, variant, scrutinee } => {
                let d = d.with_label(span, "`"@
                    + enum_name@
                    + "::"@
                    + variant@
                    + "` is a variant of `"@
                    + enum_name@
                    + "`, not of `"@
                    + type_text(scrutinee, false)
                    + "`"@);
                d
            },
            AnalysisErrorKind::PatternTypeMismatch { expected, found } => {
                let d = d.with_label(span, "expected `"@
                    + type_text(expected, false)
                    + "`, found `"@
                    + type_text(found, false)
                    + "`"@);
                d
            },
            AnalysisErrorKind::UnsupportedMatchScrutinee { ty } => {
                let d = d.with_label(span, "cannot match on `"@
                    + type_text(ty, false)
                    + "`"@);
                let d = d.with_note("`match` supports enums, integers, and `bool`"@);
                d
            },
            AnalysisErrorKind::OverlappingMatchArm { previous } => {
                let d = d.with_label(span, "this pattern covers values an earlier arm already covers"@);
                let d = d.with_secondary_label(previous, "first covered here"@);
                let d = d.with_note("`match` has no first-match-wins rule -- every value must be covered by exactly one arm"@);
                d
            },
            AnalysisErrorKind::NonExhaustiveMatchEnum { missing, .. } => {
                let d = d.with_label(span, "missing "@
                    + plural_text(missing@.len(), "variant"@)
                    + " "@
                    + ident_list_text(missing@));
                let d = d.with_help("cover the remaining variants, or add an `else` block"@);
                d
            },
            AnalysisErrorKind::NonExhaustiveMatchAnonymousEnum { missing, .. } => {
                let d = d.with_label(span, "missing "@
                    + plural_text(missing@.len(), "member"@)
                    + " "@
                    + type_list_text(missing@));
                let d = d.with_help("cover the remaining members, or add an `else` block"@);
                d
            },
            AnalysisErrorKind::NonExhaustiveMatchValue { gaps, .. } => {
                let d = d.with_label(span, "not covered: "@
                    + joined(views(gaps@), ", "@));
                let d = d.with_help("cover the remaining values, or add an `else` block"@);
                d
            },
            AnalysisErrorKind::CatchAllRangeNotInferable { .. } => {
                let d = d.with_label(span, "what's left uncovered isn't one contiguous range"@);
                let d = d.with_note("`..` can only infer a single gap -- split this into explicit ranges, or add an `else` block instead"@);
                d
            },
            AnalysisErrorKind::CatchAllPatternRedundant => {
                let d = d.with_label(span, "every value is already covered by an earlier arm"@);
                let d = d.with_help("remove this arm -- there's nothing left for it to match"@);
                d
            },
            AnalysisErrorKind::MultipleCatchAllPatterns { previous } => {
                let d = d.with_label(span, "a second `..` catch-all arm"@);
                let d = d.with_secondary_label(previous, "first `..` arm here"@);
                let d = d.with_note("only one `..` arm is allowed per `match`"@);
                d
            },
            AnalysisErrorKind::MatchArmTypeMismatch { expected, found } => {
                let d = d.with_label(span, "this arm produces `"@
                    + type_text(found, false)
                    + "`, but earlier arms produce `"@
                    + type_text(expected, false)
                    + "`"@);
                let d = d.with_note("every arm of a `match` used as an expression must produce the same type"@);
                d
            },
            _ => self.dispatch_annotated(d, span, pointer_bits),
        }
    }

    fn pattern_diagnostic(&self, d: Diagnostic, span: Span, pointer_bits: u32) -> (diagnostic: Diagnostic)
        requires
            self.renderable(),
            1 <= pointer_bits <= 126,
        ensures
            diagnostic@ == self.pattern_annotated(d@, span, pointer_bits),
    {
        match self {
            AnalysisErrorKind::PatternValueNotConstant => {
                let d = d.with_label(span, "not a literal constant".to_owned());
                let d = d.with_note("a match pattern is checked against the scrutinee's whole domain at compile time,\nso its bounds must be literals (a number, bool, or char)".to_owned());
                d
            },
            AnalysisErrorKind::NoSuchVariantInPattern { enum_name, name, similar } => {
                let d = d.with_label(span, {
                    let mut out: String = "not found in `".to_owned();
                    out.append(enum_name.as_ref());
                    out.append("`");
                    out
                });
                let d = match similar {
                    Some(name) => d.with_help({
                        let mut out: String = "a variant with a similar name exists: `".to_owned();
                        out.append(name.as_ref());
                        out.append("`");
                        out
                    }),
                    None => d,
                };
                d
            },
            AnalysisErrorKind::PatternNotEnumVariant { enum_name } => {
                let d = d.with_label(span, {
                    let mut out: String = "`".to_owned();
                    out.append(enum_name.as_ref());
                    out.append("` can only be matched by naming one of its variants");
                    out
                });
                let d = d.with_help({
                    let mut out: String = "write a pattern like `".to_owned();
                    out.append(enum_name.as_ref());
                    out.append("::SomeVariant`");
                    out
                });
                d
            },
            AnalysisErrorKind::PatternIsEnumVariant { enum_name, variant, scrutinee } => {
                let d = d.with_label(span, {
                    let mut out: String = "`".to_owned();
                    out.append(enum_name.as_ref());
                    out.append("::");
                    out.append(variant.as_ref());
                    out.append("` is a variant of `");
                    out.append(enum_name.as_ref());
                    out.append("`, not of `");
                    out.append(scrutinee.to_string().as_str());
                    out.append("`");
                    out
                });
                d
            },
            AnalysisErrorKind::PatternTypeMismatch { expected, found } => {
                let d = d.with_label(span, {
                    let mut out: String = "expected `".to_owned();
                    out.append(expected.to_string().as_str());
                    out.append("`, found `");
                    out.append(found.to_string().as_str());
                    out.append("`");
                    out
                });
                d
            },
            AnalysisErrorKind::UnsupportedMatchScrutinee { ty } => {
                let d = d.with_label(span, {
                    let mut out: String = "cannot match on `".to_owned();
                    out.append(ty.to_string().as_str());
                    out.append("`");
                    out
                });
                let d = d.with_note("`match` supports enums, integers, and `bool`".to_owned());
                d
            },
            AnalysisErrorKind::OverlappingMatchArm { previous } => {
                let d = d.with_label(span, "this pattern covers values an earlier arm already covers".to_owned());
                let d = d.with_secondary_label(*previous, "first covered here".to_owned());
                let d = d.with_note("`match` has no first-match-wins rule -- every value must be covered by exactly one arm".to_owned());
                d
            },
            AnalysisErrorKind::NonExhaustiveMatchEnum { missing, .. } => {
                let d = d.with_label(span, {
                    let mut out: String = "missing ".to_owned();
                    out.append(plural(missing.len(), "variant").as_str());
                    out.append(" ");
                    out.append(ident_list(missing).as_str());
                    out
                });
                let d = d.with_help("cover the remaining variants, or add an `else` block".to_owned());
                d
            },
            AnalysisErrorKind::NonExhaustiveMatchAnonymousEnum { missing, .. } => {
                let d = d.with_label(span, {
                    let mut out: String = "missing ".to_owned();
                    out.append(plural(missing.len(), "member").as_str());
                    out.append(" ");
                    out.append(type_list(missing).as_str());
                    out
                });
                let d = d.with_help("cover the remaining members, or add an `else` block".to_owned());
                d
            },
            AnalysisErrorKind::NonExhaustiveMatchValue { gaps, .. } => {
                let d = d.with_label(span, {
                    let mut out: String = "not covered: ".to_owned();
                    out.append(join_texts(gaps, ", ").as_str());
                    out
                });
                let d = d.with_help("cover the remaining values, or add an `else` block".to_owned());
                d
            },
            AnalysisErrorKind::CatchAllRangeNotInferable { .. } => {
                let d = d.with_label(span, "what's left uncovered isn't one contiguous range".to_owned());
                let d = d.with_note("`..` can only infer a single gap -- split this into explicit ranges, or add an `else` block instead".to_owned());
                d
            },
            AnalysisErrorKind::CatchAllPatternRedundant => {
                let d = d.with_label(span, "every value is already covered by an earlier arm".to_owned());
                let d = d.with_help("remove this arm -- there's nothing left for it to match".to_owned());
                d
            },
            AnalysisErrorKind::MultipleCatchAllPatterns { previous } => {
                let d = d.with_label(span, "a second `..` catch-all arm".to_owned());
                let d = d.with_secondary_label(*previous, "first `..` arm here".to_owned());
                let d = d.with_note("only one `..` arm is allowed per `match`".to_owned());
                d
            },
            AnalysisErrorKind::MatchArmTypeMismatch { expected, found } => {
                let d = d.with_label(span, {
                    let mut out: String = "this arm produces `".to_owned();
                    out.append(found.to_string().as_str());
                    out.append("`, but earlier arms produce `");
                    out.append(expected.to_string().as_str());
                    out.append("`");
                    out
                });
                let d = d.with_note("every arm of a `match` used as an expression must produce the same type".to_owned());
                d
            },
            _ => self.dispatch_diagnostic(d, span, pointer_bits),
        }
    }

    /// The labels and footers of errors in enums and their members.
    pub open spec fn enum_annotated(&self, d: DiagnosticView, span: Span, pointer_bits: u32) -> DiagnosticView {
        match *self {
            AnalysisErrorKind::EnumTagNotFirst => {
                let d = d.with_label(span, "`tag` must be the header's first entry"@);
                let d = d.with_help("move `tag: ...` to the front of the header"@);
                d
            },
            AnalysisErrorKind::EnumTagNotInteger { found } => {
                let d = d.with_label(span, "`"@
                    + type_text(found, false)
                    + "` cannot be a tag type"@);
                let d = d.with_note("enum tags are currently limited to integer types (i8..i64, u8..u64, isize, usize)"@);
                d
            },
            AnalysisErrorKind::EnumHeaderFieldUnsupportedType { found, .. } => {
                let d = d.with_label(span, "`"@
                    + type_text(found, false)
                    + "` has no literal constant form"@);
                let d = d.with_note("each variant supplies this field's value as a compile-time constant,\nso header fields are currently limited to integers, floats, bool, char, `*str`, and immutable slices of those (`*[...]`)"@);
                d
            },
            AnalysisErrorKind::EnumVariantArgCount { expected, found, has_tag, .. } => {
                let d = d.with_label(span, "expected "@
                    + decimal(expected as nat)
                    + " "@
                    + plural_text(expected as nat, "value"@)
                    + ", found "@
                    + decimal(found as nat));
                let d = d.with_note("each variant's `(...)` must supply "@
                    + variant_values_text(has_tag)
                    + ", in header order"@);
                d
            },
            AnalysisErrorKind::EnumValueNotConstant => {
                let d = d.with_label(span, "not a literal constant"@);
                let d = d.with_note("a variant's tag and header values are baked in at the definition,\nso they must be literals (a number, string, bool, char, or `&[...]` compile-time slice)"@);
                d
            },
            AnalysisErrorKind::EnumValueTypeMismatch { expected, found } => {
                let d = d.with_label(span, "expected `"@
                    + type_text(expected, false)
                    + "`, found "@
                    + found@);
                d
            },
            AnalysisErrorKind::DuplicateEnumTag { value, previous_variant, previous, .. } => {
                let d = d.with_label(span, "tag "@
                    + value@
                    + " used again here"@);
                let d = d.with_secondary_label(previous, "first used by variant '"@
                    + previous_variant@
                    + "'"@);
                let d = d.with_note("the tag is how variants are told apart at runtime, so each variant needs its own"@);
                d
            },
            AnalysisErrorKind::EnumFieldNameCollision { field, .. } => {
                let d = d.with_label(span, "`"@
                    + field@
                    + "` already names a field of this enum"@);
                let d = if field@ == "tag"@ {
                    d.with_note("`tag` is reserved: every enum value exposes its tag as `value.tag`"@)
                } else {
                    d.with_note("the tag, header fields, shared dynamic fields, and each variant's body fields are all accessed as `value.name`, so they share one namespace"@)
                };
                d
            },
            AnalysisErrorKind::EnumLiteralWithoutVariant { enum_name, example } => {
                let d = d.with_label(span, "an enum value is always a specific variant"@);
                let d = d.with_help("name the variant: `"@
                    + enum_name@
                    + "::"@
                    + example@
                    + " { ... }`"@);
                d
            },
            AnalysisErrorKind::NoSuchEnumMember { enum_name, name, similar_variant, similar_function } => {
                let d = d.with_label(span, "not found in `"@
                    + enum_name@
                    + "`"@);
                let d = match similar_variant {
                    Some(name) => d.with_help("a variant with a similar name exists: `"@
                        + name@
                        + "`"@),
                    None => d,
                };
                let d = match similar_function {
                    Some(name) => d.with_help("a function with a similar name exists: `"@
                        + name@
                        + "`"@),
                    None => d,
                };
                d
            },
            AnalysisErrorKind::EnumVariantMissingBody { enum_name, variant, fields } => {
                let d = d.with_label(span, "variant '"@
                    + variant@
                    + "' has "@
                    + field_list_text(fields@));
                let d = d.with_help("supply them with a body: `"@
                    + enum_name@
                    + "::"@
                    + variant@
                    + " {{ "@
                    + field_slots_text(fields@)
                    + " }`"@);
                d
            },
            AnalysisErrorKind::EnumVariantHasNoBody { enum_name, variant } => {
                let d = d.with_label(span, "variant '"@
                    + variant@
                    + "' declares no fields"@);
                let d = d.with_help("write it bare: `"@
                    + enum_name@
                    + "::"@
                    + variant@
                    + "`"@);
                d
            },
            AnalysisErrorKind::StructLiteralPathTooDeep { struct_name, .. } => {
                let d = d.with_label(span, "`"@
                    + struct_name@
                    + "` is a struct -- it has no variants"@);
                let d = d.with_help("build it directly: `"@
                    + struct_name@
                    + " { ... }`"@);
                d
            },
            AnalysisErrorKind::EnumFieldWrongVariant { field, owner, actual } => {
                let d = d.with_label(span, "this value is `"@
                    + actual@
                    + "`, which has no field '"@
                    + field@
                    + "'"@);
                let d = d.with_note("'"@
                    + field@
                    + "' belongs to variant '"@
                    + owner@
                    + "'"@);
                d
            },
            AnalysisErrorKind::EnumFieldVariantUnknown { field, owner, .. } => {
                let d = d.with_label(span, "this value's variant is not statically known here"@);
                let d = d.with_note("'"@
                    + field@
                    + "' belongs to variant '"@
                    + owner@
                    + "', which this value may or may not be;\nonly `tag`, the shared header fields, and the shared dynamic fields are always present"@);
                d
            },
            AnalysisErrorKind::NoSuchEnumField { enum_name, similar, .. } => {
                let d = d.with_label(span, "`"@
                    + enum_name@
                    + "` has no field by that name"@);
                let d = match similar {
                    Some(name) => d.with_help("a field with a similar name exists: `"@
                        + name@
                        + "`"@),
                    None => d,
                };
                d
            },
            AnalysisErrorKind::GenericPathTooDeep { named } => {
                let d = d.with_label(span, "nothing nests deeper than `"@
                    + named@
                    + "`'s own members"@);
                d
            },
            AnalysisErrorKind::EnumFieldImmutable { field } => {
                let d = d.with_label(span, "`"@
                    + field@
                    + "` is fixed by the value's variant"@);
                let d = d.with_note("the tag and header fields are per-variant constants; only a variant's own body fields and shared dynamic fields can be assigned"@);
                d
            },
            AnalysisErrorKind::EnumHeaderFieldInLiteral { field } => {
                let d = d.with_label(span, "`"@
                    + field@
                    + "` is a header field"@);
                let d = d.with_note("header values are fixed per variant by the enum's definition, so a construction site never supplies them"@);
                d
            },
            _ => self.pattern_annotated(d, span, pointer_bits),
        }
    }

    fn enum_diagnostic(&self, d: Diagnostic, span: Span, pointer_bits: u32) -> (diagnostic: Diagnostic)
        requires
            self.renderable(),
            1 <= pointer_bits <= 126,
        ensures
            diagnostic@ == self.enum_annotated(d@, span, pointer_bits),
    {
        match self {
            AnalysisErrorKind::EnumTagNotFirst => {
                let d = d.with_label(span, "`tag` must be the header's first entry".to_owned());
                let d = d.with_help("move `tag: ...` to the front of the header".to_owned());
                d
            },
            AnalysisErrorKind::EnumTagNotInteger { found } => {
                let d = d.with_label(span, {
                    let mut out: String = "`".to_owned();
                    out.append(found.to_string().as_str());
                    out.append("` cannot be a tag type");
                    out
                });
                let d = d.with_note("enum tags are currently limited to integer types (i8..i64, u8..u64, isize, usize)".to_owned());
                d
            },
            AnalysisErrorKind::EnumHeaderFieldUnsupportedType { found, .. } => {
                let d = d.with_label(span, {
                    let mut out: String = "`".to_owned();
                    out.append(found.to_string().as_str());
                    out.append("` has no literal constant form");
                    out
                });
                let d = d.with_note("each variant supplies this field's value as a compile-time constant,\nso header fields are currently limited to integers, floats, bool, char, `*str`, and immutable slices of those (`*[...]`)".to_owned());
                d
            },
            AnalysisErrorKind::EnumVariantArgCount { expected, found, has_tag, .. } => {
                let d = d.with_label(span, {
                    let mut out: String = "expected ".to_owned();
                    out.append(decimal_text(*expected as u128).as_str());
                    out.append(" ");
                    out.append(plural(*expected, "value").as_str());
                    out.append(", found ");
                    out.append(decimal_text(*found as u128).as_str());
                    out
                });
                let d = d.with_note({
                    let mut out: String = "each variant's `(...)` must supply ".to_owned();
                    out.append(variant_values(*has_tag));
                    out.append(", in header order");
                    out
                });
                d
            },
            AnalysisErrorKind::EnumValueNotConstant => {
                let d = d.with_label(span, "not a literal constant".to_owned());
                let d = d.with_note("a variant's tag and header values are baked in at the definition,\nso they must be literals (a number, string, bool, char, or `&[...]` compile-time slice)".to_owned());
                d
            },
            AnalysisErrorKind::EnumValueTypeMismatch { expected, found } => {
                let d = d.with_label(span, {
                    let mut out: String = "expected `".to_owned();
                    out.append(expected.to_string().as_str());
                    out.append("`, found ");
                    out.append(found.as_str());
                    out
                });
                d
            },
            AnalysisErrorKind::DuplicateEnumTag { value, previous_variant, previous, .. } => {
                let d = d.with_label(span, {
                    let mut out: String = "tag ".to_owned();
                    out.append(value.as_str());
                    out.append(" used again here");
                    out
                });
                let d = d.with_secondary_label(*previous, {
                    let mut out: String = "first used by variant '".to_owned();
                    out.append(previous_variant.as_ref());
                    out.append("'");
                    out
                });
                let d = d.with_note("the tag is how variants are told apart at runtime, so each variant needs its own".to_owned());
                d
            },
            AnalysisErrorKind::EnumFieldNameCollision { field, .. } => {
                let d = d.with_label(span, {
                    let mut out: String = "`".to_owned();
                    out.append(field.as_ref());
                    out.append("` already names a field of this enum");
                    out
                });
                let d = if same_text(field.as_ref(), "tag") {
                    d.with_note("`tag` is reserved: every enum value exposes its tag as `value.tag`".to_owned())
                } else {
                    d.with_note("the tag, header fields, shared dynamic fields, and each variant's body fields are all accessed as `value.name`, so they share one namespace".to_owned())
                };
                d
            },
            AnalysisErrorKind::EnumLiteralWithoutVariant { enum_name, example } => {
                let d = d.with_label(span, "an enum value is always a specific variant".to_owned());
                let d = d.with_help({
                    let mut out: String = "name the variant: `".to_owned();
                    out.append(enum_name.as_ref());
                    out.append("::");
                    out.append(example.as_ref());
                    out.append(" { ... }`");
                    out
                });
                d
            },
            AnalysisErrorKind::NoSuchEnumMember { enum_name, name, similar_variant, similar_function } => {
                let d = d.with_label(span, {
                    let mut out: String = "not found in `".to_owned();
                    out.append(enum_name.as_ref());
                    out.append("`");
                    out
                });
                let d = match similar_variant {
                    Some(name) => d.with_help({
                        let mut out: String = "a variant with a similar name exists: `".to_owned();
                        out.append(name.as_ref());
                        out.append("`");
                        out
                    }),
                    None => d,
                };
                let d = match similar_function {
                    Some(name) => d.with_help({
                        let mut out: String = "a function with a similar name exists: `".to_owned();
                        out.append(name.as_ref());
                        out.append("`");
                        out
                    }),
                    None => d,
                };
                d
            },
            AnalysisErrorKind::EnumVariantMissingBody { enum_name, variant, fields } => {
                let d = d.with_label(span, {
                    let mut out: String = "variant '".to_owned();
                    out.append(variant.as_ref());
                    out.append("' has ");
                    out.append(field_list(fields).as_str());
                    out
                });
                let d = d.with_help({
                    let mut out: String = "supply them with a body: `".to_owned();
                    out.append(enum_name.as_ref());
                    out.append("::");
                    out.append(variant.as_ref());
                    out.append(" {{ ");
                    out.append(field_slots(fields).as_str());
                    out.append(" }`");
                    out
                });
                d
            },
            AnalysisErrorKind::EnumVariantHasNoBody { enum_name, variant } => {
                let d = d.with_label(span, {
                    let mut out: String = "variant '".to_owned();
                    out.append(variant.as_ref());
                    out.append("' declares no fields");
                    out
                });
                let d = d.with_help({
                    let mut out: String = "write it bare: `".to_owned();
                    out.append(enum_name.as_ref());
                    out.append("::");
                    out.append(variant.as_ref());
                    out.append("`");
                    out
                });
                d
            },
            AnalysisErrorKind::StructLiteralPathTooDeep { struct_name, .. } => {
                let d = d.with_label(span, {
                    let mut out: String = "`".to_owned();
                    out.append(struct_name.as_ref());
                    out.append("` is a struct -- it has no variants");
                    out
                });
                let d = d.with_help({
                    let mut out: String = "build it directly: `".to_owned();
                    out.append(struct_name.as_ref());
                    out.append(" { ... }`");
                    out
                });
                d
            },
            AnalysisErrorKind::EnumFieldWrongVariant { field, owner, actual } => {
                let d = d.with_label(span, {
                    let mut out: String = "this value is `".to_owned();
                    out.append(actual.as_ref());
                    out.append("`, which has no field '");
                    out.append(field.as_ref());
                    out.append("'");
                    out
                });
                let d = d.with_note({
                    let mut out: String = "'".to_owned();
                    out.append(field.as_ref());
                    out.append("' belongs to variant '");
                    out.append(owner.as_ref());
                    out.append("'");
                    out
                });
                d
            },
            AnalysisErrorKind::EnumFieldVariantUnknown { field, owner, .. } => {
                let d = d.with_label(span, "this value's variant is not statically known here".to_owned());
                let d = d.with_note({
                    let mut out: String = "'".to_owned();
                    out.append(field.as_ref());
                    out.append("' belongs to variant '");
                    out.append(owner.as_ref());
                    out.append("', which this value may or may not be;\nonly `tag`, the shared header fields, and the shared dynamic fields are always present");
                    out
                });
                d
            },
            AnalysisErrorKind::NoSuchEnumField { enum_name, similar, .. } => {
                let d = d.with_label(span, {
                    let mut out: String = "`".to_owned();
                    out.append(enum_name.as_ref());
                    out.append("` has no field by that name");
                    out
                });
                let d = match similar {
                    Some(name) => d.with_help({
                        let mut out: String = "a field with a similar name exists: `".to_owned();
                        out.append(name.as_ref());
                        out.append("`");
                        out
                    }),
                    None => d,
                };
                d
            },
            AnalysisErrorKind::GenericPathTooDeep { named } => {
                let d = d.with_label(span, {
                    let mut out: String = "nothing nests deeper than `".to_owned();
                    out.append(named.as_ref());
                    out.append("`'s own members");
                    out
                });
                d
            },
            AnalysisErrorKind::EnumFieldImmutable { field } => {
                let d = d.with_label(span, {
                    let mut out: String = "`".to_owned();
                    out.append(field.as_ref());
                    out.append("` is fixed by the value's variant");
                    out
                });
                let d = d.with_note("the tag and header fields are per-variant constants; only a variant's own body fields and shared dynamic fields can be assigned".to_owned());
                d
            },
            AnalysisErrorKind::EnumHeaderFieldInLiteral { field } => {
                let d = d.with_label(span, {
                    let mut out: String = "`".to_owned();
                    out.append(field.as_ref());
                    out.append("` is a header field");
                    out
                });
                let d = d.with_note("header values are fixed per variant by the enum's definition, so a construction site never supplies them".to_owned());
                d
            },
            _ => self.pattern_diagnostic(d, span, pointer_bits),
        }
    }

    /// The labels and footers of errors in bodies and struct literals.
    pub open spec fn body_annotated(&self, d: DiagnosticView, span: Span, pointer_bits: u32) -> DiagnosticView {
        match *self {
            AnalysisErrorKind::MacroDependencyTooPrivate { item, macro_visibility, item_visibility } => {
                let d = d.with_label(span, "`"@
                    + item@
                    + "` is only "@
                    + item_visibility.spelling());
                let d = d.with_note("the macro that names it is "@
                    + macro_visibility.spelling());
                let d = d.with_help("make the item at least as visible as the macro, or reduce the macro's visibility"@);
                d
            },
            AnalysisErrorKind::NotAValue(_) => {
                let d = d.with_label(span, "expected a value, found a type"@);
                let d = d.with_note("a struct's name refers to the type itself; only its instances hold values"@);
                d
            },
            AnalysisErrorKind::UnresolvedGenericParam(name) => {
                let d = d.with_label(span, "cannot deduce `"@
                    + name@
                    + "` from this call's arguments"@);
                let d = d.with_note("a generic function's type parameters are deduced from its argument types only"@);
                d
            },
            AnalysisErrorKind::GenericParamFromFatPointer { parameter, found } => {
                let d = d.with_label(span, "cannot deduce `"@
                    + parameter@
                    + "` from this call's arguments"@);
                let d = d.with_note("'"@
                    + type_text(found, false)
                    + "' is a slice — a pointer with a length — so it does not match the thin pointer '*"@
                    + parameter@
                    + "'"@);
                let d = d.with_help("take the value directly (`x: "@
                    + parameter@
                    + "`), or spell the slice out (`x: *[]"@
                    + parameter@
                    + "`)"@);
                d
            },
            AnalysisErrorKind::UnresolvedLiteralGeneric { named, generics } => {
                let d = d.with_label(span, "cannot infer type argument(s) "@
                    + quoted_commas_text(generics@, "`"@)
                    + " of `"@
                    + named@
                    + "` here"@);
                let d = d.with_help("write them explicitly, e.g. `"@
                    + named@
                    + "<...>`"@);
                d
            },
            AnalysisErrorKind::DeferInsideLoopNotSupported => {
                let d = d.with_label(span, "`defer` cannot appear inside a loop body"@);
                let d = d.with_help("move the `defer` outside the loop, or run the cleanup code directly"@);
                d
            },
            AnalysisErrorKind::ReturnInsideDefer => {
                let d = d.with_label(span, "cannot `return` from inside a `defer` body"@);
                let d = d.with_note("deferred code runs while the function is already returning"@);
                d
            },
            AnalysisErrorKind::NestedDeferNotSupported => {
                let d = d.with_label(span, "`defer` cannot appear inside another `defer` body"@);
                let d = d.with_note("a defer's body already runs exactly once, at function exit"@);
                d
            },
            AnalysisErrorKind::StructLiteralNotAStruct { found } => {
                let d = d.with_label(span, "`"@
                    + type_text(found, false)
                    + "` is not a struct or union"@);
                let d = d.with_note("only struct and union types can be built with `Name { field = value; ... }`"@);
                d
            },
            AnalysisErrorKind::DuplicateFieldInitializer { field, previous } => {
                let d = d.with_label(span, "`"@
                    + field@
                    + "` set again here"@);
                let d = d.with_secondary_label(previous, "`"@
                    + field@
                    + "` first set here"@);
                d
            },
            AnalysisErrorKind::FieldTypeMismatch { expected, found, .. } => {
                let d = d.with_label(span, "expected `"@
                    + type_text(expected, false)
                    + "`, found `"@
                    + type_text(found, false)
                    + "`"@);
                let d = d.with_note("Omega has no implicit conversions; each value must have exactly its field's type"@);
                d
            },
            AnalysisErrorKind::MissingFieldInitializers { struct_name, missing } => {
                let d = d.with_label(span, "missing "@
                    + field_list_text(missing@));
                let d = d.with_note("a struct literal must set every field of `"@
                    + struct_name@
                    + "`; there is no implicit zero-initialization"@);
                d
            },
            AnalysisErrorKind::NoSuchStructFunction { struct_name, similar, .. } => {
                let d = d.with_label(span, "not found in `"@
                    + struct_name@
                    + "`"@);
                let d = match similar {
                    Some(name) => d.with_help("a function with a similar name exists: `"@
                        + name@
                        + "`"@),
                    None => d,
                };
                d
            },
            AnalysisErrorKind::MemberFunctionWithoutInstance { struct_name, function } => {
                let d = d.with_label(span, "this function takes `self`"@);
                let d = d.with_help("call it on a value of type `"@
                    + struct_name@
                    + "` instead: `value."@
                    + function@
                    + "(...)`"@);
                d
            },
            AnalysisErrorKind::StaticFunctionOnInstance { struct_name, function } => {
                let d = d.with_label(span, "this function does not take `self`"@);
                let d = d.with_help("call it through the type's name instead: `"@
                    + struct_name@
                    + "::"@
                    + function@
                    + "(...)`"@);
                d
            },
            AnalysisErrorKind::StaticAccessOnNonStruct { .. } => {
                let d = d.with_label(span, "only structs and enums have functions"@);
                d
            },
            AnalysisErrorKind::StructPathTooDeep { .. } => {
                let d = d.with_label(span, "a function has no items of its own"@);
                d
            },
            AnalysisErrorKind::NotAModule { .. } => {
                let d = d.with_label(span, "only modules and struct/enum types can contain items"@);
                d
            },
            _ => self.enum_annotated(d, span, pointer_bits),
        }
    }

    fn body_diagnostic(&self, d: Diagnostic, span: Span, pointer_bits: u32) -> (diagnostic: Diagnostic)
        requires
            self.renderable(),
            1 <= pointer_bits <= 126,
        ensures
            diagnostic@ == self.body_annotated(d@, span, pointer_bits),
    {
        match self {
            AnalysisErrorKind::MacroDependencyTooPrivate { item, macro_visibility, item_visibility } => {
                let d = d.with_label(span, {
                    let mut out: String = "`".to_owned();
                    out.append(item.as_ref());
                    out.append("` is only ");
                    out.append(item_visibility.word());
                    out
                });
                let d = d.with_note({
                    let mut out: String = "the macro that names it is ".to_owned();
                    out.append(macro_visibility.word());
                    out
                });
                let d = d.with_help("make the item at least as visible as the macro, or reduce the macro's visibility".to_owned());
                d
            },
            AnalysisErrorKind::NotAValue(_) => {
                let d = d.with_label(span, "expected a value, found a type".to_owned());
                let d = d.with_note("a struct's name refers to the type itself; only its instances hold values".to_owned());
                d
            },
            AnalysisErrorKind::UnresolvedGenericParam(name) => {
                let d = d.with_label(span, {
                    let mut out: String = "cannot deduce `".to_owned();
                    out.append(name.as_ref());
                    out.append("` from this call's arguments");
                    out
                });
                let d = d.with_note("a generic function's type parameters are deduced from its argument types only".to_owned());
                d
            },
            AnalysisErrorKind::GenericParamFromFatPointer { parameter, found } => {
                let d = d.with_label(span, {
                    let mut out: String = "cannot deduce `".to_owned();
                    out.append(parameter.as_ref());
                    out.append("` from this call's arguments");
                    out
                });
                let d = d.with_note({
                    let mut out: String = "'".to_owned();
                    out.append(found.to_string().as_str());
                    out.append("' is a slice — a pointer with a length — so it does not match the thin pointer '*");
                    out.append(parameter.as_ref());
                    out.append("'");
                    out
                });
                let d = d.with_help({
                    let mut out: String = "take the value directly (`x: ".to_owned();
                    out.append(parameter.as_ref());
                    out.append("`), or spell the slice out (`x: *[]");
                    out.append(parameter.as_ref());
                    out.append("`)");
                    out
                });
                d
            },
            AnalysisErrorKind::UnresolvedLiteralGeneric { named, generics } => {
                let d = d.with_label(span, {
                    let mut out: String = "cannot infer type argument(s) ".to_owned();
                    out.append(quoted_commas(generics, "`").as_str());
                    out.append(" of `");
                    out.append(named.as_ref());
                    out.append("` here");
                    out
                });
                let d = d.with_help({
                    let mut out: String = "write them explicitly, e.g. `".to_owned();
                    out.append(named.as_ref());
                    out.append("<...>`");
                    out
                });
                d
            },
            AnalysisErrorKind::DeferInsideLoopNotSupported => {
                let d = d.with_label(span, "`defer` cannot appear inside a loop body".to_owned());
                let d = d.with_help("move the `defer` outside the loop, or run the cleanup code directly".to_owned());
                d
            },
            AnalysisErrorKind::ReturnInsideDefer => {
                let d = d.with_label(span, "cannot `return` from inside a `defer` body".to_owned());
                let d = d.with_note("deferred code runs while the function is already returning".to_owned());
                d
            },
            AnalysisErrorKind::NestedDeferNotSupported => {
                let d = d.with_label(span, "`defer` cannot appear inside another `defer` body".to_owned());
                let d = d.with_note("a defer's body already runs exactly once, at function exit".to_owned());
                d
            },
            AnalysisErrorKind::StructLiteralNotAStruct { found } => {
                let d = d.with_label(span, {
                    let mut out: String = "`".to_owned();
                    out.append(found.to_string().as_str());
                    out.append("` is not a struct or union");
                    out
                });
                let d = d.with_note("only struct and union types can be built with `Name { field = value; ... }`".to_owned());
                d
            },
            AnalysisErrorKind::DuplicateFieldInitializer { field, previous } => {
                let d = d.with_label(span, {
                    let mut out: String = "`".to_owned();
                    out.append(field.as_ref());
                    out.append("` set again here");
                    out
                });
                let d = d.with_secondary_label(*previous, {
                    let mut out: String = "`".to_owned();
                    out.append(field.as_ref());
                    out.append("` first set here");
                    out
                });
                d
            },
            AnalysisErrorKind::FieldTypeMismatch { expected, found, .. } => {
                let d = d.with_label(span, {
                    let mut out: String = "expected `".to_owned();
                    out.append(expected.to_string().as_str());
                    out.append("`, found `");
                    out.append(found.to_string().as_str());
                    out.append("`");
                    out
                });
                let d = d.with_note("Omega has no implicit conversions; each value must have exactly its field's type".to_owned());
                d
            },
            AnalysisErrorKind::MissingFieldInitializers { struct_name, missing } => {
                let d = d.with_label(span, {
                    let mut out: String = "missing ".to_owned();
                    out.append(field_list(missing).as_str());
                    out
                });
                let d = d.with_note({
                    let mut out: String = "a struct literal must set every field of `".to_owned();
                    out.append(struct_name.as_ref());
                    out.append("`; there is no implicit zero-initialization");
                    out
                });
                d
            },
            AnalysisErrorKind::NoSuchStructFunction { struct_name, similar, .. } => {
                let d = d.with_label(span, {
                    let mut out: String = "not found in `".to_owned();
                    out.append(struct_name.as_ref());
                    out.append("`");
                    out
                });
                let d = match similar {
                    Some(name) => d.with_help({
                        let mut out: String = "a function with a similar name exists: `".to_owned();
                        out.append(name.as_ref());
                        out.append("`");
                        out
                    }),
                    None => d,
                };
                d
            },
            AnalysisErrorKind::MemberFunctionWithoutInstance { struct_name, function } => {
                let d = d.with_label(span, "this function takes `self`".to_owned());
                let d = d.with_help({
                    let mut out: String = "call it on a value of type `".to_owned();
                    out.append(struct_name.as_ref());
                    out.append("` instead: `value.");
                    out.append(function.as_ref());
                    out.append("(...)`");
                    out
                });
                d
            },
            AnalysisErrorKind::StaticFunctionOnInstance { struct_name, function } => {
                let d = d.with_label(span, "this function does not take `self`".to_owned());
                let d = d.with_help({
                    let mut out: String = "call it through the type's name instead: `".to_owned();
                    out.append(struct_name.as_ref());
                    out.append("::");
                    out.append(function.as_ref());
                    out.append("(...)`");
                    out
                });
                d
            },
            AnalysisErrorKind::StaticAccessOnNonStruct { .. } => {
                let d = d.with_label(span, "only structs and enums have functions".to_owned());
                d
            },
            AnalysisErrorKind::StructPathTooDeep { .. } => {
                let d = d.with_label(span, "a function has no items of its own".to_owned());
                d
            },
            AnalysisErrorKind::NotAModule { .. } => {
                let d = d.with_label(span, "only modules and struct/enum types can contain items".to_owned());
                d
            },
            _ => self.enum_diagnostic(d, span, pointer_bits),
        }
    }

    /// The labels and footers of errors in slices, arrays and conditions.
    pub open spec fn value_annotated(&self, d: DiagnosticView, span: Span, pointer_bits: u32) -> DiagnosticView {
        match *self {
            AnalysisErrorKind::NotSliceable { found } => {
                let d = d.with_label(span, "this has type `"@
                    + type_text(found, false)
                    + "`, which cannot be sliced"@);
                let d = d.with_note("only sized arrays (`[N]T`), unsized arrays (`*[]T`), slices (`*[?]T`), and strings (`*str`) support `[start..end]`"@);
                d
            },
            AnalysisErrorKind::SliceRequiresAddressOf => {
                let d = d.with_label(span, "a slice expression must be prefixed with `&` or `&mut`"@);
                let d = d.with_note("write `&base[start..end]` for an immutable slice, or `&mut base[start..end]` for a mutable one"@);
                d
            },
            AnalysisErrorKind::ImmutableSliceSource => {
                let d = d.with_label(span, "cannot take a mutable slice of an immutable slice"@);
                let d = d.with_note("this slice value is immutable, regardless of whether the binding holding it is `mut`"@);
                d
            },
            AnalysisErrorKind::InvalidSliceBound { ty } => {
                let d = d.with_label(span, "slice bounds must be `i32`, found `"@
                    + type_text(ty, false)
                    + "`"@);
                d
            },
            AnalysisErrorKind::MissingSliceEnd => {
                let d = d.with_label(span, "this range has no end bound"@);
                let d = d.with_note("an unsized array (`*[]T`) has no length to default a missing end to -- unlike a sized array or an existing slice"@);
                let d = d.with_help("write an explicit end, e.g. `&arr[start..<end]`"@);
                d
            },
            AnalysisErrorKind::CompPointerSliceNotSupported => {
                let d = d.with_label(span, "slicing a 'comp'-bound unsized array is not supported"@);
                d
            },
            AnalysisErrorKind::RangeNotAllowedHere => {
                let d = d.with_label(span, "bare `..` has no type to determine its bounds"@);
                let d = d.with_note("inside an index or match pattern, `..` is contextual; as a value it needs a bound or an expected `Range<T>` type"@);
                d
            },
            AnalysisErrorKind::RangeNeedsBounded { ty } => {
                let d = d.with_label(span, "open ranges over `"@
                    + type_text(ty, false)
                    + "` need `Bounded`"@);
                let d = d.with_help("supply both bounds, or conform the element type to `core::range::Bounded`"@);
                d
            },
            AnalysisErrorKind::EmptyArrayLiteral => {
                let d = d.with_label(span, "cannot infer what `[]` holds"@);
                let d = d.with_note("an array literal's type comes from its first element"@);
                d
            },
            AnalysisErrorKind::ArrayElementTypeMismatch { expected, found } => {
                let d = d.with_label(span, "expected `"@
                    + type_text(expected, false)
                    + "`, found `"@
                    + type_text(found, false)
                    + "`"@);
                let d = d.with_note("every element of an array literal must have the first element's type"@);
                d
            },
            AnalysisErrorKind::ArraySizeNotInferable => {
                let d = d.with_label(span, "cannot infer this array's length"@);
                let d = d.with_help("an `[]T`-typed declaration's length is inferred from an array-literal initializer"@);
                d
            },
            AnalysisErrorKind::ConstSliceCannotBeMutable => {
                let d = d.with_label(span, "a compile-time slice cannot be mutable"@);
                let d = d.with_note("compile-time slice data is embedded directly in the binary, like a string literal"@);
                let d = d.with_help("write `&[...]` (without `mut`)"@);
                d
            },
            AnalysisErrorKind::ConstSliceElementNotConstant => {
                let d = d.with_label(span, "not a literal constant"@);
                let d = d.with_note("a compile-time slice's contents are baked into the binary,\nso every element must be a literal (a number, string, bool, char, or nested compile-time slice)"@);
                d
            },
            AnalysisErrorKind::ConstSliceElementTypeMismatch { expected, found } => {
                let d = d.with_label(span, "expected `"@
                    + type_text(expected, false)
                    + "`, found "@
                    + found@);
                d
            },
            AnalysisErrorKind::BinaryOperandTypeMismatch { left, left_span, right, right_span } => {
                let d = d.with_secondary_label(left_span, "this is `"@
                    + type_text(left, false)
                    + "`"@);
                let d = d.with_label(right_span, "this is `"@
                    + type_text(right, false)
                    + "`"@);
                let d = d.with_note("Omega has no implicit numeric conversions; both operands must have exactly the same type"@);
                d
            },
            AnalysisErrorKind::FloatRemainder => {
                let d = d.with_label(span, "`%` requires integer operands"@);
                let d = d.with_note("there is no native float remainder instruction (C's `%` is integer-only too)"@);
                d
            },
            AnalysisErrorKind::NonBoolCondition { ty } => {
                let d = d.with_label(span, "expected `bool`, found `"@
                    + type_text(ty, false)
                    + "`"@);
                let d = d.with_note("conditions must be `bool`; there is no implicit truthiness"@);
                d
            },
            AnalysisErrorKind::IfBranchTypeMismatch { expected, found } => {
                let d = d.with_label(span, "this branch produces `"@
                    + type_text(found, false)
                    + "`, but earlier branches produce `"@
                    + type_text(expected, false)
                    + "`"@);
                let d = d.with_note("every branch of an `if` used as an expression must produce the same type"@);
                d
            },
            AnalysisErrorKind::ReturnTypeMismatch { expected, found } => {
                let d = d.with_label(span, "expected `"@
                    + type_text(expected, false)
                    + "` because of the declared return type, found `"@
                    + type_text(found, false)
                    + "`"@);
                d
            },
            AnalysisErrorKind::IncrementTargetNotAPlace => {
                let d = d.with_label(span, "cannot increment/decrement this expression"@);
                let d = d.with_note("`++`/`--` need somewhere to store the result: a variable, field, index, or dereference"@);
                d
            },
            AnalysisErrorKind::InvalidIncrementOperand { ty } => {
                let d = d.with_label(span, "`++`/`--` require a numeric operand, but this is `"@
                    + type_text(ty, false)
                    + "`"@);
                d
            },
            AnalysisErrorKind::ForLoopMissingCondition => {
                let d = d.with_label(span, "this `for` has no condition clause"@);
                let d = d.with_help("write `for init; condition; post { ... }`, or use `while true { ... }` for an intentionally infinite loop"@);
                d
            },
            AnalysisErrorKind::BreakOutsideLoop => {
                let d = d.with_label(span, "cannot `break` outside of a `while`/`for` loop"@);
                d
            },
            AnalysisErrorKind::ContinueOutsideLoop => {
                let d = d.with_label(span, "cannot `continue` outside of a `while`/`for` loop"@);
                d
            },
            _ => self.body_annotated(d, span, pointer_bits),
        }
    }

    fn value_diagnostic(&self, d: Diagnostic, span: Span, pointer_bits: u32) -> (diagnostic: Diagnostic)
        requires
            self.renderable(),
            1 <= pointer_bits <= 126,
        ensures
            diagnostic@ == self.value_annotated(d@, span, pointer_bits),
    {
        match self {
            AnalysisErrorKind::NotSliceable { found } => {
                let d = d.with_label(span, {
                    let mut out: String = "this has type `".to_owned();
                    out.append(found.to_string().as_str());
                    out.append("`, which cannot be sliced");
                    out
                });
                let d = d.with_note("only sized arrays (`[N]T`), unsized arrays (`*[]T`), slices (`*[?]T`), and strings (`*str`) support `[start..end]`".to_owned());
                d
            },
            AnalysisErrorKind::SliceRequiresAddressOf => {
                let d = d.with_label(span, "a slice expression must be prefixed with `&` or `&mut`".to_owned());
                let d = d.with_note("write `&base[start..end]` for an immutable slice, or `&mut base[start..end]` for a mutable one".to_owned());
                d
            },
            AnalysisErrorKind::ImmutableSliceSource => {
                let d = d.with_label(span, "cannot take a mutable slice of an immutable slice".to_owned());
                let d = d.with_note("this slice value is immutable, regardless of whether the binding holding it is `mut`".to_owned());
                d
            },
            AnalysisErrorKind::InvalidSliceBound { ty } => {
                let d = d.with_label(span, {
                    let mut out: String = "slice bounds must be `i32`, found `".to_owned();
                    out.append(ty.to_string().as_str());
                    out.append("`");
                    out
                });
                d
            },
            AnalysisErrorKind::MissingSliceEnd => {
                let d = d.with_label(span, "this range has no end bound".to_owned());
                let d = d.with_note("an unsized array (`*[]T`) has no length to default a missing end to -- unlike a sized array or an existing slice".to_owned());
                let d = d.with_help("write an explicit end, e.g. `&arr[start..<end]`".to_owned());
                d
            },
            AnalysisErrorKind::CompPointerSliceNotSupported => {
                let d = d.with_label(span, "slicing a 'comp'-bound unsized array is not supported".to_owned());
                d
            },
            AnalysisErrorKind::RangeNotAllowedHere => {
                let d = d.with_label(span, "bare `..` has no type to determine its bounds".to_owned());
                let d = d.with_note("inside an index or match pattern, `..` is contextual; as a value it needs a bound or an expected `Range<T>` type".to_owned());
                d
            },
            AnalysisErrorKind::RangeNeedsBounded { ty } => {
                let d = d.with_label(span, {
                    let mut out: String = "open ranges over `".to_owned();
                    out.append(ty.to_string().as_str());
                    out.append("` need `Bounded`");
                    out
                });
                let d = d.with_help("supply both bounds, or conform the element type to `core::range::Bounded`".to_owned());
                d
            },
            AnalysisErrorKind::EmptyArrayLiteral => {
                let d = d.with_label(span, "cannot infer what `[]` holds".to_owned());
                let d = d.with_note("an array literal's type comes from its first element".to_owned());
                d
            },
            AnalysisErrorKind::ArrayElementTypeMismatch { expected, found } => {
                let d = d.with_label(span, {
                    let mut out: String = "expected `".to_owned();
                    out.append(expected.to_string().as_str());
                    out.append("`, found `");
                    out.append(found.to_string().as_str());
                    out.append("`");
                    out
                });
                let d = d.with_note("every element of an array literal must have the first element's type".to_owned());
                d
            },
            AnalysisErrorKind::ArraySizeNotInferable => {
                let d = d.with_label(span, "cannot infer this array's length".to_owned());
                let d = d.with_help("an `[]T`-typed declaration's length is inferred from an array-literal initializer".to_owned());
                d
            },
            AnalysisErrorKind::ConstSliceCannotBeMutable => {
                let d = d.with_label(span, "a compile-time slice cannot be mutable".to_owned());
                let d = d.with_note("compile-time slice data is embedded directly in the binary, like a string literal".to_owned());
                let d = d.with_help("write `&[...]` (without `mut`)".to_owned());
                d
            },
            AnalysisErrorKind::ConstSliceElementNotConstant => {
                let d = d.with_label(span, "not a literal constant".to_owned());
                let d = d.with_note("a compile-time slice's contents are baked into the binary,\nso every element must be a literal (a number, string, bool, char, or nested compile-time slice)".to_owned());
                d
            },
            AnalysisErrorKind::ConstSliceElementTypeMismatch { expected, found } => {
                let d = d.with_label(span, {
                    let mut out: String = "expected `".to_owned();
                    out.append(expected.to_string().as_str());
                    out.append("`, found ");
                    out.append(found.as_str());
                    out
                });
                d
            },
            AnalysisErrorKind::BinaryOperandTypeMismatch { left, left_span, right, right_span } => {
                let d = d.with_secondary_label(*left_span, {
                    let mut out: String = "this is `".to_owned();
                    out.append(left.to_string().as_str());
                    out.append("`");
                    out
                });
                let d = d.with_label(*right_span, {
                    let mut out: String = "this is `".to_owned();
                    out.append(right.to_string().as_str());
                    out.append("`");
                    out
                });
                let d = d.with_note("Omega has no implicit numeric conversions; both operands must have exactly the same type".to_owned());
                d
            },
            AnalysisErrorKind::FloatRemainder => {
                let d = d.with_label(span, "`%` requires integer operands".to_owned());
                let d = d.with_note("there is no native float remainder instruction (C's `%` is integer-only too)".to_owned());
                d
            },
            AnalysisErrorKind::NonBoolCondition { ty } => {
                let d = d.with_label(span, {
                    let mut out: String = "expected `bool`, found `".to_owned();
                    out.append(ty.to_string().as_str());
                    out.append("`");
                    out
                });
                let d = d.with_note("conditions must be `bool`; there is no implicit truthiness".to_owned());
                d
            },
            AnalysisErrorKind::IfBranchTypeMismatch { expected, found } => {
                let d = d.with_label(span, {
                    let mut out: String = "this branch produces `".to_owned();
                    out.append(found.to_string().as_str());
                    out.append("`, but earlier branches produce `");
                    out.append(expected.to_string().as_str());
                    out.append("`");
                    out
                });
                let d = d.with_note("every branch of an `if` used as an expression must produce the same type".to_owned());
                d
            },
            AnalysisErrorKind::ReturnTypeMismatch { expected, found } => {
                let d = d.with_label(span, {
                    let mut out: String = "expected `".to_owned();
                    out.append(expected.to_string().as_str());
                    out.append("` because of the declared return type, found `");
                    out.append(found.to_string().as_str());
                    out.append("`");
                    out
                });
                d
            },
            AnalysisErrorKind::IncrementTargetNotAPlace => {
                let d = d.with_label(span, "cannot increment/decrement this expression".to_owned());
                let d = d.with_note("`++`/`--` need somewhere to store the result: a variable, field, index, or dereference".to_owned());
                d
            },
            AnalysisErrorKind::InvalidIncrementOperand { ty } => {
                let d = d.with_label(span, {
                    let mut out: String = "`++`/`--` require a numeric operand, but this is `".to_owned();
                    out.append(ty.to_string().as_str());
                    out.append("`");
                    out
                });
                d
            },
            AnalysisErrorKind::ForLoopMissingCondition => {
                let d = d.with_label(span, "this `for` has no condition clause".to_owned());
                let d = d.with_help("write `for init; condition; post { ... }`, or use `while true { ... }` for an intentionally infinite loop".to_owned());
                d
            },
            AnalysisErrorKind::BreakOutsideLoop => {
                let d = d.with_label(span, "cannot `break` outside of a `while`/`for` loop".to_owned());
                d
            },
            AnalysisErrorKind::ContinueOutsideLoop => {
                let d = d.with_label(span, "cannot `continue` outside of a `while`/`for` loop".to_owned());
                d
            },
            _ => self.body_diagnostic(d, span, pointer_bits),
        }
    }

    /// The labels and footers of errors in names, operands and operators.
    pub open spec fn operand_annotated(&self, d: DiagnosticView, span: Span, pointer_bits: u32) -> DiagnosticView {
        match *self {
            AnalysisErrorKind::UndefinedVariable { name, similar } => {
                let d = d.with_label(span, "not found in this scope"@);
                let d = match similar {
                    Some(name) => d.with_help("a name with a similar spelling exists: `"@
                        + name@
                        + "`"@),
                    None => d,
                };
                d
            },
            AnalysisErrorKind::UndefinedPathHead { name, similar_module, similar_type } => {
                let d = d.with_label(span, "not a known module or struct"@);
                let d = match similar_type {
                    Some(similar) => d.with_help("a type with a similar name exists: `"@
                        + similar@
                        + "`"@),
                    None => d,
                };
                let d = match similar_module {
                    Some(similar) => d.with_help("an imported module with a similar name exists: `"@
                        + similar@
                        + "`"@),
                    None => d,
                };
                let d = if similar_type is None && similar_module is None {
                    d.with_note("if `"@
                        + name@
                        + "` is a module, it must be imported first: `import "@
                        + name@
                        + ";`"@)
                } else {
                    d
                };
                d
            },
            AnalysisErrorKind::NotAStruct { found } => {
                let d = d.with_label(span, "this has type `"@
                    + type_text(found, false)
                    + "`, which has no fields"@);
                let d = d.with_note("only struct values (and pointers to them) support field access"@);
                d
            },
            AnalysisErrorKind::NoSuchField { base, .. } => {
                let d = d.with_label(span, "`"@
                    + type_text(base, false)
                    + "` has no field by that name"@);
                d
            },
            AnalysisErrorKind::FieldNotVisible { field, base } => {
                let d = d.with_label(span, "`"@
                    + field@
                    + "` is not visible from this module"@);
                let d = d.with_help("mark the field `exposed`/`internal` on `"@
                    + type_text(base, false)
                    + "`, or bypass with `reveal`"@);
                d
            },
            AnalysisErrorKind::MethodNotVisible { method, base } => {
                let d = d.with_label(span, "`"@
                    + method@
                    + "` is not visible from this module"@);
                let d = d.with_help("mark the method `exposed`/`internal` on `"@
                    + type_text(base, false)
                    + "`, or bypass with `reveal`"@);
                d
            },
            AnalysisErrorKind::NotAnArray { found } => {
                let d = d.with_label(span, "this has type `"@
                    + type_text(found, false)
                    + "`, which cannot be indexed"@);
                let d = d.with_note("only sized arrays (`[N]T`), unsized arrays (`*[]T`), and slices (`*[?]T`) support indexing"@);
                d
            },
            AnalysisErrorKind::WrongArgumentCount { expected, found } => {
                let d = d.with_label(span, "expected "@
                    + decimal(expected as nat)
                    + " "@
                    + plural_text(expected as nat, "argument"@)
                    + ", found "@
                    + decimal(found as nat));
                d
            },
            AnalysisErrorKind::ArgumentTypeMismatch { expected, found } => {
                let d = d.with_label(span, "expected `"@
                    + type_text(expected, false)
                    + "`, found `"@
                    + type_text(found, false)
                    + "`"@);
                let d = d.with_note("Omega has no implicit conversions; each argument must match its parameter's type exactly"@);
                d
            },
            AnalysisErrorKind::UnresolvedCallee => {
                let d = d.with_label(span, "this is not callable"@);
                d
            },
            AnalysisErrorKind::InvalidNumberType(_) => {
                let d = d.with_label(span, "not a numeric type"@);
                let d = d.with_note("valid numeric types are i8 i16 i32 i64 isize, u8 u16 u32 u64 usize, and f32 f64"@);
                d
            },
            AnalysisErrorKind::UnresolvedInnerExpression => {
                let d = d.with_label(span, "could not resolve this expression"@);
                d
            },
            AnalysisErrorKind::Redeclaration { name, previous } => {
                let d = d.with_label(span, "`"@
                    + name@
                    + "` declared again here"@);
                let d = d.with_note("a name can only be declared once per scope; shadowing an outer scope is allowed"@);
                let d = match previous {
                    Some(at) => d.with_secondary_label(at, "`"@
                        + name@
                        + "` first declared here"@),
                    None => d,
                };
                d
            },
            AnalysisErrorKind::AssignmentTargetNotAPlace => {
                let d = d.with_label(span, "cannot assign to this expression"@);
                let d = d.with_note("only variables, fields, indexes, and dereferences can be assigned to"@);
                d
            },
            AnalysisErrorKind::AssignmentTypeMismatch { target, value } => {
                let d = d.with_label(span, "expected `"@
                    + type_text(target, false)
                    + "`, found `"@
                    + type_text(value, false)
                    + "`"@);
                let d = d.with_note("Omega has no implicit conversions; the value must have exactly the target's type"@);
                let d = match plain_enum_name(target, value) {
                    Some(name) => d.with_help(
                        "declare the variable with the plain enum type to hold any variant: `name : "@
                            + name
                            + " = ...;`"@,
                    ),
                    None => d,
                };
                d
            },
            AnalysisErrorKind::CompoundAssignTargetNotAPlace => {
                let d = d.with_label(span, "cannot assign to this expression"@);
                let d = d.with_note("only variables, fields, indexes, and dereferences can be assigned to"@);
                d
            },
            AnalysisErrorKind::NumberLiteralOutOfRange { ty, .. } => {
                let d = d.with_label(span, "does not fit in `"@
                    + type_text(ty, false)
                    + "`"@);
                let d = match range_text(ty, pointer_bits) {
                    Some(range) => d.with_note(
                        "`"@ + type_text(ty, false) + "` can hold values from "@ + range,
                    ),
                    None => d,
                };
                d
            },
            AnalysisErrorKind::NotAPointer { found } => {
                let d = d.with_label(span, "this has type `"@
                    + type_text(found, false)
                    + "`, which cannot be dereferenced"@);
                d
            },
            AnalysisErrorKind::AddressOfNotAPlace => {
                let d = d.with_label(span, "cannot take the address of this expression"@);
                let d = d.with_note("only values with a memory location (variables, fields, indexes, dereferences) have an address"@);
                d
            },
            AnalysisErrorKind::InvalidBinaryOperand { op, ty } => {
                let d = d.with_label(span, "`"@
                    + op.spelling()
                    + "` requires numeric operands, but this is `"@
                    + type_text(ty, false)
                    + "`"@);
                d
            },
            AnalysisErrorKind::CharArithmeticNotAllowed { op } => {
                let d = d.with_label(span, "`"@
                    + op@
                    + "` is not defined for `char`"@);
                let d = d.with_help("cast the character explicitly before arithmetic, for example `<u32>c + 1`"@);
                d
            },
            AnalysisErrorKind::PointerPairArithmetic { op } => {
                let d = d.with_label(span, "`"@
                    + op.spelling()
                    + "` is not defined between two pointers"@);
                let d = d.with_note("only `-` and comparisons are defined between two pointers"@);
                let d = d.with_help("cast to `usize` if raw address arithmetic is intended"@);
                d
            },
            AnalysisErrorKind::InvalidNegateOperand { ty } => {
                let d = d.with_label(span, "this has type `"@
                    + type_text(ty, false)
                    + "`"@);
                let d = d.with_note("unary `-` requires a signed integer or a float"@);
                d
            },
            AnalysisErrorKind::InvalidBitNotOperand { ty } => {
                let d = d.with_label(span, "this has type `"@
                    + type_text(ty, false)
                    + "`"@);
                let d = d.with_note("unary `~` requires a signed or unsigned integer"@);
                d
            },
            AnalysisErrorKind::FloatBitwiseOperand => {
                let d = d.with_label(span, "bitwise/shift operators require integer operands"@);
                let d = d.with_note("there is no native float bitwise/shift instruction"@);
                d
            },
            _ => self.value_annotated(d, span, pointer_bits),
        }
    }

    fn operand_diagnostic(&self, d: Diagnostic, span: Span, pointer_bits: u32) -> (diagnostic: Diagnostic)
        requires
            self.renderable(),
            1 <= pointer_bits <= 126,
        ensures
            diagnostic@ == self.operand_annotated(d@, span, pointer_bits),
    {
        match self {
            AnalysisErrorKind::UndefinedVariable { name, similar } => {
                let d = d.with_label(span, "not found in this scope".to_owned());
                let d = match similar {
                    Some(name) => d.with_help({
                        let mut out: String = "a name with a similar spelling exists: `".to_owned();
                        out.append(name.as_ref());
                        out.append("`");
                        out
                    }),
                    None => d,
                };
                d
            },
            AnalysisErrorKind::UndefinedPathHead { name, similar_module, similar_type } => {
                let d = d.with_label(span, "not a known module or struct".to_owned());
                let d = match similar_type {
                    Some(similar) => d.with_help({
                        let mut out: String = "a type with a similar name exists: `".to_owned();
                        out.append(similar.as_ref());
                        out.append("`");
                        out
                    }),
                    None => d,
                };
                let d = match similar_module {
                    Some(similar) => d.with_help({
                        let mut out: String = "an imported module with a similar name exists: `".to_owned();
                        out.append(similar.as_ref());
                        out.append("`");
                        out
                    }),
                    None => d,
                };
                let d = if similar_type.is_none() && similar_module.is_none() {
                    d.with_note({
                        let mut out: String = "if `".to_owned();
                        out.append(name.as_ref());
                        out.append("` is a module, it must be imported first: `import ");
                        out.append(name.as_ref());
                        out.append(";`");
                        out
                    })
                } else {
                    d
                };
                d
            },
            AnalysisErrorKind::NotAStruct { found } => {
                let d = d.with_label(span, {
                    let mut out: String = "this has type `".to_owned();
                    out.append(found.to_string().as_str());
                    out.append("`, which has no fields");
                    out
                });
                let d = d.with_note("only struct values (and pointers to them) support field access".to_owned());
                d
            },
            AnalysisErrorKind::NoSuchField { base, .. } => {
                let d = d.with_label(span, {
                    let mut out: String = "`".to_owned();
                    out.append(base.to_string().as_str());
                    out.append("` has no field by that name");
                    out
                });
                d
            },
            AnalysisErrorKind::FieldNotVisible { field, base } => {
                let d = d.with_label(span, {
                    let mut out: String = "`".to_owned();
                    out.append(field.as_ref());
                    out.append("` is not visible from this module");
                    out
                });
                let d = d.with_help({
                    let mut out: String = "mark the field `exposed`/`internal` on `".to_owned();
                    out.append(base.to_string().as_str());
                    out.append("`, or bypass with `reveal`");
                    out
                });
                d
            },
            AnalysisErrorKind::MethodNotVisible { method, base } => {
                let d = d.with_label(span, {
                    let mut out: String = "`".to_owned();
                    out.append(method.as_ref());
                    out.append("` is not visible from this module");
                    out
                });
                let d = d.with_help({
                    let mut out: String = "mark the method `exposed`/`internal` on `".to_owned();
                    out.append(base.to_string().as_str());
                    out.append("`, or bypass with `reveal`");
                    out
                });
                d
            },
            AnalysisErrorKind::NotAnArray { found } => {
                let d = d.with_label(span, {
                    let mut out: String = "this has type `".to_owned();
                    out.append(found.to_string().as_str());
                    out.append("`, which cannot be indexed");
                    out
                });
                let d = d.with_note("only sized arrays (`[N]T`), unsized arrays (`*[]T`), and slices (`*[?]T`) support indexing".to_owned());
                d
            },
            AnalysisErrorKind::WrongArgumentCount { expected, found } => {
                let d = d.with_label(span, {
                    let mut out: String = "expected ".to_owned();
                    out.append(decimal_text(*expected as u128).as_str());
                    out.append(" ");
                    out.append(plural(*expected, "argument").as_str());
                    out.append(", found ");
                    out.append(decimal_text(*found as u128).as_str());
                    out
                });
                d
            },
            AnalysisErrorKind::ArgumentTypeMismatch { expected, found } => {
                let d = d.with_label(span, {
                    let mut out: String = "expected `".to_owned();
                    out.append(expected.to_string().as_str());
                    out.append("`, found `");
                    out.append(found.to_string().as_str());
                    out.append("`");
                    out
                });
                let d = d.with_note("Omega has no implicit conversions; each argument must match its parameter's type exactly".to_owned());
                d
            },
            AnalysisErrorKind::UnresolvedCallee => {
                let d = d.with_label(span, "this is not callable".to_owned());
                d
            },
            AnalysisErrorKind::InvalidNumberType(_) => {
                let d = d.with_label(span, "not a numeric type".to_owned());
                let d = d.with_note("valid numeric types are i8 i16 i32 i64 isize, u8 u16 u32 u64 usize, and f32 f64".to_owned());
                d
            },
            AnalysisErrorKind::UnresolvedInnerExpression => {
                let d = d.with_label(span, "could not resolve this expression".to_owned());
                d
            },
            AnalysisErrorKind::Redeclaration { name, previous } => {
                let d = d.with_label(span, {
                    let mut out: String = "`".to_owned();
                    out.append(name.as_ref());
                    out.append("` declared again here");
                    out
                });
                let d = d.with_note("a name can only be declared once per scope; shadowing an outer scope is allowed".to_owned());
                let d = match previous {
                    Some(at) => d.with_secondary_label(*at, {
                        let mut out: String = "`".to_owned();
                        out.append(name.as_ref());
                        out.append("` first declared here");
                        out
                    }),
                    None => d,
                };
                d
            },
            AnalysisErrorKind::AssignmentTargetNotAPlace => {
                let d = d.with_label(span, "cannot assign to this expression".to_owned());
                let d = d.with_note("only variables, fields, indexes, and dereferences can be assigned to".to_owned());
                d
            },
            AnalysisErrorKind::AssignmentTypeMismatch { target, value } => {
                let d = d.with_label(span, {
                    let mut out: String = "expected `".to_owned();
                    out.append(target.to_string().as_str());
                    out.append("`, found `");
                    out.append(value.to_string().as_str());
                    out.append("`");
                    out
                });
                let d = d.with_note("Omega has no implicit conversions; the value must have exactly the target's type".to_owned());
                let d = match plain_enum(target, value) {
                    Some(name) => d.with_help({
                        let mut out: String = "declare the variable with the plain enum type to hold any variant: `name : ".to_owned();
                        out.append(name.as_ref());
                        out.append(" = ...;`");
                        out
                    }),
                    None => d,
                };
                d
            },
            AnalysisErrorKind::CompoundAssignTargetNotAPlace => {
                let d = d.with_label(span, "cannot assign to this expression".to_owned());
                let d = d.with_note("only variables, fields, indexes, and dereferences can be assigned to".to_owned());
                d
            },
            AnalysisErrorKind::NumberLiteralOutOfRange { ty, .. } => {
                let d = d.with_label(span, {
                    let mut out: String = "does not fit in `".to_owned();
                    out.append(ty.to_string().as_str());
                    out.append("`");
                    out
                });
                let d = match type_range(ty, pointer_bits) {
                    Some(range) => d.with_note({
                        let mut out: String = "`".to_owned();
                        out.append(ty.to_string().as_str());
                        out.append("` can hold values from ");
                        out.append(range.as_str());
                        out
                    }),
                    None => d,
                };
                d
            },
            AnalysisErrorKind::NotAPointer { found } => {
                let d = d.with_label(span, {
                    let mut out: String = "this has type `".to_owned();
                    out.append(found.to_string().as_str());
                    out.append("`, which cannot be dereferenced");
                    out
                });
                d
            },
            AnalysisErrorKind::AddressOfNotAPlace => {
                let d = d.with_label(span, "cannot take the address of this expression".to_owned());
                let d = d.with_note("only values with a memory location (variables, fields, indexes, dereferences) have an address".to_owned());
                d
            },
            AnalysisErrorKind::InvalidBinaryOperand { op, ty } => {
                let d = d.with_label(span, {
                    let mut out: String = "`".to_owned();
                    out.append(op.symbol());
                    out.append("` requires numeric operands, but this is `");
                    out.append(ty.to_string().as_str());
                    out.append("`");
                    out
                });
                d
            },
            AnalysisErrorKind::CharArithmeticNotAllowed { op } => {
                let d = d.with_label(span, {
                    let mut out: String = "`".to_owned();
                    out.append(op.as_str());
                    out.append("` is not defined for `char`");
                    out
                });
                let d = d.with_help("cast the character explicitly before arithmetic, for example `<u32>c + 1`".to_owned());
                d
            },
            AnalysisErrorKind::PointerPairArithmetic { op } => {
                let d = d.with_label(span, {
                    let mut out: String = "`".to_owned();
                    out.append(op.symbol());
                    out.append("` is not defined between two pointers");
                    out
                });
                let d = d.with_note("only `-` and comparisons are defined between two pointers".to_owned());
                let d = d.with_help("cast to `usize` if raw address arithmetic is intended".to_owned());
                d
            },
            AnalysisErrorKind::InvalidNegateOperand { ty } => {
                let d = d.with_label(span, {
                    let mut out: String = "this has type `".to_owned();
                    out.append(ty.to_string().as_str());
                    out.append("`");
                    out
                });
                let d = d.with_note("unary `-` requires a signed integer or a float".to_owned());
                d
            },
            AnalysisErrorKind::InvalidBitNotOperand { ty } => {
                let d = d.with_label(span, {
                    let mut out: String = "this has type `".to_owned();
                    out.append(ty.to_string().as_str());
                    out.append("`");
                    out
                });
                let d = d.with_note("unary `~` requires a signed or unsigned integer".to_owned());
                d
            },
            AnalysisErrorKind::FloatBitwiseOperand => {
                let d = d.with_label(span, "bitwise/shift operators require integer operands".to_owned());
                let d = d.with_note("there is no native float bitwise/shift instruction".to_owned());
                d
            },
            _ => self.value_diagnostic(d, span, pointer_bits),
        }
    }

    /// The renderable form of this error at `span`.
    pub open spec fn diagnostic(&self, span: Span, pointer_bits: u32) -> DiagnosticView {
        let d = DiagnosticView::error(self.message());
        match *self {
            AnalysisErrorKind::UnresolvedType(e) => e.diagnostic(span),
            AnalysisErrorKind::ModuleResolution(e) => e.diagnostic(Some(span)),
            _ => self.operand_annotated(d, span, pointer_bits),
        }
    }

    /// The full diagnostic. `span` is the error's own anchor span, which every
    /// primary label lands on unless the kind carries something more precise
    /// (e.g. `BinaryOperandTypeMismatch`'s per-operand spans). `pointer_bits`
    /// is the width of the target's pointers.
    pub fn to_diagnostic(&self, span: Span, pointer_bits: u32) -> (diagnostic: Diagnostic)
        requires
            self.renderable(),
            1 <= pointer_bits <= 126,
        ensures
            diagnostic@ == self.diagnostic(span, pointer_bits),
    {
        match self {
            AnalysisErrorKind::UnresolvedType(e) => type_resolution_diagnostic(e, span),
            AnalysisErrorKind::ModuleResolution(e) => resolve_error_diagnostic(e, Some(span)),
            _ => self.operand_diagnostic(Diagnostic::error(self.to_string()), span, pointer_bits),
        }
    }
}

} // verus!
