//! A declaration's type shape, matched without asking anything but the
//! bindings at hand.

use crate::hir::HirId;
use crate::resolved_type::{
    CallingConvention, CompIntType, CompScalar, ResolvedAnonymousEnum, ResolvedFunctionParam,
    ResolvedFunctionType, ResolvedGenericArg, ResolvedSpecApplication, ResolvedType,
};
use crate::syntax::{copy_names, names_view, same_names, Ident};
use crate::text::share;
use crate::type_alike::{
    alike, alike_functions, alike_types, lemma_alike_accepts, lemma_alike_canonical,
    lemma_alike_same,
};
use crate::type_eq::{accepted, same_arg, same_function, same_params, same_type};
use crate::type_key::canonical_members;
use std::rc::Rc;
use vstd::prelude::*;

verus! {

/// A type shape with holes where the declaration's own parameters go.
#[derive(Debug)]
pub enum TypePattern {
    Fixed(ResolvedType),
    Parameter(usize),
    Pointer(Rc<TypePattern>, bool),
    Slice(Rc<TypePattern>, bool),
    Array(Rc<TypePattern>, bool),
    SizedArray(Rc<TypePattern>, Rc<ArgumentPattern>),
    Nominal(Rc<Vec<Ident>>, Rc<Vec<ArgumentPattern>>),
    Function(Rc<Vec<TypePattern>>, Rc<TypePattern>, CallingConvention, bool),
    AnonymousEnum(Rc<Vec<TypePattern>>),
    SpecObject(Rc<Vec<SpecPattern>>, bool),
}

/// One spec application a pattern names.
///
/// The declaration's `HirId` is what matching compares; the spec's own
/// declared path is carried beside it because a linker symbol needs a
/// cross-compilation identity.
#[derive(Debug)]
pub struct SpecPattern {
    pub spec: HirId,
    pub module: Vec<Ident>,
    pub name: Ident,
    pub args: Vec<ArgumentPattern>,
}

/// One argument a pattern names.
#[derive(Debug)]
pub enum ArgumentPattern {
    Type(Rc<TypePattern>),
    Value(CompScalar),
    Parameter(usize),
}

/// What a declaration's parameters are bound to so far.
pub type Bindings = Vec<Option<ResolvedGenericArg>>;

impl Clone for TypePattern {
    fn clone(&self) -> (copy: Self)
        ensures
            copy == *self,
    {
        match self {
            TypePattern::Fixed(ty) => TypePattern::Fixed(ty.clone()),
            TypePattern::Parameter(index) => TypePattern::Parameter(*index),
            TypePattern::Pointer(inner, mutable) => TypePattern::Pointer(share(inner), *mutable),
            TypePattern::Slice(inner, mutable) => TypePattern::Slice(share(inner), *mutable),
            TypePattern::Array(inner, mutable) => TypePattern::Array(share(inner), *mutable),
            TypePattern::SizedArray(inner, length) => TypePattern::SizedArray(
                share(inner),
                share(length),
            ),
            TypePattern::Nominal(path, args) => TypePattern::Nominal(share(path), share(args)),
            TypePattern::Function(params, result, convention, variadic) => TypePattern::Function(
                share(params),
                share(result),
                *convention,
                *variadic,
            ),
            TypePattern::AnonymousEnum(members) => TypePattern::AnonymousEnum(share(members)),
            TypePattern::SpecObject(members, mutable) => TypePattern::SpecObject(
                share(members),
                *mutable,
            ),
        }
    }
}

/// The type parameter `index` is bound to.
pub open spec fn bound_type(bindings: Seq<Option<ResolvedGenericArg>>, index: usize) -> Option<
    ResolvedType,
> {
    if index < bindings.len() {
        match bindings[index as int] {
            Some(ResolvedGenericArg::Type(ty)) => Some(ty),
            _ => None,
        }
    } else {
        None
    }
}

/// The array length an argument denotes: a compile-time integer that fits 32
/// bits.
pub open spec fn length_of(
    argument: ArgumentPattern,
    bindings: Seq<Option<ResolvedGenericArg>>,
) -> Option<u32> {
    let value = match argument {
        ArgumentPattern::Value(value) => Some(value),
        ArgumentPattern::Parameter(index) => if index < bindings.len() {
            match bindings[index as int] {
                Some(ResolvedGenericArg::Comp(value)) => Some(value),
                _ => None,
            }
        } else {
            None
        },
        ArgumentPattern::Type(_) => None,
    };
    match value {
        Some(CompScalar::Int { value, .. }) => if 0 <= value <= u32::MAX {
            Some(value as u32)
        } else {
            None
        },
        _ => None,
    }
}

/// Whether the bindings determine the type this pattern denotes.
pub open spec fn resolvable(
    pattern: TypePattern,
    bindings: Seq<Option<ResolvedGenericArg>>,
) -> bool
    decreases pattern, 0int,
{
    match pattern {
        TypePattern::Fixed(_) => true,
        TypePattern::Parameter(index) => bound_type(bindings, index) is Some,
        TypePattern::Pointer(inner, _) => resolvable(*inner, bindings),
        TypePattern::Slice(inner, _) => resolvable(*inner, bindings),
        TypePattern::Array(inner, _) => resolvable(*inner, bindings),
        TypePattern::SizedArray(inner, length) => resolvable(*inner, bindings) && length_of(
            *length,
            bindings,
        ) is Some,
        TypePattern::Function(params, result, _, _) => all_resolvable(params@, bindings)
            && resolvable(*result, bindings),
        TypePattern::AnonymousEnum(members) => all_resolvable(members@, bindings),
        TypePattern::Nominal(_, _) | TypePattern::SpecObject(_, _) => false,
    }
}

/// [`resolvable`] for a list of patterns.
pub open spec fn all_resolvable(
    patterns: Seq<TypePattern>,
    bindings: Seq<Option<ResolvedGenericArg>>,
) -> bool
    decreases patterns, 0int,
{
    forall|i: int| 0 <= i < patterns.len() ==> resolvable(#[trigger] patterns[i], bindings)
}

/// Whether `ty` is the type this pattern denotes under the bindings.
pub open spec fn resolves_to(
    pattern: TypePattern,
    bindings: Seq<Option<ResolvedGenericArg>>,
    ty: ResolvedType,
) -> bool
    decreases pattern, 0int,
{
    match pattern {
        TypePattern::Fixed(fixed) => ty == fixed,
        TypePattern::Parameter(index) => bound_type(bindings, index) == Some(ty),
        TypePattern::Pointer(inner, mutable) => match ty {
            ResolvedType::Pointer { pointee, mutable: found } => found == mutable && resolves_to(
                *inner,
                bindings,
                *pointee,
            ),
            _ => false,
        },
        TypePattern::Slice(inner, mutable) => match ty {
            ResolvedType::Slice { item, mutable: found } => found == mutable && resolves_to(
                *inner,
                bindings,
                *item,
            ),
            _ => false,
        },
        TypePattern::Array(inner, mutable) => match ty {
            ResolvedType::Array(item, found) => found == mutable && resolves_to(
                *inner,
                bindings,
                *item,
            ),
            _ => false,
        },
        TypePattern::SizedArray(inner, length) => match ty {
            ResolvedType::SizedArray(item, size) => length_of(*length, bindings) == Some(size)
                && resolves_to(*inner, bindings, *item),
            _ => false,
        },
        TypePattern::Function(params, result, convention, variadic) => match ty {
            ResolvedType::Function(function) => {
                &&& function.params@.len() == params@.len()
                &&& forall|i: int|
                    0 <= i < params@.len() ==> (#[trigger] function.params@[i]).name is None
                        && resolves_to(params@[i], bindings, function.params@[i].ty)
                &&& resolves_to(*result, bindings, *function.return_type)
                &&& function.calling_convention == convention
                &&& function.is_variadic == variadic
                &&& function.self_mode is None
            },
            _ => false,
        },
        TypePattern::AnonymousEnum(members) => match ty {
            ResolvedType::AnonymousEnum { shape, variant: None } => exists|
                types: Seq<ResolvedType>,
            |
                {
                    &&& shape.members@ == #[trigger] canonical_members(types)
                    &&& types.len() == members@.len()
                    &&& forall|i: int|
                        0 <= i < members@.len() ==> resolves_to(
                            members@[i],
                            bindings,
                            #[trigger] types[i],
                        )
                },
            _ => false,
        },
        TypePattern::Nominal(_, _) | TypePattern::SpecObject(_, _) => false,
    }
}

/// [`resolves_to`] for lists.
pub open spec fn all_resolve_to(
    patterns: Seq<TypePattern>,
    bindings: Seq<Option<ResolvedGenericArg>>,
    types: Seq<ResolvedType>,
) -> bool {
    types.len() == patterns.len() && forall|i: int|
        0 <= i < patterns.len() ==> resolves_to(patterns[i], bindings, #[trigger] types[i])
}

/// A pattern denotes one type, whichever way it is built.
proof fn lemma_resolution_alike(
    pattern: &TypePattern,
    bindings: Seq<Option<ResolvedGenericArg>>,
    a: &ResolvedType,
    b: &ResolvedType,
)
    requires
        resolves_to(*pattern, bindings, *a),
        resolves_to(*pattern, bindings, *b),
    ensures
        alike(*a, *b),
    decreases pattern, 0int,
{
    match (pattern, a, b) {
        (
            TypePattern::Pointer(inner, _),
            ResolvedType::Pointer { pointee: p, .. },
            ResolvedType::Pointer { pointee: q, .. },
        ) => lemma_resolution_alike(&**inner, bindings, &**p, &**q),
        (
            TypePattern::Slice(inner, _),
            ResolvedType::Slice { item: p, .. },
            ResolvedType::Slice { item: q, .. },
        ) => lemma_resolution_alike(&**inner, bindings, &**p, &**q),
        (
            TypePattern::Array(inner, _),
            ResolvedType::Array(p, _),
            ResolvedType::Array(q, _),
        ) => lemma_resolution_alike(&**inner, bindings, &**p, &**q),
        (
            TypePattern::SizedArray(inner, _),
            ResolvedType::SizedArray(p, _),
            ResolvedType::SizedArray(q, _),
        ) => lemma_resolution_alike(&**inner, bindings, &**p, &**q),
        (
            TypePattern::Function(params, result, _, _),
            ResolvedType::Function(f),
            ResolvedType::Function(g),
        ) => {
            assert forall|i: int| 0 <= i < f.params@.len() implies alike(
                #[trigger] f.params@[i].ty,
                g.params@[i].ty,
            ) by {
                assert(resolves_to(params@[i], bindings, f.params@[i].ty));
                assert(g.params@[i].name is None);
                lemma_resolution_alike(&params@[i], bindings, &f.params@[i].ty, &g.params@[i].ty);
            }
            lemma_resolution_alike(&**result, bindings, &*f.return_type, &*g.return_type);
            assert(alike_functions(**f, **g));
        },
        (
            TypePattern::AnonymousEnum(members),
            ResolvedType::AnonymousEnum { shape: p, .. },
            ResolvedType::AnonymousEnum { shape: q, .. },
        ) => {
            let x = choose|types: Seq<ResolvedType>|
                {
                    &&& p.members@ == #[trigger] canonical_members(types)
                    &&& types.len() == members@.len()
                    &&& forall|i: int|
                        0 <= i < members@.len() ==> resolves_to(
                            members@[i],
                            bindings,
                            #[trigger] types[i],
                        )
                };
            let y = choose|types: Seq<ResolvedType>|
                {
                    &&& q.members@ == #[trigger] canonical_members(types)
                    &&& types.len() == members@.len()
                    &&& forall|i: int|
                        0 <= i < members@.len() ==> resolves_to(
                            members@[i],
                            bindings,
                            #[trigger] types[i],
                        )
                };
            assert forall|i: int| 0 <= i < x.len() implies alike(#[trigger] x[i], y[i]) by {
                assert(resolves_to(members@[i], bindings, x[i]));
                assert(resolves_to(members@[i], bindings, y[i]));
                lemma_resolution_alike(&members@[i], bindings, &x[i], &y[i]);
            }
            assert(alike_types(x, y));
            lemma_alike_canonical(x, y);
            assert(alike_types(p.members@, q.members@));
        },
        _ => {},
    }
}

/// Whether the type this pattern denotes is `found`.
pub open spec fn denotes(
    pattern: TypePattern,
    bindings: Seq<Option<ResolvedGenericArg>>,
    found: ResolvedType,
) -> bool {
    exists|ty: ResolvedType| #[trigger] resolves_to(pattern, bindings, ty) && same_type(ty, found)
}

/// Whether the type this pattern denotes accepts `found`.
pub open spec fn denotes_acceptor(
    pattern: TypePattern,
    bindings: Seq<Option<ResolvedGenericArg>>,
    found: ResolvedType,
) -> bool {
    exists|ty: ResolvedType| #[trigger] resolves_to(pattern, bindings, ty) && accepted(ty, found)
}

/// What a pattern denotes is one type: it is the same as `found`, and accepts
/// it, where any type the pattern resolves to does.
proof fn lemma_denotes(
    pattern: &TypePattern,
    bindings: Seq<Option<ResolvedGenericArg>>,
    ty: &ResolvedType,
    found: &ResolvedType,
)
    requires
        resolves_to(*pattern, bindings, *ty),
    ensures
        denotes(*pattern, bindings, *found) == same_type(*ty, *found),
        denotes_acceptor(*pattern, bindings, *found) == accepted(*ty, *found),
{
    if denotes(*pattern, bindings, *found) {
        let other = choose|other: ResolvedType| #[trigger]
            resolves_to(*pattern, bindings, other) && same_type(other, *found);
        lemma_resolution_alike(pattern, bindings, ty, &other);
        lemma_alike_same(ty, &other, found);
    }
    if denotes_acceptor(*pattern, bindings, *found) {
        let other = choose|other: ResolvedType| #[trigger]
            resolves_to(*pattern, bindings, other) && accepted(other, *found);
        lemma_resolution_alike(pattern, bindings, ty, &other);
        lemma_alike_accepts(ty, &other, found);
    }
}

/// Whether every parameter a pattern mentions has a place in `count`
/// bindings.
pub open spec fn in_range(pattern: TypePattern, count: nat) -> bool
    decreases pattern, 0int,
{
    match pattern {
        TypePattern::Fixed(_) => true,
        TypePattern::Parameter(index) => index < count,
        TypePattern::Pointer(inner, _) => in_range(*inner, count),
        TypePattern::Slice(inner, _) => in_range(*inner, count),
        TypePattern::Array(inner, _) => in_range(*inner, count),
        TypePattern::SizedArray(inner, length) => in_range(*inner, count) && argument_in_range(
            *length,
            count,
        ),
        TypePattern::Nominal(_, args) => arguments_in_range(args@, count),
        TypePattern::Function(params, result, _, _) => patterns_in_range(params@, count)
            && in_range(*result, count),
        TypePattern::AnonymousEnum(members) => patterns_in_range(members@, count),
        TypePattern::SpecObject(members, _) => forall|i: int|
            0 <= i < members@.len() ==> arguments_in_range(#[trigger] members@[i].args@, count),
    }
}

/// [`in_range`] for one argument.
pub open spec fn argument_in_range(argument: ArgumentPattern, count: nat) -> bool
    decreases argument, 0int,
{
    match argument {
        ArgumentPattern::Type(pattern) => in_range(*pattern, count),
        ArgumentPattern::Value(_) => true,
        ArgumentPattern::Parameter(index) => index < count,
    }
}

/// [`in_range`] for arguments.
pub open spec fn arguments_in_range(arguments: Seq<ArgumentPattern>, count: nat) -> bool
    decreases arguments, 0int,
{
    forall|i: int| 0 <= i < arguments.len() ==> argument_in_range(#[trigger] arguments[i], count)
}

/// [`in_range`] for patterns.
pub open spec fn patterns_in_range(patterns: Seq<TypePattern>, count: nat) -> bool
    decreases patterns, 0int,
{
    forall|i: int| 0 <= i < patterns.len() ==> in_range(#[trigger] patterns[i], count)
}

/// The absolute item path of a nominal type.
pub open spec fn nominal_path(ty: ResolvedType) -> Option<Seq<Seq<char>>> {
    match ty {
        ResolvedType::Struct(cell) => Some(names_view(cell.module@).push(cell.name@)),
        ResolvedType::Union(cell) => Some(names_view(cell.module@).push(cell.name@)),
        ResolvedType::Enum { cell, .. } => Some(names_view(cell.module@).push(cell.name@)),
        _ => None,
    }
}

/// The generic arguments of a nominal type.
pub open spec fn nominal_args(ty: ResolvedType) -> Seq<ResolvedGenericArg> {
    match ty {
        ResolvedType::Struct(cell) => cell.generic_args@,
        ResolvedType::Union(cell) => cell.generic_args@,
        ResolvedType::Enum { cell, .. } => cell.generic_args@,
        _ => Seq::empty(),
    }
}

fn full_path(module: &Vec<Ident>, name: &Ident) -> (path: Vec<Ident>)
    ensures
        names_view(path@) == names_view(module@).push(name@),
{
    let mut path: Vec<Ident> = copy_names(module);
    path.push(name.clone());
    assert(names_view(path@) =~= names_view(module@).push(name@));
    path
}

fn nominal(ty: &ResolvedType) -> (found: Option<(Vec<Ident>, &Vec<ResolvedGenericArg>)>)
    ensures
        match found {
            Some((path, args)) => nominal_path(*ty) == Some(names_view(path@)) && args@
                == nominal_args(*ty),
            None => nominal_path(*ty) is None,
        },
{
    match ty {
        ResolvedType::Struct(cell) => Some(
            (full_path(&cell.module, &cell.name), &cell.generic_args),
        ),
        ResolvedType::Union(cell) => Some(
            (full_path(&cell.module, &cell.name), &cell.generic_args),
        ),
        ResolvedType::Enum { cell, .. } => Some(
            (full_path(&cell.module, &cell.name), &cell.generic_args),
        ),
        _ => None,
    }
}

fn resolved_all(
    patterns: &Vec<TypePattern>,
    bindings: &Bindings,
) -> (types: Option<Vec<ResolvedType>>)
    ensures
        match types {
            Some(list) => all_resolvable(patterns@, bindings@) && all_resolve_to(
                patterns@,
                bindings@,
                list@,
            ),
            None => !all_resolvable(patterns@, bindings@),
        },
    decreases patterns, 0int,
{
    let mut types: Vec<ResolvedType> = Vec::new();
    let mut i: usize = 0;
    while i < patterns.len()
        invariant
            i <= patterns@.len(),
            types@.len() == i,
            forall|k: int|
                0 <= k < i ==> resolvable(#[trigger] patterns@[k], bindings@) && resolves_to(
                    patterns@[k],
                    bindings@,
                    types@[k],
                ),
        decreases patterns.len() - i,
    {
        match patterns[i].resolved(bindings) {
            Some(ty) => types.push(ty),
            None => {
                return None;
            },
        }
        i = i + 1;
    }
    Some(types)
}

impl ArgumentPattern {
    pub(crate) fn length(&self, bindings: &Bindings) -> (length: Option<u32>)
        ensures
            length == length_of(*self, bindings@),
    {
        let value: CompScalar = match self {
            ArgumentPattern::Value(value) => *value,
            ArgumentPattern::Parameter(index) => {
                if *index >= bindings.len() {
                    return None;
                }
                match &bindings[*index] {
                    Some(ResolvedGenericArg::Comp(value)) => *value,
                    _ => {
                        return None;
                    },
                }
            },
            ArgumentPattern::Type(_) => {
                return None;
            },
        };
        match value {
            CompScalar::Int { value, .. } => if 0 <= value && value <= 0xffff_ffff {
                Some(value as u32)
            } else {
                None
            },
            _ => None,
        }
    }
}

impl TypePattern {
    /// The type this pattern denotes, if the bindings determine it.
    pub fn resolved(&self, bindings: &Bindings) -> (found: Option<ResolvedType>)
        ensures
            match found {
                Some(ty) => resolvable(*self, bindings@) && resolves_to(*self, bindings@, ty),
                None => !resolvable(*self, bindings@),
            },
        decreases self, 0int,
    {
        match self {
            TypePattern::Fixed(ty) => Some(ty.clone()),
            TypePattern::Parameter(index) => {
                if *index >= bindings.len() {
                    return None;
                }
                match &bindings[*index] {
                    Some(ResolvedGenericArg::Type(ty)) => Some(ty.clone()),
                    _ => None,
                }
            },
            TypePattern::Pointer(inner, mutable) => match inner.resolved(bindings) {
                Some(ty) => Some(ResolvedType::Pointer { pointee: Rc::new(ty), mutable: *mutable }),
                None => None,
            },
            TypePattern::Slice(inner, mutable) => match inner.resolved(bindings) {
                Some(ty) => Some(ResolvedType::Slice { item: Rc::new(ty), mutable: *mutable }),
                None => None,
            },
            TypePattern::Array(inner, mutable) => match inner.resolved(bindings) {
                Some(ty) => Some(ResolvedType::Array(Rc::new(ty), *mutable)),
                None => None,
            },
            TypePattern::SizedArray(inner, length) => match inner.resolved(bindings) {
                Some(ty) => match length.length(bindings) {
                    Some(size) => Some(ResolvedType::SizedArray(Rc::new(ty), size)),
                    None => None,
                },
                None => None,
            },
            TypePattern::Function(params, result, convention, variadic) => {
                let types: Vec<ResolvedType> = match resolved_all(params, bindings) {
                    Some(types) => types,
                    None => {
                        return None;
                    },
                };
                let return_type: ResolvedType = match result.resolved(bindings) {
                    Some(ty) => ty,
                    None => {
                        return None;
                    },
                };
                let function_params: Vec<ResolvedFunctionParam> = anonymous_params(&types);
                assert forall|i: int| 0 <= i < params@.len() implies (
                #[trigger] function_params@[i]).name is None && resolves_to(
                    params@[i],
                    bindings@,
                    function_params@[i].ty,
                ) by {
                    assert(resolves_to(params@[i], bindings@, types@[i]));
                }
                Some(
                    ResolvedType::Function(
                        Rc::new(
                            ResolvedFunctionType {
                                params: function_params,
                                return_type: Rc::new(return_type),
                                is_variadic: *variadic,
                                self_mode: None,
                                calling_convention: *convention,
                            },
                        ),
                    ),
                )
            },
            TypePattern::AnonymousEnum(members) => match resolved_all(members, bindings) {
                Some(types) => {
                    let ghost listed = types@;
                    let shape: ResolvedAnonymousEnum = ResolvedAnonymousEnum::canonicalize(types);
                    assert(shape.members@ == canonical_members(listed));
                    assert forall|i: int| 0 <= i < members@.len() implies resolves_to(
                        members@[i],
                        bindings@,
                        #[trigger] listed[i],
                    ) by {}
                    Some(ResolvedType::AnonymousEnum { shape: Rc::new(shape), variant: None })
                },
                None => None,
            },
            TypePattern::Nominal(_, _) | TypePattern::SpecObject(_, _) => None,
        }
    }
}

fn anonymous_params(types: &Vec<ResolvedType>) -> (params: Vec<ResolvedFunctionParam>)
    ensures
        params@.len() == types@.len(),
        forall|i: int|
            0 <= i < types@.len() ==> #[trigger] params@[i] == (ResolvedFunctionParam {
                name: None,
                ty: types@[i],
            }),
{
    let mut params: Vec<ResolvedFunctionParam> = Vec::new();
    let mut i: usize = 0;
    while i < types.len()
        invariant
            i <= types@.len(),
            params@.len() == i,
            forall|k: int|
                0 <= k < i ==> #[trigger] params@[k] == (ResolvedFunctionParam {
                    name: None,
                    ty: types@[k],
                }),
        decreases types.len() - i,
    {
        params.push(ResolvedFunctionParam::anonymous(types[i].clone()));
        i = i + 1;
    }
    params
}

/// The bindings with `index` bound to `arg` unless it was bound before.
pub open spec fn first_binding(
    bindings: Seq<Option<ResolvedGenericArg>>,
    index: usize,
    arg: ResolvedGenericArg,
) -> Seq<Option<ResolvedGenericArg>> {
    if bindings[index as int] is Some {
        bindings
    } else {
        bindings.update(index as int, Some(arg))
    }
}

/// The bindings after matching this pattern against `found`: each parameter
/// met is bound to what stands in its place, and the first binding wins.
pub open spec fn inferred(
    pattern: TypePattern,
    found: ResolvedType,
    bindings: Seq<Option<ResolvedGenericArg>>,
) -> Seq<Option<ResolvedGenericArg>>
    decreases pattern, 0int,
{
    match pattern {
        TypePattern::Parameter(index) => first_binding(
            bindings,
            index,
            ResolvedGenericArg::Type(found.without_refinement()),
        ),
        TypePattern::Pointer(inner, _) => match found {
            ResolvedType::Pointer { pointee, .. } => inferred(*inner, *pointee, bindings),
            _ => bindings,
        },
        TypePattern::Slice(inner, _) => match found {
            ResolvedType::Slice { item, .. } => inferred(*inner, *item, bindings),
            _ => bindings,
        },
        TypePattern::Array(inner, _) => match found {
            ResolvedType::Array(item, _) => inferred(*inner, *item, bindings),
            _ => bindings,
        },
        TypePattern::SizedArray(inner, length) => match found {
            ResolvedType::SizedArray(item, size) => {
                let after = inferred(*inner, *item, bindings);
                match *length {
                    ArgumentPattern::Parameter(index) => first_binding(
                        after,
                        index,
                        ResolvedGenericArg::Comp(
                            CompScalar::Int { ty: CompIntType::USize, value: size as i128 },
                        ),
                    ),
                    _ => after,
                }
            },
            _ => bindings,
        },
        TypePattern::Nominal(path, args) => if nominal_path(found) == Some(names_view(path@)) {
            inferred_args(args@, nominal_args(found), shorter(args@.len(), nominal_args(found).len()), bindings)
        } else {
            bindings
        },
        TypePattern::Function(params, result, _, _) => match found {
            ResolvedType::Function(function) => inferred(
                *result,
                *function.return_type,
                inferred_params(
                    params@,
                    function.params@,
                    shorter(params@.len(), function.params@.len()),
                    bindings,
                ),
            ),
            _ => bindings,
        },
        _ => bindings,
    }
}

/// The lesser of two numbers.
pub open spec fn shorter(a: nat, b: nat) -> nat {
    if a < b {
        a
    } else {
        b
    }
}

/// [`inferred`] for the first `count` arguments, in order.
pub open spec fn inferred_args(
    patterns: Seq<ArgumentPattern>,
    found: Seq<ResolvedGenericArg>,
    count: nat,
    bindings: Seq<Option<ResolvedGenericArg>>,
) -> Seq<Option<ResolvedGenericArg>>
    decreases patterns, count,
{
    if count == 0 || count > patterns.len() {
        bindings
    } else {
        inferred_arg(
            patterns[count - 1],
            found[count - 1],
            inferred_args(patterns, found, (count - 1) as nat, bindings),
        )
    }
}

/// [`inferred`] for one argument.
pub open spec fn inferred_arg(
    pattern: ArgumentPattern,
    found: ResolvedGenericArg,
    bindings: Seq<Option<ResolvedGenericArg>>,
) -> Seq<Option<ResolvedGenericArg>>
    decreases pattern, 0int,
{
    match pattern {
        ArgumentPattern::Type(inner) => match found {
            ResolvedGenericArg::Type(ty) => inferred(*inner, ty, bindings),
            _ => bindings,
        },
        ArgumentPattern::Parameter(index) => first_binding(bindings, index, found),
        ArgumentPattern::Value(_) => bindings,
    }
}

/// [`inferred`] for the first `count` parameter types, in order.
pub open spec fn inferred_params(
    patterns: Seq<TypePattern>,
    found: Seq<ResolvedFunctionParam>,
    count: nat,
    bindings: Seq<Option<ResolvedGenericArg>>,
) -> Seq<Option<ResolvedGenericArg>>
    decreases patterns, count,
{
    if count == 0 || count > patterns.len() {
        bindings
    } else {
        inferred(
            patterns[count - 1],
            found[count - 1].ty,
            inferred_params(patterns, found, (count - 1) as nat, bindings),
        )
    }
}

fn bind_first(bindings: &mut Bindings, index: usize, arg: ResolvedGenericArg)
    requires
        index < old(bindings)@.len(),
    ensures
        final(bindings)@ == first_binding(old(bindings)@, index, arg),
        final(bindings)@.len() == old(bindings)@.len(),
{
    let unbound: bool = match &bindings[index] {
        Some(_) => false,
        None => true,
    };
    if unbound {
        bindings.set(index, Some(arg));
    }
}

impl TypePattern {
    /// Binds the parameters this pattern mentions to what stands in their
    /// place in `found`. A parameter that is already bound stays as it is.
    pub fn infer(&self, found: &ResolvedType, bindings: &mut Bindings)
        requires
            in_range(*self, old(bindings)@.len()),
        ensures
            final(bindings)@ == inferred(*self, *found, old(bindings)@),
            final(bindings)@.len() == old(bindings)@.len(),
        decreases self, 0int,
    {
        match (self, found) {
            (TypePattern::Parameter(index), _) => {
                bind_first(bindings, *index, ResolvedGenericArg::Type(found.widened()));
            },
            (TypePattern::Pointer(inner, _), ResolvedType::Pointer { pointee, .. }) => {
                inner.infer(pointee, bindings);
            },
            (TypePattern::Slice(inner, _), ResolvedType::Slice { item, .. }) => {
                inner.infer(item, bindings);
            },
            (TypePattern::Array(inner, _), ResolvedType::Array(item, _)) => {
                inner.infer(item, bindings);
            },
            (TypePattern::SizedArray(inner, length), ResolvedType::SizedArray(item, size)) => {
                inner.infer(item, bindings);
                if let ArgumentPattern::Parameter(index) = &**length {
                    assert(argument_in_range(**length, bindings@.len()));
                    bind_first(
                        bindings,
                        *index,
                        ResolvedGenericArg::Comp(
                            CompScalar::Int { ty: CompIntType::USize, value: *size as i128 },
                        ),
                    );
                }
            },
            (TypePattern::Nominal(path, args), _) => {
                if let Some((found_path, found_args)) = nominal(found) {
                    if same_names(path, &found_path) {
                        infer_args(args, found_args, bindings);
                    }
                }
            },
            (TypePattern::Function(params, result, _, _), ResolvedType::Function(function)) => {
                infer_params(params, &function.params, bindings);
                result.infer(&function.return_type, bindings);
            },
            _ => {},
        }
    }
}

fn infer_args(
    patterns: &Vec<ArgumentPattern>,
    found: &Vec<ResolvedGenericArg>,
    bindings: &mut Bindings,
)
    requires
        arguments_in_range(patterns@, old(bindings)@.len()),
    ensures
        final(bindings)@ == inferred_args(
            patterns@,
            found@,
            shorter(patterns@.len(), found@.len()),
            old(bindings)@,
        ),
        final(bindings)@.len() == old(bindings)@.len(),
    decreases patterns, 0int,
{
    let mut i: usize = 0;
    while i < patterns.len() && i < found.len()
        invariant
            i <= patterns@.len(),
            i <= found@.len(),
            arguments_in_range(patterns@, bindings@.len()),
            bindings@.len() == old(bindings)@.len(),
            bindings@ == inferred_args(patterns@, found@, i as nat, old(bindings)@),
        decreases patterns.len() - i,
    {
        assert(argument_in_range(patterns@[i as int], bindings@.len()));
        patterns[i].infer(&found[i], bindings);
        i = i + 1;
    }
}

fn infer_params(
    patterns: &Vec<TypePattern>,
    found: &Vec<ResolvedFunctionParam>,
    bindings: &mut Bindings,
)
    requires
        patterns_in_range(patterns@, old(bindings)@.len()),
    ensures
        final(bindings)@ == inferred_params(
            patterns@,
            found@,
            shorter(patterns@.len(), found@.len()),
            old(bindings)@,
        ),
        final(bindings)@.len() == old(bindings)@.len(),
    decreases patterns, 0int,
{
    let mut i: usize = 0;
    while i < patterns.len() && i < found.len()
        invariant
            i <= patterns@.len(),
            i <= found@.len(),
            patterns_in_range(patterns@, bindings@.len()),
            bindings@.len() == old(bindings)@.len(),
            bindings@ == inferred_params(patterns@, found@, i as nat, old(bindings)@),
        decreases patterns.len() - i,
    {
        assert(in_range(patterns@[i as int], bindings@.len()));
        patterns[i].infer(&found[i].ty, bindings);
        i = i + 1;
    }
}

impl ArgumentPattern {
    fn infer(&self, found: &ResolvedGenericArg, bindings: &mut Bindings)
        requires
            argument_in_range(*self, old(bindings)@.len()),
        ensures
            final(bindings)@ == inferred_arg(*self, *found, old(bindings)@),
            final(bindings)@.len() == old(bindings)@.len(),
        decreases self, 0int,
    {
        match (self, found) {
            (ArgumentPattern::Type(pattern), ResolvedGenericArg::Type(ty)) => {
                pattern.infer(ty, bindings);
            },
            (ArgumentPattern::Parameter(index), _) => {
                bind_first(bindings, *index, found.clone());
            },
            _ => {},
        }
    }
}

/// Inference never changes what was bound before.
pub proof fn law_inference_keeps_bindings(
    pattern: &TypePattern,
    found: &ResolvedType,
    bindings: Seq<Option<ResolvedGenericArg>>,
)
    requires
        in_range(*pattern, bindings.len()),
    ensures
        inferred(*pattern, *found, bindings).len() == bindings.len(),
        forall|i: int|
            0 <= i < bindings.len() && bindings[i] is Some ==> #[trigger] inferred(
                *pattern,
                *found,
                bindings,
            )[i] == bindings[i],
    decreases pattern, 0int,
{
    match (pattern, found) {
        (TypePattern::Pointer(inner, _), ResolvedType::Pointer { pointee, .. }) => {
            law_inference_keeps_bindings(&**inner, &**pointee, bindings);
        },
        (TypePattern::Slice(inner, _), ResolvedType::Slice { item, .. }) => {
            law_inference_keeps_bindings(&**inner, &**item, bindings);
        },
        (TypePattern::Array(inner, _), ResolvedType::Array(item, _)) => {
            law_inference_keeps_bindings(&**inner, &**item, bindings);
        },
        (TypePattern::SizedArray(inner, length), ResolvedType::SizedArray(item, _)) => {
            law_inference_keeps_bindings(&**inner, &**item, bindings);
            assert(argument_in_range(**length, bindings.len()));
            assert forall|i: int| 0 <= i < bindings.len() && bindings[i] is Some implies
                #[trigger] inferred(*pattern, *found, bindings)[i] == bindings[i] by {
                assert(inferred(**inner, **item, bindings)[i] == bindings[i]);
            }
        },
        (TypePattern::Nominal(path, args), _) => {
            lemma_args_keep_bindings(
                args@,
                nominal_args(*found),
                shorter(args@.len(), nominal_args(*found).len()),
                bindings,
            );
            if nominal_path(*found) == Some(names_view(path@)) {
                let after = inferred_args(
                    args@,
                    nominal_args(*found),
                    shorter(args@.len(), nominal_args(*found).len()),
                    bindings,
                );
                assert(inferred(*pattern, *found, bindings) == after);
            }
        },
        (TypePattern::Function(params, result, _, _), ResolvedType::Function(function)) => {
            let count = shorter(params@.len(), function.params@.len());
            lemma_params_keep_bindings(params@, function.params@, count, bindings);
            let after = inferred_params(params@, function.params@, count, bindings);
            law_inference_keeps_bindings(&**result, &*function.return_type, after);
            assert forall|i: int| 0 <= i < bindings.len() && bindings[i] is Some implies
                #[trigger] inferred(*pattern, *found, bindings)[i] == bindings[i] by {
                assert(after[i] == bindings[i]);
                assert(inferred(**result, *function.return_type, after)[i] == after[i]);
            }
        },
        _ => {},
    }
}

proof fn lemma_args_keep_bindings(
    patterns: Seq<ArgumentPattern>,
    found: Seq<ResolvedGenericArg>,
    count: nat,
    bindings: Seq<Option<ResolvedGenericArg>>,
)
    requires
        arguments_in_range(patterns, bindings.len()),
    ensures
        inferred_args(patterns, found, count, bindings).len() == bindings.len(),
        forall|i: int|
            0 <= i < bindings.len() && bindings[i] is Some ==> #[trigger] inferred_args(
                patterns,
                found,
                count,
                bindings,
            )[i] == bindings[i],
    decreases patterns, count,
{
    if count > 0 && count <= patterns.len() {
        lemma_args_keep_bindings(patterns, found, (count - 1) as nat, bindings);
        let before = inferred_args(patterns, found, (count - 1) as nat, bindings);
        assert(argument_in_range(patterns[count - 1], bindings.len()));
        match (&patterns[count - 1], &found[count - 1]) {
            (ArgumentPattern::Type(inner), ResolvedGenericArg::Type(ty)) => {
                law_inference_keeps_bindings(&**inner, ty, before);
            },
            _ => {},
        }
        assert(inferred_args(patterns, found, count, bindings) == inferred_arg(
            patterns[count - 1],
            found[count - 1],
            before,
        ));
        assert forall|i: int| 0 <= i < bindings.len() && bindings[i] is Some implies
            #[trigger] inferred_args(patterns, found, count, bindings)[i] == bindings[i] by {
            assert(before[i] == bindings[i]);
        }
    }
}

proof fn lemma_params_keep_bindings(
    patterns: Seq<TypePattern>,
    found: Seq<ResolvedFunctionParam>,
    count: nat,
    bindings: Seq<Option<ResolvedGenericArg>>,
)
    requires
        patterns_in_range(patterns, bindings.len()),
    ensures
        inferred_params(patterns, found, count, bindings).len() == bindings.len(),
        forall|i: int|
            0 <= i < bindings.len() && bindings[i] is Some ==> #[trigger] inferred_params(
                patterns,
                found,
                count,
                bindings,
            )[i] == bindings[i],
    decreases patterns, count,
{
    if count > 0 && count <= patterns.len() {
        lemma_params_keep_bindings(patterns, found, (count - 1) as nat, bindings);
        let before = inferred_params(patterns, found, (count - 1) as nat, bindings);
        assert(in_range(patterns[count - 1], bindings.len()));
        law_inference_keeps_bindings(&patterns[count - 1], &found[count - 1].ty, before);
        assert forall|i: int| 0 <= i < bindings.len() && bindings[i] is Some implies
            #[trigger] inferred_params(patterns, found, count, bindings)[i] == bindings[i] by {
            assert(before[i] == bindings[i]);
        }
    }
}

/// The members of the anonymous enum a pattern already stands for, if it is a
/// fixed one or a parameter bound to one.
pub open spec fn known_members(
    pattern: TypePattern,
    bindings: Seq<Option<ResolvedGenericArg>>,
) -> Option<Seq<ResolvedType>> {
    let ty = match pattern {
        TypePattern::Fixed(fixed) => Some(fixed),
        TypePattern::Parameter(index) => bound_type(bindings, index),
        _ => None,
    };
    match ty {
        Some(ResolvedType::AnonymousEnum { shape, .. }) => Some(shape.members@),
        _ => None,
    }
}

/// Types as the patterns that stand for exactly them.
pub open spec fn fixed_patterns(types: Seq<ResolvedType>) -> Seq<TypePattern> {
    types.map_values(|ty: ResolvedType| TypePattern::Fixed(ty))
}

/// The atomic members a pattern contributes to an anonymous enum.
pub open spec fn pattern_leaves(
    pattern: TypePattern,
    bindings: Seq<Option<ResolvedGenericArg>>,
) -> Seq<TypePattern>
    decreases pattern, 0int,
{
    match pattern {
        TypePattern::AnonymousEnum(members) => all_pattern_leaves(members@, bindings),
        _ => match known_members(pattern, bindings) {
            Some(types) => fixed_patterns(types),
            None => seq![pattern],
        },
    }
}

/// [`pattern_leaves`] for patterns, in order.
pub open spec fn all_pattern_leaves(
    patterns: Seq<TypePattern>,
    bindings: Seq<Option<ResolvedGenericArg>>,
) -> Seq<TypePattern>
    decreases patterns, 0int,
{
    if patterns.len() == 0 {
        Seq::empty()
    } else {
        all_pattern_leaves(patterns.drop_last(), bindings) + pattern_leaves(
            patterns.last(),
            bindings,
        )
    }
}

fn known_shape<'a>(pattern: &'a TypePattern, bindings: &'a Bindings) -> (found: Option<
    &'a Vec<ResolvedType>,
>)
    ensures
        match found {
            Some(members) => known_members(*pattern, bindings@) == Some(members@),
            None => known_members(*pattern, bindings@) is None,
        },
{
    match pattern {
        TypePattern::Fixed(ResolvedType::AnonymousEnum { shape, .. }) => Some(&shape.members),
        TypePattern::Parameter(index) => {
            if *index >= bindings.len() {
                return None;
            }
            match &bindings[*index] {
                Some(ResolvedGenericArg::Type(ResolvedType::AnonymousEnum { shape, .. })) => Some(
                    &shape.members,
                ),
                _ => None,
            }
        },
        _ => None,
    }
}

impl TypePattern {
    /// The atomic members this pattern contributes to an anonymous enum.
    pub fn leaves(&self, bindings: &Bindings) -> (list: Vec<TypePattern>)
        ensures
            list@ == pattern_leaves(*self, bindings@),
        decreases self, 0int,
    {
        match self {
            TypePattern::AnonymousEnum(members) => leaves_of_all(members, bindings),
            _ => match known_shape(self, bindings) {
                Some(types) => {
                    let mut list: Vec<TypePattern> = Vec::new();
                    let mut i: usize = 0;
                    while i < types.len()
                        invariant
                            i <= types@.len(),
                            list@ =~= fixed_patterns(types@).take(i as int),
                        decreases types.len() - i,
                    {
                        list.push(TypePattern::Fixed(types[i].clone()));
                        i = i + 1;
                    }
                    assert(list@ =~= fixed_patterns(types@));
                    list
                },
                None => {
                    let mut list: Vec<TypePattern> = Vec::new();
                    list.push(self.clone());
                    assert(list@ =~= seq![*self]);
                    list
                },
            },
        }
    }
}

fn leaves_of_all(patterns: &Vec<TypePattern>, bindings: &Bindings) -> (list: Vec<TypePattern>)
    ensures
        list@ == all_pattern_leaves(patterns@, bindings@),
    decreases patterns, 0int,
{
    let mut list: Vec<TypePattern> = Vec::new();
    let mut i: usize = 0;
    assert(list@ =~= Seq::empty());
    while i < patterns.len()
        invariant
            i <= patterns@.len(),
            list@ == all_pattern_leaves(patterns@.take(i as int), bindings@),
        decreases patterns.len() - i,
    {
        assert(patterns@.take(i as int + 1).drop_last() =~= patterns@.take(i as int));
        let mut more: Vec<TypePattern> = patterns[i].leaves(bindings);
        list.append(&mut more);
        i = i + 1;
    }
    assert(patterns@.take(i as int) =~= patterns@);
    list
}

/// Whether a type is the same as one of `found`.
pub open spec fn same_as_some(ty: ResolvedType, found: Seq<ResolvedType>) -> bool {
    exists|j: int| 0 <= j < found.len() && same_type(ty, #[trigger] found[j])
}

/// Whether each type is the same as one of `found`.
pub open spec fn all_same_as_some(types: Seq<ResolvedType>, found: Seq<ResolvedType>) -> bool {
    forall|k: int| 0 <= k < types.len() ==> same_as_some(#[trigger] types[k], found)
}

/// Whether some type of a list is the same as `found`.
pub open spec fn any_same(types: Seq<ResolvedType>, found: ResolvedType) -> bool {
    exists|k: int| 0 <= k < types.len() && same_type(#[trigger] types[k], found)
}

/// Whether `found` is *the* type a pattern denotes, with no representation
/// acceptance anywhere inside it: a nominal argument, a nested function type,
/// an anonymous-enum member set, and a pointer's mutability are all identical,
/// at every depth. An unbound parameter denotes nothing, so it matches
/// nothing.
pub open spec fn identical_to(
    pattern: TypePattern,
    found: ResolvedType,
    bindings: Seq<Option<ResolvedGenericArg>>,
) -> bool
    decreases pattern, 0int,
{
    if resolvable(pattern, bindings) {
        denotes(pattern, bindings, found)
    } else {
        match pattern {
            TypePattern::Nominal(path, args) => nominal_path(found) == Some(names_view(path@))
                && args_identical(args@, nominal_args(found), bindings),
            TypePattern::SpecObject(members, mutable) => match found {
                ResolvedType::SpecObject { shape, mutable: found_mut } => mutable == found_mut
                    && members@.len() == shape.members@.len() && forall|i: int|
                    0 <= i < members@.len() ==> some_application_identical(
                        #[trigger] members@[i],
                        shape.members@,
                        bindings,
                    ),
                _ => false,
            },
            TypePattern::Function(params, result, convention, variadic) => match found {
                ResolvedType::Function(function) => {
                    &&& convention == function.calling_convention
                    &&& variadic == function.is_variadic
                    &&& function.self_mode is None
                    &&& params@.len() == function.params@.len()
                    &&& forall|i: int|
                        0 <= i < params@.len() ==> identical_to(
                            #[trigger] params@[i],
                            function.params@[i].ty,
                            bindings,
                        )
                    &&& identical_to(*result, *function.return_type, bindings)
                },
                _ => false,
            },
            TypePattern::AnonymousEnum(members) => match found {
                ResolvedType::AnonymousEnum { shape, variant: None } => {
                    &&& every_member_identical(members@, shape.members@, bindings)
                    &&& forall|k: int|
                        0 <= k < shape.members@.len() ==> some_member_identical(
                            members@,
                            #[trigger] shape.members@[k],
                            bindings,
                        )
                },
                _ => false,
            },
            TypePattern::Pointer(inner, mutable) => match found {
                ResolvedType::Pointer { pointee, mutable: found_mut } => mutable == found_mut
                    && identical_to(*inner, *pointee, bindings),
                _ => false,
            },
            TypePattern::Slice(inner, mutable) => match found {
                ResolvedType::Slice { item, mutable: found_mut } => mutable == found_mut
                    && identical_to(*inner, *item, bindings),
                _ => false,
            },
            TypePattern::Array(inner, mutable) => match found {
                ResolvedType::Array(item, found_mut) => mutable == found_mut && identical_to(
                    *inner,
                    *item,
                    bindings,
                ),
                _ => false,
            },
            TypePattern::SizedArray(inner, length) => match found {
                ResolvedType::SizedArray(item, size) => length_of(*length, bindings) == Some(size)
                    && identical_to(*inner, *item, bindings),
                _ => false,
            },
            _ => false,
        }
    }
}

/// Whether some leaf of a pattern is identical to `found`.
pub open spec fn some_leaf_identical(
    pattern: TypePattern,
    found: ResolvedType,
    bindings: Seq<Option<ResolvedGenericArg>>,
) -> bool
    decreases pattern, 1int,
{
    match pattern {
        TypePattern::AnonymousEnum(members) => some_member_identical(members@, found, bindings),
        _ => match known_members(pattern, bindings) {
            Some(types) => any_same(types, found),
            None => identical_to(pattern, found, bindings),
        },
    }
}

/// Whether some leaf of some pattern is identical to `found`.
pub open spec fn some_member_identical(
    patterns: Seq<TypePattern>,
    found: ResolvedType,
    bindings: Seq<Option<ResolvedGenericArg>>,
) -> bool
    decreases patterns, 0int,
{
    exists|i: int|
        0 <= i < patterns.len() && some_leaf_identical(#[trigger] patterns[i], found, bindings)
}

/// Whether some member applies a pattern's spec to exactly its arguments.
pub open spec fn some_application_identical(
    pattern: SpecPattern,
    found: Seq<ResolvedSpecApplication>,
    bindings: Seq<Option<ResolvedGenericArg>>,
) -> bool
    decreases pattern, 0int,
{
    exists|j: int|
        0 <= j < found.len() && (#[trigger] found[j]).spec.id == pattern.spec && args_identical(
            pattern.args@,
            found[j].spec_args@,
            bindings,
        )
}

/// Whether every leaf of a pattern is identical to one of `found`.
pub open spec fn every_leaf_identical(
    pattern: TypePattern,
    found: Seq<ResolvedType>,
    bindings: Seq<Option<ResolvedGenericArg>>,
) -> bool
    decreases pattern, 2int,
{
    match pattern {
        TypePattern::AnonymousEnum(members) => every_member_identical(members@, found, bindings),
        _ => match known_members(pattern, bindings) {
            Some(types) => all_same_as_some(types, found),
            None => identical_to_some(pattern, found, bindings),
        },
    }
}

/// Whether every leaf of every pattern is identical to one of `found`.
pub open spec fn every_member_identical(
    patterns: Seq<TypePattern>,
    found: Seq<ResolvedType>,
    bindings: Seq<Option<ResolvedGenericArg>>,
) -> bool
    decreases patterns, 0int,
{
    forall|i: int|
        0 <= i < patterns.len() ==> every_leaf_identical(#[trigger] patterns[i], found, bindings)
}

/// Whether one of `found` is identical to a pattern.
pub open spec fn identical_to_some(
    pattern: TypePattern,
    found: Seq<ResolvedType>,
    bindings: Seq<Option<ResolvedGenericArg>>,
) -> bool
    decreases pattern, 1int,
{
    exists|j: int| 0 <= j < found.len() && identical_to(pattern, #[trigger] found[j], bindings)
}

/// Whether an argument is exactly the one its pattern denotes.
pub open spec fn arg_identical(
    pattern: ArgumentPattern,
    found: ResolvedGenericArg,
    bindings: Seq<Option<ResolvedGenericArg>>,
) -> bool
    decreases pattern, 0int,
{
    match pattern {
        ArgumentPattern::Type(inner) => match found {
            ResolvedGenericArg::Type(ty) => identical_to(*inner, ty, bindings),
            _ => false,
        },
        ArgumentPattern::Value(value) => found == ResolvedGenericArg::Comp(value),
        ArgumentPattern::Parameter(index) => index < bindings.len() && match bindings[index as int] {
            Some(bound) => same_arg(bound, found),
            None => false,
        },
    }
}

/// [`arg_identical`] for whole argument lists.
pub open spec fn args_identical(
    patterns: Seq<ArgumentPattern>,
    found: Seq<ResolvedGenericArg>,
    bindings: Seq<Option<ResolvedGenericArg>>,
) -> bool
    decreases patterns, 0int,
{
    patterns.len() == found.len() && forall|i: int|
        0 <= i < patterns.len() ==> arg_identical(#[trigger] patterns[i], found[i], bindings)
}

fn argument_is_bound_to(bindings: &Bindings, index: usize, found: &ResolvedGenericArg) -> (r: bool)
    requires
        index < bindings@.len(),
    ensures
        r == match bindings@[index as int] {
            Some(bound) => same_arg(bound, *found),
            None => false,
        },
{
    match &bindings[index] {
        Some(bound) => *bound == *found,
        None => false,
    }
}

fn any_type_same(types: &Vec<ResolvedType>, found: &ResolvedType) -> (r: bool)
    ensures
        r == any_same(types@, *found),
{
    let mut k: usize = 0;
    while k < types.len()
        invariant
            k <= types@.len(),
            forall|j: int| 0 <= j < k ==> !same_type(#[trigger] types@[j], *found),
        decreases types.len() - k,
    {
        if types[k] == *found {
            return true;
        }
        k = k + 1;
    }
    false
}

fn type_among(ty: &ResolvedType, found: &Vec<ResolvedType>) -> (r: bool)
    ensures
        r == same_as_some(*ty, found@),
{
    let mut j: usize = 0;
    while j < found.len()
        invariant
            j <= found@.len(),
            forall|k: int| 0 <= k < j ==> !same_type(*ty, #[trigger] found@[k]),
        decreases found.len() - j,
    {
        if *ty == found[j] {
            return true;
        }
        j = j + 1;
    }
    false
}

fn all_types_among(types: &Vec<ResolvedType>, found: &Vec<ResolvedType>) -> (r: bool)
    ensures
        r == all_same_as_some(types@, found@),
{
    let mut k: usize = 0;
    while k < types.len()
        invariant
            k <= types@.len(),
            forall|m: int| 0 <= m < k ==> same_as_some(#[trigger] types@[m], found@),
        decreases types.len() - k,
    {
        if !type_among(&types[k], found) {
            return false;
        }
        k = k + 1;
    }
    true
}

impl ArgumentPattern {
    fn identical(&self, found: &ResolvedGenericArg, bindings: &Bindings) -> (r: bool)
        requires
            argument_in_range(*self, bindings@.len()),
        ensures
            r == arg_identical(*self, *found, bindings@),
        decreases self, 0int,
    {
        match (self, found) {
            (ArgumentPattern::Type(pattern), ResolvedGenericArg::Type(ty)) => pattern.identical(
                ty,
                bindings,
            ),
            (ArgumentPattern::Value(value), ResolvedGenericArg::Comp(other)) => *value == *other,
            (ArgumentPattern::Parameter(index), _) => argument_is_bound_to(
                bindings,
                *index,
                found,
            ),
            _ => false,
        }
    }
}

fn all_args_identical(
    patterns: &Vec<ArgumentPattern>,
    found: &Vec<ResolvedGenericArg>,
    bindings: &Bindings,
) -> (r: bool)
    requires
        arguments_in_range(patterns@, bindings@.len()),
    ensures
        r == args_identical(patterns@, found@, bindings@),
    decreases patterns, 0int,
{
    if patterns.len() != found.len() {
        return false;
    }
    let mut i: usize = 0;
    while i < patterns.len()
        invariant
            i <= patterns@.len() == found@.len(),
            arguments_in_range(patterns@, bindings@.len()),
            forall|k: int|
                0 <= k < i ==> arg_identical(#[trigger] patterns@[k], found@[k], bindings@),
        decreases patterns.len() - i,
    {
        assert(argument_in_range(patterns@[i as int], bindings@.len()));
        if !patterns[i].identical(&found[i], bindings) {
            return false;
        }
        i = i + 1;
    }
    true
}

fn spec_identical_to_some(
    spec: &SpecPattern,
    members: &Vec<ResolvedSpecApplication>,
    bindings: &Bindings,
) -> (r: bool)
    requires
        arguments_in_range(spec.args@, bindings@.len()),
    ensures
        r == some_application_identical(*spec, members@, bindings@),
    decreases spec, 0int,
{
    let mut j: usize = 0;
    while j < members.len()
        invariant
            j <= members@.len(),
            arguments_in_range(spec.args@, bindings@.len()),
            forall|k: int|
                0 <= k < j ==> !(members@[k].spec.id == spec.spec && args_identical(
                    spec.args@,
                    (#[trigger] members@[k]).spec_args@,
                    bindings@,
                )),
        decreases members.len() - j,
    {
        if members[j].spec.id == spec.spec && all_args_identical(
            &spec.args,
            &members[j].spec_args,
            bindings,
        ) {
            return true;
        }
        j = j + 1;
    }
    false
}

fn all_specs_identical(
    specs: &Vec<SpecPattern>,
    members: &Vec<ResolvedSpecApplication>,
    bindings: &Bindings,
) -> (r: bool)
    requires
        forall|i: int|
            0 <= i < specs@.len() ==> arguments_in_range(
                #[trigger] specs@[i].args@,
                bindings@.len(),
            ),
    ensures
        r == forall|i: int|
            0 <= i < specs@.len() ==> some_application_identical(
                #[trigger] specs@[i],
                members@,
                bindings@,
            ),
    decreases specs, 0int,
{
    let mut i: usize = 0;
    while i < specs.len()
        invariant
            i <= specs@.len(),
            forall|k: int|
                0 <= k < specs@.len() ==> arguments_in_range(
                    #[trigger] specs@[k].args@,
                    bindings@.len(),
                ),
            forall|k: int|
                0 <= k < i ==> some_application_identical(
                    #[trigger] specs@[k],
                    members@,
                    bindings@,
                ),
        decreases specs.len() - i,
    {
        assert(arguments_in_range(specs@[i as int].args@, bindings@.len()));
        if !spec_identical_to_some(&specs[i], members, bindings) {
            return false;
        }
        i = i + 1;
    }
    true
}

fn some_leaf_is_identical(
    pattern: &TypePattern,
    found: &ResolvedType,
    bindings: &Bindings,
) -> (r: bool)
    requires
        in_range(*pattern, bindings@.len()),
    ensures
        r == some_leaf_identical(*pattern, *found, bindings@),
    decreases pattern, 1int,
{
    match pattern {
        TypePattern::AnonymousEnum(members) => some_pattern_has_identical_leaf(
            members,
            found,
            bindings,
        ),
        _ => match known_shape(pattern, bindings) {
            Some(types) => any_type_same(types, found),
            None => pattern.identical(found, bindings),
        },
    }
}

fn some_pattern_has_identical_leaf(
    patterns: &Vec<TypePattern>,
    found: &ResolvedType,
    bindings: &Bindings,
) -> (r: bool)
    requires
        patterns_in_range(patterns@, bindings@.len()),
    ensures
        r == some_member_identical(patterns@, *found, bindings@),
    decreases patterns, 0int,
{
    let mut i: usize = 0;
    while i < patterns.len()
        invariant
            i <= patterns@.len(),
            patterns_in_range(patterns@, bindings@.len()),
            forall|k: int|
                0 <= k < i ==> !some_leaf_identical(#[trigger] patterns@[k], *found, bindings@),
        decreases patterns.len() - i,
    {
        assert(in_range(patterns@[i as int], bindings@.len()));
        if some_leaf_is_identical(&patterns[i], found, bindings) {
            return true;
        }
        i = i + 1;
    }
    false
}

fn every_leaf_is_identical(
    pattern: &TypePattern,
    found: &Vec<ResolvedType>,
    bindings: &Bindings,
) -> (r: bool)
    requires
        in_range(*pattern, bindings@.len()),
    ensures
        r == every_leaf_identical(*pattern, found@, bindings@),
    decreases pattern, 2int,
{
    match pattern {
        TypePattern::AnonymousEnum(members) => every_pattern_has_identical_leaves(
            members,
            found,
            bindings,
        ),
        _ => match known_shape(pattern, bindings) {
            Some(types) => all_types_among(types, found),
            None => some_found_is_identical(pattern, found, bindings),
        },
    }
}

fn some_found_is_identical(
    pattern: &TypePattern,
    found: &Vec<ResolvedType>,
    bindings: &Bindings,
) -> (r: bool)
    requires
        in_range(*pattern, bindings@.len()),
    ensures
        r == identical_to_some(*pattern, found@, bindings@),
    decreases pattern, 1int,
{
    let mut j: usize = 0;
    while j < found.len()
        invariant
            j <= found@.len(),
            in_range(*pattern, bindings@.len()),
            forall|k: int| 0 <= k < j ==> !identical_to(*pattern, #[trigger] found@[k], bindings@),
        decreases found.len() - j,
    {
        if pattern.identical(&found[j], bindings) {
            return true;
        }
        j = j + 1;
    }
    false
}

fn every_pattern_has_identical_leaves(
    patterns: &Vec<TypePattern>,
    found: &Vec<ResolvedType>,
    bindings: &Bindings,
) -> (r: bool)
    requires
        patterns_in_range(patterns@, bindings@.len()),
    ensures
        r == every_member_identical(patterns@, found@, bindings@),
    decreases patterns, 0int,
{
    let mut i: usize = 0;
    while i < patterns.len()
        invariant
            i <= patterns@.len(),
            patterns_in_range(patterns@, bindings@.len()),
            forall|k: int|
                0 <= k < i ==> every_leaf_identical(#[trigger] patterns@[k], found@, bindings@),
        decreases patterns.len() - i,
    {
        assert(in_range(patterns@[i as int], bindings@.len()));
        if !every_leaf_is_identical(&patterns[i], found, bindings) {
            return false;
        }
        i = i + 1;
    }
    true
}

fn members_have_identical_leaves(
    patterns: &Vec<TypePattern>,
    found: &Vec<ResolvedType>,
    bindings: &Bindings,
) -> (r: bool)
    requires
        patterns_in_range(patterns@, bindings@.len()),
    ensures
        r == forall|k: int|
            0 <= k < found@.len() ==> some_member_identical(
                patterns@,
                #[trigger] found@[k],
                bindings@,
            ),
    decreases patterns, 1int,
{
    let mut k: usize = 0;
    while k < found.len()
        invariant
            k <= found@.len(),
            patterns_in_range(patterns@, bindings@.len()),
            forall|m: int|
                0 <= m < k ==> some_member_identical(
                    patterns@,
                    #[trigger] found@[m],
                    bindings@,
                ),
        decreases found.len() - k,
    {
        if !some_pattern_has_identical_leaf(patterns, &found[k], bindings) {
            return false;
        }
        k = k + 1;
    }
    true
}

fn params_identical(
    patterns: &Vec<TypePattern>,
    found: &Vec<ResolvedFunctionParam>,
    bindings: &Bindings,
) -> (r: bool)
    requires
        patterns_in_range(patterns@, bindings@.len()),
        patterns@.len() == found@.len(),
    ensures
        r == forall|i: int|
            0 <= i < patterns@.len() ==> identical_to(
                #[trigger] patterns@[i],
                found@[i].ty,
                bindings@,
            ),
    decreases patterns, 0int,
{
    let mut i: usize = 0;
    while i < patterns.len()
        invariant
            i <= patterns@.len() == found@.len(),
            patterns_in_range(patterns@, bindings@.len()),
            forall|k: int|
                0 <= k < i ==> identical_to(#[trigger] patterns@[k], found@[k].ty, bindings@),
        decreases patterns.len() - i,
    {
        assert(in_range(patterns@[i as int], bindings@.len()));
        if !patterns[i].identical(&found[i].ty, bindings) {
            return false;
        }
        i = i + 1;
    }
    true
}

impl TypePattern {
    /// Whether `found` is *the* type this pattern denotes under `bindings`.
    pub fn identical(&self, found: &ResolvedType, bindings: &Bindings) -> (r: bool)
        requires
            in_range(*self, bindings@.len()),
        ensures
            r == identical_to(*self, *found, bindings@),
        decreases self, 0int,
    {
        if let Some(expected) = self.resolved(bindings) {
            proof {
                lemma_denotes(self, bindings@, &expected, found);
            }
            return expected == *found;
        }
        match (self, found) {
            (TypePattern::Nominal(path, args), _) => match nominal(found) {
                Some((found_path, found_args)) => same_names(path, &found_path)
                    && all_args_identical(args, found_args, bindings),
                None => false,
            },
            (
                TypePattern::SpecObject(members, mutable),
                ResolvedType::SpecObject { shape, mutable: found_mut },
            ) => *mutable == *found_mut && members.len() == shape.members.len()
                && all_specs_identical(members, &shape.members, bindings),
            (
                TypePattern::Function(params, result, convention, variadic),
                ResolvedType::Function(function),
            ) => *convention == function.calling_convention && *variadic == function.is_variadic
                && function.self_mode.is_none() && params.len() == function.params.len()
                && params_identical(params, &function.params, bindings) && result.identical(
                &function.return_type,
                bindings,
            ),
            (
                TypePattern::AnonymousEnum(members),
                ResolvedType::AnonymousEnum { shape, variant: None },
            ) => every_pattern_has_identical_leaves(members, &shape.members, bindings)
                && members_have_identical_leaves(members, &shape.members, bindings),
            (
                TypePattern::Pointer(inner, mutable),
                ResolvedType::Pointer { pointee, mutable: found_mut },
            ) => *mutable == *found_mut && inner.identical(pointee, bindings),
            (
                TypePattern::Slice(inner, mutable),
                ResolvedType::Slice { item, mutable: found_mut },
            ) => *mutable == *found_mut && inner.identical(item, bindings),
            (
                TypePattern::Array(inner, mutable),
                ResolvedType::Array(item, found_mut),
            ) => *mutable == *found_mut && inner.identical(item, bindings),
            (
                TypePattern::SizedArray(inner, length),
                ResolvedType::SizedArray(item, size),
            ) => match length.length(bindings) {
                Some(expected) => expected == *size && inner.identical(item, bindings),
                None => false,
            },
            _ => false,
        }
    }
}

proof fn lemma_resolves_is_resolvable(
    pattern: &TypePattern,
    bindings: Seq<Option<ResolvedGenericArg>>,
    ty: &ResolvedType,
)
    requires
        resolves_to(*pattern, bindings, *ty),
    ensures
        resolvable(*pattern, bindings),
    decreases pattern, 0int,
{
    match (pattern, ty) {
        (TypePattern::Pointer(inner, _), ResolvedType::Pointer { pointee, .. }) => {
            lemma_resolves_is_resolvable(&**inner, bindings, &**pointee);
        },
        (TypePattern::Slice(inner, _), ResolvedType::Slice { item, .. }) => {
            lemma_resolves_is_resolvable(&**inner, bindings, &**item);
        },
        (TypePattern::Array(inner, _), ResolvedType::Array(item, _)) => {
            lemma_resolves_is_resolvable(&**inner, bindings, &**item);
        },
        (TypePattern::SizedArray(inner, _), ResolvedType::SizedArray(item, _)) => {
            lemma_resolves_is_resolvable(&**inner, bindings, &**item);
        },
        (TypePattern::Function(params, result, _, _), ResolvedType::Function(function)) => {
            assert forall|i: int| 0 <= i < params@.len() implies resolvable(
                #[trigger] params@[i],
                bindings,
            ) by {
                assert(resolves_to(params@[i], bindings, function.params@[i].ty));
                lemma_resolves_is_resolvable(&params@[i], bindings, &function.params@[i].ty);
            }
            assert(all_resolvable(params@, bindings));
            lemma_resolves_is_resolvable(&**result, bindings, &*function.return_type);
        },
        (TypePattern::AnonymousEnum(members), ResolvedType::AnonymousEnum { shape, .. }) => {
            let types = choose|types: Seq<ResolvedType>|
                {
                    &&& shape.members@ == #[trigger] canonical_members(types)
                    &&& types.len() == members@.len()
                    &&& forall|i: int|
                        0 <= i < members@.len() ==> resolves_to(
                            members@[i],
                            bindings,
                            #[trigger] types[i],
                        )
                };
            assert forall|i: int| 0 <= i < members@.len() implies resolvable(
                #[trigger] members@[i],
                bindings,
            ) by {
                assert(resolves_to(members@[i], bindings, types[i]));
                lemma_resolves_is_resolvable(&members@[i], bindings, &types[i]);
            }
            assert(all_resolvable(members@, bindings));
        },
        _ => {},
    }
}

/// Where the bindings determine the type a pattern denotes, a type is
/// identical to the pattern exactly if it is that type.
pub proof fn law_identical_is_equality_with_the_resolved_type(
    pattern: &TypePattern,
    bindings: Seq<Option<ResolvedGenericArg>>,
    resolved: &ResolvedType,
    found: &ResolvedType,
)
    requires
        resolves_to(*pattern, bindings, *resolved),
    ensures
        identical_to(*pattern, *found, bindings) == same_type(*resolved, *found),
{
    lemma_resolves_is_resolvable(pattern, bindings, resolved);
    lemma_denotes(pattern, bindings, resolved, found);
}

/// A parameter that no type is bound to denotes nothing, so nothing is
/// identical to it.
pub proof fn law_nothing_is_identical_to_an_unbound_parameter(
    index: usize,
    bindings: Seq<Option<ResolvedGenericArg>>,
    found: ResolvedType,
)
    requires
        bound_type(bindings, index) is None,
    ensures
        !identical_to(TypePattern::Parameter(index), found, bindings),
{
}

/// Only a pointer is identical to a pointer pattern, with the same mutability
/// and an identical target, whatever is bound.
pub proof fn law_identical_pointers(
    inner: Rc<TypePattern>,
    mutable: bool,
    found: ResolvedType,
    bindings: Seq<Option<ResolvedGenericArg>>,
)
    ensures
        identical_to(TypePattern::Pointer(inner, mutable), found, bindings) == match found {
            ResolvedType::Pointer { pointee, mutable: found_mut } => mutable == found_mut && identical_to(
                *inner,
                *pointee,
                bindings,
            ),
            _ => false,
        },
{
    let pattern = TypePattern::Pointer(inner, mutable);
    let target: &TypePattern = &*inner;
    if resolvable(*target, bindings) {
        if denotes(pattern, bindings, found) {
            let ty = choose|ty: ResolvedType| #[trigger]
                resolves_to(pattern, bindings, ty) && same_type(ty, found);
            match &ty {
                ResolvedType::Pointer { pointee, .. } => {
                    let pointee: &ResolvedType = &**pointee;
                    assert(resolves_to(*target, bindings, *pointee));
                },
                _ => {},
            }
        }
        match &found {
            ResolvedType::Pointer { pointee, mutable: found_mut } => {
                let pointee: &ResolvedType = &**pointee;
                if mutable == *found_mut && denotes(*target, bindings, *pointee) {
                    let ty = choose|ty: ResolvedType| #[trigger]
                        resolves_to(*target, bindings, ty) && same_type(ty, *pointee);
                    let whole = ResolvedType::Pointer { pointee: Rc::new(ty), mutable };
                    assert(resolves_to(pattern, bindings, whole));
                    assert(same_type(whole, found));
                }
            },
            _ => {},
        }
    }
}

/// Only a slice is identical to a slice pattern, with the same mutability and
/// an identical item, whatever is bound.
pub proof fn law_identical_slices(
    inner: Rc<TypePattern>,
    mutable: bool,
    found: ResolvedType,
    bindings: Seq<Option<ResolvedGenericArg>>,
)
    ensures
        identical_to(TypePattern::Slice(inner, mutable), found, bindings) == match found {
            ResolvedType::Slice { item, mutable: found_mut } => mutable == found_mut && identical_to(
                *inner,
                *item,
                bindings,
            ),
            _ => false,
        },
{
    let pattern = TypePattern::Slice(inner, mutable);
    let target: &TypePattern = &*inner;
    if resolvable(*target, bindings) {
        if denotes(pattern, bindings, found) {
            let ty = choose|ty: ResolvedType| #[trigger]
                resolves_to(pattern, bindings, ty) && same_type(ty, found);
            match &ty {
                ResolvedType::Slice { item, .. } => {
                    let item: &ResolvedType = &**item;
                    assert(resolves_to(*target, bindings, *item));
                },
                _ => {},
            }
        }
        match &found {
            ResolvedType::Slice { item, mutable: found_mut } => {
                let item: &ResolvedType = &**item;
                if mutable == *found_mut && denotes(*target, bindings, *item) {
                    let ty = choose|ty: ResolvedType| #[trigger]
                        resolves_to(*target, bindings, ty) && same_type(ty, *item);
                    let whole = ResolvedType::Slice { item: Rc::new(ty), mutable };
                    assert(resolves_to(pattern, bindings, whole));
                    assert(same_type(whole, found));
                }
            },
            _ => {},
        }
    }
}

/// Only an array of unknown size is identical to its pattern, with the same
/// mutability and an identical item, whatever is bound.
pub proof fn law_identical_arrays(
    inner: Rc<TypePattern>,
    mutable: bool,
    found: ResolvedType,
    bindings: Seq<Option<ResolvedGenericArg>>,
)
    ensures
        identical_to(TypePattern::Array(inner, mutable), found, bindings) == match found {
            ResolvedType::Array(item, found_mut) => mutable == found_mut && identical_to(
                *inner,
                *item,
                bindings,
            ),
            _ => false,
        },
{
    let pattern = TypePattern::Array(inner, mutable);
    let target: &TypePattern = &*inner;
    if resolvable(*target, bindings) {
        if denotes(pattern, bindings, found) {
            let ty = choose|ty: ResolvedType| #[trigger]
                resolves_to(pattern, bindings, ty) && same_type(ty, found);
            match &ty {
                ResolvedType::Array(item, _) => {
                    let item: &ResolvedType = &**item;
                    assert(resolves_to(*target, bindings, *item));
                },
                _ => {},
            }
        }
        match &found {
            ResolvedType::Array(item, found_mut) => {
                let item: &ResolvedType = &**item;
                if mutable == *found_mut && denotes(*target, bindings, *item) {
                    let ty = choose|ty: ResolvedType| #[trigger]
                        resolves_to(*target, bindings, ty) && same_type(ty, *item);
                    let whole = ResolvedType::Array(Rc::new(ty), mutable);
                    assert(resolves_to(pattern, bindings, whole));
                    assert(same_type(whole, found));
                }
            },
            _ => {},
        }
    }
}

/// Only an array of the length a pattern denotes is identical to the pattern,
/// with an identical item, whatever else is bound.
pub proof fn law_identical_sized_arrays(
    inner: Rc<TypePattern>,
    length: Rc<ArgumentPattern>,
    found: ResolvedType,
    bindings: Seq<Option<ResolvedGenericArg>>,
)
    ensures
        identical_to(TypePattern::SizedArray(inner, length), found, bindings) == match found {
            ResolvedType::SizedArray(item, size) => length_of(*length, bindings) == Some(size)
                && identical_to(*inner, *item, bindings),
            _ => false,
        },
{
    let pattern = TypePattern::SizedArray(inner, length);
    let target: &TypePattern = &*inner;
    let count: &ArgumentPattern = &*length;
    if resolvable(*target, bindings) && length_of(*count, bindings) is Some {
        if denotes(pattern, bindings, found) {
            let ty = choose|ty: ResolvedType| #[trigger]
                resolves_to(pattern, bindings, ty) && same_type(ty, found);
            match &ty {
                ResolvedType::SizedArray(item, _) => {
                    let item: &ResolvedType = &**item;
                    assert(resolves_to(*target, bindings, *item));
                },
                _ => {},
            }
        }
        match &found {
            ResolvedType::SizedArray(item, size) => {
                let item: &ResolvedType = &**item;
                if length_of(*count, bindings) == Some(*size) && denotes(*target, bindings, *item) {
                    let ty = choose|ty: ResolvedType| #[trigger]
                        resolves_to(*target, bindings, ty) && same_type(ty, *item);
                    let whole = ResolvedType::SizedArray(Rc::new(ty), *size);
                    assert(resolves_to(pattern, bindings, whole));
                    assert(same_type(whole, found));
                }
            },
            _ => {},
        }
    }
}

/// What is identical to a function pattern is a function whose parameters and
/// result are identical to the pattern's, each in its place.
pub proof fn law_identical_functions(
    pattern: TypePattern,
    found: ResolvedType,
    bindings: Seq<Option<ResolvedGenericArg>>,
)
    requires
        pattern is Function,
        identical_to(pattern, found, bindings),
    ensures
        match (pattern, found) {
            (
                TypePattern::Function(params, result, convention, variadic),
                ResolvedType::Function(function),
            ) => {
                &&& convention == function.calling_convention
                &&& variadic == function.is_variadic
                &&& function.self_mode is None
                &&& params@.len() == function.params@.len()
                &&& forall|i: int|
                    0 <= i < params@.len() ==> identical_to(
                        #[trigger] params@[i],
                        function.params@[i].ty,
                        bindings,
                    )
                &&& identical_to(*result, *function.return_type, bindings)
            },
            _ => false,
        },
{
    if resolvable(pattern, bindings) {
        let ty = choose|ty: ResolvedType| #[trigger]
            resolves_to(pattern, bindings, ty) && same_type(ty, found);
        match (&pattern, &ty, &found) {
            (
                TypePattern::Function(params, result, _, _),
                ResolvedType::Function(made),
                ResolvedType::Function(function),
            ) => {
                let made: &ResolvedFunctionType = &**made;
                let function: &ResolvedFunctionType = &**function;
                assert(same_function(*made, *function));
                assert(same_params(made.params@, function.params@));
                assert(all_resolvable(params@, bindings));
                assert forall|i: int| 0 <= i < params@.len() implies identical_to(
                    #[trigger] params@[i],
                    function.params@[i].ty,
                    bindings,
                ) by {
                    assert(resolves_to(params@[i], bindings, made.params@[i].ty));
                    assert(same_type(made.params@[i].ty, function.params@[i].ty));
                    assert(resolvable(params@[i], bindings));
                }
                let result: &TypePattern = &**result;
                let made_result: &ResolvedType = &*made.return_type;
                assert(resolves_to(*result, bindings, *made_result));
            },
            _ => {},
        }
    }
}

/// Whether a pattern accepts `found` as its representation: what it resolves
/// to accepts it, or, where a parameter is still unbound, the shapes agree and
/// everything that cannot be reached without a conversion is exact.
pub open spec fn pattern_accepts(
    pattern: TypePattern,
    found: ResolvedType,
    bindings: Seq<Option<ResolvedGenericArg>>,
) -> bool
    decreases pattern, 0int,
{
    if resolvable(pattern, bindings) {
        denotes_acceptor(pattern, bindings, found)
    } else {
        match pattern {
            TypePattern::Nominal(path, args) => nominal_path(found) == Some(names_view(path@))
                && args_match(args@, nominal_args(found), bindings),
            TypePattern::SpecObject(members, mutable) => match found {
                ResolvedType::SpecObject { shape, mutable: found_mut } => mutable == found_mut
                    && members@.len() == shape.members@.len() && forall|i: int|
                    0 <= i < members@.len() ==> some_application_matches(
                        #[trigger] members@[i],
                        shape.members@,
                        bindings,
                    ),
                _ => false,
            },
            TypePattern::Function(params, result, convention, variadic) => match found {
                ResolvedType::Function(function) => {
                    &&& convention == function.calling_convention
                    &&& variadic == function.is_variadic
                    &&& function.self_mode is None
                    &&& params@.len() == function.params@.len()
                    &&& forall|i: int|
                        0 <= i < params@.len() ==> pattern_exact(
                            #[trigger] params@[i],
                            function.params@[i].ty,
                            bindings,
                        )
                    &&& pattern_exact(*result, *function.return_type, bindings)
                },
                _ => false,
            },
            TypePattern::AnonymousEnum(members) => match found {
                ResolvedType::AnonymousEnum { shape, .. } => {
                    &&& every_member_exact(members@, shape.members@, bindings)
                    &&& forall|k: int|
                        0 <= k < shape.members@.len() ==> some_member_exact(
                            members@,
                            #[trigger] shape.members@[k],
                            bindings,
                        )
                },
                _ => false,
            },
            TypePattern::Pointer(inner, mutable) => match found {
                ResolvedType::Pointer { pointee, mutable: found_mut } => target_accepts(
                    *inner,
                    mutable,
                    *pointee,
                    found_mut,
                    bindings,
                ),
                _ => false,
            },
            TypePattern::Slice(inner, mutable) => match found {
                ResolvedType::Slice { item, mutable: found_mut } => target_accepts(
                    *inner,
                    mutable,
                    *item,
                    found_mut,
                    bindings,
                ),
                _ => false,
            },
            TypePattern::Array(inner, mutable) => match found {
                ResolvedType::Array(item, found_mut) => target_accepts(
                    *inner,
                    mutable,
                    *item,
                    found_mut,
                    bindings,
                ),
                _ => false,
            },
            TypePattern::SizedArray(inner, length) => match found {
                ResolvedType::SizedArray(item, size) => length_of(*length, bindings) == Some(size)
                    && pattern_exact(*inner, *item, bindings),
                _ => false,
            },
            _ => false,
        }
    }
}

/// What stands behind a reference: read-only needs acceptance, mutable needs
/// a mutable source of the exact type.
pub open spec fn target_accepts(
    inner: TypePattern,
    mutable: bool,
    found: ResolvedType,
    found_mut: bool,
    bindings: Seq<Option<ResolvedGenericArg>>,
) -> bool
    decreases inner, 2int,
{
    if mutable {
        found_mut && pattern_exact(inner, found, bindings)
    } else {
        pattern_accepts(inner, found, bindings)
    }
}

/// Whether `found` matches a pattern with no conversion at a call: equal to
/// what the pattern resolves to; where it does not resolve, no refined enum,
/// equal mutability behind a reference, and otherwise acceptance.
pub open spec fn pattern_exact(
    pattern: TypePattern,
    found: ResolvedType,
    bindings: Seq<Option<ResolvedGenericArg>>,
) -> bool
    decreases pattern, 1int,
{
    if resolvable(pattern, bindings) {
        denotes(pattern, bindings, found)
    } else {
        match (pattern, found) {
            (TypePattern::Nominal(_, _), ResolvedType::Enum { variant: Some(_), .. }) => false,
            (
                TypePattern::AnonymousEnum(_),
                ResolvedType::AnonymousEnum { variant: Some(_), .. },
            ) => false,
            (
                TypePattern::Pointer(inner, mutable),
                ResolvedType::Pointer { pointee, mutable: found_mut },
            ) => mutable == found_mut && pattern_exact(*inner, *pointee, bindings),
            (
                TypePattern::Slice(inner, mutable),
                ResolvedType::Slice { item, mutable: found_mut },
            ) => mutable == found_mut && pattern_exact(*inner, *item, bindings),
            (
                TypePattern::Array(inner, mutable),
                ResolvedType::Array(item, found_mut),
            ) => mutable == found_mut && pattern_exact(*inner, *item, bindings),
            _ => pattern_accepts(pattern, found, bindings),
        }
    }
}

/// Whether some leaf of a pattern exactly matches `found`.
pub open spec fn some_leaf_exact(
    pattern: TypePattern,
    found: ResolvedType,
    bindings: Seq<Option<ResolvedGenericArg>>,
) -> bool
    decreases pattern, 2int,
{
    match pattern {
        TypePattern::AnonymousEnum(members) => some_member_exact(members@, found, bindings),
        _ => match known_members(pattern, bindings) {
            Some(types) => any_same(types, found),
            None => pattern_exact(pattern, found, bindings),
        },
    }
}

/// Whether some leaf of some pattern exactly matches `found`.
pub open spec fn some_member_exact(
    patterns: Seq<TypePattern>,
    found: ResolvedType,
    bindings: Seq<Option<ResolvedGenericArg>>,
) -> bool
    decreases patterns, 0int,
{
    exists|i: int|
        0 <= i < patterns.len() && some_leaf_exact(#[trigger] patterns[i], found, bindings)
}

/// Whether some member applies a pattern's spec to matching arguments.
pub open spec fn some_application_matches(
    pattern: SpecPattern,
    found: Seq<ResolvedSpecApplication>,
    bindings: Seq<Option<ResolvedGenericArg>>,
) -> bool
    decreases pattern, 0int,
{
    exists|j: int|
        0 <= j < found.len() && (#[trigger] found[j]).spec.id == pattern.spec && args_match(
            pattern.args@,
            found[j].spec_args@,
            bindings,
        )
}

/// Whether every leaf of a pattern exactly matches one of `found`.
pub open spec fn every_leaf_exact(
    pattern: TypePattern,
    found: Seq<ResolvedType>,
    bindings: Seq<Option<ResolvedGenericArg>>,
) -> bool
    decreases pattern, 3int,
{
    match pattern {
        TypePattern::AnonymousEnum(members) => every_member_exact(members@, found, bindings),
        _ => match known_members(pattern, bindings) {
            Some(types) => all_same_as_some(types, found),
            None => exact_to_some(pattern, found, bindings),
        },
    }
}

/// Whether every leaf of every pattern exactly matches one of `found`.
pub open spec fn every_member_exact(
    patterns: Seq<TypePattern>,
    found: Seq<ResolvedType>,
    bindings: Seq<Option<ResolvedGenericArg>>,
) -> bool
    decreases patterns, 0int,
{
    forall|i: int|
        0 <= i < patterns.len() ==> every_leaf_exact(#[trigger] patterns[i], found, bindings)
}

/// Whether one of `found` exactly matches a pattern.
pub open spec fn exact_to_some(
    pattern: TypePattern,
    found: Seq<ResolvedType>,
    bindings: Seq<Option<ResolvedGenericArg>>,
) -> bool
    decreases pattern, 2int,
{
    exists|j: int| 0 <= j < found.len() && pattern_exact(pattern, #[trigger] found[j], bindings)
}

/// Whether an argument matches its pattern, a type exactly.
pub open spec fn arg_matches(
    pattern: ArgumentPattern,
    found: ResolvedGenericArg,
    bindings: Seq<Option<ResolvedGenericArg>>,
) -> bool
    decreases pattern, 0int,
{
    match pattern {
        ArgumentPattern::Type(inner) => match found {
            ResolvedGenericArg::Type(ty) => pattern_exact(*inner, ty, bindings),
            _ => false,
        },
        ArgumentPattern::Value(value) => found == ResolvedGenericArg::Comp(value),
        ArgumentPattern::Parameter(index) => index < bindings.len() && match bindings[index as int] {
            Some(bound) => same_arg(bound, found),
            None => false,
        },
    }
}

/// [`arg_matches`] for whole argument lists.
pub open spec fn args_match(
    patterns: Seq<ArgumentPattern>,
    found: Seq<ResolvedGenericArg>,
    bindings: Seq<Option<ResolvedGenericArg>>,
) -> bool
    decreases patterns, 0int,
{
    patterns.len() == found.len() && forall|i: int|
        0 <= i < patterns.len() ==> arg_matches(#[trigger] patterns[i], found[i], bindings)
}

impl ArgumentPattern {
    fn matches(&self, found: &ResolvedGenericArg, bindings: &Bindings) -> (r: bool)
        requires
            argument_in_range(*self, bindings@.len()),
        ensures
            r == arg_matches(*self, *found, bindings@),
        decreases self, 0int,
    {
        match (self, found) {
            (ArgumentPattern::Type(pattern), ResolvedGenericArg::Type(ty)) => pattern.exact(
                ty,
                bindings,
            ),
            (ArgumentPattern::Value(value), ResolvedGenericArg::Comp(other)) => *value == *other,
            (ArgumentPattern::Parameter(index), _) => argument_is_bound_to(
                bindings,
                *index,
                found,
            ),
            _ => false,
        }
    }
}

fn all_args_match(
    patterns: &Vec<ArgumentPattern>,
    found: &Vec<ResolvedGenericArg>,
    bindings: &Bindings,
) -> (r: bool)
    requires
        arguments_in_range(patterns@, bindings@.len()),
    ensures
        r == args_match(patterns@, found@, bindings@),
    decreases patterns, 0int,
{
    if patterns.len() != found.len() {
        return false;
    }
    let mut i: usize = 0;
    while i < patterns.len()
        invariant
            i <= patterns@.len() == found@.len(),
            arguments_in_range(patterns@, bindings@.len()),
            forall|k: int|
                0 <= k < i ==> arg_matches(#[trigger] patterns@[k], found@[k], bindings@),
        decreases patterns.len() - i,
    {
        assert(argument_in_range(patterns@[i as int], bindings@.len()));
        if !patterns[i].matches(&found[i], bindings) {
            return false;
        }
        i = i + 1;
    }
    true
}

fn spec_exact_to_some(
    spec: &SpecPattern,
    members: &Vec<ResolvedSpecApplication>,
    bindings: &Bindings,
) -> (r: bool)
    requires
        arguments_in_range(spec.args@, bindings@.len()),
    ensures
        r == some_application_matches(*spec, members@, bindings@),
    decreases spec, 0int,
{
    let mut j: usize = 0;
    while j < members.len()
        invariant
            j <= members@.len(),
            arguments_in_range(spec.args@, bindings@.len()),
            forall|k: int|
                0 <= k < j ==> !(members@[k].spec.id == spec.spec && args_match(
                    spec.args@,
                    (#[trigger] members@[k]).spec_args@,
                    bindings@,
                )),
        decreases members.len() - j,
    {
        if members[j].spec.id == spec.spec && all_args_match(
            &spec.args,
            &members[j].spec_args,
            bindings,
        ) {
            return true;
        }
        j = j + 1;
    }
    false
}

fn all_specs_exact(
    specs: &Vec<SpecPattern>,
    members: &Vec<ResolvedSpecApplication>,
    bindings: &Bindings,
) -> (r: bool)
    requires
        forall|i: int|
            0 <= i < specs@.len() ==> arguments_in_range(
                #[trigger] specs@[i].args@,
                bindings@.len(),
            ),
    ensures
        r == forall|i: int|
            0 <= i < specs@.len() ==> some_application_matches(
                #[trigger] specs@[i],
                members@,
                bindings@,
            ),
    decreases specs, 0int,
{
    let mut i: usize = 0;
    while i < specs.len()
        invariant
            i <= specs@.len(),
            forall|k: int|
                0 <= k < specs@.len() ==> arguments_in_range(
                    #[trigger] specs@[k].args@,
                    bindings@.len(),
                ),
            forall|k: int|
                0 <= k < i ==> some_application_matches(
                    #[trigger] specs@[k],
                    members@,
                    bindings@,
                ),
        decreases specs.len() - i,
    {
        assert(arguments_in_range(specs@[i as int].args@, bindings@.len()));
        if !spec_exact_to_some(&specs[i], members, bindings) {
            return false;
        }
        i = i + 1;
    }
    true
}

fn some_leaf_is_exact(
    pattern: &TypePattern,
    found: &ResolvedType,
    bindings: &Bindings,
) -> (r: bool)
    requires
        in_range(*pattern, bindings@.len()),
    ensures
        r == some_leaf_exact(*pattern, *found, bindings@),
    decreases pattern, 2int,
{
    match pattern {
        TypePattern::AnonymousEnum(members) => some_pattern_has_exact_leaf(
            members,
            found,
            bindings,
        ),
        _ => match known_shape(pattern, bindings) {
            Some(types) => any_type_same(types, found),
            None => pattern.exact(found, bindings),
        },
    }
}

fn some_pattern_has_exact_leaf(
    patterns: &Vec<TypePattern>,
    found: &ResolvedType,
    bindings: &Bindings,
) -> (r: bool)
    requires
        patterns_in_range(patterns@, bindings@.len()),
    ensures
        r == some_member_exact(patterns@, *found, bindings@),
    decreases patterns, 0int,
{
    let mut i: usize = 0;
    while i < patterns.len()
        invariant
            i <= patterns@.len(),
            patterns_in_range(patterns@, bindings@.len()),
            forall|k: int|
                0 <= k < i ==> !some_leaf_exact(#[trigger] patterns@[k], *found, bindings@),
        decreases patterns.len() - i,
    {
        assert(in_range(patterns@[i as int], bindings@.len()));
        if some_leaf_is_exact(&patterns[i], found, bindings) {
            return true;
        }
        i = i + 1;
    }
    false
}

fn every_leaf_is_exact(
    pattern: &TypePattern,
    found: &Vec<ResolvedType>,
    bindings: &Bindings,
) -> (r: bool)
    requires
        in_range(*pattern, bindings@.len()),
    ensures
        r == every_leaf_exact(*pattern, found@, bindings@),
    decreases pattern, 3int,
{
    match pattern {
        TypePattern::AnonymousEnum(members) => every_pattern_has_exact_leaves(
            members,
            found,
            bindings,
        ),
        _ => match known_shape(pattern, bindings) {
            Some(types) => all_types_among(types, found),
            None => some_found_is_exact(pattern, found, bindings),
        },
    }
}

fn some_found_is_exact(
    pattern: &TypePattern,
    found: &Vec<ResolvedType>,
    bindings: &Bindings,
) -> (r: bool)
    requires
        in_range(*pattern, bindings@.len()),
    ensures
        r == exact_to_some(*pattern, found@, bindings@),
    decreases pattern, 2int,
{
    let mut j: usize = 0;
    while j < found.len()
        invariant
            j <= found@.len(),
            in_range(*pattern, bindings@.len()),
            forall|k: int| 0 <= k < j ==> !pattern_exact(*pattern, #[trigger] found@[k], bindings@),
        decreases found.len() - j,
    {
        if pattern.exact(&found[j], bindings) {
            return true;
        }
        j = j + 1;
    }
    false
}

fn every_pattern_has_exact_leaves(
    patterns: &Vec<TypePattern>,
    found: &Vec<ResolvedType>,
    bindings: &Bindings,
) -> (r: bool)
    requires
        patterns_in_range(patterns@, bindings@.len()),
    ensures
        r == every_member_exact(patterns@, found@, bindings@),
    decreases patterns, 0int,
{
    let mut i: usize = 0;
    while i < patterns.len()
        invariant
            i <= patterns@.len(),
            patterns_in_range(patterns@, bindings@.len()),
            forall|k: int|
                0 <= k < i ==> every_leaf_exact(#[trigger] patterns@[k], found@, bindings@),
        decreases patterns.len() - i,
    {
        assert(in_range(patterns@[i as int], bindings@.len()));
        if !every_leaf_is_exact(&patterns[i], found, bindings) {
            return false;
        }
        i = i + 1;
    }
    true
}

fn members_have_exact_leaves(
    patterns: &Vec<TypePattern>,
    found: &Vec<ResolvedType>,
    bindings: &Bindings,
) -> (r: bool)
    requires
        patterns_in_range(patterns@, bindings@.len()),
    ensures
        r == forall|k: int|
            0 <= k < found@.len() ==> some_member_exact(
                patterns@,
                #[trigger] found@[k],
                bindings@,
            ),
    decreases patterns, 1int,
{
    let mut k: usize = 0;
    while k < found.len()
        invariant
            k <= found@.len(),
            patterns_in_range(patterns@, bindings@.len()),
            forall|m: int|
                0 <= m < k ==> some_member_exact(
                    patterns@,
                    #[trigger] found@[m],
                    bindings@,
                ),
        decreases found.len() - k,
    {
        if !some_pattern_has_exact_leaf(patterns, &found[k], bindings) {
            return false;
        }
        k = k + 1;
    }
    true
}

fn params_exact(
    patterns: &Vec<TypePattern>,
    found: &Vec<ResolvedFunctionParam>,
    bindings: &Bindings,
) -> (r: bool)
    requires
        patterns_in_range(patterns@, bindings@.len()),
        patterns@.len() == found@.len(),
    ensures
        r == forall|i: int|
            0 <= i < patterns@.len() ==> pattern_exact(
                #[trigger] patterns@[i],
                found@[i].ty,
                bindings@,
            ),
    decreases patterns, 0int,
{
    let mut i: usize = 0;
    while i < patterns.len()
        invariant
            i <= patterns@.len() == found@.len(),
            patterns_in_range(patterns@, bindings@.len()),
            forall|k: int|
                0 <= k < i ==> pattern_exact(#[trigger] patterns@[k], found@[k].ty, bindings@),
        decreases patterns.len() - i,
    {
        assert(in_range(patterns@[i as int], bindings@.len()));
        if !patterns[i].exact(&found[i].ty, bindings) {
            return false;
        }
        i = i + 1;
    }
    true
}

fn target_is_accepted(
    inner: &TypePattern,
    mutable: bool,
    found: &ResolvedType,
    found_mut: bool,
    bindings: &Bindings,
) -> (r: bool)
    requires
        in_range(*inner, bindings@.len()),
    ensures
        r == target_accepts(*inner, mutable, *found, found_mut, bindings@),
    decreases inner, 2int,
{
    if mutable {
        found_mut && inner.exact(found, bindings)
    } else {
        inner.accepts(found, bindings)
    }
}

impl TypePattern {
    /// Whether `found` matches this pattern without any conversion.
    pub fn exact(&self, found: &ResolvedType, bindings: &Bindings) -> (r: bool)
        requires
            in_range(*self, bindings@.len()),
        ensures
            r == pattern_exact(*self, *found, bindings@),
        decreases self, 1int,
    {
        if let Some(expected) = self.resolved(bindings) {
            proof {
                lemma_denotes(self, bindings@, &expected, found);
            }
            return expected == *found;
        }
        match (self, found) {
            (TypePattern::Nominal(_, _), ResolvedType::Enum { variant: Some(_), .. }) => false,
            (
                TypePattern::AnonymousEnum(_),
                ResolvedType::AnonymousEnum { variant: Some(_), .. },
            ) => false,
            (
                TypePattern::Pointer(inner, mutable),
                ResolvedType::Pointer { pointee, mutable: found_mut },
            ) => *mutable == *found_mut && inner.exact(pointee, bindings),
            (
                TypePattern::Slice(inner, mutable),
                ResolvedType::Slice { item, mutable: found_mut },
            ) => *mutable == *found_mut && inner.exact(item, bindings),
            (
                TypePattern::Array(inner, mutable),
                ResolvedType::Array(item, found_mut),
            ) => *mutable == *found_mut && inner.exact(item, bindings),
            _ => self.accepts(found, bindings),
        }
    }

    /// Whether this pattern accepts `found` under `bindings`.
    pub fn accepts(&self, found: &ResolvedType, bindings: &Bindings) -> (r: bool)
        requires
            in_range(*self, bindings@.len()),
        ensures
            r == pattern_accepts(*self, *found, bindings@),
        decreases self, 0int,
    {
        if let Some(expected) = self.resolved(bindings) {
            proof {
                lemma_denotes(self, bindings@, &expected, found);
            }
            return expected.accepts(found);
        }
        match (self, found) {
            (TypePattern::Nominal(path, args), _) => match nominal(found) {
                Some((found_path, found_args)) => same_names(path, &found_path) && all_args_match(
                    args,
                    found_args,
                    bindings,
                ),
                None => false,
            },
            (
                TypePattern::SpecObject(members, mutable),
                ResolvedType::SpecObject { shape, mutable: found_mut },
            ) => *mutable == *found_mut && members.len() == shape.members.len()
                && all_specs_exact(members, &shape.members, bindings),
            (
                TypePattern::Function(params, result, convention, variadic),
                ResolvedType::Function(function),
            ) => *convention == function.calling_convention && *variadic == function.is_variadic
                && function.self_mode.is_none() && params.len() == function.params.len()
                && params_exact(params, &function.params, bindings) && result.exact(
                &function.return_type,
                bindings,
            ),
            (
                TypePattern::AnonymousEnum(members),
                ResolvedType::AnonymousEnum { shape, .. },
            ) => every_pattern_has_exact_leaves(members, &shape.members, bindings)
                && members_have_exact_leaves(members, &shape.members, bindings),
            (
                TypePattern::Pointer(inner, mutable),
                ResolvedType::Pointer { pointee, mutable: found_mut },
            ) => target_is_accepted(inner, *mutable, pointee, *found_mut, bindings),
            (
                TypePattern::Slice(inner, mutable),
                ResolvedType::Slice { item, mutable: found_mut },
            ) => target_is_accepted(inner, *mutable, item, *found_mut, bindings),
            (
                TypePattern::Array(inner, mutable),
                ResolvedType::Array(item, found_mut),
            ) => target_is_accepted(inner, *mutable, item, *found_mut, bindings),
            (
                TypePattern::SizedArray(inner, length),
                ResolvedType::SizedArray(item, size),
            ) => match length.length(bindings) {
                Some(expected) => expected == *size && inner.exact(item, bindings),
                None => false,
            },
            _ => false,
        }
    }
}

} // verus!
