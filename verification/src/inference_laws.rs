//! That inference recovers the arguments a type was made with.

use crate::generics::{
    arguments_unified, bound_once, known_type, law_binding_is_found, length_bound, lookup,
    names_type_param, param_position, pattern_unified, patterns_unified, unified, unified_args,
    unified_params, value_bound, GenericParams,
};
use crate::generics::pattern::{length_of, ArgumentPattern, TypePattern};
use crate::resolved_type::{
    CompIntType, CompScalar, CompScalarType, ResolvedFunctionParam, ResolvedGenericArg,
    ResolvedType,
};
use crate::syntax::{ArrayLength, FunctionTypeParam, GenericArg, Path, Type};
use std::rc::Rc;
use vstd::prelude::*;

verus! {

/// What each of a declaration's parameters stands for.
pub type Arguments = Map<Seq<char>, ResolvedGenericArg>;

/// Whether a parameter is the one a name means: the first that is called so.
pub open spec fn meant(generics: GenericParams<'_>, name: Seq<char>, index: int) -> bool {
    &&& 0 <= index < generics.params@.len()
    &&& generics.params@[index].ident@ == name
    &&& forall|k: int| 0 <= k < index ==> (#[trigger] generics.params@[k]).ident@ != name
}

/// Whether a name means a type parameter of the declaration.
pub open spec fn means_type(generics: GenericParams<'_>, name: Seq<char>) -> bool {
    exists|index: int| #[trigger]
        meant(generics, name, index) && !generics.params@[index].comp()
}

/// Whether a name means a `comp` parameter of this type.
pub open spec fn means_value(
    generics: GenericParams<'_>,
    name: Seq<char>,
    ty: CompScalarType,
) -> bool {
    exists|index: int| #[trigger]
        meant(generics, name, index) && generics.params@[index].comp()
            && generics.comp_types@[index] == Some(ty)
}

/// A name as a path on its own.
pub open spec fn alone(path: Path) -> bool {
    !path.anchored && path.tail@.len() == 0
}

/// Whether what is written where a type could stand is a `comp` parameter.
pub open spec fn names_value(generics: GenericParams<'_>, raw: Type, name: Seq<char>) -> bool {
    match raw {
        Type::Named(path) => alone(*path) && path.head@ == name && exists|ty: CompScalarType|
            #[trigger] means_value(generics, name, ty),
        _ => false,
    }
}

/// The arguments a nominal type was made with.
pub open spec fn made_with(concrete: ResolvedType, args: Seq<ResolvedGenericArg>) -> bool {
    ||| concrete matches ResolvedType::Struct(cell) && cell.generic_args@ == args
    ||| concrete matches ResolvedType::Union(cell) && cell.generic_args@ == args
    ||| concrete matches ResolvedType::Enum { cell, .. } && cell.generic_args@ == args
}

/// Whether a length is a written length with the declaration's parameters
/// replaced by arguments.
pub open spec fn length_instance(
    generics: GenericParams<'_>,
    written: ArrayLength,
    args: Arguments,
    size: u32,
) -> bool {
    match written {
        ArrayLength::Path(path) => alone(*path) ==> forall|ty: CompIntType|
            #[trigger] means_value(generics, path.head@, CompScalarType::Int(ty)) ==> {
                &&& ty.denoted().in_domain(size as int, generics.pointer_bits)
                &&& args[path.head@] == ResolvedGenericArg::Comp(
                    CompScalar::Int { ty, value: size as i128 },
                )
            },
        ArrayLength::Literal(_) => true,
    }
}

/// Whether a concrete type is a written type with the declaration's parameters
/// replaced by arguments. What a written name other than a parameter stands
/// for is left open, and so is mutability.
pub open spec fn instance(
    generics: GenericParams<'_>,
    raw: Type,
    args: Arguments,
    concrete: ResolvedType,
) -> bool
    decreases raw, 0nat,
{
    match raw {
        Type::Named(path) => alone(*path) && means_type(generics, path.head@)
            ==> args[path.head@] == ResolvedGenericArg::Type(concrete),
        Type::Pointer(inner, _) => match *inner {
            Type::InferredArray(elem) => concrete matches ResolvedType::Slice { item, .. }
                && instance(generics, *elem, args, *item),
            Type::UnknownSizeArray(elem) => concrete matches ResolvedType::Array(item, _)
                && instance(generics, *elem, args, *item),
            _ => concrete matches ResolvedType::Pointer { pointee, .. } && instance(
                generics,
                *inner,
                args,
                *pointee,
            ),
        },
        Type::SizedArray(inner, length) => concrete matches ResolvedType::SizedArray(item, size)
            && length_instance(generics, length, args, size) && instance(
            generics,
            *inner,
            args,
            *item,
        ),
        Type::Function(function) => concrete matches ResolvedType::Function(found) && {
            &&& function.params@.len() == found.params@.len()
            &&& forall|i: int|
                0 <= i < function.params@.len() ==> instance(
                    generics,
                    #[trigger] function.params@[i].ty,
                    args,
                    found.params@[i].ty,
                )
            &&& instance(generics, function.return_type, args, *found.return_type)
        },
        Type::Generic(_, raw_args) => exists|given: Seq<ResolvedGenericArg>| #[trigger]
            made_with(concrete, given) && given.len() == raw_args@.len() && forall|i: int|
            0 <= i < raw_args@.len() ==> arg_instance(
                generics,
                #[trigger] raw_args@[i],
                args,
                given[i],
            ),
        Type::UnknownSizeArray(_) => false,
        Type::InferredArray(_) => false,
        Type::SpecStatic(_) => true,
        Type::AnonymousEnum(_) => true,
    }
}

/// [`instance`] for one argument of a nominal type.
pub open spec fn arg_instance(
    generics: GenericParams<'_>,
    raw: GenericArg,
    args: Arguments,
    found: ResolvedGenericArg,
) -> bool
    decreases raw, 0nat,
{
    match raw {
        GenericArg::Type(ty) => match found {
            ResolvedGenericArg::Type(concrete) => {
                &&& instance(generics, ty, args, concrete)
                &&& forall|name: Seq<char>| !#[trigger] names_value(generics, ty, name)
            },
            ResolvedGenericArg::Comp(value) => match ty {
                Type::Named(path) => alone(*path) && (exists|index: int| #[trigger]
                    meant(generics, path.head@, index)) ==> means_value(
                    generics,
                    path.head@,
                    value.declared(),
                ) && args[path.head@] == found,
                _ => false,
            },
        },
        GenericArg::Value(_) => true,
    }
}

/// Whether a parameter occurs in a written type where inference can see what
/// it stands for.
pub open spec fn occurs(generics: GenericParams<'_>, raw: Type, name: Seq<char>) -> bool
    decreases raw, 0nat,
{
    match raw {
        Type::Named(path) => alone(*path) && path.head@ == name && means_type(generics, name),
        Type::Pointer(inner, _) => match *inner {
            Type::InferredArray(elem) => occurs(generics, *elem, name),
            Type::UnknownSizeArray(elem) => occurs(generics, *elem, name),
            _ => occurs(generics, *inner, name),
        },
        Type::SizedArray(inner, length) => occurs(generics, *inner, name) || (
        length matches ArrayLength::Path(path) && alone(*path) && path.head@ == name && exists|
            ty: CompIntType,
        | #[trigger] means_value(generics, name, CompScalarType::Int(ty))),
        Type::Function(function) => {
            ||| occurs(generics, function.return_type, name)
            ||| exists|i: int|
                0 <= i < function.params@.len() && occurs(
                    generics,
                    #[trigger] function.params@[i].ty,
                    name,
                )
        },
        Type::Generic(_, raw_args) => exists|i: int|
            0 <= i < raw_args@.len() && arg_occurs(generics, #[trigger] raw_args@[i], name),
        _ => false,
    }
}

/// [`occurs`] for one argument of a nominal type.
pub open spec fn arg_occurs(generics: GenericParams<'_>, raw: GenericArg, name: Seq<char>) -> bool
    decreases raw, 0nat,
{
    match raw {
        GenericArg::Type(ty) => occurs(generics, ty, name) || names_value(generics, ty, name),
        GenericArg::Value(_) => false,
    }
}

/// Whether bindings bind no name to anything but its argument.
spec fn agrees(entries: Seq<(Seq<char>, ResolvedGenericArg)>, args: Arguments) -> bool {
    forall|name: Seq<char>| (#[trigger] lookup(entries, name)) is Some ==> lookup(entries, name)
        == Some(args[name])
}

/// Whether bindings bind a name.
spec fn binds(entries: Seq<(Seq<char>, ResolvedGenericArg)>, name: Seq<char>) -> bool {
    lookup(entries, name) is Some
}

proof fn lemma_position(generics: GenericParams<'_>, name: Seq<char>, from: int)
    requires
        0 <= from,
        forall|k: int| 0 <= k < from && k < generics.params@.len() ==> (
        #[trigger] generics.params@[k]).ident@ != name,
    ensures
        match param_position(generics.params@, name, from) {
            Some(index) => meant(generics, name, index),
            None => forall|index: int| !#[trigger] meant(generics, name, index),
        },
    decreases generics.params@.len() - from,
{
    if from < generics.params@.len() && generics.params@[from].ident@ != name {
        lemma_position(generics, name, from + 1);
    }
}

proof fn lemma_meant_once(generics: GenericParams<'_>, name: Seq<char>, i: int, j: int)
    requires
        meant(generics, name, i),
        meant(generics, name, j),
    ensures
        i == j,
{
}

proof fn lemma_means(generics: GenericParams<'_>, name: Seq<char>, ty: CompScalarType)
    ensures
        generics.declares_type(name) == means_type(generics, name),
        (generics.declared_comp(name) == Some(ty)) == means_value(generics, name, ty),
{
    lemma_position(generics, name, 0);
    match param_position(generics.params@, name, 0) {
        Some(index) => {
            if means_type(generics, name) {
                let i = choose|i: int| #[trigger]
                    meant(generics, name, i) && !generics.params@[i].comp();
                lemma_meant_once(generics, name, i, index);
            }
            if means_value(generics, name, ty) {
                let i = choose|i: int| #[trigger]
                    meant(generics, name, i) && generics.params@[i].comp()
                        && generics.comp_types@[i] == Some(ty);
                lemma_meant_once(generics, name, i, index);
            }
        },
        None => {},
    }
}

proof fn lemma_bound(
    entries: Seq<(Seq<char>, ResolvedGenericArg)>,
    args: Arguments,
    name: Seq<char>,
    arg: ResolvedGenericArg,
)
    requires
        agrees(entries, args),
        args[name] == arg,
    ensures
        agrees(bound_once(entries, name, arg), args),
        binds(bound_once(entries, name, arg), name),
        forall|other: Seq<char>| #[trigger]
            binds(bound_once(entries, name, arg), other) <==> binds(entries, other) || other
                == name,
{
    if lookup(entries, name) is None {
        let after = bound_once(entries, name, arg);
        assert forall|other: Seq<char>| (#[trigger] lookup(after, other)) is Some implies lookup(
            after,
            other,
        ) == Some(args[other]) by {
            law_binding_is_found(entries, name, arg, other);
        }
        assert forall|other: Seq<char>| #[trigger]
            binds(after, other) <==> binds(entries, other) || other == name by {
            law_binding_is_found(entries, name, arg, other);
        }
    }
}

proof fn lemma_length_inferred(
    generics: GenericParams<'_>,
    written: &ArrayLength,
    args: Arguments,
    size: u32,
    entries: Seq<(Seq<char>, ResolvedGenericArg)>,
)
    requires
        length_instance(generics, *written, args, size),
        agrees(entries, args),
    ensures
        agrees(length_bound(generics, *written, size, entries), args),
        forall|name: Seq<char>| #[trigger]
            binds(length_bound(generics, *written, size, entries), name) <==> binds(entries, name)
                || (*written matches ArrayLength::Path(path) && alone(*path) && path.head@ == name
                && exists|ty: CompIntType| #[trigger]
                means_value(generics, name, CompScalarType::Int(ty))),
{
    match written {
        ArrayLength::Path(path) => {
            let path: &Path = &**path;
            let name = path.head@;
            if alone(*path) {
                match generics.declared_comp(name) {
                    Some(CompScalarType::Int(ty)) => {
                        lemma_means(generics, name, CompScalarType::Int(ty));
                        assert(means_value(generics, name, CompScalarType::Int(ty)));
                        lemma_bound(
                            entries,
                            args,
                            name,
                            ResolvedGenericArg::Comp(
                                CompScalar::Int { ty, value: size as i128 },
                            ),
                        );
                    },
                    _ => {
                        assert forall|ty: CompIntType| !#[trigger] means_value(
                            generics,
                            name,
                            CompScalarType::Int(ty),
                        ) by {
                            lemma_means(generics, name, CompScalarType::Int(ty));
                        }
                    },
                }
            }
        },
        ArrayLength::Literal(_) => {},
    }
}

/// What is known once a written type has been held against an instance of it.
spec fn inferred(
    generics: GenericParams<'_>,
    raw: Type,
    args: Arguments,
    before: Seq<(Seq<char>, ResolvedGenericArg)>,
    after: Seq<(Seq<char>, ResolvedGenericArg)>,
) -> bool {
    &&& agrees(after, args)
    &&& forall|name: Seq<char>| #[trigger] binds(before, name) ==> binds(after, name)
    &&& forall|name: Seq<char>| #[trigger] occurs(generics, raw, name) ==> binds(after, name)
}

proof fn lemma_inferred(
    generics: GenericParams<'_>,
    raw: &Type,
    args: Arguments,
    concrete: &ResolvedType,
    entries: Seq<(Seq<char>, ResolvedGenericArg)>,
)
    requires
        instance(generics, *raw, args, *concrete),
        agrees(entries, args),
    ensures
        inferred(generics, *raw, args, entries, unified(generics, *raw, *concrete, entries)),
    decreases raw, 0nat,
{
    match raw {
        Type::Named(path) => {
            let path: &Path = &**path;
            lemma_means(generics, path.head@, CompScalarType::Bool);
            let after = unified(generics, *raw, *concrete, entries);
            assert forall|name: Seq<char>| #[trigger] occurs(generics, *raw, name) implies alone(
                *path,
            ) && name == path.head@ && means_type(generics, path.head@) by {}
            assert(names_type_param(generics, *raw) == (alone(*path) && means_type(
                generics,
                path.head@,
            )));
            if alone(*path) && means_type(generics, path.head@) {
                lemma_bound(entries, args, path.head@, ResolvedGenericArg::Type(*concrete));
                let after = unified(generics, *raw, *concrete, entries);
                assert(after == bound_once(
                    entries,
                    path.head@,
                    ResolvedGenericArg::Type(*concrete),
                ));
                assert forall|name: Seq<char>| #[trigger] binds(entries, name) implies binds(
                    after,
                    name,
                ) by {
                    assert(binds(after, name) <==> binds(entries, name) || name == path.head@);
                }
            }
        },
        Type::Pointer(inner, _) => match &**inner {
            Type::InferredArray(elem) => match concrete {
                ResolvedType::Slice { item, .. } => {
                    let elem: &Type = &**elem;
                    lemma_inferred(generics, elem, args, &**item, entries);
                    assert forall|name: Seq<char>| #[trigger] occurs(generics, *raw, name) implies binds(
                        unified(generics, *raw, *concrete, entries),
                        name,
                    ) by {
                        assert(occurs(generics, *elem, name));
                    }
                },
                _ => {},
            },
            Type::UnknownSizeArray(elem) => match concrete {
                ResolvedType::Array(item, _) => {
                    let elem: &Type = &**elem;
                    lemma_inferred(generics, elem, args, &**item, entries);
                    assert forall|name: Seq<char>| #[trigger] occurs(generics, *raw, name) implies binds(
                        unified(generics, *raw, *concrete, entries),
                        name,
                    ) by {
                        assert(occurs(generics, *elem, name));
                    }
                },
                _ => {},
            },
            other => match concrete {
                ResolvedType::Pointer { pointee, .. } => {
                    lemma_inferred(generics, other, args, &**pointee, entries);
                    assert forall|name: Seq<char>| #[trigger] occurs(generics, *raw, name) implies binds(
                        unified(generics, *raw, *concrete, entries),
                        name,
                    ) by {
                        assert(occurs(generics, *other, name));
                    }
                },
                _ => {},
            },
        },
        Type::SizedArray(inner, length) => match concrete {
            ResolvedType::SizedArray(item, size) => {
                lemma_length_inferred(generics, length, args, *size, entries);
                let mid = length_bound(generics, *length, *size, entries);
                lemma_inferred(generics, &**inner, args, &**item, mid);
                assert forall|name: Seq<char>| #[trigger] binds(entries, name) implies binds(
                    unified(generics, *raw, *concrete, entries),
                    name,
                ) by {
                    assert(binds(mid, name));
                }
                assert forall|name: Seq<char>| #[trigger]
                    occurs(generics, *raw, name) implies binds(
                    unified(generics, *raw, *concrete, entries),
                    name,
                ) by {
                    if occurs(generics, **inner, name) {
                    } else {
                        assert(binds(mid, name));
                    }
                }
            },
            _ => {},
        },
        Type::Function(function) => match concrete {
            ResolvedType::Function(found) => {
                let n = function.params@.len();
                lemma_params_inferred(
                    generics,
                    function.params@,
                    args,
                    found.params@,
                    n,
                    entries,
                );
                let mid = unified_params(generics, function.params@, found.params@, n, entries);
                lemma_inferred(
                    generics,
                    &function.return_type,
                    args,
                    &*found.return_type,
                    mid,
                );
                let after = unified(generics, *raw, *concrete, entries);
                assert forall|name: Seq<char>| #[trigger] binds(entries, name) implies binds(
                    after,
                    name,
                ) by {
                    assert(binds(mid, name));
                }
                assert forall|name: Seq<char>| #[trigger]
                    occurs(generics, *raw, name) implies binds(after, name) by {
                    if !occurs(generics, function.return_type, name) {
                        let i = choose|i: int|
                            0 <= i < n && occurs(generics, #[trigger] function.params@[i].ty, name);
                        assert(binds(mid, name));
                    }
                }
            },
            _ => {},
        },
        Type::Generic(_, raw_args) => {
            let given = choose|given: Seq<ResolvedGenericArg>| #[trigger]
                made_with(*concrete, given) && given.len() == raw_args@.len() && forall|i: int|
                0 <= i < raw_args@.len() ==> arg_instance(
                    generics,
                    #[trigger] raw_args@[i],
                    args,
                    given[i],
                );
            lemma_args_inferred(generics, raw_args@, args, given, raw_args@.len(), entries);
            let after = unified(generics, *raw, *concrete, entries);
            assert(after == unified_args(
                generics,
                raw_args@,
                given,
                raw_args@.len(),
                entries,
            ));
            assert forall|name: Seq<char>| #[trigger] occurs(generics, *raw, name) implies binds(
                after,
                name,
            ) by {
                let i = choose|i: int|
                    0 <= i < raw_args@.len() && arg_occurs(
                        generics,
                        #[trigger] raw_args@[i],
                        name,
                    );
                assert(arg_occurs(generics, raw_args@[i], name));
            }
        },
        _ => {},
    }
}

proof fn lemma_params_inferred(
    generics: GenericParams<'_>,
    raw: Seq<FunctionTypeParam>,
    args: Arguments,
    found: Seq<ResolvedFunctionParam>,
    n: nat,
    entries: Seq<(Seq<char>, ResolvedGenericArg)>,
)
    requires
        n <= raw.len(),
        raw.len() == found.len(),
        forall|i: int|
            0 <= i < raw.len() ==> instance(generics, #[trigger] raw[i].ty, args, found[i].ty),
        agrees(entries, args),
    ensures
        ({
            let after = unified_params(generics, raw, found, n, entries);
            &&& agrees(after, args)
            &&& forall|name: Seq<char>| #[trigger] binds(entries, name) ==> binds(after, name)
            &&& forall|name: Seq<char>, i: int|
                0 <= i < n && #[trigger] occurs(generics, raw[i].ty, name) ==> binds(after, name)
        }),
    decreases raw, n,
{
    if n > 0 {
        let m = (n - 1) as nat;
        lemma_params_inferred(generics, raw, args, found, m, entries);
        let before = unified_params(generics, raw, found, m, entries);
        let after = unified_params(generics, raw, found, n, entries);
        assert(instance(generics, raw[m as int].ty, args, found[m as int].ty));
        lemma_inferred(generics, &raw[m as int].ty, args, &found[m as int].ty, before);
        assert forall|name: Seq<char>| #[trigger] binds(entries, name) implies binds(
            after,
            name,
        ) by {
            assert(binds(before, name));
        }
        assert forall|name: Seq<char>, i: int|
            0 <= i < n && #[trigger] occurs(generics, raw[i].ty, name) implies binds(
            after,
            name,
        ) by {
            if i < m {
                assert(binds(before, name));
            }
        }
    }
}

proof fn lemma_args_inferred(
    generics: GenericParams<'_>,
    raw: Seq<GenericArg>,
    args: Arguments,
    found: Seq<ResolvedGenericArg>,
    n: nat,
    entries: Seq<(Seq<char>, ResolvedGenericArg)>,
)
    requires
        n <= raw.len(),
        raw.len() == found.len(),
        forall|i: int|
            0 <= i < raw.len() ==> arg_instance(generics, #[trigger] raw[i], args, found[i]),
        agrees(entries, args),
    ensures
        ({
            let after = unified_args(generics, raw, found, n, entries);
            &&& agrees(after, args)
            &&& forall|name: Seq<char>| #[trigger] binds(entries, name) ==> binds(after, name)
            &&& forall|name: Seq<char>, i: int|
                0 <= i < n && #[trigger] arg_occurs(generics, raw[i], name)
                    ==> binds(after, name)
        }),
    decreases raw, n,
{
    if n > 0 {
        let m = (n - 1) as nat;
        lemma_args_inferred(generics, raw, args, found, m, entries);
        let before = unified_args(generics, raw, found, m, entries);
        let after = unified_args(generics, raw, found, n, entries);
        assert(arg_instance(generics, raw[m as int], args, found[m as int]));
        match &raw[m as int] {
            GenericArg::Type(ty) => match &found[m as int] {
                ResolvedGenericArg::Type(concrete) => {
                    lemma_inferred(generics, ty, args, concrete, before);
                },
                ResolvedGenericArg::Comp(value) => match ty {
                    Type::Named(path) => {
                        let path: &Path = &**path;
                        lemma_means(generics, path.head@, value.declared());
                        if alone(*path) && means_value(generics, path.head@, value.declared()) {
                            lemma_bound(
                                before,
                                args,
                                path.head@,
                                ResolvedGenericArg::Comp(*value),
                            );
                        }
                    },
                    _ => {},
                },
            },
            GenericArg::Value(_) => {},
        }
        assert forall|name: Seq<char>| #[trigger] binds(entries, name) implies binds(
            after,
            name,
        ) by {
            assert(binds(before, name));
        }
        assert forall|name: Seq<char>, i: int|
            0 <= i < n && #[trigger] arg_occurs(generics, raw[i], name) implies binds(
            after,
            name,
        ) by {
            if i < m {
                assert(binds(before, name));
            } else {
                lemma_last_occurs(generics, raw, args, found, m, before, name);
            }
        }
    }
}

proof fn lemma_last_occurs(
    generics: GenericParams<'_>,
    raw: Seq<GenericArg>,
    args: Arguments,
    found: Seq<ResolvedGenericArg>,
    m: nat,
    before: Seq<(Seq<char>, ResolvedGenericArg)>,
    name: Seq<char>,
)
    requires
        m < raw.len(),
        raw.len() == found.len(),
        arg_instance(generics, raw[m as int], args, found[m as int]),
        agrees(before, args),
        arg_occurs(generics, raw[m as int], name),
    ensures
        match (raw[m as int], found[m as int]) {
            (GenericArg::Type(ty), ResolvedGenericArg::Type(concrete)) => occurs(
                generics,
                ty,
                name,
            ),
            (GenericArg::Type(ty), ResolvedGenericArg::Comp(value)) => binds(
                value_bound(generics, ty, value, before),
                name,
            ),
            _ => false,
        },
{
    match (&raw[m as int], &found[m as int]) {
        (GenericArg::Type(ty), ResolvedGenericArg::Comp(value)) => match ty {
            Type::Named(path) => {
                let path: &Path = &**path;
                let head = path.head@;
                lemma_means(generics, head, value.declared());
                if occurs(generics, *ty, name) {
                    let i = choose|i: int| #[trigger]
                        meant(generics, head, i) && !generics.params@[i].comp();
                } else {
                    let other = choose|other: CompScalarType| #[trigger]
                        means_value(generics, name, other);
                    let i = choose|i: int| #[trigger]
                        meant(generics, name, i) && generics.params@[i].comp()
                            && generics.comp_types@[i] == Some(other);
                }
                assert(exists|index: int| #[trigger] meant(generics, head, index));
                lemma_bound(before, args, head, ResolvedGenericArg::Comp(*value));
            },
            _ => {},
        },
        _ => {},
    }
}

/// Inference recovers arguments: where a concrete type is the written type with
/// its parameters replaced by arguments, each parameter that occurs is bound to
/// its argument, and no name is bound to anything else.
pub proof fn law_inference_recovers_arguments(
    generics: GenericParams<'_>,
    raw: &Type,
    args: Arguments,
    concrete: &ResolvedType,
)
    requires
        instance(generics, *raw, args, *concrete),
    ensures
        ({
            let entries = unified(generics, *raw, *concrete, Seq::empty());
            &&& forall|name: Seq<char>| #[trigger]
                occurs(generics, *raw, name) ==> lookup(entries, name) == Some(args[name])
            &&& forall|name: Seq<char>| (#[trigger] lookup(entries, name)) is Some ==> lookup(
                entries,
                name,
            ) == Some(args[name])
        }),
{
    let none = Seq::<(Seq<char>, ResolvedGenericArg)>::empty();
    assert(agrees(none, args));
    lemma_inferred(generics, raw, args, concrete, none);
    let entries = unified(generics, *raw, *concrete, none);
    assert forall|name: Seq<char>| #[trigger] occurs(generics, *raw, name) implies lookup(
        entries,
        name,
    ) == Some(args[name]) by {
        assert(binds(entries, name));
    }
}

/// Inference goes on from what is known: where the bindings so far agree with
/// the arguments, they still do once one more instance has been seen, and the
/// parameters that occur in it are bound.
pub proof fn law_inference_goes_on(
    generics: GenericParams<'_>,
    raw: &Type,
    args: Arguments,
    concrete: &ResolvedType,
    entries: Seq<(Seq<char>, ResolvedGenericArg)>,
    name: Seq<char>,
)
    requires
        instance(generics, *raw, args, *concrete),
        forall|other: Seq<char>| (#[trigger] lookup(entries, other)) is Some ==> lookup(
            entries,
            other,
        ) == Some(args[other]),
        occurs(generics, *raw, name) || lookup(entries, name) is Some,
    ensures
        lookup(unified(generics, *raw, *concrete, entries), name) == Some(args[name]),
{
    assert(agrees(entries, args));
    lemma_inferred(generics, raw, args, concrete, entries);
    if lookup(entries, name) is Some {
        assert(binds(entries, name));
    }
    assert(binds(unified(generics, *raw, *concrete, entries), name));
}

/// A pattern is looked into as a type is: through a pointer to what it points
/// to, through a slice or an array to its elements, and a length is learned
/// where it is known. A hole tells nothing.
pub proof fn law_patterns_are_looked_into(
    generics: GenericParams<'_>,
    raw: &Type,
    pattern: &TypePattern,
    entries: Seq<(Seq<char>, ResolvedGenericArg)>,
)
    ensures
        *pattern is Parameter ==> pattern_unified(generics, *raw, *pattern, entries) == entries,
        *pattern matches TypePattern::Pointer(known, _) ==> (*raw matches Type::Pointer(inner, _)
            ==> pattern_unified(generics, *raw, *pattern, entries) == pattern_unified(
            generics,
            *inner,
            *known,
            entries,
        )),
        *pattern matches TypePattern::Slice(known, _) ==> (*raw matches Type::Pointer(inner, _)
            ==> (*inner matches Type::InferredArray(elem) ==> pattern_unified(
            generics,
            *raw,
            *pattern,
            entries,
        ) == pattern_unified(generics, *elem, *known, entries))),
        *pattern matches TypePattern::Array(known, _) ==> (*raw matches Type::Pointer(inner, _)
            ==> (*inner matches Type::UnknownSizeArray(elem) ==> pattern_unified(
            generics,
            *raw,
            *pattern,
            entries,
        ) == pattern_unified(generics, *elem, *known, entries))),
        *pattern matches TypePattern::SizedArray(known, size) ==> (*raw matches Type::SizedArray(
            inner,
            length,
        ) ==> pattern_unified(generics, *raw, *pattern, entries) == pattern_unified(
            generics,
            *inner,
            *known,
            match length_of(*size, Seq::empty()) {
                Some(n) => length_bound(generics, length, n, entries),
                None => entries,
            },
        )),
        *pattern matches TypePattern::Function(params, result, _, _) ==> (
        *raw matches Type::Function(function) ==> (params@.len() == 0 ==> pattern_unified(
            generics,
            *raw,
            *pattern,
            entries,
        ) == pattern_unified(generics, function.return_type, *result, entries)) && (params@.len()
            == 1 && function.params@.len() == 1 ==> pattern_unified(
            generics,
            *raw,
            *pattern,
            entries,
        ) == pattern_unified(
            generics,
            function.return_type,
            *result,
            pattern_unified(generics, function.params@[0].ty, params@[0], entries),
        ))),
        *pattern matches TypePattern::Nominal(_, found) ==> (*raw matches Type::Generic(_, written)
            ==> (found@.len() == 1 && written@.len() == 1 ==> (
        found@[0] matches ArgumentPattern::Type(known) ==> (
        written@[0] matches GenericArg::Type(ty) ==> pattern_unified(
            generics,
            *raw,
            *pattern,
            entries,
        ) == pattern_unified(generics, ty, *known, entries))))),
{
    reveal_with_fuel(pattern_unified, 3);
    reveal_with_fuel(patterns_unified, 3);
    reveal_with_fuel(arguments_unified, 3);
    reveal_with_fuel(unified, 3);
    reveal_with_fuel(known_type, 3);
}

/// What a known part of a pattern stands for is learned where a parameter is
/// written for it, unless the parameter was bound before.
pub proof fn law_known_parts_are_learned(
    generics: GenericParams<'_>,
    raw: Type,
    path: Rc<Path>,
    pattern: TypePattern,
    ty: ResolvedType,
    entries: Seq<(Seq<char>, ResolvedGenericArg)>,
)
    requires
        raw == Type::Named(path),
        alone(*path),
        means_type(generics, path.head@),
        known_type(pattern) == Some(ty),
    ensures
        lookup(pattern_unified(generics, raw, pattern, entries), path.head@) == match lookup(
            entries,
            path.head@,
        ) {
            Some(before) => Some(before),
            None => Some(ResolvedGenericArg::Type(ty)),
        },
{
    lemma_means(generics, path.head@, CompScalarType::Bool);
    if lookup(entries, path.head@) is None {
        law_binding_is_found(entries, path.head@, ResolvedGenericArg::Type(ty), path.head@);
    }
}

} // verus!
