//! What matching a pattern against a type promises.

use crate::acceptance_laws::{
    law_acceptance_keeps_the_constructor, law_read_only_accepts_writable,
    law_writable_accepts_only_itself,
};
use crate::generics::pattern::{
    denotes_acceptor, inferred, inferred_params, pattern_accepts, pattern_exact, resolvable,
    resolves_to, ArgumentPattern, TypePattern,
};
use crate::resolved_type::{
    CompIntType, CompScalar, ResolvedFunctionParam, ResolvedGenericArg, ResolvedType,
};
use crate::type_eq::{accepted, same_type};
use std::rc::Rc;
use vstd::prelude::*;

verus! {

/// What the parameters of a declaration are bound to.
pub type Bound = Seq<Option<ResolvedGenericArg>>;

/// Whether a pattern mentions a parameter where matching can see what stands
/// for it.
pub open spec fn mentions(pattern: TypePattern, index: usize) -> bool
    decreases pattern,
{
    match pattern {
        TypePattern::Parameter(own) => own == index,
        TypePattern::Pointer(inner, _) => mentions(*inner, index),
        TypePattern::Slice(inner, _) => mentions(*inner, index),
        TypePattern::Array(inner, _) => mentions(*inner, index),
        TypePattern::SizedArray(inner, length) => mentions(*inner, index) || *length
            == ArgumentPattern::Parameter(index),
        TypePattern::Function(params, result, _, _) => mentions(*result, index) || exists|i: int|
            0 <= i < params@.len() && mentions(#[trigger] params@[i], index),
        _ => false,
    }
}

/// Whether arguments are such as inference finds: no refined types, and sizes
/// for lengths.
pub open spec fn plain(args: Bound) -> bool {
    forall|i: int|
        0 <= i < args.len() ==> match #[trigger] args[i] {
            Some(ResolvedGenericArg::Type(ty)) => ty.without_refinement() == ty,
            Some(ResolvedGenericArg::Comp(CompScalar::Int { ty, .. })) => ty is USize,
            _ => true,
        }
}

/// Whether nothing is bound to anything but its argument.
pub open spec fn agrees(bindings: Bound, args: Bound) -> bool {
    bindings.len() == args.len() && forall|i: int|
        0 <= i < args.len() && (#[trigger] bindings[i]) is Some ==> bindings[i] == args[i]
}

/// Whether some bindings hold all that others do.
spec fn kept(before: Bound, after: Bound) -> bool {
    before.len() == after.len() && forall|i: int|
        0 <= i < before.len() && (#[trigger] before[i]) is Some ==> after[i] is Some
}

/// Inference recovers the arguments that a type was made with: what a pattern
/// resolves to under some arguments tells every argument it mentions, and
/// tells no other one for it.
pub proof fn law_matching_recovers_arguments(
    pattern: &TypePattern,
    args: Bound,
    ty: &ResolvedType,
    bindings: Bound,
)
    requires
        resolves_to(*pattern, args, *ty),
        plain(args),
        agrees(bindings, args),
    ensures
        agrees(inferred(*pattern, *ty, bindings), args),
        forall|i: int|
            0 <= i < bindings.len() && (#[trigger] bindings[i]) is Some ==> inferred(
                *pattern,
                *ty,
                bindings,
            )[i] is Some,
        forall|index: usize| #[trigger]
            mentions(*pattern, index) ==> index < args.len() && inferred(
                *pattern,
                *ty,
                bindings,
            )[index as int] is Some,
    decreases pattern, 0nat,
{
    let after = inferred(*pattern, *ty, bindings);
    match pattern {
        TypePattern::Parameter(index) => {
            assert(args[*index as int] is Some);
        },
        TypePattern::Pointer(inner, _) => {
            if let ResolvedType::Pointer { pointee, .. } = ty {
                law_matching_recovers_arguments(&**inner, args, &**pointee, bindings);
                assert forall|index: usize| #[trigger] mentions(*pattern, index) implies index
                    < args.len() && after[index as int] is Some by {
                    assert(mentions(**inner, index));
                }
            }
        },
        TypePattern::Slice(inner, _) => {
            if let ResolvedType::Slice { item, .. } = ty {
                law_matching_recovers_arguments(&**inner, args, &**item, bindings);
                assert forall|index: usize| #[trigger] mentions(*pattern, index) implies index
                    < args.len() && after[index as int] is Some by {
                    assert(mentions(**inner, index));
                }
            }
        },
        TypePattern::Array(inner, _) => {
            if let ResolvedType::Array(item, _) = ty {
                law_matching_recovers_arguments(&**inner, args, &**item, bindings);
                assert forall|index: usize| #[trigger] mentions(*pattern, index) implies index
                    < args.len() && after[index as int] is Some by {
                    assert(mentions(**inner, index));
                }
            }
        },
        TypePattern::SizedArray(inner, length) => {
            if let ResolvedType::SizedArray(item, size) = ty {
                law_matching_recovers_arguments(&**inner, args, &**item, bindings);
                let element: &TypePattern = &**inner;
                let own: &ResolvedType = &**item;
                let before = inferred(*element, *own, bindings);
                if let ArgumentPattern::Parameter(index) = &**length {
                    assert(args[*index as int] is Some);
                    assert(args[*index as int] == Some(
                        ResolvedGenericArg::Comp(
                            CompScalar::Int { ty: CompIntType::USize, value: *size as i128 },
                        ),
                    ));
                }
                assert forall|index: usize| #[trigger] mentions(*pattern, index) implies index
                    < args.len() && after[index as int] is Some by {
                    if mentions(**inner, index) {
                        assert(before[index as int] is Some);
                    }
                }
                assert forall|i: int|
                    0 <= i < bindings.len() && (#[trigger] bindings[i]) is Some implies after[i] is Some by {
                    assert(before[i] is Some);
                }
            }
        },
        TypePattern::Function(params, result, _, _) => {
            if let ResolvedType::Function(function) = ty {
                let patterns: &Vec<TypePattern> = &**params;
                let found = function.params@;
                lemma_params_recover(patterns, args, found, patterns@.len(), bindings);
                let before = inferred_params(patterns@, found, patterns@.len(), bindings);
                law_matching_recovers_arguments(
                    &**result,
                    args,
                    &*function.return_type,
                    before,
                );
                assert forall|index: usize| #[trigger] mentions(*pattern, index) implies index
                    < args.len() && after[index as int] is Some by {
                    if mentions(**result, index) {
                        assert(after[index as int] is Some);
                    } else {
                        let i = choose|i: int|
                            0 <= i < patterns@.len() && mentions(#[trigger] patterns@[i], index);
                        assert(mentions(patterns@[i], index));
                        assert(before[index as int] is Some);
                    }
                }
                assert forall|i: int|
                    0 <= i < bindings.len() && (#[trigger] bindings[i]) is Some implies after[i] is Some by {
                    assert(before[i] is Some);
                }
            }
        },
        _ => {},
    }
}

proof fn lemma_params_recover(
    patterns: &Vec<TypePattern>,
    args: Bound,
    found: Seq<ResolvedFunctionParam>,
    n: nat,
    bindings: Bound,
)
    requires
        n <= patterns@.len(),
        found.len() == patterns@.len(),
        forall|i: int|
            0 <= i < patterns@.len() ==> (#[trigger] found[i]).name is None && resolves_to(
                patterns@[i],
                args,
                found[i].ty,
            ),
        plain(args),
        agrees(bindings, args),
    ensures
        ({
            let after = inferred_params(patterns@, found, n, bindings);
            &&& agrees(after, args)
            &&& kept(bindings, after)
            &&& forall|i: int, index: usize|
                0 <= i < n && #[trigger] mentions(patterns@[i], index) ==> index < args.len()
                    && after[index as int] is Some
        }),
    decreases patterns, n,
{
    if n > 0 {
        lemma_params_recover(patterns, args, found, (n - 1) as nat, bindings);
        let before = inferred_params(patterns@, found, (n - 1) as nat, bindings);
        let last: &TypePattern = &patterns@[n - 1];
        assert(found[n - 1].name is None);
        law_matching_recovers_arguments(last, args, &found[n - 1].ty, before);
        let after = inferred_params(patterns@, found, n, bindings);
        assert forall|i: int, index: usize|
            0 <= i < n && #[trigger] mentions(patterns@[i], index) implies index < args.len()
            && after[index as int] is Some by {
            if i < n - 1 {
                assert(before[index as int] is Some);
            }
        }
        assert forall|i: int| 0 <= i < bindings.len() && (#[trigger] bindings[i]) is Some implies after[i] is Some by {
            assert(before[i] is Some);
        }
    }
}

proof fn lemma_read_only(
    inner: &TypePattern,
    found: &ResolvedType,
    mutable: bool,
    bindings: Bound,
)
    requires
        denotes_acceptor(
            TypePattern::Pointer(Rc::new(*inner), false),
            bindings,
            ResolvedType::Pointer { pointee: Rc::new(*found), mutable },
        ),
    ensures
        denotes_acceptor(
            TypePattern::Pointer(Rc::new(*inner), false),
            bindings,
            ResolvedType::Pointer { pointee: Rc::new(*found), mutable: !mutable },
        ),
{
    let pattern = TypePattern::Pointer(Rc::new(*inner), false);
    let given = ResolvedType::Pointer { pointee: Rc::new(*found), mutable };
    let ty = choose|ty: ResolvedType| #[trigger]
        resolves_to(pattern, bindings, ty) && accepted(ty, given);
    match &ty {
        ResolvedType::Pointer { pointee, .. } => {
            law_acceptance_keeps_the_constructor(&**pointee, &given);
            law_read_only_accepts_writable(&**pointee, found, !mutable);
            assert(accepted(
                ty,
                ResolvedType::Pointer { pointee: Rc::new(*found), mutable: !mutable },
            ));
        },
        _ => {},
    }
}

/// A pattern of a read-only pointer accepts a writable one wherever it accepts
/// a read-only one, and the other way round; a pattern of a writable pointer
/// accepts no read-only one.
pub proof fn law_patterns_of_pointers(
    inner: &TypePattern,
    found: &ResolvedType,
    bindings: Bound,
)
    ensures
        pattern_accepts(
            TypePattern::Pointer(Rc::new(*inner), false),
            ResolvedType::Pointer { pointee: Rc::new(*found), mutable: true },
            bindings,
        ) == pattern_accepts(
            TypePattern::Pointer(Rc::new(*inner), false),
            ResolvedType::Pointer { pointee: Rc::new(*found), mutable: false },
            bindings,
        ),
        !pattern_accepts(
            TypePattern::Pointer(Rc::new(*inner), true),
            ResolvedType::Pointer { pointee: Rc::new(*found), mutable: false },
            bindings,
        ),
{
    let pattern = TypePattern::Pointer(Rc::new(*inner), false);
    let writable = ResolvedType::Pointer { pointee: Rc::new(*found), mutable: true };
    let fixed = ResolvedType::Pointer { pointee: Rc::new(*found), mutable: false };
    if denotes_acceptor(pattern, bindings, writable) {
        lemma_read_only(inner, found, true, bindings);
    }
    if denotes_acceptor(pattern, bindings, fixed) {
        lemma_read_only(inner, found, false, bindings);
    }
    let strict = TypePattern::Pointer(Rc::new(*inner), true);
    if denotes_acceptor(strict, bindings, fixed) {
        let ty = choose|ty: ResolvedType| #[trigger]
            resolves_to(strict, bindings, ty) && accepted(ty, fixed);
        if let ResolvedType::Pointer { pointee, .. } = &ty {
            law_writable_accepts_only_itself(&**pointee, &fixed);
        }
    }
}

/// What matches a pattern without any conversion is accepted by it.
pub proof fn law_exact_matches_are_accepted(
    pattern: &TypePattern,
    found: &ResolvedType,
    bindings: Bound,
)
    requires
        pattern_exact(*pattern, *found, bindings),
    ensures
        pattern_accepts(*pattern, *found, bindings),
    decreases pattern,
{
    if resolvable(*pattern, bindings) {
        let ty = choose|ty: ResolvedType| #[trigger]
            resolves_to(*pattern, bindings, ty) && same_type(ty, *found);
        assert(accepted(ty, *found));
    } else {
        match (pattern, found) {
            (TypePattern::Pointer(inner, _), ResolvedType::Pointer { pointee, .. }) => {
                law_exact_matches_are_accepted(&**inner, &**pointee, bindings);
            },
            (TypePattern::Slice(inner, _), ResolvedType::Slice { item, .. }) => {
                law_exact_matches_are_accepted(&**inner, &**item, bindings);
            },
            (TypePattern::Array(inner, _), ResolvedType::Array(item, _)) => {
                law_exact_matches_are_accepted(&**inner, &**item, bindings);
            },
            _ => {},
        }
    }
}

} // verus!
