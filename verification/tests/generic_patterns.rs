use omega::generics::pattern::{ArgumentPattern, TypePattern};
use omega::generics::{unify_generic_pattern, GenericParams, GenericSubstitution};
use omega::hir::HirGenericParam;
use omega::resolved_type::{ResolvedGenericArg, ResolvedType};
use omega::syntax::{GenericArg, Ident, Path, Type};
use std::rc::Rc;

fn named(name: &str) -> Type {
    Type::Named(Rc::new(Path::from_ident(Ident::new(name))))
}

fn pair(a: Type, b: Type) -> Type {
    Type::Generic(
        Rc::new(Path::from_ident(Ident::new("Pair"))),
        Rc::new(vec![GenericArg::Type(a), GenericArg::Type(b)]),
    )
}

fn pair_pattern(a: TypePattern, b: TypePattern) -> TypePattern {
    TypePattern::Nominal(
        Rc::new(vec![Ident::new("Pair")]),
        Rc::new(vec![
            ArgumentPattern::Type(Rc::new(a)),
            ArgumentPattern::Type(Rc::new(b)),
        ]),
    )
}

fn unify(
    params: &Vec<HirGenericParam>,
    raw: &Type,
    expected: &TypePattern,
) -> GenericSubstitution {
    let comp_types = vec![None; params.len()];
    let generics = GenericParams {
        params,
        comp_types: &comp_types,
        pointer_bits: 64,
    };
    let mut subst = GenericSubstitution::new();
    unify_generic_pattern(&generics, raw, expected, &mut subst);
    subst
}

#[test]
fn a_known_part_binds_the_parameter_it_meets() {
    let params = vec![HirGenericParam::type_param(Ident::new("T"), vec![], None)];
    let subst = unify(
        &params,
        &pair(named("T"), named("T")),
        &pair_pattern(TypePattern::Parameter(0), TypePattern::Fixed(ResolvedType::U8)),
    );
    assert_eq!(
        subst.get(&Ident::new("T")),
        Some(&ResolvedGenericArg::Type(ResolvedType::U8))
    );
}

#[test]
fn a_hole_binds_nothing() {
    let params = vec![HirGenericParam::type_param(Ident::new("T"), vec![], None)];
    let subst = unify(
        &params,
        &pair(named("T"), named("T")),
        &pair_pattern(TypePattern::Parameter(0), TypePattern::Parameter(1)),
    );
    assert!(subst.is_empty());
}

#[test]
fn structure_is_followed_through_pointers() {
    let params = vec![HirGenericParam::type_param(Ident::new("T"), vec![], None)];
    let subst = unify(
        &params,
        &Type::Pointer(Rc::new(pair(named("T"), named("u8"))), false),
        &TypePattern::Pointer(
            Rc::new(pair_pattern(
                TypePattern::Fixed(ResolvedType::I64),
                TypePattern::Parameter(0),
            )),
            false,
        ),
    );
    assert_eq!(
        subst.get(&Ident::new("T")),
        Some(&ResolvedGenericArg::Type(ResolvedType::I64))
    );
}

#[test]
fn identical_types_are_the_resolved_ones_and_keep_mutability_at_every_depth() {
    let pointer = |pointee: ResolvedType, mutable| ResolvedType::Pointer {
        pointee: Rc::new(pointee),
        mutable,
    };
    let pattern = TypePattern::Pointer(
        Rc::new(TypePattern::Pointer(Rc::new(TypePattern::Parameter(0)), true)),
        false,
    );
    let bound = vec![Some(ResolvedGenericArg::Type(ResolvedType::I32))];
    let resolved = pattern.resolved(&bound).unwrap();
    assert_eq!(resolved, pointer(pointer(ResolvedType::I32, true), false));
    assert!(pattern.identical(&resolved, &bound));
    assert!(!pattern.identical(&pointer(pointer(ResolvedType::I32, false), false), &bound));
    assert!(!pattern.identical(&pointer(pointer(ResolvedType::I32, true), true), &bound));
    assert!(!pattern.identical(&pointer(pointer(ResolvedType::U32, true), false), &bound));

    let unbound = vec![None];
    assert!(!pattern.identical(&resolved, &unbound));
    assert!(!TypePattern::Parameter(0).identical(&ResolvedType::I32, &unbound));
}
