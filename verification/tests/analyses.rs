use omega::checked::{
    CheckedBlock, CheckedExpr, CheckedExprNode, CheckedFunctionCall, CheckedPlace,
    CheckedPlaceRoot, CheckedStmt, Storage,
};
use omega::exhaustiveness::{check, Interval};
use omega::generics::pattern::{ArgumentPattern, SpecPattern, TypePattern};
use omega::generics::GenericSubstitution;
use omega::hir::{HirGenericParam, HirId, ModuleId};
use omega::measure::{measure, measure_run};
use omega::resolved_type::{
    CallingConvention, ResolvedFunctionType, ResolvedGenericArg, ResolvedType,
};
use omega::resolver::OverloadTemplate;
use omega::runtime_checks::{scan_block, static_callee, RuntimeCheck};
use omega::similarity::{best_match, levenshtein};
use omega::syntax::{Ident, Span};
use omega::template::TemplateDescriptor;
use std::rc::Rc;

fn id(local: u32) -> HirId {
    HirId {
        module: ModuleId(0),
        local,
    }
}

fn interval(lo: i128, hi: i128) -> Interval {
    Interval {
        lo,
        hi,
        span: Span::new(0, 0),
    }
}

#[test]
fn gaps_are_what_no_interval_covers() {
    let report = check((0, 255), vec![interval(100, 120), interval(0, 9), interval(121, 254)]);
    assert_eq!(report.gaps, [(10, 99), (255, 255)]);
    assert!(report.overlaps.is_empty());
    let whole = check((0, 255), vec![interval(0, 255)]);
    assert!(whole.gaps.is_empty());
    let nothing = check((-128, 127), vec![]);
    assert_eq!(nothing.gaps, [(-128, 127)]);
}

#[test]
fn an_overlap_names_the_interval_that_reaches_farthest() {
    let report = check((0, 20), vec![interval(0, 10), interval(2, 3), interval(5, 20)]);
    let pairs: Vec<(i128, i128)> = report
        .overlaps
        .iter()
        .map(|(first, second)| (first.hi, second.lo))
        .collect();
    assert_eq!(pairs, [(10, 2), (10, 5)]);
    assert!(report.gaps.is_empty());
}

#[test]
fn edit_distances() {
    assert_eq!(levenshtein("kitten", "sitting"), 3);
    assert_eq!(levenshtein("sitting", "kitten"), 3);
    assert_eq!(levenshtein("", "abc"), 3);
    assert_eq!(levenshtein("same", "same"), 0);
    assert_eq!(levenshtein("flaw", "lawn"), 2);
    // Characters count, however many bytes they take.
    assert_eq!(levenshtein("\u{e9}t\u{e9}", "ete"), 2);
}

#[test]
fn the_nearest_name_is_suggested_within_a_third() {
    let names = |list: &[&str]| -> Vec<Ident> { list.iter().map(|n| Ident::new(n)).collect() };
    assert_eq!(
        best_match(&Ident::new("lenght"), &names(&["width", "length", "lengthy"])),
        Some(Ident::new("length"))
    );
    // The name itself is no suggestion, and neither is one that is too far.
    assert_eq!(best_match(&Ident::new("x"), &names(&["x", "abc"])), None);
    assert_eq!(best_match(&Ident::new("ab"), &names(&["cd"])), None);
    // Of two that are equally near, the first wins.
    assert_eq!(
        best_match(&Ident::new("cat"), &names(&["car", "bat"])),
        Some(Ident::new("car"))
    );
}

fn node(kind: CheckedExpr, ty: ResolvedType) -> CheckedExprNode {
    CheckedExprNode {
        kind,
        ty,
        span: Span::new(0, 1),
    }
}

fn named_function(local: u32) -> CheckedExprNode {
    node(
        CheckedExpr::Place(CheckedPlace {
            root: CheckedPlaceRoot::Variable {
                decl_id: id(local),
                storage: Storage::Function,
            },
            projections: vec![],
            ty: ResolvedType::Void,
        }),
        ResolvedType::Void,
    )
}

fn call(local: u32, ret: ResolvedType) -> CheckedExprNode {
    node(
        CheckedExpr::FunctionCall(CheckedFunctionCall {
            callee: Box::new(named_function(local)),
            args: vec![],
            fn_type: Rc::new(ResolvedFunctionType {
                params: vec![],
                return_type: Rc::new(ret.clone()),
                is_variadic: false,
                self_mode: None,
                calling_convention: CallingConvention::Omega,
            }),
        }),
        ret,
    )
}

#[test]
fn never_calls_and_widenings_are_candidate_sites() {
    let block = CheckedBlock {
        stmts: vec![
            CheckedStmt::Expression(call(1, ResolvedType::Never)),
            CheckedStmt::Expression(call(2, ResolvedType::I32)),
            CheckedStmt::Expression(node(
                CheckedExpr::AnonymousEnumWiden(Box::new(call(3, ResolvedType::I32))),
                ResolvedType::I32,
            )),
        ],
        tail: None,
    };
    let sites = scan_block(&block);
    assert_eq!((sites.tag_checks, sites.never_calls), (1, 1));
    assert!(!sites.is_empty());
    assert!(scan_block(&CheckedBlock {
        stmts: vec![],
        tail: None
    })
    .is_empty());
}

#[test]
fn only_a_named_function_is_a_static_callee() {
    assert_eq!(static_callee(&named_function(4)), Some(id(4)));
    assert_eq!(
        static_callee(&node(CheckedExpr::Bool(true), ResolvedType::Bool)),
        None
    );
    assert_eq!(
        RuntimeCheck::NeverCallReturned.message(),
        "never-returning call returned"
    );
}

fn spec(local: u32, name: &str) -> SpecPattern {
    SpecPattern {
        spec: id(local),
        module: vec![Ident::new("pkg")],
        name: Ident::new(name),
        args: vec![],
    }
}

fn template(param: &str, bounds: Vec<SpecPattern>) -> OverloadTemplate {
    OverloadTemplate {
        generics: vec![HirGenericParam::type_param(Ident::new(param), vec![], None)],
        comp_types: vec![None],
        bounds: bounds.into_iter().map(|bound| (0, bound)).collect(),
        params: vec![TypePattern::Parameter(0)],
        return_type: TypePattern::Fixed(ResolvedType::Void),
        is_variadic: false,
        calling_convention: CallingConvention::Omega,
    }
}

#[test]
fn a_template_is_identified_by_its_bounds_and_not_by_names_or_order() {
    let of = |t: OverloadTemplate| TemplateDescriptor::of(&t).unwrap();
    let ab = of(template("T", vec![spec(1, "A"), spec(2, "B")]));
    let ba = of(template("U", vec![spec(2, "B"), spec(1, "A")]));
    let a = of(template("T", vec![spec(1, "A")]));
    assert!(ab == ba);
    assert!(ab != a);
    assert!(a != of(template("T", vec![spec(2, "B")])));
}

#[test]
fn sizes_are_measured_where_types_can_be_laid_out() {
    let array = |count: u32| ResolvedType::SizedArray(Rc::new(ResolvedType::I32), count);
    assert_eq!(measure(&array(3), 8), Some(12));
    assert_eq!(measure(&array(0x4000_0000), 8), None);
    assert_eq!(measure(&array(0x3fff_ffff), 8), Some(0xffff_fffc));
    assert_eq!(measure(&ResolvedType::Str { mutable: false }, 2), Some(6));
    assert_eq!(measure(&ResolvedType::Void, 8), Some(0));
    assert_eq!(measure_run(&vec![ResolvedType::U8, ResolvedType::I64], 8), Some(9));
    assert_eq!(
        measure_run(&vec![array(0x3fff_ffff), ResolvedType::I32], 8),
        None
    );
}

#[test]
fn the_first_binding_of_a_name_wins() {
    let mut subst = GenericSubstitution::new();
    let name = Ident::new("T");
    subst.bind_if_absent(&name, || ResolvedGenericArg::Type(ResolvedType::I32));
    subst.bind_if_absent(&name, || panic!("a bound name needs no argument"));
    assert_eq!(
        subst.get(&name),
        Some(&ResolvedGenericArg::Type(ResolvedType::I32))
    );
    assert_eq!(subst.iter().len(), 1);
    assert!(subst.contains(&name));
    assert!(!subst.contains(&Ident::new("U")));
}

#[test]
fn a_bound_on_an_own_parameter_is_not_one_on_its_argument() {
    let of = |t: OverloadTemplate| TemplateDescriptor::of(&t).unwrap();
    let bound = |arg: TypePattern| SpecPattern {
        args: vec![ArgumentPattern::Type(Rc::new(arg))],
        ..spec(1, "A")
    };
    let own = of(template("M", vec![bound(TypePattern::Parameter(0))]));
    let fixed = of(template("M", vec![bound(TypePattern::Fixed(ResolvedType::I32))]));
    assert!(own != fixed);
    assert!(own == of(template("N", vec![bound(TypePattern::Parameter(0))])));

    let behind = |inner: TypePattern| TypePattern::Pointer(Rc::new(inner), false);
    let deep = of(template("M", vec![bound(behind(TypePattern::Parameter(0)))]));
    let settled = of(template(
        "M",
        vec![bound(behind(TypePattern::Fixed(ResolvedType::I32)))],
    ));
    assert!(deep != settled);
    assert!(
        settled
            == of(template(
                "M",
                vec![bound(TypePattern::Fixed(ResolvedType::Pointer {
                    pointee: Rc::new(ResolvedType::I32),
                    mutable: false,
                }))],
            ))
    );
}
