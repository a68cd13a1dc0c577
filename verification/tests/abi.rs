use omega::codegen::abi::{
    llvm_calling_convention, variadic_promotion, AbiReturn, AbiSignature,
};
use omega::layout::Leaf;
use omega::resolved_type::{
    CallingConvention, NumericKind, ResolvedFunctionParam, ResolvedFunctionType, ResolvedType,
};
use omega::syntax::Ident;
use omega::target::Target;
use std::rc::Rc;

fn fn_type(params: &[ResolvedType], ret: ResolvedType) -> ResolvedFunctionType {
    ResolvedFunctionType {
        params: params
            .iter()
            .enumerate()
            .map(|(i, t)| ResolvedFunctionParam::described(Ident(format!("p{i}")), t.clone()))
            .collect(),
        return_type: Rc::new(ret),
        is_variadic: false,
        self_mode: None,
        calling_convention: CallingConvention::Omega,
    }
}

#[test]
fn void_and_never_have_no_return_value() {
    for ret in [ResolvedType::Void, ResolvedType::Never] {
        assert_eq!(
            AbiSignature::build(Target::default(), &fn_type(&[], ret)).ret,
            AbiReturn::Void
        );
    }
}

#[test]
fn one_and_two_leaves_return_directly() {
    assert_eq!(
        AbiSignature::build(Target::default(), &fn_type(&[], ResolvedType::I32)).ret,
        AbiReturn::Direct(vec![Leaf::I32])
    );
    assert_eq!(
        AbiReturn::for_type(Target::default(), &ResolvedType::Slice { item: Rc::new(ResolvedType::U8), mutable: false }),
        AbiReturn::Direct(vec![Leaf::Ptr, Leaf::I32])
    );
}

#[test]
fn three_leaves_return_indirectly() {
    let ret = ResolvedType::SizedArray(Rc::new(ResolvedType::I64), 3);
    assert_eq!(AbiReturn::for_type(Target::default(), &ret), AbiReturn::Indirect);
    assert_eq!(
        AbiSignature::build(Target::default(), &fn_type(&[], ret)).ret,
        AbiReturn::Indirect
    );
}

#[test]
fn parameters_flatten_to_leaves() {
    let params = vec![
        ResolvedType::I8,
        ResolvedType::Slice { item: Rc::new(ResolvedType::U8), mutable: false },
        ResolvedType::I64,
    ];
    assert_eq!(
        AbiSignature::build(Target::default(), &fn_type(&params, ResolvedType::Void)).params,
        vec![Leaf::I8, Leaf::Ptr, Leaf::I32, Leaf::I64]
    );
}

#[test]
fn variadic_promotion_is_a_c_abi_rule() {
    let t = Target::default();
    assert_eq!(variadic_promotion(&ResolvedType::U8, t), Some(NumericKind::Unsigned(32)));
    assert_eq!(variadic_promotion(&ResolvedType::I16, t), Some(NumericKind::Signed(32)));
    assert_eq!(variadic_promotion(&ResolvedType::F32, t), Some(NumericKind::Float(64)));
    assert_eq!(variadic_promotion(&ResolvedType::Bool, t), Some(NumericKind::Unsigned(32)));
    assert_eq!(variadic_promotion(&ResolvedType::I32, t), None);
    assert_eq!(variadic_promotion(&ResolvedType::F64, t), None);
    assert_eq!(variadic_promotion(&ResolvedType::I64, t), None);
}

#[test]
fn only_system_v_has_a_number_of_its_own() {
    assert_eq!(llvm_calling_convention(CallingConvention::Omega), 0);
    assert_eq!(llvm_calling_convention(CallingConvention::C), 0);
    assert_eq!(llvm_calling_convention(CallingConvention::SysV64), 78);
}
