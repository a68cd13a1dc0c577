//! What a hasher is fed for a type.
//!
//! A nominal type is identified by its declaration, and a parameter's
//! descriptor is no part of a function type, exactly as for equality.

use crate::hir::HirId;
use crate::resolved_type::{
    CallingConvention, CompIntType, CompScalar, ResolvedFunctionParam, ResolvedFunctionType,
    ResolvedGenericArg, ResolvedSpecApplication, ResolvedType,
};
use crate::syntax::SelfMode;
use crate::type_eq::{
    same_application, same_applications, same_arg, same_args, same_function, same_params,
    same_type, same_types,
};
use vstd::prelude::*;

verus! {

/// The words of a flag.
pub open spec fn flag_word(flag: bool) -> u128 {
    if flag {
        1
    } else {
        0
    }
}

/// The words of a declaration's identity.
pub open spec fn id_words(id: HirId) -> Seq<u128> {
    seq![id.module.0 as u128, id.local as u128]
}

/// The words of an optional position.
pub open spec fn variant_words(variant: Option<usize>) -> Seq<u128> {
    match variant {
        Some(index) => seq![1, index as u128],
        None => seq![0],
    }
}

/// The word of a receiver form.
pub open spec fn receiver_word(self_mode: Option<SelfMode>) -> u128 {
    match self_mode {
        None => 0,
        Some(SelfMode::Value) => 1,
        Some(SelfMode::MutValue) => 2,
        Some(SelfMode::Pointer) => 3,
        Some(SelfMode::MutPointer) => 4,
    }
}

/// The word of a calling convention.
pub open spec fn convention_word(convention: CallingConvention) -> u128 {
    match convention {
        CallingConvention::Omega => 0,
        CallingConvention::C => 1,
        CallingConvention::SysV64 => 2,
    }
}

/// The word of an integer primitive.
pub open spec fn int_word(ty: CompIntType) -> u128 {
    match ty {
        CompIntType::I8 => 0,
        CompIntType::I16 => 1,
        CompIntType::I32 => 2,
        CompIntType::I64 => 3,
        CompIntType::ISize => 4,
        CompIntType::U8 => 5,
        CompIntType::U16 => 6,
        CompIntType::U32 => 7,
        CompIntType::U64 => 8,
        CompIntType::USize => 9,
    }
}

/// The words of a compile-time value.
pub open spec fn scalar_words(value: CompScalar) -> Seq<u128> {
    match value {
        CompScalar::Int { ty, value } => if value < 0 {
            seq![0, int_word(ty), 1, (-(value + 1)) as u128]
        } else {
            seq![0, int_word(ty), 0, value as u128]
        },
        CompScalar::Bool(flag) => seq![1, flag_word(flag)],
        CompScalar::Char(c) => seq![2, c as u128],
    }
}

/// The word that tells the kinds of type apart.
pub open spec fn kind_word(ty: ResolvedType) -> u128 {
    match ty {
        ResolvedType::Void => 0,
        ResolvedType::Never => 1,
        ResolvedType::Bool => 2,
        ResolvedType::Char => 3,
        ResolvedType::I8 => 4,
        ResolvedType::I16 => 5,
        ResolvedType::I32 => 6,
        ResolvedType::I64 => 7,
        ResolvedType::ISize => 8,
        ResolvedType::U8 => 9,
        ResolvedType::U16 => 10,
        ResolvedType::U32 => 11,
        ResolvedType::U64 => 12,
        ResolvedType::USize => 13,
        ResolvedType::F32 => 14,
        ResolvedType::F64 => 15,
        ResolvedType::Pointer { .. } => 16,
        ResolvedType::Function(_) => 17,
        ResolvedType::Array(_, _) => 18,
        ResolvedType::SizedArray(_, _) => 19,
        ResolvedType::Slice { .. } => 20,
        ResolvedType::Str { .. } => 21,
        ResolvedType::Struct(_) => 22,
        ResolvedType::Union(_) => 23,
        ResolvedType::Enum { .. } => 24,
        ResolvedType::Spec(_) => 25,
        ResolvedType::SpecObject { .. } => 26,
        ResolvedType::AnonymousEnum { .. } => 27,
    }
}

/// The words of a type: its kind, then its parts.
pub open spec fn type_words(ty: ResolvedType) -> Seq<u128>
    decreases ty, 0int,
{
    seq![kind_word(ty)] + (match ty {
        ResolvedType::Array(inner, mutable) => type_words(*inner).push(flag_word(mutable)),
        ResolvedType::Pointer { pointee, mutable } => type_words(*pointee).push(flag_word(mutable)),
        ResolvedType::Slice { item, mutable } => type_words(*item).push(flag_word(mutable)),
        ResolvedType::Str { mutable } => seq![flag_word(mutable)],
        ResolvedType::Function(function) => function_words(*function),
        ResolvedType::SizedArray(inner, size) => type_words(*inner).push(size as u128),
        ResolvedType::Struct(cell) => id_words(cell.id),
        ResolvedType::Union(cell) => id_words(cell.id),
        ResolvedType::Enum { cell, variant } => id_words(cell.id) + variant_words(variant),
        ResolvedType::Spec(cell) => id_words(cell.id),
        ResolvedType::SpecObject { shape, mutable } => application_list_words(
            shape.members@,
        ).push(flag_word(mutable)),
        ResolvedType::AnonymousEnum { shape, variant } => type_list_words(shape.members@)
            + variant_words(variant),
        _ => Seq::empty(),
    })
}

/// The words of a function type.
pub open spec fn function_words(function: ResolvedFunctionType) -> Seq<u128>
    decreases function, 0int,
{
    param_list_words(function.params@) + type_words(*function.return_type) + seq![
        flag_word(function.is_variadic),
        receiver_word(function.self_mode),
        convention_word(function.calling_convention),
    ]
}

/// The words of parameters: their number, then their types.
pub open spec fn param_list_words(params: Seq<ResolvedFunctionParam>) -> Seq<u128>
    decreases params, 0int,
{
    if params.len() == 0 {
        seq![0]
    } else {
        param_list_words(params.drop_last()) + type_words(params.last().ty) + seq![
            params.len() as u128,
        ]
    }
}

/// The words of types, each followed by its position.
pub open spec fn type_list_words(types: Seq<ResolvedType>) -> Seq<u128>
    decreases types, 0int,
{
    if types.len() == 0 {
        seq![0]
    } else {
        type_list_words(types.drop_last()) + type_words(types.last()) + seq![types.len() as u128]
    }
}

/// The words of a generic argument.
pub open spec fn arg_words(arg: ResolvedGenericArg) -> Seq<u128>
    decreases arg, 0int,
{
    match arg {
        ResolvedGenericArg::Type(ty) => seq![0u128] + type_words(ty),
        ResolvedGenericArg::Comp(value) => seq![1u128] + scalar_words(value),
    }
}

/// The words of generic arguments, each followed by its position.
pub open spec fn arg_list_words(args: Seq<ResolvedGenericArg>) -> Seq<u128>
    decreases args, 0int,
{
    if args.len() == 0 {
        seq![0]
    } else {
        arg_list_words(args.drop_last()) + arg_words(args.last()) + seq![args.len() as u128]
    }
}

/// The words of a spec application.
pub open spec fn application_words(application: ResolvedSpecApplication) -> Seq<u128>
    decreases application, 1int,
{
    id_words(application.spec.id) + arg_list_words(application.spec_args@)
}

/// The words of spec applications, each followed by its position.
pub open spec fn application_list_words(members: Seq<ResolvedSpecApplication>) -> Seq<u128>
    decreases members, 0int,
{
    if members.len() == 0 {
        seq![0]
    } else {
        application_list_words(members.drop_last()) + application_words(members.last()) + seq![
            members.len() as u128,
        ]
    }
}

fn push_flag(out: &mut Vec<u128>, flag: bool)
    ensures
        final(out)@ == old(out)@.push(flag_word(flag)),
{
    if flag {
        out.push(1);
    } else {
        out.push(0);
    }
}

fn push_id(out: &mut Vec<u128>, id: HirId)
    ensures
        final(out)@ == old(out)@ + id_words(id),
{
    out.push(id.module.0 as u128);
    out.push(id.local as u128);
    assert(out@ =~= old(out)@ + id_words(id));
}

fn push_variant(out: &mut Vec<u128>, variant: Option<usize>)
    ensures
        final(out)@ == old(out)@ + variant_words(variant),
{
    match variant {
        Some(index) => {
            out.push(1);
            out.push(index as u128);
        },
        None => {
            out.push(0);
        },
    }
    assert(out@ =~= old(out)@ + variant_words(variant));
}

fn receiver_code(self_mode: Option<SelfMode>) -> (word: u128)
    ensures
        word == receiver_word(self_mode),
{
    match self_mode {
        None => 0,
        Some(SelfMode::Value) => 1,
        Some(SelfMode::MutValue) => 2,
        Some(SelfMode::Pointer) => 3,
        Some(SelfMode::MutPointer) => 4,
    }
}

fn convention_code(convention: CallingConvention) -> (word: u128)
    ensures
        word == convention_word(convention),
{
    match convention {
        CallingConvention::Omega => 0,
        CallingConvention::C => 1,
        CallingConvention::SysV64 => 2,
    }
}

fn int_code(ty: CompIntType) -> (word: u128)
    ensures
        word == int_word(ty),
{
    match ty {
        CompIntType::I8 => 0,
        CompIntType::I16 => 1,
        CompIntType::I32 => 2,
        CompIntType::I64 => 3,
        CompIntType::ISize => 4,
        CompIntType::U8 => 5,
        CompIntType::U16 => 6,
        CompIntType::U32 => 7,
        CompIntType::U64 => 8,
        CompIntType::USize => 9,
    }
}

fn push_scalar_words(out: &mut Vec<u128>, value: &CompScalar)
    ensures
        final(out)@ == old(out)@ + scalar_words(*value),
{
    match value {
        CompScalar::Int { ty, value } => {
            out.push(0);
            out.push(int_code(*ty));
            if *value < 0 {
                out.push(1);
                out.push((-(*value + 1)) as u128);
            } else {
                out.push(0);
                out.push(*value as u128);
            }
        },
        CompScalar::Bool(flag) => {
            out.push(1);
            push_flag(out, *flag);
        },
        CompScalar::Char(c) => {
            out.push(2);
            out.push(*c as u128);
        },
    }
    assert(out@ =~= old(out)@ + scalar_words(*value));
}

fn kind_code(ty: &ResolvedType) -> (word: u128)
    ensures
        word == kind_word(*ty),
{
    match ty {
        ResolvedType::Void => 0,
        ResolvedType::Never => 1,
        ResolvedType::Bool => 2,
        ResolvedType::Char => 3,
        ResolvedType::I8 => 4,
        ResolvedType::I16 => 5,
        ResolvedType::I32 => 6,
        ResolvedType::I64 => 7,
        ResolvedType::ISize => 8,
        ResolvedType::U8 => 9,
        ResolvedType::U16 => 10,
        ResolvedType::U32 => 11,
        ResolvedType::U64 => 12,
        ResolvedType::USize => 13,
        ResolvedType::F32 => 14,
        ResolvedType::F64 => 15,
        ResolvedType::Pointer { .. } => 16,
        ResolvedType::Function(_) => 17,
        ResolvedType::Array(_, _) => 18,
        ResolvedType::SizedArray(_, _) => 19,
        ResolvedType::Slice { .. } => 20,
        ResolvedType::Str { .. } => 21,
        ResolvedType::Struct(_) => 22,
        ResolvedType::Union(_) => 23,
        ResolvedType::Enum { .. } => 24,
        ResolvedType::Spec(_) => 25,
        ResolvedType::SpecObject { .. } => 26,
        ResolvedType::AnonymousEnum { .. } => 27,
    }
}

fn push_type(out: &mut Vec<u128>, ty: &ResolvedType)
    ensures
        final(out)@ == old(out)@ + type_words(*ty),
    decreases ty, 0int,
{
    out.push(kind_code(ty));
    match ty {
        ResolvedType::Array(inner, mutable) => {
            push_type(out, inner);
            push_flag(out, *mutable);
        },
        ResolvedType::Pointer { pointee, mutable } => {
            push_type(out, pointee);
            push_flag(out, *mutable);
        },
        ResolvedType::Slice { item, mutable } => {
            push_type(out, item);
            push_flag(out, *mutable);
        },
        ResolvedType::Str { mutable } => {
            push_flag(out, *mutable);
        },
        ResolvedType::Function(function) => {
            push_function(out, function);
        },
        ResolvedType::SizedArray(inner, size) => {
            push_type(out, inner);
            out.push(*size as u128);
        },
        ResolvedType::Struct(cell) => push_id(out, cell.id),
        ResolvedType::Union(cell) => push_id(out, cell.id),
        ResolvedType::Enum { cell, variant } => {
            push_id(out, cell.id);
            push_variant(out, *variant);
        },
        ResolvedType::Spec(cell) => push_id(out, cell.id),
        ResolvedType::SpecObject { shape, mutable } => {
            push_applications(out, &shape.members);
            push_flag(out, *mutable);
        },
        ResolvedType::AnonymousEnum { shape, variant } => {
            push_types(out, &shape.members);
            push_variant(out, *variant);
        },
        _ => {},
    }
    assert(out@ =~= old(out)@ + type_words(*ty));
}

fn push_function(out: &mut Vec<u128>, function: &ResolvedFunctionType)
    ensures
        final(out)@ == old(out)@ + function_words(*function),
    decreases function, 0int,
{
    push_params(out, &function.params);
    push_type(out, &function.return_type);
    push_flag(out, function.is_variadic);
    out.push(receiver_code(function.self_mode));
    out.push(convention_code(function.calling_convention));
    assert(out@ =~= old(out)@ + function_words(*function));
}

fn push_params(out: &mut Vec<u128>, params: &Vec<ResolvedFunctionParam>)
    ensures
        final(out)@ == old(out)@ + param_list_words(params@),
    decreases params, 0int,
{
    let ghost before = out@;
    out.push(0);
    let mut i: usize = 0;
    assert(out@ =~= before + param_list_words(params@.take(0)));
    while i < params.len()
        invariant
            i <= params@.len(),
            out@ =~= before + param_list_words(params@.take(i as int)),
        decreases params.len() - i,
    {
        assert(params@.take(i as int + 1).drop_last() =~= params@.take(i as int));
        push_type(out, &params[i].ty);
        out.push(i as u128 + 1);
        i = i + 1;
    }
    assert(params@.take(i as int) =~= params@);
}

fn push_types(out: &mut Vec<u128>, types: &Vec<ResolvedType>)
    ensures
        final(out)@ == old(out)@ + type_list_words(types@),
    decreases types, 0int,
{
    let ghost before = out@;
    out.push(0);
    let mut i: usize = 0;
    assert(out@ =~= before + type_list_words(types@.take(0)));
    while i < types.len()
        invariant
            i <= types@.len(),
            out@ =~= before + type_list_words(types@.take(i as int)),
        decreases types.len() - i,
    {
        assert(types@.take(i as int + 1).drop_last() =~= types@.take(i as int));
        push_type(out, &types[i]);
        out.push(i as u128 + 1);
        i = i + 1;
    }
    assert(types@.take(i as int) =~= types@);
}

fn push_arg(out: &mut Vec<u128>, arg: &ResolvedGenericArg)
    ensures
        final(out)@ == old(out)@ + arg_words(*arg),
    decreases arg, 0int,
{
    match arg {
        ResolvedGenericArg::Type(ty) => {
            out.push(0);
            push_type(out, ty);
        },
        ResolvedGenericArg::Comp(value) => {
            out.push(1);
            push_scalar_words(out, value);
        },
    }
    assert(out@ =~= old(out)@ + arg_words(*arg));
}

fn push_args(out: &mut Vec<u128>, args: &Vec<ResolvedGenericArg>)
    ensures
        final(out)@ == old(out)@ + arg_list_words(args@),
    decreases args, 0int,
{
    let ghost before = out@;
    out.push(0);
    let mut i: usize = 0;
    assert(out@ =~= before + arg_list_words(args@.take(0)));
    while i < args.len()
        invariant
            i <= args@.len(),
            out@ =~= before + arg_list_words(args@.take(i as int)),
        decreases args.len() - i,
    {
        assert(args@.take(i as int + 1).drop_last() =~= args@.take(i as int));
        push_arg(out, &args[i]);
        out.push(i as u128 + 1);
        i = i + 1;
    }
    assert(args@.take(i as int) =~= args@);
}

fn push_applications(out: &mut Vec<u128>, members: &Vec<ResolvedSpecApplication>)
    ensures
        final(out)@ == old(out)@ + application_list_words(members@),
    decreases members, 0int,
{
    let ghost before = out@;
    out.push(0);
    let mut i: usize = 0;
    assert(out@ =~= before + application_list_words(members@.take(0)));
    while i < members.len()
        invariant
            i <= members@.len(),
            out@ =~= before + application_list_words(members@.take(i as int)),
        decreases members.len() - i,
    {
        assert(members@.take(i as int + 1).drop_last() =~= members@.take(i as int));
        let ghost start = out@;
        push_id(out, members[i].spec.id);
        push_args(out, &members[i].spec_args);
        assert(out@ =~= start + application_words(members@[i as int]));
        out.push(i as u128 + 1);
        i = i + 1;
    }
    assert(members@.take(i as int) =~= members@);
}

impl ResolvedType {
    /// What a hasher is fed for this type.
    pub fn hash(&self) -> (words: Vec<u128>)
        ensures
            words@ == type_words(*self),
    {
        let mut words: Vec<u128> = Vec::new();
        push_type(&mut words, self);
        assert(words@ =~= type_words(*self));
        words
    }
}

/// Types that are the same feed a hasher the same words, so a type can be the
/// key of a hashed collection.
pub proof fn law_same_types_hash_alike(a: &ResolvedType, b: &ResolvedType)
    requires
        same_type(*a, *b),
    ensures
        type_words(*a) == type_words(*b),
    decreases a, 0int,
{
    match a {
        ResolvedType::Array(inner, _) => match b {
            ResolvedType::Array(other, _) => law_same_types_hash_alike(inner, other),
            _ => {},
        },
        ResolvedType::Pointer { pointee, .. } => match b {
            ResolvedType::Pointer { pointee: other, .. } => law_same_types_hash_alike(
                pointee,
                other,
            ),
            _ => {},
        },
        ResolvedType::Slice { item, .. } => match b {
            ResolvedType::Slice { item: other, .. } => law_same_types_hash_alike(item, other),
            _ => {},
        },
        ResolvedType::SizedArray(item, _) => match b {
            ResolvedType::SizedArray(other, _) => law_same_types_hash_alike(item, other),
            _ => {},
        },
        ResolvedType::Function(function) => match b {
            ResolvedType::Function(other) => lemma_functions_hash_alike(function, other),
            _ => {},
        },
        ResolvedType::SpecObject { shape, .. } => match b {
            ResolvedType::SpecObject { shape: other, .. } => lemma_applications_hash_alike(
                shape.members@,
                other.members@,
            ),
            _ => {},
        },
        ResolvedType::AnonymousEnum { shape, .. } => match b {
            ResolvedType::AnonymousEnum { shape: other, .. } => lemma_lists_hash_alike(
                shape.members@,
                other.members@,
            ),
            _ => {},
        },
        _ => {},
    }
}

proof fn lemma_functions_hash_alike(a: &ResolvedFunctionType, b: &ResolvedFunctionType)
    requires
        same_function(*a, *b),
    ensures
        function_words(*a) == function_words(*b),
    decreases a, 0int,
{
    lemma_params_hash_alike(a.params@, b.params@);
    law_same_types_hash_alike(&a.return_type, &b.return_type);
}

proof fn lemma_params_hash_alike(a: Seq<ResolvedFunctionParam>, b: Seq<ResolvedFunctionParam>)
    requires
        same_params(a, b),
    ensures
        param_list_words(a) == param_list_words(b),
    decreases a, 0int,
{
    if a.len() > 0 {
        let p = a.drop_last();
        let q = b.drop_last();
        assert forall|i: int| 0 <= i < p.len() implies same_type(#[trigger] p[i].ty, q[i].ty) by {
            assert(same_type(a[i].ty, b[i].ty));
        }
        lemma_params_hash_alike(p, q);
        assert(same_type(a[a.len() - 1].ty, b[a.len() - 1].ty));
        law_same_types_hash_alike(&a[a.len() - 1].ty, &b[a.len() - 1].ty);
    }
}

proof fn lemma_lists_hash_alike(a: Seq<ResolvedType>, b: Seq<ResolvedType>)
    requires
        same_types(a, b),
    ensures
        type_list_words(a) == type_list_words(b),
    decreases a, 0int,
{
    if a.len() > 0 {
        let p = a.drop_last();
        let q = b.drop_last();
        assert forall|i: int| 0 <= i < p.len() implies same_type(#[trigger] p[i], q[i]) by {
            assert(same_type(a[i], b[i]));
        }
        lemma_lists_hash_alike(p, q);
        assert(same_type(a[a.len() - 1], b[a.len() - 1]));
        law_same_types_hash_alike(&a[a.len() - 1], &b[a.len() - 1]);
    }
}

proof fn lemma_args_hash_alike(a: Seq<ResolvedGenericArg>, b: Seq<ResolvedGenericArg>)
    requires
        same_args(a, b),
    ensures
        arg_list_words(a) == arg_list_words(b),
    decreases a, 0int,
{
    if a.len() > 0 {
        let p = a.drop_last();
        let q = b.drop_last();
        assert forall|i: int| 0 <= i < p.len() implies same_arg(#[trigger] p[i], q[i]) by {
            assert(same_arg(a[i], b[i]));
        }
        lemma_args_hash_alike(p, q);
        assert(same_arg(a[a.len() - 1], b[a.len() - 1]));
        match &a[a.len() - 1] {
            ResolvedGenericArg::Type(ty) => match &b[a.len() - 1] {
                ResolvedGenericArg::Type(other) => law_same_types_hash_alike(ty, other),
                _ => {},
            },
            _ => {},
        }
        assert(arg_words(a.last()) == arg_words(b.last()));
    }
}

proof fn lemma_applications_hash_alike(
    a: Seq<ResolvedSpecApplication>,
    b: Seq<ResolvedSpecApplication>,
)
    requires
        same_applications(a, b),
    ensures
        application_list_words(a) == application_list_words(b),
    decreases a, 0int,
{
    if a.len() > 0 {
        let p = a.drop_last();
        let q = b.drop_last();
        assert forall|i: int| 0 <= i < p.len() implies same_application(
            #[trigger] p[i],
            q[i],
        ) by {
            assert(same_application(a[i], b[i]));
        }
        lemma_applications_hash_alike(p, q);
        assert(same_application(a[a.len() - 1], b[a.len() - 1]));
        lemma_args_hash_alike(a.last().spec_args@, b.last().spec_args@);
        assert(application_words(a.last()) == application_words(b.last()));
    }
}

} // verus!
