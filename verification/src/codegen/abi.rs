//! How functions take arguments and hand back results.

use crate::layout::{leaves_of, leaves_spec, measurable, Leaf};
use crate::resolved_type::{
    CallingConvention, NumericKind, ResolvedFunctionParam, ResolvedFunctionType, ResolvedType,
};
use crate::target::Target;
use vstd::prelude::*;

verus! {

/// How a function hands back its result.
#[derive(Debug)]
pub enum AbiReturn {
    Void,
    Direct(Vec<Leaf>),
    Indirect,
}

/// What an [`AbiReturn`] says.
pub enum ReturnView {
    Void,
    Direct(Seq<Leaf>),
    Indirect,
}

impl View for AbiReturn {
    type V = ReturnView;

    open spec fn view(&self) -> ReturnView {
        match *self {
            AbiReturn::Void => ReturnView::Void,
            AbiReturn::Direct(leaves) => ReturnView::Direct(leaves@),
            AbiReturn::Indirect => ReturnView::Indirect,
        }
    }
}

fn same_leaves(a: &Vec<Leaf>, b: &Vec<Leaf>) -> (r: bool)
    ensures
        r == (a@ == b@),
{
    if a.len() != b.len() {
        return false;
    }
    let mut i: usize = 0;
    while i < a.len()
        invariant
            i <= a@.len() == b@.len(),
            forall|k: int| 0 <= k < i ==> a@[k] == b@[k],
        decreases a.len() - i,
    {
        if a[i] != b[i] {
            return false;
        }
        i = i + 1;
    }
    assert(a@ =~= b@);
    true
}

impl PartialEq for AbiReturn {
    fn eq(&self, other: &Self) -> (r: bool) {
        match (self, other) {
            (AbiReturn::Void, AbiReturn::Void) => true,
            (AbiReturn::Direct(a), AbiReturn::Direct(b)) => same_leaves(a, b),
            (AbiReturn::Indirect, AbiReturn::Indirect) => true,
            _ => false,
        }
    }
}

impl vstd::std_specs::cmp::PartialEqSpecImpl for AbiReturn {
    open spec fn obeys_eq_spec() -> bool {
        true
    }

    open spec fn eq_spec(&self, other: &Self) -> bool {
        self@ == other@
    }
}

/// The flattened parameters of a function and its result.
#[derive(Debug)]
pub struct AbiSignature {
    pub params: Vec<Leaf>,
    pub ret: AbiReturn,
}

/// The leaves of parameters, one parameter after the other.
pub open spec fn param_leaves(params: Seq<ResolvedFunctionParam>, pointer_bytes: u32) -> Seq<Leaf>
    decreases params.len(),
{
    if params.len() == 0 {
        Seq::empty()
    } else {
        param_leaves(params.drop_last(), pointer_bytes) + leaves_spec(
            params.last().ty,
            pointer_bytes,
        )
    }
}

/// Whether a result and every parameter can be laid out.
pub open spec fn fn_measurable(fn_type: ResolvedFunctionType, pointer_bytes: u32) -> bool {
    &&& measurable(*fn_type.return_type, pointer_bytes)
    &&& forall|i: int|
        0 <= i < fn_type.params@.len() ==> measurable(
            #[trigger] fn_type.params@[i].ty,
            pointer_bytes,
        )
}

/// How a result of a type is handed back: not at all, in up to two leaves, or
/// through a pointer the caller passes.
pub open spec fn returned(ty: ResolvedType, pointer_bytes: u32) -> ReturnView {
    if ty is Void || ty is Never {
        ReturnView::Void
    } else if leaves_spec(ty, pointer_bytes).len() > 2 {
        ReturnView::Indirect
    } else {
        ReturnView::Direct(leaves_spec(ty, pointer_bytes))
    }
}

impl AbiSignature {
    pub fn build(target: Target, fn_type: &ResolvedFunctionType) -> (signature: AbiSignature)
        requires
            fn_measurable(*fn_type, target.pointer_width()),
        ensures
            signature.params@ == param_leaves(fn_type.params@, target.pointer_width()),
            signature.ret@ == returned(*fn_type.return_type, target.pointer_width()),
    {
        let pointer_bytes: u32 = target.pointer_bytes();
        let mut params: Vec<Leaf> = Vec::new();
        let mut i: usize = 0;
        while i < fn_type.params.len()
            invariant
                i <= fn_type.params@.len(),
                fn_measurable(*fn_type, pointer_bytes),
                params@ == param_leaves(fn_type.params@.take(i as int), pointer_bytes),
            decreases fn_type.params.len() - i,
        {
            assert(fn_type.params@.take(i as int + 1).drop_last() =~= fn_type.params@.take(
                i as int,
            ));
            assert(measurable(fn_type.params@[i as int].ty, pointer_bytes));
            let mut leaves: Vec<Leaf> = leaves_of(&fn_type.params[i].ty, pointer_bytes);
            params.append(&mut leaves);
            i = i + 1;
        }
        assert(fn_type.params@.take(i as int) =~= fn_type.params@);
        AbiSignature { params, ret: AbiReturn::for_type(target, &fn_type.return_type) }
    }
}

impl AbiReturn {
    pub fn for_type(target: Target, return_type: &ResolvedType) -> (ret: AbiReturn)
        requires
            measurable(*return_type, target.pointer_width()),
        ensures
            ret@ == returned(*return_type, target.pointer_width()),
    {
        match return_type {
            ResolvedType::Void => {
                return AbiReturn::Void;
            },
            ResolvedType::Never => {
                return AbiReturn::Void;
            },
            _ => {},
        }
        let leaves: Vec<Leaf> = leaves_of(return_type, target.pointer_bytes());
        if leaves.len() > 2 {
            AbiReturn::Indirect
        } else {
            AbiReturn::Direct(leaves)
        }
    }
}

/// Whether a result comes back through a pointer the caller passes.
pub open spec fn returns_indirectly(ty: ResolvedType, pointer_bytes: u32) -> bool {
    returned(ty, pointer_bytes) is Indirect
}

pub fn needs_sret(target: Target, return_type: &ResolvedType) -> (r: bool)
    requires
        measurable(*return_type, target.pointer_width()),
    ensures
        r == returns_indirectly(*return_type, target.pointer_width()),
{
    match AbiReturn::for_type(target, return_type) {
        AbiReturn::Indirect => true,
        _ => false,
    }
}

/// What C's default argument promotions make of a variadic argument: narrow
/// floats become 64 bits wide, narrow integers 32, and a `bool` takes the
/// integer path although it is no numeric source type.
pub open spec fn promoted(ty: ResolvedType, pointer_bits: u32) -> Option<NumericKind> {
    match ty.kind_of_number(pointer_bits) {
        Some(NumericKind::Float(width)) => if width < 64 {
            Some(NumericKind::Float(64))
        } else {
            None
        },
        Some(NumericKind::Signed(width)) => if width < 32 {
            Some(NumericKind::Signed(32))
        } else {
            None
        },
        Some(NumericKind::Unsigned(width)) => if width < 32 {
            Some(NumericKind::Unsigned(32))
        } else {
            None
        },
        None => if ty is Bool {
            Some(NumericKind::Unsigned(32))
        } else {
            None
        },
    }
}

pub fn variadic_promotion(ty: &ResolvedType, target: Target) -> (kind: Option<NumericKind>)
    ensures
        kind == promoted(*ty, (target.pointer_width() * 8) as u32),
{
    match ty.numeric_kind(target.pointer_bits()) {
        Some(NumericKind::Float(width)) => if width < 64 {
            Some(NumericKind::Float(64))
        } else {
            None
        },
        Some(NumericKind::Signed(width)) => if width < 32 {
            Some(NumericKind::Signed(32))
        } else {
            None
        },
        Some(NumericKind::Unsigned(width)) => if width < 32 {
            Some(NumericKind::Unsigned(32))
        } else {
            None
        },
        None => match ty {
            ResolvedType::Bool => Some(NumericKind::Unsigned(32)),
            _ => None,
        },
    }
}

/// LLVM's number for a calling convention: its own default for ordinary and C
/// functions, and System V on x86-64 where that is asked for.
pub fn llvm_calling_convention(convention: CallingConvention) -> (number: u32)
    ensures
        number == if convention is SysV64 {
            78u32
        } else {
            0u32
        },
{
    match convention {
        CallingConvention::Omega | CallingConvention::C => 0,
        CallingConvention::SysV64 => 78,
    }
}

/// A promoted argument is never promoted again.
pub proof fn law_promotion_is_final(ty: ResolvedType, wide: ResolvedType, pointer_bits: u32)
    requires
        promoted(ty, pointer_bits) is Some,
        wide.kind_of_number(pointer_bits) == promoted(ty, pointer_bits),
    ensures
        promoted(wide, pointer_bits) is None,
{
}

} // verus!
