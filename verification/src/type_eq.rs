//! Type identity and acceptance.
//!
//! A nominal type is identified by its declaration's `HirId`, a function type
//! by its signature without parameter descriptors, and every other type by
//! its structure.

use crate::resolved_type::{
    ResolvedAnonymousEnum, ResolvedEnumType, ResolvedFunctionParam, ResolvedFunctionType,
    ResolvedGenericArg, ResolvedSpecApplication, ResolvedSpecShape, ResolvedSpecType,
    ResolvedStructType, ResolvedType, ResolvedUnionType,
};
use vstd::prelude::*;

verus! {

/// Whether two types are the same type.
pub open spec fn same_type(a: ResolvedType, b: ResolvedType) -> bool
    decreases a,
{
    match a {
        ResolvedType::Pointer { pointee, mutable } => match b {
            ResolvedType::Pointer { pointee: other, mutable: other_mutable } => mutable
                == other_mutable && same_type(*pointee, *other),
            _ => false,
        },
        ResolvedType::Function(function) => match b {
            ResolvedType::Function(other) => same_function(*function, *other),
            _ => false,
        },
        ResolvedType::Array(item, mutable) => match b {
            ResolvedType::Array(other, other_mutable) => mutable == other_mutable && same_type(
                *item,
                *other,
            ),
            _ => false,
        },
        ResolvedType::SizedArray(item, size) => match b {
            ResolvedType::SizedArray(other, other_size) => size == other_size && same_type(
                *item,
                *other,
            ),
            _ => false,
        },
        ResolvedType::Slice { item, mutable } => match b {
            ResolvedType::Slice { item: other, mutable: other_mutable } => mutable
                == other_mutable && same_type(*item, *other),
            _ => false,
        },
        ResolvedType::Struct(cell) => match b {
            ResolvedType::Struct(other) => cell.id == other.id,
            _ => false,
        },
        ResolvedType::Union(cell) => match b {
            ResolvedType::Union(other) => cell.id == other.id,
            _ => false,
        },
        ResolvedType::Enum { cell, variant } => match b {
            ResolvedType::Enum { cell: other, variant: other_variant } => cell.id == other.id
                && variant == other_variant,
            _ => false,
        },
        ResolvedType::Spec(cell) => match b {
            ResolvedType::Spec(other) => cell.id == other.id,
            _ => false,
        },
        ResolvedType::SpecObject { shape, mutable } => match b {
            ResolvedType::SpecObject { shape: other, mutable: other_mutable } => mutable
                == other_mutable && same_applications(shape.members@, other.members@),
            _ => false,
        },
        ResolvedType::AnonymousEnum { shape, variant } => match b {
            ResolvedType::AnonymousEnum { shape: other, variant: other_variant } => variant
                == other_variant && same_types(shape.members@, other.members@),
            _ => false,
        },
        _ => a == b,
    }
}

/// Whether two function types are the same type.
pub open spec fn same_function(a: ResolvedFunctionType, b: ResolvedFunctionType) -> bool
    decreases a,
{
    &&& same_params(a.params@, b.params@)
    &&& same_type(*a.return_type, *b.return_type)
    &&& a.is_variadic == b.is_variadic
    &&& a.self_mode == b.self_mode
    &&& a.calling_convention == b.calling_convention
}

/// Whether two parameter lists hold the same types.
pub open spec fn same_params(
    a: Seq<ResolvedFunctionParam>,
    b: Seq<ResolvedFunctionParam>,
) -> bool
    decreases a,
{
    a.len() == b.len() && forall|i: int| 0 <= i < a.len() ==> same_type(#[trigger] a[i].ty, b[i].ty)
}

/// Whether two lists hold the same types.
pub open spec fn same_types(a: Seq<ResolvedType>, b: Seq<ResolvedType>) -> bool
    decreases a,
{
    a.len() == b.len() && forall|i: int| 0 <= i < a.len() ==> same_type(#[trigger] a[i], b[i])
}

/// Whether two generic arguments are the same.
pub open spec fn same_arg(a: ResolvedGenericArg, b: ResolvedGenericArg) -> bool
    decreases a,
{
    match a {
        ResolvedGenericArg::Type(ty) => match b {
            ResolvedGenericArg::Type(other) => same_type(ty, other),
            _ => false,
        },
        ResolvedGenericArg::Comp(value) => match b {
            ResolvedGenericArg::Comp(other) => value == other,
            _ => false,
        },
    }
}

/// Whether two argument lists are the same.
pub open spec fn same_args(a: Seq<ResolvedGenericArg>, b: Seq<ResolvedGenericArg>) -> bool
    decreases a,
{
    a.len() == b.len() && forall|i: int| 0 <= i < a.len() ==> same_arg(#[trigger] a[i], b[i])
}

/// Whether two spec applications are the same.
pub open spec fn same_application(a: ResolvedSpecApplication, b: ResolvedSpecApplication) -> bool
    decreases a,
{
    a.spec.id == b.spec.id && same_args(a.spec_args@, b.spec_args@)
}

/// Whether two lists of spec applications are the same.
pub open spec fn same_applications(
    a: Seq<ResolvedSpecApplication>,
    b: Seq<ResolvedSpecApplication>,
) -> bool
    decreases a,
{
    a.len() == b.len() && forall|i: int|
        0 <= i < a.len() ==> same_application(#[trigger] a[i], b[i])
}

fn types_match(a: &ResolvedType, b: &ResolvedType) -> (same: bool)
    ensures
        same == same_type(*a, *b),
    decreases a,
{
    match (a, b) {
        (ResolvedType::Void, ResolvedType::Void) => true,
        (ResolvedType::Never, ResolvedType::Never) => true,
        (ResolvedType::Bool, ResolvedType::Bool) => true,
        (ResolvedType::Char, ResolvedType::Char) => true,
        (ResolvedType::I8, ResolvedType::I8) => true,
        (ResolvedType::I16, ResolvedType::I16) => true,
        (ResolvedType::I32, ResolvedType::I32) => true,
        (ResolvedType::I64, ResolvedType::I64) => true,
        (ResolvedType::ISize, ResolvedType::ISize) => true,
        (ResolvedType::U8, ResolvedType::U8) => true,
        (ResolvedType::U16, ResolvedType::U16) => true,
        (ResolvedType::U32, ResolvedType::U32) => true,
        (ResolvedType::U64, ResolvedType::U64) => true,
        (ResolvedType::USize, ResolvedType::USize) => true,
        (ResolvedType::F32, ResolvedType::F32) => true,
        (ResolvedType::F64, ResolvedType::F64) => true,
        (
            ResolvedType::Pointer { pointee, mutable },
            ResolvedType::Pointer { pointee: other, mutable: other_mutable },
        ) => *mutable == *other_mutable && types_match(pointee, other),
        (ResolvedType::Function(function), ResolvedType::Function(other)) => functions_match(
            function,
            other,
        ),
        (
            ResolvedType::Array(item, mutable),
            ResolvedType::Array(other, other_mutable),
        ) => *mutable == *other_mutable && types_match(item, other),
        (
            ResolvedType::SizedArray(item, size),
            ResolvedType::SizedArray(other, other_size),
        ) => *size == *other_size && types_match(item, other),
        (
            ResolvedType::Slice { item, mutable },
            ResolvedType::Slice { item: other, mutable: other_mutable },
        ) => *mutable == *other_mutable && types_match(item, other),
        (
            ResolvedType::Str { mutable },
            ResolvedType::Str { mutable: other_mutable },
        ) => *mutable == *other_mutable,
        (ResolvedType::Struct(cell), ResolvedType::Struct(other)) => cell.id == other.id,
        (ResolvedType::Union(cell), ResolvedType::Union(other)) => cell.id == other.id,
        (
            ResolvedType::Enum { cell, variant },
            ResolvedType::Enum { cell: other, variant: other_variant },
        ) => cell.id == other.id && same_index(*variant, *other_variant),
        (ResolvedType::Spec(cell), ResolvedType::Spec(other)) => cell.id == other.id,
        (
            ResolvedType::SpecObject { shape, mutable },
            ResolvedType::SpecObject { shape: other, mutable: other_mutable },
        ) => *mutable == *other_mutable && applications_match(&shape.members, &other.members),
        (
            ResolvedType::AnonymousEnum { shape, variant },
            ResolvedType::AnonymousEnum { shape: other, variant: other_variant },
        ) => same_index(*variant, *other_variant) && type_lists_match(
            &shape.members,
            &other.members,
        ),
        _ => false,
    }
}

fn same_index(a: Option<usize>, b: Option<usize>) -> (same: bool)
    ensures
        same == (a == b),
{
    match (a, b) {
        (Some(x), Some(y)) => x == y,
        (None, None) => true,
        _ => false,
    }
}

fn functions_match(a: &ResolvedFunctionType, b: &ResolvedFunctionType) -> (same: bool)
    ensures
        same == same_function(*a, *b),
    decreases a,
{
    let same_receiver: bool = match (a.self_mode, b.self_mode) {
        (Some(x), Some(y)) => x == y,
        (None, None) => true,
        _ => false,
    };
    same_receiver && a.is_variadic == b.is_variadic && a.calling_convention == b.calling_convention
        && param_lists_match(&a.params, &b.params) && types_match(&a.return_type, &b.return_type)
}

fn param_lists_match(
    a: &Vec<ResolvedFunctionParam>,
    b: &Vec<ResolvedFunctionParam>,
) -> (same: bool)
    ensures
        same == same_params(a@, b@),
    decreases a,
{
    if a.len() != b.len() {
        return false;
    }
    let mut i: usize = 0;
    while i < a.len()
        invariant
            i <= a@.len() == b@.len(),
            forall|k: int| 0 <= k < i ==> same_type(#[trigger] a@[k].ty, b@[k].ty),
        decreases a.len() - i,
    {
        if !types_match(&a[i].ty, &b[i].ty) {
            return false;
        }
        i = i + 1;
    }
    true
}

fn type_lists_match(a: &Vec<ResolvedType>, b: &Vec<ResolvedType>) -> (same: bool)
    ensures
        same == same_types(a@, b@),
    decreases a,
{
    if a.len() != b.len() {
        return false;
    }
    let mut i: usize = 0;
    while i < a.len()
        invariant
            i <= a@.len() == b@.len(),
            forall|k: int| 0 <= k < i ==> same_type(#[trigger] a@[k], b@[k]),
        decreases a.len() - i,
    {
        if !types_match(&a[i], &b[i]) {
            return false;
        }
        i = i + 1;
    }
    true
}

fn args_match(a: &ResolvedGenericArg, b: &ResolvedGenericArg) -> (same: bool)
    ensures
        same == same_arg(*a, *b),
    decreases a,
{
    match (a, b) {
        (ResolvedGenericArg::Type(ty), ResolvedGenericArg::Type(other)) => types_match(ty, other),
        (ResolvedGenericArg::Comp(value), ResolvedGenericArg::Comp(other)) => *value == *other,
        _ => false,
    }
}

fn arg_lists_match(a: &Vec<ResolvedGenericArg>, b: &Vec<ResolvedGenericArg>) -> (same: bool)
    ensures
        same == same_args(a@, b@),
    decreases a,
{
    if a.len() != b.len() {
        return false;
    }
    let mut i: usize = 0;
    while i < a.len()
        invariant
            i <= a@.len() == b@.len(),
            forall|k: int| 0 <= k < i ==> same_arg(#[trigger] a@[k], b@[k]),
        decreases a.len() - i,
    {
        if !args_match(&a[i], &b[i]) {
            return false;
        }
        i = i + 1;
    }
    true
}

fn applications_match(
    a: &Vec<ResolvedSpecApplication>,
    b: &Vec<ResolvedSpecApplication>,
) -> (same: bool)
    ensures
        same == same_applications(a@, b@),
    decreases a,
{
    if a.len() != b.len() {
        return false;
    }
    let mut i: usize = 0;
    while i < a.len()
        invariant
            i <= a@.len() == b@.len(),
            forall|k: int| 0 <= k < i ==> same_application(#[trigger] a@[k], b@[k]),
        decreases a.len() - i,
    {
        let left: &ResolvedSpecApplication = &a[i];
        let right: &ResolvedSpecApplication = &b[i];
        if left.spec.id != right.spec.id || !arg_lists_match(&left.spec_args, &right.spec_args) {
            return false;
        }
        i = i + 1;
    }
    true
}

impl PartialEq for ResolvedType {
    fn eq(&self, other: &Self) -> (same: bool) {
        types_match(self, other)
    }
}

impl vstd::std_specs::cmp::PartialEqSpecImpl for ResolvedType {
    open spec fn obeys_eq_spec() -> bool {
        true
    }

    open spec fn eq_spec(&self, other: &Self) -> bool {
        same_type(*self, *other)
    }
}

impl Eq for ResolvedType {

}

impl PartialEq for ResolvedFunctionType {
    fn eq(&self, other: &Self) -> (same: bool) {
        functions_match(self, other)
    }
}

impl vstd::std_specs::cmp::PartialEqSpecImpl for ResolvedFunctionType {
    open spec fn obeys_eq_spec() -> bool {
        true
    }

    open spec fn eq_spec(&self, other: &Self) -> bool {
        same_function(*self, *other)
    }
}

impl Eq for ResolvedFunctionType {

}

impl PartialEq for ResolvedFunctionParam {
    fn eq(&self, other: &Self) -> (same: bool) {
        types_match(&self.ty, &other.ty)
    }
}

impl vstd::std_specs::cmp::PartialEqSpecImpl for ResolvedFunctionParam {
    open spec fn obeys_eq_spec() -> bool {
        true
    }

    open spec fn eq_spec(&self, other: &Self) -> bool {
        same_type(self.ty, other.ty)
    }
}

impl Eq for ResolvedFunctionParam {

}

impl PartialEq for ResolvedGenericArg {
    fn eq(&self, other: &Self) -> (same: bool) {
        args_match(self, other)
    }
}

impl vstd::std_specs::cmp::PartialEqSpecImpl for ResolvedGenericArg {
    open spec fn obeys_eq_spec() -> bool {
        true
    }

    open spec fn eq_spec(&self, other: &Self) -> bool {
        same_arg(*self, *other)
    }
}

impl Eq for ResolvedGenericArg {

}

impl PartialEq for ResolvedSpecApplication {
    fn eq(&self, other: &Self) -> (same: bool) {
        self.spec.id == other.spec.id && arg_lists_match(&self.spec_args, &other.spec_args)
    }
}

impl vstd::std_specs::cmp::PartialEqSpecImpl for ResolvedSpecApplication {
    open spec fn obeys_eq_spec() -> bool {
        true
    }

    open spec fn eq_spec(&self, other: &Self) -> bool {
        same_application(*self, *other)
    }
}

impl Eq for ResolvedSpecApplication {

}

impl PartialEq for ResolvedSpecShape {
    fn eq(&self, other: &Self) -> (same: bool) {
        applications_match(&self.members, &other.members)
    }
}

impl vstd::std_specs::cmp::PartialEqSpecImpl for ResolvedSpecShape {
    open spec fn obeys_eq_spec() -> bool {
        true
    }

    open spec fn eq_spec(&self, other: &Self) -> bool {
        same_applications(self.members@, other.members@)
    }
}

impl Eq for ResolvedSpecShape {

}

impl PartialEq for ResolvedAnonymousEnum {
    fn eq(&self, other: &Self) -> (same: bool) {
        type_lists_match(&self.members, &other.members)
    }
}

impl vstd::std_specs::cmp::PartialEqSpecImpl for ResolvedAnonymousEnum {
    open spec fn obeys_eq_spec() -> bool {
        true
    }

    open spec fn eq_spec(&self, other: &Self) -> bool {
        same_types(self.members@, other.members@)
    }
}

impl Eq for ResolvedAnonymousEnum {

}

impl PartialEq for ResolvedStructType {
    fn eq(&self, other: &Self) -> (same: bool) {
        self.id == other.id
    }
}

impl vstd::std_specs::cmp::PartialEqSpecImpl for ResolvedStructType {
    open spec fn obeys_eq_spec() -> bool {
        true
    }

    open spec fn eq_spec(&self, other: &Self) -> bool {
        self.id == other.id
    }
}

impl Eq for ResolvedStructType {

}

impl PartialEq for ResolvedUnionType {
    fn eq(&self, other: &Self) -> (same: bool) {
        self.id == other.id
    }
}

impl vstd::std_specs::cmp::PartialEqSpecImpl for ResolvedUnionType {
    open spec fn obeys_eq_spec() -> bool {
        true
    }

    open spec fn eq_spec(&self, other: &Self) -> bool {
        self.id == other.id
    }
}

impl Eq for ResolvedUnionType {

}

impl PartialEq for ResolvedEnumType {
    fn eq(&self, other: &Self) -> (same: bool) {
        self.id == other.id
    }
}

impl vstd::std_specs::cmp::PartialEqSpecImpl for ResolvedEnumType {
    open spec fn obeys_eq_spec() -> bool {
        true
    }

    open spec fn eq_spec(&self, other: &Self) -> bool {
        self.id == other.id
    }
}

impl Eq for ResolvedEnumType {

}

impl PartialEq for ResolvedSpecType {
    fn eq(&self, other: &Self) -> (same: bool) {
        self.id == other.id
    }
}

impl vstd::std_specs::cmp::PartialEqSpecImpl for ResolvedSpecType {
    open spec fn obeys_eq_spec() -> bool {
        true
    }

    open spec fn eq_spec(&self, other: &Self) -> bool {
        self.id == other.id
    }
}

impl Eq for ResolvedSpecType {

}

/// Whether a value of type `value` may be used where `expected` is expected,
/// by a plain copy of its representation.
///
/// Besides the type itself, a place accepts the same enum with a known
/// variant, and a read-only pointer, slice, array, or text accepts its
/// writable form and whatever its target accepts.
pub open spec fn accepted(expected: ResolvedType, value: ResolvedType) -> bool
    decreases expected,
{
    ||| same_type(expected, value)
    ||| match expected {
        ResolvedType::Enum { cell, variant: None } => match value {
            ResolvedType::Enum { cell: found, variant: Some(_) } => cell.id == found.id,
            _ => false,
        },
        ResolvedType::AnonymousEnum { shape, variant: None } => match value {
            ResolvedType::AnonymousEnum { shape: found, variant: Some(_) } => same_types(
                shape.members@,
                found.members@,
            ),
            _ => false,
        },
        ResolvedType::Pointer { pointee, mutable: false } => match value {
            ResolvedType::Pointer { pointee: found, .. } => accepted(*pointee, *found),
            _ => false,
        },
        ResolvedType::Slice { item, mutable: false } => match value {
            ResolvedType::Slice { item: found, .. } => accepted(*item, *found),
            _ => false,
        },
        ResolvedType::Array(item, false) => match value {
            ResolvedType::Array(found, _) => accepted(*item, *found),
            _ => false,
        },
        ResolvedType::Str { mutable: false } => value is Str,
        _ => false,
    }
}

impl ResolvedFunctionType {
    /// Whether a value of type `value` may be used where `self` is expected.
    /// Function types are invariant, and parameter descriptors are not part
    /// of their identity, so this is exactly equality.
    pub fn accepts(&self, value: &Self) -> (r: bool)
        ensures
            r == same_function(*self, *value),
    {
        functions_match(self, value)
    }
}

impl ResolvedType {
    pub fn accepts(&self, value: &ResolvedType) -> (r: bool)
        ensures
            r == accepted(*self, *value),
        decreases self,
    {
        if types_match(self, value) {
            return true;
        }
        match (self, value) {
            (
                ResolvedType::Enum { cell: expected, variant: None },
                ResolvedType::Enum { cell: found, variant: Some(_) },
            ) => expected.id == found.id,
            (
                ResolvedType::AnonymousEnum { shape: expected, variant: None },
                ResolvedType::AnonymousEnum { shape: found, variant: Some(_) },
            ) => type_lists_match(&expected.members, &found.members),
            (
                ResolvedType::Pointer { pointee: expected, mutable: false },
                ResolvedType::Pointer { pointee: found, .. },
            ) => expected.accepts(found),
            (
                ResolvedType::Slice { item: expected, mutable: false },
                ResolvedType::Slice { item: found, .. },
            ) => expected.accepts(found),
            (
                ResolvedType::Array(expected, false),
                ResolvedType::Array(found, _),
            ) => expected.accepts(found),
            (ResolvedType::Str { mutable: false }, ResolvedType::Str { .. }) => true,
            (ResolvedType::Function(expected), ResolvedType::Function(found)) => expected.accepts(
                found,
            ),
            _ => false,
        }
    }
}

/// Whether `index` is the position of `member` in `members`.
pub open spec fn is_position(members: Seq<ResolvedType>, member: ResolvedType, index: int) -> bool {
    &&& 0 <= index < members.len()
    &&& same_type(members[index], member)
    &&& forall|k: int| 0 <= k < index ==> !same_type(#[trigger] members[k], member)
}

/// Whether `member` occurs in `members`.
pub open spec fn has_member(members: Seq<ResolvedType>, member: ResolvedType) -> bool {
    exists|k: int| 0 <= k < members.len() && same_type(#[trigger] members[k], member)
}

impl ResolvedAnonymousEnum {
    /// The canonical members, in order.
    pub fn members(&self) -> (list: &Vec<ResolvedType>)
        ensures
            list@ == self.members@,
    {
        &self.members
    }

    /// The canonical index -- and therefore the tag -- of an exact member.
    pub fn index_of(&self, member: &ResolvedType) -> (found: Option<usize>)
        ensures
            match found {
                Some(index) => is_position(self.members@, *member, index as int),
                None => !has_member(self.members@, *member),
            },
    {
        let mut i: usize = 0;
        while i < self.members.len()
            invariant
                i <= self.members@.len(),
                forall|k: int| 0 <= k < i ==> !same_type(#[trigger] self.members@[k], *member),
            decreases self.members.len() - i,
        {
            if types_match(&self.members[i], member) {
                return Some(i);
            }
            i = i + 1;
        }
        None
    }

    /// The destination index of every `source` member, in source canonical
    /// order, when every one of them is a member here.
    pub fn subset_remap(&self, source: &Self) -> (map: Option<Vec<usize>>)
        ensures
            match map {
                Some(indices) => {
                    &&& indices@.len() == source.members@.len()
                    &&& forall|k: int|
                        0 <= k < source.members@.len() ==> is_position(
                            self.members@,
                            source.members@[k],
                            #[trigger] indices@[k] as int,
                        )
                },
                None => exists|k: int|
                    0 <= k < source.members@.len() && !has_member(
                        self.members@,
                        #[trigger] source.members@[k],
                    ),
            },
    {
        let mut indices: Vec<usize> = Vec::new();
        let mut i: usize = 0;
        while i < source.members.len()
            invariant
                i <= source.members@.len(),
                indices@.len() == i,
                forall|k: int|
                    0 <= k < i ==> is_position(
                        self.members@,
                        source.members@[k],
                        #[trigger] indices@[k] as int,
                    ),
            decreases source.members.len() - i,
        {
            match self.index_of(&source.members[i]) {
                Some(index) => indices.push(index),
                None => {
                    return None;
                },
            }
            i = i + 1;
        }
        Some(indices)
    }
}

/// A type is the same as itself.
pub proof fn law_same_type_reflexive(ty: &ResolvedType)
    ensures
        same_type(*ty, *ty),
    decreases ty,
{
    match ty {
        ResolvedType::Pointer { pointee, .. } => law_same_type_reflexive(&**pointee),
        ResolvedType::Array(item, _) => law_same_type_reflexive(&**item),
        ResolvedType::SizedArray(item, _) => law_same_type_reflexive(&**item),
        ResolvedType::Slice { item, .. } => law_same_type_reflexive(&**item),
        ResolvedType::Function(function) => law_same_function_reflexive(&**function),
        ResolvedType::SpecObject { shape, .. } => {
            assert forall|i: int| 0 <= i < shape.members@.len() implies same_application(
                #[trigger] shape.members@[i],
                shape.members@[i],
            ) by {
                law_same_application_reflexive(&shape.members@[i]);
            }
            assert(same_applications(shape.members@, shape.members@));
        },
        ResolvedType::AnonymousEnum { shape, .. } => {
            assert forall|i: int| 0 <= i < shape.members@.len() implies same_type(
                #[trigger] shape.members@[i],
                shape.members@[i],
            ) by {
                law_same_type_reflexive(&shape.members@[i]);
            }
            assert(same_types(shape.members@, shape.members@));
        },
        _ => {},
    }
}

/// A function type is the same as itself.
pub proof fn law_same_function_reflexive(function: &ResolvedFunctionType)
    ensures
        same_function(*function, *function),
    decreases function,
{
    assert forall|i: int| 0 <= i < function.params@.len() implies same_type(
        #[trigger] function.params@[i].ty,
        function.params@[i].ty,
    ) by {
        law_same_type_reflexive(&function.params@[i].ty);
    }
    law_same_type_reflexive(&*function.return_type);
}

/// A generic argument is the same as itself.
pub proof fn law_same_arg_reflexive(arg: &ResolvedGenericArg)
    ensures
        same_arg(*arg, *arg),
    decreases arg,
{
    match arg {
        ResolvedGenericArg::Type(ty) => law_same_type_reflexive(ty),
        _ => {},
    }
}

/// A spec application is the same as itself.
pub proof fn law_same_application_reflexive(application: &ResolvedSpecApplication)
    ensures
        same_application(*application, *application),
    decreases application,
{
    assert forall|i: int| 0 <= i < application.spec_args@.len() implies same_arg(
        #[trigger] application.spec_args@[i],
        application.spec_args@[i],
    ) by {
        law_same_arg_reflexive(&application.spec_args@[i]);
    }
}

/// Being the same type does not depend on which side is asked.
pub proof fn law_same_type_symmetric(a: &ResolvedType, b: &ResolvedType)
    requires
        same_type(*a, *b),
    ensures
        same_type(*b, *a),
    decreases a,
{
    match (a, b) {
        (
            ResolvedType::Pointer { pointee, .. },
            ResolvedType::Pointer { pointee: other, .. },
        ) => law_same_type_symmetric(&**pointee, &**other),
        (ResolvedType::Array(item, _), ResolvedType::Array(other, _)) => law_same_type_symmetric(
            &**item,
            &**other,
        ),
        (
            ResolvedType::SizedArray(item, _),
            ResolvedType::SizedArray(other, _),
        ) => law_same_type_symmetric(&**item, &**other),
        (
            ResolvedType::Slice { item, .. },
            ResolvedType::Slice { item: other, .. },
        ) => law_same_type_symmetric(&**item, &**other),
        (ResolvedType::Function(f), ResolvedType::Function(g)) => {
            law_same_function_symmetric(&**f, &**g);
        },
        (
            ResolvedType::SpecObject { shape, .. },
            ResolvedType::SpecObject { shape: other, .. },
        ) => {
            assert(same_applications(shape.members@, other.members@));
            assert forall|i: int| 0 <= i < other.members@.len() implies same_application(
                #[trigger] other.members@[i],
                shape.members@[i],
            ) by {
                assert(same_application(shape.members@[i], other.members@[i]));
                lemma_same_args_symmetric(
                    shape.members@[i].spec_args@,
                    other.members@[i].spec_args@,
                );
            }
            assert(same_applications(other.members@, shape.members@));
        },
        (
            ResolvedType::AnonymousEnum { shape, .. },
            ResolvedType::AnonymousEnum { shape: other, .. },
        ) => {
            assert(same_types(shape.members@, other.members@));
            assert forall|i: int| 0 <= i < other.members@.len() implies same_type(
                #[trigger] other.members@[i],
                shape.members@[i],
            ) by {
                assert(same_type(shape.members@[i], other.members@[i]));
                law_same_type_symmetric(&shape.members@[i], &other.members@[i]);
            }
            assert(same_types(other.members@, shape.members@));
        },
        _ => {},
    }
}

/// Being the same function type does not depend on which side is asked.
pub proof fn law_same_function_symmetric(f: &ResolvedFunctionType, g: &ResolvedFunctionType)
    requires
        same_function(*f, *g),
    ensures
        same_function(*g, *f),
    decreases f,
{
    assert forall|i: int| 0 <= i < g.params@.len() implies same_type(
        #[trigger] g.params@[i].ty,
        f.params@[i].ty,
    ) by {
        assert(same_type(f.params@[i].ty, g.params@[i].ty));
        law_same_type_symmetric(&f.params@[i].ty, &g.params@[i].ty);
    }
    law_same_type_symmetric(&*f.return_type, &*g.return_type);
}

proof fn lemma_same_args_symmetric(a: Seq<ResolvedGenericArg>, b: Seq<ResolvedGenericArg>)
    requires
        same_args(a, b),
    ensures
        same_args(b, a),
    decreases a,
{
    assert forall|i: int| 0 <= i < b.len() implies same_arg(#[trigger] b[i], a[i]) by {
        assert(same_arg(a[i], b[i]));
        law_same_arg_symmetric(&a[i], &b[i]);
    }
}

/// Being the same argument does not depend on which side is asked.
pub proof fn law_same_arg_symmetric(a: &ResolvedGenericArg, b: &ResolvedGenericArg)
    requires
        same_arg(*a, *b),
    ensures
        same_arg(*b, *a),
    decreases a,
{
    match (a, b) {
        (ResolvedGenericArg::Type(x), ResolvedGenericArg::Type(y)) => law_same_type_symmetric(x, y),
        _ => {},
    }
}

/// Types that are the same as one type are the same as each other.
pub proof fn law_same_type_transitive(a: &ResolvedType, b: &ResolvedType, c: &ResolvedType)
    requires
        same_type(*a, *b),
        same_type(*b, *c),
    ensures
        same_type(*a, *c),
    decreases a,
{
    match (a, b, c) {
        (
            ResolvedType::Pointer { pointee: x, .. },
            ResolvedType::Pointer { pointee: y, .. },
            ResolvedType::Pointer { pointee: z, .. },
        ) => law_same_type_transitive(&**x, &**y, &**z),
        (
            ResolvedType::Array(x, _),
            ResolvedType::Array(y, _),
            ResolvedType::Array(z, _),
        ) => law_same_type_transitive(&**x, &**y, &**z),
        (
            ResolvedType::SizedArray(x, _),
            ResolvedType::SizedArray(y, _),
            ResolvedType::SizedArray(z, _),
        ) => law_same_type_transitive(&**x, &**y, &**z),
        (
            ResolvedType::Slice { item: x, .. },
            ResolvedType::Slice { item: y, .. },
            ResolvedType::Slice { item: z, .. },
        ) => law_same_type_transitive(&**x, &**y, &**z),
        (
            ResolvedType::Function(x),
            ResolvedType::Function(y),
            ResolvedType::Function(z),
        ) => {
            law_same_function_transitive(&**x, &**y, &**z);
        },
        (
            ResolvedType::SpecObject { shape: x, .. },
            ResolvedType::SpecObject { shape: y, .. },
            ResolvedType::SpecObject { shape: z, .. },
        ) => {
            assert(same_applications(x.members@, y.members@));
            assert(same_applications(y.members@, z.members@));
            assert forall|i: int| 0 <= i < x.members@.len() implies same_application(
                #[trigger] x.members@[i],
                z.members@[i],
            ) by {
                assert(same_application(x.members@[i], y.members@[i]));
                assert(same_application(y.members@[i], z.members@[i]));
                lemma_same_args_transitive(
                    x.members@[i].spec_args@,
                    y.members@[i].spec_args@,
                    z.members@[i].spec_args@,
                );
            }
            assert(same_applications(x.members@, z.members@));
        },
        (
            ResolvedType::AnonymousEnum { shape: x, .. },
            ResolvedType::AnonymousEnum { shape: y, .. },
            ResolvedType::AnonymousEnum { shape: z, .. },
        ) => {
            assert(same_types(x.members@, y.members@));
            assert(same_types(y.members@, z.members@));
            assert forall|i: int| 0 <= i < x.members@.len() implies same_type(
                #[trigger] x.members@[i],
                z.members@[i],
            ) by {
                assert(same_type(x.members@[i], y.members@[i]));
                assert(same_type(y.members@[i], z.members@[i]));
                law_same_type_transitive(&x.members@[i], &y.members@[i], &z.members@[i]);
            }
            assert(same_types(x.members@, z.members@));
        },
        _ => {},
    }
}

/// Function types that are the same as one are the same as each other.
pub proof fn law_same_function_transitive(
    f: &ResolvedFunctionType,
    g: &ResolvedFunctionType,
    h: &ResolvedFunctionType,
)
    requires
        same_function(*f, *g),
        same_function(*g, *h),
    ensures
        same_function(*f, *h),
    decreases f,
{
    assert forall|i: int| 0 <= i < f.params@.len() implies same_type(
        #[trigger] f.params@[i].ty,
        h.params@[i].ty,
    ) by {
        assert(same_type(f.params@[i].ty, g.params@[i].ty));
        assert(same_type(g.params@[i].ty, h.params@[i].ty));
        law_same_type_transitive(&f.params@[i].ty, &g.params@[i].ty, &h.params@[i].ty);
    }
    law_same_type_transitive(&*f.return_type, &*g.return_type, &*h.return_type);
}

proof fn lemma_same_args_transitive(
    a: Seq<ResolvedGenericArg>,
    b: Seq<ResolvedGenericArg>,
    c: Seq<ResolvedGenericArg>,
)
    requires
        same_args(a, b),
        same_args(b, c),
    ensures
        same_args(a, c),
    decreases a,
{
    assert forall|i: int| 0 <= i < a.len() implies same_arg(#[trigger] a[i], c[i]) by {
        assert(same_arg(a[i], b[i]));
        assert(same_arg(b[i], c[i]));
        match (&a[i], &b[i], &c[i]) {
            (
                ResolvedGenericArg::Type(x),
                ResolvedGenericArg::Type(y),
                ResolvedGenericArg::Type(z),
            ) => law_same_type_transitive(x, y, z),
            _ => {},
        }
    }
}

/// Every type accepts itself.
pub proof fn law_accepts_itself(ty: &ResolvedType)
    ensures
        accepted(*ty, *ty),
{
    law_same_type_reflexive(ty);
}

/// Every type accepts its refinements: dropping a proven variant is a plain
/// copy.
pub proof fn law_accepts_refinement(ty: &ResolvedType)
    ensures
        accepted(ty.without_refinement(), *ty),
{
    law_same_type_reflexive(ty);
    if let ResolvedType::AnonymousEnum { shape, variant } = ty {
        assert forall|i: int| 0 <= i < shape.members@.len() implies same_type(
            #[trigger] shape.members@[i],
            shape.members@[i],
        ) by {
            law_same_type_reflexive(&shape.members@[i]);
        }
    }
}

/// A function value's type is the declaration's type for every purpose but
/// the receiver metadata.
pub proof fn law_unbound_value_of_plain_function(
    function: &ResolvedFunctionType,
    value: &ResolvedFunctionType,
)
    requires
        function.is_unbound_value(*value),
        function.self_mode is None,
    ensures
        same_function(*function, *value),
{
    law_same_function_reflexive(function);
}

} // verus!
