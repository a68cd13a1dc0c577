//! The canonical structural identity of a generic function *declaration*.
//!
//! A generic instantiation's linker name is otherwise its path, its concrete
//! arguments, and its resulting signature. Explicit bound selection lets one
//! call reach either of two declarations at the *same* arguments, so those
//! three no longer identify which body a symbol refers to. This descriptor
//! supplies the missing component.
//!
//! It is taken before the declaration's own generic parameters are
//! substituted: `<M: A>` and `<M: B>` must differ even where both are
//! instantiated at one type, and a bound naming the declaration's own
//! parameter must differ from one fixed to that parameter's eventual
//! argument. Parameter *names*, source order of overloads, source location,
//! visibility, bodies, and the parameters' own defaults are deliberately not
//! part of it: they do not change which declaration a caller selected.

use crate::generics::pattern::{ArgumentPattern, SpecPattern, TypePattern};
use crate::order::{
    arranged, deduplicated, key_views, lemma_sorting_is_canonical, positions, sorted_order,
    stable_order,
};
use crate::resolved_type::{
    CallingConvention, CompIntType, CompScalar, ResolvedFunctionParam, ResolvedGenericArg,
    ResolvedSpecApplication, ResolvedType,
};
use crate::resolver::OverloadTemplate;
use crate::syntax::{copy_names, names_view, same_names, Ident};
use crate::text::{decimal, push_decimal, push_text, share};
use crate::type_eq::same_type;
use crate::type_key::{push_scalar, scalar_text, type_key, type_key_chars};
use std::rc::Rc;
use vstd::prelude::*;

verus! {

/// The identity of a generic function declaration.
#[derive(Debug)]
pub struct TemplateDescriptor {
    /// The declaration's own generic parameters, in declared order.
    pub generics: Vec<TemplateParam>,
    pub params: Vec<TemplateType>,
    pub return_type: TemplateType,
    pub is_variadic: bool,
    pub convention: CallingConvention,
}

/// One generic parameter of a declaration.
#[derive(Debug)]
pub enum TemplateParam {
    /// A type parameter and the exact bound set it declares, canonically
    /// ordered so that `A + B` and `B + A` are one declaration.
    Type(Vec<TemplateBound>),
    /// A `comp` parameter and its declared value type.
    Comp(TemplateType),
}

/// One spec application, by the spec's full declared package/module path so
/// that two modules declaring the same short name stay distinct.
#[derive(Debug)]
pub struct TemplateBound {
    pub module: Vec<Ident>,
    pub name: Ident,
    pub args: Rc<Vec<TemplateArg>>,
}

/// One argument of an application.
#[derive(Debug)]
pub enum TemplateArg {
    Type(TemplateType),
    Value(CompScalar),
    /// A reference to the declaration's own `comp` parameter at this index.
    ValueParam(usize),
}

/// A type as a declaration writes it.
#[derive(Debug)]
pub enum TemplateType {
    /// A reference to the declaration's own type parameter at this index.
    Param(usize),
    /// A type the declaration fixes, independent of its own parameters.
    Fixed(ResolvedType),
    Pointer(Rc<TemplateType>, bool),
    Slice(Rc<TemplateType>, bool),
    Array(Rc<TemplateType>, bool),
    SizedArray(Rc<TemplateType>, Rc<TemplateArg>),
    SpecObject(Rc<Vec<TemplateBound>>, bool),
    AnonymousEnum(Rc<Vec<TemplateType>>),
    Function(Rc<Vec<TemplateType>>, Rc<TemplateType>, CallingConvention, bool),
    /// An application of a nominal declaration, by its absolute item path.
    Nominal(Rc<Vec<Ident>>, Rc<Vec<TemplateArg>>),
}

/// What a [`TemplateBound`] says.
pub struct BoundShape {
    pub module: Seq<Seq<char>>,
    pub name: Seq<char>,
    pub args: Seq<ArgShape>,
}

/// What a [`TemplateArg`] says.
pub enum ArgShape {
    Type(TypeShape),
    Value(CompScalar),
    ValueParam(usize),
}

/// What a [`TemplateType`] says.
pub enum TypeShape {
    Param(usize),
    Fixed(ResolvedType),
    Pointer(Box<TypeShape>, bool),
    Slice(Box<TypeShape>, bool),
    Array(Box<TypeShape>, bool),
    SizedArray(Box<TypeShape>, Box<ArgShape>),
    SpecObject(Seq<BoundShape>, bool),
    AnonymousEnum(Seq<TypeShape>),
    Function(Seq<TypeShape>, Box<TypeShape>, CallingConvention, bool),
    Nominal(Seq<Seq<char>>, Seq<ArgShape>),
}

/// What a [`TemplateParam`] says.
pub enum ParamShape {
    Type(Seq<BoundShape>),
    Comp(TypeShape),
}

/// What a [`TemplateDescriptor`] says.
pub struct DescriptorShape {
    pub generics: Seq<ParamShape>,
    pub params: Seq<TypeShape>,
    pub return_type: TypeShape,
    pub is_variadic: bool,
    pub convention: CallingConvention,
}

/// What a type says.
pub open spec fn type_shape(ty: TemplateType) -> TypeShape
    decreases ty, 0int,
{
    match ty {
        TemplateType::Param(index) => TypeShape::Param(index),
        TemplateType::Fixed(fixed) => TypeShape::Fixed(fixed),
        TemplateType::Pointer(inner, mutable) => TypeShape::Pointer(
            Box::new(type_shape(*inner)),
            mutable,
        ),
        TemplateType::Slice(inner, mutable) => TypeShape::Slice(
            Box::new(type_shape(*inner)),
            mutable,
        ),
        TemplateType::Array(inner, mutable) => TypeShape::Array(
            Box::new(type_shape(*inner)),
            mutable,
        ),
        TemplateType::SizedArray(inner, length) => TypeShape::SizedArray(
            Box::new(type_shape(*inner)),
            Box::new(arg_shape(*length)),
        ),
        TemplateType::SpecObject(members, mutable) => TypeShape::SpecObject(
            bound_shapes(members@),
            mutable,
        ),
        TemplateType::AnonymousEnum(members) => TypeShape::AnonymousEnum(type_shapes(members@)),
        TemplateType::Function(params, result, convention, variadic) => TypeShape::Function(
            type_shapes(params@),
            Box::new(type_shape(*result)),
            convention,
            variadic,
        ),
        TemplateType::Nominal(path, args) => TypeShape::Nominal(
            names_view(path@),
            arg_shapes(args@),
        ),
    }
}

/// What an argument says.
pub open spec fn arg_shape(arg: TemplateArg) -> ArgShape
    decreases arg, 0int,
{
    match arg {
        TemplateArg::Type(ty) => ArgShape::Type(type_shape(ty)),
        TemplateArg::Value(value) => ArgShape::Value(value),
        TemplateArg::ValueParam(index) => ArgShape::ValueParam(index),
    }
}

/// What a bound says.
pub open spec fn bound_shape(bound: TemplateBound) -> BoundShape
    decreases bound, 0int,
{
    BoundShape {
        module: names_view(bound.module@),
        name: bound.name@,
        args: arg_shapes(bound.args@),
    }
}

/// What types say, in order.
pub open spec fn type_shapes(types: Seq<TemplateType>) -> Seq<TypeShape>
    decreases types, 0int,
{
    if types.len() == 0 {
        Seq::empty()
    } else {
        type_shapes(types.drop_last()).push(type_shape(types.last()))
    }
}

/// What arguments say, in order.
pub open spec fn arg_shapes(args: Seq<TemplateArg>) -> Seq<ArgShape>
    decreases args, 0int,
{
    if args.len() == 0 {
        Seq::empty()
    } else {
        arg_shapes(args.drop_last()).push(arg_shape(args.last()))
    }
}

/// What bounds say, in order.
pub open spec fn bound_shapes(bounds: Seq<TemplateBound>) -> Seq<BoundShape>
    decreases bounds, 0int,
{
    if bounds.len() == 0 {
        Seq::empty()
    } else {
        bound_shapes(bounds.drop_last()).push(bound_shape(bounds.last()))
    }
}

/// What a parameter says.
pub open spec fn param_shape(param: TemplateParam) -> ParamShape {
    match param {
        TemplateParam::Type(bounds) => ParamShape::Type(bound_shapes(bounds@)),
        TemplateParam::Comp(ty) => ParamShape::Comp(type_shape(ty)),
    }
}

/// What parameters say, in order.
pub open spec fn param_shapes(params: Seq<TemplateParam>) -> Seq<ParamShape> {
    params.map_values(|param: TemplateParam| param_shape(param))
}

impl View for TemplateDescriptor {
    type V = DescriptorShape;

    open spec fn view(&self) -> DescriptorShape {
        DescriptorShape {
            generics: param_shapes(self.generics@),
            params: type_shapes(self.params@),
            return_type: type_shape(self.return_type),
            is_variadic: self.is_variadic,
            convention: self.convention,
        }
    }
}

proof fn lemma_type_shapes(types: Seq<TemplateType>)
    ensures
        type_shapes(types).len() == types.len(),
        forall|i: int|
            0 <= i < types.len() ==> #[trigger] type_shapes(types)[i] == type_shape(types[i]),
    decreases types.len(),
{
    if types.len() > 0 {
        lemma_type_shapes(types.drop_last());
    }
}

proof fn lemma_arg_shapes(args: Seq<TemplateArg>)
    ensures
        arg_shapes(args).len() == args.len(),
        forall|i: int|
            0 <= i < args.len() ==> #[trigger] arg_shapes(args)[i] == arg_shape(args[i]),
    decreases args.len(),
{
    if args.len() > 0 {
        lemma_arg_shapes(args.drop_last());
    }
}

proof fn lemma_bound_shapes(bounds: Seq<TemplateBound>)
    ensures
        bound_shapes(bounds).len() == bounds.len(),
        forall|i: int|
            0 <= i < bounds.len() ==> #[trigger] bound_shapes(bounds)[i] == bound_shape(bounds[i]),
    decreases bounds.len(),
{
    if bounds.len() > 0 {
        lemma_bound_shapes(bounds.drop_last());
    }
}

impl Clone for TemplateType {
    fn clone(&self) -> (copy: Self)
        ensures
            copy == *self,
    {
        match self {
            TemplateType::Param(index) => TemplateType::Param(*index),
            TemplateType::Fixed(ty) => TemplateType::Fixed(ty.clone()),
            TemplateType::Pointer(inner, m) => TemplateType::Pointer(share(inner), *m),
            TemplateType::Slice(inner, m) => TemplateType::Slice(share(inner), *m),
            TemplateType::Array(inner, m) => TemplateType::Array(share(inner), *m),
            TemplateType::SizedArray(inner, length) => TemplateType::SizedArray(
                share(inner),
                share(length),
            ),
            TemplateType::SpecObject(members, m) => TemplateType::SpecObject(share(members), *m),
            TemplateType::AnonymousEnum(members) => TemplateType::AnonymousEnum(share(members)),
            TemplateType::Function(params, result, convention, variadic) => TemplateType::Function(
                share(params),
                share(result),
                *convention,
                *variadic,
            ),
            TemplateType::Nominal(path, args) => TemplateType::Nominal(share(path), share(args)),
        }
    }
}

impl Clone for TemplateBound {
    fn clone(&self) -> (copy: Self)
        ensures
            bound_shape(copy) == bound_shape(*self),
    {
        TemplateBound {
            module: copy_names(&self.module),
            name: self.name.clone(),
            args: share(&self.args),
        }
    }
}

/// Whether two types are the same declaration type.
pub open spec fn same_shape(a: TypeShape, b: TypeShape) -> bool
    decreases a, 0int,
{
    match (a, b) {
        (TypeShape::Param(i), TypeShape::Param(j)) => i == j,
        (TypeShape::Fixed(x), TypeShape::Fixed(y)) => same_type(x, y),
        (TypeShape::Pointer(x, m), TypeShape::Pointer(y, n)) => m == n && same_shape(*x, *y),
        (TypeShape::Slice(x, m), TypeShape::Slice(y, n)) => m == n && same_shape(*x, *y),
        (TypeShape::Array(x, m), TypeShape::Array(y, n)) => m == n && same_shape(*x, *y),
        (TypeShape::SizedArray(x, p), TypeShape::SizedArray(y, q)) => same_shape(*x, *y)
            && same_arg_shape(*p, *q),
        (TypeShape::SpecObject(x, m), TypeShape::SpecObject(y, n)) => m == n && same_bound_shapes(
            x,
            y,
        ),
        (TypeShape::AnonymousEnum(x), TypeShape::AnonymousEnum(y)) => same_shapes(x, y),
        (TypeShape::Function(p, r, c, v), TypeShape::Function(q, s, d, w)) => c == d && v == w
            && same_shapes(p, q) && same_shape(*r, *s),
        (TypeShape::Nominal(p, x), TypeShape::Nominal(q, y)) => p == q && same_arg_shapes(x, y),
        _ => false,
    }
}

/// Whether two arguments are the same.
pub open spec fn same_arg_shape(a: ArgShape, b: ArgShape) -> bool
    decreases a, 0int,
{
    match (a, b) {
        (ArgShape::Type(x), ArgShape::Type(y)) => same_shape(x, y),
        (ArgShape::Value(x), ArgShape::Value(y)) => x == y,
        (ArgShape::ValueParam(i), ArgShape::ValueParam(j)) => i == j,
        _ => false,
    }
}

/// Whether two bounds are the same application.
pub open spec fn same_bound_shape(a: BoundShape, b: BoundShape) -> bool
    decreases a, 0int,
{
    a.module == b.module && a.name == b.name && same_arg_shapes(a.args, b.args)
}

/// [`same_shape`] for lists.
pub open spec fn same_shapes(a: Seq<TypeShape>, b: Seq<TypeShape>) -> bool
    decreases a, 0int,
{
    a.len() == b.len() && forall|i: int| 0 <= i < a.len() ==> same_shape(#[trigger] a[i], b[i])
}

/// [`same_arg_shape`] for lists.
pub open spec fn same_arg_shapes(a: Seq<ArgShape>, b: Seq<ArgShape>) -> bool
    decreases a, 0int,
{
    a.len() == b.len() && forall|i: int| 0 <= i < a.len() ==> same_arg_shape(#[trigger] a[i], b[i])
}

/// [`same_bound_shape`] for lists.
pub open spec fn same_bound_shapes(a: Seq<BoundShape>, b: Seq<BoundShape>) -> bool
    decreases a, 0int,
{
    a.len() == b.len() && forall|i: int|
        0 <= i < a.len() ==> same_bound_shape(#[trigger] a[i], b[i])
}

fn types_are_same(a: &TemplateType, b: &TemplateType) -> (r: bool)
    ensures
        r == same_shape(type_shape(*a), type_shape(*b)),
    decreases a, 0int,
{
    match (a, b) {
        (TemplateType::Param(i), TemplateType::Param(j)) => *i == *j,
        (TemplateType::Fixed(x), TemplateType::Fixed(y)) => *x == *y,
        (TemplateType::Pointer(x, m), TemplateType::Pointer(y, n)) => *m == *n && types_are_same(
            x,
            y,
        ),
        (TemplateType::Slice(x, m), TemplateType::Slice(y, n)) => *m == *n && types_are_same(x, y),
        (TemplateType::Array(x, m), TemplateType::Array(y, n)) => *m == *n && types_are_same(x, y),
        (TemplateType::SizedArray(x, p), TemplateType::SizedArray(y, q)) => types_are_same(x, y)
            && args_are_same(p, q),
        (TemplateType::SpecObject(x, m), TemplateType::SpecObject(y, n)) => *m == *n
            && all_bounds_same(x, y),
        (TemplateType::AnonymousEnum(x), TemplateType::AnonymousEnum(y)) => all_types_same(x, y),
        (TemplateType::Function(p, r, c, v), TemplateType::Function(q, s, d, w)) => *c == *d && *v
            == *w && all_types_same(p, q) && types_are_same(r, s),
        (TemplateType::Nominal(p, x), TemplateType::Nominal(q, y)) => same_names(p, q)
            && all_args_same(x, y),
        _ => false,
    }
}

fn args_are_same(a: &TemplateArg, b: &TemplateArg) -> (r: bool)
    ensures
        r == same_arg_shape(arg_shape(*a), arg_shape(*b)),
    decreases a, 0int,
{
    match (a, b) {
        (TemplateArg::Type(x), TemplateArg::Type(y)) => types_are_same(x, y),
        (TemplateArg::Value(x), TemplateArg::Value(y)) => *x == *y,
        (TemplateArg::ValueParam(i), TemplateArg::ValueParam(j)) => *i == *j,
        _ => false,
    }
}

fn bounds_are_same(a: &TemplateBound, b: &TemplateBound) -> (r: bool)
    ensures
        r == same_bound_shape(bound_shape(*a), bound_shape(*b)),
    decreases a, 0int,
{
    same_names(&a.module, &b.module) && a.name == b.name && all_args_same(&a.args, &b.args)
}

fn all_types_same(a: &Vec<TemplateType>, b: &Vec<TemplateType>) -> (r: bool)
    ensures
        r == same_shapes(type_shapes(a@), type_shapes(b@)),
    decreases a, 0int,
{
    proof {
        lemma_type_shapes(a@);
        lemma_type_shapes(b@);
    }
    if a.len() != b.len() {
        return false;
    }
    let mut i: usize = 0;
    while i < a.len()
        invariant
            i <= a@.len() == b@.len(),
            forall|k: int|
                0 <= k < i ==> same_shape(#[trigger] type_shapes(a@)[k], type_shapes(b@)[k]),
            forall|k: int|
                0 <= k < a@.len() ==> #[trigger] type_shapes(a@)[k] == type_shape(a@[k]),
            forall|k: int|
                0 <= k < b@.len() ==> #[trigger] type_shapes(b@)[k] == type_shape(b@[k]),
            type_shapes(a@).len() == a@.len(),
            type_shapes(b@).len() == b@.len(),
        decreases a.len() - i,
    {
        if !types_are_same(&a[i], &b[i]) {
            assert(!same_shape(type_shapes(a@)[i as int], type_shapes(b@)[i as int]));
            return false;
        }
        i = i + 1;
    }
    true
}

fn all_args_same(a: &Vec<TemplateArg>, b: &Vec<TemplateArg>) -> (r: bool)
    ensures
        r == same_arg_shapes(arg_shapes(a@), arg_shapes(b@)),
    decreases a, 0int,
{
    proof {
        lemma_arg_shapes(a@);
        lemma_arg_shapes(b@);
    }
    if a.len() != b.len() {
        return false;
    }
    let mut i: usize = 0;
    while i < a.len()
        invariant
            i <= a@.len() == b@.len(),
            forall|k: int|
                0 <= k < i ==> same_arg_shape(#[trigger] arg_shapes(a@)[k], arg_shapes(b@)[k]),
            forall|k: int| 0 <= k < a@.len() ==> #[trigger] arg_shapes(a@)[k] == arg_shape(a@[k]),
            forall|k: int| 0 <= k < b@.len() ==> #[trigger] arg_shapes(b@)[k] == arg_shape(b@[k]),
            arg_shapes(a@).len() == a@.len(),
            arg_shapes(b@).len() == b@.len(),
        decreases a.len() - i,
    {
        if !args_are_same(&a[i], &b[i]) {
            assert(!same_arg_shape(arg_shapes(a@)[i as int], arg_shapes(b@)[i as int]));
            return false;
        }
        i = i + 1;
    }
    true
}

fn all_bounds_same(a: &Vec<TemplateBound>, b: &Vec<TemplateBound>) -> (r: bool)
    ensures
        r == same_bound_shapes(bound_shapes(a@), bound_shapes(b@)),
    decreases a, 0int,
{
    proof {
        lemma_bound_shapes(a@);
        lemma_bound_shapes(b@);
    }
    if a.len() != b.len() {
        return false;
    }
    let mut i: usize = 0;
    while i < a.len()
        invariant
            i <= a@.len() == b@.len(),
            forall|k: int|
                0 <= k < i ==> same_bound_shape(
                    #[trigger] bound_shapes(a@)[k],
                    bound_shapes(b@)[k],
                ),
            forall|k: int|
                0 <= k < a@.len() ==> #[trigger] bound_shapes(a@)[k] == bound_shape(a@[k]),
            forall|k: int|
                0 <= k < b@.len() ==> #[trigger] bound_shapes(b@)[k] == bound_shape(b@[k]),
            bound_shapes(a@).len() == a@.len(),
            bound_shapes(b@).len() == b@.len(),
        decreases a.len() - i,
    {
        if !bounds_are_same(&a[i], &b[i]) {
            assert(!same_bound_shape(bound_shapes(a@)[i as int], bound_shapes(b@)[i as int]));
            return false;
        }
        i = i + 1;
    }
    true
}

impl PartialEq for TemplateType {
    fn eq(&self, other: &Self) -> (r: bool) {
        types_are_same(self, other)
    }
}

impl vstd::std_specs::cmp::PartialEqSpecImpl for TemplateType {
    open spec fn obeys_eq_spec() -> bool {
        true
    }

    open spec fn eq_spec(&self, other: &Self) -> bool {
        same_shape(type_shape(*self), type_shape(*other))
    }
}

impl PartialEq for TemplateBound {
    fn eq(&self, other: &Self) -> (r: bool) {
        bounds_are_same(self, other)
    }
}

impl vstd::std_specs::cmp::PartialEqSpecImpl for TemplateBound {
    open spec fn obeys_eq_spec() -> bool {
        true
    }

    open spec fn eq_spec(&self, other: &Self) -> bool {
        same_bound_shape(bound_shape(*self), bound_shape(*other))
    }
}

/// A generic parameter's shape is the same as another's.
pub open spec fn same_param_shape(a: ParamShape, b: ParamShape) -> bool {
    match (a, b) {
        (ParamShape::Type(x), ParamShape::Type(y)) => same_bound_shapes(x, y),
        (ParamShape::Comp(x), ParamShape::Comp(y)) => same_shape(x, y),
        _ => false,
    }
}

/// Whether two descriptors identify the same declaration.
pub open spec fn same_descriptor(a: DescriptorShape, b: DescriptorShape) -> bool {
    &&& a.generics.len() == b.generics.len()
    &&& forall|i: int|
        0 <= i < a.generics.len() ==> same_param_shape(#[trigger] a.generics[i], b.generics[i])
    &&& same_shapes(a.params, b.params)
    &&& same_shape(a.return_type, b.return_type)
    &&& a.is_variadic == b.is_variadic
    &&& a.convention == b.convention
}

fn params_are_same(a: &TemplateParam, b: &TemplateParam) -> (r: bool)
    ensures
        r == same_param_shape(param_shape(*a), param_shape(*b)),
{
    match (a, b) {
        (TemplateParam::Type(x), TemplateParam::Type(y)) => all_bounds_same(x, y),
        (TemplateParam::Comp(x), TemplateParam::Comp(y)) => types_are_same(x, y),
        _ => false,
    }
}

impl PartialEq for TemplateDescriptor {
    fn eq(&self, other: &Self) -> (r: bool) {
        if self.generics.len() != other.generics.len() {
            return false;
        }
        let mut i: usize = 0;
        while i < self.generics.len()
            invariant
                i <= self.generics@.len() == other.generics@.len(),
                forall|k: int|
                    0 <= k < i ==> same_param_shape(
                        #[trigger] param_shapes(self.generics@)[k],
                        param_shapes(other.generics@)[k],
                    ),
            decreases self.generics.len() - i,
        {
            if !params_are_same(&self.generics[i], &other.generics[i]) {
                assert(!same_param_shape(
                    param_shapes(self.generics@)[i as int],
                    param_shapes(other.generics@)[i as int],
                ));
                return false;
            }
            i = i + 1;
        }
        all_types_same(&self.params, &other.params) && types_are_same(
            &self.return_type,
            &other.return_type,
        ) && self.is_variadic == other.is_variadic && self.convention == other.convention
    }
}

impl vstd::std_specs::cmp::PartialEqSpecImpl for TemplateDescriptor {
    open spec fn obeys_eq_spec() -> bool {
        true
    }

    open spec fn eq_spec(&self, other: &Self) -> bool {
        same_descriptor(self@, other@)
    }
}

/// Path segments, each followed by a dot.
pub open spec fn dotted(names: Seq<Seq<char>>) -> Seq<char>
    decreases names.len(),
{
    if names.len() == 0 {
        Seq::empty()
    } else {
        dotted(names.drop_last()) + names.last() + seq!['.']
    }
}

/// A tag and the mutability of what it wraps.
pub open spec fn marked(tag: char, mutable: bool) -> Seq<char> {
    seq![
        tag,
        if mutable {
            'm'
        } else {
            'c'
        },
    ]
}

/// The letter of a calling convention.
pub open spec fn convention_letter(convention: CallingConvention) -> char {
    match convention {
        CallingConvention::Omega => '0',
        CallingConvention::C => '1',
        CallingConvention::SysV64 => '2',
    }
}

/// The ordering key of a bound.
pub open spec fn bound_key_of(bound: BoundShape) -> Seq<char>
    decreases bound, 0int,
{
    dotted(bound.module) + bound.name + seq!['<'] + arg_keys(bound.args) + seq!['>']
}

/// The ordering key of an argument.
pub open spec fn arg_key_of(arg: ArgShape) -> Seq<char>
    decreases arg, 0int,
{
    match arg {
        ArgShape::Type(ty) => shape_key(ty),
        ArgShape::Value(value) => seq!['='] + type_key(value.declared().denoted()) + seq![':']
            + scalar_text(value),
        ArgShape::ValueParam(index) => seq!['$'] + decimal(index as nat),
    }
}

/// The keys of arguments, each followed by a comma.
pub open spec fn arg_keys(args: Seq<ArgShape>) -> Seq<char>
    decreases args, 0int,
{
    if args.len() == 0 {
        Seq::empty()
    } else {
        arg_keys(args.drop_last()) + arg_key_of(args.last()) + seq![',']
    }
}

/// The keys of bounds, each followed by a comma.
pub open spec fn bound_keys(bounds: Seq<BoundShape>) -> Seq<char>
    decreases bounds, 0int,
{
    if bounds.len() == 0 {
        Seq::empty()
    } else {
        bound_keys(bounds.drop_last()) + bound_key_of(bounds.last()) + seq![',']
    }
}

/// The keys of types, each followed by `mark`.
pub open spec fn shape_keys(types: Seq<TypeShape>, mark: char) -> Seq<char>
    decreases types, 0int,
{
    if types.len() == 0 {
        Seq::empty()
    } else {
        shape_keys(types.drop_last(), mark) + shape_key(types.last()) + seq![mark]
    }
}

/// The ordering key of a type: structural, observing no declaration id,
/// allocation address, or discovery order.
pub open spec fn shape_key(ty: TypeShape) -> Seq<char>
    decreases ty, 0int,
{
    match ty {
        TypeShape::Param(index) => seq!['#'] + decimal(index as nat),
        TypeShape::Fixed(fixed) => seq!['!'] + type_key(fixed),
        TypeShape::Pointer(inner, mutable) => marked('p', mutable) + shape_key(*inner),
        TypeShape::Slice(inner, mutable) => marked('s', mutable) + shape_key(*inner),
        TypeShape::Array(inner, mutable) => marked('a', mutable) + shape_key(*inner),
        TypeShape::SizedArray(inner, length) => seq!['['] + arg_key_of(*length) + seq![']']
            + shape_key(*inner),
        TypeShape::SpecObject(members, mutable) => marked('o', mutable) + bound_keys(members)
            + seq![')'],
        TypeShape::AnonymousEnum(members) => seq!['e'] + shape_keys(members, '|') + seq![')'],
        TypeShape::Function(params, result, convention, variadic) => seq![
            'f',
            convention_letter(convention),
            if variadic {
                'v'
            } else {
                '-'
            },
        ] + shape_keys(params, ',') + seq![')'] + shape_key(*result),
        TypeShape::Nominal(path, args) => seq!['n'] + dotted(path) + seq!['<'] + arg_keys(args)
            + seq!['>'],
    }
}

fn push_dotted(out: &mut Vec<char>, names: &Vec<Ident>)
    ensures
        final(out)@ == old(out)@ + dotted(names_view(names@)),
{
    let ghost before = out@;
    let mut i: usize = 0;
    assert(names_view(names@).take(0) =~= Seq::empty());
    while i < names.len()
        invariant
            i <= names@.len(),
            out@ =~= before + dotted(names_view(names@).take(i as int)),
        decreases names.len() - i,
    {
        assert(names_view(names@).take(i as int + 1).drop_last() =~= names_view(names@).take(
            i as int,
        ));
        push_text(out, names[i].as_ref());
        out.push('.');
        i = i + 1;
    }
    assert(names_view(names@).take(i as int) =~= names_view(names@));
}

fn write_mutability(out: &mut Vec<char>, tag: char, mutable: bool)
    ensures
        final(out)@ == old(out)@ + marked(tag, mutable),
{
    out.push(tag);
    if mutable {
        out.push('m');
    } else {
        out.push('c');
    }
    assert(out@ =~= old(out)@ + marked(tag, mutable));
}

fn write_wrapped(out: &mut Vec<char>, tag: char, mutable: bool, inner: &TemplateType)
    ensures
        final(out)@ == old(out)@ + (marked(tag, mutable) + shape_key(type_shape(*inner))),
    decreases inner, 1int,
{
    write_mutability(out, tag, mutable);
    write_type(out, inner);
    assert(out@ =~= old(out)@ + (marked(tag, mutable) + shape_key(type_shape(*inner))));
}

fn write_bound(out: &mut Vec<char>, bound: &TemplateBound)
    ensures
        final(out)@ == old(out)@ + bound_key_of(bound_shape(*bound)),
    decreases bound, 0int,
{
    push_dotted(out, &bound.module);
    push_text(out, bound.name.as_ref());
    out.push('<');
    write_args(out, &bound.args);
    out.push('>');
    assert(out@ =~= old(out)@ + bound_key_of(bound_shape(*bound)));
}

fn write_args(out: &mut Vec<char>, args: &Vec<TemplateArg>)
    ensures
        final(out)@ == old(out)@ + arg_keys(arg_shapes(args@)),
    decreases args, 0int,
{
    let ghost before = out@;
    let mut i: usize = 0;
    assert(arg_shapes(args@.take(0)) =~= Seq::empty());
    while i < args.len()
        invariant
            i <= args@.len(),
            out@ =~= before + arg_keys(arg_shapes(args@.take(i as int))),
        decreases args.len() - i,
    {
        let ghost shapes = arg_shapes(args@.take(i as int));
        assert(args@.take(i as int + 1).drop_last() =~= args@.take(i as int));
        assert(arg_shapes(args@.take(i as int + 1)).drop_last() =~= shapes);
        write_arg(out, &args[i]);
        out.push(',');
        i = i + 1;
    }
    assert(args@.take(i as int) =~= args@);
}

fn write_bounds(out: &mut Vec<char>, bounds: &Vec<TemplateBound>)
    ensures
        final(out)@ == old(out)@ + bound_keys(bound_shapes(bounds@)),
    decreases bounds, 0int,
{
    let ghost before = out@;
    let mut i: usize = 0;
    assert(bound_shapes(bounds@.take(0)) =~= Seq::empty());
    while i < bounds.len()
        invariant
            i <= bounds@.len(),
            out@ =~= before + bound_keys(bound_shapes(bounds@.take(i as int))),
        decreases bounds.len() - i,
    {
        let ghost shapes = bound_shapes(bounds@.take(i as int));
        assert(bounds@.take(i as int + 1).drop_last() =~= bounds@.take(i as int));
        assert(bound_shapes(bounds@.take(i as int + 1)).drop_last() =~= shapes);
        write_bound(out, &bounds[i]);
        out.push(',');
        i = i + 1;
    }
    assert(bounds@.take(i as int) =~= bounds@);
}

fn write_types(out: &mut Vec<char>, types: &Vec<TemplateType>, mark: char)
    ensures
        final(out)@ == old(out)@ + shape_keys(type_shapes(types@), mark),
    decreases types, 0int,
{
    let ghost before = out@;
    let mut i: usize = 0;
    assert(type_shapes(types@.take(0)) =~= Seq::empty());
    while i < types.len()
        invariant
            i <= types@.len(),
            out@ =~= before + shape_keys(type_shapes(types@.take(i as int)), mark),
        decreases types.len() - i,
    {
        let ghost shapes = type_shapes(types@.take(i as int));
        assert(types@.take(i as int + 1).drop_last() =~= types@.take(i as int));
        assert(type_shapes(types@.take(i as int + 1)).drop_last() =~= shapes);
        write_type(out, &types[i]);
        out.push(mark);
        i = i + 1;
    }
    assert(types@.take(i as int) =~= types@);
}

fn write_arg(out: &mut Vec<char>, arg: &TemplateArg)
    ensures
        final(out)@ == old(out)@ + arg_key_of(arg_shape(*arg)),
    decreases arg, 0int,
{
    match arg {
        TemplateArg::Type(ty) => write_type(out, ty),
        TemplateArg::Value(value) => {
            out.push('=');
            let mut key: Vec<char> = type_key_chars(&value.resolved_type());
            out.append(&mut key);
            out.push(':');
            push_scalar(out, value);
            assert(out@ =~= old(out)@ + arg_key_of(arg_shape(*arg)));
        },
        TemplateArg::ValueParam(index) => {
            out.push('$');
            push_decimal(out, *index as u128);
            assert(out@ =~= old(out)@ + arg_key_of(arg_shape(*arg)));
        },
    }
}

fn write_type(out: &mut Vec<char>, ty: &TemplateType)
    ensures
        final(out)@ == old(out)@ + shape_key(type_shape(*ty)),
    decreases ty, 0int,
{
    match ty {
        TemplateType::Param(index) => {
            out.push('#');
            push_decimal(out, *index as u128);
            assert(out@ =~= old(out)@ + shape_key(type_shape(*ty)));
        },
        TemplateType::Fixed(fixed) => {
            out.push('!');
            let mut key: Vec<char> = type_key_chars(fixed);
            out.append(&mut key);
            assert(out@ =~= old(out)@ + shape_key(type_shape(*ty)));
        },
        TemplateType::Pointer(inner, mutable) => write_wrapped(out, 'p', *mutable, inner),
        TemplateType::Slice(inner, mutable) => write_wrapped(out, 's', *mutable, inner),
        TemplateType::Array(inner, mutable) => write_wrapped(out, 'a', *mutable, inner),
        TemplateType::SizedArray(inner, length) => {
            out.push('[');
            write_arg(out, length);
            out.push(']');
            write_type(out, inner);
            assert(out@ =~= old(out)@ + shape_key(type_shape(*ty)));
        },
        TemplateType::SpecObject(members, mutable) => {
            write_mutability(out, 'o', *mutable);
            write_bounds(out, members);
            out.push(')');
            assert(out@ =~= old(out)@ + shape_key(type_shape(*ty)));
        },
        TemplateType::AnonymousEnum(members) => {
            out.push('e');
            write_types(out, members, '|');
            out.push(')');
            assert(out@ =~= old(out)@ + shape_key(type_shape(*ty)));
        },
        TemplateType::Function(params, result, convention, variadic) => {
            out.push('f');
            let letter: char = match convention {
                CallingConvention::Omega => '0',
                CallingConvention::C => '1',
                CallingConvention::SysV64 => '2',
            };
            out.push(letter);
            if *variadic {
                out.push('v');
            } else {
                out.push('-');
            }
            write_types(out, params, ',');
            out.push(')');
            write_type(out, result);
            assert(out@ =~= old(out)@ + shape_key(type_shape(*ty)));
        },
        TemplateType::Nominal(path, args) => {
            out.push('n');
            push_dotted(out, path);
            out.push('<');
            write_args(out, args);
            out.push('>');
            assert(out@ =~= old(out)@ + shape_key(type_shape(*ty)));
        },
    }
}

/// The keys of types, one per type.
pub open spec fn keys_of_types(types: Seq<TypeShape>) -> Seq<Seq<char>> {
    types.map_values(|ty: TypeShape| shape_key(ty))
}

/// The keys of bounds, one per bound.
pub open spec fn keys_of_bounds(bounds: Seq<BoundShape>) -> Seq<Seq<char>> {
    bounds.map_values(|bound: BoundShape| bound_key_of(bound))
}

/// Types in the order of their keys, neighbours that are the same taken once.
pub open spec fn canonical_types(types: Seq<TypeShape>) -> Seq<TypeShape> {
    deduplicated(arranged(types, stable_order(keys_of_types(types))),
        |a: TypeShape, b: TypeShape| same_shape(a, b))
}

/// Bounds in the order of their keys, neighbours that are the same taken once.
pub open spec fn canonical_bounds(bounds: Seq<BoundShape>) -> Seq<BoundShape> {
    deduplicated(arranged(bounds, stable_order(keys_of_bounds(bounds))),
        |a: BoundShape, b: BoundShape| same_bound_shape(a, b))
}

proof fn lemma_shapes_push(types: Seq<TemplateType>, ty: TemplateType)
    ensures
        type_shapes(types.push(ty)) == type_shapes(types).push(type_shape(ty)),
{
    assert(types.push(ty).drop_last() =~= types);
}

proof fn lemma_shapes_append(a: Seq<TemplateType>, b: Seq<TemplateType>)
    ensures
        type_shapes(a + b) == type_shapes(a) + type_shapes(b),
    decreases b.len(),
{
    if b.len() == 0 {
        assert(a + b =~= a);
        assert(type_shapes(a + b) =~= type_shapes(a) + type_shapes(b));
    } else {
        lemma_shapes_append(a, b.drop_last());
        assert((a + b).drop_last() =~= a + b.drop_last());
        assert(type_shapes(a + b) =~= type_shapes(a) + type_shapes(b));
    }
}

proof fn lemma_bounds_push(bounds: Seq<TemplateBound>, bound: TemplateBound)
    ensures
        bound_shapes(bounds.push(bound)) == bound_shapes(bounds).push(bound_shape(bound)),
{
    assert(bounds.push(bound).drop_last() =~= bounds);
}

fn type_key_text(ty: &TemplateType) -> (key: Vec<char>)
    ensures
        key@ == shape_key(type_shape(*ty)),
{
    let mut key: Vec<char> = Vec::new();
    write_type(&mut key, ty);
    assert(key@ =~= shape_key(type_shape(*ty)));
    key
}

fn bound_key(bound: &TemplateBound) -> (key: Vec<char>)
    ensures
        key@ == bound_key_of(bound_shape(*bound)),
{
    let mut key: Vec<char> = Vec::new();
    write_bound(&mut key, bound);
    assert(key@ =~= bound_key_of(bound_shape(*bound)));
    key
}

fn canonicalize_types(types: &Vec<TemplateType>) -> (kept: Vec<TemplateType>)
    ensures
        type_shapes(kept@) == canonical_types(type_shapes(types@)),
{
    let ghost shapes = type_shapes(types@);
    proof {
        lemma_type_shapes(types@);
    }
    let mut keys: Vec<Vec<char>> = Vec::new();
    let mut i: usize = 0;
    while i < types.len()
        invariant
            i <= types@.len() == shapes.len(),
            forall|k: int| 0 <= k < types@.len() ==> #[trigger] shapes[k] == type_shape(types@[k]),
            key_views(keys@) =~= keys_of_types(shapes).take(i as int),
        decreases types.len() - i,
    {
        let ghost before = keys@;
        keys.push(type_key_text(&types[i]));
        assert(key_views(keys@) =~= key_views(before).push(keys@.last()@));
        i = i + 1;
    }
    assert(key_views(keys@) =~= keys_of_types(shapes));
    assert(key_views(keys@).len() == keys@.len());
    let order: Vec<usize> = sorted_order(&keys);
    let ghost sorted = arranged(shapes, positions(order@));
    let ghost same = |a: TypeShape, b: TypeShape| same_shape(a, b);
    let mut kept: Vec<TemplateType> = Vec::new();
    let mut n: usize = 0;
    assert(type_shapes(kept@) =~= Seq::empty());
    while n < order.len()
        invariant
            n <= order@.len(),
            types@.len() == shapes.len(),
            forall|k: int| 0 <= k < types@.len() ==> #[trigger] shapes[k] == type_shape(types@[k]),
            forall|j: int| 0 <= j < order@.len() ==> #[trigger] order@[j] < types@.len(),
            sorted == arranged(shapes, positions(order@)),
            same == (|a: TypeShape, b: TypeShape| same_shape(a, b)),
            type_shapes(kept@) == deduplicated(sorted.take(n as int), same),
        decreases order.len() - n,
    {
        assert(sorted.take(n as int + 1).drop_last() =~= sorted.take(n as int));
        let member: &TemplateType = &types[order[n]];
        assert(sorted[n as int] == type_shape(*member)) by {
            assert(sorted[n as int] == shapes[order@[n as int] as int]);
        }
        proof {
            lemma_type_shapes(kept@);
            lemma_shapes_push(kept@, *member);
            if kept@.len() > 0 {
                assert(type_shapes(kept@)[kept@.len() - 1] == type_shape(kept@.last()));
            }
        }
        let repeated: bool = kept.len() > 0 && kept[kept.len() - 1] == *member;
        if !repeated {
            kept.push(member.clone());
        }
        n = n + 1;
    }
    assert(sorted.take(n as int) =~= sorted);
    kept
}

fn canonicalize(bounds: &Vec<TemplateBound>) -> (kept: Vec<TemplateBound>)
    ensures
        bound_shapes(kept@) == canonical_bounds(bound_shapes(bounds@)),
{
    let ghost shapes = bound_shapes(bounds@);
    proof {
        lemma_bound_shapes(bounds@);
    }
    let mut keys: Vec<Vec<char>> = Vec::new();
    let mut i: usize = 0;
    while i < bounds.len()
        invariant
            i <= bounds@.len() == shapes.len(),
            forall|k: int|
                0 <= k < bounds@.len() ==> #[trigger] shapes[k] == bound_shape(bounds@[k]),
            key_views(keys@) =~= keys_of_bounds(shapes).take(i as int),
        decreases bounds.len() - i,
    {
        let ghost before = keys@;
        keys.push(bound_key(&bounds[i]));
        assert(key_views(keys@) =~= key_views(before).push(keys@.last()@));
        i = i + 1;
    }
    assert(key_views(keys@) =~= keys_of_bounds(shapes));
    assert(key_views(keys@).len() == keys@.len());
    let order: Vec<usize> = sorted_order(&keys);
    let ghost sorted = arranged(shapes, positions(order@));
    let ghost same = |a: BoundShape, b: BoundShape| same_bound_shape(a, b);
    let mut kept: Vec<TemplateBound> = Vec::new();
    let mut n: usize = 0;
    assert(bound_shapes(kept@) =~= Seq::empty());
    while n < order.len()
        invariant
            n <= order@.len(),
            bounds@.len() == shapes.len(),
            forall|k: int|
                0 <= k < bounds@.len() ==> #[trigger] shapes[k] == bound_shape(bounds@[k]),
            forall|j: int| 0 <= j < order@.len() ==> #[trigger] order@[j] < bounds@.len(),
            sorted == arranged(shapes, positions(order@)),
            same == (|a: BoundShape, b: BoundShape| same_bound_shape(a, b)),
            bound_shapes(kept@) == deduplicated(sorted.take(n as int), same),
        decreases order.len() - n,
    {
        assert(sorted.take(n as int + 1).drop_last() =~= sorted.take(n as int));
        let member: &TemplateBound = &bounds[order[n]];
        assert(sorted[n as int] == bound_shape(*member)) by {
            assert(sorted[n as int] == shapes[order@[n as int] as int]);
        }
        proof {
            lemma_bound_shapes(kept@);
            if kept@.len() > 0 {
                assert(bound_shapes(kept@)[kept@.len() - 1] == bound_shape(kept@.last()));
            }
        }
        let repeated: bool = kept.len() > 0 && kept[kept.len() - 1] == *member;
        if !repeated {
            let copy: TemplateBound = member.clone();
            proof {
                lemma_bounds_push(kept@, copy);
            }
            kept.push(copy);
        }
        n = n + 1;
    }
    assert(sorted.take(n as int) =~= sorted);
    kept
}

/// The shape of an argument a declaration fixes.
pub open spec fn fixed_arg(arg: ResolvedGenericArg) -> ArgShape
    decreases arg, 0int,
{
    match arg {
        ResolvedGenericArg::Type(ty) => ArgShape::Type(fixed_shape(ty)),
        ResolvedGenericArg::Comp(value) => ArgShape::Value(value),
    }
}

/// [`fixed_arg`] for lists.
pub open spec fn fixed_args(args: Seq<ResolvedGenericArg>) -> Seq<ArgShape>
    decreases args, 0int,
{
    if args.len() == 0 {
        Seq::empty()
    } else {
        fixed_args(args.drop_last()).push(fixed_arg(args.last()))
    }
}

/// The shapes of parameter types a declaration fixes.
pub open spec fn fixed_params(params: Seq<ResolvedFunctionParam>) -> Seq<TypeShape>
    decreases params, 0int,
{
    if params.len() == 0 {
        Seq::empty()
    } else {
        fixed_params(params.drop_last()).push(fixed_shape(params.last().ty))
    }
}

/// [`fixed_shape`] for lists.
pub open spec fn fixed_shapes(types: Seq<ResolvedType>) -> Seq<TypeShape>
    decreases types, 0int,
{
    if types.len() == 0 {
        Seq::empty()
    } else {
        fixed_shapes(types.drop_last()).push(fixed_shape(types.last()))
    }
}

/// The shape of a spec application a declaration fixes.
pub open spec fn fixed_bound(member: ResolvedSpecApplication) -> BoundShape
    decreases member, 0int,
{
    BoundShape {
        module: names_view(member.spec.module@),
        name: member.spec.name@,
        args: fixed_args(member.spec_args@),
    }
}

/// [`fixed_bound`] for lists.
pub open spec fn fixed_bounds(members: Seq<ResolvedSpecApplication>) -> Seq<BoundShape>
    decreases members, 0int,
{
    if members.len() == 0 {
        Seq::empty()
    } else {
        fixed_bounds(members.drop_last()).push(fixed_bound(members.last()))
    }
}

/// What a fixed member contributes to an anonymous enum: the members of an
/// anonymous enum, or itself.
pub open spec fn fixed_contribution(ty: ResolvedType) -> Seq<TypeShape>
    decreases ty, 1int,
{
    match ty {
        ResolvedType::AnonymousEnum { shape, variant: None } => canonical_types(
            fixed_contributions(shape.members@),
        ),
        ResolvedType::AnonymousEnum { shape, variant: Some(_) } => fixed_shapes(shape.members@),
        _ => seq![fixed_shape(ty)],
    }
}

/// [`fixed_contribution`] of all members, in order.
pub open spec fn fixed_contributions(types: Seq<ResolvedType>) -> Seq<TypeShape>
    decreases types, 0int,
{
    if types.len() == 0 {
        Seq::empty()
    } else {
        fixed_contributions(types.drop_last()) + fixed_contribution(types.last())
    }
}

/// The shape of a type a declaration fixes. A fixed leaf may come from an
/// owner substitution or an omitted nominal default, so its structure agrees
/// with the same type written out.
pub open spec fn fixed_shape(ty: ResolvedType) -> TypeShape
    decreases ty, 0int,
{
    match ty {
        ResolvedType::Pointer { pointee, mutable } => TypeShape::Pointer(
            Box::new(fixed_shape(*pointee)),
            mutable,
        ),
        ResolvedType::Slice { item, mutable } => TypeShape::Slice(
            Box::new(fixed_shape(*item)),
            mutable,
        ),
        ResolvedType::Array(item, mutable) => TypeShape::Array(
            Box::new(fixed_shape(*item)),
            mutable,
        ),
        ResolvedType::SizedArray(item, size) => TypeShape::SizedArray(
            Box::new(fixed_shape(*item)),
            Box::new(
                ArgShape::Value(CompScalar::Int { ty: CompIntType::USize, value: size as i128 }),
            ),
        ),
        ResolvedType::Function(function) => if function.self_mode is None {
            TypeShape::Function(
                fixed_params(function.params@),
                Box::new(fixed_shape(*function.return_type)),
                function.calling_convention,
                function.is_variadic,
            )
        } else {
            TypeShape::Fixed(ty)
        },
        ResolvedType::Struct(cell) => TypeShape::Nominal(
            names_view(cell.module@).push(cell.name@),
            fixed_args(cell.generic_args@),
        ),
        ResolvedType::Union(cell) => TypeShape::Nominal(
            names_view(cell.module@).push(cell.name@),
            fixed_args(cell.generic_args@),
        ),
        ResolvedType::Enum { cell, variant: None } => TypeShape::Nominal(
            names_view(cell.module@).push(cell.name@),
            fixed_args(cell.generic_args@),
        ),
        ResolvedType::Spec(cell) => TypeShape::Nominal(
            names_view(cell.module@).push(cell.name@),
            fixed_args(cell.generic_args@),
        ),
        ResolvedType::SpecObject { shape, mutable } => TypeShape::SpecObject(
            canonical_bounds(fixed_bounds(shape.members@)),
            mutable,
        ),
        ResolvedType::AnonymousEnum { shape, variant: None } => TypeShape::AnonymousEnum(
            canonical_types(fixed_contributions(shape.members@)),
        ),
        _ => TypeShape::Fixed(ty),
    }
}

fn convert_resolved_arg(arg: &ResolvedGenericArg) -> (out: TemplateArg)
    ensures
        arg_shape(out) == fixed_arg(*arg),
    decreases arg, 0int,
{
    match arg {
        ResolvedGenericArg::Type(ty) => TemplateArg::Type(convert_fixed(ty)),
        ResolvedGenericArg::Comp(value) => TemplateArg::Value(*value),
    }
}

fn convert_resolved_args(args: &Vec<ResolvedGenericArg>) -> (out: Vec<TemplateArg>)
    ensures
        arg_shapes(out@) == fixed_args(args@),
    decreases args, 0int,
{
    let mut out: Vec<TemplateArg> = Vec::new();
    let mut i: usize = 0;
    while i < args.len()
        invariant
            i <= args@.len(),
            arg_shapes(out@) == fixed_args(args@.take(i as int)),
        decreases args.len() - i,
    {
        assert(args@.take(i as int + 1).drop_last() =~= args@.take(i as int));
        let ghost before = out@;
        out.push(convert_resolved_arg(&args[i]));
        assert(out@.drop_last() =~= before);
        i = i + 1;
    }
    assert(args@.take(i as int) =~= args@);
    out
}

fn convert_param_types(params: &Vec<ResolvedFunctionParam>) -> (out: Vec<TemplateType>)
    ensures
        type_shapes(out@) == fixed_params(params@),
    decreases params, 0int,
{
    let mut out: Vec<TemplateType> = Vec::new();
    let mut i: usize = 0;
    while i < params.len()
        invariant
            i <= params@.len(),
            type_shapes(out@) == fixed_params(params@.take(i as int)),
        decreases params.len() - i,
    {
        assert(params@.take(i as int + 1).drop_last() =~= params@.take(i as int));
        let ghost before = out@;
        out.push(convert_fixed(&params[i].ty));
        assert(out@.drop_last() =~= before);
        i = i + 1;
    }
    assert(params@.take(i as int) =~= params@);
    out
}

fn convert_fixed_types(types: &Vec<ResolvedType>) -> (out: Vec<TemplateType>)
    ensures
        type_shapes(out@) == fixed_shapes(types@),
    decreases types, 0int,
{
    let mut out: Vec<TemplateType> = Vec::new();
    let mut i: usize = 0;
    while i < types.len()
        invariant
            i <= types@.len(),
            type_shapes(out@) == fixed_shapes(types@.take(i as int)),
        decreases types.len() - i,
    {
        assert(types@.take(i as int + 1).drop_last() =~= types@.take(i as int));
        let ghost before = out@;
        out.push(convert_fixed(&types[i]));
        assert(out@.drop_last() =~= before);
        i = i + 1;
    }
    assert(types@.take(i as int) =~= types@);
    out
}

fn contribute_fixed(ty: &ResolvedType) -> (out: Vec<TemplateType>)
    ensures
        type_shapes(out@) == fixed_contribution(*ty),
    decreases ty, 1int,
{
    match ty {
        ResolvedType::AnonymousEnum { shape, variant: None } => {
            let flattened: Vec<TemplateType> = contribute_all_fixed(&shape.members);
            canonicalize_types(&flattened)
        },
        ResolvedType::AnonymousEnum { shape, variant: Some(_) } => convert_fixed_types(
            &shape.members,
        ),
        _ => {
            let mut out: Vec<TemplateType> = Vec::new();
            out.push(convert_fixed(ty));
            proof {
                lemma_type_shapes(out@);
            }
            assert(type_shapes(out@) =~= seq![fixed_shape(*ty)]);
            out
        },
    }
}

fn contribute_all_fixed(types: &Vec<ResolvedType>) -> (out: Vec<TemplateType>)
    ensures
        type_shapes(out@) == fixed_contributions(types@),
    decreases types, 0int,
{
    let mut out: Vec<TemplateType> = Vec::new();
    let mut i: usize = 0;
    while i < types.len()
        invariant
            i <= types@.len(),
            type_shapes(out@) == fixed_contributions(types@.take(i as int)),
        decreases types.len() - i,
    {
        assert(types@.take(i as int + 1).drop_last() =~= types@.take(i as int));
        let mut more: Vec<TemplateType> = contribute_fixed(&types[i]);
        proof {
            lemma_shapes_append(out@, more@);
        }
        out.append(&mut more);
        i = i + 1;
    }
    assert(types@.take(i as int) =~= types@);
    out
}

fn convert_applications(members: &Vec<ResolvedSpecApplication>) -> (out: Vec<TemplateBound>)
    ensures
        bound_shapes(out@) == fixed_bounds(members@),
    decreases members, 0int,
{
    let mut out: Vec<TemplateBound> = Vec::new();
    let mut i: usize = 0;
    while i < members.len()
        invariant
            i <= members@.len(),
            bound_shapes(out@) == fixed_bounds(members@.take(i as int)),
        decreases members.len() - i,
    {
        assert(members@.take(i as int + 1).drop_last() =~= members@.take(i as int));
        let ghost before = out@;
        let member: &ResolvedSpecApplication = &members[i];
        let bound = TemplateBound {
            module: copy_names(&member.spec.module),
            name: member.spec.name.clone(),
            args: Rc::new(convert_resolved_args(&member.spec_args)),
        };
        assert(bound_shape(bound) == fixed_bound(*member));
        out.push(bound);
        assert(out@.drop_last() =~= before);
        i = i + 1;
    }
    assert(members@.take(i as int) =~= members@);
    out
}

fn convert_nominal(module: &Vec<Ident>, name: &Ident, args: &Vec<ResolvedGenericArg>) -> (out:
    TemplateType)
    ensures
        type_shape(out) == TypeShape::Nominal(
            names_view(module@).push(name@),
            fixed_args(args@),
        ),
    decreases args, 1int,
{
    let mut path: Vec<Ident> = copy_names(module);
    let ghost before = path@;
    path.push(name.clone());
    assert(names_view(path@) =~= names_view(before).push(name@));
    let converted: Vec<TemplateArg> = convert_resolved_args(args);
    let out = TemplateType::Nominal(Rc::new(path), Rc::new(converted));
    assert(arg_shapes(converted@) == fixed_args(args@));
    out
}

fn convert_fixed(ty: &ResolvedType) -> (out: TemplateType)
    ensures
        type_shape(out) == fixed_shape(*ty),
    decreases ty, 0int,
{
    match ty {
        ResolvedType::Pointer { pointee, mutable } => TemplateType::Pointer(
            Rc::new(convert_fixed(pointee)),
            *mutable,
        ),
        ResolvedType::Slice { item, mutable } => TemplateType::Slice(
            Rc::new(convert_fixed(item)),
            *mutable,
        ),
        ResolvedType::Array(item, mutable) => TemplateType::Array(
            Rc::new(convert_fixed(item)),
            *mutable,
        ),
        ResolvedType::SizedArray(item, size) => {
            let length = TemplateArg::Value(
                CompScalar::Int { ty: CompIntType::USize, value: *size as i128 },
            );
            assert(arg_shape(length) == ArgShape::Value(
                CompScalar::Int { ty: CompIntType::USize, value: *size as i128 },
            ));
            TemplateType::SizedArray(Rc::new(convert_fixed(item)), Rc::new(length))
        },
        ResolvedType::Function(function) => if function.self_mode.is_none() {
            let params: Vec<TemplateType> = convert_param_types(&function.params);
            let result: TemplateType = convert_fixed(&function.return_type);
            assert(type_shapes(params@) == fixed_params(function.params@));
            TemplateType::Function(
                Rc::new(params),
                Rc::new(result),
                function.calling_convention,
                function.is_variadic,
            )
        } else {
            TemplateType::Fixed(ty.clone())
        },
        ResolvedType::Struct(cell) => convert_nominal(&cell.module, &cell.name, &cell.generic_args),
        ResolvedType::Union(cell) => convert_nominal(&cell.module, &cell.name, &cell.generic_args),
        ResolvedType::Enum { cell, variant: None } => convert_nominal(
            &cell.module,
            &cell.name,
            &cell.generic_args,
        ),
        ResolvedType::Spec(cell) => convert_nominal(&cell.module, &cell.name, &cell.generic_args),
        ResolvedType::SpecObject { shape, mutable } => {
            let bounds: Vec<TemplateBound> = convert_applications(&shape.members);
            let kept: Vec<TemplateBound> = canonicalize(&bounds);
            assert(bound_shapes(kept@) == canonical_bounds(fixed_bounds(shape.members@)));
            TemplateType::SpecObject(Rc::new(kept), *mutable)
        },
        ResolvedType::AnonymousEnum { shape, variant: None } => {
            let flattened: Vec<TemplateType> = contribute_all_fixed(&shape.members);
            let kept: Vec<TemplateType> = canonicalize_types(&flattened);
            assert(type_shapes(kept@) == canonical_types(fixed_contributions(shape.members@)));
            TemplateType::AnonymousEnum(Rc::new(kept))
        },
        _ => TemplateType::Fixed(ty.clone()),
    }
}

/// The shape of an argument pattern. Only a `comp` parameter ever reaches an
/// argument slot as a bare parameter reference; a type parameter arrives as a
/// type.
pub open spec fn written_arg(arg: ArgumentPattern) -> ArgShape
    decreases arg, 0int,
{
    match arg {
        ArgumentPattern::Type(pattern) => ArgShape::Type(written_shape(*pattern)),
        ArgumentPattern::Value(value) => ArgShape::Value(value),
        ArgumentPattern::Parameter(index) => ArgShape::ValueParam(index),
    }
}

/// [`written_arg`] for lists.
pub open spec fn written_args(args: Seq<ArgumentPattern>) -> Seq<ArgShape>
    decreases args, 0int,
{
    if args.len() == 0 {
        Seq::empty()
    } else {
        written_args(args.drop_last()).push(written_arg(args.last()))
    }
}

/// The shape of a spec pattern.
pub open spec fn written_bound(spec: SpecPattern) -> BoundShape
    decreases spec, 0int,
{
    BoundShape {
        module: names_view(spec.module@),
        name: spec.name@,
        args: written_args(spec.args@),
    }
}

/// [`written_bound`] for lists.
pub open spec fn written_bounds(specs: Seq<SpecPattern>) -> Seq<BoundShape>
    decreases specs, 0int,
{
    if specs.len() == 0 {
        Seq::empty()
    } else {
        written_bounds(specs.drop_last()).push(written_bound(specs.last()))
    }
}

/// [`written_shape`] for lists.
pub open spec fn written_shapes(patterns: Seq<TypePattern>) -> Seq<TypeShape>
    decreases patterns, 0int,
{
    if patterns.len() == 0 {
        Seq::empty()
    } else {
        written_shapes(patterns.drop_last()).push(written_shape(patterns.last()))
    }
}

/// What a member pattern contributes to an anonymous enum.
pub open spec fn written_contribution(pattern: TypePattern) -> Seq<TypeShape>
    decreases pattern, 1int,
{
    match pattern {
        TypePattern::AnonymousEnum(members) => canonical_types(written_contributions(members@)),
        TypePattern::Fixed(ty) => fixed_contribution(ty),
        _ => seq![written_shape(pattern)],
    }
}

/// [`written_contribution`] of all members, in order.
pub open spec fn written_contributions(patterns: Seq<TypePattern>) -> Seq<TypeShape>
    decreases patterns, 0int,
{
    if patterns.len() == 0 {
        Seq::empty()
    } else {
        written_contributions(patterns.drop_last()) + written_contribution(patterns.last())
    }
}

/// The shape of a type pattern.
pub open spec fn written_shape(pattern: TypePattern) -> TypeShape
    decreases pattern, 0int,
{
    match pattern {
        TypePattern::Fixed(ty) => fixed_shape(ty),
        TypePattern::Parameter(index) => TypeShape::Param(index),
        TypePattern::Pointer(inner, mutable) => TypeShape::Pointer(
            Box::new(written_shape(*inner)),
            mutable,
        ),
        TypePattern::Slice(inner, mutable) => TypeShape::Slice(
            Box::new(written_shape(*inner)),
            mutable,
        ),
        TypePattern::Array(inner, mutable) => TypeShape::Array(
            Box::new(written_shape(*inner)),
            mutable,
        ),
        TypePattern::SizedArray(inner, length) => TypeShape::SizedArray(
            Box::new(written_shape(*inner)),
            Box::new(written_arg(*length)),
        ),
        TypePattern::Nominal(path, args) => TypeShape::Nominal(
            names_view(path@),
            written_args(args@),
        ),
        TypePattern::Function(params, result, convention, variadic) => TypeShape::Function(
            written_shapes(params@),
            Box::new(written_shape(*result)),
            convention,
            variadic,
        ),
        TypePattern::AnonymousEnum(members) => TypeShape::AnonymousEnum(
            canonical_types(written_contributions(members@)),
        ),
        TypePattern::SpecObject(members, mutable) => TypeShape::SpecObject(
            canonical_bounds(written_bounds(members@)),
            mutable,
        ),
    }
}

fn convert_arg(arg: &ArgumentPattern) -> (out: TemplateArg)
    ensures
        arg_shape(out) == written_arg(*arg),
    decreases arg, 0int,
{
    match arg {
        ArgumentPattern::Type(pattern) => TemplateArg::Type(convert_type(pattern)),
        ArgumentPattern::Value(value) => TemplateArg::Value(*value),
        ArgumentPattern::Parameter(index) => TemplateArg::ValueParam(*index),
    }
}

fn convert_args(args: &Vec<ArgumentPattern>) -> (out: Vec<TemplateArg>)
    ensures
        arg_shapes(out@) == written_args(args@),
    decreases args, 0int,
{
    let mut out: Vec<TemplateArg> = Vec::new();
    let mut i: usize = 0;
    while i < args.len()
        invariant
            i <= args@.len(),
            arg_shapes(out@) == written_args(args@.take(i as int)),
        decreases args.len() - i,
    {
        assert(args@.take(i as int + 1).drop_last() =~= args@.take(i as int));
        let ghost before = out@;
        out.push(convert_arg(&args[i]));
        assert(out@.drop_last() =~= before);
        i = i + 1;
    }
    assert(args@.take(i as int) =~= args@);
    out
}

fn convert_bound(spec: &SpecPattern) -> (out: TemplateBound)
    ensures
        bound_shape(out) == written_bound(*spec),
    decreases spec, 0int,
{
    let args: Vec<TemplateArg> = convert_args(&spec.args);
    assert(arg_shapes(args@) == written_args(spec.args@));
    TemplateBound {
        module: copy_names(&spec.module),
        name: spec.name.clone(),
        args: Rc::new(args),
    }
}

fn convert_bounds(specs: &Vec<SpecPattern>) -> (out: Vec<TemplateBound>)
    ensures
        bound_shapes(out@) == written_bounds(specs@),
    decreases specs, 0int,
{
    let mut out: Vec<TemplateBound> = Vec::new();
    let mut i: usize = 0;
    while i < specs.len()
        invariant
            i <= specs@.len(),
            bound_shapes(out@) == written_bounds(specs@.take(i as int)),
        decreases specs.len() - i,
    {
        assert(specs@.take(i as int + 1).drop_last() =~= specs@.take(i as int));
        let ghost before = out@;
        out.push(convert_bound(&specs[i]));
        assert(out@.drop_last() =~= before);
        i = i + 1;
    }
    assert(specs@.take(i as int) =~= specs@);
    out
}

fn convert_types(patterns: &Vec<TypePattern>) -> (out: Vec<TemplateType>)
    ensures
        type_shapes(out@) == written_shapes(patterns@),
    decreases patterns, 0int,
{
    let mut out: Vec<TemplateType> = Vec::new();
    let mut i: usize = 0;
    while i < patterns.len()
        invariant
            i <= patterns@.len(),
            type_shapes(out@) == written_shapes(patterns@.take(i as int)),
        decreases patterns.len() - i,
    {
        assert(patterns@.take(i as int + 1).drop_last() =~= patterns@.take(i as int));
        let ghost before = out@;
        out.push(convert_type(&patterns[i]));
        assert(out@.drop_last() =~= before);
        i = i + 1;
    }
    assert(patterns@.take(i as int) =~= patterns@);
    out
}

fn contribute(pattern: &TypePattern) -> (out: Vec<TemplateType>)
    ensures
        type_shapes(out@) == written_contribution(*pattern),
    decreases pattern, 1int,
{
    match pattern {
        TypePattern::AnonymousEnum(members) => {
            let flattened: Vec<TemplateType> = canonical_enum_members(members);
            canonicalize_types(&flattened)
        },
        TypePattern::Fixed(ty) => contribute_fixed(ty),
        _ => {
            let mut out: Vec<TemplateType> = Vec::new();
            out.push(convert_type(pattern));
            proof {
                lemma_type_shapes(out@);
            }
            assert(type_shapes(out@) =~= seq![written_shape(*pattern)]);
            out
        },
    }
}

fn canonical_enum_members(patterns: &Vec<TypePattern>) -> (out: Vec<TemplateType>)
    ensures
        type_shapes(out@) == written_contributions(patterns@),
    decreases patterns, 0int,
{
    let mut out: Vec<TemplateType> = Vec::new();
    let mut i: usize = 0;
    while i < patterns.len()
        invariant
            i <= patterns@.len(),
            type_shapes(out@) == written_contributions(patterns@.take(i as int)),
        decreases patterns.len() - i,
    {
        assert(patterns@.take(i as int + 1).drop_last() =~= patterns@.take(i as int));
        let mut more: Vec<TemplateType> = contribute(&patterns[i]);
        proof {
            lemma_shapes_append(out@, more@);
        }
        out.append(&mut more);
        i = i + 1;
    }
    assert(patterns@.take(i as int) =~= patterns@);
    out
}

fn convert_type(pattern: &TypePattern) -> (out: TemplateType)
    ensures
        type_shape(out) == written_shape(*pattern),
    decreases pattern, 0int,
{
    match pattern {
        TypePattern::Fixed(ty) => convert_fixed(ty),
        TypePattern::Parameter(index) => TemplateType::Param(*index),
        TypePattern::Pointer(inner, mutable) => TemplateType::Pointer(
            Rc::new(convert_type(inner)),
            *mutable,
        ),
        TypePattern::Slice(inner, mutable) => TemplateType::Slice(
            Rc::new(convert_type(inner)),
            *mutable,
        ),
        TypePattern::Array(inner, mutable) => TemplateType::Array(
            Rc::new(convert_type(inner)),
            *mutable,
        ),
        TypePattern::SizedArray(inner, length) => TemplateType::SizedArray(
            Rc::new(convert_type(inner)),
            Rc::new(convert_arg(length)),
        ),
        TypePattern::Nominal(path, args) => {
            let converted: Vec<TemplateArg> = convert_args(args);
            assert(arg_shapes(converted@) == written_args(args@));
            TemplateType::Nominal(share(path), Rc::new(converted))
        },
        TypePattern::Function(params, result, convention, variadic) => {
            let converted: Vec<TemplateType> = convert_types(params);
            let returned: TemplateType = convert_type(result);
            assert(type_shapes(converted@) == written_shapes(params@));
            TemplateType::Function(Rc::new(converted), Rc::new(returned), *convention, *variadic)
        },
        TypePattern::AnonymousEnum(members) => {
            let flattened: Vec<TemplateType> = canonical_enum_members(members);
            let kept: Vec<TemplateType> = canonicalize_types(&flattened);
            assert(type_shapes(kept@) == canonical_types(written_contributions(members@)));
            TemplateType::AnonymousEnum(Rc::new(kept))
        },
        TypePattern::SpecObject(members, mutable) => {
            let bounds: Vec<TemplateBound> = convert_bounds(members);
            let kept: Vec<TemplateBound> = canonicalize(&bounds);
            assert(bound_shapes(kept@) == canonical_bounds(written_bounds(members@)));
            TemplateType::SpecObject(Rc::new(kept), *mutable)
        },
    }
}

/// Whether a list of bounds holds one that is the same as `bound`.
pub open spec fn holds_bound(bounds: Seq<BoundShape>, bound: BoundShape) -> bool {
    exists|i: int| 0 <= i < bounds.len() && same_bound_shape(#[trigger] bounds[i], bound)
}

/// The bounds written for the parameter at `index`, each taken once.
pub open spec fn bounds_on(bounds: Seq<(usize, SpecPattern)>, index: int) -> Seq<BoundShape>
    decreases bounds.len(),
{
    if bounds.len() == 0 {
        Seq::empty()
    } else {
        let kept = bounds_on(bounds.drop_last(), index);
        let bound = written_bound(bounds.last().1);
        if bounds.last().0 == index && !holds_bound(kept, bound) {
            kept.push(bound)
        } else {
            kept
        }
    }
}

/// The shape of the parameter at `index`; a `comp` parameter has one only if
/// its type is known.
pub open spec fn described_param(template: OverloadTemplate, index: int) -> Option<ParamShape> {
    if template.generics@[index].comp() {
        match template.comp_types@[index] {
            Some(pattern) => Some(ParamShape::Comp(written_shape(pattern))),
            None => None,
        }
    } else {
        Some(ParamShape::Type(canonical_bounds(bounds_on(template.bounds@, index))))
    }
}

/// Whether every parameter of a template has a shape.
pub open spec fn describable(template: OverloadTemplate) -> bool {
    forall|i: int| 0 <= i < template.generics@.len() ==> (#[trigger] described_param(template, i))
        is Some
}

/// The identity of the declaration a describable template was built from.
pub open spec fn described(template: OverloadTemplate) -> DescriptorShape {
    DescriptorShape {
        generics: Seq::new(
            template.generics@.len(),
            |i: int| described_param(template, i)->0,
        ),
        params: written_shapes(template.params@),
        return_type: written_shape(template.return_type),
        is_variadic: template.is_variadic,
        convention: template.calling_convention,
    }
}

fn contains_bound(bounds: &Vec<TemplateBound>, bound: &TemplateBound) -> (r: bool)
    ensures
        r == holds_bound(bound_shapes(bounds@), bound_shape(*bound)),
{
    proof {
        lemma_bound_shapes(bounds@);
    }
    let mut i: usize = 0;
    while i < bounds.len()
        invariant
            i <= bounds@.len() == bound_shapes(bounds@).len(),
            forall|k: int|
                0 <= k < bounds@.len() ==> #[trigger] bound_shapes(bounds@)[k] == bound_shape(
                    bounds@[k],
                ),
            forall|k: int|
                0 <= k < i ==> !same_bound_shape(
                    #[trigger] bound_shapes(bounds@)[k],
                    bound_shape(*bound),
                ),
        decreases bounds.len() - i,
    {
        if bounds[i] == *bound {
            assert(same_bound_shape(bound_shapes(bounds@)[i as int], bound_shape(*bound)));
            return true;
        }
        i = i + 1;
    }
    false
}

fn collect_bounds(bounds: &Vec<(usize, SpecPattern)>, index: usize) -> (out: Vec<TemplateBound>)
    ensures
        bound_shapes(out@) == bounds_on(bounds@, index as int),
{
    let mut out: Vec<TemplateBound> = Vec::new();
    let mut i: usize = 0;
    while i < bounds.len()
        invariant
            i <= bounds@.len(),
            bound_shapes(out@) == bounds_on(bounds@.take(i as int), index as int),
        decreases bounds.len() - i,
    {
        assert(bounds@.take(i as int + 1).drop_last() =~= bounds@.take(i as int));
        let entry = &bounds[i];
        if entry.0 == index {
            let bound: TemplateBound = convert_bound(&entry.1);
            if !contains_bound(&out, &bound) {
                proof {
                    lemma_bounds_push(out@, bound);
                }
                out.push(bound);
            }
        }
        i = i + 1;
    }
    assert(bounds@.take(i as int) =~= bounds@);
    out
}

impl TemplateDescriptor {
    /// The identity of the declaration `template` was built from, or `None`
    /// where the type of one of its `comp` parameters is unknown.
    ///
    /// `template` must have been built in the declaration's own context --
    /// its module, and for a method the owner instantiation it belongs to --
    /// with its own generic parameters still unsubstituted.
    pub fn of(template: &OverloadTemplate) -> (descriptor: Option<Self>)
        requires
            template.generics@.len() <= template.comp_types@.len(),
        ensures
            match descriptor {
                Some(found) => describable(*template) && found@ == described(*template),
                None => !describable(*template),
            },
    {
        let mut generics: Vec<TemplateParam> = Vec::new();
        let mut index: usize = 0;
        while index < template.generics.len()
            invariant
                index <= template.generics@.len() <= template.comp_types@.len(),
                generics@.len() == index,
                forall|i: int|
                    0 <= i < index ==> (#[trigger] described_param(*template, i)) == Some(
                        param_shape(generics@[i]),
                    ),
            decreases template.generics.len() - index,
        {
            let param: TemplateParam = if template.generics[index].is_comp() {
                match &template.comp_types[index] {
                    Some(pattern) => TemplateParam::Comp(convert_type(pattern)),
                    None => {
                        assert(described_param(*template, index as int) is None);
                        return None;
                    },
                }
            } else {
                let bounds: Vec<TemplateBound> = collect_bounds(&template.bounds, index);
                TemplateParam::Type(canonicalize(&bounds))
            };
            assert(described_param(*template, index as int) == Some(param_shape(param)));
            generics.push(param);
            index = index + 1;
        }
        let descriptor = TemplateDescriptor {
            generics,
            params: convert_types(&template.params),
            return_type: convert_type(&template.return_type),
            is_variadic: template.is_variadic,
            convention: template.calling_convention,
        };
        assert(descriptor@.generics =~= described(*template).generics) by {
            assert forall|i: int| 0 <= i < generics@.len() implies descriptor@.generics[i]
                == #[trigger] described(*template).generics[i] by {
                assert(described_param(*template, i) is Some);
            }
        }
        Some(descriptor)
    }
}

/// The order in which bounds are written is irrelevant: `A + B` and `B + A`
/// are one bound set.
pub proof fn law_bound_order_is_irrelevant(a: Seq<BoundShape>, b: Seq<BoundShape>)
    requires
        a.to_multiset() == b.to_multiset(),
        forall|x: BoundShape, y: BoundShape|
            a.contains(x) && a.contains(y) && #[trigger] bound_key_of(x)
                == #[trigger] bound_key_of(y) ==> x == y,
    ensures
        canonical_bounds(a) == canonical_bounds(b),
{
    lemma_sorting_is_canonical(a, b, |bound: BoundShape| bound_key_of(bound));
}

/// The order in which the members of an anonymous enum are written is
/// irrelevant.
pub proof fn law_member_order_is_irrelevant(a: Seq<TypeShape>, b: Seq<TypeShape>)
    requires
        a.to_multiset() == b.to_multiset(),
        forall|x: TypeShape, y: TypeShape|
            a.contains(x) && a.contains(y) && #[trigger] shape_key(x) == #[trigger] shape_key(y)
                ==> x == y,
    ensures
        canonical_types(a) == canonical_types(b),
{
    lemma_sorting_is_canonical(a, b, |ty: TypeShape| shape_key(ty));
}

/// Whether two templates agree in everything but their parameters' names,
/// defaults, and written bounds.
pub open spec fn same_but_for_names(a: OverloadTemplate, b: OverloadTemplate) -> bool {
    &&& a.generics@.len() == b.generics@.len()
    &&& forall|i: int|
        0 <= i < a.generics@.len() ==> (#[trigger] a.generics@[i]).comp() == b.generics@[i].comp()
    &&& a.comp_types@ == b.comp_types@
    &&& a.bounds@ == b.bounds@
    &&& a.params@ == b.params@
    &&& a.return_type == b.return_type
    &&& a.is_variadic == b.is_variadic
    &&& a.calling_convention == b.calling_convention
}

/// The names and defaults of a declaration's parameters are no part of its
/// identity.
pub proof fn law_parameter_names_are_not_identity(a: OverloadTemplate, b: OverloadTemplate)
    requires
        same_but_for_names(a, b),
    ensures
        describable(a) == describable(b),
        described(a) == described(b),
{
    assert forall|i: int| 0 <= i < a.generics@.len() implies #[trigger] described_param(a, i)
        == described_param(b, i) by {
        assert(a.generics@[i].comp() == b.generics@[i].comp());
    }
    assert forall|i: int| 0 <= i < a.generics@.len() implies #[trigger] described_param(b, i)
        == described_param(a, i) by {}
    assert(described(a).generics =~= described(b).generics);
}

} // verus!
