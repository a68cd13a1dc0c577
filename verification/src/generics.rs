//! Generic parameters: what an inference pass binds them to and how a
//! declaration's written types determine those bindings.

pub mod pattern;

use crate::generics::pattern::{length_of, ArgumentPattern, TypePattern};
use crate::hir::{HirFunctionDef, HirGenericParam, HirParam};
use crate::resolved_type::{
    CompScalar, CompScalarType, ResolvedFunctionParam, ResolvedGenericArg, ResolvedType,
};
use crate::syntax::{
    ArrayLength, FunctionTypeParam, GenericArg, GenericParamKind, Ident, Path, Type,
};
use crate::text::{decimal, decimal_text, share};
use std::rc::Rc;
use vstd::prelude::*;

verus! {

/// The argument the first entry with `name` holds.
pub open spec fn lookup(
    entries: Seq<(Seq<char>, ResolvedGenericArg)>,
    name: Seq<char>,
) -> Option<ResolvedGenericArg>
    decreases entries.len(),
{
    if entries.len() == 0 {
        None
    } else {
        match lookup(entries.drop_last(), name) {
            Some(arg) => Some(arg),
            None => if entries.last().0 == name {
                Some(entries.last().1)
            } else {
                None
            },
        }
    }
}

/// The entries once `name` is bound, to `arg` unless it was bound before.
pub open spec fn bound_once(
    entries: Seq<(Seq<char>, ResolvedGenericArg)>,
    name: Seq<char>,
    arg: ResolvedGenericArg,
) -> Seq<(Seq<char>, ResolvedGenericArg)> {
    match lookup(entries, name) {
        Some(_) => entries,
        None => entries.push((name, arg)),
    }
}

/// The bindings one generic instantiation installs while the instantiated
/// declaration is analyzed. Entries stay in declaration order, and a name is
/// bound either to a type or to a canonical compile-time value.
#[derive(Debug)]
pub struct GenericSubstitution {
    pub entries: Vec<(Ident, ResolvedGenericArg)>,
}

impl View for GenericSubstitution {
    type V = Seq<(Seq<char>, ResolvedGenericArg)>;

    open spec fn view(&self) -> Seq<(Seq<char>, ResolvedGenericArg)> {
        self.entries@.map_values(|entry: (Ident, ResolvedGenericArg)| (entry.0@, entry.1))
    }
}

impl Default for GenericSubstitution {
    fn default() -> (subst: Self)
        ensures
            subst@ == Seq::<(Seq<char>, ResolvedGenericArg)>::empty(),
    {
        let subst = GenericSubstitution { entries: Vec::new() };
        assert(subst@ =~= Seq::empty());
        subst
    }
}

impl Clone for GenericSubstitution {
    fn clone(&self) -> (copy: Self)
        ensures
            copy@ == self@,
    {
        let mut entries: Vec<(Ident, ResolvedGenericArg)> = Vec::new();
        let mut i: usize = 0;
        while i < self.entries.len()
            invariant
                i <= self.entries@.len(),
                entries@ =~= self.entries@.take(i as int),
            decreases self.entries.len() - i,
        {
            let entry = &self.entries[i];
            entries.push((entry.0.clone(), entry.1.clone()));
            i = i + 1;
        }
        GenericSubstitution { entries }
    }
}

impl GenericSubstitution {
    pub fn new() -> (subst: Self)
        ensures
            subst@ == Seq::<(Seq<char>, ResolvedGenericArg)>::empty(),
    {
        GenericSubstitution::default()
    }

    /// The substitution with these entries, in order.
    pub fn from_entries(entries: Vec<(Ident, ResolvedGenericArg)>) -> (subst: Self)
        ensures
            subst.entries@ == entries@,
    {
        GenericSubstitution { entries }
    }

    /// Pairs declared parameters with the arguments an instantiation
    /// resolved for them. Surplus on either side is ignored; argument count
    /// is checked where the instantiation is formed.
    pub fn zip(names: &Vec<Ident>, args: &Vec<ResolvedGenericArg>) -> (subst: Self)
        ensures
            subst@.len() == if names@.len() < args@.len() {
                names@.len()
            } else {
                args@.len()
            },
            forall|i: int|
                0 <= i < subst@.len() ==> #[trigger] subst@[i] == (names@[i]@, args@[i]),
    {
        let mut subst = GenericSubstitution::new();
        let mut i: usize = 0;
        while i < names.len() && i < args.len()
            invariant
                i <= names@.len(),
                i <= args@.len(),
                subst@.len() == i,
                forall|k: int| 0 <= k < i ==> #[trigger] subst@[k] == (names@[k]@, args@[k]),
            decreases names.len() - i,
        {
            subst.push(names[i].clone(), args[i].clone());
            i = i + 1;
        }
        subst
    }

    pub fn push(&mut self, name: Ident, arg: ResolvedGenericArg)
        ensures
            final(self)@ == old(self)@.push((name@, arg)),
    {
        self.entries.push((name, arg));
        assert(self@ =~= old(self)@.push((name@, arg)));
    }

    pub fn push_type(&mut self, name: Ident, ty: ResolvedType)
        ensures
            final(self)@ == old(self)@.push((name@, ResolvedGenericArg::Type(ty))),
    {
        self.push(name, ResolvedGenericArg::Type(ty));
    }

    /// Records what `arg` makes only if `name` is still unbound, so the first
    /// binding an inference pass finds wins. Where `name` is bound, nothing is
    /// made.
    pub fn bind_if_absent<F: FnOnce() -> ResolvedGenericArg>(&mut self, name: &Ident, arg: F)
        requires
            lookup(old(self)@, name@) is None ==> arg.requires(()),
        ensures
            match lookup(old(self)@, name@) {
                Some(_) => final(self)@ == old(self)@,
                None => exists|made: ResolvedGenericArg| #[trigger]
                    arg.ensures((), made) && final(self)@ == old(self)@.push((name@, made)),
            },
    {
        if !self.contains(name) {
            let made: ResolvedGenericArg = arg();
            self.push(name.clone(), made);
        }
    }

    pub fn get(&self, name: &Ident) -> (found: Option<&ResolvedGenericArg>)
        ensures
            match found {
                Some(arg) => lookup(self@, name@) == Some(*arg),
                None => lookup(self@, name@) is None,
            },
    {
        let mut i: usize = 0;
        assert(self@.take(0) =~= Seq::empty());
        while i < self.entries.len()
            invariant
                i <= self.entries@.len(),
                lookup(self@.take(i as int), name@) is None,
            decreases self.entries.len() - i,
        {
            assert(self@.take(i as int + 1).drop_last() =~= self@.take(i as int));
            if self.entries[i].0 == *name {
                proof {
                    lemma_first_entry_stays(self@, i as int + 1, name@);
                }
                return Some(&self.entries[i].1);
            }
            i = i + 1;
        }
        assert(self@.take(i as int) =~= self@);
        None
    }

    pub fn contains(&self, name: &Ident) -> (r: bool)
        ensures
            r == (lookup(self@, name@) is Some),
    {
        self.get(name).is_some()
    }

    /// The entries, in order.
    pub fn iter(&self) -> (entries: &Vec<(Ident, ResolvedGenericArg)>)
        ensures
            *entries == self.entries,
    {
        &self.entries
    }

    pub fn is_empty(&self) -> (r: bool)
        ensures
            r == (self@.len() == 0),
    {
        self.entries.len() == 0
    }
}

proof fn lemma_first_entry_stays(
    entries: Seq<(Seq<char>, ResolvedGenericArg)>,
    n: int,
    name: Seq<char>,
)
    requires
        0 <= n <= entries.len(),
        lookup(entries.take(n), name) is Some,
    ensures
        lookup(entries, name) == lookup(entries.take(n), name),
    decreases entries.len(),
{
    if n == entries.len() {
        assert(entries.take(n) =~= entries);
    } else {
        assert(entries.drop_last().take(n) =~= entries.take(n));
        lemma_first_entry_stays(entries.drop_last(), n, name);
    }
}

/// A name keeps its first binding: nothing bound afterwards, to it or to
/// another name, changes what it stands for.
pub proof fn law_first_binding_wins(
    entries: Seq<(Seq<char>, ResolvedGenericArg)>,
    name: Seq<char>,
    arg: ResolvedGenericArg,
    other: Seq<char>,
    later: ResolvedGenericArg,
)
    requires
        lookup(entries, name) == Some(arg),
    ensures
        lookup(bound_once(entries, other, later), name) == Some(arg),
        lookup(entries.push((other, later)), name) == Some(arg),
{
    assert(entries.push((other, later)).drop_last() =~= entries);
}

/// Binding an unbound name makes it stand for the given argument and leaves
/// every other name as it was.
pub proof fn law_binding_is_found(
    entries: Seq<(Seq<char>, ResolvedGenericArg)>,
    name: Seq<char>,
    arg: ResolvedGenericArg,
    other: Seq<char>,
)
    requires
        lookup(entries, name) is None,
    ensures
        lookup(bound_once(entries, name, arg), name) == Some(arg),
        other != name ==> lookup(bound_once(entries, name, arg), other) == lookup(entries, other),
{
    assert(entries.push((name, arg)).drop_last() =~= entries);
}

/// Whether `entries` came from `before` by appending bindings of names that
/// were unbound when they were appended.
pub open spec fn extends_bindings(
    before: Seq<(Seq<char>, ResolvedGenericArg)>,
    entries: Seq<(Seq<char>, ResolvedGenericArg)>,
) -> bool {
    &&& before.len() <= entries.len()
    &&& entries.take(before.len() as int) == before
    &&& forall|name: Seq<char>|
        #![trigger lookup(before, name)]
        lookup(before, name) is Some ==> lookup(entries, name) == lookup(before, name)
}

proof fn lemma_extends_once(
    before: Seq<(Seq<char>, ResolvedGenericArg)>,
    entries: Seq<(Seq<char>, ResolvedGenericArg)>,
    name: Seq<char>,
    arg: ResolvedGenericArg,
)
    requires
        extends_bindings(before, entries),
    ensures
        extends_bindings(before, bound_once(entries, name, arg)),
{
    let after = bound_once(entries, name, arg);
    assert(after.take(before.len() as int) =~= entries.take(before.len() as int));
    assert forall|other: Seq<char>|
        #![trigger lookup(before, other)]
        lookup(before, other) is Some implies lookup(after, other) == lookup(before, other) by {
        law_first_binding_wins(entries, other, lookup(before, other)->0, name, arg);
    }
}

/// The declaration side of one generic inference problem: the declared
/// parameters together with the already-resolved type of each `comp`
/// parameter. Resolving those types needs the analyzer, so it happens once
/// at the call site rather than inside every unification step.
pub struct GenericParams<'a> {
    pub params: &'a Vec<HirGenericParam>,
    pub comp_types: &'a Vec<Option<CompScalarType>>,
    pub pointer_bits: u32,
}

/// The position of the first parameter from `from` on that is called `name`.
pub open spec fn param_position(params: Seq<HirGenericParam>, name: Seq<char>, from: int) -> Option<
    int,
>
    decreases params.len() - from,
{
    if from < 0 || from >= params.len() {
        None
    } else if params[from].ident@ == name {
        Some(from)
    } else {
        param_position(params, name, from + 1)
    }
}

impl GenericParams<'_> {
    /// Whether every parameter has an entry in `comp_types` and pointers have
    /// a width that a machine integer can hold.
    pub open spec fn valid(self) -> bool {
        &&& self.params@.len() <= self.comp_types@.len()
        &&& 1 <= self.pointer_bits <= 126
    }

    /// The scalar type the `comp` parameter `name` was declared with.
    pub open spec fn declared_comp(self, name: Seq<char>) -> Option<CompScalarType> {
        match param_position(self.params@, name, 0) {
            Some(index) => if self.params@[index].comp() {
                self.comp_types@[index]
            } else {
                None
            },
            None => None,
        }
    }

    /// Whether `name` is a type parameter.
    pub open spec fn declares_type(self, name: Seq<char>) -> bool {
        match param_position(self.params@, name, 0) {
            Some(index) => !self.params@[index].comp(),
            None => false,
        }
    }

    /// An array length as the value of the `comp` parameter `name`, if the
    /// parameter is an integer whose type holds it.
    pub open spec fn length_value(self, name: Seq<char>, length: u32) -> Option<
        ResolvedGenericArg,
    > {
        match self.declared_comp(name) {
            Some(CompScalarType::Int(ty)) => if ty.denoted().in_domain(
                length as int,
                self.pointer_bits,
            ) {
                Some(ResolvedGenericArg::Comp(CompScalar::Int { ty, value: length as i128 }))
            } else {
                None
            },
            _ => None,
        }
    }

    fn index_of(&self, name: &Ident) -> (index: Option<usize>)
        ensures
            match index {
                Some(i) => param_position(self.params@, name@, 0) == Some(i as int) && i
                    < self.params@.len(),
                None => param_position(self.params@, name@, 0) is None,
            },
    {
        let mut i: usize = 0;
        while i < self.params.len()
            invariant
                i <= self.params@.len(),
                param_position(self.params@, name@, 0) == param_position(
                    self.params@,
                    name@,
                    i as int,
                ),
            decreases self.params.len() - i,
        {
            if self.params[i].ident == *name {
                return Some(i);
            }
            i = i + 1;
        }
        None
    }

    /// The names of the declared parameters, in order.
    pub fn names(&self) -> (names: Vec<Ident>)
        ensures
            names@.len() == self.params@.len(),
            forall|i: int|
                0 <= i < names@.len() ==> #[trigger] names@[i] == self.params@[i].ident,
    {
        let mut names: Vec<Ident> = Vec::new();
        let mut i: usize = 0;
        while i < self.params.len()
            invariant
                i <= self.params@.len(),
                names@.len() == i,
                forall|k: int| 0 <= k < i ==> #[trigger] names@[k] == self.params@[k].ident,
            decreases self.params.len() - i,
        {
            names.push(self.params[i].ident.clone());
            i = i + 1;
        }
        names
    }

    /// The scalar type a `comp` parameter was declared with, or `None` when
    /// `name` is not a `comp` parameter of this declaration or its declared
    /// type failed to resolve.
    pub fn comp_type(&self, name: &Ident) -> (ty: Option<CompScalarType>)
        requires
            self.valid(),
        ensures
            ty == self.declared_comp(name@),
    {
        match self.index_of(name) {
            Some(index) => if self.params[index].is_comp() {
                self.comp_types[index]
            } else {
                None
            },
            None => None,
        }
    }

    fn is_type_param(&self, name: &Ident) -> (r: bool)
        ensures
            r == self.declares_type(name@),
    {
        match self.index_of(name) {
            Some(index) => !self.params[index].is_comp(),
            None => false,
        }
    }

    fn normalize_length(&self, name: &Ident, length: u32) -> (arg: Option<ResolvedGenericArg>)
        requires
            self.valid(),
        ensures
            arg == self.length_value(name@, length),
    {
        let ty = match self.comp_type(name) {
            Some(CompScalarType::Int(ty)) => ty,
            _ => {
                return None;
            },
        };
        match ty.resolved().integer_domain(self.pointer_bits) {
            Some((min, max)) => {
                let value: i128 = length as i128;
                if min <= value && value <= max {
                    Some(ResolvedGenericArg::Comp(CompScalar::Int { ty, value }))
                } else {
                    None
                }
            },
            None => None,
        }
    }
}

/// The scalar type a compile-time value has.
pub fn comp_type_of(value: &CompScalar) -> (ty: CompScalarType)
    ensures
        ty == value.declared(),
{
    match value {
        CompScalar::Int { ty, .. } => CompScalarType::Int(*ty),
        CompScalar::Bool(_) => CompScalarType::Bool,
        CompScalar::Char(_) => CompScalarType::Char,
    }
}

/// The arguments a declared type was instantiated with.
pub open spec fn owner_args(concrete: ResolvedType) -> Option<Seq<ResolvedGenericArg>> {
    match concrete {
        ResolvedType::Struct(cell) => Some(cell.generic_args@),
        ResolvedType::Enum { cell, .. } => Some(cell.generic_args@),
        ResolvedType::Union(cell) => Some(cell.generic_args@),
        _ => None,
    }
}

fn owner_generic_args(concrete: &ResolvedType) -> (args: Option<&Vec<ResolvedGenericArg>>)
    ensures
        match args {
            Some(list) => owner_args(*concrete) == Some(list@),
            None => owner_args(*concrete) is None,
        },
{
    match concrete {
        ResolvedType::Struct(cell) => Some(&cell.generic_args),
        ResolvedType::Enum { cell, .. } => Some(&cell.generic_args),
        ResolvedType::Union(cell) => Some(&cell.generic_args),
        _ => None,
    }
}

/// The smaller of two lengths.
pub open spec fn shorter(a: nat, b: nat) -> nat {
    if a < b {
        a
    } else {
        b
    }
}

/// What a written array length binds when it meets `length` elements.
pub open spec fn length_bound(
    generics: GenericParams<'_>,
    written: ArrayLength,
    length: u32,
    entries: Seq<(Seq<char>, ResolvedGenericArg)>,
) -> Seq<(Seq<char>, ResolvedGenericArg)> {
    match written {
        ArrayLength::Path(path) => match generics.length_value(path.head@, length) {
            Some(arg) => if path.unqualified() {
                bound_once(entries, path.head@, arg)
            } else {
                entries
            },
            None => entries,
        },
        _ => entries,
    }
}

/// What a path written in a value position binds when it meets `value`: the
/// `comp` parameter it names, if that has the value's type.
pub open spec fn value_bound(
    generics: GenericParams<'_>,
    raw: Type,
    value: CompScalar,
    entries: Seq<(Seq<char>, ResolvedGenericArg)>,
) -> Seq<(Seq<char>, ResolvedGenericArg)> {
    match raw {
        Type::Named(path) => if path.unqualified() && generics.declared_comp(path.head@) == Some(
            value.declared(),
        ) {
            bound_once(entries, path.head@, ResolvedGenericArg::Comp(value))
        } else {
            entries
        },
        _ => entries,
    }
}

/// Whether a written type is one of the declaration's own type parameters.
pub open spec fn names_type_param(generics: GenericParams<'_>, raw: Type) -> bool {
    match raw {
        Type::Named(path) => path.unqualified() && generics.declares_type(path.head@),
        _ => false,
    }
}

/// The entries once the written type `raw` has met `concrete`. A type
/// parameter binds the type at its position; a `comp` parameter binds a fixed
/// array's length or a generic argument's value; references, arrays, function
/// types and the arguments of a generic type are followed position by
/// position.
pub open spec fn unified(
    generics: GenericParams<'_>,
    raw: Type,
    concrete: ResolvedType,
    entries: Seq<(Seq<char>, ResolvedGenericArg)>,
) -> Seq<(Seq<char>, ResolvedGenericArg)>
    decreases raw, 0nat,
{
    match raw {
        Type::Named(path) => if names_type_param(generics, raw) {
            bound_once(entries, path.head@, ResolvedGenericArg::Type(concrete))
        } else {
            entries
        },
        Type::Pointer(inner, _) => match concrete {
            ResolvedType::Slice { item, .. } => match *inner {
                Type::InferredArray(elem) => unified(generics, *elem, *item, entries),
                _ => entries,
            },
            ResolvedType::Array(item, _) => match *inner {
                Type::UnknownSizeArray(elem) => unified(generics, *elem, *item, entries),
                _ => entries,
            },
            ResolvedType::Pointer { pointee, .. } => unified(generics, *inner, *pointee, entries),
            _ => entries,
        },
        Type::SizedArray(inner, length) => match concrete {
            ResolvedType::SizedArray(item, size) => unified(
                generics,
                *inner,
                *item,
                length_bound(generics, length, size, entries),
            ),
            _ => entries,
        },
        Type::Function(function) => match concrete {
            ResolvedType::Function(found) => unified(
                generics,
                function.return_type,
                *found.return_type,
                unified_params(
                    generics,
                    function.params@,
                    found.params@,
                    shorter(function.params@.len(), found.params@.len()),
                    entries,
                ),
            ),
            _ => entries,
        },
        Type::Generic(_, raw_args) => match owner_args(concrete) {
            Some(found) => unified_args(
                generics,
                raw_args@,
                found,
                shorter(raw_args@.len(), found.len()),
                entries,
            ),
            None => entries,
        },
        _ => entries,
    }
}

/// [`unified`] for the first `n` parameters of a function type, in order.
pub open spec fn unified_params(
    generics: GenericParams<'_>,
    raw: Seq<FunctionTypeParam>,
    found: Seq<ResolvedFunctionParam>,
    n: nat,
    entries: Seq<(Seq<char>, ResolvedGenericArg)>,
) -> Seq<(Seq<char>, ResolvedGenericArg)>
    decreases raw, n,
{
    if n == 0 || n > raw.len() {
        entries
    } else {
        unified(
            generics,
            raw[n - 1].ty,
            found[n - 1].ty,
            unified_params(generics, raw, found, (n - 1) as nat, entries),
        )
    }
}

/// [`unified`] for the first `n` generic arguments, in order.
pub open spec fn unified_args(
    generics: GenericParams<'_>,
    raw: Seq<GenericArg>,
    found: Seq<ResolvedGenericArg>,
    n: nat,
    entries: Seq<(Seq<char>, ResolvedGenericArg)>,
) -> Seq<(Seq<char>, ResolvedGenericArg)>
    decreases raw, n,
{
    if n == 0 || n > raw.len() {
        entries
    } else {
        let before = unified_args(generics, raw, found, (n - 1) as nat, entries);
        match raw[n - 1] {
            GenericArg::Type(ty) => match found[n - 1] {
                ResolvedGenericArg::Type(concrete) => unified(generics, ty, concrete, before),
                ResolvedGenericArg::Comp(value) => value_bound(generics, ty, value, before),
            },
            GenericArg::Value(_) => before,
        }
    }
}

fn bind_length(
    generics: &GenericParams<'_>,
    written: &ArrayLength,
    length: u32,
    subst: &mut GenericSubstitution,
)
    requires
        generics.valid(),
    ensures
        final(subst)@ == length_bound(*generics, *written, length, old(subst)@),
{
    if let ArrayLength::Path(path) = written {
        if path.is_unqualified() {
            if let Some(arg) = generics.normalize_length(&path.head, length) {
                let make = || -> (made: ResolvedGenericArg)
                    ensures
                        made == arg,
                {
                    arg
                };
                subst.bind_if_absent(&path.head, make);
            }
        }
    }
}

fn bind_value(
    generics: &GenericParams<'_>,
    raw: &Type,
    value: &CompScalar,
    subst: &mut GenericSubstitution,
)
    requires
        generics.valid(),
    ensures
        final(subst)@ == value_bound(*generics, *raw, *value, old(subst)@),
{
    if let Type::Named(path) = raw {
        if path.is_unqualified() {
            if let Some(declared) = generics.comp_type(&path.head) {
                if declared == comp_type_of(value) {
                    let make = || -> (made: ResolvedGenericArg)
                        ensures
                            made == ResolvedGenericArg::Comp(*value),
                    {
                        ResolvedGenericArg::Comp(*value)
                    };
                    subst.bind_if_absent(&path.head, make);
                }
            }
        }
    }
}

/// Binds generic parameters by matching the written type of a declaration
/// against a concrete type. Type parameters bind from the corresponding
/// concrete position; `comp` parameters bind only from compile-time
/// structural information -- a fixed array's length or a concrete value
/// argument -- never from a runtime value.
pub fn unify_generic_type(
    generics: &GenericParams<'_>,
    raw: &Type,
    concrete: &ResolvedType,
    subst: &mut GenericSubstitution,
)
    requires
        generics.valid(),
    ensures
        final(subst)@ == unified(*generics, *raw, *concrete, old(subst)@),
    decreases raw, 0nat,
{
    match raw {
        Type::Named(path) => if path.is_unqualified() && generics.is_type_param(&path.head) {
            let make = || -> (made: ResolvedGenericArg)
                ensures
                    made == ResolvedGenericArg::Type(*concrete),
            {
                ResolvedGenericArg::Type(concrete.clone())
            };
            subst.bind_if_absent(&path.head, make);
        },
        Type::Pointer(inner, _) => match concrete {
            ResolvedType::Slice { item, .. } => if let Type::InferredArray(elem) = &**inner {
                unify_generic_type(generics, elem, item, subst);
            },
            ResolvedType::Array(item, _) => if let Type::UnknownSizeArray(elem) = &**inner {
                unify_generic_type(generics, elem, item, subst);
            },
            ResolvedType::Pointer { pointee, .. } => {
                unify_generic_type(generics, inner, pointee, subst);
            },
            _ => {},
        },
        Type::SizedArray(inner, length) => if let ResolvedType::SizedArray(item, size) = concrete {
            bind_length(generics, length, *size, subst);
            unify_generic_type(generics, inner, item, subst);
        },
        Type::Function(function) => if let ResolvedType::Function(found) = concrete {
            unify_params(generics, &function.params, &found.params, subst);
            unify_generic_type(generics, &function.return_type, &found.return_type, subst);
        },
        // No check that the path names the same owner as `concrete`: a wrong
        // guess is caught afterward by the ordinary argument check.
        Type::Generic(_, raw_args) => if let Some(found) = owner_generic_args(concrete) {
            unify_args(generics, raw_args, found, subst);
        },
        _ => {},
    }
}

fn unify_params(
    generics: &GenericParams<'_>,
    raw: &Vec<FunctionTypeParam>,
    found: &Vec<ResolvedFunctionParam>,
    subst: &mut GenericSubstitution,
)
    requires
        generics.valid(),
    ensures
        final(subst)@ == unified_params(
            *generics,
            raw@,
            found@,
            shorter(raw@.len(), found@.len()),
            old(subst)@,
        ),
    decreases raw, 0nat,
{
    let ghost before = subst@;
    let mut i: usize = 0;
    while i < raw.len() && i < found.len()
        invariant
            generics.valid(),
            i <= raw@.len(),
            i <= found@.len(),
            subst@ == unified_params(*generics, raw@, found@, i as nat, before),
        decreases raw.len() - i,
    {
        unify_generic_type(generics, &raw[i].ty, &found[i].ty, subst);
        i = i + 1;
    }
}

fn unify_args(
    generics: &GenericParams<'_>,
    raw: &Vec<GenericArg>,
    found: &Vec<ResolvedGenericArg>,
    subst: &mut GenericSubstitution,
)
    requires
        generics.valid(),
    ensures
        final(subst)@ == unified_args(
            *generics,
            raw@,
            found@,
            shorter(raw@.len(), found@.len()),
            old(subst)@,
        ),
    decreases raw, 0nat,
{
    let ghost before = subst@;
    let mut i: usize = 0;
    while i < raw.len() && i < found.len()
        invariant
            generics.valid(),
            i <= raw@.len(),
            i <= found@.len(),
            subst@ == unified_args(*generics, raw@, found@, i as nat, before),
        decreases raw.len() - i,
    {
        match &raw[i] {
            GenericArg::Type(ty) => match &found[i] {
                ResolvedGenericArg::Type(concrete) => {
                    unify_generic_type(generics, ty, concrete, subst);
                },
                ResolvedGenericArg::Comp(value) => {
                    bind_value(generics, ty, value, subst);
                },
            },
            GenericArg::Value(_) => {},
        }
        i = i + 1;
    }
}

/// The type a pattern stands for whatever its holes are bound to: a fixed
/// type, or a reference to or array of one.
pub open spec fn known_type(pattern: TypePattern) -> Option<ResolvedType>
    decreases pattern,
{
    match pattern {
        TypePattern::Fixed(ty) => Some(ty),
        TypePattern::Pointer(inner, mutable) => match known_type(*inner) {
            Some(ty) => Some(ResolvedType::Pointer { pointee: Rc::new(ty), mutable }),
            None => None,
        },
        TypePattern::Slice(inner, mutable) => match known_type(*inner) {
            Some(ty) => Some(ResolvedType::Slice { item: Rc::new(ty), mutable }),
            None => None,
        },
        TypePattern::Array(inner, mutable) => match known_type(*inner) {
            Some(ty) => Some(ResolvedType::Array(Rc::new(ty), mutable)),
            None => None,
        },
        TypePattern::SizedArray(inner, length) => match (
            known_type(*inner),
            length_of(*length, Seq::empty()),
        ) {
            (Some(ty), Some(size)) => Some(ResolvedType::SizedArray(Rc::new(ty), size)),
            _ => None,
        },
        _ => None,
    }
}

fn known(pattern: &TypePattern) -> (ty: Option<ResolvedType>)
    ensures
        ty == known_type(*pattern),
    decreases pattern,
{
    match pattern {
        TypePattern::Fixed(ty) => Some(ty.clone()),
        TypePattern::Pointer(inner, mutable) => match known(inner) {
            Some(ty) => Some(ResolvedType::Pointer { pointee: Rc::new(ty), mutable: *mutable }),
            None => None,
        },
        TypePattern::Slice(inner, mutable) => match known(inner) {
            Some(ty) => Some(ResolvedType::Slice { item: Rc::new(ty), mutable: *mutable }),
            None => None,
        },
        TypePattern::Array(inner, mutable) => match known(inner) {
            Some(ty) => Some(ResolvedType::Array(Rc::new(ty), *mutable)),
            None => None,
        },
        TypePattern::SizedArray(inner, length) => match (known(inner), known_length(length)) {
            (Some(ty), Some(size)) => Some(ResolvedType::SizedArray(Rc::new(ty), size)),
            _ => None,
        },
        _ => None,
    }
}

fn known_length(length: &ArgumentPattern) -> (size: Option<u32>)
    ensures
        size == length_of(*length, Seq::empty()),
{
    let unbound: Vec<Option<ResolvedGenericArg>> = Vec::new();
    assert(unbound@ =~= Seq::empty());
    length.length(&unbound)
}

/// The entries once the written type `raw` has met a pattern: as [`unified`],
/// where a hole of the pattern binds nothing.
pub open spec fn pattern_unified(
    generics: GenericParams<'_>,
    raw: Type,
    pattern: TypePattern,
    entries: Seq<(Seq<char>, ResolvedGenericArg)>,
) -> Seq<(Seq<char>, ResolvedGenericArg)>
    decreases raw, 0nat,
{
    if known_type(pattern) is Some {
        unified(generics, raw, known_type(pattern)->0, entries)
    } else {
        match raw {
            Type::Pointer(inner, _) => match pattern {
                TypePattern::Slice(item, _) => match *inner {
                    Type::InferredArray(elem) => pattern_unified(generics, *elem, *item, entries),
                    _ => entries,
                },
                TypePattern::Array(item, _) => match *inner {
                    Type::UnknownSizeArray(elem) => pattern_unified(
                        generics,
                        *elem,
                        *item,
                        entries,
                    ),
                    _ => entries,
                },
                TypePattern::Pointer(pointee, _) => pattern_unified(
                    generics,
                    *inner,
                    *pointee,
                    entries,
                ),
                _ => entries,
            },
            Type::SizedArray(inner, length) => match pattern {
                TypePattern::SizedArray(item, size) => pattern_unified(
                    generics,
                    *inner,
                    *item,
                    match length_of(*size, Seq::empty()) {
                        Some(n) => length_bound(generics, length, n, entries),
                        None => entries,
                    },
                ),
                _ => entries,
            },
            Type::Function(function) => match pattern {
                TypePattern::Function(params, result, _, _) => pattern_unified(
                    generics,
                    function.return_type,
                    *result,
                    patterns_unified(
                        generics,
                        function.params@,
                        params@,
                        shorter(function.params@.len(), params@.len()),
                        entries,
                    ),
                ),
                _ => entries,
            },
            Type::Generic(_, raw_args) => match pattern {
                TypePattern::Nominal(_, args) => arguments_unified(
                    generics,
                    raw_args@,
                    args@,
                    shorter(raw_args@.len(), args@.len()),
                    entries,
                ),
                _ => entries,
            },
            _ => entries,
        }
    }
}

/// [`pattern_unified`] for the first `n` parameters of a function type.
pub open spec fn patterns_unified(
    generics: GenericParams<'_>,
    raw: Seq<FunctionTypeParam>,
    patterns: Seq<TypePattern>,
    n: nat,
    entries: Seq<(Seq<char>, ResolvedGenericArg)>,
) -> Seq<(Seq<char>, ResolvedGenericArg)>
    decreases raw, n,
{
    if n == 0 || n > raw.len() {
        entries
    } else {
        pattern_unified(
            generics,
            raw[n - 1].ty,
            patterns[n - 1],
            patterns_unified(generics, raw, patterns, (n - 1) as nat, entries),
        )
    }
}

/// [`pattern_unified`] for the first `n` generic arguments.
pub open spec fn arguments_unified(
    generics: GenericParams<'_>,
    raw: Seq<GenericArg>,
    patterns: Seq<ArgumentPattern>,
    n: nat,
    entries: Seq<(Seq<char>, ResolvedGenericArg)>,
) -> Seq<(Seq<char>, ResolvedGenericArg)>
    decreases raw, n,
{
    if n == 0 || n > raw.len() {
        entries
    } else {
        let before = arguments_unified(generics, raw, patterns, (n - 1) as nat, entries);
        match raw[n - 1] {
            GenericArg::Type(ty) => match patterns[n - 1] {
                ArgumentPattern::Type(pattern) => pattern_unified(generics, ty, *pattern, before),
                ArgumentPattern::Value(value) => value_bound(generics, ty, value, before),
                ArgumentPattern::Parameter(_) => before,
            },
            GenericArg::Value(_) => before,
        }
    }
}

/// Binds generic parameters by matching the written type of a declaration
/// against an expected type that still has holes. A known part binds the
/// parameter it meets; a hole binds nothing.
pub fn unify_generic_pattern(
    generics: &GenericParams<'_>,
    raw: &Type,
    pattern: &TypePattern,
    subst: &mut GenericSubstitution,
)
    requires
        generics.valid(),
    ensures
        final(subst)@ == pattern_unified(*generics, *raw, *pattern, old(subst)@),
    decreases raw, 0nat,
{
    if let Some(concrete) = known(pattern) {
        unify_generic_type(generics, raw, &concrete, subst);
        return;
    }
    match raw {
        Type::Pointer(inner, _) => match pattern {
            TypePattern::Slice(item, _) => if let Type::InferredArray(elem) = &**inner {
                unify_generic_pattern(generics, elem, item, subst);
            },
            TypePattern::Array(item, _) => if let Type::UnknownSizeArray(elem) = &**inner {
                unify_generic_pattern(generics, elem, item, subst);
            },
            TypePattern::Pointer(pointee, _) => {
                unify_generic_pattern(generics, inner, pointee, subst);
            },
            _ => {},
        },
        Type::SizedArray(inner, length) => if let TypePattern::SizedArray(item, size) = pattern {
            if let Some(n) = known_length(size) {
                bind_length(generics, length, n, subst);
            }
            unify_generic_pattern(generics, inner, item, subst);
        },
        Type::Function(function) => if let TypePattern::Function(params, result, _, _) = pattern {
            unify_param_patterns(generics, &function.params, params, subst);
            unify_generic_pattern(generics, &function.return_type, result, subst);
        },
        Type::Generic(_, raw_args) => if let TypePattern::Nominal(_, args) = pattern {
            unify_argument_patterns(generics, raw_args, args, subst);
        },
        _ => {},
    }
}

fn unify_param_patterns(
    generics: &GenericParams<'_>,
    raw: &Vec<FunctionTypeParam>,
    patterns: &Vec<TypePattern>,
    subst: &mut GenericSubstitution,
)
    requires
        generics.valid(),
    ensures
        final(subst)@ == patterns_unified(
            *generics,
            raw@,
            patterns@,
            shorter(raw@.len(), patterns@.len()),
            old(subst)@,
        ),
    decreases raw, 0nat,
{
    let ghost before = subst@;
    let mut i: usize = 0;
    while i < raw.len() && i < patterns.len()
        invariant
            generics.valid(),
            i <= raw@.len(),
            i <= patterns@.len(),
            subst@ == patterns_unified(*generics, raw@, patterns@, i as nat, before),
        decreases raw.len() - i,
    {
        unify_generic_pattern(generics, &raw[i].ty, &patterns[i], subst);
        i = i + 1;
    }
}

fn unify_argument_patterns(
    generics: &GenericParams<'_>,
    raw: &Vec<GenericArg>,
    patterns: &Vec<ArgumentPattern>,
    subst: &mut GenericSubstitution,
)
    requires
        generics.valid(),
    ensures
        final(subst)@ == arguments_unified(
            *generics,
            raw@,
            patterns@,
            shorter(raw@.len(), patterns@.len()),
            old(subst)@,
        ),
    decreases raw, 0nat,
{
    let ghost before = subst@;
    let mut i: usize = 0;
    while i < raw.len() && i < patterns.len()
        invariant
            generics.valid(),
            i <= raw@.len(),
            i <= patterns@.len(),
            subst@ == arguments_unified(*generics, raw@, patterns@, i as nat, before),
        decreases raw.len() - i,
    {
        match &raw[i] {
            GenericArg::Type(ty) => match &patterns[i] {
                ArgumentPattern::Type(pattern) => {
                    unify_generic_pattern(generics, ty, pattern, subst);
                },
                ArgumentPattern::Value(value) => {
                    bind_value(generics, ty, value, subst);
                },
                ArgumentPattern::Parameter(_) => {},
            },
            GenericArg::Value(_) => {},
        }
        i = i + 1;
    }
}

/// Unification only adds bindings: every name bound before keeps its first
/// binding, and the entries there were stay in place.
pub proof fn law_unification_only_adds_bindings(
    generics: GenericParams<'_>,
    raw: &Type,
    concrete: &ResolvedType,
    before: Seq<(Seq<char>, ResolvedGenericArg)>,
)
    ensures
        extends_bindings(before, unified(generics, *raw, *concrete, before)),
{
    assert(before.take(before.len() as int) =~= before);
    lemma_unified_extends(generics, raw, concrete, before, before);
}

proof fn lemma_unified_extends(
    generics: GenericParams<'_>,
    raw: &Type,
    concrete: &ResolvedType,
    before: Seq<(Seq<char>, ResolvedGenericArg)>,
    entries: Seq<(Seq<char>, ResolvedGenericArg)>,
)
    requires
        extends_bindings(before, entries),
    ensures
        extends_bindings(before, unified(generics, *raw, *concrete, entries)),
    decreases *raw, 0nat,
{
    match raw {
        Type::Named(path) => {
            lemma_extends_once(before, entries, path.head@, ResolvedGenericArg::Type(*concrete));
        },
        Type::Pointer(inner, _) => match concrete {
            ResolvedType::Slice { item, .. } => match &**inner {
                Type::InferredArray(elem) => {
                    lemma_unified_extends(generics, elem, item, before, entries);
                },
                _ => {},
            },
            ResolvedType::Array(item, _) => match &**inner {
                Type::UnknownSizeArray(elem) => {
                    lemma_unified_extends(generics, elem, item, before, entries);
                },
                _ => {},
            },
            ResolvedType::Pointer { pointee, .. } => {
                lemma_unified_extends(generics, inner, pointee, before, entries);
            },
            _ => {},
        },
        Type::SizedArray(inner, length) => match concrete {
            ResolvedType::SizedArray(item, size) => {
                lemma_length_extends(generics, length, *size, before, entries);
                lemma_unified_extends(
                    generics,
                    inner,
                    item,
                    before,
                    length_bound(generics, *length, *size, entries),
                );
            },
            _ => {},
        },
        Type::Function(function) => match concrete {
            ResolvedType::Function(found) => {
                let n = shorter(function.params@.len(), found.params@.len());
                lemma_params_extend(
                    generics,
                    function.params@,
                    found.params@,
                    n,
                    before,
                    entries,
                );
                lemma_unified_extends(
                    generics,
                    &function.return_type,
                    &found.return_type,
                    before,
                    unified_params(generics, function.params@, found.params@, n, entries),
                );
            },
            _ => {},
        },
        Type::Generic(_, raw_args) => match owner_args(*concrete) {
            Some(found) => {
                lemma_args_extend(
                    generics,
                    raw_args@,
                    found,
                    shorter(raw_args@.len(), found.len()),
                    before,
                    entries,
                );
            },
            None => {},
        },
        _ => {},
    }
}

proof fn lemma_length_extends(
    generics: GenericParams<'_>,
    length: &ArrayLength,
    size: u32,
    before: Seq<(Seq<char>, ResolvedGenericArg)>,
    entries: Seq<(Seq<char>, ResolvedGenericArg)>,
)
    requires
        extends_bindings(before, entries),
    ensures
        extends_bindings(before, length_bound(generics, *length, size, entries)),
{
    match length {
        ArrayLength::Path(path) => match generics.length_value(path.head@, size) {
            Some(arg) => lemma_extends_once(before, entries, path.head@, arg),
            None => {},
        },
        _ => {},
    }
}

proof fn lemma_params_extend(
    generics: GenericParams<'_>,
    raw: Seq<FunctionTypeParam>,
    found: Seq<ResolvedFunctionParam>,
    n: nat,
    before: Seq<(Seq<char>, ResolvedGenericArg)>,
    entries: Seq<(Seq<char>, ResolvedGenericArg)>,
)
    requires
        extends_bindings(before, entries),
    ensures
        extends_bindings(before, unified_params(generics, raw, found, n, entries)),
    decreases raw, n,
{
    if 0 < n <= raw.len() {
        lemma_params_extend(generics, raw, found, (n - 1) as nat, before, entries);
        lemma_unified_extends(
            generics,
            &raw[n - 1].ty,
            &found[n - 1].ty,
            before,
            unified_params(generics, raw, found, (n - 1) as nat, entries),
        );
    }
}

proof fn lemma_args_extend(
    generics: GenericParams<'_>,
    raw: Seq<GenericArg>,
    found: Seq<ResolvedGenericArg>,
    n: nat,
    before: Seq<(Seq<char>, ResolvedGenericArg)>,
    entries: Seq<(Seq<char>, ResolvedGenericArg)>,
)
    requires
        extends_bindings(before, entries),
    ensures
        extends_bindings(before, unified_args(generics, raw, found, n, entries)),
    decreases raw, n,
{
    if 0 < n <= raw.len() {
        lemma_args_extend(generics, raw, found, (n - 1) as nat, before, entries);
        let inner = unified_args(generics, raw, found, (n - 1) as nat, entries);
        match &raw[n - 1] {
            GenericArg::Type(ty) => match &found[n - 1] {
                ResolvedGenericArg::Type(concrete) => {
                    lemma_unified_extends(generics, ty, concrete, before, inner);
                },
                ResolvedGenericArg::Comp(value) => match ty {
                    Type::Named(path) => {
                        lemma_extends_once(
                            before,
                            inner,
                            path.head@,
                            ResolvedGenericArg::Comp(*value),
                        );
                    },
                    _ => {},
                },
            },
            GenericArg::Value(_) => {},
        }
    }
}

/// How many leading parameters are bound.
pub open spec fn bound_prefix(
    params: Seq<HirGenericParam>,
    entries: Seq<(Seq<char>, ResolvedGenericArg)>,
    from: int,
) -> int
    decreases params.len() - from,
{
    if from < 0 || from >= params.len() || lookup(entries, params[from].ident@) is None {
        from
    } else {
        bound_prefix(params, entries, from + 1)
    }
}

/// The argument list an inference pass produced, in declaration order.
/// Trailing parameters that stayed unbound are left off so the instantiation
/// site fills them from their own defaults; an unbound parameter without a
/// default is reported by name.
pub fn resolve_inferred_generic_args(
    generics: &GenericParams<'_>,
    subst: &GenericSubstitution,
) -> (args: Result<Vec<ResolvedGenericArg>, Ident>)
    ensures
        ({
            let n = bound_prefix(generics.params@, subst@, 0);
            match args {
                Ok(list) => {
                    &&& n == generics.params@.len() || generics.params@[n].default is Some
                    &&& list@.len() == n
                    &&& forall|i: int|
                        0 <= i < n ==> Some(#[trigger] list@[i]) == match lookup(
                            subst@,
                            generics.params@[i].ident@,
                        ) {
                            Some(arg) => Some(arg.without_refinement()),
                            None => None,
                        }
                },
                Err(name) => {
                    &&& n < generics.params@.len()
                    &&& generics.params@[n].default is None
                    &&& name == generics.params@[n].ident
                },
            }
        }),
{
    let mut args: Vec<ResolvedGenericArg> = Vec::new();
    let mut i: usize = 0;
    while i < generics.params.len()
        invariant
            i <= generics.params@.len(),
            args@.len() == i,
            bound_prefix(generics.params@, subst@, 0) == bound_prefix(
                generics.params@,
                subst@,
                i as int,
            ),
            forall|k: int|
                0 <= k < i ==> Some(#[trigger] args@[k]) == match lookup(
                    subst@,
                    generics.params@[k].ident@,
                ) {
                    Some(arg) => Some(arg.without_refinement()),
                    None => None,
                },
        decreases generics.params.len() - i,
    {
        let param = &generics.params[i];
        match subst.get(&param.ident) {
            Some(arg) => {
                args.push(arg.widened());
            },
            None => {
                if param.default.is_some() {
                    return Ok(args);
                }
                return Err(param.ident.clone());
            },
        }
        i = i + 1;
    }
    Ok(args)
}

/// Whether a default is written as the kind its declaration binds. A bare
/// path is legal for either kind; its meaning follows the parameter, exactly
/// as at a use site.
pub open spec fn default_fits(param: HirGenericParam) -> bool {
    match param.default {
        None => true,
        Some(GenericArg::Type(ty)) => ty is Named || !param.comp(),
        Some(GenericArg::Value(_)) => param.comp(),
    }
}

/// Whether `param`'s default is written as the kind its declaration binds.
pub fn default_matches_kind(param: &HirGenericParam) -> (r: bool)
    ensures
        r == default_fits(*param),
{
    match (&param.kind, &param.default) {
        (_, None) => true,
        (_, Some(GenericArg::Type(Type::Named(_)))) => true,
        (GenericParamKind::Type { .. }, Some(GenericArg::Type(_))) => true,
        (GenericParamKind::Comp { .. }, Some(GenericArg::Value(_))) => true,
        _ => false,
    }
}

/// The name of the anonymous generic a static spec parameter becomes.
pub open spec fn fresh_name(index: nat) -> Seq<char> {
    "$Param"@ + decimal(index)
}

/// The positions below `n` whose written type is a static spec, in order.
pub open spec fn static_positions(expanded: Seq<Type>, n: nat) -> Seq<int>
    decreases n,
{
    if n == 0 || n > expanded.len() {
        Seq::empty()
    } else if expanded[n - 1] is SpecStatic {
        static_positions(expanded, (n - 1) as nat).push(n - 1)
    } else {
        static_positions(expanded, (n - 1) as nat)
    }
}

/// Whether a generic parameter stands for the static spec at `index`.
pub open spec fn stands_for_spec(param: HirGenericParam, index: int, written: Type) -> bool {
    &&& param.ident@ == fresh_name(index as nat)
    &&& param.default is None
    &&& written is SpecStatic
    &&& param.kind == (GenericParamKind::Type { bounds: written->SpecStatic_0 })
}

/// Whether a written type names exactly `name`.
pub open spec fn names_alone(ty: Type, name: Seq<char>) -> bool {
    match ty {
        Type::Named(path) => path.unqualified() && path.head@ == name,
        _ => false,
    }
}

/// Whether `normalized` is the parameter at `index` of a declaration whose
/// parameter there was `declared`, written as `expanded`.
pub open spec fn normalized_param(
    normalized: HirParam,
    declared: HirParam,
    expanded: Type,
    index: nat,
) -> bool {
    &&& normalized.ident == declared.ident
    &&& if expanded is SpecStatic {
        names_alone(normalized.ty, fresh_name(index))
    } else {
        normalized.ty == declared.ty
    }
}

/// Rewrites each outermost static `spec ...` parameter into the anonymous
/// bounded generic the rest of the compiler already understands. `expanded`
/// holds each parameter's type after its aliases are expanded, so that
/// `f(x: spec A + B)` and `f(x: AB)` normalize identically. Only a
/// parameter's outermost type participates: `*spec A + B` is a dynamic
/// object, and a spec buried in an array, generic argument, or function type
/// is not a parameter bound at all.
///
/// This is the one place the rule lives; every query that reports a function's
/// generics, signature, or body works from the result.
pub fn normalize_static_spec_params(f: &HirFunctionDef, expanded: &Vec<Type>) -> (normalized:
    HirFunctionDef)
    requires
        expanded@.len() == f.params@.len(),
    ensures
        normalized.id == f.id,
        normalized.ident == f.ident,
        normalized.return_type == f.return_type,
        ({
            let found = static_positions(expanded@, expanded@.len());
            let old_len = f.generics@.len() as int;
            &&& normalized.generics@.len() == old_len + found.len()
            &&& normalized.generics@.take(old_len) == f.generics@
            &&& forall|k: int|
                0 <= k < found.len() ==> stands_for_spec(
                    #[trigger] normalized.generics@[old_len + k],
                    found[k],
                    expanded@[found[k]],
                )
        }),
        normalized.params@.len() == f.params@.len(),
        forall|i: int|
            0 <= i < f.params@.len() ==> normalized_param(
                #[trigger] normalized.params@[i],
                f.params@[i],
                expanded@[i],
                i as nat,
            ),
{
    let mut generics: Vec<HirGenericParam> = Vec::new();
    let mut i: usize = 0;
    while i < f.generics.len()
        invariant
            i <= f.generics@.len(),
            generics@ =~= f.generics@.take(i as int),
        decreases f.generics.len() - i,
    {
        generics.push(f.generics[i].clone());
        i = i + 1;
    }
    let ghost old_len = f.generics@.len() as int;
    let mut params: Vec<HirParam> = Vec::new();
    let mut index: usize = 0;
    while index < f.params.len()
        invariant
            index <= f.params@.len() == expanded@.len(),
            old_len == f.generics@.len(),
            generics@.len() == old_len + static_positions(expanded@, index as nat).len(),
            generics@.take(old_len) =~= f.generics@,
            forall|k: int|
                0 <= k < static_positions(expanded@, index as nat).len() ==> stands_for_spec(
                    #[trigger] generics@[old_len + k],
                    static_positions(expanded@, index as nat)[k],
                    expanded@[static_positions(expanded@, index as nat)[k]],
                ),
            params@.len() == index,
            forall|k: int|
                0 <= k < index ==> normalized_param(
                    #[trigger] params@[k],
                    f.params@[k],
                    expanded@[k],
                    k as nat,
                ),
        decreases f.params.len() - index,
    {
        let param = &f.params[index];
        let ghost before = generics@;
        let ghost found = static_positions(expanded@, index as nat);
        match &expanded[index] {
            Type::SpecStatic(members) => {
                let mut name: String = "$Param".to_owned();
                name.append(decimal_text(index as u128).as_str());
                let fresh = Ident(name);
                generics.push(
                    HirGenericParam {
                        ident: fresh.clone(),
                        kind: GenericParamKind::Type { bounds: share(members) },
                        default: None,
                    },
                );
                params.push(
                    HirParam {
                        ident: param.ident.clone(),
                        ty: Type::Named(Rc::new(Path::from_ident(fresh))),
                    },
                );
                assert(static_positions(expanded@, (index + 1) as nat) =~= found.push(
                    index as int,
                ));
                assert(stands_for_spec(
                    generics@[old_len + found.len()],
                    index as int,
                    expanded@[index as int],
                ));
                assert forall|k: int|
                    0 <= k < found.len() + 1 implies stands_for_spec(
                    #[trigger] generics@[old_len + k],
                    found.push(index as int)[k],
                    expanded@[found.push(index as int)[k]],
                ) by {
                    if k < found.len() {
                        assert(generics@[old_len + k] == before[old_len + k]);
                    }
                }
                assert(generics@.take(old_len) =~= before.take(old_len));
            },
            _ => {
                params.push(param.clone());
            },
        }
        index = index + 1;
    }
    HirFunctionDef {
        id: f.id,
        ident: f.ident.clone(),
        generics,
        params,
        return_type: f.return_type.clone(),
    }
}

} // verus!
