//! Structural keys and type identity agree.
//!
//! A key is compared without looking at `HirId`s and identity is decided by
//! them, so the two can only agree among declarations that carry distinct
//! names. [`Declarations`] states which name each declaration carries.

use crate::hir::HirId;
use crate::resolved_type::{
    CompScalar, ResolvedFunctionParam, ResolvedFunctionType, ResolvedGenericArg,
    ResolvedSpecApplication, ResolvedType,
};
use crate::syntax::Ident;
use crate::text::{decimal, decimal_int, is_digit, lemma_decimal_digits, lemma_decimal_injective};
use crate::type_eq::{
    same_application, same_applications, same_arg, same_args, same_function, same_params,
    same_type, same_types,
};
use crate::type_key::{
    application_items, application_key, arg_items, arg_key, args_key, convention_key,
    function_key, mutability_key, nominal_key, param_items, path_key, receiver_key, scalar_text,
    scalar_type_key, type_items, type_key, variant_key,
};
use vstd::prelude::*;

verus! {

/// The name every declaration of a compilation carries: its kind, module
/// path, spelling, and generic arguments.
pub struct Declarations {
    pub types: Map<HirId, Seq<char>>,
    pub specs: Map<HirId, Seq<char>>,
}

impl Declarations {
    /// Whether no two declarations carry one name.
    pub open spec fn distinct(self) -> bool {
        &&& forall|i: HirId, j: HirId|
            self.types.contains_key(i) && self.types.contains_key(j) && #[trigger] self.types[i]
                == #[trigger] self.types[j] ==> i == j
        &&& forall|i: HirId, j: HirId|
            self.specs.contains_key(i) && self.specs.contains_key(j) && #[trigger] self.specs[i]
                == #[trigger] self.specs[j] ==> i == j
    }

    /// Whether the type declaration `id` carries this name.
    pub open spec fn names_type(
        self,
        id: HirId,
        tag: char,
        module: Seq<Ident>,
        name: Seq<char>,
        args: Seq<ResolvedGenericArg>,
    ) -> bool {
        self.types.contains_key(id) && self.types[id] == nominal_key(tag, module, name) + args_key(
            args,
        )
    }
}

/// Whether a declaration's path is made of identifiers, none of which holds
/// the character that opens an argument list.
pub open spec fn plain_path(module: Seq<Ident>, name: Seq<char>) -> bool {
    !name.contains('<') && forall|i: int| 0 <= i < module.len() ==> !(#[trigger] module[i])@.contains('<')
}

/// Whether every declaration that `ty` mentions carries the name `all` gives
/// it.
pub open spec fn coherent(all: Declarations, ty: ResolvedType) -> bool
    decreases ty, 0int,
{
    match ty {
        ResolvedType::Pointer { pointee, .. } => coherent(all, *pointee),
        ResolvedType::Array(item, _) => coherent(all, *item),
        ResolvedType::SizedArray(item, _) => coherent(all, *item),
        ResolvedType::Slice { item, .. } => coherent(all, *item),
        ResolvedType::Function(function) => coherent_function(all, *function),
        ResolvedType::Struct(cell) => all.names_type(
            cell.id,
            'S',
            cell.module@,
            cell.name@,
            cell.generic_args@,
        ) && plain_path(cell.module@, cell.name@) && coherent_args(all, cell.generic_args@),
        ResolvedType::Union(cell) => all.names_type(
            cell.id,
            'U',
            cell.module@,
            cell.name@,
            cell.generic_args@,
        ) && plain_path(cell.module@, cell.name@) && coherent_args(all, cell.generic_args@),
        ResolvedType::Enum { cell, .. } => all.names_type(
            cell.id,
            'E',
            cell.module@,
            cell.name@,
            cell.generic_args@,
        ) && plain_path(cell.module@, cell.name@) && coherent_args(all, cell.generic_args@),
        ResolvedType::Spec(cell) => all.names_type(
            cell.id,
            'P',
            cell.module@,
            cell.name@,
            cell.generic_args@,
        ) && plain_path(cell.module@, cell.name@) && coherent_args(all, cell.generic_args@),
        ResolvedType::SpecObject { shape, .. } => forall|i: int|
            0 <= i < shape.members@.len() ==> coherent_application(all, #[trigger] shape.members@[i]),
        ResolvedType::AnonymousEnum { shape, .. } => forall|i: int|
            0 <= i < shape.members@.len() ==> coherent(all, #[trigger] shape.members@[i]),
        _ => true,
    }
}

/// [`coherent`] for a function type.
pub open spec fn coherent_function(all: Declarations, function: ResolvedFunctionType) -> bool
    decreases function, 0int,
{
    &&& forall|i: int|
        0 <= i < function.params@.len() ==> coherent(all, #[trigger] function.params@[i].ty)
    &&& coherent(all, *function.return_type)
}

/// [`coherent`] for one generic argument.
pub open spec fn coherent_arg(all: Declarations, arg: ResolvedGenericArg) -> bool
    decreases arg, 0int,
{
    match arg {
        ResolvedGenericArg::Type(ty) => coherent(all, ty),
        ResolvedGenericArg::Comp(_) => true,
    }
}

/// [`coherent`] for generic arguments.
pub open spec fn coherent_args(all: Declarations, args: Seq<ResolvedGenericArg>) -> bool
    decreases args, 0int,
{
    forall|i: int| 0 <= i < args.len() ==> coherent_arg(all, #[trigger] args[i])
}

/// [`coherent`] for a spec application.
pub open spec fn coherent_application(
    all: Declarations,
    application: ResolvedSpecApplication,
) -> bool
    decreases application, 0int,
{
    &&& all.specs.contains_key(application.spec.id)
    &&& all.specs[application.spec.id] == nominal_key(
        'P',
        application.spec.module@,
        application.spec.name@,
    )
    &&& plain_path(application.spec.module@, application.spec.name@)
    &&& coherent_args(all, application.spec_args@)
}

/// Whether what follows a key cannot be read as more digits of it.
pub open spec fn closes(rest: Seq<char>) -> bool {
    rest.len() == 0 || !is_digit(rest[0])
}

proof fn lemma_cancel(u: Seq<char>, v: Seq<char>, x: Seq<char>, y: Seq<char>)
    requires
        u + x == v + y,
        u.len() == v.len(),
    ensures
        u == v,
        x == y,
{
    let s = u + x;
    let t = v + y;
    assert(s.take(u.len() as int) =~= u);
    assert(t.take(v.len() as int) =~= v);
    assert(s.skip(u.len() as int) =~= x);
    assert(t.skip(v.len() as int) =~= y);
}

proof fn lemma_until(u: Seq<char>, v: Seq<char>, stop: char, x: Seq<char>, y: Seq<char>)
    requires
        !u.contains(stop),
        !v.contains(stop),
        u + seq![stop] + x == v + seq![stop] + y,
    ensures
        u == v,
        x == y,
{
    let s = u + seq![stop] + x;
    let t = v + seq![stop] + y;
    if u.len() < v.len() {
        assert(s[u.len() as int] == stop);
        assert(t[u.len() as int] == v[u.len() as int]);
        assert(v.contains(stop));
    } else if v.len() < u.len() {
        assert(t[v.len() as int] == stop);
        assert(s[v.len() as int] == u[v.len() as int]);
        assert(u.contains(stop));
    }
    lemma_cancel(u + seq![stop], v + seq![stop], x, y);
    assert((u + seq![stop]).drop_last() =~= u);
    assert((v + seq![stop]).drop_last() =~= v);
}

proof fn lemma_digits_prefix(a: nat, b: nat, x: Seq<char>, y: Seq<char>)
    requires
        decimal(a) + x == decimal(b) + y,
        closes(x),
        closes(y),
    ensures
        a == b,
        x == y,
{
    let u = decimal(a);
    let v = decimal(b);
    lemma_decimal_digits(a);
    lemma_decimal_digits(b);
    let s = u + x;
    let t = v + y;
    if u.len() < v.len() {
        assert(t[u.len() as int] == v[u.len() as int]);
        assert(s.len() == t.len());
        assert(s[u.len() as int] == x[0]);
    } else if v.len() < u.len() {
        assert(s[v.len() as int] == u[v.len() as int]);
        assert(s.len() == t.len());
        assert(t[v.len() as int] == y[0]);
    }
    lemma_cancel(u, v, x, y);
    lemma_decimal_injective(a, b);
}

spec fn key_of(ty: &ResolvedType) -> Seq<char> {
    type_key(*ty)
}

/// The first character of a type's key.
spec fn lead(ty: ResolvedType) -> char {
    match ty {
        ResolvedType::Void | ResolvedType::Never | ResolvedType::Bool | ResolvedType::Char => 'v',
        ResolvedType::I8
        | ResolvedType::I16
        | ResolvedType::I32
        | ResolvedType::I64
        | ResolvedType::ISize => 'i',
        ResolvedType::U8
        | ResolvedType::U16
        | ResolvedType::U32
        | ResolvedType::U64
        | ResolvedType::USize => 'u',
        ResolvedType::F32 | ResolvedType::F64 => 'f',
        ResolvedType::Pointer { .. } => 'p',
        ResolvedType::Array(_, _) => 'a',
        ResolvedType::Slice { .. } => 'l',
        ResolvedType::Str { .. } => 's',
        ResolvedType::SizedArray(_, _) => 'r',
        ResolvedType::Function(_) => 'F',
        ResolvedType::Struct(_) => 'S',
        ResolvedType::Union(_) => 'U',
        ResolvedType::Enum { .. } => 'E',
        ResolvedType::Spec(_) => 'P',
        ResolvedType::SpecObject { .. } => 'O',
        ResolvedType::AnonymousEnum { .. } => 'A',
    }
}

/// Whether a character can start neither a type's key nor an argument's.
spec fn terminator(c: char) -> bool {
    c == ']' || c == ')' || c == '>'
}

proof fn lemma_lead(ty: ResolvedType)
    ensures
        type_key(ty).len() >= 1,
        type_key(ty)[0] == lead(ty),
        !terminator(lead(ty)),
        lead(ty) != '=',
{
    if let ResolvedType::Function(function) = ty {
        assert(function_key(*function)[0] == 'F');
    }
}

proof fn lemma_nominal_plain(tag: char, module: Seq<Ident>, name: Seq<char>)
    requires
        plain_path(module, name),
        tag != '<',
    ensures
        !nominal_key(tag, module, name).contains('<'),
{
    lemma_path_plain(module);
    let key = nominal_key(tag, module, name);
    let path = path_key(module);
    assert forall|i: int| 0 <= i < key.len() implies key[i] != '<' by {
        if i == 0 {
        } else if i < 1 + path.len() {
            assert(key[i] == path[i - 1]);
            assert(path.contains(path[i - 1]));
        } else {
            assert(key[i] == name[i - 1 - path.len()]);
            assert(name.contains(name[i - 1 - path.len()]));
        }
    }
}

proof fn lemma_path_plain(module: Seq<Ident>)
    requires
        forall|i: int| 0 <= i < module.len() ==> !(#[trigger] module[i])@.contains('<'),
    ensures
        !path_key(module).contains('<'),
    decreases module.len(),
{
    if module.len() > 0 {
        let rest = module.drop_first();
        assert forall|i: int| 0 <= i < rest.len() implies !(#[trigger] rest[i])@.contains('<') by {
            assert(!module[i + 1]@.contains('<'));
        }
        lemma_path_plain(rest);
        let key = path_key(module);
        let first = module[0]@;
        assert forall|i: int| 0 <= i < key.len() implies key[i] != '<' by {
            if i < first.len() {
                assert(first.contains(first[i]));
            } else if i > first.len() {
                let tail = path_key(rest);
                assert(key[i] == tail[i - first.len() - 1]);
                assert(tail.contains(tail[i - first.len() - 1]));
            }
        }
    }
}

/// No type's key is the start of another's: two keys followed by anything
/// that is not a digit can only agree as a whole.
proof fn lemma_type_prefix(
    all: Declarations,
    a: &ResolvedType,
    b: &ResolvedType,
    x: Seq<char>,
    y: Seq<char>,
)
    requires
        coherent(all, *a),
        coherent(all, *b),
        closes(x),
        closes(y),
        type_key(*a) + x == type_key(*b) + y,
    ensures
        type_key(*a) == type_key(*b),
        x == y,
    decreases a, 0int,
{
    let s = type_key(*a) + x;
    let t = type_key(*b) + y;
    lemma_lead(*a);
    lemma_lead(*b);
    assert(s[0] == lead(*a) && t[0] == lead(*b));
    match a {
        ResolvedType::Pointer { pointee: p, mutable: m } => match b {
            ResolvedType::Pointer { pointee: q, mutable: n } => {
                lemma_wrapped_prefix(all, a, b, &**p, &**q, *m, *n, x, y);
            },
            _ => {},
        },
        ResolvedType::Array(p, m) => match b {
            ResolvedType::Array(q, n) => {
                lemma_wrapped_prefix(all, a, b, &**p, &**q, *m, *n, x, y);
            },
            _ => {},
        },
        ResolvedType::Slice { item: p, mutable: m } => match b {
            ResolvedType::Slice { item: q, mutable: n } => {
                lemma_wrapped_prefix(all, a, b, &**p, &**q, *m, *n, x, y);
            },
            _ => {},
        },
        ResolvedType::SizedArray(p, m) => match b {
            ResolvedType::SizedArray(q, n) => {
                lemma_sized_prefix(all, &**p, &**q, *m, *n, x, y);
            },
            _ => {},
        },
        ResolvedType::Function(f) => match b {
            ResolvedType::Function(g) => {
                lemma_function_prefix(all, &**f, &**g, x, y);
            },
            _ => {},
        },
        ResolvedType::Struct(c) => match b {
            ResolvedType::Struct(d) => {
                lemma_nominal_prefix(
                    all,
                    'S',
                    c.module@,
                    c.name@,
                    c.generic_args@,
                    d.module@,
                    d.name@,
                    d.generic_args@,
                    x,
                    y,
                );
            },
            _ => {},
        },
        ResolvedType::Union(c) => match b {
            ResolvedType::Union(d) => {
                lemma_nominal_prefix(
                    all,
                    'U',
                    c.module@,
                    c.name@,
                    c.generic_args@,
                    d.module@,
                    d.name@,
                    d.generic_args@,
                    x,
                    y,
                );
            },
            _ => {},
        },
        ResolvedType::Spec(c) => match b {
            ResolvedType::Spec(d) => {
                lemma_nominal_prefix(
                    all,
                    'P',
                    c.module@,
                    c.name@,
                    c.generic_args@,
                    d.module@,
                    d.name@,
                    d.generic_args@,
                    x,
                    y,
                );
            },
            _ => {},
        },
        ResolvedType::Enum { cell: c, variant: v } => match b {
            ResolvedType::Enum { cell: d, variant: w } => {
                lemma_enum_prefix(
                    all,
                    c.module@,
                    c.name@,
                    c.generic_args@,
                    *v,
                    d.module@,
                    d.name@,
                    d.generic_args@,
                    *w,
                    x,
                    y,
                );
            },
            _ => {},
        },
        ResolvedType::SpecObject { shape: c, mutable: m } => match b {
            ResolvedType::SpecObject { shape: d, mutable: n } => {
                lemma_object_prefix(all, c.members@, *m, d.members@, *n, x, y);
            },
            _ => {},
        },
        ResolvedType::AnonymousEnum { shape: c, variant: v } => match b {
            ResolvedType::AnonymousEnum { shape: d, variant: w } => {
                lemma_anonymous_prefix(all, c.members@, *v, d.members@, *w, x, y);
            },
            _ => {},
        },
        _ => {
            assert(type_key(*a).len() == 2);
            assert(type_key(*b).len() == 2);
            lemma_cancel(type_key(*a), type_key(*b), x, y);
        },
    }
}

proof fn lemma_sized_prefix(
    all: Declarations,
    p: &ResolvedType,
    q: &ResolvedType,
    m: u32,
    n: u32,
    x: Seq<char>,
    y: Seq<char>,
)
    requires
        coherent(all, *p),
        coherent(all, *q),
        closes(x),
        closes(y),
        seq!['r'] + decimal(m as nat) + seq![':'] + type_key(*p) + x == seq!['r'] + decimal(
            n as nat,
        ) + seq![':'] + type_key(*q) + y,
    ensures
        m == n,
        type_key(*p) == type_key(*q),
        x == y,
    decreases p, 1int,
{
    let s = seq!['r'] + decimal(m as nat) + seq![':'] + type_key(*p) + x;
    let t = seq!['r'] + decimal(n as nat) + seq![':'] + type_key(*q) + y;
    let u = seq![':'] + type_key(*p) + x;
    let v = seq![':'] + type_key(*q) + y;
    assert(s.skip(1) =~= decimal(m as nat) + u);
    assert(t.skip(1) =~= decimal(n as nat) + v);
    lemma_digits_prefix(m as nat, n as nat, u, v);
    assert(u.skip(1) =~= type_key(*p) + x);
    assert(v.skip(1) =~= type_key(*q) + y);
    lemma_type_prefix(all, p, q, x, y);
}

proof fn lemma_enum_prefix(
    all: Declarations,
    m: Seq<Ident>,
    n: Seq<char>,
    a: Seq<ResolvedGenericArg>,
    v: Option<usize>,
    k: Seq<Ident>,
    l: Seq<char>,
    b: Seq<ResolvedGenericArg>,
    w: Option<usize>,
    x: Seq<char>,
    y: Seq<char>,
)
    requires
        plain_path(m, n),
        plain_path(k, l),
        coherent_args(all, a),
        coherent_args(all, b),
        closes(x),
        closes(y),
        nominal_key('E', m, n) + args_key(a) + variant_key(v) + x == nominal_key('E', k, l)
            + args_key(b) + variant_key(w) + y,
    ensures
        nominal_key('E', m, n) == nominal_key('E', k, l),
        args_key(a) == args_key(b),
        v == w,
        x == y,
    decreases a, 2int,
{
    let head = nominal_key('E', m, n) + args_key(a);
    let other = nominal_key('E', k, l) + args_key(b);
    assert(head + variant_key(v) + x =~= head + (variant_key(v) + x));
    assert(other + variant_key(w) + y =~= other + (variant_key(w) + y));
    lemma_nominal_prefix(
        all,
        'E',
        m,
        n,
        a,
        k,
        l,
        b,
        variant_key(v) + x,
        variant_key(w) + y,
    );
    lemma_variant_prefix(v, w, x, y);
}

proof fn lemma_object_prefix(
    all: Declarations,
    a: Seq<ResolvedSpecApplication>,
    m: bool,
    b: Seq<ResolvedSpecApplication>,
    n: bool,
    x: Seq<char>,
    y: Seq<char>,
)
    requires
        forall|i: int| 0 <= i < a.len() ==> coherent_application(all, #[trigger] a[i]),
        forall|i: int| 0 <= i < b.len() ==> coherent_application(all, #[trigger] b[i]),
        seq!['O'] + mutability_key(m) + seq!['['] + application_items(a) + seq![']'] + x
            == seq!['O'] + mutability_key(n) + seq!['['] + application_items(b) + seq![']'] + y,
    ensures
        m == n,
        application_items(a) == application_items(b),
        x == y,
    decreases a, 3int,
{
    let s = seq!['O'] + mutability_key(m) + seq!['['] + application_items(a) + seq![']'] + x;
    let t = seq!['O'] + mutability_key(n) + seq!['['] + application_items(b) + seq![']'] + y;
    assert(s[1] == mutability_key(m)[0]);
    assert(t[1] == mutability_key(n)[0]);
    assert(s.skip(3) =~= application_items(a) + seq![']'] + x);
    assert(t.skip(3) =~= application_items(b) + seq![']'] + y);
    lemma_application_items_prefix(all, a, b, x, y);
}

proof fn lemma_anonymous_prefix(
    all: Declarations,
    a: Seq<ResolvedType>,
    v: Option<usize>,
    b: Seq<ResolvedType>,
    w: Option<usize>,
    x: Seq<char>,
    y: Seq<char>,
)
    requires
        forall|i: int| 0 <= i < a.len() ==> coherent(all, #[trigger] a[i]),
        forall|i: int| 0 <= i < b.len() ==> coherent(all, #[trigger] b[i]),
        closes(x),
        closes(y),
        seq!['A', '['] + type_items(a) + seq![']'] + variant_key(v) + x == seq!['A', '[']
            + type_items(b) + seq![']'] + variant_key(w) + y,
    ensures
        type_items(a) == type_items(b),
        v == w,
        x == y,
    decreases a, 3int,
{
    let s = seq!['A', '['] + type_items(a) + seq![']'] + variant_key(v) + x;
    let t = seq!['A', '['] + type_items(b) + seq![']'] + variant_key(w) + y;
    assert(s.skip(2) =~= type_items(a) + seq![']'] + (variant_key(v) + x));
    assert(t.skip(2) =~= type_items(b) + seq![']'] + (variant_key(w) + y));
    lemma_type_items_prefix(all, a, b, ']', variant_key(v) + x, variant_key(w) + y);
    lemma_variant_prefix(v, w, x, y);
}

proof fn lemma_wrapped_prefix(
    all: Declarations,
    a: &ResolvedType,
    b: &ResolvedType,
    p: &ResolvedType,
    q: &ResolvedType,
    m: bool,
    n: bool,
    x: Seq<char>,
    y: Seq<char>,
)
    requires
        coherent(all, *p),
        coherent(all, *q),
        closes(x),
        closes(y),
        type_key(*a) == seq![lead(*a)] + mutability_key(m) + type_key(*p),
        type_key(*b) == seq![lead(*b)] + mutability_key(n) + type_key(*q),
        type_key(*a) + x == type_key(*b) + y,
    ensures
        type_key(*p) == type_key(*q),
        m == n,
        x == y,
    decreases p, 1int,
{
    let s = type_key(*a) + x;
    let t = type_key(*b) + y;
    assert(s[1] == mutability_key(m)[0]);
    assert(t[1] == mutability_key(n)[0]);
    assert(s.skip(2) =~= type_key(*p) + x);
    assert(t.skip(2) =~= type_key(*q) + y);
    lemma_type_prefix(all, p, q, x, y);
}

proof fn lemma_variant_prefix(v: Option<usize>, w: Option<usize>, x: Seq<char>, y: Seq<char>)
    requires
        variant_key(v) + x == variant_key(w) + y,
        closes(x),
        closes(y),
    ensures
        v == w,
        x == y,
{
    let s = variant_key(v) + x;
    let t = variant_key(w) + y;
    assert(s[0] == variant_key(v)[0]);
    assert(t[0] == variant_key(w)[0]);
    match (v, w) {
        (Some(i), Some(j)) => {
            assert(s.skip(1) =~= decimal(i as nat) + x);
            assert(t.skip(1) =~= decimal(j as nat) + y);
            lemma_digits_prefix(i as nat, j as nat, x, y);
        },
        (None, None) => {
            assert(s.skip(1) =~= x);
            assert(t.skip(1) =~= y);
        },
        _ => {},
    }
}

proof fn lemma_nominal_prefix(
    all: Declarations,
    tag: char,
    m: Seq<Ident>,
    n: Seq<char>,
    a: Seq<ResolvedGenericArg>,
    k: Seq<Ident>,
    l: Seq<char>,
    b: Seq<ResolvedGenericArg>,
    x: Seq<char>,
    y: Seq<char>,
)
    requires
        tag != '<',
        plain_path(m, n),
        plain_path(k, l),
        coherent_args(all, a),
        coherent_args(all, b),
        nominal_key(tag, m, n) + args_key(a) + x == nominal_key(tag, k, l) + args_key(b) + y,
    ensures
        nominal_key(tag, m, n) == nominal_key(tag, k, l),
        args_key(a) == args_key(b),
        a.len() == b.len(),
        forall|i: int| 0 <= i < a.len() ==> arg_key(#[trigger] a[i]) == arg_key(b[i]),
        x == y,
    decreases a, 1int,
{
    let u = nominal_key(tag, m, n);
    let v = nominal_key(tag, k, l);
    lemma_nominal_plain(tag, m, n);
    lemma_nominal_plain(tag, k, l);
    assert(u + args_key(a) + x =~= u + seq!['<'] + (arg_items(a) + seq!['>'] + x));
    assert(v + args_key(b) + y =~= v + seq!['<'] + (arg_items(b) + seq!['>'] + y));
    lemma_until(u, v, '<', arg_items(a) + seq!['>'] + x, arg_items(b) + seq!['>'] + y);
    lemma_arg_items_prefix(all, a, b, x, y);
    assert(args_key(a) =~= args_key(b));
}

proof fn lemma_arg_items_prefix(
    all: Declarations,
    a: Seq<ResolvedGenericArg>,
    b: Seq<ResolvedGenericArg>,
    x: Seq<char>,
    y: Seq<char>,
)
    requires
        coherent_args(all, a),
        coherent_args(all, b),
        arg_items(a) + seq!['>'] + x == arg_items(b) + seq!['>'] + y,
    ensures
        arg_items(a) == arg_items(b),
        a.len() == b.len(),
        forall|i: int| 0 <= i < a.len() ==> arg_key(#[trigger] a[i]) == arg_key(b[i]),
        x == y,
    decreases a, 0int,
{
    let s = arg_items(a) + seq!['>'] + x;
    let t = arg_items(b) + seq!['>'] + y;
    if a.len() == 0 && b.len() == 0 {
        assert(s.skip(1) =~= x);
        assert(t.skip(1) =~= y);
    } else if a.len() == 0 {
        lemma_arg_lead(b[0]);
        assert(t[0] == arg_key(b[0])[0]);
        assert(s[0] == '>');
    } else if b.len() == 0 {
        lemma_arg_lead(a[0]);
        assert(s[0] == arg_key(a[0])[0]);
        assert(t[0] == '>');
    } else {
        let p = a.drop_first();
        let q = b.drop_first();
        assert(coherent_arg(all, a[0]) && coherent_arg(all, b[0]));
        assert(coherent_args(all, p)) by {
            assert forall|i: int| 0 <= i < p.len() implies coherent_arg(all, #[trigger] p[i]) by {
                assert(coherent_arg(all, a[i + 1]));
            }
        }
        assert(coherent_args(all, q)) by {
            assert forall|i: int| 0 <= i < q.len() implies coherent_arg(all, #[trigger] q[i]) by {
                assert(coherent_arg(all, b[i + 1]));
            }
        }
        let u = arg_items(p) + seq!['>'] + x;
        let v = arg_items(q) + seq!['>'] + y;
        assert(s =~= arg_key(a[0]) + seq![','] + u);
        assert(t =~= arg_key(b[0]) + seq![','] + v);
        lemma_arg_prefix(all, &a[0], &b[0], u, v);
        lemma_arg_items_prefix(all, p, q, x, y);
        assert forall|i: int| 0 <= i < a.len() implies arg_key(#[trigger] a[i]) == arg_key(
            b[i],
        ) by {
            if i > 0 {
                assert(arg_key(p[i - 1]) == arg_key(q[i - 1]));
            }
        }
    }
}

proof fn lemma_arg_lead(arg: ResolvedGenericArg)
    ensures
        arg_key(arg).len() >= 1,
        !terminator(arg_key(arg)[0]),
{
    match arg {
        ResolvedGenericArg::Type(ty) => lemma_lead(ty),
        _ => {},
    }
}

proof fn lemma_scalar_without_comma(value: CompScalar)
    requires
        !(value is Char),
    ensures
        !scalar_text(value).contains(','),
{
    let text = scalar_text(value);
    match value {
        CompScalar::Int { value, .. } => {
            if value < 0 {
                lemma_decimal_digits((-(value as int)) as nat);
                assert forall|i: int| 0 <= i < text.len() implies text[i] != ',' by {
                    if i > 0 {
                        assert(is_digit(decimal((-(value as int)) as nat)[i - 1]));
                    }
                }
            } else {
                lemma_decimal_digits(value as nat);
                assert forall|i: int| 0 <= i < text.len() implies text[i] != ',' by {
                    assert(is_digit(decimal(value as nat)[i]));
                }
            }
        },
        _ => {},
    }
}

proof fn lemma_arg_prefix(
    all: Declarations,
    a: &ResolvedGenericArg,
    b: &ResolvedGenericArg,
    u: Seq<char>,
    v: Seq<char>,
)
    requires
        coherent_arg(all, *a),
        coherent_arg(all, *b),
        arg_key(*a) + seq![','] + u == arg_key(*b) + seq![','] + v,
    ensures
        arg_key(*a) == arg_key(*b),
        u == v,
    decreases a, 0int,
{
    let s = arg_key(*a) + seq![','] + u;
    let t = arg_key(*b) + seq![','] + v;
    match (a, b) {
        (ResolvedGenericArg::Type(p), ResolvedGenericArg::Type(q)) => {
            assert(s =~= type_key(*p) + (seq![','] + u));
            assert(t =~= type_key(*q) + (seq![','] + v));
            lemma_type_prefix(all, p, q, seq![','] + u, seq![','] + v);
            assert((seq![','] + u).skip(1) =~= u);
            assert((seq![','] + v).skip(1) =~= v);
        },
        (ResolvedGenericArg::Comp(p), ResolvedGenericArg::Comp(q)) => {
            let c = scalar_type_key(*p);
            let d = scalar_type_key(*q);
            assert(s.skip(1).take(2) =~= c);
            assert(t.skip(1).take(2) =~= d);
            assert(c[0] == d[0] && c[1] == d[1]);
            assert(s.skip(4) =~= scalar_text(*p) + seq![','] + u);
            assert(t.skip(4) =~= scalar_text(*q) + seq![','] + v);
            if p is Char {
                assert(q is Char);
                assert(scalar_text(*p).len() == scalar_text(*q).len());
                lemma_cancel(
                    scalar_text(*p) + seq![','],
                    scalar_text(*q) + seq![','],
                    u,
                    v,
                );
                assert((scalar_text(*p) + seq![',']).drop_last() =~= scalar_text(*p));
                assert((scalar_text(*q) + seq![',']).drop_last() =~= scalar_text(*q));
            } else {
                assert(!(q is Char));
                lemma_scalar_without_comma(*p);
                lemma_scalar_without_comma(*q);
                lemma_until(scalar_text(*p), scalar_text(*q), ',', u, v);
            }
        },
        (ResolvedGenericArg::Type(p), ResolvedGenericArg::Comp(_)) => {
            lemma_lead(*p);
            assert(s[0] == lead(*p));
            assert(t[0] == '=');
        },
        (ResolvedGenericArg::Comp(_), ResolvedGenericArg::Type(q)) => {
            lemma_lead(*q);
            assert(t[0] == lead(*q));
            assert(s[0] == '=');
        },
    }
}

proof fn lemma_type_items_prefix(
    all: Declarations,
    a: Seq<ResolvedType>,
    b: Seq<ResolvedType>,
    end: char,
    x: Seq<char>,
    y: Seq<char>,
)
    requires
        terminator(end),
        forall|i: int| 0 <= i < a.len() ==> coherent(all, #[trigger] a[i]),
        forall|i: int| 0 <= i < b.len() ==> coherent(all, #[trigger] b[i]),
        type_items(a) + seq![end] + x == type_items(b) + seq![end] + y,
    ensures
        type_items(a) == type_items(b),
        a.len() == b.len(),
        forall|i: int| 0 <= i < a.len() ==> type_key(#[trigger] a[i]) == type_key(b[i]),
        x == y,
    decreases a, 0int,
{
    let s = type_items(a) + seq![end] + x;
    let t = type_items(b) + seq![end] + y;
    if a.len() == 0 && b.len() == 0 {
        assert(s.skip(1) =~= x);
        assert(t.skip(1) =~= y);
    } else if a.len() == 0 {
        lemma_lead(b[0]);
        assert(t[0] == type_key(b[0])[0]);
        assert(s[0] == end);
    } else if b.len() == 0 {
        lemma_lead(a[0]);
        assert(s[0] == type_key(a[0])[0]);
        assert(t[0] == end);
    } else {
        let p = a.drop_first();
        let q = b.drop_first();
        assert(coherent(all, a[0]) && coherent(all, b[0]));
        assert forall|i: int| 0 <= i < p.len() implies coherent(all, #[trigger] p[i]) by {
            assert(coherent(all, a[i + 1]));
        }
        assert forall|i: int| 0 <= i < q.len() implies coherent(all, #[trigger] q[i]) by {
            assert(coherent(all, b[i + 1]));
        }
        let u = type_items(p) + seq![end] + x;
        let v = type_items(q) + seq![end] + y;
        assert(s =~= type_key(a[0]) + (seq![','] + u));
        assert(t =~= type_key(b[0]) + (seq![','] + v));
        lemma_type_prefix(all, &a[0], &b[0], seq![','] + u, seq![','] + v);
        assert((seq![','] + u).skip(1) =~= u);
        assert((seq![','] + v).skip(1) =~= v);
        lemma_type_items_prefix(all, p, q, end, x, y);
        assert forall|i: int| 0 <= i < a.len() implies type_key(#[trigger] a[i]) == type_key(
            b[i],
        ) by {
            if i > 0 {
                assert(type_key(p[i - 1]) == type_key(q[i - 1]));
            }
        }
    }
}

proof fn lemma_param_items_prefix(
    all: Declarations,
    a: Seq<ResolvedFunctionParam>,
    b: Seq<ResolvedFunctionParam>,
    x: Seq<char>,
    y: Seq<char>,
)
    requires
        forall|i: int| 0 <= i < a.len() ==> coherent(all, #[trigger] a[i].ty),
        forall|i: int| 0 <= i < b.len() ==> coherent(all, #[trigger] b[i].ty),
        param_items(a) + seq![')'] + x == param_items(b) + seq![')'] + y,
    ensures
        param_items(a) == param_items(b),
        a.len() == b.len(),
        forall|i: int| 0 <= i < a.len() ==> type_key(#[trigger] a[i].ty) == type_key(b[i].ty),
        x == y,
    decreases a, 0int,
{
    let s = param_items(a) + seq![')'] + x;
    let t = param_items(b) + seq![')'] + y;
    if a.len() == 0 && b.len() == 0 {
        assert(s.skip(1) =~= x);
        assert(t.skip(1) =~= y);
    } else if a.len() == 0 {
        lemma_lead(b[0].ty);
        assert(t[0] == type_key(b[0].ty)[0]);
        assert(s[0] == ')');
    } else if b.len() == 0 {
        lemma_lead(a[0].ty);
        assert(s[0] == type_key(a[0].ty)[0]);
        assert(t[0] == ')');
    } else {
        let p = a.drop_first();
        let q = b.drop_first();
        assert(coherent(all, a[0].ty) && coherent(all, b[0].ty));
        assert forall|i: int| 0 <= i < p.len() implies coherent(all, #[trigger] p[i].ty) by {
            assert(coherent(all, a[i + 1].ty));
        }
        assert forall|i: int| 0 <= i < q.len() implies coherent(all, #[trigger] q[i].ty) by {
            assert(coherent(all, b[i + 1].ty));
        }
        let u = param_items(p) + seq![')'] + x;
        let v = param_items(q) + seq![')'] + y;
        assert(s =~= type_key(a[0].ty) + (seq![','] + u));
        assert(t =~= type_key(b[0].ty) + (seq![','] + v));
        lemma_type_prefix(all, &a[0].ty, &b[0].ty, seq![','] + u, seq![','] + v);
        assert((seq![','] + u).skip(1) =~= u);
        assert((seq![','] + v).skip(1) =~= v);
        lemma_param_items_prefix(all, p, q, x, y);
        assert forall|i: int| 0 <= i < a.len() implies type_key(#[trigger] a[i].ty) == type_key(
            b[i].ty,
        ) by {
            if i > 0 {
                assert(type_key(p[i - 1].ty) == type_key(q[i - 1].ty));
            }
        }
    }
}

proof fn lemma_function_prefix(
    all: Declarations,
    f: &ResolvedFunctionType,
    g: &ResolvedFunctionType,
    x: Seq<char>,
    y: Seq<char>,
)
    requires
        coherent_function(all, *f),
        coherent_function(all, *g),
        closes(x),
        closes(y),
        function_key(*f) + x == function_key(*g) + y,
    ensures
        function_key(*f) == function_key(*g),
        f.calling_convention == g.calling_convention,
        f.self_mode == g.self_mode,
        f.is_variadic == g.is_variadic,
        f.params@.len() == g.params@.len(),
        forall|i: int|
            0 <= i < f.params@.len() ==> type_key(#[trigger] f.params@[i].ty) == type_key(
                g.params@[i].ty,
            ),
        type_key(*f.return_type) == type_key(*g.return_type),
        x == y,
    decreases f, 0int,
{
    let s = function_key(*f) + x;
    let t = function_key(*g) + y;
    assert(s[1] == convention_key(f.calling_convention));
    assert(t[1] == convention_key(g.calling_convention));
    assert(s[2] == receiver_key(f.self_mode));
    assert(t[2] == receiver_key(g.self_mode));
    assert(s[3] == (if f.is_variadic {
        '.'
    } else {
        '_'
    }));
    assert(t[3] == (if g.is_variadic {
        '.'
    } else {
        '_'
    }));
    let u = key_of(&*f.return_type) + x;
    let v = key_of(&*g.return_type) + y;
    assert(s.skip(5) =~= param_items(f.params@) + seq![')'] + u);
    assert(t.skip(5) =~= param_items(g.params@) + seq![')'] + v);
    lemma_param_items_prefix(all, f.params@, g.params@, u, v);
    lemma_type_prefix(all, &*f.return_type, &*g.return_type, x, y);
    lemma_cancel(function_key(*f), function_key(*g), x, y);
}

proof fn lemma_application_items_prefix(
    all: Declarations,
    a: Seq<ResolvedSpecApplication>,
    b: Seq<ResolvedSpecApplication>,
    x: Seq<char>,
    y: Seq<char>,
)
    requires
        forall|i: int| 0 <= i < a.len() ==> coherent_application(all, #[trigger] a[i]),
        forall|i: int| 0 <= i < b.len() ==> coherent_application(all, #[trigger] b[i]),
        application_items(a) + seq![']'] + x == application_items(b) + seq![']'] + y,
    ensures
        application_items(a) == application_items(b),
        a.len() == b.len(),
        forall|i: int|
            0 <= i < a.len() ==> application_key(#[trigger] a[i]) == application_key(b[i]),
        x == y,
    decreases a, 2int,
{
    let s = application_items(a) + seq![']'] + x;
    let t = application_items(b) + seq![']'] + y;
    if a.len() == 0 && b.len() == 0 {
        assert(s.skip(1) =~= x);
        assert(t.skip(1) =~= y);
    } else if a.len() == 0 {
        assert(application_key(b[0])[0] == 'P');
        assert(t[0] == 'P');
        assert(s[0] == ']');
    } else if b.len() == 0 {
        assert(application_key(a[0])[0] == 'P');
        assert(s[0] == 'P');
        assert(t[0] == ']');
    } else {
        let p = a.drop_first();
        let q = b.drop_first();
        assert(coherent_application(all, a[0]) && coherent_application(all, b[0]));
        assert forall|i: int| 0 <= i < p.len() implies coherent_application(
            all,
            #[trigger] p[i],
        ) by {
            assert(coherent_application(all, a[i + 1]));
        }
        assert forall|i: int| 0 <= i < q.len() implies coherent_application(
            all,
            #[trigger] q[i],
        ) by {
            assert(coherent_application(all, b[i + 1]));
        }
        let u = application_items(p) + seq![']'] + x;
        let v = application_items(q) + seq![']'] + y;
        assert(s =~= application_key(a[0]) + (seq![','] + u));
        assert(t =~= application_key(b[0]) + (seq![','] + v));
        lemma_nominal_prefix(
            all,
            'P',
            a[0].spec.module@,
            a[0].spec.name@,
            a[0].spec_args@,
            b[0].spec.module@,
            b[0].spec.name@,
            b[0].spec_args@,
            seq![','] + u,
            seq![','] + v,
        );
        assert((seq![','] + u).skip(1) =~= u);
        assert((seq![','] + v).skip(1) =~= v);
        lemma_application_items_prefix(all, p, q, x, y);
        assert forall|i: int| 0 <= i < a.len() implies application_key(#[trigger] a[i])
            == application_key(b[i]) by {
            if i > 0 {
                assert(application_key(p[i - 1]) == application_key(q[i - 1]));
            }
        }
    }
}

/// Types with one key are one type: the key distinguishes every difference
/// type identity distinguishes.
pub proof fn law_key_determines_type(all: Declarations, a: &ResolvedType, b: &ResolvedType)
    requires
        all.distinct(),
        coherent(all, *a),
        coherent(all, *b),
        type_key(*a) == type_key(*b),
    ensures
        same_type(*a, *b),
    decreases a, 0int,
{
    let s = type_key(*a);
    let t = type_key(*b);
    lemma_lead(*a);
    lemma_lead(*b);
    assert(lead(*a) == lead(*b));
    match a {
        ResolvedType::Pointer { pointee: p, mutable: m } => match b {
            ResolvedType::Pointer { pointee: q, mutable: n } => {
                lemma_unwrap('p', &**p, &**q, *m, *n);
                law_key_determines_type(all, &**p, &**q);
            },
            _ => {},
        },
        ResolvedType::Array(p, m) => match b {
            ResolvedType::Array(q, n) => {
                lemma_unwrap('a', &**p, &**q, *m, *n);
                law_key_determines_type(all, &**p, &**q);
            },
            _ => {},
        },
        ResolvedType::Slice { item: p, mutable: m } => match b {
            ResolvedType::Slice { item: q, mutable: n } => {
                lemma_unwrap('l', &**p, &**q, *m, *n);
                law_key_determines_type(all, &**p, &**q);
            },
            _ => {},
        },
        ResolvedType::Str { mutable: m } => match b {
            ResolvedType::Str { mutable: n } => {
                assert(s[1] == mutability_key(*m)[0] && t[1] == mutability_key(*n)[0]);
            },
            _ => {},
        },
        ResolvedType::SizedArray(p, m) => match b {
            ResolvedType::SizedArray(q, n) => {
                lemma_sized_key(all, &**p, &**q, *m, *n);
                law_key_determines_type(all, &**p, &**q);
            },
            _ => {},
        },
        ResolvedType::Function(f) => match b {
            ResolvedType::Function(g) => {
                lemma_function_key_determines(all, &**f, &**g);
            },
            _ => {},
        },
        ResolvedType::Enum { cell: c, variant: v } => match b {
            ResolvedType::Enum { cell: d, variant: w } => {
                lemma_enum_key(
                    all,
                    c.module@,
                    c.name@,
                    c.generic_args@,
                    *v,
                    d.module@,
                    d.name@,
                    d.generic_args@,
                    *w,
                );
                assert(all.types[c.id] == all.types[d.id]);
            },
            _ => {},
        },
        ResolvedType::SpecObject { shape: c, mutable: m } => match b {
            ResolvedType::SpecObject { shape: d, mutable: n } => {
                lemma_object_key_determines(all, c.members@, *m, d.members@, *n);
            },
            _ => {},
        },
        ResolvedType::AnonymousEnum { shape: c, variant: v } => match b {
            ResolvedType::AnonymousEnum { shape: d, variant: w } => {
                lemma_anonymous_key_determines(all, c.members@, *v, d.members@, *w);
            },
            _ => {},
        },
        ResolvedType::Struct(c) => match b {
            ResolvedType::Struct(d) => {
                assert(all.types[c.id] == all.types[d.id]);
            },
            _ => {},
        },
        ResolvedType::Union(c) => match b {
            ResolvedType::Union(d) => {
                assert(all.types[c.id] == all.types[d.id]);
            },
            _ => {},
        },
        ResolvedType::Spec(c) => match b {
            ResolvedType::Spec(d) => {
                assert(all.types[c.id] == all.types[d.id]);
            },
            _ => {},
        },
        _ => {
            assert(s[1] == t[1]);
        },
    }
}

proof fn lemma_unwrap(tag: char, p: &ResolvedType, q: &ResolvedType, m: bool, n: bool)
    requires
        seq![tag] + mutability_key(m) + type_key(*p) == seq![tag] + mutability_key(n) + type_key(
            *q,
        ),
    ensures
        m == n,
        type_key(*p) == type_key(*q),
{
    let s = seq![tag] + mutability_key(m) + type_key(*p);
    let t = seq![tag] + mutability_key(n) + type_key(*q);
    assert(s[1] == mutability_key(m)[0] && t[1] == mutability_key(n)[0]);
    assert(s.skip(2) =~= type_key(*p) && t.skip(2) =~= type_key(*q));
}

proof fn lemma_sized_key(all: Declarations, p: &ResolvedType, q: &ResolvedType, m: u32, n: u32)
    requires
        coherent(all, *p),
        coherent(all, *q),
        seq!['r'] + decimal(m as nat) + seq![':'] + type_key(*p) == seq!['r'] + decimal(n as nat)
            + seq![':'] + type_key(*q),
    ensures
        m == n,
        type_key(*p) == type_key(*q),
{
    let none = Seq::<char>::empty();
    let s = seq!['r'] + decimal(m as nat) + seq![':'] + type_key(*p);
    let t = seq!['r'] + decimal(n as nat) + seq![':'] + type_key(*q);
    assert(s + none =~= s);
    assert(t + none =~= t);
    lemma_sized_prefix(all, p, q, m, n, none, none);
}

proof fn lemma_enum_key(
    all: Declarations,
    m: Seq<Ident>,
    n: Seq<char>,
    a: Seq<ResolvedGenericArg>,
    v: Option<usize>,
    k: Seq<Ident>,
    l: Seq<char>,
    b: Seq<ResolvedGenericArg>,
    w: Option<usize>,
)
    requires
        plain_path(m, n),
        plain_path(k, l),
        coherent_args(all, a),
        coherent_args(all, b),
        nominal_key('E', m, n) + args_key(a) + variant_key(v) == nominal_key('E', k, l) + args_key(
            b,
        ) + variant_key(w),
    ensures
        nominal_key('E', m, n) == nominal_key('E', k, l),
        args_key(a) == args_key(b),
        v == w,
{
    let none = Seq::<char>::empty();
    let s = nominal_key('E', m, n) + args_key(a) + variant_key(v);
    let t = nominal_key('E', k, l) + args_key(b) + variant_key(w);
    assert(s + none =~= s);
    assert(t + none =~= t);
    lemma_enum_prefix(all, m, n, a, v, k, l, b, w, none, none);
}

proof fn lemma_object_key_determines(
    all: Declarations,
    a: Seq<ResolvedSpecApplication>,
    m: bool,
    b: Seq<ResolvedSpecApplication>,
    n: bool,
)
    requires
        all.distinct(),
        forall|i: int| 0 <= i < a.len() ==> coherent_application(all, #[trigger] a[i]),
        forall|i: int| 0 <= i < b.len() ==> coherent_application(all, #[trigger] b[i]),
        seq!['O'] + mutability_key(m) + seq!['['] + application_items(a) + seq![']'] == seq!['O']
            + mutability_key(n) + seq!['['] + application_items(b) + seq![']'],
    ensures
        m == n,
        same_applications(a, b),
    decreases a, 2int,
{
    let none = Seq::<char>::empty();
    let s = seq!['O'] + mutability_key(m) + seq!['['] + application_items(a) + seq![']'];
    let t = seq!['O'] + mutability_key(n) + seq!['['] + application_items(b) + seq![']'];
    assert(s[1] == mutability_key(m)[0] && t[1] == mutability_key(n)[0]);
    assert(s.skip(3) =~= application_items(a) + seq![']'] + none);
    assert(t.skip(3) =~= application_items(b) + seq![']'] + none);
    lemma_application_items_prefix(all, a, b, none, none);
    assert forall|i: int| 0 <= i < a.len() implies same_application(#[trigger] a[i], b[i]) by {
        assert(coherent_application(all, a[i]) && coherent_application(all, b[i]));
        assert(application_key(a[i]) == application_key(b[i]));
        law_key_determines_application(all, &a[i], &b[i]);
    }
}

proof fn lemma_anonymous_key_determines(
    all: Declarations,
    a: Seq<ResolvedType>,
    v: Option<usize>,
    b: Seq<ResolvedType>,
    w: Option<usize>,
)
    requires
        all.distinct(),
        forall|i: int| 0 <= i < a.len() ==> coherent(all, #[trigger] a[i]),
        forall|i: int| 0 <= i < b.len() ==> coherent(all, #[trigger] b[i]),
        seq!['A', '['] + type_items(a) + seq![']'] + variant_key(v) == seq!['A', '['] + type_items(
            b,
        ) + seq![']'] + variant_key(w),
    ensures
        v == w,
        same_types(a, b),
    decreases a, 2int,
{
    let none = Seq::<char>::empty();
    let s = seq!['A', '['] + type_items(a) + seq![']'] + variant_key(v);
    let t = seq!['A', '['] + type_items(b) + seq![']'] + variant_key(w);
    assert(s.skip(2) =~= type_items(a) + seq![']'] + variant_key(v));
    assert(t.skip(2) =~= type_items(b) + seq![']'] + variant_key(w));
    lemma_type_items_prefix(all, a, b, ']', variant_key(v), variant_key(w));
    assert(variant_key(v) + none =~= variant_key(v));
    assert(variant_key(w) + none =~= variant_key(w));
    lemma_variant_prefix(v, w, none, none);
    assert forall|i: int| 0 <= i < a.len() implies same_type(#[trigger] a[i], b[i]) by {
        assert(coherent(all, a[i]) && coherent(all, b[i]));
        assert(type_key(a[i]) == type_key(b[i]));
        law_key_determines_type(all, &a[i], &b[i]);
    }
}

proof fn lemma_function_key_determines(
    all: Declarations,
    f: &ResolvedFunctionType,
    g: &ResolvedFunctionType,
)
    requires
        all.distinct(),
        coherent_function(all, *f),
        coherent_function(all, *g),
        function_key(*f) == function_key(*g),
    ensures
        same_function(*f, *g),
    decreases f, 0int,
{
    let none = Seq::<char>::empty();
    assert(function_key(*f) + none =~= function_key(*f));
    assert(function_key(*g) + none =~= function_key(*g));
    lemma_function_prefix(all, f, g, none, none);
    assert forall|i: int| 0 <= i < f.params@.len() implies same_type(
        #[trigger] f.params@[i].ty,
        g.params@[i].ty,
    ) by {
        assert(coherent(all, f.params@[i].ty) && coherent(all, g.params@[i].ty));
        law_key_determines_type(all, &f.params@[i].ty, &g.params@[i].ty);
    }
    assert(same_params(f.params@, g.params@));
    law_key_determines_type(all, &*f.return_type, &*g.return_type);
}

/// Spec applications with one key are one application.
pub proof fn law_key_determines_application(
    all: Declarations,
    a: &ResolvedSpecApplication,
    b: &ResolvedSpecApplication,
)
    requires
        all.distinct(),
        coherent_application(all, *a),
        coherent_application(all, *b),
        application_key(*a) == application_key(*b),
    ensures
        same_application(*a, *b),
    decreases a, 1int,
{
    let none = Seq::<char>::empty();
    assert(application_key(*a) + none =~= application_key(*a));
    assert(application_key(*b) + none =~= application_key(*b));
    lemma_nominal_prefix(
        all,
        'P',
        a.spec.module@,
        a.spec.name@,
        a.spec_args@,
        b.spec.module@,
        b.spec.name@,
        b.spec_args@,
        none,
        none,
    );
    assert(all.specs[a.spec.id] == all.specs[b.spec.id]);
    assert forall|i: int| 0 <= i < a.spec_args@.len() implies same_arg(
        #[trigger] a.spec_args@[i],
        b.spec_args@[i],
    ) by {
        assert(coherent_arg(all, a.spec_args@[i]) && coherent_arg(all, b.spec_args@[i]));
        assert(arg_key(a.spec_args@[i]) == arg_key(b.spec_args@[i]));
        law_key_determines_arg(all, &a.spec_args@[i], &b.spec_args@[i]);
    }
    assert(same_args(a.spec_args@, b.spec_args@));
}

/// Generic arguments with one key are one argument.
pub proof fn law_key_determines_arg(
    all: Declarations,
    a: &ResolvedGenericArg,
    b: &ResolvedGenericArg,
)
    requires
        all.distinct(),
        coherent_arg(all, *a),
        coherent_arg(all, *b),
        arg_key(*a) == arg_key(*b),
    ensures
        same_arg(*a, *b),
    decreases a, 0int,
{
    match (a, b) {
        (ResolvedGenericArg::Type(p), ResolvedGenericArg::Type(q)) => law_key_determines_type(
            all,
            p,
            q,
        ),
        (ResolvedGenericArg::Comp(p), ResolvedGenericArg::Comp(q)) => lemma_scalar_key(*p, *q),
        (ResolvedGenericArg::Type(p), ResolvedGenericArg::Comp(_)) => lemma_lead(*p),
        (ResolvedGenericArg::Comp(_), ResolvedGenericArg::Type(q)) => lemma_lead(*q),
    }
}

proof fn lemma_scalar_type_key(p: CompScalar, q: CompScalar)
    requires
        scalar_type_key(p)[0] == scalar_type_key(q)[0],
        scalar_type_key(p)[1] == scalar_type_key(q)[1],
    ensures
        p.declared() == q.declared(),
{
}

proof fn lemma_scalar_key(p: CompScalar, q: CompScalar)
    requires
        seq!['='] + scalar_type_key(p) + seq![':'] + scalar_text(p) == seq!['='] + scalar_type_key(
            q,
        ) + seq![':'] + scalar_text(q),
    ensures
        p == q,
{
    let s = seq!['='] + scalar_type_key(p) + seq![':'] + scalar_text(p);
    let t = seq!['='] + scalar_type_key(q) + seq![':'] + scalar_text(q);
    assert(scalar_type_key(p).len() == 2 && scalar_type_key(q).len() == 2);
    assert(s[1] == scalar_type_key(p)[0] && s[2] == scalar_type_key(p)[1]);
    assert(t[1] == scalar_type_key(q)[0] && t[2] == scalar_type_key(q)[1]);
    lemma_scalar_type_key(p, q);
    let u = scalar_text(p);
    let v = scalar_text(q);
    assert(s.skip(4) =~= u);
    assert(t.skip(4) =~= v);
    match (p, q) {
        (CompScalar::Int { value: i, .. }, CompScalar::Int { value: j, .. }) => {
            lemma_decimal_int_injective(i as int, j as int);
        },
        (CompScalar::Bool(_), CompScalar::Bool(_)) => {
            assert(u[0] == v[0]);
        },
        (CompScalar::Char(_), CompScalar::Char(_)) => {
            assert(u[1] == v[1]);
        },
        _ => {},
    }
}

proof fn lemma_decimal_int_injective(i: int, j: int)
    requires
        decimal_int(i) == decimal_int(j),
    ensures
        i == j,
{
    let s = decimal_int(i);
    let t = decimal_int(j);
    if i < 0 {
        lemma_decimal_digits((-i) as nat);
        assert(s[0] == '-');
    } else {
        lemma_decimal_digits(i as nat);
        assert(is_digit(s[0]));
    }
    if j < 0 {
        lemma_decimal_digits((-j) as nat);
        assert(t[0] == '-');
    } else {
        lemma_decimal_digits(j as nat);
        assert(is_digit(t[0]));
    }
    if i < 0 {
        assert(s.skip(1) =~= decimal((-i) as nat));
        assert(t.skip(1) =~= decimal((-j) as nat));
        lemma_decimal_injective((-i) as nat, (-j) as nat);
    } else {
        lemma_decimal_injective(i as nat, j as nat);
    }
}

/// One type has one key.
pub proof fn law_type_determines_key(all: Declarations, a: &ResolvedType, b: &ResolvedType)
    requires
        coherent(all, *a),
        coherent(all, *b),
        same_type(*a, *b),
    ensures
        type_key(*a) == type_key(*b),
    decreases a, 0int,
{
    match (a, b) {
        (
            ResolvedType::Pointer { pointee: p, .. },
            ResolvedType::Pointer { pointee: q, .. },
        ) => law_type_determines_key(all, &**p, &**q),
        (ResolvedType::Array(p, _), ResolvedType::Array(q, _)) => law_type_determines_key(
            all,
            &**p,
            &**q,
        ),
        (ResolvedType::Slice { item: p, .. }, ResolvedType::Slice { item: q, .. }) => {
            law_type_determines_key(all, &**p, &**q);
        },
        (ResolvedType::SizedArray(p, _), ResolvedType::SizedArray(q, _)) => {
            law_type_determines_key(all, &**p, &**q);
        },
        (ResolvedType::Function(f), ResolvedType::Function(g)) => {
            lemma_function_determines_key(all, &**f, &**g);
        },
        (
            ResolvedType::SpecObject { shape: c, .. },
            ResolvedType::SpecObject { shape: d, .. },
        ) => {
            assert(same_applications(c.members@, d.members@));
            lemma_applications_determine_key(all, c.members@, d.members@);
        },
        (
            ResolvedType::AnonymousEnum { shape: c, .. },
            ResolvedType::AnonymousEnum { shape: d, .. },
        ) => {
            assert(same_types(c.members@, d.members@));
            lemma_types_determine_key(all, c.members@, d.members@);
        },
        _ => {},
    }
}

proof fn lemma_function_determines_key(
    all: Declarations,
    f: &ResolvedFunctionType,
    g: &ResolvedFunctionType,
)
    requires
        coherent_function(all, *f),
        coherent_function(all, *g),
        same_function(*f, *g),
    ensures
        function_key(*f) == function_key(*g),
    decreases f, 0int,
{
    assert(same_params(f.params@, g.params@));
    lemma_params_determine_key(all, f.params@, g.params@);
    law_type_determines_key(all, &*f.return_type, &*g.return_type);
}

proof fn lemma_params_determine_key(
    all: Declarations,
    a: Seq<ResolvedFunctionParam>,
    b: Seq<ResolvedFunctionParam>,
)
    requires
        forall|i: int| 0 <= i < a.len() ==> coherent(all, #[trigger] a[i].ty),
        forall|i: int| 0 <= i < b.len() ==> coherent(all, #[trigger] b[i].ty),
        same_params(a, b),
    ensures
        param_items(a) == param_items(b),
    decreases a, 0int,
{
    if a.len() > 0 {
        let p = a.drop_first();
        let q = b.drop_first();
        assert(coherent(all, a[0].ty) && coherent(all, b[0].ty));
        assert(same_type(a[0].ty, b[0].ty));
        law_type_determines_key(all, &a[0].ty, &b[0].ty);
        assert forall|i: int| 0 <= i < p.len() implies coherent(all, #[trigger] p[i].ty) by {
            assert(coherent(all, a[i + 1].ty));
        }
        assert forall|i: int| 0 <= i < q.len() implies coherent(all, #[trigger] q[i].ty) by {
            assert(coherent(all, b[i + 1].ty));
        }
        assert(same_params(p, q)) by {
            assert forall|i: int| 0 <= i < p.len() implies same_type(
                #[trigger] p[i].ty,
                q[i].ty,
            ) by {
                assert(same_type(a[i + 1].ty, b[i + 1].ty));
            }
        }
        lemma_params_determine_key(all, p, q);
    }
}

proof fn lemma_types_determine_key(
    all: Declarations,
    a: Seq<ResolvedType>,
    b: Seq<ResolvedType>,
)
    requires
        forall|i: int| 0 <= i < a.len() ==> coherent(all, #[trigger] a[i]),
        forall|i: int| 0 <= i < b.len() ==> coherent(all, #[trigger] b[i]),
        same_types(a, b),
    ensures
        type_items(a) == type_items(b),
    decreases a, 0int,
{
    if a.len() > 0 {
        let p = a.drop_first();
        let q = b.drop_first();
        assert(coherent(all, a[0]) && coherent(all, b[0]));
        assert(same_type(a[0], b[0]));
        law_type_determines_key(all, &a[0], &b[0]);
        assert forall|i: int| 0 <= i < p.len() implies coherent(all, #[trigger] p[i]) by {
            assert(coherent(all, a[i + 1]));
        }
        assert forall|i: int| 0 <= i < q.len() implies coherent(all, #[trigger] q[i]) by {
            assert(coherent(all, b[i + 1]));
        }
        assert(same_types(p, q)) by {
            assert forall|i: int| 0 <= i < p.len() implies same_type(#[trigger] p[i], q[i]) by {
                assert(same_type(a[i + 1], b[i + 1]));
            }
        }
        lemma_types_determine_key(all, p, q);
    }
}

proof fn lemma_args_determine_key(
    all: Declarations,
    a: Seq<ResolvedGenericArg>,
    b: Seq<ResolvedGenericArg>,
)
    requires
        coherent_args(all, a),
        coherent_args(all, b),
        same_args(a, b),
    ensures
        arg_items(a) == arg_items(b),
    decreases a, 0int,
{
    if a.len() > 0 {
        let p = a.drop_first();
        let q = b.drop_first();
        assert(coherent_arg(all, a[0]) && coherent_arg(all, b[0]));
        assert(same_arg(a[0], b[0]));
        match (&a[0], &b[0]) {
            (ResolvedGenericArg::Type(x), ResolvedGenericArg::Type(y)) => {
                law_type_determines_key(all, x, y);
            },
            _ => {},
        }
        assert(arg_key(a[0]) == arg_key(b[0]));
        assert(coherent_args(all, p)) by {
            assert forall|i: int| 0 <= i < p.len() implies coherent_arg(all, #[trigger] p[i]) by {
                assert(coherent_arg(all, a[i + 1]));
            }
        }
        assert(coherent_args(all, q)) by {
            assert forall|i: int| 0 <= i < q.len() implies coherent_arg(all, #[trigger] q[i]) by {
                assert(coherent_arg(all, b[i + 1]));
            }
        }
        assert(same_args(p, q)) by {
            assert forall|i: int| 0 <= i < p.len() implies same_arg(#[trigger] p[i], q[i]) by {
                assert(same_arg(a[i + 1], b[i + 1]));
            }
        }
        lemma_args_determine_key(all, p, q);
    }
}

proof fn lemma_applications_determine_key(
    all: Declarations,
    a: Seq<ResolvedSpecApplication>,
    b: Seq<ResolvedSpecApplication>,
)
    requires
        forall|i: int| 0 <= i < a.len() ==> coherent_application(all, #[trigger] a[i]),
        forall|i: int| 0 <= i < b.len() ==> coherent_application(all, #[trigger] b[i]),
        same_applications(a, b),
    ensures
        application_items(a) == application_items(b),
    decreases a, 0int,
{
    if a.len() > 0 {
        let p = a.drop_first();
        let q = b.drop_first();
        assert(coherent_application(all, a[0]) && coherent_application(all, b[0]));
        assert(same_application(a[0], b[0]));
        lemma_args_determine_key(all, a[0].spec_args@, b[0].spec_args@);
        assert(application_key(a[0]) == application_key(b[0]));
        assert forall|i: int| 0 <= i < p.len() implies coherent_application(
            all,
            #[trigger] p[i],
        ) by {
            assert(coherent_application(all, a[i + 1]));
        }
        assert forall|i: int| 0 <= i < q.len() implies coherent_application(
            all,
            #[trigger] q[i],
        ) by {
            assert(coherent_application(all, b[i + 1]));
        }
        assert(same_applications(p, q)) by {
            assert forall|i: int| 0 <= i < p.len() implies same_application(
                #[trigger] p[i],
                q[i],
            ) by {
                assert(same_application(a[i + 1], b[i + 1]));
            }
        }
        lemma_applications_determine_key(all, p, q);
    }
}

/// One spec application has one key.
pub proof fn law_application_determines_key(
    all: Declarations,
    a: &ResolvedSpecApplication,
    b: &ResolvedSpecApplication,
)
    requires
        coherent_application(all, *a),
        coherent_application(all, *b),
        same_application(*a, *b),
    ensures
        application_key(*a) == application_key(*b),
    decreases a, 0int,
{
    lemma_args_determine_key(all, a.spec_args@, b.spec_args@);
}

} // verus!
