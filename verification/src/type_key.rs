//! The one deterministic structural identity key for a `ResolvedType`.
//!
//! Anonymous-enum members and spec conjunctions are both unordered sets that
//! must nevertheless have a single canonical order, because that order decides
//! layout, tags, and vtable slots. The key here provides it.
//!
//! Two properties are load-bearing:
//!
//! * it never observes `HirId`, so two compilations agree;
//! * it distinguishes every difference type identity distinguishes, so sorting
//!   by key groups equal types adjacently and deduplication is exact.

use crate::order::{
    arranged, deduplicated, key_views, positions, sorted_order, stable_order,
};
use crate::resolved_type::{
    CallingConvention, CompScalar, ResolvedAnonymousEnum, ResolvedFunctionParam,
    ResolvedFunctionType, ResolvedGenericArg, ResolvedSpecApplication, ResolvedSpecShape,
    ResolvedType,
};
use crate::syntax::{Ident, SelfMode};
use crate::text::{decimal, decimal_int, push_decimal, push_decimal_int, push_text, text_of};
use crate::type_eq::{same_application, same_type};
use vstd::prelude::*;

verus! {

/// How a compile-time value is written.
pub open spec fn scalar_text(value: CompScalar) -> Seq<char> {
    match value {
        CompScalar::Int { value, .. } => decimal_int(value as int),
        CompScalar::Bool(true) => seq!['t', 'r', 'u', 'e'],
        CompScalar::Bool(false) => seq!['f', 'a', 'l', 's', 'e'],
        CompScalar::Char(c) => seq!['\'', c, '\''],
    }
}

/// Appends a compile-time value as it is written.
pub fn push_scalar(out: &mut Vec<char>, value: &CompScalar)
    ensures
        final(out)@ == old(out)@ + scalar_text(*value),
{
    match value {
        CompScalar::Int { value, .. } => push_decimal_int(out, *value),
        CompScalar::Bool(b) => if *b {
            out.push('t');
            out.push('r');
            out.push('u');
            out.push('e');
        } else {
            out.push('f');
            out.push('a');
            out.push('l');
            out.push('s');
            out.push('e');
        },
        CompScalar::Char(c) => {
            out.push('\'');
            out.push(*c);
            out.push('\'');
        },
    }
    assert(out@ =~= old(out)@ + scalar_text(*value));
}

impl CompScalar {
    /// This value as it is written.
    pub fn to_string(&self) -> (text: String)
        ensures
            text@ == scalar_text(*self),
    {
        let mut out: Vec<char> = Vec::new();
        push_scalar(&mut out, self);
        assert(out@ =~= scalar_text(*self));
        text_of(&out)
    }
}

/// The names of a module path, each followed by a dot.
pub open spec fn path_key(names: Seq<Ident>) -> Seq<char>
    decreases names.len(),
{
    if names.len() == 0 {
        Seq::empty()
    } else {
        names[0]@ + seq!['.'] + path_key(names.drop_first())
    }
}

/// The key of a declaration without its generic arguments.
pub open spec fn nominal_key(tag: char, module: Seq<Ident>, name: Seq<char>) -> Seq<char> {
    seq![tag] + path_key(module) + name
}

/// The key of read-only or writable access.
pub open spec fn mutability_key(mutable: bool) -> Seq<char> {
    if mutable {
        seq!['m']
    } else {
        seq!['c']
    }
}

/// The key of a refinement.
pub open spec fn variant_key(variant: Option<usize>) -> Seq<char> {
    match variant {
        Some(index) => seq!['#'] + decimal(index as nat),
        None => seq!['.'],
    }
}

/// The key of one type.
pub open spec fn type_key(ty: ResolvedType) -> Seq<char>
    decreases ty, 0int,
{
    match ty {
        ResolvedType::Void => seq!['v', '0'],
        ResolvedType::Never => seq!['v', '1'],
        ResolvedType::Bool => seq!['v', '2'],
        ResolvedType::Char => seq!['v', '3'],
        ResolvedType::I8 => seq!['i', '1'],
        ResolvedType::I16 => seq!['i', '2'],
        ResolvedType::I32 => seq!['i', '3'],
        ResolvedType::I64 => seq!['i', '4'],
        ResolvedType::ISize => seq!['i', '5'],
        ResolvedType::U8 => seq!['u', '1'],
        ResolvedType::U16 => seq!['u', '2'],
        ResolvedType::U32 => seq!['u', '3'],
        ResolvedType::U64 => seq!['u', '4'],
        ResolvedType::USize => seq!['u', '5'],
        ResolvedType::F32 => seq!['f', '1'],
        ResolvedType::F64 => seq!['f', '2'],
        ResolvedType::Pointer { pointee, mutable } => seq!['p'] + mutability_key(mutable)
            + type_key(*pointee),
        ResolvedType::Array(item, mutable) => seq!['a'] + mutability_key(mutable) + type_key(*item),
        ResolvedType::Slice { item, mutable } => seq!['l'] + mutability_key(mutable) + type_key(
            *item,
        ),
        ResolvedType::Str { mutable } => seq!['s'] + mutability_key(mutable),
        ResolvedType::SizedArray(item, size) => seq!['r'] + decimal(size as nat) + seq![':']
            + type_key(*item),
        ResolvedType::Function(function) => function_key(*function),
        ResolvedType::Struct(cell) => nominal_key('S', cell.module@, cell.name@) + args_key(
            cell.generic_args@,
        ),
        ResolvedType::Union(cell) => nominal_key('U', cell.module@, cell.name@) + args_key(
            cell.generic_args@,
        ),
        ResolvedType::Enum { cell, variant } => nominal_key('E', cell.module@, cell.name@)
            + args_key(cell.generic_args@) + variant_key(variant),
        ResolvedType::Spec(cell) => nominal_key('P', cell.module@, cell.name@) + args_key(
            cell.generic_args@,
        ),
        ResolvedType::SpecObject { shape, mutable } => seq!['O'] + mutability_key(mutable)
            + seq!['['] + application_items(shape.members@) + seq![']'],
        ResolvedType::AnonymousEnum { shape, variant } => seq!['A', '['] + type_items(
            shape.members@,
        ) + seq![']'] + variant_key(variant),
    }
}

/// The key of an argument list.
pub open spec fn args_key(args: Seq<ResolvedGenericArg>) -> Seq<char>
    decreases args, 1int,
{
    seq!['<'] + arg_items(args) + seq!['>']
}

/// The keys of arguments, each followed by a comma.
pub open spec fn arg_items(args: Seq<ResolvedGenericArg>) -> Seq<char>
    decreases args, 0int,
{
    if args.len() == 0 {
        Seq::empty()
    } else {
        arg_key(args[0]) + seq![','] + arg_items(args.drop_first())
    }
}

/// The key of one argument. A value's key carries its declared type.
pub open spec fn arg_key(arg: ResolvedGenericArg) -> Seq<char>
    decreases arg, 0int,
{
    match arg {
        ResolvedGenericArg::Type(ty) => type_key(ty),
        ResolvedGenericArg::Comp(value) => seq!['='] + scalar_type_key(value) + seq![':']
            + scalar_text(value),
    }
}

/// The key of a compile-time value's declared type.
pub open spec fn scalar_type_key(value: CompScalar) -> Seq<char> {
    match value {
        CompScalar::Int { ty, .. } => match ty {
            crate::resolved_type::CompIntType::I8 => seq!['i', '1'],
            crate::resolved_type::CompIntType::I16 => seq!['i', '2'],
            crate::resolved_type::CompIntType::I32 => seq!['i', '3'],
            crate::resolved_type::CompIntType::I64 => seq!['i', '4'],
            crate::resolved_type::CompIntType::ISize => seq!['i', '5'],
            crate::resolved_type::CompIntType::U8 => seq!['u', '1'],
            crate::resolved_type::CompIntType::U16 => seq!['u', '2'],
            crate::resolved_type::CompIntType::U32 => seq!['u', '3'],
            crate::resolved_type::CompIntType::U64 => seq!['u', '4'],
            crate::resolved_type::CompIntType::USize => seq!['u', '5'],
        },
        CompScalar::Bool(_) => seq!['v', '2'],
        CompScalar::Char(_) => seq!['v', '3'],
    }
}

/// The keys of types, each followed by a comma.
pub open spec fn type_items(types: Seq<ResolvedType>) -> Seq<char>
    decreases types, 0int,
{
    if types.len() == 0 {
        Seq::empty()
    } else {
        type_key(types[0]) + seq![','] + type_items(types.drop_first())
    }
}

/// The keys of parameter types, each followed by a comma. Descriptors are not
/// part of identity, so they are not part of the key.
pub open spec fn param_items(params: Seq<ResolvedFunctionParam>) -> Seq<char>
    decreases params, 0int,
{
    if params.len() == 0 {
        Seq::empty()
    } else {
        type_key(params[0].ty) + seq![','] + param_items(params.drop_first())
    }
}

/// The key of a calling convention.
pub open spec fn convention_key(convention: CallingConvention) -> char {
    match convention {
        CallingConvention::Omega => 'o',
        CallingConvention::C => 'c',
        CallingConvention::SysV64 => 's',
    }
}

/// The key of a receiver form.
pub open spec fn receiver_key(self_mode: Option<SelfMode>) -> char {
    match self_mode {
        None => 'n',
        Some(SelfMode::Value) => 'v',
        Some(SelfMode::MutValue) => 'V',
        Some(SelfMode::Pointer) => 'p',
        Some(SelfMode::MutPointer) => 'P',
    }
}

/// The key of a function type.
pub open spec fn function_key(function: ResolvedFunctionType) -> Seq<char>
    decreases function, 0int,
{
    seq![
        'F',
        convention_key(function.calling_convention),
        receiver_key(function.self_mode),
        if function.is_variadic {
            '.'
        } else {
            '_'
        },
        '(',
    ] + param_items(function.params@) + seq![')'] + type_key(*function.return_type)
}

/// The key of a spec application.
pub open spec fn application_key(application: ResolvedSpecApplication) -> Seq<char>
    decreases application, 2int,
{
    nominal_key('P', application.spec.module@, application.spec.name@) + args_key(
        application.spec_args@,
    )
}

/// The keys of spec applications, each followed by a comma.
pub open spec fn application_items(members: Seq<ResolvedSpecApplication>) -> Seq<char>
    decreases members, 0int,
{
    if members.len() == 0 {
        Seq::empty()
    } else {
        application_key(members[0]) + seq![','] + application_items(members.drop_first())
    }
}

fn write_nominal(out: &mut Vec<char>, tag: char, module: &Vec<Ident>, name: &Ident)
    ensures
        final(out)@ == old(out)@ + nominal_key(tag, module@, name@),
{
    out.push(tag);
    let mut i: usize = 0;
    assert(module@.skip(0) =~= module@);
    while i < module.len()
        invariant
            i <= module@.len(),
            old(out)@.push(tag) + path_key(module@) =~= out@ + path_key(module@.skip(i as int)),
        decreases module.len() - i,
    {
        assert(module@.skip(i as int).drop_first() =~= module@.skip(i as int + 1));
        push_text(out, module[i].as_ref());
        out.push('.');
        i = i + 1;
    }
    push_text(out, name.as_ref());
    assert(out@ =~= old(out)@ + nominal_key(tag, module@, name@));
}

fn write_mutability(out: &mut Vec<char>, mutable: bool)
    ensures
        final(out)@ == old(out)@ + mutability_key(mutable),
{
    out.push(
        if mutable {
            'm'
        } else {
            'c'
        },
    );
}

fn write_variant(out: &mut Vec<char>, variant: Option<usize>)
    ensures
        final(out)@ == old(out)@ + variant_key(variant),
{
    match variant {
        Some(index) => {
            out.push('#');
            push_decimal(out, index as u128);
        },
        None => out.push('.'),
    }
    assert(out@ =~= old(out)@ + variant_key(variant));
}

fn write_args(out: &mut Vec<char>, args: &Vec<ResolvedGenericArg>)
    ensures
        final(out)@ == old(out)@ + args_key(args@),
    decreases args, 1int,
{
    out.push('<');
    let mut i: usize = 0;
    assert(args@.skip(0) =~= args@);
    while i < args.len()
        invariant
            i <= args@.len(),
            old(out)@.push('<') + arg_items(args@) =~= out@ + arg_items(args@.skip(i as int)),
        decreases args.len() - i,
    {
        assert(args@.skip(i as int).drop_first() =~= args@.skip(i as int + 1));
        let ghost before = out@;
        match &args[i] {
            ResolvedGenericArg::Type(ty) => write_type(out, ty),
            ResolvedGenericArg::Comp(value) => {
                out.push('=');
                let declared: ResolvedType = value.resolved_type();
                write_plain(out, &declared);
                out.push(':');
                push_scalar(out, value);
            },
        }
        assert(out@ =~= before + arg_key(args@[i as int]));
        out.push(',');
        i = i + 1;
    }
    out.push('>');
    assert(out@ =~= old(out)@ + args_key(args@));
}

/// Appends the key of a scalar type.
fn write_plain(out: &mut Vec<char>, ty: &ResolvedType)
    requires
        exists|value: CompScalar| #[trigger] value.declared().denoted() == *ty,
    ensures
        final(out)@ == old(out)@ + type_key(*ty),
        forall|value: CompScalar| #[trigger]
            value.declared().denoted() == *ty ==> scalar_type_key(value) == type_key(*ty),
{
    let (first, second): (char, char) = match ty {
        ResolvedType::Bool => ('v', '2'),
        ResolvedType::Char => ('v', '3'),
        ResolvedType::I8 => ('i', '1'),
        ResolvedType::I16 => ('i', '2'),
        ResolvedType::I32 => ('i', '3'),
        ResolvedType::I64 => ('i', '4'),
        ResolvedType::ISize => ('i', '5'),
        ResolvedType::U8 => ('u', '1'),
        ResolvedType::U16 => ('u', '2'),
        ResolvedType::U32 => ('u', '3'),
        ResolvedType::U64 => ('u', '4'),
        _ => ('u', '5'),
    };
    out.push(first);
    out.push(second);
    assert(out@ =~= old(out)@ + type_key(*ty));
}

fn write_pair(out: &mut Vec<char>, first: char, second: char)
    ensures
        final(out)@ == old(out)@ + seq![first, second],
{
    out.push(first);
    out.push(second);
    assert(out@ =~= old(out)@ + seq![first, second]);
}

fn write_type(out: &mut Vec<char>, ty: &ResolvedType)
    ensures
        final(out)@ == old(out)@ + type_key(*ty),
    decreases ty, 0int,
{
    match ty {
        ResolvedType::Void => write_pair(out, 'v', '0'),
        ResolvedType::Never => write_pair(out, 'v', '1'),
        ResolvedType::Bool => write_pair(out, 'v', '2'),
        ResolvedType::Char => write_pair(out, 'v', '3'),
        ResolvedType::I8 => write_pair(out, 'i', '1'),
        ResolvedType::I16 => write_pair(out, 'i', '2'),
        ResolvedType::I32 => write_pair(out, 'i', '3'),
        ResolvedType::I64 => write_pair(out, 'i', '4'),
        ResolvedType::ISize => write_pair(out, 'i', '5'),
        ResolvedType::U8 => write_pair(out, 'u', '1'),
        ResolvedType::U16 => write_pair(out, 'u', '2'),
        ResolvedType::U32 => write_pair(out, 'u', '3'),
        ResolvedType::U64 => write_pair(out, 'u', '4'),
        ResolvedType::USize => write_pair(out, 'u', '5'),
        ResolvedType::F32 => write_pair(out, 'f', '1'),
        ResolvedType::F64 => write_pair(out, 'f', '2'),
        ResolvedType::Pointer { pointee, mutable } => {
            out.push('p');
            write_mutability(out, *mutable);
            write_type(out, pointee);
            assert(out@ =~= old(out)@ + type_key(*ty));
        },
        ResolvedType::Array(item, mutable) => {
            out.push('a');
            write_mutability(out, *mutable);
            write_type(out, item);
            assert(out@ =~= old(out)@ + type_key(*ty));
        },
        ResolvedType::Slice { item, mutable } => {
            out.push('l');
            write_mutability(out, *mutable);
            write_type(out, item);
            assert(out@ =~= old(out)@ + type_key(*ty));
        },
        ResolvedType::Str { mutable } => {
            out.push('s');
            write_mutability(out, *mutable);
            assert(out@ =~= old(out)@ + type_key(*ty));
        },
        ResolvedType::SizedArray(item, size) => {
            out.push('r');
            push_decimal(out, *size as u128);
            out.push(':');
            write_type(out, item);
            assert(out@ =~= old(out)@ + type_key(*ty));
        },
        ResolvedType::Function(function) => write_function(out, function),
        ResolvedType::Struct(cell) => {
            write_nominal(out, 'S', &cell.module, &cell.name);
            write_args(out, &cell.generic_args);
            assert(out@ =~= old(out)@ + type_key(*ty));
        },
        ResolvedType::Union(cell) => {
            write_nominal(out, 'U', &cell.module, &cell.name);
            write_args(out, &cell.generic_args);
            assert(out@ =~= old(out)@ + type_key(*ty));
        },
        ResolvedType::Enum { cell, variant } => {
            write_nominal(out, 'E', &cell.module, &cell.name);
            write_args(out, &cell.generic_args);
            write_variant(out, *variant);
            assert(out@ =~= old(out)@ + type_key(*ty));
        },
        ResolvedType::Spec(cell) => {
            write_nominal(out, 'P', &cell.module, &cell.name);
            write_args(out, &cell.generic_args);
            assert(out@ =~= old(out)@ + type_key(*ty));
        },
        ResolvedType::SpecObject { shape, mutable } => {
            out.push('O');
            write_mutability(out, *mutable);
            out.push('[');
            write_application_items(out, &shape.members);
            out.push(']');
            assert(out@ =~= old(out)@ + type_key(*ty));
        },
        ResolvedType::AnonymousEnum { shape, variant } => {
            write_pair(out, 'A', '[');
            write_type_items(out, &shape.members);
            out.push(']');
            write_variant(out, *variant);
            assert(out@ =~= old(out)@ + type_key(*ty));
        },
    }
}

fn write_type_items(out: &mut Vec<char>, types: &Vec<ResolvedType>)
    ensures
        final(out)@ == old(out)@ + type_items(types@),
    decreases types, 0int,
{
    let mut i: usize = 0;
    assert(types@.skip(0) =~= types@);
    while i < types.len()
        invariant
            i <= types@.len(),
            old(out)@ + type_items(types@) =~= out@ + type_items(types@.skip(i as int)),
        decreases types.len() - i,
    {
        assert(types@.skip(i as int).drop_first() =~= types@.skip(i as int + 1));
        write_type(out, &types[i]);
        out.push(',');
        i = i + 1;
    }
    assert(out@ =~= old(out)@ + type_items(types@));
}

fn write_function(out: &mut Vec<char>, function: &ResolvedFunctionType)
    ensures
        final(out)@ == old(out)@ + function_key(*function),
    decreases function, 0int,
{
    out.push('F');
    out.push(
        match function.calling_convention {
            CallingConvention::Omega => 'o',
            CallingConvention::C => 'c',
            CallingConvention::SysV64 => 's',
        },
    );
    out.push(
        match function.self_mode {
            None => 'n',
            Some(SelfMode::Value) => 'v',
            Some(SelfMode::MutValue) => 'V',
            Some(SelfMode::Pointer) => 'p',
            Some(SelfMode::MutPointer) => 'P',
        },
    );
    out.push(
        if function.is_variadic {
            '.'
        } else {
            '_'
        },
    );
    out.push('(');
    write_param_items(out, &function.params);
    out.push(')');
    write_type(out, &function.return_type);
    assert(out@ =~= old(out)@ + function_key(*function));
}

fn write_param_items(out: &mut Vec<char>, params: &Vec<ResolvedFunctionParam>)
    ensures
        final(out)@ == old(out)@ + param_items(params@),
    decreases params, 0int,
{
    let mut i: usize = 0;
    assert(params@.skip(0) =~= params@);
    while i < params.len()
        invariant
            i <= params@.len(),
            old(out)@ + param_items(params@) =~= out@ + param_items(params@.skip(i as int)),
        decreases params.len() - i,
    {
        assert(params@.skip(i as int).drop_first() =~= params@.skip(i as int + 1));
        write_type(out, &params[i].ty);
        out.push(',');
        i = i + 1;
    }
    assert(out@ =~= old(out)@ + param_items(params@));
}

fn write_spec_application(out: &mut Vec<char>, application: &ResolvedSpecApplication)
    ensures
        final(out)@ == old(out)@ + application_key(*application),
    decreases application, 2int,
{
    write_nominal(out, 'P', &application.spec.module, &application.spec.name);
    write_args(out, &application.spec_args);
    assert(out@ =~= old(out)@ + application_key(*application));
}

fn write_application_items(out: &mut Vec<char>, members: &Vec<ResolvedSpecApplication>)
    ensures
        final(out)@ == old(out)@ + application_items(members@),
    decreases members, 0int,
{
    let mut i: usize = 0;
    assert(members@.skip(0) =~= members@);
    while i < members.len()
        invariant
            i <= members@.len(),
            old(out)@ + application_items(members@) =~= out@ + application_items(
                members@.skip(i as int),
            ),
        decreases members.len() - i,
    {
        assert(members@.skip(i as int).drop_first() =~= members@.skip(i as int + 1));
        write_spec_application(out, &members[i]);
        out.push(',');
        i = i + 1;
    }
    assert(out@ =~= old(out)@ + application_items(members@));
}

/// The key of a type, as text.
pub fn structural_key(ty: &ResolvedType) -> (key: String)
    ensures
        key@ == type_key(*ty),
{
    text_of(&type_key_chars(ty))
}

/// The key of a type, as characters.
pub fn type_key_chars(ty: &ResolvedType) -> (key: Vec<char>)
    ensures
        key@ == type_key(*ty),
{
    let mut out: Vec<char> = Vec::new();
    write_type(&mut out, ty);
    assert(out@ =~= type_key(*ty));
    out
}

/// The key of a spec application, as text.
pub fn spec_application_key(application: &ResolvedSpecApplication) -> (key: String)
    ensures
        key@ == application_key(*application),
{
    text_of(&application_key_chars(application))
}

fn application_key_chars(application: &ResolvedSpecApplication) -> (key: Vec<char>)
    ensures
        key@ == application_key(*application),
{
    let mut out: Vec<char> = Vec::new();
    write_spec_application(&mut out, application);
    assert(out@ =~= application_key(*application));
    out
}

/// The keys of a list of types.
pub open spec fn type_keys(types: Seq<ResolvedType>) -> Seq<Seq<char>> {
    types.map_values(|ty: ResolvedType| type_key(ty))
}

/// The keys of a list of spec applications.
pub open spec fn application_keys(members: Seq<ResolvedSpecApplication>) -> Seq<Seq<char>> {
    members.map_values(|member: ResolvedSpecApplication| application_key(member))
}

/// The leaves that one member contributes to an anonymous enum. An immediate
/// anonymous-enum member contributes its own members; every other constructor
/// is a boundary and stays one atomic member.
pub open spec fn member_leaves(member: ResolvedType) -> Seq<ResolvedType>
    decreases member,
{
    match member {
        ResolvedType::AnonymousEnum { shape, .. } => all_leaves(shape.members@),
        atomic => seq![atomic],
    }
}

/// The leaves of a list of members, in order.
pub open spec fn all_leaves(members: Seq<ResolvedType>) -> Seq<ResolvedType>
    decreases members,
{
    if members.len() == 0 {
        Seq::empty()
    } else {
        member_leaves(members[0]) + all_leaves(members.drop_first())
    }
}

/// A list of types in the stable order of their keys.
pub open spec fn sorted_types(types: Seq<ResolvedType>) -> Seq<ResolvedType> {
    arranged(types, stable_order(type_keys(types)))
}

/// The canonical members of the anonymous enum written with `members`.
pub open spec fn canonical_members(members: Seq<ResolvedType>) -> Seq<ResolvedType> {
    deduplicated(sorted_types(all_leaves(members)), |a: ResolvedType, b: ResolvedType|
        same_type(a, b))
}

/// The canonical members of the spec conjunction written with `members`.
pub open spec fn canonical_applications(members: Seq<ResolvedSpecApplication>) -> Seq<
    ResolvedSpecApplication,
> {
    deduplicated(arranged(members, stable_order(application_keys(members))),
        |a: ResolvedSpecApplication, b: ResolvedSpecApplication| same_application(a, b))
}

impl ResolvedAnonymousEnum {
    /// The most members a shape can have: its tag is a `u32` holding the
    /// canonical member index.
    pub const MAX_MEMBERS: u64 = 0x1_0000_0000;

    /// The shape written with `members`, whatever their order, nesting, and
    /// repetition.
    pub fn canonicalize(members: Vec<ResolvedType>) -> (shape: Self)
        ensures
            shape.members@ == canonical_members(members@),
    {
        let mut flattened: Vec<ResolvedType> = Vec::new();
        flatten_members_into(&members, &mut flattened);
        assert(flattened@ =~= all_leaves(members@));
        let sorted: Vec<ResolvedType> = sort_types(&flattened);
        ResolvedAnonymousEnum { members: dedup_types(&sorted) }
    }

    /// Whether the canonical member list outgrew the fixed `u32` tag.
    pub fn exceeds_tag_domain(&self) -> (r: bool)
        ensures
            r == (self.members@.len() > Self::MAX_MEMBERS),
    {
        self.members.len() as u64 > Self::MAX_MEMBERS
    }
}

fn flatten_member_into(member: &ResolvedType, out: &mut Vec<ResolvedType>)
    ensures
        final(out)@ == old(out)@ + member_leaves(*member),
    decreases member,
{
    match member {
        ResolvedType::AnonymousEnum { shape, .. } => flatten_members_into(&shape.members, out),
        atomic => {
            out.push(atomic.clone());
        },
    }
}

fn flatten_members_into(members: &Vec<ResolvedType>, out: &mut Vec<ResolvedType>)
    ensures
        final(out)@ == old(out)@ + all_leaves(members@),
    decreases members,
{
    let mut i: usize = 0;
    assert(members@.skip(0) =~= members@);
    while i < members.len()
        invariant
            i <= members@.len(),
            old(out)@ + all_leaves(members@) =~= out@ + all_leaves(members@.skip(i as int)),
        decreases members.len() - i,
    {
        assert(members@.skip(i as int).drop_first() =~= members@.skip(i as int + 1));
        flatten_member_into(&members[i], out);
        i = i + 1;
    }
    assert(out@ =~= old(out)@ + all_leaves(members@));
}

fn sort_types(types: &Vec<ResolvedType>) -> (sorted: Vec<ResolvedType>)
    ensures
        sorted@ == sorted_types(types@),
{
    let mut keys: Vec<Vec<char>> = Vec::new();
    let mut i: usize = 0;
    while i < types.len()
        invariant
            i <= types@.len(),
            key_views(keys@) =~= type_keys(types@).take(i as int),
        decreases types.len() - i,
    {
        let ghost before = keys@;
        keys.push(type_key_chars(&types[i]));
        assert(key_views(keys@) =~= key_views(before).push(keys@.last()@));
        i = i + 1;
    }
    assert(key_views(keys@) =~= type_keys(types@));
    assert(key_views(keys@).len() == keys@.len());
    let order: Vec<usize> = sorted_order(&keys);
    let mut sorted: Vec<ResolvedType> = Vec::new();
    let mut k: usize = 0;
    while k < order.len()
        invariant
            k <= order@.len(),
            forall|j: int| 0 <= j < order@.len() ==> #[trigger] order@[j] < types@.len(),
            sorted@ =~= arranged(types@, positions(order@)).take(k as int),
        decreases order.len() - k,
    {
        sorted.push(types[order[k]].clone());
        k = k + 1;
    }
    assert(sorted@ =~= sorted_types(types@));
    sorted
}

fn dedup_types(types: &Vec<ResolvedType>) -> (kept: Vec<ResolvedType>)
    ensures
        kept@ == deduplicated(types@, |a: ResolvedType, b: ResolvedType| same_type(a, b)),
{
    let ghost same = |a: ResolvedType, b: ResolvedType| same_type(a, b);
    let mut kept: Vec<ResolvedType> = Vec::new();
    let mut i: usize = 0;
    while i < types.len()
        invariant
            i <= types@.len(),
            same == (|a: ResolvedType, b: ResolvedType| same_type(a, b)),
            kept@ == deduplicated(types@.take(i as int), same),
        decreases types.len() - i,
    {
        assert(types@.take(i as int + 1).drop_last() =~= types@.take(i as int));
        let repeated: bool = kept.len() > 0 && kept[kept.len() - 1] == types[i];
        if !repeated {
            kept.push(types[i].clone());
        }
        i = i + 1;
    }
    assert(types@.take(i as int) =~= types@);
    kept
}

impl ResolvedSpecShape {
    /// Sorts by canonical key and removes exact duplicate applications.
    pub fn canonicalize(members: Vec<ResolvedSpecApplication>) -> (shape: Self)
        ensures
            shape.members@ == canonical_applications(members@),
    {
        let mut keys: Vec<Vec<char>> = Vec::new();
        let mut i: usize = 0;
        while i < members.len()
            invariant
                i <= members@.len(),
                key_views(keys@) =~= application_keys(members@).take(i as int),
            decreases members.len() - i,
        {
            let ghost before = keys@;
            keys.push(application_key_chars(&members[i]));
            assert(key_views(keys@) =~= key_views(before).push(keys@.last()@));
            i = i + 1;
        }
        assert(key_views(keys@) =~= application_keys(members@));
        assert(key_views(keys@).len() == keys@.len());
        let order: Vec<usize> = sorted_order(&keys);
        let ghost sorted = arranged(members@, positions(order@));
        let ghost same = |a: ResolvedSpecApplication, b: ResolvedSpecApplication|
            same_application(a, b);
        let mut kept: Vec<ResolvedSpecApplication> = Vec::new();
        let mut k: usize = 0;
        while k < order.len()
            invariant
                k <= order@.len(),
                forall|j: int| 0 <= j < order@.len() ==> #[trigger] order@[j] < members@.len(),
                sorted == arranged(members@, positions(order@)),
                same == (|a: ResolvedSpecApplication, b: ResolvedSpecApplication|
                    same_application(a, b)),
                kept@ == deduplicated(sorted.take(k as int), same),
            decreases order.len() - k,
        {
            assert(sorted.take(k as int + 1).drop_last() =~= sorted.take(k as int));
            assert(sorted[k as int] == members@[order@[k as int] as int]);
            let member: &ResolvedSpecApplication = &members[order[k]];
            let repeated: bool = kept.len() > 0 && kept[kept.len() - 1] == *member;
            if !repeated {
                kept.push(member.clone());
            }
            k = k + 1;
        }
        assert(sorted.take(k as int) =~= sorted);
        ResolvedSpecShape { members: kept }
    }
}

} // verus!
