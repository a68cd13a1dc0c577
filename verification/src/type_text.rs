//! How types are written in diagnostics.

use crate::resolved_type::{
    CallingConvention, ResolvedAnonymousEnum, ResolvedEnumType, ResolvedFunctionParam,
    ResolvedFunctionType, ResolvedGenericArg, ResolvedSpecApplication, ResolvedSpecShape,
    ResolvedType,
};
use crate::syntax::{Ident, SelfMode};
use crate::text::{decimal, decimal_text, join_texts, joined, same_text, views};
use crate::type_eq::same_type;
use crate::type_key::scalar_text;
use vstd::prelude::*;

verus! {

/// How a receiver form is written.
pub open spec fn receiver_text(self_mode: SelfMode) -> Seq<char> {
    match self_mode {
        SelfMode::Value => "self"@,
        SelfMode::MutValue => "mut self"@,
        SelfMode::Pointer => "*self"@,
        SelfMode::MutPointer => "*mut self"@,
    }
}

fn self_mode_spelling(self_mode: SelfMode) -> (text: &'static str)
    ensures
        text@ == receiver_text(self_mode),
{
    match self_mode {
        SelfMode::Value => "self",
        SelfMode::MutValue => "mut self",
        SelfMode::Pointer => "*self",
        SelfMode::MutPointer => "*mut self",
    }
}

/// A module path, each name followed by `::`.
pub open spec fn module_text(module: Seq<Ident>) -> Seq<char>
    decreases module.len(),
{
    if module.len() == 0 {
        Seq::empty()
    } else {
        module_text(module.drop_last()) + module.last()@ + "::"@
    }
}

/// How a declaration is named: its short name, or its whole path.
pub open spec fn nominal_text(module: Seq<Ident>, name: Seq<char>, qualified: bool) -> Seq<char> {
    if qualified {
        module_text(module) + name
    } else {
        name
    }
}

/// How a type is written. Nominal types are spelled with their declaring
/// module path where `qualified` asks for it.
pub open spec fn type_text(ty: ResolvedType, qualified: bool) -> Seq<char>
    decreases ty, 0int,
{
    match ty {
        ResolvedType::Void => "void"@,
        ResolvedType::Never => "never"@,
        ResolvedType::Bool => "bool"@,
        ResolvedType::Char => "char"@,
        ResolvedType::I8 => "i8"@,
        ResolvedType::I16 => "i16"@,
        ResolvedType::I32 => "i32"@,
        ResolvedType::I64 => "i64"@,
        ResolvedType::ISize => "isize"@,
        ResolvedType::U8 => "u8"@,
        ResolvedType::U16 => "u16"@,
        ResolvedType::U32 => "u32"@,
        ResolvedType::U64 => "u64"@,
        ResolvedType::USize => "usize"@,
        ResolvedType::F32 => "f32"@,
        ResolvedType::F64 => "f64"@,
        ResolvedType::Pointer { pointee, mutable: false } => "*"@ + type_text(*pointee, qualified),
        ResolvedType::Pointer { pointee, mutable: true } => "*mut "@ + type_text(
            *pointee,
            qualified,
        ),
        ResolvedType::Function(function) => function_text(*function, qualified),
        ResolvedType::Array(item, false) => "*[?]"@ + type_text(*item, qualified),
        ResolvedType::Array(item, true) => "*mut [?]"@ + type_text(*item, qualified),
        ResolvedType::SizedArray(item, size) => "["@ + decimal(size as nat) + "]"@ + type_text(
            *item,
            qualified,
        ),
        ResolvedType::Slice { item, mutable: false } => "*[]"@ + type_text(*item, qualified),
        ResolvedType::Slice { item, mutable: true } => "*mut []"@ + type_text(*item, qualified),
        ResolvedType::Str { mutable: false } => "*str"@,
        ResolvedType::Str { mutable: true } => "*mut str"@,
        ResolvedType::Struct(cell) => nominal_text(cell.module@, cell.name@, qualified)
            + generic_args_text(cell.generic_args@, qualified),
        ResolvedType::Union(cell) => nominal_text(cell.module@, cell.name@, qualified)
            + generic_args_text(cell.generic_args@, qualified),
        ResolvedType::Enum { cell, variant } => nominal_text(cell.module@, cell.name@, qualified)
            + generic_args_text(cell.generic_args@, qualified) + variant_text(*cell, variant),
        ResolvedType::Spec(cell) => nominal_text(cell.module@, cell.name@, qualified)
            + generic_args_text(cell.generic_args@, qualified),
        ResolvedType::SpecObject { shape, mutable: false } => "*spec "@ + joined(
            application_texts(shape.members@),
            " + "@,
        ),
        ResolvedType::SpecObject { shape, mutable: true } => "*mut spec "@ + joined(
            application_texts(shape.members@),
            " + "@,
        ),
        ResolvedType::AnonymousEnum { shape, variant: None } => "enum "@ + joined(
            type_texts(shape.members@),
            " | "@,
        ),
        ResolvedType::AnonymousEnum { shape, variant: Some(index) } => if index
            < shape.members@.len() {
            type_text(shape.members@[index as int], false) + " ("@ + ("enum "@ + joined(
                type_texts(shape.members@),
                " | "@,
            )) + ")"@
        } else {
            Seq::empty()
        },
    }
}

/// How a known variant is written.
pub open spec fn variant_text(cell: ResolvedEnumType, variant: Option<usize>) -> Seq<char> {
    match variant {
        Some(index) => "::"@ + cell.variants@[index as int].name@,
        None => Seq::empty(),
    }
}

/// How a calling convention is written in front of a function type.
pub open spec fn convention_text(convention: CallingConvention) -> Seq<char> {
    if convention is Omega {
        "("@
    } else {
        "foreign("@ + convention.spelling() + ") "@ + "("@
    }
}

/// How a function type is written.
pub open spec fn function_text(function: ResolvedFunctionType, qualified: bool) -> Seq<char>
    decreases function, 0int,
{
    convention_text(function.calling_convention) + joined(
        receiver_items(function.self_mode) + param_texts(function.params@, qualified)
            + tail_items(function.is_variadic),
        ", "@,
    ) + ") => "@ + type_text(*function.return_type, qualified)
}

/// The receiver, where there is one.
pub open spec fn receiver_items(self_mode: Option<SelfMode>) -> Seq<Seq<char>> {
    match self_mode {
        Some(mode) => seq![receiver_text(mode)],
        None => Seq::empty(),
    }
}

/// The mark of a variadic tail, where there is one.
pub open spec fn tail_items(is_variadic: bool) -> Seq<Seq<char>> {
    if is_variadic {
        seq!["..."@]
    } else {
        Seq::empty()
    }
}

/// How parameters are written, each on its own.
pub open spec fn param_texts(params: Seq<ResolvedFunctionParam>, qualified: bool) -> Seq<Seq<char>>
    decreases params, 0int,
{
    if params.len() == 0 {
        Seq::empty()
    } else {
        param_texts(params.drop_last(), qualified).push(
            match params.last().name {
                Some(name) => name@ + ": "@ + type_text(params.last().ty, qualified),
                None => type_text(params.last().ty, qualified),
            },
        )
    }
}

/// How a generic argument is written.
pub open spec fn generic_arg_text(arg: ResolvedGenericArg, qualified: bool) -> Seq<char>
    decreases arg, 0int,
{
    match arg {
        ResolvedGenericArg::Type(ty) => type_text(ty, qualified),
        ResolvedGenericArg::Comp(value) => scalar_text(value),
    }
}

/// How generic arguments are written, each on its own.
pub open spec fn generic_arg_texts(args: Seq<ResolvedGenericArg>, qualified: bool) -> Seq<Seq<char>>
    decreases args, 0int,
{
    if args.len() == 0 {
        Seq::empty()
    } else {
        generic_arg_texts(args.drop_last(), qualified).push(
            generic_arg_text(args.last(), qualified),
        )
    }
}

/// How an argument list is written: nothing where there is no argument.
pub open spec fn generic_args_text(args: Seq<ResolvedGenericArg>, qualified: bool) -> Seq<char>
    decreases args, 1int,
{
    if args.len() == 0 {
        Seq::empty()
    } else {
        "<"@ + joined(generic_arg_texts(args, qualified), ", "@) + ">"@
    }
}

/// How a spec application is written.
pub open spec fn application_text(application: ResolvedSpecApplication) -> Seq<char>
    decreases application, 2int,
{
    application.spec.name@ + generic_args_text(application.spec_args@, false)
}

/// How spec applications are written, each on its own.
pub open spec fn application_texts(members: Seq<ResolvedSpecApplication>) -> Seq<Seq<char>>
    decreases members, 0int,
{
    if members.len() == 0 {
        Seq::empty()
    } else {
        application_texts(members.drop_last()).push(application_text(members.last()))
    }
}

/// How types are written, each on its own.
pub open spec fn type_texts(types: Seq<ResolvedType>) -> Seq<Seq<char>>
    decreases types, 0int,
{
    if types.len() == 0 {
        Seq::empty()
    } else {
        type_texts(types.drop_last()).push(type_text(types.last(), false))
    }
}

/// Whether every refinement that is written with a type names one of its
/// enum's variants.
pub open spec fn printable(ty: ResolvedType) -> bool
    decreases ty, 0int,
{
    match ty {
        ResolvedType::Pointer { pointee, .. } => printable(*pointee),
        ResolvedType::Function(function) => printable_function(*function),
        ResolvedType::Array(item, _) => printable(*item),
        ResolvedType::SizedArray(item, _) => printable(*item),
        ResolvedType::Slice { item, .. } => printable(*item),
        ResolvedType::Struct(cell) => printable_args(cell.generic_args@),
        ResolvedType::Union(cell) => printable_args(cell.generic_args@),
        ResolvedType::Enum { cell, variant } => printable_args(cell.generic_args@) && (
        variant matches Some(index) ==> index < cell.variants@.len()),
        ResolvedType::Spec(cell) => printable_args(cell.generic_args@),
        ResolvedType::SpecObject { shape, .. } => forall|i: int|
            0 <= i < shape.members@.len() ==> printable_args(
                #[trigger] shape.members@[i].spec_args@,
            ),
        ResolvedType::AnonymousEnum { shape, variant } => printable_types(shape.members@) && (
        variant matches Some(index) ==> index < shape.members@.len()),
        _ => true,
    }
}

/// [`printable`] for a function type.
pub open spec fn printable_function(function: ResolvedFunctionType) -> bool
    decreases function, 0int,
{
    &&& forall|i: int| 0 <= i < function.params@.len() ==> printable(#[trigger] function.params@[i].ty)
    &&& printable(*function.return_type)
}

/// [`printable`] for one generic argument.
pub open spec fn printable_arg(arg: ResolvedGenericArg) -> bool
    decreases arg, 0int,
{
    match arg {
        ResolvedGenericArg::Type(ty) => printable(ty),
        ResolvedGenericArg::Comp(_) => true,
    }
}

/// [`printable`] for generic arguments.
pub open spec fn printable_args(args: Seq<ResolvedGenericArg>) -> bool
    decreases args, 0int,
{
    forall|i: int| 0 <= i < args.len() ==> printable_arg(#[trigger] args[i])
}

/// [`printable`] for types.
pub open spec fn printable_types(types: Seq<ResolvedType>) -> bool
    decreases types, 0int,
{
    forall|i: int| 0 <= i < types.len() ==> printable(#[trigger] types[i])
}

fn prefixed(prefix: &str, rest: String) -> (text: String)
    ensures
        text@ == prefix@ + rest@,
{
    let mut text: String = prefix.to_owned();
    text.append(rest.as_str());
    text
}

fn name_nominal(module: &Vec<Ident>, name: &Ident, qualified: bool) -> (text: String)
    ensures
        text@ == nominal_text(module@, name@, qualified),
{
    if !qualified {
        return name.as_ref().to_owned();
    }
    let mut text: String = String::new();
    let mut i: usize = 0;
    while i < module.len()
        invariant
            i <= module@.len(),
            text@ == module_text(module@.take(i as int)),
        decreases module.len() - i,
    {
        assert(module@.take(i as int + 1).drop_last() =~= module@.take(i as int));
        text.append(module[i].as_ref());
        text.append("::");
        i = i + 1;
    }
    assert(module@.take(i as int) =~= module@);
    text.append(name.as_ref());
    text
}

fn write_generic_args(args: &Vec<ResolvedGenericArg>, qualified: bool) -> (text: String)
    requires
        printable_args(args@),
    ensures
        text@ == generic_args_text(args@, qualified),
    decreases args, 1int,
{
    if args.len() == 0 {
        return String::new();
    }
    let mut rendered: Vec<String> = Vec::new();
    let mut i: usize = 0;
    assert(views(rendered@) =~= Seq::empty());
    while i < args.len()
        invariant
            i <= args@.len(),
            printable_args(args@),
            views(rendered@) == generic_arg_texts(args@.take(i as int), qualified),
        decreases args.len() - i,
    {
        assert(args@.take(i as int + 1).drop_last() =~= args@.take(i as int));
        assert(printable_arg(args@[i as int]));
        let item: String = write_arg(&args[i], qualified);
        let ghost before = rendered@;
        rendered.push(item);
        assert(views(rendered@) =~= views(before).push(rendered@.last()@));
        i = i + 1;
    }
    assert(args@.take(i as int) =~= args@);
    let mut text: String = "<".to_owned();
    text.append(join_texts(&rendered, ", ").as_str());
    text.append(">");
    text
}

fn write_arg(arg: &ResolvedGenericArg, qualified: bool) -> (text: String)
    requires
        printable_arg(*arg),
    ensures
        text@ == generic_arg_text(*arg, qualified),
    decreases arg, 0int,
{
    match arg {
        ResolvedGenericArg::Type(ty) => write(ty, qualified),
        ResolvedGenericArg::Comp(value) => value.to_string(),
    }
}

fn write_function(function: &ResolvedFunctionType, qualified: bool) -> (text: String)
    requires
        printable_function(*function),
    ensures
        text@ == function_text(*function, qualified),
    decreases function, 0int,
{
    let mut items: Vec<String> = Vec::new();
    if let Some(mode) = function.self_mode {
        items.push(self_mode_spelling(mode).to_owned());
    }
    let ghost receiver = receiver_items(function.self_mode);
    assert(views(items@) =~= receiver);
    let mut params: Vec<String> = write_params(&function.params, qualified);
    let ghost rendered = params@;
    items.append(&mut params);
    assert(views(items@) =~= receiver + views(rendered));
    if function.is_variadic {
        items.push("...".to_owned());
    }
    assert(views(items@) =~= receiver + views(rendered) + tail_items(function.is_variadic));
    let mut text: String = if function.calling_convention == CallingConvention::Omega {
        "(".to_owned()
    } else {
        let mut head: String = "foreign(".to_owned();
        head.append(function.calling_convention.name());
        head.append(") ");
        head.append("(");
        head
    };
    text.append(join_texts(&items, ", ").as_str());
    text.append(") => ");
    text.append(write(&function.return_type, qualified).as_str());
    text
}

fn write_params(params: &Vec<ResolvedFunctionParam>, qualified: bool) -> (rendered: Vec<String>)
    requires
        forall|i: int| 0 <= i < params@.len() ==> printable(#[trigger] params@[i].ty),
    ensures
        views(rendered@) == param_texts(params@, qualified),
    decreases params, 0int,
{
    let mut rendered: Vec<String> = Vec::new();
    let mut i: usize = 0;
    assert(views(rendered@) =~= Seq::empty());
    while i < params.len()
        invariant
            i <= params@.len(),
            forall|k: int| 0 <= k < params@.len() ==> printable(#[trigger] params@[k].ty),
            views(rendered@) == param_texts(params@.take(i as int), qualified),
        decreases params.len() - i,
    {
        assert(params@.take(i as int + 1).drop_last() =~= params@.take(i as int));
        assert(printable(params@[i as int].ty));
        let ty: String = write(&params[i].ty, qualified);
        let item: String = match &params[i].name {
            Some(name) => {
                let mut described: String = name.as_ref().to_owned();
                described.append(": ");
                described.append(ty.as_str());
                described
            },
            None => ty,
        };
        let ghost before = rendered@;
        rendered.push(item);
        assert(views(rendered@) =~= views(before).push(rendered@.last()@));
        i = i + 1;
    }
    assert(params@.take(i as int) =~= params@);
    rendered
}

fn write_application(application: &ResolvedSpecApplication) -> (text: String)
    requires
        printable_args(application.spec_args@),
    ensures
        text@ == application_text(*application),
    decreases application, 2int,
{
    let mut text: String = application.spec.name.as_ref().to_owned();
    text.append(write_generic_args(&application.spec_args, false).as_str());
    text
}

fn write_applications(members: &Vec<ResolvedSpecApplication>) -> (rendered: Vec<String>)
    requires
        forall|i: int|
            0 <= i < members@.len() ==> printable_args(#[trigger] members@[i].spec_args@),
    ensures
        views(rendered@) == application_texts(members@),
    decreases members, 0int,
{
    let mut rendered: Vec<String> = Vec::new();
    let mut i: usize = 0;
    assert(views(rendered@) =~= Seq::empty());
    while i < members.len()
        invariant
            i <= members@.len(),
            forall|k: int|
                0 <= k < members@.len() ==> printable_args(#[trigger] members@[k].spec_args@),
            views(rendered@) == application_texts(members@.take(i as int)),
        decreases members.len() - i,
    {
        assert(members@.take(i as int + 1).drop_last() =~= members@.take(i as int));
        assert(printable_args(members@[i as int].spec_args@));
        let item: String = write_application(&members[i]);
        let ghost before = rendered@;
        rendered.push(item);
        assert(views(rendered@) =~= views(before).push(rendered@.last()@));
        i = i + 1;
    }
    assert(members@.take(i as int) =~= members@);
    rendered
}

fn write_types(types: &Vec<ResolvedType>) -> (rendered: Vec<String>)
    requires
        printable_types(types@),
    ensures
        views(rendered@) == type_texts(types@),
    decreases types, 0int,
{
    let mut rendered: Vec<String> = Vec::new();
    let mut i: usize = 0;
    assert(views(rendered@) =~= Seq::empty());
    while i < types.len()
        invariant
            i <= types@.len(),
            printable_types(types@),
            views(rendered@) == type_texts(types@.take(i as int)),
        decreases types.len() - i,
    {
        assert(types@.take(i as int + 1).drop_last() =~= types@.take(i as int));
        assert(printable(types@[i as int]));
        let item: String = write(&types[i], false);
        let ghost before = rendered@;
        rendered.push(item);
        assert(views(rendered@) =~= views(before).push(rendered@.last()@));
        i = i + 1;
    }
    assert(types@.take(i as int) =~= types@);
    rendered
}

fn write_shape(shape: &ResolvedAnonymousEnum) -> (text: String)
    requires
        printable_types(shape.members@),
    ensures
        text@ == "enum "@ + joined(type_texts(shape.members@), " | "@),
    decreases shape, 0int,
{
    prefixed("enum ", join_texts(&write_types(&shape.members), " | "))
}

fn write(ty: &ResolvedType, qualified: bool) -> (text: String)
    requires
        printable(*ty),
    ensures
        text@ == type_text(*ty, qualified),
    decreases ty, 0int,
{
    match ty {
        ResolvedType::Void => "void".to_owned(),
        ResolvedType::Never => "never".to_owned(),
        ResolvedType::Bool => "bool".to_owned(),
        ResolvedType::Char => "char".to_owned(),
        ResolvedType::I8 => "i8".to_owned(),
        ResolvedType::I16 => "i16".to_owned(),
        ResolvedType::I32 => "i32".to_owned(),
        ResolvedType::I64 => "i64".to_owned(),
        ResolvedType::ISize => "isize".to_owned(),
        ResolvedType::U8 => "u8".to_owned(),
        ResolvedType::U16 => "u16".to_owned(),
        ResolvedType::U32 => "u32".to_owned(),
        ResolvedType::U64 => "u64".to_owned(),
        ResolvedType::USize => "usize".to_owned(),
        ResolvedType::F32 => "f32".to_owned(),
        ResolvedType::F64 => "f64".to_owned(),
        ResolvedType::Pointer { pointee, mutable: false } => prefixed("*", write(pointee, qualified)),
        ResolvedType::Pointer { pointee, mutable: true } => prefixed(
            "*mut ",
            write(pointee, qualified),
        ),
        ResolvedType::Function(function) => write_function(function, qualified),
        ResolvedType::Array(item, false) => prefixed("*[?]", write(item, qualified)),
        ResolvedType::Array(item, true) => prefixed("*mut [?]", write(item, qualified)),
        ResolvedType::SizedArray(item, size) => {
            let mut text: String = "[".to_owned();
            text.append(decimal_text(*size as u128).as_str());
            text.append("]");
            text.append(write(item, qualified).as_str());
            text
        },
        ResolvedType::Slice { item, mutable: false } => prefixed("*[]", write(item, qualified)),
        ResolvedType::Slice { item, mutable: true } => prefixed("*mut []", write(item, qualified)),
        ResolvedType::Str { mutable: false } => "*str".to_owned(),
        ResolvedType::Str { mutable: true } => "*mut str".to_owned(),
        ResolvedType::Struct(cell) => {
            let mut text: String = name_nominal(&cell.module, &cell.name, qualified);
            text.append(write_generic_args(&cell.generic_args, qualified).as_str());
            text
        },
        ResolvedType::Union(cell) => {
            let mut text: String = name_nominal(&cell.module, &cell.name, qualified);
            text.append(write_generic_args(&cell.generic_args, qualified).as_str());
            text
        },
        ResolvedType::Enum { cell, variant } => {
            let mut text: String = name_nominal(&cell.module, &cell.name, qualified);
            text.append(write_generic_args(&cell.generic_args, qualified).as_str());
            match variant {
                Some(index) => {
                    let known: String = prefixed(
                        "::",
                        cell.variants[*index].name.as_ref().to_owned(),
                    );
                    text.append(known.as_str());
                },
                None => {
                    assert(text@ + Seq::<char>::empty() =~= text@);
                },
            }
            text
        },
        ResolvedType::Spec(cell) => {
            let mut text: String = name_nominal(&cell.module, &cell.name, qualified);
            text.append(write_generic_args(&cell.generic_args, qualified).as_str());
            text
        },
        ResolvedType::SpecObject { shape, mutable: false } => prefixed(
            "*spec ",
            join_texts(&write_applications(&shape.members), " + "),
        ),
        ResolvedType::SpecObject { shape, mutable: true } => prefixed(
            "*mut spec ",
            join_texts(&write_applications(&shape.members), " + "),
        ),
        ResolvedType::AnonymousEnum { shape, variant: None } => write_shape(shape),
        ResolvedType::AnonymousEnum { shape, variant: Some(index) } => {
            let mut text: String = write_member(&shape.members, *index);
            text.append(" (");
            text.append(write_shape(shape).as_str());
            text.append(")");
            text
        },
    }
}

fn write_member(members: &Vec<ResolvedType>, index: usize) -> (text: String)
    requires
        printable_types(members@),
        index < members@.len(),
    ensures
        text@ == type_text(members@[index as int], false),
    decreases members, 0int,
{
    assert(printable(members@[index as int]));
    write(&members[index], false)
}

impl ResolvedType {
    /// This type as diagnostics write it.
    pub fn to_string(&self) -> (text: String)
        requires
            printable(*self),
        ensures
            text@ == type_text(*self, false),
    {
        write(self, false)
    }
}

/// A rendering that spells nominal types with their declaring module path.
pub struct QualifiedType<'a>(pub &'a ResolvedType);

impl<'a> QualifiedType<'a> {
    pub fn to_string(&self) -> (text: String)
        requires
            printable(*self.0),
        ensures
            text@ == type_text(*self.0, true),
    {
        write(self.0, true)
    }
}

impl ResolvedGenericArg {
    pub fn to_string(&self) -> (text: String)
        requires
            printable_arg(*self),
        ensures
            text@ == generic_arg_text(*self, false),
    {
        write_arg(self, false)
    }
}

impl ResolvedSpecApplication {
    pub fn to_string(&self) -> (text: String)
        requires
            printable_args(self.spec_args@),
        ensures
            text@ == application_text(*self),
    {
        write_application(self)
    }
}

impl ResolvedSpecShape {
    pub fn to_string(&self) -> (text: String)
        requires
            forall|i: int|
                0 <= i < self.members@.len() ==> printable_args(
                    #[trigger] self.members@[i].spec_args@,
                ),
        ensures
            text@ == joined(application_texts(self.members@), " + "@),
    {
        join_texts(&write_applications(&self.members), " + ")
    }
}

impl ResolvedAnonymousEnum {
    pub fn to_string(&self) -> (text: String)
        requires
            printable_types(self.members@),
        ensures
            text@ == "enum "@ + joined(type_texts(self.members@), " | "@),
    {
        write_shape(self)
    }
}

/// How two types are written next to each other: by their short names, or by
/// their whole paths where two different types share one short name.
pub open spec fn distinguished(a: ResolvedType, b: ResolvedType) -> (Seq<char>, Seq<char>) {
    if type_text(a, false) != type_text(b, false) || same_type(a, b) {
        (type_text(a, false), type_text(b, false))
    } else {
        (type_text(a, true), type_text(b, true))
    }
}

pub fn distinguish(a: &ResolvedType, b: &ResolvedType) -> (texts: (String, String))
    requires
        printable(*a),
        printable(*b),
    ensures
        (texts.0@, texts.1@) == distinguished(*a, *b),
{
    let left: String = write(a, false);
    let right: String = write(b, false);
    if !same_text(left.as_str(), right.as_str()) || *a == *b {
        (left, right)
    } else {
        (write(a, true), write(b, true))
    }
}

} // verus!
