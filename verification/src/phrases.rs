//! The recurring phrases of messages.

use crate::resolved_type::{ResolvedGenericArg, ResolvedType};
use crate::syntax::{names_view, Ident};
use crate::text::{join_texts, joined, views};
use crate::type_text::{
    generic_arg_texts, printable, printable_arg, printable_args, printable_types, type_text,
    type_texts,
};
use vstd::prelude::*;

verus! {

/// `true` or `false`.
pub open spec fn bool_text(value: bool) -> Seq<char> {
    if value {
        "true"@
    } else {
        "false"@
    }
}

pub fn bool_word(value: bool) -> (text: &'static str)
    ensures
        text@ == bool_text(value),
{
    if value {
        "true"
    } else {
        "false"
    }
}

/// A path as it is written.
pub open spec fn path_text(path: Seq<Ident>) -> Seq<char> {
    joined(names_view(path), "::"@)
}

/// Names with commas between them.
pub open spec fn ident_commas_text(names: Seq<Ident>) -> Seq<char> {
    joined(names_view(names), ", "@)
}

fn joined_names(names: &Vec<Ident>, separator: &str) -> (text: String)
    ensures
        text@ == joined(names_view(names@), separator@),
{
    let mut items: Vec<String> = Vec::new();
    let mut i: usize = 0;
    while i < names.len()
        invariant
            i <= names@.len(),
            views(items@) =~= names_view(names@).take(i as int),
        decreases names.len() - i,
    {
        let ghost before = items@;
        items.push(names[i].as_ref().to_owned());
        assert(views(items@) =~= views(before).push(items@.last()@));
        i = i + 1;
    }
    assert(views(items@) =~= names_view(names@));
    join_texts(&items, separator)
}

pub fn join(path: &Vec<Ident>) -> (text: String)
    ensures
        text@ == path_text(path@),
{
    joined_names(path, "::")
}

pub fn ident_commas(names: &Vec<Ident>) -> (text: String)
    ensures
        text@ == ident_commas_text(names@),
{
    joined_names(names, ", ")
}

/// Each path as it is written.
pub open spec fn each_path(paths: Seq<Vec<Ident>>) -> Seq<Seq<char>> {
    paths.map_values(|path: Vec<Ident>| path_text(path@))
}

/// Paths with a separator between them.
pub open spec fn paths_text(paths: Seq<Vec<Ident>>, separator: Seq<char>) -> Seq<char> {
    joined(each_path(paths), separator)
}

pub fn join_paths(paths: &Vec<Vec<Ident>>, separator: &str) -> (text: String)
    ensures
        text@ == paths_text(paths@, separator@),
{
    let mut items: Vec<String> = Vec::new();
    let mut i: usize = 0;
    while i < paths.len()
        invariant
            i <= paths@.len(),
            views(items@) =~= each_path(paths@).take(i as int),
        decreases paths.len() - i,
    {
        let ghost before = items@;
        items.push(join(&paths[i]));
        assert(views(items@) =~= views(before).push(items@.last()@));
        i = i + 1;
    }
    assert(views(items@) =~= each_path(paths@));
    join_texts(&items, separator)
}

/// Each name between quotes.
pub open spec fn quoted(names: Seq<Ident>, quote: Seq<char>) -> Seq<Seq<char>> {
    names.map_values(|name: Ident| quote + name@ + quote)
}

/// Quoted names with commas between them.
pub open spec fn quoted_commas_text(names: Seq<Ident>, quote: Seq<char>) -> Seq<char> {
    joined(quoted(names, quote), ", "@)
}

fn quote_each(names: &Vec<Ident>, quote: &str) -> (items: Vec<String>)
    ensures
        views(items@) == quoted(names@, quote@),
{
    let mut items: Vec<String> = Vec::new();
    let mut i: usize = 0;
    while i < names.len()
        invariant
            i <= names@.len(),
            views(items@) =~= quoted(names@, quote@).take(i as int),
        decreases names.len() - i,
    {
        let ghost before = items@;
        let mut item: String = quote.to_owned();
        item.append(names[i].as_ref());
        item.append(quote);
        items.push(item);
        assert(views(items@) =~= views(before).push(items@.last()@));
        i = i + 1;
    }
    assert(views(items@) =~= quoted(names@, quote@));
    items
}

pub fn quoted_commas(names: &Vec<Ident>, quote: &str) -> (text: String)
    ensures
        text@ == quoted_commas_text(names@, quote@),
{
    let items: Vec<String> = quote_each(names, quote);
    join_texts(&items, ", ")
}

/// Items as an enumeration: `a`, `a and b`, or `a, b, and c`.
pub open spec fn enumeration(items: Seq<Seq<char>>) -> Seq<char> {
    if items.len() == 0 {
        Seq::empty()
    } else if items.len() == 1 {
        items[0]
    } else if items.len() == 2 {
        items[0] + " and "@ + items[1]
    } else {
        joined(items.drop_last(), ", "@) + ", and "@ + items.last()
    }
}

fn enumerate_items(items: &Vec<String>) -> (text: String)
    ensures
        text@ == enumeration(views(items@)),
{
    if items.len() == 0 {
        return String::new();
    }
    if items.len() == 1 {
        return items[0].as_str().to_owned();
    }
    if items.len() == 2 {
        let mut text: String = items[0].as_str().to_owned();
        text.append(" and ");
        text.append(items[1].as_str());
        return text;
    }
    let mut front: Vec<String> = Vec::new();
    let mut i: usize = 0;
    while i + 1 < items.len()
        invariant
            i + 1 <= items.len(),
            views(front@) =~= views(items@).take(i as int),
        decreases items.len() - i,
    {
        let ghost before = front@;
        front.push(items[i].as_str().to_owned());
        assert(views(front@) =~= views(before).push(front@.last()@));
        i = i + 1;
    }
    assert(views(front@) =~= views(items@).drop_last());
    let mut text: String = join_texts(&front, ", ");
    text.append(", and ");
    text.append(items[items.len() - 1].as_str());
    text
}

/// Quoted names as an enumeration.
pub open spec fn ident_list_text(names: Seq<Ident>) -> Seq<char> {
    enumeration(quoted(names, "'"@))
}

pub fn ident_list(names: &Vec<Ident>) -> (text: String)
    ensures
        text@ == ident_list_text(names@),
{
    let items: Vec<String> = quote_each(names, "'");
    enumerate_items(&items)
}

/// A word in the number that `n` things need.
pub open spec fn plural_text(n: nat, word: Seq<char>) -> Seq<char> {
    if n == 1 {
        word
    } else {
        word + "s"@
    }
}

pub fn plural(n: usize, word: &str) -> (text: String)
    ensures
        text@ == plural_text(n as nat, word@),
{
    let mut text: String = word.to_owned();
    if n != 1 {
        text.append("s");
    }
    text
}

/// The word `field`, or `fields`, and the names.
pub open spec fn field_list_text(fields: Seq<Ident>) -> Seq<char> {
    plural_text(fields.len(), "field"@) + " "@ + ident_list_text(fields)
}

pub fn field_list(fields: &Vec<Ident>) -> (text: String)
    ensures
        text@ == field_list_text(fields@),
{
    let mut text: String = plural(fields.len(), "field");
    text.append(" ");
    text.append(ident_list(fields).as_str());
    text
}

/// Each type between quotes.
pub open spec fn quoted_types(types: Seq<ResolvedType>) -> Seq<Seq<char>> {
    types.map_values(|ty: ResolvedType| "'"@ + type_text(ty, false) + "'"@)
}

/// Quoted types as an enumeration.
pub open spec fn type_list_text(types: Seq<ResolvedType>) -> Seq<char> {
    enumeration(quoted_types(types))
}

pub fn type_list(types: &Vec<ResolvedType>) -> (text: String)
    requires
        printable_types(types@),
    ensures
        text@ == type_list_text(types@),
{
    let mut items: Vec<String> = Vec::new();
    let mut i: usize = 0;
    while i < types.len()
        invariant
            i <= types@.len(),
            printable_types(types@),
            views(items@) =~= quoted_types(types@).take(i as int),
        decreases types.len() - i,
    {
        let ghost before = items@;
        assert(printable(types@[i as int]));
        let mut item: String = "'".to_owned();
        item.append(types[i].to_string().as_str());
        item.append("'");
        items.push(item);
        assert(views(items@) =~= views(before).push(items@.last()@));
        i = i + 1;
    }
    assert(views(items@) =~= quoted_types(types@));
    enumerate_items(&items)
}

/// Types with commas between them.
pub open spec fn type_commas_text(types: Seq<ResolvedType>) -> Seq<char> {
    joined(type_texts(types), ", "@)
}

pub fn type_commas(types: &Vec<ResolvedType>) -> (text: String)
    requires
        printable_types(types@),
    ensures
        text@ == type_commas_text(types@),
{
    let mut items: Vec<String> = Vec::new();
    let mut i: usize = 0;
    assert(views(items@) =~= Seq::empty());
    while i < types.len()
        invariant
            i <= types@.len(),
            printable_types(types@),
            views(items@) == type_texts(types@.take(i as int)),
        decreases types.len() - i,
    {
        let ghost before = items@;
        assert(printable(types@[i as int]));
        assert(types@.take(i as int + 1).drop_last() =~= types@.take(i as int));
        items.push(types[i].to_string());
        assert(views(items@) =~= views(before).push(items@.last()@));
        i = i + 1;
    }
    assert(types@.take(i as int) =~= types@);
    join_texts(&items, ", ")
}

/// A name with its generic arguments.
pub open spec fn generic_name_text(name: Seq<char>, args: Seq<ResolvedGenericArg>) -> Seq<char> {
    if args.len() == 0 {
        name
    } else {
        name + "<"@ + joined(generic_arg_texts(args, false), ", "@) + ">"@
    }
}

pub fn generic_name(name: &Ident, args: &Vec<ResolvedGenericArg>) -> (text: String)
    requires
        printable_args(args@),
    ensures
        text@ == generic_name_text(name@, args@),
{
    if args.len() == 0 {
        return name.as_ref().to_owned();
    }
    let mut items: Vec<String> = Vec::new();
    let mut i: usize = 0;
    assert(views(items@) =~= Seq::empty());
    while i < args.len()
        invariant
            i <= args@.len(),
            printable_args(args@),
            views(items@) == generic_arg_texts(args@.take(i as int), false),
        decreases args.len() - i,
    {
        let ghost before = items@;
        assert(printable_arg(args@[i as int]));
        assert(args@.take(i as int + 1).drop_last() =~= args@.take(i as int));
        items.push(args[i].to_string());
        assert(views(items@) =~= views(before).push(items@.last()@));
        i = i + 1;
    }
    assert(args@.take(i as int) =~= args@);
    let mut text: String = name.as_ref().to_owned();
    text.append("<");
    text.append(join_texts(&items, ", ").as_str());
    text.append(">");
    text
}

} // verus!
