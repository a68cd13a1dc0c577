//! What looking something up promises: what is found is there, nothing that
//! comes before it would have done, and nothing is passed over.

use crate::codegen::constants::moved;
use crate::codegen::cranelift::data::{function_number, slot_numbers, table_described};
use crate::codegen::inline_asm::{
    behind, bound_to, name_length, number_length, number_value, rendered_template, starts_name,
    ResolutionView,
};
use crate::codegen::llvm::item::{function_of, symbol_position, SymbolView};
use crate::codegen::shared::{table_position, Vtable};
use crate::codegen::symbol::owner_of;
use crate::exhaustiveness::{farthest, overlapping, reach, starts_ascend, Interval};
use crate::hir::HirId;
use crate::resolved_type::{offered, selected, FunctionNamespace, ResolvedMethod};
use crate::source_annotations::{first_named, suppressed};
use crate::syntax::{AnnotationArg, AnnotationNode, Ident};
use crate::text::{decimal, is_digit, lemma_decimal_digits};
use vstd::prelude::*;

verus! {

/// A symbol belongs to whoever claimed it first.
pub proof fn law_symbols_belong_to_who_came_first(
    claims: Seq<(Seq<char>, HirId)>,
    symbol: Seq<char>,
    i: int,
)
    requires
        0 <= i < claims.len(),
        claims[i].0 == symbol,
        forall|k: int| 0 <= k < i ==> (#[trigger] claims[k]).0 != symbol,
    ensures
        owner_of(claims, symbol) == Some(claims[i].1),
    decreases claims.len(),
{
    if i < claims.len() - 1 {
        law_symbols_belong_to_who_came_first(claims.drop_last(), symbol, i);
    } else {
        law_unclaimed_symbols_belong_to_nobody(claims.drop_last(), symbol);
    }
}

/// A symbol that nobody claimed belongs to nobody.
pub proof fn law_unclaimed_symbols_belong_to_nobody(
    claims: Seq<(Seq<char>, HirId)>,
    symbol: Seq<char>,
)
    requires
        forall|k: int| 0 <= k < claims.len() ==> (#[trigger] claims[k]).0 != symbol,
    ensures
        owner_of(claims, symbol) is None,
    decreases claims.len(),
{
    if claims.len() > 0 {
        law_unclaimed_symbols_belong_to_nobody(claims.drop_last(), symbol);
        assert(claims[claims.len() - 1].0 != symbol);
    }
}

/// An annotation is looked for from a position on, and the first one found.
pub proof fn law_first_annotations_are_found(
    annotations: Seq<AnnotationNode>,
    name: Seq<char>,
    from: int,
)
    requires
        0 <= from,
    ensures
        match first_named(annotations, name, from) {
            Some(found) => {
                &&& from <= found < annotations.len()
                &&& annotations[found].name@ == name
                &&& forall|k: int|
                    from <= k < found ==> (#[trigger] annotations[k]).name@ != name
            },
            None => forall|k: int|
                from <= k < annotations.len() ==> (#[trigger] annotations[k]).name@ != name,
        },
    decreases annotations.len() - from,
{
    if from < annotations.len() && annotations[from].name@ != name {
        law_first_annotations_are_found(annotations, name, from + 1);
    }
}

/// A table is found again where one has the same entries: the first of them.
pub proof fn law_tables_are_found_again(tables: Seq<Vtable>, slots: Seq<HirId>, from: int)
    requires
        0 <= from,
    ensures
        match table_position(tables, slots, from) {
            Some(found) => {
                &&& from <= found < tables.len()
                &&& tables[found].slots@ == slots
                &&& forall|k: int| from <= k < found ==> (#[trigger] tables[k]).slots@ != slots
            },
            None => forall|k: int|
                from <= k < tables.len() ==> (#[trigger] tables[k]).slots@ != slots,
        },
    decreases tables.len() - from,
{
    if from < tables.len() && tables[from].slots@ != slots {
        law_tables_are_found_again(tables, slots, from + 1);
    }
}

/// The names that suppression arguments spell are those of its bare arguments,
/// and of no others.
pub proof fn law_bare_arguments_are_suppressed(args: Seq<AnnotationArg>, name: Seq<char>)
    ensures
        suppressed(args).contains(name) <==> exists|i: int|
            0 <= i < args.len() && (#[trigger] args[i]).bare() is Some && args[i].bare()->0@
                == name,
    decreases args.len(),
{
    if args.len() > 0 {
        let front = args.drop_last();
        law_bare_arguments_are_suppressed(front, name);
        let before = suppressed(front);
        let last = args.len() - 1;
        if suppressed(args).contains(name) {
            let k = choose|k: int| 0 <= k < suppressed(args).len() && suppressed(args)[k] == name;
            if k < before.len() {
                assert(before[k] == name);
                let i = choose|i: int|
                    0 <= i < front.len() && (#[trigger] front[i]).bare() is Some
                        && front[i].bare()->0@ == name;
                assert(args[i] == front[i]);
            } else {
                assert(args[last].bare() is Some);
            }
        }
        if exists|i: int|
            0 <= i < args.len() && (#[trigger] args[i]).bare() is Some && args[i].bare()->0@
                == name {
            let i = choose|i: int|
                0 <= i < args.len() && (#[trigger] args[i]).bare() is Some && args[i].bare()->0@
                    == name;
            if i < last {
                assert(front[i] == args[i]);
                let k = choose|k: int| 0 <= k < before.len() && before[k] == name;
                assert(suppressed(args)[k] == name);
            } else {
                assert(suppressed(args).last() == name);
            }
        }
    }
}

/// What is selected are the declarations of the name in the namespace, all of
/// them, and nothing else.
pub proof fn law_selection_is_by_name_and_namespace(
    functions: Seq<(Ident, ResolvedMethod)>,
    namespace: FunctionNamespace,
    name: Seq<char>,
    method: ResolvedMethod,
)
    ensures
        selected(functions, namespace, name).contains(method) <==> exists|i: int|
            0 <= i < functions.len() && (#[trigger] functions[i]).1 == method && functions[i].0@
                == name && method.fn_type.self_mode is Some == (namespace is Member),
    decreases functions.len(),
{
    if functions.len() > 0 {
        let front = functions.drop_last();
        law_selection_is_by_name_and_namespace(front, namespace, name, method);
        let before = selected(front, namespace, name);
        let all = selected(functions, namespace, name);
        let last = functions.len() - 1;
        if all.contains(method) {
            let k = choose|k: int| 0 <= k < all.len() && all[k] == method;
            if k < before.len() {
                assert(before[k] == method);
                let i = choose|i: int|
                    0 <= i < front.len() && (#[trigger] front[i]).1 == method && front[i].0@
                        == name && method.fn_type.self_mode is Some == (namespace is Member);
                assert(functions[i] == front[i]);
            } else {
                assert(functions[last].1 == method);
            }
        }
        if exists|i: int|
            0 <= i < functions.len() && (#[trigger] functions[i]).1 == method && functions[i].0@
                == name && method.fn_type.self_mode is Some == (namespace is Member) {
            let i = choose|i: int|
                0 <= i < functions.len() && (#[trigger] functions[i]).1 == method
                    && functions[i].0@ == name && method.fn_type.self_mode is Some == (
                namespace is Member);
            if i < last {
                assert(front[i] == functions[i]);
                let k = choose|k: int| 0 <= k < before.len() && before[k] == method;
                assert(all[k] == method);
            } else {
                assert(all.last() == method);
            }
        }
    }
}

/// Every function is offered in one of the two namespaces, and in one only.
pub proof fn law_every_function_is_offered_once(functions: Seq<(Ident, ResolvedMethod)>)
    ensures
        offered(functions, FunctionNamespace::Member).len() + offered(
            functions,
            FunctionNamespace::Static,
        ).len() == functions.len(),
    decreases functions.len(),
{
    if functions.len() > 0 {
        law_every_function_is_offered_once(functions.drop_last());
    }
}

proof fn lemma_farthest(start: int, sorted: Seq<Interval>)
    requires
        forall|i: int| 0 <= i < sorted.len() ==> start <= (#[trigger] sorted[i]).lo,
        forall|i: int| 0 <= i < sorted.len() ==> (#[trigger] sorted[i]).lo <= sorted[i].hi,
    ensures
        sorted.len() > 0 ==> farthest(start, sorted) is Some,
        farthest(start, sorted) matches Some(found) ==> sorted.contains(found) && found.hi + 1
            == reach(start, sorted),
        sorted.len() == 0 ==> reach(start, sorted) == start,
    decreases sorted.len(),
{
    if sorted.len() > 0 {
        let front = sorted.drop_last();
        assert forall|i: int| 0 <= i < front.len() implies start <= (#[trigger] front[i]).lo
            && front[i].lo <= front[i].hi by {
            assert(front[i] == sorted[i]);
        }
        lemma_farthest(start, front);
        assert(sorted.last() == sorted[sorted.len() - 1]);
        if let Some(found) = farthest(start, front) {
            let k = choose|k: int| 0 <= k < front.len() && front[k] == found;
            assert(sorted[k] == found);
        }
        if front.len() == 0 {
            assert(sorted.last().hi + 1 > start);
        }
    }
}

/// Two intervals that are reported to overlap are both there, and both cover
/// where the second one starts.
pub proof fn law_reported_intervals_overlap(start: int, sorted: Seq<Interval>, k: int)
    requires
        starts_ascend(sorted),
        forall|i: int| 0 <= i < sorted.len() ==> start <= (#[trigger] sorted[i]).lo,
        forall|i: int| 0 <= i < sorted.len() ==> (#[trigger] sorted[i]).lo <= sorted[i].hi,
        0 <= k < overlapping(start, sorted).len(),
    ensures
        ({
            let (a, b) = overlapping(start, sorted)[k];
            &&& sorted.contains(a)
            &&& sorted.contains(b)
            &&& a.lo <= b.lo <= a.hi
            &&& b.lo <= b.hi
        }),
    decreases sorted.len(),
{
    if sorted.len() > 0 {
        let front = sorted.drop_last();
        let found = overlapping(start, front);
        let (a, b) = overlapping(start, sorted)[k];
        assert forall|i: int, j: int| 0 <= i <= j < front.len() implies (#[trigger] front[i]).lo
            <= (#[trigger] front[j]).lo by {
            assert(sorted[i].lo <= sorted[j].lo);
        }
        assert forall|i: int| 0 <= i < front.len() implies start <= (#[trigger] front[i]).lo
            && front[i].lo <= front[i].hi by {
            assert(front[i] == sorted[i]);
        }
        if k < found.len() {
            law_reported_intervals_overlap(start, front, k);
            let i = choose|i: int| 0 <= i < front.len() && front[i] == a;
            let j = choose|j: int| 0 <= j < front.len() && front[j] == b;
            assert(sorted[i] == a && sorted[j] == b);
        } else {
            lemma_farthest(start, front);
            assert(sorted[sorted.len() - 1] == b);
            assert(front.len() > 0);
            let i = choose|i: int| 0 <= i < front.len() && front[i] == a;
            assert(sorted[i] == a);
            assert(sorted[i].lo <= sorted[sorted.len() - 1].lo);
        }
    }
}

/// A name bound more than once means what it was bound to last.
pub proof fn law_the_last_binding_counts(
    named: Seq<(Seq<char>, ResolutionView)>,
    name: Seq<char>,
    i: int,
)
    requires
        0 <= i < named.len(),
        named[i].0 == name,
        forall|k: int| i < k < named.len() ==> (#[trigger] named[k]).0 != name,
    ensures
        bound_to(named, name) == Some(named[i].1),
    decreases named.len(),
{
    if i < named.len() - 1 {
        assert(named[named.len() - 1].0 != name);
        law_the_last_binding_counts(named.drop_last(), name, i);
    }
}

/// A name is as long as it can be: letters, underscores and, behind the first,
/// digits, up to what is none of these.
pub proof fn law_names_are_as_long_as_can_be(text: Seq<char>)
    ensures
        name_length(text) <= text.len(),
        forall|i: int|
            0 <= i < name_length(text) ==> starts_name(#[trigger] text[i]) || i > 0 && is_digit(
                text[i],
            ),
        name_length(text) < text.len() ==> !starts_name(text[name_length(text) as int]) && (
        name_length(text) > 0 ==> !is_digit(text[name_length(text) as int])),
    decreases text.len(),
{
    if text.len() > 0 {
        let front = text.drop_last();
        law_names_are_as_long_as_can_be(front);
        assert forall|i: int| 0 <= i < name_length(text) implies starts_name(#[trigger] text[i])
            || i > 0 && is_digit(text[i]) by {
            if i < front.len() {
                assert(front[i] == text[i]);
            }
        }
        if name_length(front) < front.len() {
            assert(front[name_length(front) as int] == text[name_length(front) as int]);
        }
    }
}

/// A number is as long as it can be: digits, up to what is none.
pub proof fn law_numbers_are_as_long_as_can_be(text: Seq<char>)
    ensures
        number_length(text) <= text.len(),
        forall|i: int| 0 <= i < number_length(text) ==> is_digit(#[trigger] text[i]),
        number_length(text) < text.len() ==> !is_digit(text[number_length(text) as int]),
    decreases text.len(),
{
    if text.len() > 0 {
        let front = text.drop_last();
        law_numbers_are_as_long_as_can_be(front);
        assert forall|i: int| 0 <= i < number_length(text) implies is_digit(
            #[trigger] text[i],
        ) by {
            if i < front.len() {
                assert(front[i] == text[i]);
            }
        }
        if number_length(front) < front.len() {
            assert(front[number_length(front) as int] == text[number_length(front) as int]);
        }
    }
}

/// A number that is spelled out and read again is the same.
pub proof fn law_spelled_numbers_read_back(n: nat)
    ensures
        number_value(decimal(n)) == n,
    decreases n,
{
    if n < 10 {
        assert(decimal(n).drop_last() =~= Seq::<char>::empty());
        assert(number_value(decimal(n).drop_last()) == 0);
    } else {
        law_spelled_numbers_read_back(n / 10);
        assert(decimal(n).drop_last() =~= decimal(n / 10));
    }
}

/// An operand that a template asks for by its number stands in the text for
/// it, and what follows is rendered behind it.
pub proof fn law_numbered_operands_are_substituted(
    i: nat,
    rest: Seq<char>,
    positional: Seq<ResolutionView>,
    named: Seq<(Seq<char>, ResolutionView)>,
)
    requires
        i < positional.len(),
        rest.len() > 0 ==> !is_digit(rest[0]),
    ensures
        rendered_template(seq!['$'] + decimal(i) + rest, positional, named)
            == match rendered_template(rest, positional, named) {
            Some(behind) => Some(positional[i as int].rendered() + behind),
            None => None,
        },
{
    let digits = decimal(i);
    let body = seq!['$'] + digits + rest;
    let after = body.skip(1);
    lemma_decimal_digits(i);
    law_spelled_numbers_read_back(i);
    assert(after =~= digits + rest);
    law_names_are_as_long_as_can_be(after);
    law_numbers_are_as_long_as_can_be(after);
    assert(is_digit(after[0])) by {
        assert(after[0] == digits[0]);
    }
    assert(name_length(after) == 0);
    assert(number_length(after) == digits.len()) by {
        let n = number_length(after) as int;
        if n < digits.len() {
            assert(after[n] == digits[n]);
        } else if n > digits.len() {
            assert(after[digits.len() as int] == rest[0]);
        }
    }
    assert(after.take(digits.len() as int) =~= digits);
    assert(behind(body, 1 + digits.len() as int) =~= rest);
    assert(body[0] == '$');
    assert(body[1] == digits[0]);
}

/// A function has the number it was declared under last.
pub proof fn law_the_last_number_counts(declared: Seq<(HirId, u32)>, id: HirId, i: int)
    requires
        0 <= i < declared.len(),
        declared[i].0 == id,
        forall|k: int| i < k < declared.len() ==> (#[trigger] declared[k]).0 != id,
    ensures
        function_number(declared, id) == Some(declared[i].1),
    decreases declared.len(),
{
    if i < declared.len() - 1 {
        assert(declared[declared.len() - 1].0 != id);
        law_the_last_number_counts(declared.drop_last(), id, i);
    }
}

/// An identity is the function it was declared as last.
pub proof fn law_the_last_declaration_counts(ids: Seq<(HirId, usize)>, id: HirId, i: int)
    requires
        0 <= i < ids.len(),
        ids[i].0 == id,
        forall|k: int| i < k < ids.len() ==> (#[trigger] ids[k]).0 != id,
    ensures
        function_of(ids, id) == Some(ids[i].1),
    decreases ids.len(),
{
    if i < ids.len() - 1 {
        assert(ids[ids.len() - 1].0 != id);
        law_the_last_declaration_counts(ids.drop_last(), id, i);
    }
}

/// A symbol is looked for from a position on, and the first one found.
pub proof fn law_first_symbols_are_found(
    functions: Seq<SymbolView>,
    symbol: Seq<char>,
    from: int,
)
    requires
        0 <= from,
    ensures
        match symbol_position(functions, symbol, from) {
            Some(found) => {
                &&& from <= found < functions.len()
                &&& functions[found].symbol == symbol
                &&& forall|k: int|
                    from <= k < found ==> (#[trigger] functions[k]).symbol != symbol
            },
            None => forall|k: int|
                from <= k < functions.len() ==> (#[trigger] functions[k]).symbol != symbol,
        },
    decreases functions.len() - from,
{
    if from < functions.len() && functions[from].symbol != symbol {
        law_first_symbols_are_found(functions, symbol, from + 1);
    }
}

/// The entries of a method table lie one behind the other, each as wide as a
/// pointer: the entry of a method lies where a call through the table reads
/// it, and holds the method's own function.
pub proof fn law_tables_hold_their_methods_in_order(
    slots: Seq<HirId>,
    declared: Seq<(HirId, u32)>,
    numbers: Seq<u32>,
    pointer_bytes: u32,
    k: int,
)
    requires
        0 <= k < slots.len(),
        slot_numbers(slots, declared, slots.len()) == Some(numbers),
        slots.len() * pointer_bytes <= u32::MAX,
        pointer_bytes > 0,
    ensures
        numbers.len() == slots.len(),
        ({
            let table = table_described(numbers, pointer_bytes);
            let (at, import) = table.functions_at[k];
            &&& moved(0, (k * pointer_bytes) as nat) == Some(at)
            &&& at + pointer_bytes <= table.contents[0].len()
            &&& Some(table.functions[import as int].1) == function_number(declared, slots[k])
        }),
{
    lemma_numbers_in_order(slots, declared, slots.len(), k);
    assert(k * pointer_bytes + pointer_bytes <= slots.len() * pointer_bytes) by (nonlinear_arith)
        requires
            k < slots.len(),
            0 <= pointer_bytes,
    ;
    assert(0 <= k <= k * pointer_bytes) by (nonlinear_arith)
        requires
            0 <= k,
            1 <= pointer_bytes,
    ;
}

proof fn lemma_numbers_in_order(
    slots: Seq<HirId>,
    declared: Seq<(HirId, u32)>,
    n: nat,
    k: int,
)
    requires
        0 <= k < n,
        slot_numbers(slots, declared, n) is Some,
    ensures
        slot_numbers(slots, declared, n)->0.len() == n,
        Some(slot_numbers(slots, declared, n)->0[k]) == function_number(declared, slots[k]),
    decreases n,
{
    if k < n - 1 {
        lemma_numbers_in_order(slots, declared, (n - 1) as nat, k);
    } else if n > 1 {
        lemma_numbers_in_order(slots, declared, (n - 1) as nat, 0);
    }
}

} // verus!
