//! Inline assembly: the template, the operand constraints, and what they bind.

use crate::layout::Leaf;
use crate::syntax::Ident;
use crate::target::Arch;
use crate::text::{
    chars_of, decimal, decimal_text, is_digit, join_texts, joined, push_text, same_text, text_of,
    views,
};
use crate::order::code_point;
use vstd::prelude::*;

verus! {

/// What a source `$name`/`$N` binding resolves to once operands have been
/// lowered: a `reg` becomes a template slot number, a `comp` becomes its
/// pre-rendered literal text.
#[derive(Debug)]
pub enum Resolution {
    Reg(usize),
    CompText(String),
}

/// What a [`Resolution`] says.
pub enum ResolutionView {
    Reg(usize),
    CompText(Seq<char>),
}

impl View for Resolution {
    type V = ResolutionView;

    open spec fn view(&self) -> ResolutionView {
        match *self {
            Resolution::Reg(index) => ResolutionView::Reg(index),
            Resolution::CompText(text) => ResolutionView::CompText(text@),
        }
    }
}

impl ResolutionView {
    /// What stands in the template for this binding.
    pub open spec fn rendered(self) -> Seq<char> {
        match self {
            ResolutionView::Reg(index) => "$"@ + decimal(index as nat),
            ResolutionView::CompText(text) => text,
        }
    }
}

impl Resolution {
    pub fn text(&self) -> (text: String)
        ensures
            text@ == self@.rendered(),
    {
        match self {
            Resolution::Reg(index) => {
                let mut text: String = "$".to_owned();
                text.append(decimal_text(*index as u128).as_str());
                text
            },
            Resolution::CompText(text) => text.as_str().to_owned(),
        }
    }
}

pub fn clone_resolution(resolution: &Resolution) -> (copy: Resolution)
    ensures
        copy@ == resolution@,
{
    match resolution {
        Resolution::Reg(index) => Resolution::Reg(*index),
        Resolution::CompText(text) => Resolution::CompText(text.as_str().to_owned()),
    }
}

/// What resolutions say, in order.
pub open spec fn resolution_views(list: Seq<Resolution>) -> Seq<ResolutionView> {
    list.map_values(|resolution: Resolution| resolution@)
}

/// What named resolutions say, in order.
pub open spec fn named_views(list: Seq<(Ident, Resolution)>) -> Seq<(Seq<char>, ResolutionView)> {
    list.map_values(|entry: (Ident, Resolution)| (entry.0@, entry.1@))
}

/// What the last binding of `name` resolves to.
pub open spec fn bound_to(
    named: Seq<(Seq<char>, ResolutionView)>,
    name: Seq<char>,
) -> Option<ResolutionView>
    decreases named.len(),
{
    if named.len() == 0 {
        None
    } else if named.last().0 == name {
        Some(named.last().1)
    } else {
        bound_to(named.drop_last(), name)
    }
}

/// The register-class constraint letter for a scalar on an architecture.
pub open spec fn class_of(arch: Arch, leaf: Leaf) -> Seq<char> {
    let float = leaf is F32 || leaf is F64;
    match arch {
        Arch::X86_64 | Arch::X86 => if float {
            "x"@
        } else {
            "r"@
        },
        Arch::Armv7 | Arch::Thumbv7em => if float {
            "t"@
        } else {
            "r"@
        },
        Arch::Aarch64 => if float {
            "w"@
        } else {
            "r"@
        },
        Arch::Riscv32 | Arch::Riscv64 => if float {
            "f"@
        } else {
            "r"@
        },
        // There are no floating-point registers, so every operand class is `r`.
        Arch::Avr => "r"@,
    }
}

/// The generic register-class constraint letter for a scalar/pointer leaf on
/// the given target. Every leaf a `reg` operand may have has a legal
/// single-register home on each supported architecture, so this mapping is
/// total.
pub fn register_class(arch: Arch, leaf: Leaf) -> (class: &'static str)
    ensures
        class@ == class_of(arch, leaf),
{
    let float: bool = match leaf {
        Leaf::F32 | Leaf::F64 => true,
        _ => false,
    };
    match arch {
        Arch::X86_64 | Arch::X86 => if float {
            "x"
        } else {
            "r"
        },
        Arch::Armv7 | Arch::Thumbv7em => if float {
            "t"
        } else {
            "r"
        },
        Arch::Aarch64 => if float {
            "w"
        } else {
            "r"
        },
        Arch::Riscv32 | Arch::Riscv64 => if float {
            "f"
        } else {
            "r"
        },
        Arch::Avr => "r",
    }
}

/// The status registers an architecture's statements destroy.
pub open spec fn status_of(arch: Arch) -> Seq<Seq<char>> {
    match arch {
        Arch::X86_64 | Arch::X86 => seq!["~{dirflag}"@, "~{fpsr}"@, "~{flags}"@],
        _ => Seq::empty(),
    }
}

/// Conservative target status/flags clobbers appended alongside the
/// mandatory memory clobber -- every statement is treated as able to
/// read/write arbitrary memory and destroy condition flags, since the body is
/// never inspected to prove otherwise.
pub fn status_clobbers(arch: Arch) -> (list: Vec<String>)
    ensures
        views(list@) == status_of(arch),
{
    let mut list: Vec<String> = Vec::new();
    match arch {
        Arch::X86_64 | Arch::X86 => {
            list.push("~{dirflag}".to_owned());
            list.push("~{fpsr}".to_owned());
            list.push("~{flags}".to_owned());
        },
        _ => {},
    }
    assert(views(list@) =~= status_of(arch));
    list
}

/// What a register operand is constrained to: a class, or a register of its
/// own.
#[derive(Debug)]
pub struct RegConstraint {
    pub class: &'static str,
    pub physical: Option<String>,
}

/// How a register operand is constrained: read, written, and never shared with
/// an input, so that nothing assumes the body leaves it unread.
pub open spec fn reg_text(reg: RegConstraint) -> Seq<char> {
    match reg.physical {
        Some(physical) => "+&{"@ + physical@ + "}"@,
        None => "+&"@ + reg.class@,
    }
}

/// The constraints of register operands, in order.
pub open spec fn reg_texts(regs: Seq<RegConstraint>) -> Seq<Seq<char>> {
    regs.map_values(|reg: RegConstraint| reg_text(reg))
}

/// The constraints of declared clobbers, in order.
pub open spec fn clobber_texts(clobbers: Seq<String>) -> Seq<Seq<char>> {
    clobbers.map_values(|reg: String| "~{"@ + reg@ + "}"@)
}

/// Every constraint of a statement: its register operands, its declared
/// clobbers, the status registers, and memory.
pub open spec fn constraints_of(
    regs: Seq<RegConstraint>,
    clobbers: Seq<String>,
    arch: Arch,
) -> Seq<char> {
    joined(
        (reg_texts(regs) + clobber_texts(clobbers) + status_of(arch)).push("~{memory}"@),
        ","@,
    )
}

pub fn constraint_string(regs: &Vec<RegConstraint>, clobbers: &Vec<String>, arch: Arch) -> (text:
    String)
    ensures
        text@ == constraints_of(regs@, clobbers@, arch),
{
    let mut items: Vec<String> = Vec::new();
    let mut i: usize = 0;
    while i < regs.len()
        invariant
            i <= regs@.len(),
            views(items@) =~= reg_texts(regs@).take(i as int),
        decreases regs.len() - i,
    {
        let ghost before = items@;
        match &regs[i].physical {
            Some(physical) => {
                let mut item: String = "+&{".to_owned();
                item.append(physical.as_str());
                item.append("}");
                items.push(item);
            },
            None => {
                let mut item: String = "+&".to_owned();
                item.append(regs[i].class);
                items.push(item);
            },
        }
        assert(views(items@) =~= views(before).push(items@.last()@));
        i = i + 1;
    }
    assert(views(items@) =~= reg_texts(regs@));
    let mut k: usize = 0;
    while k < clobbers.len()
        invariant
            k <= clobbers@.len(),
            views(items@) =~= reg_texts(regs@) + clobber_texts(clobbers@).take(k as int),
        decreases clobbers.len() - k,
    {
        let ghost before = items@;
        let mut item: String = "~{".to_owned();
        item.append(clobbers[k].as_str());
        item.append("}");
        items.push(item);
        assert(views(items@) =~= views(before).push(items@.last()@));
        k = k + 1;
    }
    assert(views(items@) =~= reg_texts(regs@) + clobber_texts(clobbers@));
    let ghost before = items@;
    let mut status: Vec<String> = status_clobbers(arch);
    let ghost more = status@;
    items.append(&mut status);
    assert(views(items@) =~= views(before) + views(more));
    let ghost most = items@;
    items.push("~{memory}".to_owned());
    assert(views(items@) =~= views(most).push("~{memory}"@));
    assert(views(items@) =~= (reg_texts(regs@) + clobber_texts(clobbers@) + status_of(arch)).push(
        "~{memory}"@,
    ));
    join_texts(&items, ",")
}

/// Whether `c` may start a name.
pub open spec fn starts_name(c: char) -> bool {
    ||| 65 <= c as int <= 90
    ||| 97 <= c as int <= 122
    ||| c == '_'
}

/// The length of the name at the start of a text, none being zero.
pub open spec fn name_length(text: Seq<char>) -> nat
    decreases text.len(),
{
    if text.len() == 0 {
        0
    } else {
        let before = name_length(text.drop_last());
        if before == text.len() - 1 && (starts_name(text.last()) || (before > 0 && is_digit(
            text.last(),
        ))) {
            text.len()
        } else {
            before
        }
    }
}

/// The length of the number at the start of a text, none being zero.
pub open spec fn number_length(text: Seq<char>) -> nat
    decreases text.len(),
{
    if text.len() == 0 {
        0
    } else {
        let before = number_length(text.drop_last());
        if before == text.len() - 1 && is_digit(text.last()) {
            text.len()
        } else {
            before
        }
    }
}

/// The number that digits spell.
pub open spec fn number_value(digits: Seq<char>) -> nat
    decreases digits.len(),
{
    if digits.len() == 0 {
        0
    } else {
        number_value(digits.drop_last()) * 10 + (digits.last() as int - 48) as nat
    }
}

proof fn lemma_prefix_lengths(text: Seq<char>, n: int)
    requires
        0 <= n <= text.len(),
    ensures
        name_length(text) <= text.len(),
        number_length(text) <= text.len(),
        name_length(text.take(n)) < n ==> name_length(text) == name_length(text.take(n)),
        number_length(text.take(n)) < n ==> number_length(text) == number_length(text.take(n)),
    decreases text.len(),
{
    if n == text.len() {
        assert(text.take(n) =~= text);
        if n > 0 {
            lemma_prefix_lengths(text.drop_last(), n - 1);
        }
    } else {
        assert(text.drop_last().take(n) =~= text.take(n));
        lemma_prefix_lengths(text.drop_last(), n);
    }
}

proof fn lemma_digits(text: Seq<char>, n: int)
    requires
        0 <= n <= text.len(),
        number_length(text.take(n)) == n,
    ensures
        forall|k: int| 0 <= k < n ==> is_digit(#[trigger] text[k]),
    decreases n,
{
    if n > 0 {
        assert(text.take(n).drop_last() =~= text.take(n - 1));
        lemma_prefix_lengths(text.take(n - 1), n - 1);
        lemma_digits(text, n - 1);
        assert(text.take(n).last() == text[n - 1]);
    }
}

fn is_digit_char(c: char) -> (r: bool)
    ensures
        r == is_digit(c),
{
    let n: u32 = code_point(c);
    48 <= n && n <= 57
}

/// The length of the name that starts at `at`, if there is one.
pub fn ident_prefix_len(text: &Vec<char>, at: usize) -> (length: Option<usize>)
    requires
        at <= text@.len(),
    ensures
        match length {
            Some(n) => n > 0 && n == name_length(text@.skip(at as int)),
            None => name_length(text@.skip(at as int)) == 0,
        },
        length is Some ==> at + length->0 <= text.len(),
{
    let ghost rest = text@.skip(at as int);
    let mut n: usize = 0;
    while at + n < text.len()
        invariant
            at + n <= text.len(),
            rest == text@.skip(at as int),
            name_length(rest.take(n as int)) == n,
        decreases text.len() - at - n,
    {
        let c: char = text[at + n];
        proof {
            assert(rest.take(n as int + 1).drop_last() =~= rest.take(n as int));
            assert(rest.take(n as int + 1).last() == c);
        }
        let code: u32 = code_point(c);
        let starts: bool = (65 <= code && code <= 90) || (97 <= code && code <= 122) || c == '_';
        if starts || (n > 0 && is_digit_char(c)) {
            n = n + 1;
        } else {
            proof {
                lemma_prefix_lengths(rest, n as int + 1);
            }
            return if n > 0 {
                Some(n)
            } else {
                None
            };
        }
    }
    assert(rest.take(n as int) =~= rest);
    if n > 0 {
        Some(n)
    } else {
        None
    }
}

/// The length of the number that starts at `at`, if there is one.
pub fn digit_prefix_len(text: &Vec<char>, at: usize) -> (length: Option<usize>)
    requires
        at <= text@.len(),
    ensures
        match length {
            Some(n) => n > 0 && n == number_length(text@.skip(at as int)),
            None => number_length(text@.skip(at as int)) == 0,
        },
        length is Some ==> at + length->0 <= text.len(),
{
    let ghost rest = text@.skip(at as int);
    let mut n: usize = 0;
    while at + n < text.len()
        invariant
            at + n <= text.len(),
            rest == text@.skip(at as int),
            number_length(rest.take(n as int)) == n,
        decreases text.len() - at - n,
    {
        let c: char = text[at + n];
        proof {
            assert(rest.take(n as int + 1).drop_last() =~= rest.take(n as int));
            assert(rest.take(n as int + 1).last() == c);
        }
        if is_digit_char(c) {
            n = n + 1;
        } else {
            proof {
                lemma_prefix_lengths(rest, n as int + 1);
            }
            return if n > 0 {
                Some(n)
            } else {
                None
            };
        }
    }
    assert(rest.take(n as int) =~= rest);
    if n > 0 {
        Some(n)
    } else {
        None
    }
}

/// What the binding at the start of `rest`, the text behind a dollar sign,
/// resolves to, with the length of its spelling. Nothing where no binding
/// starts there; `Err` where one starts that nothing resolves.
pub open spec fn binding_at(
    rest: Seq<char>,
    positional: Seq<ResolutionView>,
    named: Seq<(Seq<char>, ResolutionView)>,
) -> Result<Option<(Seq<char>, nat)>, ()> {
    if name_length(rest) > 0 {
        match bound_to(named, rest.take(name_length(rest) as int)) {
            Some(found) => Ok(Some((found.rendered(), name_length(rest)))),
            None => Err(()),
        }
    } else if number_length(rest) > 0 {
        let index = number_value(rest.take(number_length(rest) as int));
        if index < positional.len() {
            Ok(Some((positional[index as int].rendered(), number_length(rest))))
        } else {
            Err(())
        }
    } else {
        Ok(None)
    }
}

/// What follows the first `n` characters of a text.
pub open spec fn behind(text: Seq<char>, n: int) -> Seq<char> {
    if n <= text.len() {
        text.skip(n)
    } else {
        Seq::empty()
    }
}

/// A template with its `$name`/`$N` bindings replaced by what they resolve to.
/// `$$` is left untouched, since the assembler's own template syntax defines
/// it as one literal `$`; anything else that starts with `$` is copied
/// through. Nothing where some binding does not resolve.
pub open spec fn rendered_template(
    body: Seq<char>,
    positional: Seq<ResolutionView>,
    named: Seq<(Seq<char>, ResolutionView)>,
) -> Option<Seq<char>>
    decreases body.len(),
{
    if body.len() == 0 {
        Some(Seq::empty())
    } else if body[0] != '$' {
        match rendered_template(body.skip(1), positional, named) {
            Some(rest) => Some(seq![body[0]] + rest),
            None => None,
        }
    } else if body.len() >= 2 && body[1] == '$' {
        match rendered_template(body.skip(2), positional, named) {
            Some(rest) => Some(seq!['$', '$'] + rest),
            None => None,
        }
    } else {
        match binding_at(body.skip(1), positional, named) {
            Ok(Some((text, length))) => match rendered_template(
                behind(body, 1 + length as int),
                positional,
                named,
            ) {
                Some(rest) => Some(text + rest),
                None => None,
            },
            Ok(None) => match rendered_template(body.skip(1), positional, named) {
                Some(rest) => Some(seq!['$'] + rest),
                None => None,
            },
            Err(_) => None,
        }
    }
}

fn find_bound<'a>(named: &'a Vec<(Ident, Resolution)>, name: &str) -> (found: Option<&'a Resolution>)
    ensures
        match found {
            Some(resolution) => bound_to(named_views(named@), name@) == Some(resolution@),
            None => bound_to(named_views(named@), name@) is None,
        },
{
    let ghost all = named_views(named@);
    let mut i: usize = named.len();
    assert(all.take(all.len() as int) =~= all);
    while i > 0
        invariant
            i <= named@.len(),
            all == named_views(named@),
            bound_to(all, name@) == bound_to(all.take(i as int), name@),
        decreases i,
    {
        assert(all.take(i as int).drop_last() =~= all.take(i as int - 1));
        assert(all.take(i as int).last() == all[i as int - 1]);
        let entry = &named[i - 1];
        if same_text(entry.0.as_ref(), name) {
            return Some(&entry.1);
        }
        i = i - 1;
    }
    None
}

fn read_index(text: &Vec<char>, at: usize, length: usize, limit: usize) -> (index: Option<usize>)
    requires
        at + length <= text.len(),
        number_length(text@.skip(at as int).take(length as int)) == length,
    ensures
        ({
            let value = number_value(text@.skip(at as int).take(length as int));
            match index {
                Some(n) => n == value && n < limit,
                None => value >= limit,
            }
        }),
{
    let ghost digits = text@.skip(at as int).take(length as int);
    proof {
        assert(digits.take(length as int) =~= digits);
        lemma_digits(digits, length as int);
    }
    let mut value: u128 = 0;
    let mut i: usize = 0;
    while i < length
        invariant
            i <= length,
            at + length <= text.len(),
            digits == text@.skip(at as int).take(length as int),
            forall|k: int| 0 <= k < length ==> is_digit(#[trigger] digits[k]),
            value == number_value(digits.take(i as int)),
            value < limit || i == 0,
            value <= usize::MAX,
        decreases length - i,
    {
        let c: char = text[at + i];
        assert(digits[i as int] == c);
        assert(digits.take(i as int + 1).drop_last() =~= digits.take(i as int));
        let d: u128 = (code_point(c) - 48) as u128;
        value = value * 10 + d;
        i = i + 1;
        if value >= limit as u128 {
            proof {
                lemma_value_grows(digits, i as int);
            }
            return None;
        }
    }
    assert(digits.take(i as int) =~= digits);
    if value < limit as u128 {
        Some(value as usize)
    } else {
        None
    }
}

proof fn lemma_value_grows(digits: Seq<char>, n: int)
    requires
        0 <= n <= digits.len(),
        forall|k: int| 0 <= k < digits.len() ==> is_digit(#[trigger] digits[k]),
    ensures
        number_value(digits.take(n)) <= number_value(digits),
    decreases digits.len(),
{
    if n == digits.len() {
        assert(digits.take(n) =~= digits);
    } else {
        assert(digits.drop_last().take(n) =~= digits.take(n));
        lemma_value_grows(digits.drop_last(), n);
        assert(is_digit(digits[digits.len() - 1]));
    }
}

/// Rewrites source `$name`/`$N` bindings into their template slot or literal
/// constant text.
pub fn render_template(
    body: &str,
    positional: &Vec<Resolution>,
    named: &Vec<(Ident, Resolution)>,
) -> (text: Option<String>)
    ensures
        match text {
            Some(found) => rendered_template(
                body@,
                resolution_views(positional@),
                named_views(named@),
            ) == Some(found@),
            None => rendered_template(
                body@,
                resolution_views(positional@),
                named_views(named@),
            ) is None,
        },
{
    let chars: Vec<char> = chars_of(body);
    let ghost places = resolution_views(positional@);
    let ghost names = named_views(named@);
    let ghost whole = rendered_template(body@, places, names);
    let mut out: Vec<char> = Vec::new();
    let mut i: usize = 0;
    assert(chars@.skip(0) =~= chars@);
    while i < chars.len()
        invariant
            i <= chars@.len(),
            places == resolution_views(positional@),
            names == named_views(named@),
            whole == rendered_template(body@, places, names),
            match rendered_template(chars@.skip(i as int), places, names) {
                Some(rest) => whole == Some(out@ + rest),
                None => whole is None,
            },
        decreases chars.len() - i,
    {
        let ghost here = chars@.skip(i as int);
        let ghost done = out@;
        assert(here.skip(1) =~= chars@.skip(i as int + 1));
        if chars[i] != '$' {
            out.push(chars[i]);
            proof {
                if let Some(rest) = rendered_template(here.skip(1), places, names) {
                    assert(done + (seq![here[0]] + rest) =~= out@ + rest);
                }
            }
            i = i + 1;
        } else if i + 1 < chars.len() && chars[i + 1] == '$' {
            assert(here.skip(2) =~= chars@.skip(i as int + 2));
            out.push('$');
            out.push('$');
            proof {
                if let Some(rest) = rendered_template(here.skip(2), places, names) {
                    assert(done + (seq!['$', '$'] + rest) =~= out@ + rest);
                }
            }
            i = i + 2;
        } else {
            let ghost rest = here.skip(1);
            if let Some(length) = ident_prefix_len(&chars, i + 1) {
                let mut name: String = String::new();
                let mut k: usize = 0;
                while k < length
                    invariant
                        k <= length,
                        i + 1 + length <= chars.len(),
                        rest == chars@.skip(i as int + 1),
                        name@ =~= rest.take(k as int),
                    decreases length - k,
                {
                    name.push(chars[i + 1 + k]);
                    k = k + 1;
                }
                match find_bound(named, name.as_str()) {
                    Some(resolution) => {
                        push_text(&mut out, resolution.text().as_str());
                        proof {
                            assert(behind(here, 1 + length) =~= chars@.skip(i as int + 1 + length));
                            let text = resolution@.rendered();
                            if let Some(tail) = rendered_template(
                                behind(here, 1 + length),
                                places,
                                names,
                            ) {
                                assert(done + (text + tail) =~= out@ + tail);
                            }
                        }
                        i = i + 1 + length;
                    },
                    None => {
                        return None;
                    },
                }
            } else if let Some(length) = digit_prefix_len(&chars, i + 1) {
                proof {
                    lemma_number_prefix(rest, length as int);
                }
                match read_index(&chars, i + 1, length, positional.len()) {
                    Some(index) => {
                        push_text(&mut out, positional[index].text().as_str());
                        proof {
                            assert(behind(here, 1 + length) =~= chars@.skip(i as int + 1 + length));
                            let text = places[index as int].rendered();
                            if let Some(tail) = rendered_template(
                                behind(here, 1 + length),
                                places,
                                names,
                            ) {
                                assert(done + (text + tail) =~= out@ + tail);
                            }
                        }
                        i = i + 1 + length;
                    },
                    None => {
                        return None;
                    },
                }
            } else {
                out.push('$');
                proof {
                    if let Some(tail) = rendered_template(here.skip(1), places, names) {
                        assert(done + (seq!['$'] + tail) =~= out@ + tail);
                    }
                }
                i = i + 1;
            }
        }
    }
    proof {
        assert(chars@.skip(i as int) =~= Seq::empty());
        assert(out@ + Seq::empty() =~= out@);
    }
    Some(text_of(&out))
}

proof fn lemma_number_prefix(text: Seq<char>, n: int)
    requires
        n == number_length(text),
        0 <= n <= text.len(),
    ensures
        number_length(text.take(n)) == n,
    decreases text.len(),
{
    if n == text.len() {
        assert(text.take(n) =~= text);
    } else {
        lemma_prefix_lengths(text.drop_last(), 0);
        assert(text.drop_last().take(n) =~= text.take(n));
        lemma_number_prefix(text.drop_last(), n);
    }
}

proof fn lemma_no_dollar(
    body: Seq<char>,
    positional: Seq<ResolutionView>,
    named: Seq<(Seq<char>, ResolutionView)>,
)
    requires
        !body.contains('$'),
    ensures
        rendered_template(body, positional, named) == Some(body),
    decreases body.len(),
{
    if body.len() > 0 {
        assert(body.contains(body[0]));
        assert forall|c: char| body.skip(1).contains(c) implies body.contains(c) by {
            let k = choose|k: int| 0 <= k < body.skip(1).len() && body.skip(1)[k] == c;
            assert(body[k + 1] == c);
        }
        lemma_no_dollar(body.skip(1), positional, named);
        assert(seq![body[0]] + body.skip(1) =~= body);
    } else {
        assert(body =~= Seq::empty());
    }
}

/// A template without bindings is rendered as it is.
pub proof fn law_plain_template_is_unchanged(
    body: Seq<char>,
    positional: Seq<ResolutionView>,
    named: Seq<(Seq<char>, ResolutionView)>,
)
    requires
        !body.contains('$'),
    ensures
        rendered_template(body, positional, named) == Some(body),
{
    lemma_no_dollar(body, positional, named);
}

} // verus!
