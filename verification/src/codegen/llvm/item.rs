//! One source file's object: what it refers to, what it owns, and the bodies
//! it defines.

use crate::codegen::admission::{is_measurable, units_are_fit};
use crate::codegen::catalog::{
    declared_ids, function_views, global_views, reference_views, units_added, Catalog,
    CatalogView, FunctionDecl, FunctionView, GlobalDecl, GlobalView,
};
use crate::codegen::constants::{
    build_const_blob, written, zeros, ConstPool, DataKey, ObjectView, Writing,
};
use crate::codegen::fits::{
    defined_functions, function_fits, functions_fit, item_fits, items_fit, units_fit,
};
use crate::codegen::llvm::{
    statement_views, Lowering, LoweringView, SlotData, Statement, StatementView, Step,
};
use crate::codegen::llvm::blob::{materialize_blob, materialized, InitView, Initializer};
use crate::codegen::llvm::function::{
    define_function_def, define_naked_function, function_lowered, naked_lowered, ParameterHome,
};
use crate::codegen::llvm::laws::{law_compilations_are_sound, numbered, units_sound};
use crate::codegen::mir::{
    EmissionUnit, ExternFunctionRef, MirDeclaration, MirFunctionBody, MirFunctionDef, MirItem,
    MirLinkage,
};
use crate::codegen::shared::{is_declared, Vtable};
use crate::hir::HirId;
use crate::layout::{align_of, measurable, size_of, total_bytes, type_alignment};
use crate::resolved_type::ResolvedFunctionType;
use crate::target::{Os, Target};
use crate::text::{same_text, share};
use std::rc::Rc;
use vstd::prelude::*;

verus! {

/// How a symbol takes part in linking.
#[derive(Debug, Clone, Copy, PartialEq, Eq, Structural)]
pub enum Linkage {
    External,
    WeakODR,
}

/// The linkage of a definition.
pub open spec fn linkage_of(linkage: MirLinkage) -> Linkage {
    match linkage {
        MirLinkage::Export => Linkage::External,
        MirLinkage::Weak => Linkage::WeakODR,
    }
}

pub fn llvm_linkage(linkage: MirLinkage) -> (found: Linkage)
    ensures
        found == linkage_of(linkage),
{
    match linkage {
        MirLinkage::Export => Linkage::External,
        MirLinkage::Weak => Linkage::WeakODR,
    }
}

/// A function symbol of the object. A gap and the glue that fills it have one
/// symbol and are one function.
#[derive(Debug)]
pub struct FunctionSymbol {
    pub symbol: String,
    pub fn_type: Rc<ResolvedFunctionType>,
    pub linkage: Linkage,
    pub section: Option<String>,
    /// Whether the function is nothing but machine code: it has no prologue
    /// and is never inlined.
    pub naked: bool,
}

/// What a [`FunctionSymbol`] says.
pub struct SymbolView {
    pub symbol: Seq<char>,
    pub fn_type: ResolvedFunctionType,
    pub linkage: Linkage,
    pub section: Option<Seq<char>>,
    pub naked: bool,
}

/// What a variable starts out as.
#[derive(Debug)]
pub enum Contents {
    /// It has no storage here.
    External,
    Zeros,
    Data(Initializer),
}

/// What [`Contents`] say.
pub enum ContentsView {
    External,
    Zeros,
    Data(InitView),
}

/// A variable of the object.
#[derive(Debug)]
pub struct GlobalSymbol {
    pub id: HirId,
    pub symbol: String,
    /// Its bytes, of which there is at least one.
    pub size: u32,
    pub align: u32,
    pub section: Option<String>,
    pub contents: Contents,
}

/// What a [`GlobalSymbol`] says.
pub struct GlobalSymbolView {
    pub id: HirId,
    pub symbol: Seq<char>,
    pub size: u32,
    pub align: u32,
    pub section: Option<Seq<char>>,
    pub contents: ContentsView,
}

/// A defined function: the position of its symbol, and its body.
#[derive(Debug)]
pub struct FunctionCode {
    pub function: usize,
    pub steps: Vec<Step>,
    pub slots: Vec<SlotData>,
    pub statements: Vec<Statement>,
}

/// What a [`FunctionCode`] says.
pub struct CodeView {
    pub function: usize,
    pub steps: Seq<Step>,
    pub slots: Seq<SlotData>,
    pub statements: Seq<StatementView>,
}

/// Where the parameters of a function live.
#[derive(Debug)]
pub struct FunctionHomes {
    pub id: HirId,
    pub homes: Vec<ParameterHome>,
}

/// Everything LLVM is told of one object.
#[derive(Debug)]
pub struct UnitPlan {
    pub functions: Vec<FunctionSymbol>,
    /// The function each identity is, by position.
    pub ids: Vec<(HirId, usize)>,
    pub globals: Vec<GlobalSymbol>,
    pub bodies: Vec<FunctionCode>,
    pub pool: ConstPool,
    pub vtables: Vec<Vtable>,
}

/// What a [`UnitPlan`] says.
pub struct UnitView {
    pub functions: Seq<SymbolView>,
    pub ids: Seq<(HirId, usize)>,
    pub globals: Seq<GlobalSymbolView>,
    pub bodies: Seq<CodeView>,
    pub pool: Seq<ObjectView>,
    pub vtables: Seq<Vtable>,
}

/// What an optional text says.
pub open spec fn text_view(text: Option<String>) -> Option<Seq<char>> {
    match text {
        Some(text) => Some(text@),
        None => None,
    }
}

impl View for FunctionSymbol {
    type V = SymbolView;

    open spec fn view(&self) -> SymbolView {
        SymbolView {
            symbol: self.symbol@,
            fn_type: *self.fn_type,
            linkage: self.linkage,
            section: text_view(self.section),
            naked: self.naked,
        }
    }
}

impl View for Contents {
    type V = ContentsView;

    open spec fn view(&self) -> ContentsView {
        match *self {
            Contents::External => ContentsView::External,
            Contents::Zeros => ContentsView::Zeros,
            Contents::Data(init) => ContentsView::Data(init@),
        }
    }
}

impl View for GlobalSymbol {
    type V = GlobalSymbolView;

    open spec fn view(&self) -> GlobalSymbolView {
        GlobalSymbolView {
            id: self.id,
            symbol: self.symbol@,
            size: self.size,
            align: self.align,
            section: text_view(self.section),
            contents: self.contents@,
        }
    }
}

impl View for FunctionCode {
    type V = CodeView;

    open spec fn view(&self) -> CodeView {
        CodeView {
            function: self.function,
            steps: self.steps@,
            slots: self.slots@,
            statements: statement_views(self.statements@),
        }
    }
}

/// What function symbols say, in order.
pub open spec fn symbol_views(functions: Seq<FunctionSymbol>) -> Seq<SymbolView> {
    functions.map_values(|function: FunctionSymbol| function@)
}

impl View for UnitPlan {
    type V = UnitView;

    open spec fn view(&self) -> UnitView {
        UnitView {
            functions: symbol_views(self.functions@),
            ids: self.ids@,
            globals: self.globals@.map_values(|global: GlobalSymbol| global@),
            bodies: self.bodies@.map_values(|code: FunctionCode| code@),
            pool: self.pool@,
            vtables: self.vtables@,
        }
    }
}

impl UnitView {
    pub open spec fn empty() -> UnitView {
        UnitView {
            functions: Seq::empty(),
            ids: Seq::empty(),
            globals: Seq::empty(),
            bodies: Seq::empty(),
            pool: Seq::empty(),
            vtables: Seq::empty(),
        }
    }

    /// The functions that have been declared.
    pub open spec fn function_ids(self) -> Seq<HirId> {
        self.ids.map_values(|entry: (HirId, usize)| entry.0)
    }

    /// The variables that have been declared.
    pub open spec fn global_ids(self) -> Seq<HirId> {
        self.globals.map_values(|global: GlobalSymbolView| global.id)
    }
}

/// The position of a symbol, from `from` on.
pub open spec fn symbol_position(functions: Seq<SymbolView>, symbol: Seq<char>, from: int) -> Option<
    int,
>
    decreases functions.len() - from,
{
    if from < 0 || from >= functions.len() {
        None
    } else if functions[from].symbol == symbol {
        Some(from)
    } else {
        symbol_position(functions, symbol, from + 1)
    }
}

/// The function an identity was last declared as.
pub open spec fn function_of(ids: Seq<(HirId, usize)>, id: HirId) -> Option<usize>
    decreases ids.len(),
{
    if ids.len() == 0 {
        None
    } else if ids.last().0 == id {
        Some(ids.last().1)
    } else {
        function_of(ids.drop_last(), id)
    }
}

/// A function declared under an identity: the one with its symbol, or a new
/// one that is defined elsewhere.
pub open spec fn declared(
    u: UnitView,
    id: HirId,
    symbol: Seq<char>,
    fn_type: ResolvedFunctionType,
) -> (UnitView, int) {
    match symbol_position(u.functions, symbol, 0) {
        Some(index) => (UnitView { ids: u.ids.push((id, index as usize)), ..u }, index),
        None => (
            UnitView {
                functions: u.functions.push(
                    SymbolView {
                        symbol,
                        fn_type,
                        linkage: Linkage::External,
                        section: None,
                        naked: false,
                    },
                ),
                ids: u.ids.push((id, u.functions.len() as usize)),
                ..u
            },
            u.functions.len() as int,
        ),
    }
}

/// The section of its own that a symbol has, on systems that have such.
pub open spec fn section_of(target: Target, prefix: Seq<char>, symbol: Seq<char>) -> Option<
    Seq<char>,
> {
    if target.os is MacOs {
        None
    } else {
        Some(prefix + symbol)
    }
}

/// A function with what its owner decides: linkage, section, and whether it is
/// nothing but machine code. That wins over any other declaration.
pub open spec fn owned(target: Target, u: UnitView, function: MirFunctionDef) -> UnitView {
    let (next, index) = declared(u, function.id, function.symbol@, *function.fn_type);
    let entry = next.functions[index];
    UnitView {
        functions: next.functions.update(
            index,
            SymbolView {
                linkage: linkage_of(function.linkage),
                section: if target.os is MacOs {
                    entry.section
                } else {
                    section_of(target, ".text."@, function.symbol@)
                },
                naked: entry.naked || function.body is Naked,
                ..entry
            },
        ),
        ..next
    }
}

/// The first `n` functions with what their owner decides.
pub open spec fn all_owned(
    target: Target,
    u: UnitView,
    functions: Seq<MirFunctionDef>,
    n: nat,
) -> UnitView
    decreases n,
{
    if n == 0 {
        u
    } else {
        owned(target, all_owned(target, u, functions, (n - 1) as nat), functions[n - 1])
    }
}

/// The first `n` functions of the catalog, declared.
pub open spec fn functions_declared(u: UnitView, functions: Seq<FunctionView>, n: nat) -> UnitView
    decreases n,
{
    if n == 0 {
        u
    } else {
        let before = functions_declared(u, functions, (n - 1) as nat);
        let function = functions[n - 1];
        declared(before, function.id, function.symbol, function.fn_type).0
    }
}

/// The bytes a variable takes, of which there is at least one.
pub open spec fn storage_size(size: nat) -> u32 {
    if size == 0 {
        1
    } else {
        size as u32
    }
}

/// A variable the object refers to, without storage.
pub open spec fn global_reference(global: GlobalView, pointer_bytes: u32) -> GlobalSymbolView {
    GlobalSymbolView {
        id: global.id,
        symbol: global.symbol,
        size: storage_size(size_of(global.ty, pointer_bytes)),
        align: align_of(global.ty) as u32,
        section: None,
        contents: ContentsView::External,
    }
}

/// The first `n` variables of the catalog that the object does not own,
/// declared.
pub open spec fn globals_declared(
    u: UnitView,
    globals: Seq<GlobalView>,
    own: Seq<HirId>,
    pointer_bytes: u32,
    n: nat,
) -> UnitView
    decreases n,
{
    if n == 0 {
        u
    } else {
        let before = globals_declared(u, globals, own, pointer_bytes, (n - 1) as nat);
        if own.contains(globals[n - 1].id) {
            before
        } else {
            UnitView {
                globals: before.globals.push(global_reference(globals[n - 1], pointer_bytes)),
                ..before
            }
        }
    }
}

/// A variable the object owns, with its initial contents.
pub open spec fn global_defined(target: Target, u: UnitView, declaration: MirDeclaration) -> Option<
    UnitView,
> {
    let pb = target.pointer_width();
    let total = size_of(declaration.ty, pb);
    let global = GlobalSymbolView {
        id: declaration.id,
        symbol: declaration.symbol@,
        size: storage_size(total),
        align: align_of(declaration.ty) as u32,
        section: section_of(target, ".data."@, declaration.symbol@),
        contents: ContentsView::Zeros,
    };
    match declaration.initial_value {
        None => Some(UnitView { globals: u.globals.push(global), ..u }),
        Some(value) => match written(
            *value,
            declaration.ty,
            0,
            Writing { pool: u.pool, blob: zeros(total) },
            pb,
        ) {
            Some(w) => match materialized(w.blob, pb) {
                Some(init) => Some(
                    UnitView {
                        pool: w.pool,
                        globals: u.globals.push(
                            GlobalSymbolView { contents: ContentsView::Data(init), ..global },
                        ),
                        ..u
                    },
                ),
                None => None,
            },
            None => None,
        },
    }
}

/// What an item of the object decides of the symbols it owns. A binding to
/// another object owns none.
pub open spec fn configured(target: Target, u: UnitView, item: MirItem) -> Option<UnitView> {
    match item {
        MirItem::Declaration(declaration) => global_defined(target, u, declaration),
        _ => Some(
            all_owned(target, u, defined_functions(item), defined_functions(item).len()),
        ),
    }
}

/// Where the parameters of a function live; those nothing is said of live in
/// values.
pub open spec fn homes_of(list: Seq<FunctionHomes>, id: HirId) -> Seq<ParameterHome>
    decreases list.len(),
{
    if list.len() == 0 {
        Seq::empty()
    } else if list[0].id == id {
        list[0].homes@
    } else {
        homes_of(list.skip(1), id)
    }
}

/// The body of a function.
pub open spec fn body_lowered(
    target: Target,
    u: UnitView,
    function: MirFunctionDef,
    homes: Seq<FunctionHomes>,
) -> Option<LoweringView> {
    match function.body {
        MirFunctionBody::Normal(body) => function_lowered(
            target,
            *function.fn_type,
            body,
            homes_of(homes, function.id),
            u.function_ids(),
            u.global_ids(),
            u.pool,
            u.vtables,
        ),
        MirFunctionBody::Naked(code) => naked_lowered(
            target,
            code,
            u.function_ids(),
            u.global_ids(),
            u.pool,
            u.vtables,
        ),
    }
}

/// A function with its body.
pub open spec fn function_defined(
    target: Target,
    u: UnitView,
    function: MirFunctionDef,
    homes: Seq<FunctionHomes>,
) -> Option<UnitView> {
    match (function_of(u.ids, function.id), body_lowered(target, u, function, homes)) {
        (Some(index), Some(lowered)) => Some(
            UnitView {
                pool: lowered.pool,
                vtables: lowered.vtables,
                bodies: u.bodies.push(
                    CodeView {
                        function: index,
                        steps: lowered.steps,
                        slots: lowered.slots,
                        statements: lowered.statements,
                    },
                ),
                ..u
            },
        ),
        _ => None,
    }
}

/// What the first `n` items decide, in order.
pub open spec fn items_configured(target: Target, u: UnitView, items: Seq<MirItem>, n: nat) -> Option<UnitView>
    decreases n,
{
    if n == 0 {
        Some(u)
    } else {
        match items_configured(target, u, items, (n - 1) as nat) {
            Some(before) => configured(target, before, items[n - 1]),
            None => None,
        }
    }
}

/// The first `n` functions with their bodies, in order.
pub open spec fn functions_defined(target: Target, u: UnitView, functions: Seq<MirFunctionDef>, homes: Seq<FunctionHomes>, n: nat) -> Option<UnitView>
    decreases n,
{
    if n == 0 {
        Some(u)
    } else {
        match functions_defined(target, u, functions, homes, (n - 1) as nat) {
            Some(before) => function_defined(target, before, functions[n - 1], homes),
            None => None,
        }
    }
}

/// The first `n` items with the bodies they define, in order.
pub open spec fn items_defined(target: Target, u: UnitView, items: Seq<MirItem>, homes: Seq<FunctionHomes>, n: nat) -> Option<UnitView>
    decreases n,
{
    if n == 0 {
        Some(u)
    } else {
        match items_defined(target, u, items, homes, (n - 1) as nat) {
            Some(before) => functions_defined(target, before, defined_functions(items[n - 1]), homes, defined_functions(items[n - 1]).len()),
            None => None,
        }
    }
}

/// An object: it declares every function of the catalog and every variable it
/// does not own, decides what it owns, and then defines its bodies.
pub open spec fn emitted(
    target: Target,
    functions: Seq<FunctionView>,
    globals: Seq<GlobalView>,
    items: Seq<MirItem>,
    homes: Seq<FunctionHomes>,
) -> Option<UnitView> {
    let named = functions_declared(UnitView::empty(), functions, functions.len());
    let referred = globals_declared(
        named,
        globals,
        declared_ids(items),
        target.pointer_width(),
        globals.len(),
    );
    match items_configured(target, referred, items, items.len()) {
        Some(ready) => items_defined(target, ready, items, homes, items.len()),
        None => None,
    }
}

/// Whether an outcome is the one a view says.
pub open spec fn outcome(done: bool, after: UnitView, expected: Option<UnitView>) -> bool {
    match expected {
        Some(u) => done && after == u,
        None => !done,
    }
}

proof fn lemma_configuring_stops(target: Target, u: UnitView, items: Seq<MirItem>, n: nat, k: nat)
    requires
        n <= k,
        items_configured(target, u, items, n) is None,
    ensures
        items_configured(target, u, items, k) is None,
    decreases k,
{
    if n < k {
        lemma_configuring_stops(target, u, items, n, (k - 1) as nat);
    }
}

proof fn lemma_defining_functions_stops(target: Target, u: UnitView, functions: Seq<MirFunctionDef>, homes: Seq<FunctionHomes>, n: nat, k: nat)
    requires
        n <= k,
        functions_defined(target, u, functions, homes, n) is None,
    ensures
        functions_defined(target, u, functions, homes, k) is None,
    decreases k,
{
    if n < k {
        lemma_defining_functions_stops(target, u, functions, homes, n, (k - 1) as nat);
    }
}

proof fn lemma_defining_items_stops(target: Target, u: UnitView, items: Seq<MirItem>, homes: Seq<FunctionHomes>, n: nat, k: nat)
    requires
        n <= k,
        items_defined(target, u, items, homes, n) is None,
    ensures
        items_defined(target, u, items, homes, k) is None,
    decreases k,
{
    if n < k {
        lemma_defining_items_stops(target, u, items, homes, n, (k - 1) as nat);
    }
}

fn homes_for<'a>(list: &'a Vec<FunctionHomes>, id: HirId) -> (found: Option<&'a Vec<ParameterHome>>)
    ensures
        homes_of(list@, id) == match found {
            Some(homes) => homes@,
            None => Seq::empty(),
        },
{
    let mut i: usize = 0;
    assert(list@.skip(0) =~= list@);
    while i < list.len()
        invariant
            i <= list@.len(),
            homes_of(list@, id) == homes_of(list@.skip(i as int), id),
        decreases list.len() - i,
    {
        assert(list@.skip(i as int)[0] == list@[i as int]);
        assert(list@.skip(i as int).skip(1) =~= list@.skip(i + 1));
        if list[i].id == id {
            return Some(&list[i].homes);
        }
        i = i + 1;
    }
    None
}

fn section_named(target: Target, prefix: &str, symbol: &String) -> (section: Option<String>)
    ensures
        text_view(section) == section_of(target, prefix@, symbol@),
{
    match target.os {
        Os::MacOs => None,
        _ => {
            let mut section: String = prefix.to_owned();
            section.append(symbol.as_str());
            Some(section)
        },
    }
}

/// Where constant data goes, and who may replace it. Units that are compiled
/// apart may each hold the same data.
#[derive(Debug)]
pub struct ConstantPlacement {
    pub linkage: Linkage,
    pub section: Option<String>,
    /// The alignment, where it is not that of the data's type.
    pub align: Option<u32>,
}

/// Places a piece of the pool: text as its type asks, other data anywhere.
pub fn place_data(target: Target, key: &DataKey, symbol: &String) -> (placement: ConstantPlacement)
    ensures
        placement.linkage == Linkage::WeakODR,
        text_view(placement.section) == section_of(target, ".rodata."@, symbol@),
        placement.align == match *key {
            DataKey::Text(_) => None::<u32>,
            DataKey::Blob(_) => Some(1u32),
        },
{
    let align: Option<u32> = match key {
        DataKey::Text(_) => None,
        DataKey::Blob(_) => Some(1),
    };
    ConstantPlacement {
        linkage: Linkage::WeakODR,
        section: section_named(target, ".rodata.", symbol),
        align,
    }
}

/// Places a method table, aligned as its pointers are.
pub fn place_table(target: Target, symbol: &String) -> (placement: ConstantPlacement)
    ensures
        placement.linkage == Linkage::WeakODR,
        text_view(placement.section) == section_of(target, ".rodata."@, symbol@),
        placement.align == Some(target.pointer_width()),
{
    ConstantPlacement {
        linkage: Linkage::WeakODR,
        section: section_named(target, ".rodata.", symbol),
        align: Some(target.pointer_bytes()),
    }
}

fn bytes_of_storage(total: u32) -> (size: u32)
    ensures
        size == storage_size(total as nat),
{
    if total == 0 {
        1
    } else {
        total
    }
}

impl UnitPlan {
    pub fn new() -> (plan: Self)
        ensures
            plan@ == UnitView::empty(),
    {
        let plan = UnitPlan {
            functions: Vec::new(),
            ids: Vec::new(),
            globals: Vec::new(),
            bodies: Vec::new(),
            pool: ConstPool::new(),
            vtables: Vec::new(),
        };
        assert(plan@.functions =~= Seq::empty());
        assert(plan@.ids =~= Seq::empty());
        assert(plan@.globals =~= Seq::empty());
        assert(plan@.bodies =~= Seq::empty());
        assert(plan@.vtables =~= Seq::empty());
        plan
    }

    fn declare_or_reuse_function(
        &mut self,
        id: HirId,
        symbol: &String,
        fn_type: &Rc<ResolvedFunctionType>,
    ) -> (index: usize)
        ensures
            (final(self)@, index as int) == declared(old(self)@, id, symbol@, **fn_type),
            index < final(self).functions@.len(),
    {
        let ghost before = self@;
        let mut i: usize = 0;
        while i < self.functions.len()
            invariant
                i <= self.functions@.len(),
                self@ == before,
                before == old(self)@,
                symbol_position(before.functions, symbol@, 0) == symbol_position(
                    before.functions,
                    symbol@,
                    i as int,
                ),
            decreases self.functions.len() - i,
        {
            assert(before.functions[i as int] == self.functions@[i as int]@);
            if same_text(self.functions[i].symbol.as_str(), symbol.as_str()) {
                self.ids.push((id, i));
                return i;
            }
            i = i + 1;
        }
        let index: usize = self.functions.len();
        let entry = FunctionSymbol {
            symbol: symbol.as_str().to_owned(),
            fn_type: share(fn_type),
            linkage: Linkage::External,
            section: None,
            naked: false,
        };
        let ghost found = entry@;
        self.functions.push(entry);
        assert(self@.functions =~= before.functions.push(found));
        self.ids.push((id, index));
        index
    }

    fn configure_function_owner(&mut self, target: Target, function: &MirFunctionDef)
        ensures
            final(self)@ == owned(target, old(self)@, *function),
    {
        let index: usize = self.declare_or_reuse_function(
            function.id,
            &function.symbol,
            &function.fn_type,
        );
        let ghost next = self@;
        let naked: bool = match &function.body {
            MirFunctionBody::Naked(_) => true,
            MirFunctionBody::Normal(_) => false,
        };
        let old_entry: &FunctionSymbol = &self.functions[index];
        assert(next.functions[index as int] == old_entry@);
        let section: Option<String> = match section_named(target, ".text.", &function.symbol) {
            Some(section) => Some(section),
            None => match &old_entry.section {
                Some(section) => Some(section.as_str().to_owned()),
                None => None,
            },
        };
        let entry = FunctionSymbol {
            symbol: old_entry.symbol.as_str().to_owned(),
            fn_type: share(&old_entry.fn_type),
            linkage: llvm_linkage(function.linkage),
            section,
            naked: old_entry.naked || naked,
        };
        let ghost found = entry@;
        self.functions.set(index, entry);
        assert(self@.functions =~= next.functions.update(index as int, found));
    }

    fn configure_owners(&mut self, target: Target, functions: &Vec<MirFunctionDef>)
        ensures
            final(self)@ == all_owned(target, old(self)@, functions@, functions@.len()),
    {
        let ghost before = self@;
        let mut i: usize = 0;
        while i < functions.len()
            invariant
                i <= functions@.len(),
                before == old(self)@,
                self@ == all_owned(target, before, functions@, i as nat),
            decreases functions.len() - i,
        {
            self.configure_function_owner(target, &functions[i]);
            i = i + 1;
        }
    }

    fn configure_owner(&mut self, target: Target, function: &MirFunctionDef)
        ensures
            final(self)@ == all_owned(target, old(self)@, seq![*function], 1),
    {
        assert(all_owned(target, self@, seq![*function], 0) == self@);
        self.configure_function_owner(target, function);
    }

    fn declare_references(&mut self, functions: &Vec<FunctionDecl>)
        ensures
            final(self)@ == functions_declared(
                old(self)@,
                function_views(functions@),
                functions@.len(),
            ),
    {
        let ghost before = self@;
        let ghost all = function_views(functions@);
        let mut i: usize = 0;
        while i < functions.len()
            invariant
                i <= functions@.len(),
                before == old(self)@,
                all == function_views(functions@),
                self@ == functions_declared(before, all, i as nat),
            decreases functions.len() - i,
        {
            let function: &FunctionDecl = &functions[i];
            assert(all[i as int] == function@);
            self.declare_or_reuse_function(function.id, &function.symbol, &function.fn_type);
            i = i + 1;
        }
    }

    fn declare_global_reference(&mut self, target: Target, global: &GlobalDecl)
        requires
            measurable(global.ty, target.pointer_width()),
        ensures
            final(self)@ == (UnitView {
                globals: old(self)@.globals.push(
                    global_reference(global@, target.pointer_width()),
                ),
                ..old(self)@
            }),
    {
        let pb: u32 = target.pointer_bytes();
        let entry = GlobalSymbol {
            id: global.id,
            symbol: global.symbol.as_str().to_owned(),
            size: bytes_of_storage(total_bytes(&global.ty, pb)),
            align: type_alignment(&global.ty),
            section: None,
            contents: Contents::External,
        };
        let ghost found = entry@;
        self.globals.push(entry);
        assert(self@.globals =~= old(self)@.globals.push(found));
    }

    fn declare_other_globals(&mut self, target: Target, globals: &Vec<GlobalDecl>, own: &Vec<HirId>)
        requires
            forall|i: int|
                0 <= i < globals@.len() ==> measurable(
                    (#[trigger] globals@[i]).ty,
                    target.pointer_width(),
                ),
        ensures
            final(self)@ == globals_declared(
                old(self)@,
                global_views(globals@),
                own@,
                target.pointer_width(),
                globals@.len(),
            ),
    {
        let ghost before = self@;
        let ghost all = global_views(globals@);
        let mut i: usize = 0;
        while i < globals.len()
            invariant
                i <= globals@.len(),
                before == old(self)@,
                all == global_views(globals@),
                forall|i: int|
                    0 <= i < globals@.len() ==> measurable(
                        (#[trigger] globals@[i]).ty,
                        target.pointer_width(),
                    ),
                self@ == globals_declared(before, all, own@, target.pointer_width(), i as nat),
            decreases globals.len() - i,
        {
            let global: &GlobalDecl = &globals[i];
            assert(all[i as int] == global@);
            if !is_declared(own, global.id) {
                self.declare_global_reference(target, global);
            }
            i = i + 1;
        }
    }

    fn define_global(&mut self, target: Target, declaration: &MirDeclaration) -> (done: bool)
        requires
            item_fits(MirItem::Declaration(*declaration), target.pointer_width()),
        ensures
            outcome(done, final(self)@, global_defined(target, old(self)@, *declaration)),
    {
        let pb: u32 = target.pointer_bytes();
        let total: u32 = total_bytes(&declaration.ty, pb);
        let ghost before = self@;
        let contents: Contents = match &declaration.initial_value {
            None => Contents::Zeros,
            Some(value) => match build_const_blob(&mut self.pool, value, &declaration.ty, pb) {
                Some(blob) => match materialize_blob(&blob, pb) {
                    Some(init) => Contents::Data(init),
                    None => {
                        return false;
                    },
                },
                None => {
                    return false;
                },
            },
        };
        assert(self@ == (UnitView { pool: self.pool@, ..before }));
        let global = GlobalSymbol {
            id: declaration.id,
            symbol: declaration.symbol.as_str().to_owned(),
            size: bytes_of_storage(total),
            align: type_alignment(&declaration.ty),
            section: section_named(target, ".data.", &declaration.symbol),
            contents,
        };
        let ghost found = global@;
        self.globals.push(global);
        assert(self@.globals =~= before.globals.push(found));
        true
    }

    fn configure_owned_item(&mut self, target: Target, item: &MirItem) -> (done: bool)
        requires
            item_fits(*item, target.pointer_width()),
        ensures
            outcome(done, final(self)@, configured(target, old(self)@, *item)),
    {
        match item {
            MirItem::Declaration(declaration) => {
                return self.define_global(target, declaration);
            },
            MirItem::ForeignBinding(_) => {},
            MirItem::ForeignFunction(function) => self.configure_owner(target, function),
            MirItem::FunctionDefinition(function) => self.configure_owner(target, function),
            MirItem::Struct(definition) => self.configure_owners(target, &definition.functions),
            MirItem::Enum(definition) => self.configure_owners(target, &definition.functions),
            MirItem::Union(definition) => self.configure_owners(target, &definition.functions),
        }
        true
    }

    fn configure_items(&mut self, target: Target, items: &Vec<MirItem>) -> (done: bool)
        requires
            items_fit(items@, target.pointer_width()),
        ensures
            outcome(done, final(self)@, items_configured(target, old(self)@, items@, items@.len())),
    {
        let ghost before = self@;
        let mut i: usize = 0;
        while i < items.len()
            invariant
                i <= items@.len(),
                items_fit(items@, target.pointer_width()),
                before == old(self)@,
                items_configured(target, before, items@, i as nat) == Some(self@),
            decreases items.len() - i,
        {
            assert(item_fits(items@[i as int], target.pointer_width()));
            if !self.configure_owned_item(target, &items[i]) {
                proof {
                    lemma_configuring_stops(target, before, items@, (i + 1) as nat, items@.len());
                }
                return false;
            }
            i = i + 1;
        }
        true
    }

    fn ids_of_functions(&self) -> (ids: Vec<HirId>)
        ensures
            ids@ == self@.function_ids(),
    {
        let mut ids: Vec<HirId> = Vec::new();
        let mut i: usize = 0;
        while i < self.ids.len()
            invariant
                i <= self.ids@.len(),
                ids@ =~= self@.function_ids().take(i as int),
            decreases self.ids.len() - i,
        {
            ids.push(self.ids[i].0);
            i = i + 1;
        }
        assert(ids@ =~= self@.function_ids());
        ids
    }

    fn ids_of_globals(&self) -> (ids: Vec<HirId>)
        ensures
            ids@ == self@.global_ids(),
    {
        let mut ids: Vec<HirId> = Vec::new();
        let mut i: usize = 0;
        while i < self.globals.len()
            invariant
                i <= self.globals@.len(),
                ids@ =~= self@.global_ids().take(i as int),
            decreases self.globals.len() - i,
        {
            ids.push(self.globals[i].id);
            i = i + 1;
        }
        assert(ids@ =~= self@.global_ids());
        ids
    }

    /// The function an identity was last declared as.
    pub fn function_index(&self, id: HirId) -> (index: Option<usize>)
        ensures
            index == function_of(self@.ids, id),
    {
        let mut i: usize = self.ids.len();
        assert(self.ids@.take(i as int) =~= self.ids@);
        while i > 0
            invariant
                i <= self.ids@.len(),
                function_of(self.ids@, id) == function_of(self.ids@.take(i as int), id),
            decreases i,
        {
            assert(self.ids@.take(i as int).drop_last() =~= self.ids@.take(i - 1));
            i = i - 1;
            let entry: (HirId, usize) = self.ids[i];
            if entry.0 == id {
                return Some(entry.1);
            }
        }
        None
    }

    fn lower_body(
        &mut self,
        target: Target,
        function: &MirFunctionDef,
        homes: &Vec<FunctionHomes>,
    ) -> (lowered: Option<Lowering>)
        requires
            function_fits(*function, target.pointer_width()),
        ensures
            match body_lowered(target, old(self)@, *function, homes@) {
                Some(after) => lowered is Some && lowered->0@ == after,
                None => lowered is None,
            },
            final(self)@ == (UnitView {
                pool: final(self)@.pool,
                vtables: final(self)@.vtables,
                ..old(self)@
            }),
    {
        let functions: Vec<HirId> = self.ids_of_functions();
        let globals: Vec<HirId> = self.ids_of_globals();
        let mut pool: ConstPool = ConstPool::new();
        let mut vtables: Vec<Vtable> = Vec::new();
        std::mem::swap(&mut pool, &mut self.pool);
        std::mem::swap(&mut vtables, &mut self.vtables);
        match &function.body {
            MirFunctionBody::Normal(body) => {
                let unsaid: Vec<ParameterHome> = Vec::new();
                assert(unsaid@ =~= Seq::empty());
                let homes: &Vec<ParameterHome> = match homes_for(homes, function.id) {
                    Some(homes) => homes,
                    None => &unsaid,
                };
                define_function_def(
                    target,
                    &function.fn_type,
                    body,
                    homes,
                    &functions,
                    &globals,
                    pool,
                    vtables,
                )
            },
            MirFunctionBody::Naked(code) => define_naked_function(
                target,
                code,
                &functions,
                &globals,
                pool,
                vtables,
            ),
        }
    }

    fn define_function(
        &mut self,
        target: Target,
        function: &MirFunctionDef,
        homes: &Vec<FunctionHomes>,
    ) -> (done: bool)
        requires
            function_fits(*function, target.pointer_width()),
        ensures
            outcome(done, final(self)@, function_defined(target, old(self)@, *function, homes@)),
    {
        let ghost before = self@;
        let index: usize = match self.function_index(function.id) {
            Some(index) => index,
            None => {
                return false;
            },
        };
        match self.lower_body(target, function, homes) {
            Some(lowered) => {
                let ghost view = lowered@;
                let Lowering { steps, slots, statements, pool, vtables } = lowered;
                self.pool = pool;
                self.vtables = vtables;
                let code = FunctionCode { function: index, steps, slots, statements };
                let ghost found = code@;
                self.bodies.push(code);
                assert(self@.bodies =~= before.bodies.push(found));
                true
            },
            None => false,
        }
    }

    fn define_functions(&mut self, target: Target, functions: &Vec<MirFunctionDef>, homes: &Vec<FunctionHomes>) -> (done: bool)
        requires
            functions_fit(functions@, target.pointer_width()),
        ensures
            outcome(done, final(self)@, functions_defined(target, old(self)@, functions@, homes@, functions@.len())),
    {
        let ghost before = self@;
        let mut i: usize = 0;
        while i < functions.len()
            invariant
                i <= functions@.len(),
                functions_fit(functions@, target.pointer_width()),
                before == old(self)@,
                functions_defined(target, before, functions@, homes@, i as nat) == Some(self@),
            decreases functions.len() - i,
        {
            assert(function_fits(functions@[i as int], target.pointer_width()));
            if !self.define_function(target, &functions[i], homes) {
                proof {
                    lemma_defining_functions_stops(target, before, functions@, homes@, (i + 1) as nat, functions@.len());
                }
                return false;
            }
            i = i + 1;
        }
        true
    }

    fn define_one(
        &mut self,
        target: Target,
        function: &MirFunctionDef,
        homes: &Vec<FunctionHomes>,
    ) -> (done: bool)
        requires
            function_fits(*function, target.pointer_width()),
        ensures
            outcome(
                done,
                final(self)@,
                functions_defined(target, old(self)@, seq![*function], homes@, 1),
            ),
    {
        assert(functions_defined(target, self@, seq![*function], homes@, 0) == Some(self@));
        self.define_function(target, function, homes)
    }

    fn define_item(&mut self, target: Target, item: &MirItem, homes: &Vec<FunctionHomes>) -> (done:
        bool)
        requires
            item_fits(*item, target.pointer_width()),
        ensures
            outcome(
                done,
                final(self)@,
                functions_defined(
                    target,
                    old(self)@,
                    defined_functions(*item),
                    homes@,
                    defined_functions(*item).len(),
                ),
            ),
    {
        match item {
            MirItem::Declaration(_) => true,
            MirItem::ForeignBinding(_) => true,
            MirItem::ForeignFunction(function) => self.define_one(target, function, homes),
            MirItem::FunctionDefinition(function) => self.define_one(target, function, homes),
            MirItem::Struct(definition) => self.define_functions(
                target,
                &definition.functions,
                homes,
            ),
            MirItem::Enum(definition) => self.define_functions(
                target,
                &definition.functions,
                homes,
            ),
            MirItem::Union(definition) => self.define_functions(
                target,
                &definition.functions,
                homes,
            ),
        }
    }

    fn define_items(&mut self, target: Target, items: &Vec<MirItem>, homes: &Vec<FunctionHomes>) -> (done: bool)
        requires
            items_fit(items@, target.pointer_width()),
        ensures
            outcome(done, final(self)@, items_defined(target, old(self)@, items@, homes@, items@.len())),
    {
        let ghost before = self@;
        let mut i: usize = 0;
        while i < items.len()
            invariant
                i <= items@.len(),
                items_fit(items@, target.pointer_width()),
                before == old(self)@,
                items_defined(target, before, items@, homes@, i as nat) == Some(self@),
            decreases items.len() - i,
        {
            assert(item_fits(items@[i as int], target.pointer_width()));
            if !self.define_item(target, &items[i], homes) {
                proof {
                    lemma_defining_items_stops(target, before, items@, homes@, (i + 1) as nat, items@.len());
                }
                return false;
            }
            i = i + 1;
        }
        true
    }

    /// What LLVM is told of one source file. Nothing where the file holds what
    /// no checked program does.
    pub fn emit_unit(
        target: Target,
        catalog: &Catalog,
        unit: &EmissionUnit,
        homes: &Vec<FunctionHomes>,
    ) -> (plan: Option<UnitPlan>)
        requires
            items_fit(unit.items@, target.pointer_width()),
            forall|i: int|
                0 <= i < catalog.globals@.len() ==> measurable(
                    (#[trigger] catalog.globals@[i]).ty,
                    target.pointer_width(),
                ),
        ensures
            match emitted(
                target,
                function_views(catalog.functions@),
                global_views(catalog.globals@),
                unit.items@,
                homes@,
            ) {
                Some(u) => plan is Some && plan->0@ == u,
                None => plan is None,
            },
    {
        let mut plan: UnitPlan = UnitPlan::new();
        plan.declare_references(&catalog.functions);
        let own: Vec<HirId> = Catalog::owned_globals(unit);
        plan.declare_other_globals(target, &catalog.globals, &own);
        if plan.configure_items(target, &unit.items) && plan.define_items(
            target,
            &unit.items,
            homes,
        ) {
            Some(plan)
        } else {
            None
        }
    }
}

/// Why a compilation cannot be emitted.
#[derive(Debug)]
pub enum PlanError {
    /// Two definitions claim one symbol.
    Collision(String),
    /// The compilation holds what no checked program does.
    Malformed,
}

/// What a [`PlanError`] says.
pub enum Failure {
    Collision(Seq<char>),
    Malformed,
}

impl View for PlanError {
    type V = Failure;

    open spec fn view(&self) -> Failure {
        match *self {
            PlanError::Collision(text) => Failure::Collision(text@),
            PlanError::Malformed => Failure::Malformed,
        }
    }
}

/// What plans say, in order.
pub open spec fn plan_views(plans: Seq<UnitPlan>) -> Seq<UnitView> {
    plans.map_values(|plan: UnitPlan| plan@)
}

/// The objects of the first `n` units, in order.
pub open spec fn units_emitted(
    target: Target,
    functions: Seq<FunctionView>,
    globals: Seq<GlobalView>,
    units: Seq<EmissionUnit>,
    homes: Seq<FunctionHomes>,
    n: nat,
) -> Option<Seq<UnitView>>
    decreases n,
{
    if n == 0 {
        Some(Seq::empty())
    } else {
        match units_emitted(target, functions, globals, units, homes, (n - 1) as nat) {
            Some(before) => match emitted(
                target,
                functions,
                globals,
                units[n - 1].items@,
                homes,
            ) {
                Some(last) => Some(before.push(last)),
                None => None,
            },
            None => None,
        }
    }
}

/// Whether every variable of a catalog can be laid out.
pub open spec fn globals_fit(globals: Seq<GlobalView>, pointer_bytes: u32) -> bool {
    forall|i: int|
        0 <= i < globals.len() ==> measurable((#[trigger] globals[i]).ty, pointer_bytes)
}

/// A compilation: one object for each unit, all of which can refer to what any
/// of them declares.
pub open spec fn generated(
    target: Target,
    units: Seq<EmissionUnit>,
    extern_functions: Seq<ExternFunctionRef>,
    homes: Seq<FunctionHomes>,
) -> Result<Seq<UnitView>, Failure> {
    let pb = target.pointer_width();
    match units_added(CatalogView::empty(), units) {
        Ok(catalog) => if units_fit(units, pb) && globals_fit(catalog.globals, pb) {
            match units_emitted(
                target,
                catalog.functions + reference_views(extern_functions),
                catalog.globals,
                units,
                homes,
                units.len(),
            ) {
                Some(plans) => Ok(plans),
                None => Err(Failure::Malformed),
            }
        } else {
            Err(Failure::Malformed)
        },
        Err(text) => Err(Failure::Collision(text)),
    }
}

proof fn lemma_emitting_stops(
    target: Target,
    functions: Seq<FunctionView>,
    globals: Seq<GlobalView>,
    units: Seq<EmissionUnit>,
    homes: Seq<FunctionHomes>,
    n: nat,
    m: nat,
)
    requires
        n <= m,
        units_emitted(target, functions, globals, units, homes, n) is None,
    ensures
        units_emitted(target, functions, globals, units, homes, m) is None,
    decreases m,
{
    if n < m {
        lemma_emitting_stops(target, functions, globals, units, homes, n, (m - 1) as nat);
    }
}

fn globals_are_fit(globals: &Vec<GlobalDecl>, pointer_bytes: u32) -> (r: bool)
    ensures
        r == globals_fit(global_views(globals@), pointer_bytes),
        r ==> forall|i: int|
            0 <= i < globals@.len() ==> measurable((#[trigger] globals@[i]).ty, pointer_bytes),
{
    let ghost views = global_views(globals@);
    let mut i: usize = 0;
    while i < globals.len()
        invariant
            i <= globals@.len(),
            views == global_views(globals@),
            forall|k: int|
                0 <= k < i ==> measurable((#[trigger] globals@[k]).ty, pointer_bytes),
        decreases globals.len() - i,
    {
        if !is_measurable(&globals[i].ty, pointer_bytes) {
            assert(!measurable(views[i as int].ty, pointer_bytes));
            return false;
        }
        i = i + 1;
    }
    assert forall|k: int| 0 <= k < views.len() implies measurable(
        (#[trigger] views[k]).ty,
        pointer_bytes,
    ) by {
        assert(measurable(globals@[k].ty, pointer_bytes));
    }
    true
}

/// What LLVM is told of a compilation, one plan for each source file.
pub fn generate(
    target: Target,
    units: &Vec<EmissionUnit>,
    extern_functions: &Vec<ExternFunctionRef>,
    homes: &Vec<FunctionHomes>,
) -> (result: Result<Vec<UnitPlan>, PlanError>)
    ensures
        match generated(target, units@, extern_functions@, homes@) {
            Ok(plans) => {
                &&& result is Ok
                &&& plan_views(result->Ok_0@) == plans
                &&& forall|k: int| 0 <= k < plans.len() ==> numbered(#[trigger] plans[k])
                &&& units_sound(target, units@, plans)
            },
            Err(failure) => result is Err && result->Err_0@ == failure,
        },
{
    let pb: u32 = target.pointer_bytes();
    let catalog: Catalog = match Catalog::build(units, extern_functions) {
        Ok(catalog) => catalog,
        Err(text) => {
            return Err(PlanError::Collision(text));
        },
    };
    if !units_are_fit(units, pb) || !globals_are_fit(&catalog.globals, pb) {
        return Err(PlanError::Malformed);
    }
    let ghost functions = function_views(catalog.functions@);
    let ghost globals = global_views(catalog.globals@);
    let mut plans: Vec<UnitPlan> = Vec::new();
    let mut i: usize = 0;
    assert(plan_views(plans@) =~= Seq::empty());
    while i < units.len()
        invariant
            i <= units@.len(),
            pb == target.pointer_width(),
            units_fit(units@, pb),
            forall|k: int|
                0 <= k < catalog.globals@.len() ==> measurable(
                    (#[trigger] catalog.globals@[k]).ty,
                    pb,
                ),
            functions == function_views(catalog.functions@),
            globals == global_views(catalog.globals@),
            generated(target, units@, extern_functions@, homes@) == match units_emitted(
                target,
                functions,
                globals,
                units@,
                homes@,
                units@.len(),
            ) {
                Some(plans) => Ok::<Seq<UnitView>, Failure>(plans),
                None => Err(Failure::Malformed),
            },
            units_emitted(target, functions, globals, units@, homes@, i as nat) == Some(
                plan_views(plans@),
            ),
        decreases units.len() - i,
    {
        assert(items_fit(units@[i as int].items@, pb));
        match UnitPlan::emit_unit(target, &catalog, &units[i], homes) {
            Some(plan) => {
                let ghost before = plans@;
                let ghost view = plan@;
                plans.push(plan);
                assert(plan_views(plans@) =~= plan_views(before).push(view));
            },
            None => {
                proof {
                    lemma_emitting_stops(
                        target,
                        functions,
                        globals,
                        units@,
                        homes@,
                        (i + 1) as nat,
                        units@.len(),
                    );
                }
                return Err(PlanError::Malformed);
            },
        }
        i = i + 1;
    }
    proof {
        law_compilations_are_sound(target, units@, extern_functions@, homes@);
        let views = plan_views(plans@);
        assert forall|k: int| 0 <= k < views.len() implies numbered(#[trigger] views[k]) by {
            lemma_numbered(&plans@[k]);
        }
    }
    Ok(plans)
}

proof fn lemma_numbered(plan: &UnitPlan)
    ensures
        numbered(plan@),
{
    assert(plan.functions@.len() == plan.functions.len());
    assert(plan.pool.objects@.len() == plan.pool.objects.len());
    assert(plan.vtables@.len() == plan.vtables.len());
    assert forall|k: int| 0 <= k < plan@.bodies.len() implies (
    #[trigger] plan@.bodies[k]).steps.len() <= usize::MAX && plan@.bodies[k].slots.len()
        <= usize::MAX && plan@.bodies[k].statements.len() <= usize::MAX by {
        let code = plan.bodies@[k];
        assert(code.steps@.len() == code.steps.len());
        assert(code.slots@.len() == code.slots.len());
        assert(code.statements@.len() == code.statements.len());
    }
}

} // verus!
