//! The names that emitted objects can refer to across each other.

use crate::codegen::mir::{
    EmissionUnit, ExternFunctionRef, MirFunctionDef, MirItem, MirTypeDefinition,
};
use crate::codegen::symbol::{
    claimed, collision_text, function_collision_text, SymbolRegistry,
};
use crate::hir::HirId;
use crate::resolved_type::{ResolvedFunctionType, ResolvedType};
use crate::text::share;
use std::rc::Rc;
use vstd::prelude::*;

verus! {

/// A function any emitted object may reference. Every unit declares it; only
/// the owning unit attaches a body and owner linkage.
#[derive(Debug)]
pub struct FunctionDecl {
    pub id: HirId,
    pub symbol: String,
    pub fn_type: Rc<ResolvedFunctionType>,
}

/// A data symbol any emitted object may reference. Only the source that
/// declares it gives it storage; a foreign binding's storage lives in another
/// object entirely and is never emitted here at all.
#[derive(Debug)]
pub struct GlobalDecl {
    pub id: HirId,
    pub symbol: String,
    pub ty: ResolvedType,
}

/// What a [`FunctionDecl`] says.
pub struct FunctionView {
    pub id: HirId,
    pub symbol: Seq<char>,
    pub fn_type: ResolvedFunctionType,
}

/// What a [`GlobalDecl`] says.
pub struct GlobalView {
    pub id: HirId,
    pub symbol: Seq<char>,
    pub ty: ResolvedType,
}

impl View for FunctionDecl {
    type V = FunctionView;

    open spec fn view(&self) -> FunctionView {
        FunctionView { id: self.id, symbol: self.symbol@, fn_type: *self.fn_type }
    }
}

impl View for GlobalDecl {
    type V = GlobalView;

    open spec fn view(&self) -> GlobalView {
        GlobalView { id: self.id, symbol: self.symbol@, ty: self.ty }
    }
}

/// The compilation-wide set of names the emitted objects can refer to across
/// each other, built once and shared unchanged by every unit. It deliberately
/// carries no bodies: a unit needs types and symbols to declare a reference,
/// not the definition it refers to.
#[derive(Debug)]
pub struct Catalog {
    pub functions: Vec<FunctionDecl>,
    pub globals: Vec<GlobalDecl>,
}

/// What a [`Catalog`] holds, and the symbols claimed for it.
pub struct CatalogView {
    pub functions: Seq<FunctionView>,
    pub globals: Seq<GlobalView>,
    pub claims: Seq<(Seq<char>, HirId)>,
}

impl CatalogView {
    pub open spec fn empty() -> CatalogView {
        CatalogView { functions: Seq::empty(), globals: Seq::empty(), claims: Seq::empty() }
    }

    pub open spec fn with_function(self, function: FunctionView) -> CatalogView {
        CatalogView { functions: self.functions.push(function), ..self }
    }

    pub open spec fn with_global(self, global: GlobalView) -> CatalogView {
        CatalogView { globals: self.globals.push(global), ..self }
    }

    /// Claims a symbol, or says why it cannot be claimed.
    pub open spec fn claiming(self, symbol: Seq<char>, id: HirId, refusal: Seq<char>) -> Result<
        CatalogView,
        Seq<char>,
    > {
        match claimed(self.claims, symbol, id) {
            Some(claims) => Ok(CatalogView { claims, ..self }),
            None => Err(refusal),
        }
    }
}

/// What declarations say, in order.
pub open spec fn function_views(functions: Seq<FunctionDecl>) -> Seq<FunctionView> {
    functions.map_values(|function: FunctionDecl| function@)
}

/// What declarations say, in order.
pub open spec fn global_views(globals: Seq<GlobalDecl>) -> Seq<GlobalView> {
    globals.map_values(|global: GlobalDecl| global@)
}

/// The catalog with a defined function.
pub open spec fn function_added(catalog: CatalogView, function: MirFunctionDef) -> Result<
    CatalogView,
    Seq<char>,
> {
    match catalog.claiming(
        function.symbol@,
        function.id,
        function_collision_text(function.symbol@),
    ) {
        Ok(next) => Ok(
            next.with_function(
                FunctionView {
                    id: function.id,
                    symbol: function.symbol@,
                    fn_type: *function.fn_type,
                },
            ),
        ),
        Err(text) => Err(text),
    }
}

/// The catalog with defined functions, in order.
pub open spec fn functions_added(catalog: CatalogView, functions: Seq<MirFunctionDef>) -> Result<
    CatalogView,
    Seq<char>,
>
    decreases functions.len(),
{
    if functions.len() == 0 {
        Ok(catalog)
    } else {
        match functions_added(catalog, functions.drop_last()) {
            Ok(next) => function_added(next, functions.last()),
            Err(text) => Err(text),
        }
    }
}

/// The catalog with what an item declares.
///
/// A gap declaration and its glue definition intentionally mangle to one
/// symbol under two identities, so a function-typed binding is registered by
/// whatever defines it, never here.
pub open spec fn item_added(catalog: CatalogView, item: MirItem) -> Result<CatalogView, Seq<char>> {
    match item {
        MirItem::Declaration(declaration) => match catalog.claiming(
            declaration.symbol@,
            declaration.id,
            collision_text(declaration.symbol@),
        ) {
            Ok(next) => Ok(
                next.with_global(
                    GlobalView {
                        id: declaration.id,
                        symbol: declaration.symbol@,
                        ty: declaration.ty,
                    },
                ),
            ),
            Err(text) => Err(text),
        },
        MirItem::ForeignBinding(binding) => match binding.ty {
            ResolvedType::Function(fn_type) => Ok(
                catalog.with_function(
                    FunctionView { id: binding.id, symbol: binding.symbol@, fn_type: *fn_type },
                ),
            ),
            _ => match catalog.claiming(
                binding.symbol@,
                binding.id,
                collision_text(binding.symbol@),
            ) {
                Ok(next) => Ok(
                    next.with_global(
                        GlobalView { id: binding.id, symbol: binding.symbol@, ty: binding.ty },
                    ),
                ),
                Err(text) => Err(text),
            },
        },
        MirItem::ForeignFunction(function) => match catalog.claiming(
            function.symbol@,
            function.id,
            collision_text(function.symbol@),
        ) {
            Ok(next) => Ok(
                next.with_function(
                    FunctionView {
                        id: function.id,
                        symbol: function.symbol@,
                        fn_type: *function.fn_type,
                    },
                ),
            ),
            Err(text) => Err(text),
        },
        MirItem::FunctionDefinition(function) => function_added(catalog, function),
        MirItem::Struct(definition) => functions_added(catalog, definition.functions@),
        MirItem::Enum(definition) => functions_added(catalog, definition.functions@),
        MirItem::Union(definition) => functions_added(catalog, definition.functions@),
    }
}

/// The catalog with what items declare, in order.
pub open spec fn items_added(catalog: CatalogView, items: Seq<MirItem>) -> Result<
    CatalogView,
    Seq<char>,
>
    decreases items.len(),
{
    if items.len() == 0 {
        Ok(catalog)
    } else {
        match items_added(catalog, items.drop_last()) {
            Ok(next) => item_added(next, items.last()),
            Err(text) => Err(text),
        }
    }
}

/// The catalog with what units declare, in order.
pub open spec fn units_added(catalog: CatalogView, units: Seq<EmissionUnit>) -> Result<
    CatalogView,
    Seq<char>,
>
    decreases units.len(),
{
    if units.len() == 0 {
        Ok(catalog)
    } else {
        match units_added(catalog, units.drop_last()) {
            Ok(next) => items_added(next, units.last().items@),
            Err(text) => Err(text),
        }
    }
}

/// What references to functions of other packages say.
pub open spec fn reference_views(functions: Seq<ExternFunctionRef>) -> Seq<FunctionView> {
    functions.map_values(
        |function: ExternFunctionRef|
            FunctionView {
                id: function.decl_id,
                symbol: function.symbol@,
                fn_type: *function.fn_type,
            },
    )
}

/// What a catalog under construction holds.
pub open spec fn in_progress(catalog: Catalog, symbols: SymbolRegistry) -> CatalogView {
    CatalogView {
        functions: function_views(catalog.functions@),
        globals: global_views(catalog.globals@),
        claims: symbols@,
    }
}

/// The declarations among items, in order.
pub open spec fn declared_ids(items: Seq<MirItem>) -> Seq<HirId>
    decreases items.len(),
{
    if items.len() == 0 {
        Seq::empty()
    } else {
        match items.last() {
            MirItem::Declaration(declaration) => declared_ids(items.drop_last()).push(
                declaration.id,
            ),
            _ => declared_ids(items.drop_last()),
        }
    }
}

impl Catalog {
    fn push_function(&mut self, id: HirId, symbol: &String, fn_type: &Rc<ResolvedFunctionType>)
        ensures
            function_views(final(self).functions@) == function_views(old(self).functions@).push(
                FunctionView { id, symbol: symbol@, fn_type: **fn_type },
            ),
            final(self).globals == old(self).globals,
    {
        self.functions.push(
            FunctionDecl { id, symbol: symbol.as_str().to_owned(), fn_type: share(fn_type) },
        );
        assert(function_views(self.functions@) =~= function_views(old(self).functions@).push(
            FunctionView { id, symbol: symbol@, fn_type: **fn_type },
        ));
    }

    fn push_global(&mut self, id: HirId, symbol: &String, ty: &ResolvedType)
        ensures
            global_views(final(self).globals@) == global_views(old(self).globals@).push(
                GlobalView { id, symbol: symbol@, ty: *ty },
            ),
            final(self).functions == old(self).functions,
    {
        self.globals.push(GlobalDecl { id, symbol: symbol.as_str().to_owned(), ty: ty.clone() });
        assert(global_views(self.globals@) =~= global_views(old(self).globals@).push(
            GlobalView { id, symbol: symbol@, ty: *ty },
        ));
    }

    fn collect_function(&mut self, function: &MirFunctionDef, symbols: &mut SymbolRegistry) -> (
        result: Result<(), String>)
        ensures
            match function_added(in_progress(*old(self), *old(symbols)), *function) {
                Ok(next) => result is Ok && in_progress(*final(self), *final(symbols)) == next,
                Err(text) => result is Err && result->Err_0@ == text,
            },
    {
        match symbols.register_function(function.symbol.as_str(), function.id) {
            Ok(_) => {
                self.push_function(function.id, &function.symbol, &function.fn_type);
                Ok(())
            },
            Err(text) => Err(text),
        }
    }

    fn collect_functions(
        &mut self,
        definition: &MirTypeDefinition,
        symbols: &mut SymbolRegistry,
    ) -> (result: Result<(), String>)
        ensures
            match functions_added(
                in_progress(*old(self), *old(symbols)),
                definition.functions@,
            ) {
                Ok(next) => result is Ok && in_progress(*final(self), *final(symbols)) == next,
                Err(text) => result is Err && result->Err_0@ == text,
            },
    {
        let functions: &Vec<MirFunctionDef> = &definition.functions;
        let ghost before = in_progress(*self, *symbols);
        let mut i: usize = 0;
        while i < functions.len()
            invariant
                i <= functions@.len(),
                functions@ == definition.functions@,
                before == in_progress(*old(self), *old(symbols)),
                functions_added(before, functions@.take(i as int)) == Ok::<CatalogView, Seq<char>>(
                    in_progress(*self, *symbols),
                ),
            decreases functions.len() - i,
        {
            assert(functions@.take(i as int + 1).drop_last() =~= functions@.take(i as int));
            match self.collect_function(&functions[i], symbols) {
                Ok(_) => {},
                Err(text) => {
                    proof {
                        lemma_functions_fail(before, functions@, i as int + 1);
                    }
                    return Err(text);
                },
            }
            i = i + 1;
        }
        assert(functions@.take(i as int) =~= functions@);
        Ok(())
    }

    fn collect_item(&mut self, item: &MirItem, symbols: &mut SymbolRegistry) -> (result: Result<
        (),
        String,
    >)
        ensures
            match item_added(in_progress(*old(self), *old(symbols)), *item) {
                Ok(next) => result is Ok && in_progress(*final(self), *final(symbols)) == next,
                Err(text) => result is Err && result->Err_0@ == text,
            },
    {
        match item {
            MirItem::Declaration(declaration) => match symbols.register(
                declaration.symbol.as_str(),
                declaration.id,
            ) {
                Ok(_) => {
                    self.push_global(declaration.id, &declaration.symbol, &declaration.ty);
                    Ok(())
                },
                Err(text) => Err(text),
            },
            MirItem::ForeignBinding(binding) => match &binding.ty {
                ResolvedType::Function(fn_type) => {
                    self.push_function(binding.id, &binding.symbol, fn_type);
                    Ok(())
                },
                ty => match symbols.register(binding.symbol.as_str(), binding.id) {
                    Ok(_) => {
                        self.push_global(binding.id, &binding.symbol, ty);
                        Ok(())
                    },
                    Err(text) => Err(text),
                },
            },
            MirItem::ForeignFunction(function) => match symbols.register(
                function.symbol.as_str(),
                function.id,
            ) {
                Ok(_) => {
                    self.push_function(function.id, &function.symbol, &function.fn_type);
                    Ok(())
                },
                Err(text) => Err(text),
            },
            MirItem::FunctionDefinition(function) => self.collect_function(function, symbols),
            MirItem::Struct(definition) => self.collect_functions(definition, symbols),
            MirItem::Enum(definition) => self.collect_functions(definition, symbols),
            MirItem::Union(definition) => self.collect_functions(definition, symbols),
        }
    }

    fn collect_unit(&mut self, unit: &EmissionUnit, symbols: &mut SymbolRegistry) -> (result:
        Result<(), String>)
        ensures
            match items_added(in_progress(*old(self), *old(symbols)), unit.items@) {
                Ok(next) => result is Ok && in_progress(*final(self), *final(symbols)) == next,
                Err(text) => result is Err && result->Err_0@ == text,
            },
    {
        let items: &Vec<MirItem> = &unit.items;
        let ghost before = in_progress(*self, *symbols);
        let mut i: usize = 0;
        while i < items.len()
            invariant
                i <= items@.len(),
                items@ == unit.items@,
                before == in_progress(*old(self), *old(symbols)),
                items_added(before, items@.take(i as int)) == Ok::<CatalogView, Seq<char>>(
                    in_progress(*self, *symbols),
                ),
            decreases items.len() - i,
        {
            assert(items@.take(i as int + 1).drop_last() =~= items@.take(i as int));
            match self.collect_item(&items[i], symbols) {
                Ok(_) => {},
                Err(text) => {
                    proof {
                        lemma_items_fail(before, items@, i as int + 1);
                    }
                    return Err(text);
                },
            }
            i = i + 1;
        }
        assert(items@.take(i as int) =~= items@);
        Ok(())
    }

    /// Collision checking happens here, above the emitted objects: two
    /// definitions that force the same linker symbol are rejected the same way
    /// whether or not they share a source file.
    pub fn build(units: &Vec<EmissionUnit>, extern_functions: &Vec<ExternFunctionRef>) -> (result:
        Result<Catalog, String>)
        ensures
            match units_added(CatalogView::empty(), units@) {
                Ok(found) => {
                    &&& result is Ok
                    &&& function_views(result->Ok_0.functions@) == found.functions
                        + reference_views(extern_functions@)
                    &&& global_views(result->Ok_0.globals@) == found.globals
                },
                Err(text) => result is Err && result->Err_0@ == text,
            },
    {
        let mut catalog = Catalog { functions: Vec::new(), globals: Vec::new() };
        let mut symbols = SymbolRegistry::default();
        assert(function_views(catalog.functions@) =~= Seq::empty());
        assert(global_views(catalog.globals@) =~= Seq::empty());
        let mut i: usize = 0;
        while i < units.len()
            invariant
                i <= units@.len(),
                units_added(CatalogView::empty(), units@.take(i as int)) == Ok::<
                    CatalogView,
                    Seq<char>,
                >(in_progress(catalog, symbols)),
            decreases units.len() - i,
        {
            assert(units@.take(i as int + 1).drop_last() =~= units@.take(i as int));
            match catalog.collect_unit(&units[i], &mut symbols) {
                Ok(_) => {},
                Err(text) => {
                    proof {
                        lemma_units_fail(CatalogView::empty(), units@, i as int + 1);
                    }
                    return Err(text);
                },
            }
            i = i + 1;
        }
        assert(units@.take(i as int) =~= units@);
        let ghost found = function_views(catalog.functions@);
        let ghost globals = catalog.globals;
        let mut k: usize = 0;
        assert(found + reference_views(extern_functions@).take(0) =~= found);
        while k < extern_functions.len()
            invariant
                k <= extern_functions@.len(),
                catalog.globals == globals,
                function_views(catalog.functions@) == found + reference_views(
                    extern_functions@,
                ).take(k as int),
            decreases extern_functions.len() - k,
        {
            let function: &ExternFunctionRef = &extern_functions[k];
            let ghost all = reference_views(extern_functions@);
            catalog.push_function(function.decl_id, &function.symbol, &function.fn_type);
            assert(found + all.take(k as int + 1) =~= (found + all.take(k as int)).push(
                all[k as int],
            ));
            k = k + 1;
        }
        assert(reference_views(extern_functions@).take(k as int) =~= reference_views(
            extern_functions@,
        ));
        Ok(catalog)
    }

    /// The globals one unit initializes itself, so its own declaration pass can
    /// leave them to the owner pass, which knows their initializer's type.
    pub fn owned_globals(unit: &EmissionUnit) -> (ids: Vec<HirId>)
        ensures
            ids@ == declared_ids(unit.items@),
    {
        let mut ids: Vec<HirId> = Vec::new();
        let mut i: usize = 0;
        while i < unit.items.len()
            invariant
                i <= unit.items@.len(),
                ids@ == declared_ids(unit.items@.take(i as int)),
            decreases unit.items.len() - i,
        {
            assert(unit.items@.take(i as int + 1).drop_last() =~= unit.items@.take(i as int));
            if let MirItem::Declaration(declaration) = &unit.items[i] {
                ids.push(declaration.id);
            }
            i = i + 1;
        }
        assert(unit.items@.take(i as int) =~= unit.items@);
        ids
    }
}

proof fn lemma_functions_fail(catalog: CatalogView, functions: Seq<MirFunctionDef>, n: int)
    requires
        0 <= n <= functions.len(),
        functions_added(catalog, functions.take(n)) is Err,
    ensures
        functions_added(catalog, functions) == functions_added(catalog, functions.take(n)),
    decreases functions.len(),
{
    if n == functions.len() {
        assert(functions.take(n) =~= functions);
    } else {
        assert(functions.drop_last().take(n) =~= functions.take(n));
        lemma_functions_fail(catalog, functions.drop_last(), n);
    }
}

proof fn lemma_items_fail(catalog: CatalogView, items: Seq<MirItem>, n: int)
    requires
        0 <= n <= items.len(),
        items_added(catalog, items.take(n)) is Err,
    ensures
        items_added(catalog, items) == items_added(catalog, items.take(n)),
    decreases items.len(),
{
    if n == items.len() {
        assert(items.take(n) =~= items);
    } else {
        assert(items.drop_last().take(n) =~= items.take(n));
        lemma_items_fail(catalog, items.drop_last(), n);
    }
}

proof fn lemma_units_fail(catalog: CatalogView, units: Seq<EmissionUnit>, n: int)
    requires
        0 <= n <= units.len(),
        units_added(catalog, units.take(n)) is Err,
    ensures
        units_added(catalog, units) == units_added(catalog, units.take(n)),
    decreases units.len(),
{
    if n == units.len() {
        assert(units.take(n) =~= units);
    } else {
        assert(units.drop_last().take(n) =~= units.take(n));
        lemma_units_fail(catalog, units.drop_last(), n);
    }
}

} // verus!
