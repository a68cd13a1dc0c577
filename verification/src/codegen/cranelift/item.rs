//! A compilation: what it declares, and the bodies it defines.

use crate::codegen::admission::units_are_fit;
use crate::codegen::constants::{
    build_const_blob, written, zeros, BlobView, ConstBlob, ConstPool, ObjectView, Writing,
};
use crate::codegen::cranelift::{Lowering, SlotData, Step};
use crate::codegen::cranelift::function::{define_function_def, function_lowered};
use crate::codegen::cranelift::laws::{law_compilations_are_sound, module_sound, numbered};
use crate::codegen::fits::{
    defined_functions, function_fits, functions_fit, item_fits, items_fit, units_fit,
};
use crate::codegen::mir::{
    EmissionUnit, ExternFunctionRef, MirDeclaration, MirFunctionBody, MirFunctionDef, MirItem,
    MirLinkage,
};
use crate::codegen::shared::Vtable;
use crate::codegen::symbol::{claimed, function_collision_text, SymbolRegistry};
use crate::hir::HirId;
use crate::layout::{size_of, total_bytes};
use crate::resolved_type::{ResolvedFunctionType, ResolvedType};
use crate::target::Target;
use crate::text::share;
use std::rc::Rc;
use vstd::prelude::*;

verus! {

/// How a symbol takes part in linking.
#[derive(Debug, Clone, Copy, PartialEq, Eq, Structural)]
pub enum Linkage {
    Import,
    Export,
    Preemptible,
}

/// The linkage of a definition. What several objects may define is
/// preemptible.
pub open spec fn linkage_of(linkage: MirLinkage) -> Linkage {
    match linkage {
        MirLinkage::Export => Linkage::Export,
        MirLinkage::Weak => Linkage::Preemptible,
    }
}

pub fn cranelift_linkage(linkage: MirLinkage) -> (found: Linkage)
    ensures
        found == linkage_of(linkage),
{
    match linkage {
        MirLinkage::Export => Linkage::Export,
        MirLinkage::Weak => Linkage::Preemptible,
    }
}

/// A declared function.
#[derive(Debug)]
pub struct FunctionEntry {
    pub id: HirId,
    pub symbol: String,
    pub linkage: Linkage,
    pub fn_type: Rc<ResolvedFunctionType>,
}

/// A variable: its size, and its contents unless they are zeros.
#[derive(Debug)]
pub struct GlobalData {
    pub id: HirId,
    pub symbol: String,
    pub total: u32,
    pub blob: Option<ConstBlob>,
}

/// A defined function.
#[derive(Debug)]
pub struct FunctionCode {
    pub id: HirId,
    pub steps: Vec<Step>,
    pub slots: Vec<SlotData>,
}

/// Everything Cranelift is told of a compilation.
#[derive(Debug)]
pub struct ModulePlan {
    pub functions: Vec<FunctionEntry>,
    pub globals: Vec<GlobalData>,
    pub bodies: Vec<FunctionCode>,
    pub pool: ConstPool,
    pub vtables: Vec<Vtable>,
    pub symbols: SymbolRegistry,
}

/// Why a compilation cannot be emitted.
#[derive(Debug)]
pub enum PlanError {
    /// Two functions claim one symbol.
    Collision(String),
    /// The compilation holds what no checked program does.
    Malformed,
}

/// What a [`PlanError`] says.
pub enum Failure {
    Collision(Seq<char>),
    Malformed,
}

impl View for PlanError {
    type V = Failure;

    open spec fn view(&self) -> Failure {
        match *self {
            PlanError::Collision(text) => Failure::Collision(text@),
            PlanError::Malformed => Failure::Malformed,
        }
    }
}

/// What a [`FunctionEntry`] says.
pub struct EntryView {
    pub id: HirId,
    pub symbol: Seq<char>,
    pub linkage: Linkage,
    pub fn_type: ResolvedFunctionType,
}

/// What a [`GlobalData`] says.
pub struct GlobalDataView {
    pub id: HirId,
    pub symbol: Seq<char>,
    pub total: u32,
    pub blob: Option<BlobView>,
}

/// What a [`FunctionCode`] says.
pub struct CodeView {
    pub id: HirId,
    pub steps: Seq<Step>,
    pub slots: Seq<SlotData>,
}

/// What a [`ModulePlan`] says.
pub struct ModuleView {
    pub functions: Seq<EntryView>,
    pub globals: Seq<GlobalDataView>,
    pub bodies: Seq<CodeView>,
    pub pool: Seq<ObjectView>,
    pub vtables: Seq<Vtable>,
    pub claims: Seq<(Seq<char>, HirId)>,
}

impl View for FunctionEntry {
    type V = EntryView;

    open spec fn view(&self) -> EntryView {
        EntryView {
            id: self.id,
            symbol: self.symbol@,
            linkage: self.linkage,
            fn_type: *self.fn_type,
        }
    }
}

impl View for GlobalData {
    type V = GlobalDataView;

    open spec fn view(&self) -> GlobalDataView {
        GlobalDataView {
            id: self.id,
            symbol: self.symbol@,
            total: self.total,
            blob: match self.blob {
                Some(blob) => Some(blob@),
                None => None,
            },
        }
    }
}

impl View for FunctionCode {
    type V = CodeView;

    open spec fn view(&self) -> CodeView {
        CodeView { id: self.id, steps: self.steps@, slots: self.slots@ }
    }
}

impl View for ModulePlan {
    type V = ModuleView;

    open spec fn view(&self) -> ModuleView {
        ModuleView {
            functions: self.functions@.map_values(|entry: FunctionEntry| entry@),
            globals: self.globals@.map_values(|global: GlobalData| global@),
            bodies: self.bodies@.map_values(|code: FunctionCode| code@),
            pool: self.pool@,
            vtables: self.vtables@,
            claims: self.symbols@,
        }
    }
}

impl ModuleView {
    pub open spec fn empty() -> ModuleView {
        ModuleView {
            functions: Seq::empty(),
            globals: Seq::empty(),
            bodies: Seq::empty(),
            pool: Seq::empty(),
            vtables: Seq::empty(),
            claims: Seq::empty(),
        }
    }

    pub open spec fn with_function(self, entry: EntryView) -> ModuleView {
        ModuleView { functions: self.functions.push(entry), ..self }
    }

    /// The functions that have been declared.
    pub open spec fn function_ids(self) -> Seq<HirId> {
        self.functions.map_values(|entry: EntryView| entry.id)
    }

    /// The variables that have been declared.
    pub open spec fn global_ids(self) -> Seq<HirId> {
        self.globals.map_values(|global: GlobalDataView| global.id)
    }
}

/// A function declared by its definition, which claims its symbol.
pub open spec fn function_declared(m: ModuleView, function: MirFunctionDef) -> Result<
    ModuleView,
    Failure,
> {
    match claimed(m.claims, function.symbol@, function.id) {
        Some(claims) => Ok(
            (ModuleView { claims, ..m }).with_function(
                EntryView {
                    id: function.id,
                    symbol: function.symbol@,
                    linkage: linkage_of(function.linkage),
                    fn_type: *function.fn_type,
                },
            ),
        ),
        None => Err(Failure::Collision(function_collision_text(function.symbol@))),
    }
}

/// The first `n` functions declared, in order.
pub open spec fn functions_declared(m: ModuleView, functions: Seq<MirFunctionDef>, n: nat) -> Result<
    ModuleView,
    Failure,
>
    decreases n,
{
    if n == 0 {
        Ok(m)
    } else {
        match functions_declared(m, functions, (n - 1) as nat) {
            Ok(before) => function_declared(before, functions[n - 1]),
            Err(failure) => Err(failure),
        }
    }
}

/// A variable declared, with its initial contents.
pub open spec fn global_declared(
    m: ModuleView,
    declaration: MirDeclaration,
    pointer_bytes: u32,
) -> Result<ModuleView, Failure> {
    let total = size_of(declaration.ty, pointer_bytes);
    let global = GlobalDataView {
        id: declaration.id,
        symbol: declaration.symbol@,
        total: total as u32,
        blob: None,
    };
    match declaration.initial_value {
        None => Ok(ModuleView { globals: m.globals.push(global), ..m }),
        Some(value) => match written(
            *value,
            declaration.ty,
            0,
            Writing { pool: m.pool, blob: zeros(total) },
            pointer_bytes,
        ) {
            Some(w) => Ok(
                ModuleView {
                    pool: w.pool,
                    globals: m.globals.push(
                        GlobalDataView { blob: Some(w.blob), ..global },
                    ),
                    ..m
                },
            ),
            None => Err(Failure::Malformed),
        },
    }
}

/// What an item declares. A binding to another object is a function here.
pub open spec fn item_declared(m: ModuleView, item: MirItem, pointer_bytes: u32) -> Result<
    ModuleView,
    Failure,
> {
    match item {
        MirItem::Declaration(declaration) => global_declared(m, declaration, pointer_bytes),
        MirItem::ForeignBinding(binding) => match binding.ty {
            ResolvedType::Function(fn_type) => Ok(
                m.with_function(
                    EntryView {
                        id: binding.id,
                        symbol: binding.symbol@,
                        linkage: Linkage::Import,
                        fn_type: *fn_type,
                    },
                ),
            ),
            _ => Err(Failure::Malformed),
        },
        _ => functions_declared(m, defined_functions(item), defined_functions(item).len()),
    }
}

/// What the first `n` items declare, in order.
pub open spec fn items_declared(
    m: ModuleView,
    items: Seq<MirItem>,
    pointer_bytes: u32,
    n: nat,
) -> Result<ModuleView, Failure>
    decreases n,
{
    if n == 0 {
        Ok(m)
    } else {
        match items_declared(m, items, pointer_bytes, (n - 1) as nat) {
            Ok(before) => item_declared(before, items[n - 1], pointer_bytes),
            Err(failure) => Err(failure),
        }
    }
}

/// What the first `n` units declare, in order.
pub open spec fn units_declared(
    m: ModuleView,
    units: Seq<EmissionUnit>,
    pointer_bytes: u32,
    n: nat,
) -> Result<ModuleView, Failure>
    decreases n,
{
    if n == 0 {
        Ok(m)
    } else {
        match units_declared(m, units, pointer_bytes, (n - 1) as nat) {
            Ok(before) => items_declared(
                before,
                units[n - 1].items@,
                pointer_bytes,
                units[n - 1].items@.len(),
            ),
            Err(failure) => Err(failure),
        }
    }
}

/// The first `n` functions of other packages, imported.
pub open spec fn imported(m: ModuleView, functions: Seq<ExternFunctionRef>, n: nat) -> ModuleView
    decreases n,
{
    if n == 0 {
        m
    } else {
        imported(m, functions, (n - 1) as nat).with_function(
            EntryView {
                id: functions[n - 1].decl_id,
                symbol: functions[n - 1].symbol@,
                linkage: Linkage::Import,
                fn_type: *functions[n - 1].fn_type,
            },
        )
    }
}

/// A function with its body.
pub open spec fn function_defined(target: Target, m: ModuleView, function: MirFunctionDef) -> Result<
    ModuleView,
    Failure,
> {
    match function.body {
        MirFunctionBody::Normal(body) => match function_lowered(
            target,
            *function.fn_type,
            body,
            m.function_ids(),
            m.global_ids(),
            m.pool,
            m.vtables,
        ) {
            Some(lowered) => Ok(
                ModuleView {
                    pool: lowered.pool,
                    vtables: lowered.vtables,
                    bodies: m.bodies.push(
                        CodeView {
                            id: function.id,
                            steps: lowered.steps,
                            slots: lowered.slots,
                        },
                    ),
                    ..m
                },
            ),
            None => Err(Failure::Malformed),
        },
        MirFunctionBody::Naked(_) => Err(Failure::Malformed),
    }
}

/// The first `n` functions with their bodies, in order.
pub open spec fn functions_defined(
    target: Target,
    m: ModuleView,
    functions: Seq<MirFunctionDef>,
    n: nat,
) -> Result<ModuleView, Failure>
    decreases n,
{
    if n == 0 {
        Ok(m)
    } else {
        match functions_defined(target, m, functions, (n - 1) as nat) {
            Ok(before) => function_defined(target, before, functions[n - 1]),
            Err(failure) => Err(failure),
        }
    }
}

/// The first `n` items with the bodies they define, in order.
pub open spec fn items_defined(
    target: Target,
    m: ModuleView,
    items: Seq<MirItem>,
    n: nat,
) -> Result<ModuleView, Failure>
    decreases n,
{
    if n == 0 {
        Ok(m)
    } else {
        match items_defined(target, m, items, (n - 1) as nat) {
            Ok(before) => functions_defined(
                target,
                before,
                defined_functions(items[n - 1]),
                defined_functions(items[n - 1]).len(),
            ),
            Err(failure) => Err(failure),
        }
    }
}

/// The first `n` units with the bodies they define, in order.
pub open spec fn units_defined(
    target: Target,
    m: ModuleView,
    units: Seq<EmissionUnit>,
    n: nat,
) -> Result<ModuleView, Failure>
    decreases n,
{
    if n == 0 {
        Ok(m)
    } else {
        match units_defined(target, m, units, (n - 1) as nat) {
            Ok(before) => items_defined(
                target,
                before,
                units[n - 1].items@,
                units[n - 1].items@.len(),
            ),
            Err(failure) => Err(failure),
        }
    }
}

/// A compilation: everything is declared before any body is defined, so a body
/// can refer to whatever any unit declares.
pub open spec fn compiled(
    target: Target,
    units: Seq<EmissionUnit>,
    functions: Seq<ExternFunctionRef>,
) -> Result<ModuleView, Failure> {
    match units_declared(ModuleView::empty(), units, target.pointer_width(), units.len()) {
        Ok(declared) => units_defined(
            target,
            imported(declared, functions, functions.len()),
            units,
            units.len(),
        ),
        Err(failure) => Err(failure),
    }
}

proof fn lemma_numbered(plan: &ModulePlan)
    ensures
        numbered(plan@),
{
    assert(plan.pool.objects@.len() == plan.pool.objects.len());
    assert(plan.vtables@.len() == plan.vtables.len());
    assert forall|k: int| 0 <= k < plan@.bodies.len() implies (
    #[trigger] plan@.bodies[k]).steps.len() <= usize::MAX && plan@.bodies[k].slots.len()
        <= usize::MAX by {
        let code = plan.bodies@[k];
        assert(code.steps@.len() == code.steps.len());
        assert(code.slots@.len() == code.slots.len());
    }
}

/// Whether an outcome is the one a view says.
pub open spec fn outcome(
    result: Result<(), PlanError>,
    after: ModuleView,
    expected: Result<ModuleView, Failure>,
) -> bool {
    match expected {
        Ok(m) => result is Ok && after == m,
        Err(failure) => result is Err && result->Err_0@ == failure,
    }
}

proof fn lemma_declaring_functions_stops(m: ModuleView, functions: Seq<MirFunctionDef>, n: nat, k: nat)
    requires
        n <= k,
        functions_declared(m, functions, n) is Err,
    ensures
        functions_declared(m, functions, k) == functions_declared(m, functions, n),
    decreases k,
{
    if n < k {
        lemma_declaring_functions_stops(m, functions, n, (k - 1) as nat);
    }
}

proof fn lemma_declaring_items_stops(m: ModuleView, items: Seq<MirItem>, pb: u32, n: nat, k: nat)
    requires
        n <= k,
        items_declared(m, items, pb, n) is Err,
    ensures
        items_declared(m, items, pb, k) == items_declared(m, items, pb, n),
    decreases k,
{
    if n < k {
        lemma_declaring_items_stops(m, items, pb, n, (k - 1) as nat);
    }
}

proof fn lemma_declaring_units_stops(m: ModuleView, units: Seq<EmissionUnit>, pb: u32, n: nat, k: nat)
    requires
        n <= k,
        units_declared(m, units, pb, n) is Err,
    ensures
        units_declared(m, units, pb, k) == units_declared(m, units, pb, n),
    decreases k,
{
    if n < k {
        lemma_declaring_units_stops(m, units, pb, n, (k - 1) as nat);
    }
}

proof fn lemma_defining_functions_stops(target: Target, m: ModuleView, functions: Seq<MirFunctionDef>, n: nat, k: nat)
    requires
        n <= k,
        functions_defined(target, m, functions, n) is Err,
    ensures
        functions_defined(target, m, functions, k) == functions_defined(target, m, functions, n),
    decreases k,
{
    if n < k {
        lemma_defining_functions_stops(target, m, functions, n, (k - 1) as nat);
    }
}

proof fn lemma_defining_items_stops(target: Target, m: ModuleView, items: Seq<MirItem>, n: nat, k: nat)
    requires
        n <= k,
        items_defined(target, m, items, n) is Err,
    ensures
        items_defined(target, m, items, k) == items_defined(target, m, items, n),
    decreases k,
{
    if n < k {
        lemma_defining_items_stops(target, m, items, n, (k - 1) as nat);
    }
}

proof fn lemma_defining_units_stops(target: Target, m: ModuleView, units: Seq<EmissionUnit>, n: nat, k: nat)
    requires
        n <= k,
        units_defined(target, m, units, n) is Err,
    ensures
        units_defined(target, m, units, k) == units_defined(target, m, units, n),
    decreases k,
{
    if n < k {
        lemma_defining_units_stops(target, m, units, n, (k - 1) as nat);
    }
}

impl ModulePlan {
    pub fn new() -> (plan: Self)
        ensures
            plan@ == ModuleView::empty(),
    {
        let plan = ModulePlan {
            functions: Vec::new(),
            globals: Vec::new(),
            bodies: Vec::new(),
            pool: ConstPool::new(),
            vtables: Vec::new(),
            symbols: SymbolRegistry::default(),
        };
        assert(plan@.functions =~= Seq::empty());
        assert(plan@.globals =~= Seq::empty());
        assert(plan@.bodies =~= Seq::empty());
        assert(plan@.vtables =~= Seq::empty());
        plan
    }

    fn push_function(
        &mut self,
        id: HirId,
        symbol: &String,
        linkage: Linkage,
        fn_type: &Rc<ResolvedFunctionType>,
    )
        ensures
            final(self)@ == old(self)@.with_function(
                EntryView { id, symbol: symbol@, linkage, fn_type: **fn_type },
            ),
    {
        self.functions.push(
            FunctionEntry {
                id,
                symbol: symbol.as_str().to_owned(),
                linkage,
                fn_type: share(fn_type),
            },
        );
        assert(self@.functions =~= old(self)@.functions.push(
            EntryView { id, symbol: symbol@, linkage, fn_type: **fn_type },
        ));
    }

    fn declare_function_def(&mut self, function: &MirFunctionDef) -> (result: Result<(), PlanError>)
        ensures
            outcome(result, final(self)@, function_declared(old(self)@, *function)),
    {
        match self.symbols.register_function(function.symbol.as_str(), function.id) {
            Ok(_) => {
                self.push_function(
                    function.id,
                    &function.symbol,
                    cranelift_linkage(function.linkage),
                    &function.fn_type,
                );
                Ok(())
            },
            Err(text) => Err(PlanError::Collision(text)),
        }
    }

    fn declare_functions(&mut self, functions: &Vec<MirFunctionDef>) -> (result: Result<
        (),
        PlanError,
    >)
        ensures
            outcome(
                result,
                final(self)@,
                functions_declared(old(self)@, functions@, functions@.len()),
            ),
    {
        let ghost before = self@;
        let mut i: usize = 0;
        while i < functions.len()
            invariant
                i <= functions@.len(),
                before == old(self)@,
                functions_declared(before, functions@, i as nat) == Ok::<ModuleView, Failure>(
                    self@,
                ),
            decreases functions.len() - i,
        {
            let step: Result<(), PlanError> = self.declare_function_def(&functions[i]);
            if step.is_err() {
                proof {
                    lemma_declaring_functions_stops(
                        before,
                        functions@,
                        (i + 1) as nat,
                        functions@.len(),
                    );
                }
                return step;
            }
            i = i + 1;
        }
        Ok(())
    }

    fn declare_global(&mut self, target: Target, declaration: &MirDeclaration) -> (result: Result<
        (),
        PlanError,
    >)
        requires
            item_fits(MirItem::Declaration(*declaration), target.pointer_width()),
        ensures
            outcome(
                result,
                final(self)@,
                global_declared(old(self)@, *declaration, target.pointer_width()),
            ),
    {
        let pb: u32 = target.pointer_bytes();
        let total: u32 = total_bytes(&declaration.ty, pb);
        let ghost before = self@;
        let blob: Option<ConstBlob> = match &declaration.initial_value {
            None => None,
            Some(value) => match build_const_blob(&mut self.pool, value, &declaration.ty, pb) {
                Some(blob) => Some(blob),
                None => {
                    return Err(PlanError::Malformed);
                },
            },
        };
        assert(self@ == (ModuleView { pool: self.pool@, ..before }));
        let global = GlobalData {
            id: declaration.id,
            symbol: declaration.symbol.as_str().to_owned(),
            total,
            blob,
        };
        let ghost found = global@;
        self.globals.push(global);
        assert(self@.globals =~= before.globals.push(found));
        Ok(())
    }

    fn declare_one(&mut self, function: &MirFunctionDef) -> (result: Result<(), PlanError>)
        ensures
            outcome(
                result,
                final(self)@,
                functions_declared(old(self)@, seq![*function], 1),
            ),
    {
        assert(functions_declared(self@, seq![*function], 0) == Ok::<ModuleView, Failure>(self@));
        self.declare_function_def(function)
    }

    fn declare_item(&mut self, target: Target, item: &MirItem) -> (result: Result<(), PlanError>)
        requires
            item_fits(*item, target.pointer_width()),
        ensures
            outcome(
                result,
                final(self)@,
                item_declared(old(self)@, *item, target.pointer_width()),
            ),
    {
        match item {
            MirItem::Declaration(declaration) => self.declare_global(target, declaration),
            MirItem::ForeignBinding(binding) => match &binding.ty {
                ResolvedType::Function(fn_type) => {
                    self.push_function(binding.id, &binding.symbol, Linkage::Import, fn_type);
                    Ok(())
                },
                _ => Err(PlanError::Malformed),
            },
            MirItem::ForeignFunction(function) => self.declare_one(function),
            MirItem::FunctionDefinition(function) => self.declare_one(function),
            MirItem::Struct(definition) => self.declare_functions(&definition.functions),
            MirItem::Enum(definition) => self.declare_functions(&definition.functions),
            MirItem::Union(definition) => self.declare_functions(&definition.functions),
        }
    }

    fn declare_items(&mut self, target: Target, items: &Vec<MirItem>) -> (result: Result<(), PlanError>)
        requires
            items_fit(items@, target.pointer_width()),
        ensures
            outcome(result, final(self)@, items_declared(old(self)@, items@, target.pointer_width(), items@.len())),
    {
        let ghost before = self@;
        let mut i: usize = 0;
        while i < items.len()
            invariant
                i <= items@.len(),
                items_fit(items@, target.pointer_width()),
                before == old(self)@,
                items_declared(before, items@, target.pointer_width(), i as nat) == Ok::<ModuleView, Failure>(self@),
            decreases items.len() - i,
        {
            assert(item_fits(items@[i as int], target.pointer_width()));
            let step: Result<(), PlanError> = self.declare_item(target, &items[i]);
            if step.is_err() {
                proof {
                    lemma_declaring_items_stops(before, items@, target.pointer_width(), (i + 1) as nat, items@.len());
                }
                return step;
            }
            i = i + 1;
        }
        Ok(())
    }

    fn declare_units(&mut self, target: Target, units: &Vec<EmissionUnit>) -> (result: Result<(), PlanError>)
        requires
            units_fit(units@, target.pointer_width()),
        ensures
            outcome(result, final(self)@, units_declared(old(self)@, units@, target.pointer_width(), units@.len())),
    {
        let ghost before = self@;
        let mut i: usize = 0;
        while i < units.len()
            invariant
                i <= units@.len(),
                units_fit(units@, target.pointer_width()),
                before == old(self)@,
                units_declared(before, units@, target.pointer_width(), i as nat) == Ok::<ModuleView, Failure>(self@),
            decreases units.len() - i,
        {
            assert(items_fit(units@[i as int].items@, target.pointer_width()));
            let step: Result<(), PlanError> = self.declare_items(target, &units[i].items);
            if step.is_err() {
                proof {
                    lemma_declaring_units_stops(before, units@, target.pointer_width(), (i + 1) as nat, units@.len());
                }
                return step;
            }
            i = i + 1;
        }
        Ok(())
    }

    fn import_functions(&mut self, functions: &Vec<ExternFunctionRef>)
        ensures
            final(self)@ == imported(old(self)@, functions@, functions@.len()),
    {
        let ghost before = self@;
        let mut i: usize = 0;
        while i < functions.len()
            invariant
                i <= functions@.len(),
                before == old(self)@,
                self@ == imported(before, functions@, i as nat),
            decreases functions.len() - i,
        {
            let function: &ExternFunctionRef = &functions[i];
            self.push_function(
                function.decl_id,
                &function.symbol,
                Linkage::Import,
                &function.fn_type,
            );
            i = i + 1;
        }
    }

    fn ids_of_functions(&self) -> (ids: Vec<HirId>)
        ensures
            ids@ == self@.function_ids(),
    {
        let mut ids: Vec<HirId> = Vec::new();
        let mut i: usize = 0;
        while i < self.functions.len()
            invariant
                i <= self.functions@.len(),
                ids@ =~= self@.function_ids().take(i as int),
            decreases self.functions.len() - i,
        {
            ids.push(self.functions[i].id);
            i = i + 1;
        }
        assert(ids@ =~= self@.function_ids());
        ids
    }

    fn ids_of_globals(&self) -> (ids: Vec<HirId>)
        ensures
            ids@ == self@.global_ids(),
    {
        let mut ids: Vec<HirId> = Vec::new();
        let mut i: usize = 0;
        while i < self.globals.len()
            invariant
                i <= self.globals@.len(),
                ids@ =~= self@.global_ids().take(i as int),
            decreases self.globals.len() - i,
        {
            ids.push(self.globals[i].id);
            i = i + 1;
        }
        assert(ids@ =~= self@.global_ids());
        ids
    }

    fn define_function(&mut self, target: Target, function: &MirFunctionDef) -> (result: Result<
        (),
        PlanError,
    >)
        requires
            function_fits(*function, target.pointer_width()),
        ensures
            outcome(result, final(self)@, function_defined(target, old(self)@, *function)),
    {
        let body = match &function.body {
            MirFunctionBody::Normal(body) => body,
            MirFunctionBody::Naked(_) => {
                return Err(PlanError::Malformed);
            },
        };
        let functions: Vec<HirId> = self.ids_of_functions();
        let globals: Vec<HirId> = self.ids_of_globals();
        let ghost before = self@;
        let mut pool: ConstPool = ConstPool::new();
        let mut vtables: Vec<Vtable> = Vec::new();
        std::mem::swap(&mut pool, &mut self.pool);
        std::mem::swap(&mut vtables, &mut self.vtables);
        match define_function_def(
            target,
            &function.fn_type,
            body,
            &functions,
            &globals,
            pool,
            vtables,
        ) {
            Some(lowered) => {
                let Lowering { steps, slots, pool, vtables } = lowered;
                self.pool = pool;
                self.vtables = vtables;
                let ghost kept = self.bodies@;
                let code = FunctionCode { id: function.id, steps, slots };
                let ghost found = code@;
                self.bodies.push(code);
                assert(self@.bodies =~= before.bodies.push(found));
                Ok(())
            },
            None => Err(PlanError::Malformed),
        }
    }

    fn define_functions(&mut self, target: Target, functions: &Vec<MirFunctionDef>) -> (result: Result<(), PlanError>)
        requires
            functions_fit(functions@, target.pointer_width()),
        ensures
            outcome(result, final(self)@, functions_defined(target, old(self)@, functions@, functions@.len())),
    {
        let ghost before = self@;
        let mut i: usize = 0;
        while i < functions.len()
            invariant
                i <= functions@.len(),
                functions_fit(functions@, target.pointer_width()),
                before == old(self)@,
                functions_defined(target, before, functions@, i as nat) == Ok::<ModuleView, Failure>(self@),
            decreases functions.len() - i,
        {
            assert(function_fits(functions@[i as int], target.pointer_width()));
            let step: Result<(), PlanError> = self.define_function(target, &functions[i]);
            if step.is_err() {
                proof {
                    lemma_defining_functions_stops(target, before, functions@, (i + 1) as nat, functions@.len());
                }
                return step;
            }
            i = i + 1;
        }
        Ok(())
    }

    fn define_one(&mut self, target: Target, function: &MirFunctionDef) -> (result: Result<
        (),
        PlanError,
    >)
        requires
            function_fits(*function, target.pointer_width()),
        ensures
            outcome(
                result,
                final(self)@,
                functions_defined(target, old(self)@, seq![*function], 1),
            ),
    {
        assert(functions_defined(target, self@, seq![*function], 0) == Ok::<ModuleView, Failure>(
            self@,
        ));
        self.define_function(target, function)
    }

    fn define_item(&mut self, target: Target, item: &MirItem) -> (result: Result<(), PlanError>)
        requires
            item_fits(*item, target.pointer_width()),
        ensures
            outcome(
                result,
                final(self)@,
                functions_defined(
                    target,
                    old(self)@,
                    defined_functions(*item),
                    defined_functions(*item).len(),
                ),
            ),
    {
        match item {
            MirItem::Declaration(_) => Ok(()),
            MirItem::ForeignBinding(_) => Ok(()),
            MirItem::ForeignFunction(function) => self.define_one(target, function),
            MirItem::FunctionDefinition(function) => self.define_one(target, function),
            MirItem::Struct(definition) => self.define_functions(target, &definition.functions),
            MirItem::Enum(definition) => self.define_functions(target, &definition.functions),
            MirItem::Union(definition) => self.define_functions(target, &definition.functions),
        }
    }

    fn define_items(&mut self, target: Target, items: &Vec<MirItem>) -> (result: Result<(), PlanError>)
        requires
            items_fit(items@, target.pointer_width()),
        ensures
            outcome(result, final(self)@, items_defined(target, old(self)@, items@, items@.len())),
    {
        let ghost before = self@;
        let mut i: usize = 0;
        while i < items.len()
            invariant
                i <= items@.len(),
                items_fit(items@, target.pointer_width()),
                before == old(self)@,
                items_defined(target, before, items@, i as nat) == Ok::<ModuleView, Failure>(self@),
            decreases items.len() - i,
        {
            assert(item_fits(items@[i as int], target.pointer_width()));
            let step: Result<(), PlanError> = self.define_item(target, &items[i]);
            if step.is_err() {
                proof {
                    lemma_defining_items_stops(target, before, items@, (i + 1) as nat, items@.len());
                }
                return step;
            }
            i = i + 1;
        }
        Ok(())
    }

    fn define_units(&mut self, target: Target, units: &Vec<EmissionUnit>) -> (result: Result<(), PlanError>)
        requires
            units_fit(units@, target.pointer_width()),
        ensures
            outcome(result, final(self)@, units_defined(target, old(self)@, units@, units@.len())),
    {
        let ghost before = self@;
        let mut i: usize = 0;
        while i < units.len()
            invariant
                i <= units@.len(),
                units_fit(units@, target.pointer_width()),
                before == old(self)@,
                units_defined(target, before, units@, i as nat) == Ok::<ModuleView, Failure>(self@),
            decreases units.len() - i,
        {
            assert(items_fit(units@[i as int].items@, target.pointer_width()));
            let step: Result<(), PlanError> = self.define_items(target, &units[i].items);
            if step.is_err() {
                proof {
                    lemma_defining_units_stops(target, before, units@, (i + 1) as nat, units@.len());
                }
                return step;
            }
            i = i + 1;
        }
        Ok(())
    }

    /// What Cranelift is told of a compilation. A compilation that holds
    /// something that cannot be laid out is malformed.
    pub fn generate(
        target: Target,
        units: &Vec<EmissionUnit>,
        extern_functions: &Vec<ExternFunctionRef>,
    ) -> (result: Result<ModulePlan, PlanError>)
        ensures
            match if units_fit(units@, target.pointer_width()) {
                compiled(target, units@, extern_functions@)
            } else {
                Err(Failure::Malformed)
            } {
                Ok(m) => {
                    &&& result is Ok
                    &&& result->Ok_0@ == m
                    &&& numbered(m)
                    &&& module_sound(target, units@, m)
                },
                Err(failure) => result is Err && result->Err_0@ == failure,
            },
    {
        if units_are_fit(units, target.pointer_bytes()) {
            let result = ModulePlan::update_all(target, units, extern_functions);
            proof {
                if result is Ok {
                    lemma_numbered(&result->Ok_0);
                    law_compilations_are_sound(target, units@, extern_functions@);
                }
            }
            result
        } else {
            Err(PlanError::Malformed)
        }
    }

    /// Declares everything, then defines every body.
    pub fn update_all(
        target: Target,
        units: &Vec<EmissionUnit>,
        extern_functions: &Vec<ExternFunctionRef>,
    ) -> (result: Result<ModulePlan, PlanError>)
        requires
            units_fit(units@, target.pointer_width()),
        ensures
            match compiled(target, units@, extern_functions@) {
                Ok(m) => result is Ok && result->Ok_0@ == m,
                Err(failure) => result is Err && result->Err_0@ == failure,
            },
    {
        let mut plan: ModulePlan = ModulePlan::new();
        match plan.declare_units(target, units) {
            Ok(_) => {},
            Err(error) => {
                return Err(error);
            },
        }
        plan.import_functions(extern_functions);
        match plan.define_units(target, units) {
            Ok(_) => Ok(plan),
            Err(error) => Err(error),
        }
    }
}

} // verus!
