//! The four runtime invariants the compiler checks, and the resolved `core`
//! panic support the generated checks call.
//!
//! Analysis owns this because deciding *which* operations are checked and
//! resolving `core::panic` by name are both semantic questions; code
//! generation only consumes the resolved facts.

use crate::checked::{
    CheckedArm, CheckedAsmDescriptor, CheckedAsmDescriptorKind, CheckedBlock, CheckedBranch,
    CheckedCoercion, CheckedCoercionStep, CheckedExpr, CheckedExprNode, CheckedFieldValue,
    CheckedMatchRemainder, CheckedPlace, CheckedPlaceRoot, CheckedProjection, CheckedRangeEnd,
    CheckedStmt, Storage,
};
use crate::hir::HirId;
use crate::resolved_type::{ResolvedFunctionType, ResolvedType};
use std::rc::Rc;
use vstd::prelude::*;

verus! {

/// A violated invariant a generated panic reports. The message is fixed: a
/// panic on this path formats nothing and allocates nothing.
#[derive(Debug, Clone, Copy, PartialEq, Eq, Structural)]
pub enum RuntimeCheck {
    EnumTagInMatch,
    EnumTagInWiden,
    EnumTagInTry,
    NeverCallReturned,
}

impl RuntimeCheck {
    /// The text a generated panic reports.
    pub open spec fn text(self) -> Seq<char> {
        match self {
            RuntimeCheck::EnumTagInMatch => "invalid enum tag in match"@,
            RuntimeCheck::EnumTagInWiden => "invalid enum tag in anonymous-enum widening"@,
            RuntimeCheck::EnumTagInTry => "invalid enum tag in try operator"@,
            RuntimeCheck::NeverCallReturned => "never-returning call returned"@,
        }
    }

    pub fn message(self) -> (text: &'static str)
        ensures
            text@ == self.text(),
    {
        match self {
            RuntimeCheck::EnumTagInMatch => "invalid enum tag in match",
            RuntimeCheck::EnumTagInWiden => "invalid enum tag in anonymous-enum widening",
            RuntimeCheck::EnumTagInTry => "invalid enum tag in try operator",
            RuntimeCheck::NeverCallReturned => "never-returning call returned",
        }
    }
}

/// One resolved `core::panic::PanicInfo` field.
#[derive(Debug)]
pub struct PanicInfoField {
    pub index: usize,
    pub ty: ResolvedType,
}

/// Everything a generated panic call needs, validated once per compilation
/// and shared by every function that emits one.
#[derive(Debug)]
pub struct PanicSupport {
    /// The gap function itself, by resolved declaration identity -- never by
    /// name, so a user function called `panic` is an ordinary call.
    pub handler_decl_id: HirId,
    pub handler_fn_type: ResolvedFunctionType,
    pub info_type: ResolvedType,
    pub source_file: PanicInfoField,
    pub line: PanicInfoField,
    pub column: PanicInfoField,
    pub message: PanicInfoField,
}

/// Where a generated panic reports it happened.
#[derive(Debug)]
pub struct PanicLocation {
    pub file: String,
    pub line: u32,
    pub column: u32,
}

/// The panic support one function's generated checks use, together with the
/// name of the source its spans index. A body's spans always belong to the
/// file its text was written in -- a macro expansion carries its call site's
/// span, and a generic instantiation keeps its template's -- so one file
/// answers every site in one body.
#[derive(Debug)]
pub struct FunctionRuntimeChecks {
    pub panic_support: Rc<PanicSupport>,
    pub source_name: String,
}

/// The low 32 bits of a position.
pub open spec fn low_word(n: usize) -> u32 {
    (n as int % 0x1_0000_0000) as u32
}

fn position_word(n: usize) -> (word: u32)
    ensures
        word == low_word(n),
{
    (n as u64 % 0x1_0000_0000u64) as u32
}

impl FunctionRuntimeChecks {
    pub fn new(support: Rc<PanicSupport>, source_name: String) -> (checks: Self)
        ensures
            checks.panic_support == support,
            checks.source_name == source_name,
    {
        FunctionRuntimeChecks { panic_support: support, source_name }
    }

    pub fn support(&self) -> (support: &PanicSupport)
        ensures
            *support == *self.panic_support,
    {
        &self.panic_support
    }

    /// The location a panic at `position` reports, a line and a column of this
    /// source.
    pub fn location(&self, position: (usize, usize)) -> (location: PanicLocation)
        ensures
            location.file@ == self.source_name@,
            location.line == low_word(position.0),
            location.column == low_word(position.1),
    {
        PanicLocation {
            file: self.source_name.as_str().to_owned(),
            line: position_word(position.0),
            column: position_word(position.1),
        }
    }
}

/// The checked operations in one body that may need a generated panic.
///
/// A `never` call is a candidate even when it turns out to be the trusted
/// handler's own: telling the two apart needs the resolved gap declaration,
/// which is read back off the attached support.
#[derive(Debug)]
pub struct CandidateSites {
    pub tag_checks: usize,
    pub never_calls: usize,
}

impl Default for CandidateSites {
    fn default() -> (sites: Self)
        ensures
            sites.tag_checks == 0,
            sites.never_calls == 0,
    {
        CandidateSites { tag_checks: 0, never_calls: 0 }
    }
}

impl CandidateSites {
    pub fn is_empty(&self) -> (r: bool)
        ensures
            r == (self.tag_checks == 0 && self.never_calls == 0),
    {
        self.tag_checks == 0 && self.never_calls == 0
    }

    /// Whether these are `before` and `found` together.
    pub open spec fn grew(self, before: CandidateSites, found: Sites) -> bool {
        &&& self.tag_checks == before.tag_checks + found.tags
        &&& self.never_calls == before.never_calls + found.nevers
    }

    /// Whether `found` can still be counted.
    pub open spec fn has_room(self, found: Sites) -> bool {
        &&& self.tag_checks + found.tags <= usize::MAX
        &&& self.never_calls + found.nevers <= usize::MAX
    }
}

/// How many tag checks and calls of never-returning functions there are.
pub struct Sites {
    pub tags: nat,
    pub nevers: nat,
}

impl Sites {
    pub open spec fn zero() -> Sites {
        Sites { tags: 0, nevers: 0 }
    }

    pub open spec fn tag() -> Sites {
        Sites { tags: 1, nevers: 0 }
    }

    pub open spec fn plus(self, other: Sites) -> Sites {
        Sites { tags: self.tags + other.tags, nevers: self.nevers + other.nevers }
    }
}

/// A call is a site where the function it calls never returns.
pub open spec fn call_site(fn_type: ResolvedFunctionType) -> Sites {
    if *fn_type.return_type is Never {
        Sites { tags: 0, nevers: 1 }
    } else {
        Sites::zero()
    }
}

/// The sites of a block: those of its statements and of its value.
pub open spec fn block_sites(block: CheckedBlock) -> Sites
    decreases block, 0int,
{
    stmts_sites(block.stmts@).plus(match block.tail {
        Some(tail) => expr_sites(*tail),
        None => Sites::zero(),
    })
}

/// The sites of a statement.
pub open spec fn stmt_sites(stmt: CheckedStmt) -> Sites
    decreases stmt, 0int,
{
    match stmt {
        CheckedStmt::Declaration(_) => Sites::zero(),
        CheckedStmt::Break(_) => Sites::zero(),
        CheckedStmt::Continue(_) => Sites::zero(),
        CheckedStmt::Expression(e) => expr_sites(e),
        CheckedStmt::Return(e) => expr_sites(e),
        CheckedStmt::While(w) => expr_sites(w.condition).plus(block_sites(w.body)),
        CheckedStmt::Loop(l) => block_sites(l.body),
        CheckedStmt::For(f) => stmts_sites(f.init@).plus(expr_sites(f.condition)).plus(
            match f.post {
                Some(post) => expr_sites(post),
                None => Sites::zero(),
            },
        ).plus(block_sites(f.body)),
        CheckedStmt::Defer(d) => block_sites(d.body),
        CheckedStmt::InlineAsm(code) => descriptors_sites(code.descriptors@),
    }
}

/// The sites of an `asm` operand.
pub open spec fn descriptor_sites(descriptor: CheckedAsmDescriptor) -> Sites
    decreases descriptor, 0int,
{
    match descriptor.kind {
        CheckedAsmDescriptorKind::Reg { expr, .. } => expr_sites(expr),
        _ => Sites::zero(),
    }
}

/// The sites of a branch.
pub open spec fn branch_sites(branch: CheckedBranch) -> Sites
    decreases branch, 0int,
{
    expr_sites(branch.condition).plus(block_sites(branch.body))
}

/// The sites of a field's value.
pub open spec fn field_value_sites(field: CheckedFieldValue) -> Sites
    decreases field, 0int,
{
    expr_sites(field.value)
}

/// The sites of a group of conditions.
pub open spec fn group_sites(group: Vec<CheckedExprNode>) -> Sites
    decreases group, 1int,
{
    exprs_sites(group@)
}

/// The sites of an arm.
pub open spec fn arm_sites(arm: CheckedArm) -> Sites
    decreases arm, 0int,
{
    groups_sites(arm.conditions@).plus(block_sites(arm.body))
}

/// The sites of a projection.
pub open spec fn projection_sites(projection: CheckedProjection) -> Sites
    decreases projection, 0int,
{
    match projection {
        CheckedProjection::Index { index_expr } => expr_sites(*index_expr),
        _ => Sites::zero(),
    }
}

/// The sites of a place.
pub open spec fn place_sites(place: CheckedPlace) -> Sites
    decreases place, 0int,
{
    (match place.root {
        CheckedPlaceRoot::Expr(expr) => expr_sites(*expr),
        _ => Sites::zero(),
    }).plus(projections_sites(place.projections@))
}

/// The sites of a coercion: a tag check for each widening.
pub open spec fn coercion_sites(steps: Seq<CheckedCoercionStep>) -> Sites
    decreases steps.len(),
{
    if steps.len() == 0 {
        Sites::zero()
    } else {
        coercion_sites(steps.drop_last()).plus(
            if steps.last() is WidenAnonymousEnum {
                Sites::tag()
            } else {
                Sites::zero()
            },
        )
    }
}

/// The sites of an expression: one tag check for each widening, each `try`,
/// and each match that only an illegal tag can leave; one candidate for each
/// call of a never-returning function; and those of its parts.
pub open spec fn expr_sites(expr: CheckedExprNode) -> Sites
    decreases expr, 0int,
{
    match expr.kind {
        CheckedExpr::Number(_) => Sites::zero(),
        CheckedExpr::Bool(_) => Sites::zero(),
        CheckedExpr::Char(_) => Sites::zero(),
        CheckedExpr::Str(_) => Sites::zero(),
        CheckedExpr::ByteString(_) => Sites::zero(),
        CheckedExpr::Const(_) => Sites::zero(),
        CheckedExpr::Sizeof(_) => Sites::zero(),
        CheckedExpr::Alignof(_) => Sites::zero(),
        CheckedExpr::Place(place) => place_sites(place),
        CheckedExpr::FunctionCall(call) => expr_sites(*call.callee).plus(
            exprs_sites(call.args@),
        ).plus(call_site(*call.fn_type)),
        CheckedExpr::DynamicCall(call) => place_sites(call.base).plus(
            exprs_sites(call.args@),
        ).plus(call_site(*call.fn_type)),
        CheckedExpr::Assignment(a) => place_sites(a.target).plus(expr_sites(*a.value)),
        CheckedExpr::CompoundAssign(a) => place_sites(a.place).plus(expr_sites(*a.value)),
        CheckedExpr::AddressOf(place) => place_sites(place),
        CheckedExpr::Negate(e) => expr_sites(*e),
        CheckedExpr::BitNot(e) => expr_sites(*e),
        CheckedExpr::BinaryOp(b) => expr_sites(*b.left).plus(expr_sites(*b.right)),
        CheckedExpr::Codeblock(block) => block_sites(*block),
        CheckedExpr::If(choice) => branches_sites(choice.branches@).plus(
            match choice.else_branch {
                Some(block) => block_sites(*block),
                None => Sites::zero(),
            },
        ),
        CheckedExpr::ArrayLiteral(elements) => exprs_sites(elements@),
        CheckedExpr::StructLiteral(fields) => field_values_sites(fields@),
        CheckedExpr::EnumConstruct(fields) => field_values_sites(fields@),
        CheckedExpr::UnionConstruct(field) => field_value_sites(*field),
        CheckedExpr::Slice(slice) => place_sites(slice.base).plus(
            match slice.start {
                Some(start) => expr_sites(*start),
                None => Sites::zero(),
            },
        ).plus(
            match slice.end {
                CheckedRangeEnd::Inclusive(end) => expr_sites(*end),
                CheckedRangeEnd::Exclusive(end) => expr_sites(*end),
                CheckedRangeEnd::Open => Sites::zero(),
            },
        ),
        CheckedExpr::Match(m) => arms_sites(m.arms@).plus(
            match m.else_branch {
                Some(block) => block_sites(*block),
                None => if m.remainder is IllegalEnumTag {
                    Sites::tag()
                } else {
                    Sites::zero()
                },
            },
        ),
        CheckedExpr::Cast(base) => expr_sites(*base),
        CheckedExpr::SpecCoerce(base) => expr_sites(*base),
        CheckedExpr::AnonymousEnumWiden(source) => expr_sites(*source).plus(Sites::tag()),
        CheckedExpr::Try(attempt) => expr_sites(*attempt.operand).plus(Sites::tag()).plus(
            coercion_sites(attempt.error_coercion.steps@),
        ),
    }
}

/// [`stmt_sites`] of all stmts together.
pub open spec fn stmts_sites(list: Seq<CheckedStmt>) -> Sites
    decreases list, 0int,
{
    if list.len() == 0 {
        Sites::zero()
    } else {
        stmts_sites(list.drop_first()).plus(stmt_sites(list[0]))
    }
}

/// [`expr_sites`] of all exprs together.
pub open spec fn exprs_sites(list: Seq<CheckedExprNode>) -> Sites
    decreases list, 0int,
{
    if list.len() == 0 {
        Sites::zero()
    } else {
        exprs_sites(list.drop_first()).plus(expr_sites(list[0]))
    }
}

/// [`group_sites`] of all groups together.
pub open spec fn groups_sites(list: Seq<Vec<CheckedExprNode>>) -> Sites
    decreases list, 0int,
{
    if list.len() == 0 {
        Sites::zero()
    } else {
        groups_sites(list.drop_first()).plus(group_sites(list[0]))
    }
}

/// [`branch_sites`] of all branches together.
pub open spec fn branches_sites(list: Seq<CheckedBranch>) -> Sites
    decreases list, 0int,
{
    if list.len() == 0 {
        Sites::zero()
    } else {
        branches_sites(list.drop_first()).plus(branch_sites(list[0]))
    }
}

/// [`field_value_sites`] of all field values together.
pub open spec fn field_values_sites(list: Seq<CheckedFieldValue>) -> Sites
    decreases list, 0int,
{
    if list.len() == 0 {
        Sites::zero()
    } else {
        field_values_sites(list.drop_first()).plus(field_value_sites(list[0]))
    }
}

/// [`arm_sites`] of all arms together.
pub open spec fn arms_sites(list: Seq<CheckedArm>) -> Sites
    decreases list, 0int,
{
    if list.len() == 0 {
        Sites::zero()
    } else {
        arms_sites(list.drop_first()).plus(arm_sites(list[0]))
    }
}

/// [`projection_sites`] of all projections together.
pub open spec fn projections_sites(list: Seq<CheckedProjection>) -> Sites
    decreases list, 0int,
{
    if list.len() == 0 {
        Sites::zero()
    } else {
        projections_sites(list.drop_first()).plus(projection_sites(list[0]))
    }
}

/// [`descriptor_sites`] of all descriptors together.
pub open spec fn descriptors_sites(list: Seq<CheckedAsmDescriptor>) -> Sites
    decreases list, 0int,
{
    if list.len() == 0 {
        Sites::zero()
    } else {
        descriptors_sites(list.drop_first()).plus(descriptor_sites(list[0]))
    }
}

fn walk_stmts(list: &Vec<CheckedStmt>, sites: &mut CandidateSites)
    requires
        old(sites).has_room(stmts_sites(list@)),
    ensures
        final(sites).grew(*old(sites), stmts_sites(list@)),
    decreases list, 0int,
{
    let ghost before = *sites;
    let mut i: usize = 0;
    assert(list@.skip(0) =~= list@);
    while i < list.len()
        invariant
            i <= list@.len(),
            before.has_room(stmts_sites(list@)),
            sites.tag_checks + stmts_sites(list@.skip(i as int)).tags == before.tag_checks
                + stmts_sites(list@).tags,
            sites.never_calls + stmts_sites(list@.skip(i as int)).nevers == before.never_calls
                + stmts_sites(list@).nevers,
        decreases list.len() - i,
    {
        assert(list@.skip(i as int).drop_first() =~= list@.skip(i as int + 1));
        walk_stmt(&list[i], sites);
        i = i + 1;
    }
}

fn walk_exprs(list: &Vec<CheckedExprNode>, sites: &mut CandidateSites)
    requires
        old(sites).has_room(exprs_sites(list@)),
    ensures
        final(sites).grew(*old(sites), exprs_sites(list@)),
    decreases list, 0int,
{
    let ghost before = *sites;
    let mut i: usize = 0;
    assert(list@.skip(0) =~= list@);
    while i < list.len()
        invariant
            i <= list@.len(),
            before.has_room(exprs_sites(list@)),
            sites.tag_checks + exprs_sites(list@.skip(i as int)).tags == before.tag_checks
                + exprs_sites(list@).tags,
            sites.never_calls + exprs_sites(list@.skip(i as int)).nevers == before.never_calls
                + exprs_sites(list@).nevers,
        decreases list.len() - i,
    {
        assert(list@.skip(i as int).drop_first() =~= list@.skip(i as int + 1));
        walk_expr(&list[i], sites);
        i = i + 1;
    }
}

fn walk_groups(list: &Vec<Vec<CheckedExprNode>>, sites: &mut CandidateSites)
    requires
        old(sites).has_room(groups_sites(list@)),
    ensures
        final(sites).grew(*old(sites), groups_sites(list@)),
    decreases list, 0int,
{
    let ghost before = *sites;
    let mut i: usize = 0;
    assert(list@.skip(0) =~= list@);
    while i < list.len()
        invariant
            i <= list@.len(),
            before.has_room(groups_sites(list@)),
            sites.tag_checks + groups_sites(list@.skip(i as int)).tags == before.tag_checks
                + groups_sites(list@).tags,
            sites.never_calls + groups_sites(list@.skip(i as int)).nevers == before.never_calls
                + groups_sites(list@).nevers,
        decreases list.len() - i,
    {
        assert(list@.skip(i as int).drop_first() =~= list@.skip(i as int + 1));
        walk_group(&list[i], sites);
        i = i + 1;
    }
}

fn walk_branches(list: &Vec<CheckedBranch>, sites: &mut CandidateSites)
    requires
        old(sites).has_room(branches_sites(list@)),
    ensures
        final(sites).grew(*old(sites), branches_sites(list@)),
    decreases list, 0int,
{
    let ghost before = *sites;
    let mut i: usize = 0;
    assert(list@.skip(0) =~= list@);
    while i < list.len()
        invariant
            i <= list@.len(),
            before.has_room(branches_sites(list@)),
            sites.tag_checks + branches_sites(list@.skip(i as int)).tags == before.tag_checks
                + branches_sites(list@).tags,
            sites.never_calls + branches_sites(list@.skip(i as int)).nevers == before.never_calls
                + branches_sites(list@).nevers,
        decreases list.len() - i,
    {
        assert(list@.skip(i as int).drop_first() =~= list@.skip(i as int + 1));
        walk_branch(&list[i], sites);
        i = i + 1;
    }
}

fn walk_field_values(list: &Vec<CheckedFieldValue>, sites: &mut CandidateSites)
    requires
        old(sites).has_room(field_values_sites(list@)),
    ensures
        final(sites).grew(*old(sites), field_values_sites(list@)),
    decreases list, 0int,
{
    let ghost before = *sites;
    let mut i: usize = 0;
    assert(list@.skip(0) =~= list@);
    while i < list.len()
        invariant
            i <= list@.len(),
            before.has_room(field_values_sites(list@)),
            sites.tag_checks + field_values_sites(list@.skip(i as int)).tags == before.tag_checks
                + field_values_sites(list@).tags,
            sites.never_calls + field_values_sites(list@.skip(i as int)).nevers == before.never_calls
                + field_values_sites(list@).nevers,
        decreases list.len() - i,
    {
        assert(list@.skip(i as int).drop_first() =~= list@.skip(i as int + 1));
        walk_field_value(&list[i], sites);
        i = i + 1;
    }
}

fn walk_arms(list: &Vec<CheckedArm>, sites: &mut CandidateSites)
    requires
        old(sites).has_room(arms_sites(list@)),
    ensures
        final(sites).grew(*old(sites), arms_sites(list@)),
    decreases list, 0int,
{
    let ghost before = *sites;
    let mut i: usize = 0;
    assert(list@.skip(0) =~= list@);
    while i < list.len()
        invariant
            i <= list@.len(),
            before.has_room(arms_sites(list@)),
            sites.tag_checks + arms_sites(list@.skip(i as int)).tags == before.tag_checks
                + arms_sites(list@).tags,
            sites.never_calls + arms_sites(list@.skip(i as int)).nevers == before.never_calls
                + arms_sites(list@).nevers,
        decreases list.len() - i,
    {
        assert(list@.skip(i as int).drop_first() =~= list@.skip(i as int + 1));
        walk_arm(&list[i], sites);
        i = i + 1;
    }
}

fn walk_projections(list: &Vec<CheckedProjection>, sites: &mut CandidateSites)
    requires
        old(sites).has_room(projections_sites(list@)),
    ensures
        final(sites).grew(*old(sites), projections_sites(list@)),
    decreases list, 0int,
{
    let ghost before = *sites;
    let mut i: usize = 0;
    assert(list@.skip(0) =~= list@);
    while i < list.len()
        invariant
            i <= list@.len(),
            before.has_room(projections_sites(list@)),
            sites.tag_checks + projections_sites(list@.skip(i as int)).tags == before.tag_checks
                + projections_sites(list@).tags,
            sites.never_calls + projections_sites(list@.skip(i as int)).nevers == before.never_calls
                + projections_sites(list@).nevers,
        decreases list.len() - i,
    {
        assert(list@.skip(i as int).drop_first() =~= list@.skip(i as int + 1));
        walk_projection(&list[i], sites);
        i = i + 1;
    }
}

fn walk_descriptors(list: &Vec<CheckedAsmDescriptor>, sites: &mut CandidateSites)
    requires
        old(sites).has_room(descriptors_sites(list@)),
    ensures
        final(sites).grew(*old(sites), descriptors_sites(list@)),
    decreases list, 0int,
{
    let ghost before = *sites;
    let mut i: usize = 0;
    assert(list@.skip(0) =~= list@);
    while i < list.len()
        invariant
            i <= list@.len(),
            before.has_room(descriptors_sites(list@)),
            sites.tag_checks + descriptors_sites(list@.skip(i as int)).tags == before.tag_checks
                + descriptors_sites(list@).tags,
            sites.never_calls + descriptors_sites(list@.skip(i as int)).nevers == before.never_calls
                + descriptors_sites(list@).nevers,
        decreases list.len() - i,
    {
        assert(list@.skip(i as int).drop_first() =~= list@.skip(i as int + 1));
        walk_descriptor(&list[i], sites);
        i = i + 1;
    }
}

fn count_tag(sites: &mut CandidateSites)
    requires
        old(sites).tag_checks < usize::MAX,
    ensures
        final(sites).grew(*old(sites), Sites::tag()),
{
    sites.tag_checks = sites.tag_checks + 1;
}

fn count_call(fn_type: &ResolvedFunctionType, sites: &mut CandidateSites)
    requires
        old(sites).has_room(call_site(*fn_type)),
    ensures
        final(sites).grew(*old(sites), call_site(*fn_type)),
{
    if let ResolvedType::Never = *fn_type.return_type {
        sites.never_calls = sites.never_calls + 1;
    }
}

fn walk_block(block: &CheckedBlock, sites: &mut CandidateSites)
    requires
        old(sites).has_room(block_sites(*block)),
    ensures
        final(sites).grew(*old(sites), block_sites(*block)),
    decreases block, 0int,
{
    walk_stmts(&block.stmts, sites);
    if let Some(tail) = &block.tail {
        walk_expr(tail, sites);
    }
}

fn walk_stmt(stmt: &CheckedStmt, sites: &mut CandidateSites)
    requires
        old(sites).has_room(stmt_sites(*stmt)),
    ensures
        final(sites).grew(*old(sites), stmt_sites(*stmt)),
    decreases stmt, 0int,
{
    match stmt {
        CheckedStmt::Declaration(_) => {},
        CheckedStmt::Break(_) => {},
        CheckedStmt::Continue(_) => {},
        CheckedStmt::Expression(e) => walk_expr(e, sites),
        CheckedStmt::Return(e) => walk_expr(e, sites),
        CheckedStmt::While(w) => {
            walk_expr(&w.condition, sites);
            walk_block(&w.body, sites);
        },
        CheckedStmt::Loop(l) => walk_block(&l.body, sites),
        CheckedStmt::For(f) => {
            walk_stmts(&f.init, sites);
            walk_expr(&f.condition, sites);
            if let Some(post) = &f.post {
                walk_expr(post, sites);
            }
            walk_block(&f.body, sites);
        },
        CheckedStmt::Defer(d) => walk_block(&d.body, sites),
        CheckedStmt::InlineAsm(code) => walk_descriptors(&code.descriptors, sites),
    }
}

fn walk_descriptor(descriptor: &CheckedAsmDescriptor, sites: &mut CandidateSites)
    requires
        old(sites).has_room(descriptor_sites(*descriptor)),
    ensures
        final(sites).grew(*old(sites), descriptor_sites(*descriptor)),
    decreases descriptor, 0int,
{
    if let CheckedAsmDescriptorKind::Reg { expr, .. } = &descriptor.kind {
        walk_expr(expr, sites);
    }
}

fn walk_branch(branch: &CheckedBranch, sites: &mut CandidateSites)
    requires
        old(sites).has_room(branch_sites(*branch)),
    ensures
        final(sites).grew(*old(sites), branch_sites(*branch)),
    decreases branch, 0int,
{
    walk_expr(&branch.condition, sites);
    walk_block(&branch.body, sites);
}

fn walk_field_value(field: &CheckedFieldValue, sites: &mut CandidateSites)
    requires
        old(sites).has_room(field_value_sites(*field)),
    ensures
        final(sites).grew(*old(sites), field_value_sites(*field)),
    decreases field, 0int,
{
    walk_expr(&field.value, sites);
}

fn walk_group(group: &Vec<CheckedExprNode>, sites: &mut CandidateSites)
    requires
        old(sites).has_room(group_sites(*group)),
    ensures
        final(sites).grew(*old(sites), group_sites(*group)),
    decreases group, 1int,
{
    walk_exprs(group, sites);
}

fn walk_arm(arm: &CheckedArm, sites: &mut CandidateSites)
    requires
        old(sites).has_room(arm_sites(*arm)),
    ensures
        final(sites).grew(*old(sites), arm_sites(*arm)),
    decreases arm, 0int,
{
    walk_groups(&arm.conditions, sites);
    walk_block(&arm.body, sites);
}

fn walk_projection(projection: &CheckedProjection, sites: &mut CandidateSites)
    requires
        old(sites).has_room(projection_sites(*projection)),
    ensures
        final(sites).grew(*old(sites), projection_sites(*projection)),
    decreases projection, 0int,
{
    if let CheckedProjection::Index { index_expr } = projection {
        walk_expr(index_expr, sites);
    }
}

fn walk_place(place: &CheckedPlace, sites: &mut CandidateSites)
    requires
        old(sites).has_room(place_sites(*place)),
    ensures
        final(sites).grew(*old(sites), place_sites(*place)),
    decreases place, 0int,
{
    if let CheckedPlaceRoot::Expr(expr) = &place.root {
        walk_expr(expr, sites);
    }
    walk_projections(&place.projections, sites);
}

fn walk_coercion(coercion: &CheckedCoercion, sites: &mut CandidateSites)
    requires
        old(sites).has_room(coercion_sites(coercion.steps@)),
    ensures
        final(sites).grew(*old(sites), coercion_sites(coercion.steps@)),
{
    let ghost before = *sites;
    let steps: &Vec<CheckedCoercionStep> = &coercion.steps;
    let mut i: usize = 0;
    assert(coercion_sites(steps@.take(0)) == Sites::zero());
    while i < steps.len()
        invariant
            i <= steps@.len(),
            before.has_room(coercion_sites(steps@)),
            sites.grew(before, coercion_sites(steps@.take(i as int))),
        decreases steps.len() - i,
    {
        proof {
            assert(steps@.take(i as int + 1).drop_last() =~= steps@.take(i as int));
            lemma_fewer_steps(steps@, i as int + 1);
        }
        if let CheckedCoercionStep::WidenAnonymousEnum { .. } = &steps[i] {
            count_tag(sites);
        }
        i = i + 1;
    }
    assert(steps@.take(i as int) =~= steps@);
}

proof fn lemma_fewer_steps(steps: Seq<CheckedCoercionStep>, n: int)
    requires
        0 <= n <= steps.len(),
    ensures
        coercion_sites(steps.take(n)).tags <= coercion_sites(steps).tags,
        coercion_sites(steps.take(n)).nevers == 0,
    decreases steps.len(),
{
    if n == steps.len() {
        assert(steps.take(n) =~= steps);
        if n > 0 {
            lemma_fewer_steps(steps.drop_last(), n - 1);
            assert(steps.drop_last().take(n - 1) =~= steps.drop_last());
        }
    } else {
        lemma_fewer_steps(steps.drop_last(), n);
        assert(steps.drop_last().take(n) =~= steps.take(n));
    }
}

fn walk_expr(expr: &CheckedExprNode, sites: &mut CandidateSites)
    requires
        old(sites).has_room(expr_sites(*expr)),
    ensures
        final(sites).grew(*old(sites), expr_sites(*expr)),
    decreases expr, 0int,
{
    match &expr.kind {
        CheckedExpr::Number(_) => {},
        CheckedExpr::Bool(_) => {},
        CheckedExpr::Char(_) => {},
        CheckedExpr::Str(_) => {},
        CheckedExpr::ByteString(_) => {},
        CheckedExpr::Const(_) => {},
        CheckedExpr::Sizeof(_) => {},
        CheckedExpr::Alignof(_) => {},
        CheckedExpr::Place(place) => walk_place(place, sites),
        CheckedExpr::FunctionCall(call) => {
            walk_expr(&call.callee, sites);
            walk_exprs(&call.args, sites);
            count_call(&call.fn_type, sites);
        },
        CheckedExpr::DynamicCall(call) => {
            walk_place(&call.base, sites);
            walk_exprs(&call.args, sites);
            count_call(&call.fn_type, sites);
        },
        CheckedExpr::Assignment(a) => {
            walk_place(&a.target, sites);
            walk_expr(&a.value, sites);
        },
        CheckedExpr::CompoundAssign(a) => {
            walk_place(&a.place, sites);
            walk_expr(&a.value, sites);
        },
        CheckedExpr::AddressOf(place) => walk_place(place, sites),
        CheckedExpr::Negate(e) => walk_expr(e, sites),
        CheckedExpr::BitNot(e) => walk_expr(e, sites),
        CheckedExpr::BinaryOp(b) => {
            walk_expr(&b.left, sites);
            walk_expr(&b.right, sites);
        },
        CheckedExpr::Codeblock(block) => walk_block(block, sites),
        CheckedExpr::If(choice) => {
            walk_branches(&choice.branches, sites);
            if let Some(else_branch) = &choice.else_branch {
                walk_block(else_branch, sites);
            }
        },
        CheckedExpr::ArrayLiteral(elements) => walk_exprs(elements, sites),
        CheckedExpr::StructLiteral(fields) => walk_field_values(fields, sites),
        CheckedExpr::EnumConstruct(fields) => walk_field_values(fields, sites),
        CheckedExpr::UnionConstruct(field) => walk_field_value(field, sites),
        CheckedExpr::Slice(slice) => {
            walk_place(&slice.base, sites);
            if let Some(start) = &slice.start {
                walk_expr(start, sites);
            }
            match &slice.end {
                CheckedRangeEnd::Inclusive(end) => walk_expr(end, sites),
                CheckedRangeEnd::Exclusive(end) => walk_expr(end, sites),
                CheckedRangeEnd::Open => {},
            }
        },
        CheckedExpr::Match(m) => {
            walk_arms(&m.arms, sites);
            match &m.else_branch {
                Some(else_branch) => walk_block(else_branch, sites),
                None => if m.remainder == CheckedMatchRemainder::IllegalEnumTag {
                    count_tag(sites);
                },
            }
        },
        CheckedExpr::Cast(base) => walk_expr(base, sites),
        CheckedExpr::SpecCoerce(base) => walk_expr(base, sites),
        CheckedExpr::AnonymousEnumWiden(source) => {
            walk_expr(source, sites);
            count_tag(sites);
        },
        CheckedExpr::Try(attempt) => {
            walk_expr(&attempt.operand, sites);
            count_tag(sites);
            walk_coercion(&attempt.error_coercion, sites);
        },
    }
}

/// The sites of a body.
pub fn scan_block(block: &CheckedBlock) -> (sites: CandidateSites)
    requires
        block_sites(*block).tags <= usize::MAX,
        block_sites(*block).nevers <= usize::MAX,
    ensures
        sites.tag_checks == block_sites(*block).tags,
        sites.never_calls == block_sites(*block).nevers,
{
    let mut sites = CandidateSites::default();
    walk_block(block, &mut sites);
    sites
}

/// The declaration a call names directly, when it names one at all.
pub open spec fn named_callee(callee: CheckedExprNode) -> Option<HirId> {
    match callee.kind {
        CheckedExpr::Place(place) => match place.root {
            CheckedPlaceRoot::Variable { decl_id, storage: Storage::Function } => {
                if place.projections@.len() == 0 {
                    Some(decl_id)
                } else {
                    None
                }
            },
            _ => None,
        },
        _ => None,
    }
}

/// The declaration a call names directly, when it names one at all. A call
/// through a function pointer or a stored value has no static callee and is
/// therefore never the trusted handler.
pub fn static_callee(callee: &CheckedExprNode) -> (found: Option<HirId>)
    ensures
        found == named_callee(*callee),
{
    match &callee.kind {
        CheckedExpr::Place(place) => match &place.root {
            CheckedPlaceRoot::Variable { decl_id, storage: Storage::Function } => {
                if place.projections.len() == 0 {
                    Some(*decl_id)
                } else {
                    None
                }
            },
            _ => None,
        },
        _ => None,
    }
}

} // verus!
