//! Which operations of a body need a generated check, one constructor at a
//! time.

use crate::checked::{
    CheckedAsmDescriptor, CheckedAsmDescriptorKind, CheckedBlock, CheckedBranch,
    CheckedCoercionStep, CheckedExpr, CheckedExprNode, CheckedFieldValue, CheckedMatch,
    CheckedMatchRemainder, CheckedPlace, CheckedPlaceRoot, CheckedProjection, CheckedRangeEnd,
    CheckedStmt,
};
use crate::resolved_type::ResolvedType;
use crate::runtime_checks::{arms_sites, 
    field_value_sites, projection_sites, descriptor_sites, arm_sites, branch_sites, group_sites,    block_sites, branches_sites, coercion_sites, descriptors_sites, expr_sites, exprs_sites,
    field_values_sites, groups_sites, place_sites, projections_sites, stmt_sites, stmts_sites,
    Sites,
};
use vstd::prelude::*;

verus! {

/// The number of items of a list that satisfy something.
pub open spec fn count<T>(items: Seq<T>, holds: spec_fn(T) -> bool) -> nat
    decreases items.len(),
{
    if items.len() == 0 {
        0
    } else {
        count(items.drop_last(), holds) + if holds(items.last()) {
            1nat
        } else {
            0nat
        }
    }
}

/// A match with no arms needs one check for an illegal tag where only such a
/// tag is left and nothing catches it, and none where everything is covered or
/// there is an `else` branch, beyond those of that branch.
pub proof fn law_empty_matches(node: CheckedExprNode, m: CheckedMatch)
    requires
        node.kind == CheckedExpr::Match(m),
        m.arms@.len() == 0,
    ensures
        m.else_branch is None && m.remainder == CheckedMatchRemainder::IllegalEnumTag
            ==> expr_sites(node).tags == 1 && expr_sites(node).nevers == 0,
        m.else_branch is None && m.remainder == CheckedMatchRemainder::Covered ==> expr_sites(
            node,
        ).tags == 0 && expr_sites(node).nevers == 0,
        m.else_branch matches Some(block) ==> expr_sites(node).tags == block_sites(*block).tags
            && expr_sites(node).nevers == block_sites(*block).nevers,
{
    reveal_with_fuel(expr_sites, 4);
    reveal_with_fuel(arms_sites, 4);
}

/// What is left when no arm is taken costs one check, whatever the arms are,
/// and it is paid only where no `else` branch catches it.
pub proof fn law_illegal_tags_cost_one_check(
    caught: CheckedExprNode,
    left: CheckedExprNode,
    covered: CheckedExprNode,
    a: CheckedMatch,
    b: CheckedMatch,
    c: CheckedMatch,
)
    requires
        caught.kind == CheckedExpr::Match(a),
        left.kind == CheckedExpr::Match(b),
        covered.kind == CheckedExpr::Match(c),
        a.arms@ == b.arms@,
        b.arms@ == c.arms@,
        a.else_branch is Some,
        b.else_branch is None,
        c.else_branch is None,
        b.remainder == CheckedMatchRemainder::IllegalEnumTag,
        c.remainder == CheckedMatchRemainder::Covered,
    ensures
        expr_sites(left).tags == expr_sites(covered).tags + 1,
        expr_sites(left).nevers == expr_sites(covered).nevers,
        expr_sites(caught).tags == expr_sites(covered).tags + block_sites(
            *a.else_branch->0,
        ).tags,
        expr_sites(caught).nevers == expr_sites(covered).nevers + block_sites(
            *a.else_branch->0,
        ).nevers,
{
    reveal_with_fuel(expr_sites, 4);
}

/// One more arm adds the checks of its conditions and of its body.
pub proof fn law_arms_add_up(
    less: CheckedExprNode,
    more: CheckedExprNode,
    a: CheckedMatch,
    b: CheckedMatch,
)
    requires
        less.kind == CheckedExpr::Match(a),
        more.kind == CheckedExpr::Match(b),
        b.arms@.len() > 0,
        a.arms@ == b.arms@.drop_first(),
        a.else_branch == b.else_branch,
        a.remainder == b.remainder,
    ensures
        expr_sites(more).tags == expr_sites(less).tags + groups_sites(
            b.arms@[0].conditions@,
        ).tags + block_sites(b.arms@[0].body).tags,
        expr_sites(more).nevers == expr_sites(less).nevers + groups_sites(
            b.arms@[0].conditions@,
        ).nevers + block_sites(b.arms@[0].body).nevers,
{
    reveal_with_fuel(expr_sites, 4);
    reveal_with_fuel(arms_sites, 4);
    reveal_with_fuel(arm_sites, 4);
}

/// Conditions cost what they cost, group by group and one by one.
pub proof fn law_conditions_add_up(groups: Seq<Vec<CheckedExprNode>>)
    ensures
        groups.len() == 0 ==> groups_sites(groups) == (Sites { tags: 0, nevers: 0 }),
        groups.len() > 0 ==> {
            let rest = groups_sites(groups.drop_first());
            let first = exprs_sites(groups[0]@);
            &&& groups_sites(groups).tags == rest.tags + first.tags
            &&& groups_sites(groups).nevers == rest.nevers + first.nevers
        },
{
    reveal_with_fuel(groups_sites, 4);
    reveal_with_fuel(group_sites, 4);
}

/// Widening an anonymous enum costs one check of its own; a cast and a spec
/// coercion, none.
pub proof fn law_widening_costs_one_check(node: CheckedExprNode)
    ensures
        node.kind matches CheckedExpr::AnonymousEnumWiden(inner) ==> expr_sites(node).tags
            == expr_sites(*inner).tags + 1 && expr_sites(node).nevers == expr_sites(
            *inner,
        ).nevers,
        node.kind matches CheckedExpr::Cast(inner) ==> expr_sites(node) == expr_sites(*inner),
        node.kind matches CheckedExpr::SpecCoerce(inner) ==> expr_sites(node) == expr_sites(
            *inner,
        ),
        node.kind matches CheckedExpr::Negate(inner) ==> expr_sites(node) == expr_sites(*inner),
        node.kind matches CheckedExpr::BitNot(inner) ==> expr_sites(node) == expr_sites(*inner),
{
    reveal_with_fuel(expr_sites, 4);
}

proof fn lemma_coercion_counts(steps: Seq<CheckedCoercionStep>)
    ensures
        coercion_sites(steps).tags == count(
            steps,
            |step: CheckedCoercionStep| step is WidenAnonymousEnum,
        ),
        coercion_sites(steps).nevers == 0,
    decreases steps.len(),
{
    if steps.len() > 0 {
        lemma_coercion_counts(steps.drop_last());
    }
}

/// A try operator costs one check of its own and one for each widening of the
/// error it passes on.
pub proof fn law_tries_check_the_tag_and_each_widening(node: CheckedExprNode)
    ensures
        node.kind matches CheckedExpr::Try(attempt) ==> {
            &&& expr_sites(node).tags == expr_sites(*attempt.operand).tags + 1 + count(
                attempt.error_coercion.steps@,
                |step: CheckedCoercionStep| step is WidenAnonymousEnum,
            )
            &&& expr_sites(node).nevers == expr_sites(*attempt.operand).nevers
        },
{
    if let CheckedExpr::Try(attempt) = &node.kind {
        lemma_coercion_counts(attempt.error_coercion.steps@);
    }
}

/// A call is a site of its own exactly where it never comes back, beside those
/// of the callee and of the arguments.
pub proof fn law_calls_that_never_return_are_sites(node: CheckedExprNode)
    ensures
        node.kind matches CheckedExpr::FunctionCall(call) ==> {
            &&& expr_sites(node).tags == expr_sites(*call.callee).tags + exprs_sites(
                call.args@,
            ).tags
            &&& expr_sites(node).nevers == expr_sites(*call.callee).nevers + exprs_sites(
                call.args@,
            ).nevers + if *call.fn_type.return_type == ResolvedType::Never {
                1nat
            } else {
                0nat
            }
        },
        node.kind matches CheckedExpr::DynamicCall(call) ==> {
            &&& expr_sites(node).tags == place_sites(call.base).tags + exprs_sites(
                call.args@,
            ).tags
            &&& expr_sites(node).nevers == place_sites(call.base).nevers + exprs_sites(
                call.args@,
            ).nevers + if *call.fn_type.return_type == ResolvedType::Never {
                1nat
            } else {
                0nat
            }
        },
{
    reveal_with_fuel(expr_sites, 4);
}

/// Expressions in a list cost what they cost one by one, wherever the list is
/// cut.
pub proof fn law_lists_add_up(a: Seq<CheckedExprNode>, b: Seq<CheckedExprNode>)
    ensures
        exprs_sites(a + b).tags == exprs_sites(a).tags + exprs_sites(b).tags,
        exprs_sites(a + b).nevers == exprs_sites(a).nevers + exprs_sites(b).nevers,
        a.len() == 0 ==> exprs_sites(a) == (Sites { tags: 0, nevers: 0 }),
        a.len() == 1 ==> exprs_sites(a) == expr_sites(a[0]),
    decreases a.len(),
{
    reveal_with_fuel(exprs_sites, 4);
    if a.len() == 0 {
        assert(a + b =~= b);
    } else {
        law_lists_add_up(a.drop_first(), b);
        assert((a + b).drop_first() =~= a.drop_first() + b);
        if a.len() == 1 {
            assert(a.drop_first() =~= Seq::empty());
        }
    }
}

/// Nothing an operator, an assignment, a literal or a choice is made of is
/// passed over.
pub proof fn law_parts_add_up(node: CheckedExprNode)
    ensures
        node.kind matches CheckedExpr::BinaryOp(b) ==> {
            &&& expr_sites(node).tags == expr_sites(*b.left).tags + expr_sites(*b.right).tags
            &&& expr_sites(node).nevers == expr_sites(*b.left).nevers + expr_sites(
                *b.right,
            ).nevers
        },
        node.kind matches CheckedExpr::Assignment(a) ==> {
            &&& expr_sites(node).tags == place_sites(a.target).tags + expr_sites(*a.value).tags
            &&& expr_sites(node).nevers == place_sites(a.target).nevers + expr_sites(
                *a.value,
            ).nevers
        },
        node.kind matches CheckedExpr::CompoundAssign(a) ==> {
            &&& expr_sites(node).tags == place_sites(a.place).tags + expr_sites(*a.value).tags
            &&& expr_sites(node).nevers == place_sites(a.place).nevers + expr_sites(
                *a.value,
            ).nevers
        },
        node.kind matches CheckedExpr::Codeblock(block) ==> expr_sites(node) == block_sites(
            *block,
        ),
        node.kind matches CheckedExpr::ArrayLiteral(elements) ==> expr_sites(node)
            == exprs_sites(elements@),
        node.kind matches CheckedExpr::Place(place) ==> expr_sites(node) == place_sites(place),
        node.kind matches CheckedExpr::AddressOf(place) ==> expr_sites(node) == place_sites(
            place,
        ),
        node.kind matches CheckedExpr::UnionConstruct(field) ==> expr_sites(node) == expr_sites(
            field.value,
        ),
        node.kind is Number || node.kind is Bool || node.kind is Char || node.kind is Str
            || node.kind is ByteString || node.kind is Const || node.kind is Sizeof
            || node.kind is Alignof ==> expr_sites(node) == (Sites { tags: 0, nevers: 0 }),
{
    reveal_with_fuel(expr_sites, 4);
    reveal_with_fuel(field_value_sites, 4);
}

/// The values of fields cost what they cost one by one.
pub proof fn law_field_values_add_up(fields: Seq<CheckedFieldValue>)
    ensures
        field_values_sites(fields).tags == exprs_sites(
            fields.map_values(|field: CheckedFieldValue| field.value),
        ).tags,
        field_values_sites(fields).nevers == exprs_sites(
            fields.map_values(|field: CheckedFieldValue| field.value),
        ).nevers,
    decreases fields.len(),
{
    reveal_with_fuel(field_values_sites, 4);
    reveal_with_fuel(field_value_sites, 4);
    reveal_with_fuel(exprs_sites, 4);
    if fields.len() > 0 {
        law_field_values_add_up(fields.drop_first());
        let values = fields.map_values(|field: CheckedFieldValue| field.value);
        assert(values.drop_first() =~= fields.drop_first().map_values(
            |field: CheckedFieldValue| field.value,
        ));
    }
}

/// A literal of a struct and the fields of a variant cost what their values
/// cost.
pub proof fn law_literals_cost_their_values(node: CheckedExprNode)
    ensures
        node.kind matches CheckedExpr::StructLiteral(fields) ==> expr_sites(node)
            == field_values_sites(fields@),
        node.kind matches CheckedExpr::EnumConstruct(fields) ==> expr_sites(node)
            == field_values_sites(fields@),
{
}

/// A choice costs what each of its conditions and each of its bodies costs,
/// the last one included.
pub proof fn law_choices_add_up(node: CheckedExprNode, branches: Seq<CheckedBranch>)
    ensures
        node.kind matches CheckedExpr::If(choice) ==> {
            &&& choice.else_branch is None ==> expr_sites(node) == branches_sites(
                choice.branches@,
            )
            &&& choice.else_branch matches Some(block) ==> expr_sites(node).tags
                == branches_sites(choice.branches@).tags + block_sites(*block).tags
                && expr_sites(node).nevers == branches_sites(choice.branches@).nevers
                + block_sites(*block).nevers
        },
        branches.len() == 0 ==> branches_sites(branches) == (Sites { tags: 0, nevers: 0 }),
        branches.len() > 0 ==> {
            let rest = branches_sites(branches.drop_first());
            &&& branches_sites(branches).tags == rest.tags + expr_sites(
                branches[0].condition,
            ).tags + block_sites(branches[0].body).tags
            &&& branches_sites(branches).nevers == rest.nevers + expr_sites(
                branches[0].condition,
            ).nevers + block_sites(branches[0].body).nevers
        },
{
    reveal_with_fuel(expr_sites, 4);
    reveal_with_fuel(branches_sites, 4);
    reveal_with_fuel(branch_sites, 4);
}

/// A slice costs what its base and both of its bounds cost.
pub proof fn law_slices_add_up(node: CheckedExprNode)
    ensures
        node.kind matches CheckedExpr::Slice(slice) ==> {
            let base = place_sites(slice.base);
            let start = match slice.start {
                Some(start) => expr_sites(*start),
                None => Sites { tags: 0, nevers: 0 },
            };
            let end = match slice.end {
                CheckedRangeEnd::Open => Sites { tags: 0, nevers: 0 },
                CheckedRangeEnd::Inclusive(end) => expr_sites(*end),
                CheckedRangeEnd::Exclusive(end) => expr_sites(*end),
            };
            &&& expr_sites(node).tags == base.tags + start.tags + end.tags
            &&& expr_sites(node).nevers == base.nevers + start.nevers + end.nevers
        },
{
    reveal_with_fuel(expr_sites, 4);
}

/// A place costs what the expression it starts at and the indices on its way
/// cost.
pub proof fn law_places_add_up(place: CheckedPlace, steps: Seq<CheckedProjection>)
    ensures
        place.root is Variable ==> place_sites(place) == projections_sites(place.projections@),
        place.root matches CheckedPlaceRoot::Expr(root) ==> {
            &&& place_sites(place).tags == expr_sites(*root).tags + projections_sites(
                place.projections@,
            ).tags
            &&& place_sites(place).nevers == expr_sites(*root).nevers + projections_sites(
                place.projections@,
            ).nevers
        },
        steps.len() == 0 ==> projections_sites(steps) == (Sites { tags: 0, nevers: 0 }),
        steps.len() > 0 && !(steps[0] is Index) ==> projections_sites(steps)
            == projections_sites(steps.drop_first()),
        steps.len() > 0 && steps[0] is Index ==> {
            let index = expr_sites(*steps[0]->index_expr);
            let rest = projections_sites(steps.drop_first());
            &&& projections_sites(steps).tags == rest.tags + index.tags
            &&& projections_sites(steps).nevers == rest.nevers + index.nevers
        },
{
    reveal_with_fuel(place_sites, 4);
    reveal_with_fuel(projections_sites, 4);
    reveal_with_fuel(projection_sites, 4);
}

/// A block costs what its statements and its tail cost, in whatever order they
/// stand.
pub proof fn law_blocks_add_up(block: CheckedBlock, a: Seq<CheckedStmt>, b: Seq<CheckedStmt>)
    ensures
        block.tail is None ==> block_sites(block) == stmts_sites(block.stmts@),
        block.tail matches Some(tail) ==> {
            &&& block_sites(block).tags == stmts_sites(block.stmts@).tags + expr_sites(*tail).tags
            &&& block_sites(block).nevers == stmts_sites(block.stmts@).nevers + expr_sites(
                *tail,
            ).nevers
        },
        stmts_sites(a + b).tags == stmts_sites(a).tags + stmts_sites(b).tags,
        stmts_sites(a + b).nevers == stmts_sites(a).nevers + stmts_sites(b).nevers,
        a.len() == 0 ==> stmts_sites(a) == (Sites { tags: 0, nevers: 0 }),
        a.len() == 1 ==> stmts_sites(a) == stmt_sites(a[0]),
    decreases a.len(),
{
    reveal_with_fuel(block_sites, 4);
    reveal_with_fuel(stmts_sites, 4);
    if a.len() == 0 {
        assert(a + b =~= b);
    } else {
        law_blocks_add_up(block, a.drop_first(), b);
        assert((a + b).drop_first() =~= a.drop_first() + b);
        if a.len() == 1 {
            assert(a.drop_first() =~= Seq::empty());
        }
    }
}

/// A statement costs what everything that runs in it costs.
pub proof fn law_statements_add_up(stmt: CheckedStmt)
    ensures
        stmt is Declaration || stmt is Break || stmt is Continue ==> stmt_sites(stmt) == (Sites {
            tags: 0,
            nevers: 0,
        }),
        stmt matches CheckedStmt::Expression(e) ==> stmt_sites(stmt) == expr_sites(e),
        stmt matches CheckedStmt::Return(e) ==> stmt_sites(stmt) == expr_sites(e),
        stmt matches CheckedStmt::Loop(l) ==> stmt_sites(stmt) == block_sites(l.body),
        stmt matches CheckedStmt::Defer(d) ==> stmt_sites(stmt) == block_sites(d.body),
        stmt matches CheckedStmt::While(w) ==> {
            &&& stmt_sites(stmt).tags == expr_sites(w.condition).tags + block_sites(w.body).tags
            &&& stmt_sites(stmt).nevers == expr_sites(w.condition).nevers + block_sites(
                w.body,
            ).nevers
        },
        stmt matches CheckedStmt::For(f) ==> {
            let post = match f.post {
                Some(post) => expr_sites(post),
                None => Sites { tags: 0, nevers: 0 },
            };
            &&& stmt_sites(stmt).tags == stmts_sites(f.init@).tags + expr_sites(
                f.condition,
            ).tags + post.tags + block_sites(f.body).tags
            &&& stmt_sites(stmt).nevers == stmts_sites(f.init@).nevers + expr_sites(
                f.condition,
            ).nevers + post.nevers + block_sites(f.body).nevers
        },
        stmt matches CheckedStmt::InlineAsm(code) ==> stmt_sites(stmt) == descriptors_sites(
            code.descriptors@,
        ),
{
    reveal_with_fuel(stmt_sites, 4);
}

/// A machine-code statement costs what the expressions in its registers cost.
pub proof fn law_registers_add_up(descriptors: Seq<CheckedAsmDescriptor>)
    ensures
        descriptors.len() == 0 ==> descriptors_sites(descriptors) == (Sites {
            tags: 0,
            nevers: 0,
        }),
        descriptors.len() > 0 ==> {
            let rest = descriptors_sites(descriptors.drop_first());
            let first = match descriptors[0].kind {
                CheckedAsmDescriptorKind::Reg { expr, .. } => expr_sites(expr),
                CheckedAsmDescriptorKind::Clobber(_) => Sites { tags: 0, nevers: 0 },
                CheckedAsmDescriptorKind::Memory => Sites { tags: 0, nevers: 0 },
            };
            &&& descriptors_sites(descriptors).tags == rest.tags + first.tags
            &&& descriptors_sites(descriptors).nevers == rest.nevers + first.nevers
        },
{
    reveal_with_fuel(descriptors_sites, 4);
    reveal_with_fuel(descriptor_sites, 4);
}

} // verus!
