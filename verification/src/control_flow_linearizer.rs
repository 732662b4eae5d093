//! Control-flow linearisation: statements become linear HIR nodes, and `break`,
//! `continue`, and `return` become terminators aimed at the right blocks.

use vstd::prelude::*;
use crate::ast::{
    AstNode, DataType, Expression, ExpressionKind, HostFunctionId, MatchArm, NodeKind, Var,
    clone_data_type, data_type_model,
};
use crate::build_hir::{
    has_block, DropCandidate, DropInsertionPoint, DropInsertionType, HirBuildContext, HirBuilderContext, HirGenerationMetadata, ScopeType,
};
use crate::errors::CompilerError;
use crate::expression_linearizer::{
    ExpressionLinearizer, at, lower_expression, lower_expressions, lowered_as,
};
use crate::ids::InternedString;
use crate::nodes::{
    BlockId, CallTarget, ExprKindModel, ExprModel, HirBlock, HirExpr, HirExprKind, HirKind,
    HirMatchArm, HirNode, HirPattern, HirPlace, HirStmt, HirTerminator, PatternModel, PlaceModel,
    exprs_model, expr_model, pattern_model, place_model,
};
use crate::tokens::TextLocation;

verus! {

/// The number of terminator nodes in `nodes`.
pub open spec fn count_terminators(nodes: Seq<HirNode>) -> nat
    decreases nodes.len(),
{
    if nodes.len() == 0 {
        0
    } else {
        count_terminators(nodes.drop_last()) + if nodes.last().is_terminator() { 1nat } else { 0nat }
    }
}

/// The first block of `blocks` with id `id` (meaningful when there is one).
pub open spec fn first_block(blocks: Seq<HirBlock>, id: BlockId) -> HirBlock
    recommends
        has_block(blocks, id),
{
    let i = choose|i: int| 0 <= i < blocks.len() && blocks[i].id == id
        && forall|j: int| 0 <= j < i ==> #[trigger] blocks[j].id != id;
    blocks[i]
}

/// The innermost loop scope's (break target, continue target), if any scope is a loop.
pub open spec fn innermost_loop_targets(scopes: Seq<crate::build_hir::ScopeInfo>) -> Option<(BlockId, BlockId)>
    decreases scopes.len(),
{
    if scopes.len() == 0 {
        None
    } else {
        match scopes.last().scope_type {
            ScopeType::Loop { break_target, continue_target } => Some((break_target, continue_target)),
            _ => innermost_loop_targets(scopes.drop_last()),
        }
    }
}

/// `after` is `before` with one more node id allocated and the build context of node `id`
/// recorded at `location` for the current scope depth; nothing else changed.
pub open spec fn node_recorded(
    before: HirBuilderContext,
    after: HirBuilderContext,
    id: usize,
    location: TextLocation,
) -> bool {
    &&& id == before.node_count()
    &&& after.node_count() == before.node_count() + 1
    &&& after.mapping().build_contexts@ == before.mapping().build_contexts@.insert(
        id,
        HirBuildContext {
            source_location: location,
            original_ast_node: None,
            scope_depth: before.scopes().len() as usize,
            ownership_potential: false,
        },
    )
    &&& after.mapping().source_locations@ == before.mapping().source_locations@.insert(id, location)
    &&& after.mapping().ast_to_hir == before.mapping().ast_to_hir
    &&& after.mapping().hir_to_ast == before.mapping().hir_to_ast
    &&& after.block_count() == before.block_count()
    &&& after.scopes() == before.scopes()
    &&& after.candidates() == before.candidates()
    &&& after.block_list() == before.block_list()
    &&& after.meta() == before.meta()
    &&& after.entry() == before.entry()
    &&& after.table() == before.table()
    &&& after.function() == before.function()
}

// ============================================================================
// Specification of statement linearisation
// ============================================================================

/// The error of a lowering outcome, if it failed.
pub open spec fn error_of<T>(r: Result<T, CompilerError>) -> Option<CompilerError> {
    match r {
        Ok(_) => None,
        Err(e) => Some(e),
    }
}

/// The first of two possible errors in evaluation order.
pub open spec fn first_error(a: Option<CompilerError>, b: Option<CompilerError>) -> Option<CompilerError> {
    match a {
        Some(e) => Some(e),
        None => b,
    }
}

/// The place an assignment target denotes: a variable reference, or a field of a place.
pub open spec fn spec_target_place(target: AstNode) -> Result<PlaceModel, CompilerError>
    decreases target,
{
    match target.kind {
        NodeKind::Rvalue(e) => match e.kind {
            ExpressionKind::Reference(name) => Ok(PlaceModel::Var(name)),
            _ => Err(CompilerError::InvalidAssignmentTargetExpression),
        },
        NodeKind::FieldAccess { base, field } => match spec_target_place(*base) {
            Ok(b) => Ok(PlaceModel::Field { base: Box::new(b), field }),
            Err(e) => Err(e),
        },
        _ => Err(CompilerError::InvalidAssignmentTargetNode),
    }
}

/// The pattern an arm condition converts to: integer and boolean literals, ranges of two
/// lowered bounds, the empty expression as the wildcard, and any other expression as a
/// literal of its lowering.
pub open spec fn spec_convert_pattern(pattern: Expression) -> Result<PatternModel, CompilerError> {
    match pattern.kind {
        ExpressionKind::Int(v) => Ok(PatternModel::Literal(at(ExprKindModel::Int(v), pattern.location))),
        ExpressionKind::Bool(v) => Ok(PatternModel::Literal(at(ExprKindModel::Bool(v), pattern.location))),
        ExpressionKind::Range(start, end) => match lower_expression(*start) {
            Ok(s) => match lower_expression(*end) {
                Ok(e) => Ok(PatternModel::Range { start: s, end: e }),
                Err(err) => Err(err),
            },
            Err(err) => Err(err),
        },
        ExpressionKind::Empty => Ok(PatternModel::Wildcard),
        _ => match lower_expression(pattern) {
            Ok(x) => Ok(PatternModel::Literal(x)),
            Err(err) => Err(err),
        },
    }
}

/// Law: a range arm condition converts to a range pattern that keeps its bounds in order:
/// its start is the lowering of the range's start and its end the lowering of the range's
/// end, the same bounds, in the same order, as the range lowered as a value. It fails
/// exactly when a bound fails, with the start's error first.
pub proof fn lemma_range_pattern_bounds(pattern: Expression, start: Expression, end: Expression)
    requires
        pattern.kind == ExpressionKind::Range(Box::new(start), Box::new(end)),
    ensures
        lower_expression(start) is Ok && lower_expression(end) is Ok ==> {
            &&& spec_convert_pattern(pattern) == Ok::<PatternModel, CompilerError>(
                PatternModel::Range { start: lower_expression(start).unwrap(), end: lower_expression(end).unwrap() },
            )
            &&& lower_expression(pattern) == Ok::<ExprModel, CompilerError>(at(
                ExprKindModel::Range {
                    start: Box::new(lower_expression(start).unwrap()),
                    end: Box::new(lower_expression(end).unwrap()),
                },
                pattern.location,
            ))
        },
        lower_expression(start) matches Err(e) ==> spec_convert_pattern(pattern) == Err::<PatternModel, CompilerError>(e),
        lower_expression(start) is Ok ==> (lower_expression(end) matches Err(e) ==> spec_convert_pattern(pattern) == Err::<
            PatternModel,
            CompilerError,
        >(e)),
{
}

/// Law: literal arm conditions convert to literal patterns of the same value at the
/// condition's location, and the empty condition to the wildcard.
pub proof fn lemma_literal_patterns(pattern: Expression)
    ensures
        pattern.kind matches ExpressionKind::Int(v) ==> spec_convert_pattern(pattern) == Ok::<PatternModel, CompilerError>(
            PatternModel::Literal(at(ExprKindModel::Int(v), pattern.location)),
        ),
        pattern.kind matches ExpressionKind::Bool(v) ==> spec_convert_pattern(pattern) == Ok::<PatternModel, CompilerError>(
            PatternModel::Literal(at(ExprKindModel::Bool(v), pattern.location)),
        ),
        pattern.kind == ExpressionKind::Empty ==> spec_convert_pattern(pattern) == Ok::<PatternModel, CompilerError>(
            PatternModel::Wildcard,
        ),
{
}

/// The first error met while linearizing a statement, in evaluation order; statements the
/// linearizer does not handle produce nothing and never fail.
pub open spec fn stmt_error(node: AstNode) -> Option<CompilerError>
    decreases node,
{
    match node.kind {
        NodeKind::If(cond, then_body, else_body) => first_error(
            error_of(lower_expression(cond)),
            first_error(
                body_error(then_body@),
                match else_body {
                    Some(b) => body_error(b@),
                    None => None,
                },
            ),
        ),
        NodeKind::ForLoop(_, iterator, body) => first_error(error_of(lower_expression(iterator)), body_error(body@)),
        NodeKind::WhileLoop(cond, body) => first_error(error_of(lower_expression(cond)), body_error(body@)),
        NodeKind::Match(scrutinee, arms, default) => first_error(
            error_of(lower_expression(scrutinee)),
            first_error(
                arms_error(arms@),
                match default {
                    Some(b) => body_error(b@),
                    None => None,
                },
            ),
        ),
        NodeKind::Return(values) => error_of(lower_expressions(values@)),
        NodeKind::VariableDeclaration(v) => error_of(lower_expression(v.value)),
        NodeKind::Assignment { target, value } => first_error(
            error_of(lower_expression(value)),
            error_of(spec_target_place(*target)),
        ),
        NodeKind::FunctionCall { args, .. } => error_of(lower_expressions(args@)),
        NodeKind::HostFunctionCall { args, .. } => error_of(lower_expressions(args@)),
        NodeKind::Rvalue(e) => error_of(lower_expression(e)),
        _ => None,
    }
}

/// The first error met while linearizing the statements of `body` in order.
pub open spec fn body_error(body: Seq<AstNode>) -> Option<CompilerError>
    decreases body,
{
    if body.len() == 0 {
        None
    } else {
        first_error(body_error(body.drop_last()), stmt_error(body.last()))
    }
}

/// The first error met while linearizing match arms in order: each arm's pattern, then
/// its body.
pub open spec fn arms_error(arms: Seq<MatchArm>) -> Option<CompilerError>
    decreases arms,
{
    if arms.len() == 0 {
        None
    } else {
        first_error(
            arms_error(arms.drop_last()),
            first_error(error_of(spec_convert_pattern(arms.last().condition)), body_error(arms.last().body@)),
        )
    }
}

/// A measure of a statement that bounds both the node ids and the block ids its
/// linearization allocates.
pub open spec fn node_size(node: AstNode) -> nat
    decreases node,
{
    match node.kind {
        NodeKind::If(_, then_body, else_body) => 4 + body_size(then_body@) + match else_body {
            Some(b) => body_size(b@),
            None => 0,
        },
        NodeKind::ForLoop(_, _, body) => 3 + body_size(body@),
        NodeKind::WhileLoop(_, body) => 4 + body_size(body@),
        NodeKind::Match(_, arms, default) => 3 + arms_size(arms@) + match default {
            Some(b) => body_size(b@) + 1,
            None => 0,
        },
        _ => 1,
    }
}

/// The measure of a statement sequence.
pub open spec fn body_size(body: Seq<AstNode>) -> nat
    decreases body,
{
    if body.len() == 0 {
        0
    } else {
        body_size(body.drop_last()) + node_size(body.last()) + 1
    }
}

/// The measure of a sequence of match arms.
pub open spec fn arms_size(arms: Seq<MatchArm>) -> nat
    decreases arms,
{
    if arms.len() == 0 {
        0
    } else {
        arms_size(arms.drop_last()) + body_size(arms.last().body@) + 2
    }
}

/// The generation metadata of `b` is that of `a` with drop insertion points possibly
/// recorded after the existing ones.
pub open spec fn meta_grows(a: HirGenerationMetadata, b: HirGenerationMetadata) -> bool {
    &&& b.temporary_variables == a.temporary_variables
    &&& b.block_hierarchy == a.block_hierarchy
    &&& b.ownership_hints == a.ownership_hints
    &&& b.temp_var_counter == a.temp_var_counter
    &&& a.drop_insertion_points@.len() <= b.drop_insertion_points@.len()
    &&& b.drop_insertion_points@.subrange(0, a.drop_insertion_points@.len() as int) == a.drop_insertion_points@
}

/// `after` extends `before`: counters only grow, the blocks that existed keep their
/// contents, scopes are only pushed, drop insertion points are only recorded after the
/// existing ones, and the rest of the builder state is untouched apart
/// from the build contexts recorded for new nodes.
pub open spec fn extends(before: HirBuilderContext, after: HirBuilderContext) -> bool {
    &&& before.node_count() <= after.node_count()
    &&& before.block_count() <= after.block_count()
    &&& before.block_list().len() <= after.block_list().len()
    &&& forall|i: int| 0 <= i < before.block_list().len() ==> #[trigger] after.block_list()[i] == before.block_list()[i]
    &&& before.scopes().len() <= after.scopes().len()
    &&& after.scopes().subrange(0, before.scopes().len() as int) == before.scopes()
    &&& after.candidates() == before.candidates()
    &&& meta_grows(before.meta(), after.meta())
    &&& after.entry() == before.entry()
    &&& after.table() == before.table()
    &&& after.function() == before.function()
    &&& after.mapping().ast_to_hir == before.mapping().ast_to_hir
    &&& after.mapping().hir_to_ast == before.mapping().hir_to_ast
}

/// Block `i` of `blocks` has id `id` and ends with a terminator.
pub open spec fn ends_in_terminator(blocks: Seq<HirBlock>, i: int, id: BlockId) -> bool {
    &&& 0 <= i < blocks.len()
    &&& blocks[i].id == id
    &&& blocks[i].nodes@.len() > 0
    &&& blocks[i].nodes@.last().is_terminator()
}

/// Some block with id `id` ends with a terminator.
pub open spec fn has_terminated_block(blocks: Seq<HirBlock>, id: BlockId) -> bool {
    exists|i: int| ends_in_terminator(blocks, i, id)
}

/// `nodes` is the single node allocated next at `location`, with nothing else changed
/// but its recorded build context.
pub open spec fn one_node(before: HirBuilderContext, after: HirBuilderContext, nodes: Seq<HirNode>, location: TextLocation) -> bool {
    &&& nodes.len() == 1
    &&& nodes[0].location == location
    &&& node_recorded(before, after, nodes[0].id, location)
}

/// `after` is `before` with the drop insertion point of a return at `location` recorded:
/// one point naming the variables of all drop candidates, in order, when there are any;
/// nothing else changes.
pub open spec fn return_drops(before: HirBuilderContext, after: HirBuilderContext, location: TextLocation) -> bool {
    let d0 = before.meta().drop_insertion_points@;
    let d1 = after.meta().drop_insertion_points@;
    &&& after.node_count() == before.node_count()
    &&& after.block_count() == before.block_count()
    &&& after.scopes() == before.scopes()
    &&& after.candidates() == before.candidates()
    &&& after.block_list() == before.block_list()
    &&& after.mapping() == before.mapping()
    &&& after.entry() == before.entry()
    &&& after.table() == before.table()
    &&& after.function() == before.function()
    &&& after.meta().temporary_variables == before.meta().temporary_variables
    &&& after.meta().block_hierarchy == before.meta().block_hierarchy
    &&& after.meta().ownership_hints == before.meta().ownership_hints
    &&& after.meta().temp_var_counter == before.meta().temp_var_counter
    &&& if before.candidates().len() == 0 {
        d1 == d0
    } else {
        &&& d1.len() == d0.len() + 1
        &&& d1.drop_last() == d0
        &&& d1.last().location == location
        &&& d1.last().insertion_type == DropInsertionType::Return
        &&& d1.last().variables@ == before.candidates().map_values(|c: DropCandidate| c.variable)
    }
}

/// `nodes` is the single return node allocated next at `location`, after the drop
/// insertion point of the return was recorded.
pub open spec fn return_recorded(before: HirBuilderContext, after: HirBuilderContext, nodes: Seq<HirNode>, location: TextLocation) -> bool {
    &&& nodes.len() == 1
    &&& nodes[0].location == location
    &&& exists|mid: HirBuilderContext| #[trigger] return_drops(before, mid, location) && node_recorded(mid, after, nodes[0].id, location)
}

/// Recording the drop point of a return and then one node extends the builder state.
pub proof fn lemma_return_recorded_extends(a: HirBuilderContext, b: HirBuilderContext, nodes: Seq<HirNode>, location: TextLocation)
    requires
        return_recorded(a, b, nodes, location),
    ensures
        extends(a, b),
        nodes[0].id == a.node_count(),
        b.node_count() == a.node_count() + 1,
        b.block_list() == a.block_list(),
        b.block_count() == a.block_count(),
        b.scopes() == a.scopes(),
{
    let mid = choose|mid: HirBuilderContext| #[trigger] return_drops(a, mid, location) && node_recorded(mid, b, nodes[0].id, location);
    assert(b.scopes().subrange(0, a.scopes().len() as int) =~= a.scopes());
    let (d0, d1) = (a.meta().drop_insertion_points@, b.meta().drop_insertion_points@);
    if a.candidates().len() == 0 {
        assert(d1.subrange(0, d0.len() as int) =~= d0);
    } else {
        assert(d1.subrange(0, d0.len() as int) =~= d1.drop_last());
    }
}

/// What a successfully linearized statement yields: the node it hands back to the
/// enclosing block and, for control flow, the blocks it filled.
pub open spec fn stmt_output(node: AstNode, before: HirBuilderContext, after: HirBuilderContext, nodes: Seq<HirNode>) -> bool {
    let bc = before.block_count();
    let bl = before.block_list().len() as int;
    match node.kind {
        NodeKind::Return(values) => return_recorded(before, after, nodes, node.location) && match nodes[0].kind {
            HirKind::Terminator(HirTerminator::Return(vs)) => lower_expressions(values@) == Ok::<
                Seq<ExprModel>,
                CompilerError,
            >(exprs_model(vs@)),
            _ => false,
        },
        NodeKind::VariableDeclaration(v) => one_node(before, after, nodes, node.location) && match nodes[0].kind {
            HirKind::Stmt(HirStmt::Assign { target, value, is_mutable }) => place_model(target) == PlaceModel::Var(v.id)
                && lower_expression(v.value) == Ok::<ExprModel, CompilerError>(expr_model(value))
                && is_mutable == v.value.ownership.spec_is_mutable(),
            _ => false,
        },
        NodeKind::Assignment { target, value } => one_node(before, after, nodes, node.location) && match nodes[0].kind {
            HirKind::Stmt(HirStmt::Assign { target: t, value: x, is_mutable }) => spec_target_place(*target) == Ok::<
                PlaceModel,
                CompilerError,
            >(place_model(t)) && lower_expression(value) == Ok::<ExprModel, CompilerError>(expr_model(x)) && is_mutable,
            _ => false,
        },
        NodeKind::FunctionCall { name, args, location } => one_node(before, after, nodes, location) && match nodes[0].kind {
            HirKind::Stmt(HirStmt::Call { target, args: xs }) => target == CallTarget::UserFunction(name)
                && lower_expressions(args@) == Ok::<Seq<ExprModel>, CompilerError>(exprs_model(xs@)),
            _ => false,
        },
        NodeKind::HostFunctionCall { host_function_id, args, location } => one_node(before, after, nodes, location)
            && match nodes[0].kind {
            HirKind::Stmt(HirStmt::Call { target, args: xs }) => target == CallTarget::HostFunction(host_function_id)
                && lower_expressions(args@) == Ok::<Seq<ExprModel>, CompilerError>(exprs_model(xs@)),
            _ => false,
        },
        NodeKind::Rvalue(e) => one_node(before, after, nodes, node.location) && match nodes[0].kind {
            HirKind::Stmt(HirStmt::ExprStmt(x)) => lower_expression(e) == Ok::<ExprModel, CompilerError>(expr_model(x)),
            _ => false,
        },
        NodeKind::If(cond, _, else_body) => {
            let merge = if else_body is Some { (bc + 2) as usize } else { (bc + 1) as usize };
            let merge_index = if else_body is Some { bl + 2 } else { bl + 1 };
            &&& nodes.len() == 1
            &&& nodes[0].id == before.node_count()
            &&& nodes[0].location == node.location
            &&& match nodes[0].kind {
                HirKind::Terminator(HirTerminator::If { condition, then_block, else_block }) => {
                    &&& lower_expression(cond) == Ok::<ExprModel, CompilerError>(expr_model(condition))
                    &&& then_block == bc
                    &&& else_block == if else_body is Some { Some((bc + 1) as usize) } else { None::<usize> }
                },
                _ => false,
            }
            &&& ends_in_terminator(after.block_list(), bl, bc as usize)
            &&& else_body is Some ==> ends_in_terminator(after.block_list(), bl + 1, (bc + 1) as usize)
            &&& branch_filled(before, after, after.block_list()[bl].nodes@, merge, false)
            &&& else_body is Some ==> branch_filled(before, after, after.block_list()[bl + 1].nodes@, merge, false)
            &&& merge_index < after.block_list().len()
            &&& after.block_list()[merge_index].id == merge
            &&& after.block_list()[merge_index].nodes@ == Seq::<HirNode>::empty()
        },
        NodeKind::ForLoop(binding, iterator, _) => {
            &&& nodes.len() == 1
            &&& nodes[0].id == before.node_count()
            &&& nodes[0].location == node.location
            &&& match nodes[0].kind {
                HirKind::Terminator(HirTerminator::Loop { label, binding: b, iterator: it, body, index_binding }) => {
                    &&& label == bc + 1
                    &&& body == bc
                    &&& index_binding is None
                    &&& b matches Some((name, dt)) && name == binding.id && data_type_model(dt) == data_type_model(
                        binding.value.data_type,
                    )
                    &&& it matches Some(x) && lower_expression(iterator) == Ok::<ExprModel, CompilerError>(expr_model(x))
                },
                _ => false,
            }
            &&& ends_in_terminator(after.block_list(), bl, bc as usize)
            &&& branch_filled(before, after, after.block_list()[bl].nodes@, bc as usize, true)
            &&& bl + 1 < after.block_list().len()
            &&& after.block_list()[bl + 1].id == bc + 1
            &&& after.block_list()[bl + 1].nodes@ == Seq::<HirNode>::empty()
        },
        NodeKind::WhileLoop(cond, _) => {
            &&& nodes.len() == 1
            &&& nodes[0].id == before.node_count()
            &&& nodes[0].location == node.location
            &&& nodes[0].kind == HirKind::Terminator(HirTerminator::Break { target: bc as usize })
            &&& bl + 1 < after.block_list().len()
            &&& after.block_list()[bl].id == bc
            &&& after.block_list()[bl].nodes@.len() == 1
            &&& match after.block_list()[bl].nodes@[0].kind {
                HirKind::Terminator(HirTerminator::If { condition, then_block, else_block }) => {
                    &&& lower_expression(cond) == Ok::<ExprModel, CompilerError>(expr_model(condition))
                    &&& then_block == bc + 1
                    &&& else_block == Some((bc + 2) as usize)
                },
                _ => false,
            }
            &&& ends_in_terminator(after.block_list(), bl + 1, (bc + 1) as usize)
            &&& branch_filled(before, after, after.block_list()[bl + 1].nodes@, bc as usize, true)
            &&& bl + 2 < after.block_list().len()
            &&& after.block_list()[bl + 2].id == bc + 2
            &&& after.block_list()[bl + 2].nodes@ == Seq::<HirNode>::empty()
        },
        NodeKind::Match(scrutinee, arms, default) => {
            &&& nodes.len() == 1
            &&& nodes[0].id + 1 == after.node_count()
            &&& nodes[0].location == node.location
            &&& match nodes[0].kind {
                HirKind::Terminator(HirTerminator::Match { scrutinee: s, arms: hir_arms, default_block }) => {
                    &&& lower_expression(scrutinee) == Ok::<ExprModel, CompilerError>(expr_model(s))
                    &&& hir_arms@.len() == arms@.len()
                    &&& forall|i: int| 0 <= i < arms@.len() ==> {
                        &&& spec_convert_pattern(#[trigger] arms@[i].condition) == Ok::<PatternModel, CompilerError>(
                            pattern_model(hir_arms@[i].pattern),
                        )
                        &&& hir_arms@[i].guard is None
                        &&& has_terminated_block(after.block_list(), hir_arms@[i].body)
                    }
                    &&& default is Some <==> default_block is Some
                    &&& default_block matches Some(d) ==> has_terminated_block(after.block_list(), d)
                    &&& arm_blocks_fresh(before, after, hir_arms@, default_block)
                },
                _ => false,
            }
        },
        _ => nodes.len() == 0 && after == before,
    }
}

/// Every node of `nodes` has an id allocated between `before` and `after`, in increasing
/// order.
pub open spec fn fresh_ids(before: HirBuilderContext, after: HirBuilderContext, nodes: Seq<HirNode>) -> bool {
    &&& forall|k: int| 0 <= k < nodes.len() ==> before.node_count() <= #[trigger] nodes[k].id < after.node_count()
    &&& forall|j: int, k: int| 0 <= j < k < nodes.len() ==> #[trigger] nodes[j].id < #[trigger] nodes[k].id
}

/// Extension is reflexive.
pub proof fn lemma_extends_refl(c: HirBuilderContext)
    ensures
        extends(c, c),
{
    assert(c.scopes().subrange(0, c.scopes().len() as int) =~= c.scopes());
    assert(c.meta().drop_insertion_points@.subrange(0, c.meta().drop_insertion_points@.len() as int)
        =~= c.meta().drop_insertion_points@);
}

/// Extension is transitive.
pub proof fn lemma_extends_trans(a: HirBuilderContext, b: HirBuilderContext, c: HirBuilderContext)
    requires
        extends(a, b),
        extends(b, c),
    ensures
        extends(a, c),
{
    assert forall|i: int| 0 <= i < a.block_list().len() implies #[trigger] c.block_list()[i] == a.block_list()[i] by {
        assert(c.block_list()[i] == b.block_list()[i]);
    }
    assert(c.scopes().subrange(0, a.scopes().len() as int) =~= b.scopes().subrange(0, a.scopes().len() as int));
    let (da, db, dc) = (a.meta().drop_insertion_points@, b.meta().drop_insertion_points@, c.meta().drop_insertion_points@);
    assert(dc.subrange(0, da.len() as int) =~= db.subrange(0, da.len() as int));
}

/// Allocating one node extends the builder state.
pub proof fn lemma_node_recorded_extends(a: HirBuilderContext, b: HirBuilderContext, id: usize, location: TextLocation)
    requires
        node_recorded(a, b, id, location),
    ensures
        extends(a, b),
{
    assert(b.scopes().subrange(0, a.scopes().len() as int) =~= a.scopes());
    lemma_extends_refl(a);
}

/// `before` and `after` agree on everything but the blocks.
pub open spec fn same_but_blocks(before: HirBuilderContext, after: HirBuilderContext) -> bool {
    &&& after.node_count() == before.node_count()
    &&& after.block_count() == before.block_count()
    &&& after.scopes() == before.scopes()
    &&& after.candidates() == before.candidates()
    &&& after.meta() == before.meta()
    &&& after.mapping() == before.mapping()
    &&& after.entry() == before.entry()
    &&& after.table() == before.table()
    &&& after.function() == before.function()
}

/// `after` extends `before` except that block `index` may have gained nodes at its end.
pub open spec fn extends_except(before: HirBuilderContext, after: HirBuilderContext, index: int) -> bool {
    &&& before.node_count() <= after.node_count()
    &&& before.block_count() <= after.block_count()
    &&& before.block_list().len() <= after.block_list().len()
    &&& forall|i: int| 0 <= i < before.block_list().len() && i != index ==> #[trigger] after.block_list()[i] == before.block_list()[i]
    &&& 0 <= index < before.block_list().len() ==> after.block_list()[index].id == before.block_list()[index].id
    &&& before.scopes().len() <= after.scopes().len()
    &&& after.scopes().subrange(0, before.scopes().len() as int) == before.scopes()
    &&& after.candidates() == before.candidates()
    &&& meta_grows(before.meta(), after.meta())
    &&& after.entry() == before.entry()
    &&& after.table() == before.table()
    &&& after.function() == before.function()
    &&& after.mapping().ast_to_hir == before.mapping().ast_to_hir
    &&& after.mapping().hir_to_ast == before.mapping().hir_to_ast
}

/// In a well-formed context, the block at `i` is the only one with its id.
pub proof fn lemma_first_block_unique(c: HirBuilderContext, i: int)
    requires
        c.wf(),
        0 <= i < c.block_list().len(),
    ensures
        has_block(c.block_list(), c.block_list()[i].id),
        first_block(c.block_list(), c.block_list()[i].id) == c.block_list()[i],
        forall|j: int| 0 <= j < c.block_list().len() && #[trigger] c.block_list()[j].id == c.block_list()[i].id ==> j == i,
{
    let blocks = c.block_list();
    let id = blocks[i].id;
    assert forall|j: int| 0 <= j < blocks.len() && #[trigger] blocks[j].id == id implies j == i by {
        if j < i {
            assert(blocks[j].id != blocks[i].id);
        } else if i < j {
            assert(blocks[i].id != blocks[j].id);
        }
    }
    assert(blocks[i].id == id && forall|j: int| 0 <= j < i ==> #[trigger] blocks[j].id != id);
    let k = choose|k: int| 0 <= k < blocks.len() && blocks[k].id == id
        && forall|j: int| 0 <= j < k ==> #[trigger] blocks[j].id != id;
    assert(k == i);
}

/// A block created after `a` lies beyond `a`'s blocks, so changing it keeps `a`'s blocks.
pub proof fn lemma_extends_except_beyond(a: HirBuilderContext, b: HirBuilderContext, c: HirBuilderContext, index: int)
    requires
        extends(a, b),
        extends_except(b, c, index),
        index >= a.block_list().len(),
    ensures
        extends(a, c),
{
    assert forall|i: int| 0 <= i < a.block_list().len() implies #[trigger] c.block_list()[i] == a.block_list()[i] by {
        assert(c.block_list()[i] == b.block_list()[i]);
    }
    assert(c.scopes().subrange(0, a.scopes().len() as int) =~= b.scopes().subrange(0, a.scopes().len() as int));
    let (da, db, dc) = (a.meta().drop_insertion_points@, b.meta().drop_insertion_points@, c.meta().drop_insertion_points@);
    assert(dc.subrange(0, da.len() as int) =~= db.subrange(0, da.len() as int));
}

/// The measure of a prefix of a body grows by the next statement's measure plus one and
/// never exceeds the measure of the whole body.
pub proof fn lemma_body_size_prefix(body: Seq<AstNode>, k: int)
    requires
        0 <= k < body.len(),
    ensures
        body_size(body.take(k + 1)) == body_size(body.take(k)) + node_size(body[k]) + 1,
        body_size(body.take(k + 1)) <= body_size(body),
    decreases body.len(),
{
    assert(body.take(k + 1).drop_last() =~= body.take(k));
    if k + 1 < body.len() {
        assert(body.drop_last().take(k + 1) =~= body.take(k + 1));
        assert(body.drop_last().take(k) =~= body.take(k));
        lemma_body_size_prefix(body.drop_last(), k);
    } else {
        assert(body.take(k + 1) =~= body);
    }
}

/// Once a prefix of a body fails, the whole body fails with the same error.
pub proof fn lemma_body_error_prefix(body: Seq<AstNode>, k: int)
    requires
        0 <= k <= body.len(),
        body_error(body.take(k)) is Some,
    ensures
        body_error(body) == body_error(body.take(k)),
    decreases body.len(),
{
    if k == body.len() {
        assert(body.take(k) =~= body);
    } else {
        assert(body.drop_last().take(k) =~= body.take(k));
        lemma_body_error_prefix(body.drop_last(), k);
    }
}

/// The measure of a prefix of the arms grows by the next arm's body measure plus two and
/// never exceeds the measure of all arms.
pub proof fn lemma_arms_size_prefix(arms: Seq<MatchArm>, k: int)
    requires
        0 <= k < arms.len(),
    ensures
        arms_size(arms.take(k + 1)) == arms_size(arms.take(k)) + body_size(arms[k].body@) + 2,
        arms_size(arms.take(k + 1)) <= arms_size(arms),
    decreases arms.len(),
{
    assert(arms.take(k + 1).drop_last() =~= arms.take(k));
    if k + 1 < arms.len() {
        assert(arms.drop_last().take(k + 1) =~= arms.take(k + 1));
        assert(arms.drop_last().take(k) =~= arms.take(k));
        lemma_arms_size_prefix(arms.drop_last(), k);
    } else {
        assert(arms.take(k + 1) =~= arms);
    }
}

/// Once a prefix of the arms fails, all arms fail with the same error.
pub proof fn lemma_arms_error_prefix(arms: Seq<MatchArm>, k: int)
    requires
        0 <= k <= arms.len(),
        arms_error(arms.take(k)) is Some,
    ensures
        arms_error(arms) == arms_error(arms.take(k)),
    decreases arms.len(),
{
    if k == arms.len() {
        assert(arms.take(k) =~= arms);
    } else {
        assert(arms.drop_last().take(k) =~= arms.take(k));
        lemma_arms_error_prefix(arms.drop_last(), k);
    }
}

/// `ctx` can linearize `node`: it is well formed and has room for the ids the statement
/// may allocate.
pub open spec fn stmt_ready(node: AstNode, ctx: HirBuilderContext) -> bool {
    &&& ctx.wf()
    &&& ctx.node_count() + node_size(node) <= usize::MAX
    &&& ctx.block_count() + node_size(node) <= usize::MAX
}

/// The outcome of linearizing `node` from `before`: the builder state grows within the
/// statement's measure and stays well formed; the statement fails exactly with its first
/// error, and otherwise restores the scopes and yields `stmt_output` with fresh ids.
pub open spec fn stmt_linearized(
    node: AstNode,
    before: HirBuilderContext,
    after: HirBuilderContext,
    r: Result<Vec<HirNode>, CompilerError>,
) -> bool {
    &&& after.wf()
    &&& extends(before, after)
    &&& after.node_count() <= before.node_count() + node_size(node)
    &&& after.block_count() <= before.block_count() + node_size(node)
    &&& match stmt_error(node) {
        Some(e) => r == Err::<Vec<HirNode>, CompilerError>(e),
        None => r matches Ok(nodes) && after.scopes() == before.scopes() && stmt_output(node, before, after, nodes@)
            && fresh_ids(before, after, nodes@),
    }
}

/// The nodes of a body: the outputs of its statements, in order.
pub open spec fn concat_outputs(outs: Seq<Vec<HirNode>>) -> Seq<HirNode>
    decreases outs.len(),
{
    if outs.len() == 0 {
        Seq::empty()
    } else {
        concat_outputs(outs.drop_last()) + outs.last()@
    }
}

/// Each statement of `body` linearizes from state `ctxs[k]` to state `ctxs[k + 1]` with
/// output `outs[k]`.
pub open spec fn body_steps(body: Seq<AstNode>, ctxs: Seq<HirBuilderContext>, outs: Seq<Vec<HirNode>>) -> bool {
    &&& ctxs.len() == body.len() + 1
    &&& outs.len() == body.len()
    &&& forall|k: int| 0 <= k < body.len() ==> #[trigger] stmt_linearized(
        body[k],
        ctxs[k],
        ctxs[k + 1],
        Ok::<Vec<HirNode>, CompilerError>(outs[k]),
    )
}

/// The nodes a block holds after a body is lowered into it: the nodes it held, the body's
/// nodes, and, when these do not end in a terminator, one terminator continuing at
/// `fallthrough` (a `continue` when `continues`, a jump otherwise).
pub open spec fn fills(old_nodes: Seq<HirNode>, body_nodes: Seq<HirNode>, result: Seq<HirNode>, fallthrough: BlockId, continues: bool) -> bool {
    let both = old_nodes + body_nodes;
    if both.len() > 0 && both.last().is_terminator() {
        result == both
    } else {
        &&& result.len() == both.len() + 1
        &&& result.drop_last() == both
        &&& result.last().kind == if continues {
            HirKind::Terminator(HirTerminator::Continue { target: fallthrough })
        } else {
            HirKind::Terminator(HirTerminator::Break { target: fallthrough })
        }
    }
}

/// A block that held `old_nodes` holds `result` after `body` was lowered into it: its old
/// nodes, the outputs of the body's statements in order (each a lowering of its statement),
/// and a terminator continuing at `fallthrough` when these do not end in one.
pub open spec fn block_filled(old_nodes: Seq<HirNode>, result: Seq<HirNode>, body: Seq<AstNode>, fallthrough: BlockId, continues: bool) -> bool {
    exists|ctxs: Seq<HirBuilderContext>, outs: Seq<Vec<HirNode>>|
        #[trigger] body_steps(body, ctxs, outs) && fills(old_nodes, concat_outputs(outs), result, fallthrough, continues)
}

/// A block filled by the outputs of a body's statements is a filled block.
pub proof fn lemma_block_filled_intro(
    old_nodes: Seq<HirNode>,
    result: Seq<HirNode>,
    body: Seq<AstNode>,
    fallthrough: BlockId,
    continues: bool,
    ctxs: Seq<HirBuilderContext>,
    outs: Seq<Vec<HirNode>>,
)
    requires
        body_steps(body, ctxs, outs),
        fills(old_nodes, concat_outputs(outs), result, fallthrough, continues),
    ensures
        block_filled(old_nodes, result, body, fallthrough, continues),
{
}

/// A fresh block filled by a body: some nodes allocated between `before` and `after`, in
/// increasing order, followed by a terminator continuing at `fallthrough` (a `continue`
/// when `continues`, a jump otherwise) when they do not end in a terminator.
pub open spec fn branch_filled(before: HirBuilderContext, after: HirBuilderContext, result: Seq<HirNode>, fallthrough: BlockId, continues: bool) -> bool {
    exists|body_nodes: Seq<HirNode>| #[trigger] fills(Seq::empty(), body_nodes, result, fallthrough, continues)
        && fresh_ids(before, after, body_nodes)
}

/// Some block of `after` has id `id` and is a fresh block filled by a body that falls
/// through to `fallthrough`.
pub open spec fn block_with_id_filled(before: HirBuilderContext, after: HirBuilderContext, id: BlockId, fallthrough: BlockId) -> bool {
    exists|j: int| 0 <= j < after.block_list().len() && (#[trigger] after.block_list()[j]).id == id
        && branch_filled(before, after, after.block_list()[j].nodes@, fallthrough, false)
}

/// Ids allocated between two states are allocated between any earlier and later ones.
pub proof fn lemma_fresh_ids_widen(a: HirBuilderContext, b: HirBuilderContext, c: HirBuilderContext, d: HirBuilderContext, nodes: Seq<HirNode>)
    requires
        fresh_ids(b, c, nodes),
        a.node_count() <= b.node_count(),
        c.node_count() <= d.node_count(),
    ensures
        fresh_ids(a, d, nodes),
{
}

/// The blocks of a match: a fresh empty merge block (the first block created), and fresh
/// arm blocks with increasing ids, then the default block, each filled by its body and
/// jumping to the merge block when the body does not end in a terminator.
pub open spec fn arm_blocks_fresh(before: HirBuilderContext, after: HirBuilderContext, arms: Seq<HirMatchArm>, default_block: Option<BlockId>) -> bool {
    let bc = before.block_count();
    let bl = before.block_list().len() as int;
    &&& bl < after.block_list().len()
    &&& after.block_list()[bl].id == bc
    &&& after.block_list()[bl].nodes@ == Seq::<HirNode>::empty()
    &&& forall|k: int| 0 <= k < arms.len() ==> {
        &&& bc < (#[trigger] arms[k]).body < after.block_count()
        &&& block_with_id_filled(before, after, arms[k].body, bc as usize)
    }
    &&& forall|j: int, k: int| 0 <= j < k < arms.len() ==> (#[trigger] arms[j]).body < (#[trigger] arms[k]).body
    &&& default_block matches Some(d) ==> {
        &&& bc < d < after.block_count()
        &&& block_with_id_filled(before, after, d, bc as usize)
        &&& forall|k: int| 0 <= k < arms.len() ==> (#[trigger] arms[k]).body < d
    }
}

/// A filled block stays filled while later states only add blocks, nodes, or change a
/// block created after it.
pub proof fn lemma_filled_persists(before: HirBuilderContext, a: HirBuilderContext, b: HirBuilderContext, id: BlockId, fall: BlockId, idx: int)
    requires
        block_with_id_filled(before, a, id, fall),
        extends_except(a, b, idx),
        !(0 <= idx < a.block_list().len() && a.block_list()[idx].id == id),
    ensures
        block_with_id_filled(before, b, id, fall),
{
    let j = choose|j: int| 0 <= j < a.block_list().len() && (#[trigger] a.block_list()[j]).id == id
        && branch_filled(before, a, a.block_list()[j].nodes@, fall, false);
    let body_nodes = choose|body_nodes: Seq<HirNode>| #[trigger] fills(Seq::empty(), body_nodes, a.block_list()[j].nodes@, fall, false)
        && fresh_ids(before, a, body_nodes);
    assert(b.block_list()[j] == a.block_list()[j]);
    assert(fills(Seq::empty(), body_nodes, b.block_list()[j].nodes@, fall, false) && fresh_ids(before, b, body_nodes));
    assert(branch_filled(before, b, b.block_list()[j].nodes@, fall, false));
}

/// Blocks filled before a new block was created and filled stay filled.
pub proof fn lemma_blocks_filled_persist(
    before: HirBuilderContext,
    t0: HirBuilderContext,
    t1: HirBuilderContext,
    t2: HirBuilderContext,
    ids: Seq<BlockId>,
    fall: BlockId,
    idx: int,
)
    requires
        extends(t0, t1),
        extends_except(t1, t2, idx),
        idx == t0.block_list().len(),
        idx < t1.block_list().len(),
        forall|k: int| 0 <= k < ids.len() ==> {
            &&& (#[trigger] ids[k]) < t1.block_list()[idx].id
            &&& block_with_id_filled(before, t0, ids[k], fall)
        },
    ensures
        forall|k: int| 0 <= k < ids.len() ==> block_with_id_filled(before, t2, #[trigger] ids[k], fall),
{
    lemma_extends_is_except(t0, t1);
    assert forall|k: int| 0 <= k < ids.len() implies block_with_id_filled(before, t2, #[trigger] ids[k], fall) by {
        lemma_filled_persists(before, t0, t1, ids[k], fall, idx);
        lemma_filled_persists(before, t1, t2, ids[k], fall, idx);
    }
}

/// Extension is extension except at a block beyond the existing ones.
pub proof fn lemma_extends_is_except(a: HirBuilderContext, b: HirBuilderContext)
    requires
        extends(a, b),
    ensures
        extends_except(a, b, a.block_list().len() as int),
{
}

/// The optional body a reference denotes.
pub open spec fn opt_body(b: Option<&Vec<AstNode>>) -> Option<Vec<AstNode>> {
    match b {
        Some(v) => Some(*v),
        None => None,
    }
}

/// The `if` statement with these parts.
pub open spec fn if_node(condition: Expression, then_body: Vec<AstNode>, else_body: Option<Vec<AstNode>>, location: TextLocation) -> AstNode {
    AstNode { kind: NodeKind::If(condition, then_body, else_body), location }
}

/// The `for` loop with these parts.
pub open spec fn for_node(binding: Var, iterator: Expression, body: Vec<AstNode>, location: TextLocation) -> AstNode {
    AstNode { kind: NodeKind::ForLoop(Box::new(binding), iterator, body), location }
}

/// The `while` loop with these parts.
pub open spec fn while_node(condition: Expression, body: Vec<AstNode>, location: TextLocation) -> AstNode {
    AstNode { kind: NodeKind::WhileLoop(condition, body), location }
}

/// The `match` statement with these parts.
pub open spec fn match_node(scrutinee: Expression, arms: Vec<MatchArm>, default: Option<Vec<AstNode>>, location: TextLocation) -> AstNode {
    AstNode { kind: NodeKind::Match(scrutinee, arms, default), location }
}

/// Creating a block extends the builder state and puts the new block at the end.
pub proof fn lemma_create_block_extends(a: HirBuilderContext, b: HirBuilderContext)
    requires
        b.block_count() == a.block_count() + 1,
        b.block_list().len() == a.block_list().len() + 1,
        b.block_list().drop_last() == a.block_list(),
        b.node_count() == a.node_count(),
        b.scopes() == a.scopes(),
        b.candidates() == a.candidates(),
        b.meta() == a.meta(),
        b.mapping() == a.mapping(),
        b.entry() == a.entry(),
        b.table() == a.table(),
        b.function() == a.function(),
    ensures
        extends(a, b),
        forall|i: int| 0 <= i < a.block_list().len() ==> #[trigger] b.block_list()[i] == a.block_list()[i],
{
    assert forall|i: int| 0 <= i < a.block_list().len() implies #[trigger] b.block_list()[i] == a.block_list()[i] by {
        assert(b.block_list().drop_last()[i] == b.block_list()[i]);
    }
    lemma_extends_refl(a);
}

/// Turns statements and control-flow constructs into linear HIR nodes.
#[derive(Debug)]
pub struct ControlFlowLinearizer {
    expr_linearizer: ExpressionLinearizer,
}

impl ControlFlowLinearizer {
    /// The expression linearizer this component uses.
    pub closed spec fn inner(&self) -> ExpressionLinearizer {
        self.expr_linearizer
    }

    /// A linearizer with a fresh expression linearizer.
    pub fn new() -> (l: Self)
        ensures
            l.inner().locals() == Map::<InternedString, crate::nodes::HirExprKind>::empty(),
    {
        ControlFlowLinearizer { expr_linearizer: ExpressionLinearizer::new() }
    }

    /// The expression linearizer.
    pub fn expr_linearizer(&self) -> (e: &ExpressionLinearizer)
        ensures
            *e == self.inner(),
    {
        &self.expr_linearizer
    }

    /// Mutable access to the expression linearizer.
    pub fn expr_linearizer_mut(&mut self) -> (e: &mut ExpressionLinearizer)
        ensures
            *e == old(self).inner(),
            final(self).inner() == *final(e),
    {
        &mut self.expr_linearizer
    }

    /// Allocates a node id, records its build context, and builds the node.
    fn create_node(&self, kind: HirKind, location: TextLocation, ctx: &mut HirBuilderContext) -> (node: HirNode)
        requires
            old(ctx).node_count() < usize::MAX,
        ensures
            node_recorded(*old(ctx), *final(ctx), node.id, location),
            node.kind == kind,
            node.location == location,
            old(ctx).wf() ==> final(ctx).wf(),
    {
        let node_id = ctx.allocate_node_id();
        let build_context = ctx.create_build_context(location);
        ctx.record_node_context(node_id, build_context);
        HirNode { kind, location, id: node_id }
    }

    /// An `if` terminator branching on `condition`.
    fn create_if_terminator(
        &self,
        condition: HirExpr,
        then_block: BlockId,
        else_block: Option<BlockId>,
        location: TextLocation,
        ctx: &mut HirBuilderContext,
    ) -> (node: HirNode)
        requires
            old(ctx).node_count() < usize::MAX,
        ensures
            node_recorded(*old(ctx), *final(ctx), node.id, location),
            node.kind == HirKind::Terminator(HirTerminator::If { condition, then_block, else_block }),
            node.location == location,
            old(ctx).wf() ==> final(ctx).wf(),
    {
        self.create_node(HirKind::Terminator(HirTerminator::If { condition, then_block, else_block }), location, ctx)
    }

    /// A loop terminator over `body_block` that exits to `label`.
    fn create_loop_terminator(
        &self,
        binding: Option<(InternedString, DataType)>,
        iterator: Option<HirExpr>,
        body_block: BlockId,
        label: BlockId,
        index_binding: Option<InternedString>,
        location: TextLocation,
        ctx: &mut HirBuilderContext,
    ) -> (node: HirNode)
        requires
            old(ctx).node_count() < usize::MAX,
        ensures
            node_recorded(*old(ctx), *final(ctx), node.id, location),
            node.kind == HirKind::Terminator(HirTerminator::Loop { label, binding, iterator, body: body_block, index_binding }),
            node.location == location,
            old(ctx).wf() ==> final(ctx).wf(),
    {
        self.create_node(
            HirKind::Terminator(HirTerminator::Loop { label, binding, iterator, body: body_block, index_binding }),
            location,
            ctx,
        )
    }

    /// A match terminator over `scrutinee`.
    fn create_match_terminator(
        &self,
        scrutinee: HirExpr,
        arms: Vec<HirMatchArm>,
        default_block: Option<BlockId>,
        location: TextLocation,
        ctx: &mut HirBuilderContext,
    ) -> (node: HirNode)
        requires
            old(ctx).node_count() < usize::MAX,
        ensures
            node_recorded(*old(ctx), *final(ctx), node.id, location),
            node.kind == HirKind::Terminator(HirTerminator::Match { scrutinee, arms, default_block }),
            node.location == location,
            old(ctx).wf() ==> final(ctx).wf(),
    {
        self.create_node(HirKind::Terminator(HirTerminator::Match { scrutinee, arms, default_block }), location, ctx)
    }

    /// A `return` terminator with `values`.
    fn create_return(&self, values: Vec<HirExpr>, location: TextLocation, ctx: &mut HirBuilderContext) -> (node: HirNode)
        requires
            old(ctx).node_count() < usize::MAX,
        ensures
            node_recorded(*old(ctx), *final(ctx), node.id, location),
            node.kind == HirKind::Terminator(HirTerminator::Return(values)),
            node.location == location,
            old(ctx).wf() ==> final(ctx).wf(),
    {
        self.create_node(HirKind::Terminator(HirTerminator::Return(values)), location, ctx)
    }

    /// A `break` terminator to `target`.
    fn create_break(&self, target: BlockId, location: TextLocation, ctx: &mut HirBuilderContext) -> (node: HirNode)
        requires
            old(ctx).node_count() < usize::MAX,
        ensures
            node_recorded(*old(ctx), *final(ctx), node.id, location),
            node.kind == HirKind::Terminator(HirTerminator::Break { target }),
            node.location == location,
            old(ctx).wf() ==> final(ctx).wf(),
    {
        self.create_node(HirKind::Terminator(HirTerminator::Break { target }), location, ctx)
    }

    /// A `continue` terminator to `target`.
    fn create_continue(&self, target: BlockId, location: TextLocation, ctx: &mut HirBuilderContext) -> (node: HirNode)
        requires
            old(ctx).node_count() < usize::MAX,
        ensures
            node_recorded(*old(ctx), *final(ctx), node.id, location),
            node.kind == HirKind::Terminator(HirTerminator::Continue { target }),
            node.location == location,
            old(ctx).wf() ==> final(ctx).wf(),
    {
        self.create_node(HirKind::Terminator(HirTerminator::Continue { target }), location, ctx)
    }

    /// A jump to `target`; the linear HIR has no separate jump, so a `break` to the block
    /// serves as one.
    fn create_jump_to_block(&self, target: BlockId, location: TextLocation, ctx: &mut HirBuilderContext) -> (node: HirNode)
        requires
            old(ctx).node_count() < usize::MAX,
        ensures
            node_recorded(*old(ctx), *final(ctx), node.id, location),
            node.kind == HirKind::Terminator(HirTerminator::Break { target }),
            node.location == location,
            old(ctx).wf() ==> final(ctx).wf(),
    {
        self.create_node(HirKind::Terminator(HirTerminator::Break { target }), location, ctx)
    }

    /// An assignment statement.
    fn create_assignment(
        &self,
        target: HirPlace,
        value: HirExpr,
        is_mutable: bool,
        location: TextLocation,
        ctx: &mut HirBuilderContext,
    ) -> (node: HirNode)
        requires
            old(ctx).node_count() < usize::MAX,
        ensures
            node_recorded(*old(ctx), *final(ctx), node.id, location),
            node.kind == HirKind::Stmt(HirStmt::Assign { target, value, is_mutable }),
            node.location == location,
            old(ctx).wf() ==> final(ctx).wf(),
    {
        self.create_node(HirKind::Stmt(HirStmt::Assign { target, value, is_mutable }), location, ctx)
    }

    /// A call statement of the user function `target`.
    fn create_call_statement(
        &self,
        target: InternedString,
        args: Vec<HirExpr>,
        location: TextLocation,
        ctx: &mut HirBuilderContext,
    ) -> (node: HirNode)
        requires
            old(ctx).node_count() < usize::MAX,
        ensures
            node_recorded(*old(ctx), *final(ctx), node.id, location),
            node.kind == HirKind::Stmt(HirStmt::Call { target: CallTarget::UserFunction(target), args }),
            node.location == location,
            old(ctx).wf() ==> final(ctx).wf(),
    {
        self.create_node(HirKind::Stmt(HirStmt::Call { target: CallTarget::UserFunction(target), args }), location, ctx)
    }

    /// A call statement of a host function.
    fn create_host_call_statement(
        &self,
        host_function_id: HostFunctionId,
        args: Vec<HirExpr>,
        location: TextLocation,
        ctx: &mut HirBuilderContext,
    ) -> (node: HirNode)
        requires
            old(ctx).node_count() < usize::MAX,
        ensures
            node_recorded(*old(ctx), *final(ctx), node.id, location),
            node.kind == HirKind::Stmt(HirStmt::Call { target: CallTarget::HostFunction(host_function_id), args }),
            node.location == location,
            old(ctx).wf() ==> final(ctx).wf(),
    {
        self.create_node(
            HirKind::Stmt(HirStmt::Call { target: CallTarget::HostFunction(host_function_id), args }),
            location,
            ctx,
        )
    }

    /// An expression statement.
    fn create_expr_statement(&self, expr: HirExpr, location: TextLocation, ctx: &mut HirBuilderContext) -> (node: HirNode)
        requires
            old(ctx).node_count() < usize::MAX,
        ensures
            node_recorded(*old(ctx), *final(ctx), node.id, location),
            node.kind == HirKind::Stmt(HirStmt::ExprStmt(expr)),
            node.location == location,
            old(ctx).wf() ==> final(ctx).wf(),
    {
        self.create_node(HirKind::Stmt(HirStmt::ExprStmt(expr)), location, ctx)
    }

    /// Linearizes `return values`: the values in order, then, before the return, a drop
    /// insertion point naming every drop candidate of the scopes being left (when there is
    /// one), then the terminator.
    pub fn linearize_return(
        &mut self,
        values: &Vec<Expression>,
        location: &TextLocation,
        ctx: &mut HirBuilderContext,
    ) -> (r: Result<Vec<HirNode>, CompilerError>)
        requires
            old(ctx).node_count() < usize::MAX,
        ensures
            *final(self) == *old(self),
            old(ctx).wf() ==> final(ctx).wf(),
            match lower_expressions(values@) {
                Ok(xs) => r matches Ok(nodes) && return_recorded(*old(ctx), *final(ctx), nodes@, *location) && match nodes@[0].kind {
                    HirKind::Terminator(HirTerminator::Return(vs)) => exprs_model(vs@) == xs,
                    _ => false,
                },
                Err(e) => r == Err::<Vec<HirNode>, CompilerError>(e) && *final(ctx) == *old(ctx),
            },
    {
        let (mut nodes, hir_values) = match self.expr_linearizer.linearize_arguments(values, ctx) {
            Ok(x) => x,
            Err(e) => return Err(e),
        };
        let ghost s0 = *ctx;
        let variables = ctx.drop_candidate_variables();
        if variables.len() > 0 {
            ctx.metadata_mut().record_drop_point(
                DropInsertionPoint { location: *location, variables, insertion_type: DropInsertionType::Return },
            );
            assert(ctx.meta().drop_insertion_points@.drop_last() =~= s0.meta().drop_insertion_points@);
        }
        let ghost s1 = *ctx;
        proof {
            assert(return_drops(s0, s1, *location));
        }
        let return_node = self.create_return(hir_values, *location, ctx);
        nodes.push(return_node);
        proof {
            assert(return_drops(*old(ctx), s1, *location) && node_recorded(s1, *ctx, nodes@[0].id, *location));
        }
        Ok(nodes)
    }

    /// Linearizes a variable declaration: the value, then its assignment to the variable,
    /// mutable when the value is held mutably.
    fn linearize_variable_declaration(
        &mut self,
        arg: &Var,
        location: &TextLocation,
        ctx: &mut HirBuilderContext,
    ) -> (r: Result<Vec<HirNode>, CompilerError>)
        requires
            old(ctx).node_count() < usize::MAX,
        ensures
            *final(self) == *old(self),
            old(ctx).wf() ==> final(ctx).wf(),
            match lower_expression(arg.value) {
                Ok(x) => r matches Ok(nodes) && one_node(*old(ctx), *final(ctx), nodes@, *location) && match nodes@[0].kind {
                    HirKind::Stmt(HirStmt::Assign { target, value, is_mutable }) => place_model(target) == PlaceModel::Var(arg.id)
                        && expr_model(value) == x && is_mutable == arg.value.ownership.spec_is_mutable(),
                    _ => false,
                },
                Err(e) => r == Err::<Vec<HirNode>, CompilerError>(e) && *final(ctx) == *old(ctx),
            },
    {
        let (mut nodes, value_expr) = match self.expr_linearizer.linearize_expression(&arg.value, ctx) {
            Ok(x) => x,
            Err(e) => return Err(e),
        };
        let is_mutable = arg.value.ownership.is_mutable();
        let assign_node = self.create_assignment(HirPlace::Var(arg.id), value_expr, is_mutable, *location, ctx);
        nodes.push(assign_node);
        Ok(nodes)
    }

    /// Linearizes an assignment: the value, then the store into the target place.
    fn linearize_assignment(
        &mut self,
        target: &AstNode,
        value: &Expression,
        location: &TextLocation,
        ctx: &mut HirBuilderContext,
    ) -> (r: Result<Vec<HirNode>, CompilerError>)
        requires
            old(ctx).node_count() < usize::MAX,
        ensures
            *final(self) == *old(self),
            old(ctx).wf() ==> final(ctx).wf(),
            match lower_expression(*value) {
                Ok(x) => match spec_target_place(*target) {
                    Ok(p) => r matches Ok(nodes) && one_node(*old(ctx), *final(ctx), nodes@, *location) && match nodes@[0].kind {
                        HirKind::Stmt(HirStmt::Assign { target: t, value: v, is_mutable }) => place_model(t) == p
                            && expr_model(v) == x && is_mutable,
                        _ => false,
                    },
                    Err(e) => r == Err::<Vec<HirNode>, CompilerError>(e) && *final(ctx) == *old(ctx),
                },
                Err(e) => r == Err::<Vec<HirNode>, CompilerError>(e) && *final(ctx) == *old(ctx),
            },
    {
        let (mut nodes, value_expr) = match self.expr_linearizer.linearize_expression(value, ctx) {
            Ok(x) => x,
            Err(e) => return Err(e),
        };
        let hir_place = match self.convert_target_to_place(target) {
            Ok(p) => p,
            Err(e) => return Err(e),
        };
        let assign_node = self.create_assignment(hir_place, value_expr, true, *location, ctx);
        nodes.push(assign_node);
        Ok(nodes)
    }

    /// The place an assignment target denotes (see `spec_target_place`).
    fn convert_target_to_place(&self, target: &AstNode) -> (r: Result<HirPlace, CompilerError>)
        ensures
            match r {
                Ok(p) => spec_target_place(*target) == Ok::<PlaceModel, CompilerError>(place_model(p)),
                Err(e) => spec_target_place(*target) == Err::<PlaceModel, CompilerError>(e),
            },
        decreases target,
    {
        match &target.kind {
            NodeKind::Rvalue(expr) => match &expr.kind {
                ExpressionKind::Reference(name) => Ok(HirPlace::Var(*name)),
                _ => Err(CompilerError::InvalidAssignmentTargetExpression),
            },
            NodeKind::FieldAccess { base, field } => {
                let base_place = match self.convert_target_to_place(base) {
                    Ok(p) => p,
                    Err(e) => return Err(e),
                };
                Ok(HirPlace::Field { base: Box::new(base_place), field: *field })
            },
            _ => Err(CompilerError::InvalidAssignmentTargetNode),
        }
    }

    /// Linearizes a call statement of the user function `name`: the arguments in order,
    /// then the call.
    pub fn linearize_function_call(
        &mut self,
        name: InternedString,
        args: &Vec<Expression>,
        location: &TextLocation,
        ctx: &mut HirBuilderContext,
    ) -> (r: Result<Vec<HirNode>, CompilerError>)
        requires
            old(ctx).node_count() < usize::MAX,
        ensures
            *final(self) == *old(self),
            old(ctx).wf() ==> final(ctx).wf(),
            match lower_expressions(args@) {
                Ok(xs) => r matches Ok(nodes) && one_node(*old(ctx), *final(ctx), nodes@, *location) && match nodes@[0].kind {
                    HirKind::Stmt(HirStmt::Call { target, args: hs }) => target == CallTarget::UserFunction(name)
                        && exprs_model(hs@) == xs,
                    _ => false,
                },
                Err(e) => r == Err::<Vec<HirNode>, CompilerError>(e) && *final(ctx) == *old(ctx),
            },
    {
        let (mut nodes, hir_args) = match self.expr_linearizer.linearize_arguments(args, ctx) {
            Ok(x) => x,
            Err(e) => return Err(e),
        };
        let call_node = self.create_call_statement(name, hir_args, *location, ctx);
        nodes.push(call_node);
        Ok(nodes)
    }

    /// Linearizes a call statement of a host function: the arguments in order, then the
    /// call.
    pub fn linearize_host_function_call(
        &mut self,
        host_function_id: HostFunctionId,
        args: &Vec<Expression>,
        location: &TextLocation,
        ctx: &mut HirBuilderContext,
    ) -> (r: Result<Vec<HirNode>, CompilerError>)
        requires
            old(ctx).node_count() < usize::MAX,
        ensures
            *final(self) == *old(self),
            old(ctx).wf() ==> final(ctx).wf(),
            match lower_expressions(args@) {
                Ok(xs) => r matches Ok(nodes) && one_node(*old(ctx), *final(ctx), nodes@, *location) && match nodes@[0].kind {
                    HirKind::Stmt(HirStmt::Call { target, args: hs }) => target == CallTarget::HostFunction(host_function_id)
                        && exprs_model(hs@) == xs,
                    _ => false,
                },
                Err(e) => r == Err::<Vec<HirNode>, CompilerError>(e) && *final(ctx) == *old(ctx),
            },
    {
        let (mut nodes, hir_args) = match self.expr_linearizer.linearize_arguments(args, ctx) {
            Ok(x) => x,
            Err(e) => return Err(e),
        };
        let call_node = self.create_host_call_statement(host_function_id, hir_args, *location, ctx);
        nodes.push(call_node);
        Ok(nodes)
    }

    /// Linearizes an expression evaluated for its effects: the expression, then an
    /// expression statement.
    fn linearize_expression_statement(
        &mut self,
        expr: &Expression,
        location: &TextLocation,
        ctx: &mut HirBuilderContext,
    ) -> (r: Result<Vec<HirNode>, CompilerError>)
        requires
            old(ctx).node_count() < usize::MAX,
        ensures
            *final(self) == *old(self),
            old(ctx).wf() ==> final(ctx).wf(),
            match lower_expression(*expr) {
                Ok(x) => r matches Ok(nodes) && one_node(*old(ctx), *final(ctx), nodes@, *location) && match nodes@[0].kind {
                    HirKind::Stmt(HirStmt::ExprStmt(e)) => expr_model(e) == x,
                    _ => false,
                },
                Err(e) => r == Err::<Vec<HirNode>, CompilerError>(e) && *final(ctx) == *old(ctx),
            },
    {
        let (mut nodes, hir_expr) = match self.expr_linearizer.linearize_expression(expr, ctx) {
            Ok(x) => x,
            Err(e) => return Err(e),
        };
        let expr_stmt = self.create_expr_statement(hir_expr, *location, ctx);
        nodes.push(expr_stmt);
        Ok(nodes)
    }

    /// Appends `nodes`, in order, to the block at position `index`.
    fn append_to_block(&self, ctx: &mut HirBuilderContext, block_id: BlockId, nodes: Vec<HirNode>, Ghost(index): Ghost<int>)
        requires
            old(ctx).wf(),
            0 <= index < old(ctx).block_list().len(),
            old(ctx).block_list()[index].id == block_id,
        ensures
            final(ctx).wf(),
            same_but_blocks(*old(ctx), *final(ctx)),
            final(ctx).block_list().len() == old(ctx).block_list().len(),
            final(ctx).block_list()[index].id == block_id,
            final(ctx).block_list()[index].nodes@ == old(ctx).block_list()[index].nodes@ + nodes@,
            forall|j: int| 0 <= j < old(ctx).block_list().len() && j != index ==> #[trigger] final(ctx).block_list()[j]
                == old(ctx).block_list()[j],
    {
        let ghost all = nodes@;
        for node in it: nodes
            invariant
                it.seq() == all,
                0 <= index < old(ctx).block_list().len(),
                ctx.wf(),
                same_but_blocks(*old(ctx), *ctx),
                ctx.block_list().len() == old(ctx).block_list().len(),
                ctx.block_list()[index].id == block_id,
                ctx.block_list()[index].nodes@ == old(ctx).block_list()[index].nodes@ + all.take(it.index() as int),
                forall|j: int| 0 <= j < old(ctx).block_list().len() && j != index ==> #[trigger] ctx.block_list()[j]
                    == old(ctx).block_list()[j],
        {
            let ghost k = it.index() as int;
            let ghost before = *ctx;
            proof {
                lemma_first_block_unique(before, index);
                assert(all.take(k + 1) =~= all.take(k).push(node));
            }
            ctx.add_node_to_block(block_id, node);
            proof {
                assert(has_block(before.block_list(), block_id));
            }
        }
        proof {
            assert(all.take(all.len() as int) =~= all);
        }
    }

    /// Linearizes `body` into the block at position `index` inside a new scope of
    /// `scope_type`; when the block does not then end in a terminator, it gets one that
    /// continues at `fallthrough` (a `continue` when `fallthrough_continues`, a jump
    /// otherwise). The scope is left again on success.
    fn linearize_into_block(
        &mut self,
        body: &Vec<AstNode>,
        scope_type: ScopeType,
        block_id: BlockId,
        Ghost(index): Ghost<int>,
        fallthrough: BlockId,
        fallthrough_continues: bool,
        location: TextLocation,
        ctx: &mut HirBuilderContext,
    ) -> (r: Result<(), CompilerError>)
        requires
            old(ctx).wf(),
            0 <= index < old(ctx).block_list().len(),
            old(ctx).block_list()[index].id == block_id,
            old(ctx).node_count() + body_size(body@) + 1 <= usize::MAX,
            old(ctx).block_count() + body_size(body@) <= usize::MAX,
        ensures
            *final(self) == *old(self),
            final(ctx).wf(),
            extends_except(*old(ctx), *final(ctx), index),
            final(ctx).node_count() <= old(ctx).node_count() + body_size(body@) + 1,
            final(ctx).block_count() <= old(ctx).block_count() + body_size(body@),
            match body_error(body@) {
                Some(e) => r == Err::<(), CompilerError>(e),
                None => r is Ok && final(ctx).scopes() == old(ctx).scopes() && ends_in_terminator(
                    final(ctx).block_list(),
                    index,
                    block_id,
                ) && block_filled(
                    old(ctx).block_list()[index].nodes@,
                    final(ctx).block_list()[index].nodes@,
                    body@,
                    fallthrough,
                    fallthrough_continues,
                ) && exists|body_nodes: Seq<HirNode>| #[trigger] fills(
                    old(ctx).block_list()[index].nodes@,
                    body_nodes,
                    final(ctx).block_list()[index].nodes@,
                    fallthrough,
                    fallthrough_continues,
                ) && fresh_ids(*old(ctx), *final(ctx), body_nodes),
            },
        decreases body_size(body@), 1int,
    {
        let ghost s0 = *ctx;
        ctx.enter_scope_with_block(scope_type, block_id);
        let ghost s1 = *ctx;
        proof {
            assert(s1.scopes().subrange(0, s0.scopes().len() as int) =~= s0.scopes());
            lemma_extends_refl(s0);
            assert(extends(s0, s1));
        }
        let body_nodes = match self.linearize_body(body, ctx) {
            Ok(n) => n,
            Err(e) => {
                proof {
                    lemma_extends_trans(s0, s1, *ctx);
                }
                return Err(e);
            },
        };
        let ghost s2 = *ctx;
        proof {
            assert(body_error(body@) is None);
            assert(exists|ctxs: Seq<HirBuilderContext>, outs: Seq<Vec<HirNode>>|
                #[trigger] body_steps(body@, ctxs, outs) && ctxs[0] == s1 && ctxs.last() == s2
                    && body_nodes@ == concat_outputs(outs));
        }
        let ghost (ctxs, outs) = choose|ctxs: Seq<HirBuilderContext>, outs: Seq<Vec<HirNode>>|
            #[trigger] body_steps(body@, ctxs, outs) && ctxs[0] == s1 && ctxs.last() == s2
                && body_nodes@ == concat_outputs(outs);
        let ghost body_seq = body_nodes@;
        proof {
            assert(body_steps(body@, ctxs, outs));
            assert(body_seq == concat_outputs(outs));
            lemma_extends_trans(s0, s1, s2);
            assert(s2.block_list()[index] == s0.block_list()[index]);
        }
        self.append_to_block(ctx, block_id, body_nodes, Ghost(index));
        let ghost s3 = *ctx;
        proof {
            lemma_first_block_unique(s3, index);
        }
        if !self.block_has_terminator(ctx, block_id) {
            let fall = if fallthrough_continues {
                self.create_continue(fallthrough, location, ctx)
            } else {
                self.create_jump_to_block(fallthrough, location, ctx)
            };
            let ghost s4 = *ctx;
            proof {
                lemma_first_block_unique(s4, index);
            }
            ctx.add_node_to_block(block_id, fall);
            proof {
                lemma_first_block_unique(s4, index);
                assert(ctx.block_list()[index].nodes@ == s3.block_list()[index].nodes@.push(fall));
            }
        }
        let ghost s5 = *ctx;
        proof {
            let both = s0.block_list()[index].nodes@ + body_seq;
            assert(s3.block_list()[index].nodes@ == both);
            if both.len() > 0 && both.last().is_terminator() {
                assert(s5.block_list()[index].nodes@ == both);
            } else {
                assert(s5.block_list()[index].nodes@.drop_last() =~= both);
            }
            assert(fills(s0.block_list()[index].nodes@, concat_outputs(outs), s5.block_list()[index].nodes@, fallthrough, fallthrough_continues));
            lemma_block_filled_intro(
                s0.block_list()[index].nodes@,
                s5.block_list()[index].nodes@,
                body@,
                fallthrough,
                fallthrough_continues,
                ctxs,
                outs,
            );
        }
        let _ = ctx.exit_scope();
        proof {
            assert(s5.scopes() == s1.scopes());
            assert(ctx.scopes() =~= s0.scopes());
            assert(ctx.scopes().subrange(0, s0.scopes().len() as int) =~= s0.scopes());
            assert forall|i: int| 0 <= i < s0.block_list().len() && i != index implies #[trigger] ctx.block_list()[i]
                == s0.block_list()[i] by {
                assert(s2.block_list()[i] == s0.block_list()[i]);
            }
        }
        Ok(())
    }

    /// Linearizes a sequence of statements in order; fails with the first statement's
    /// error.
    pub fn linearize_body(&mut self, body: &Vec<AstNode>, ctx: &mut HirBuilderContext) -> (r: Result<
        Vec<HirNode>,
        CompilerError,
    >)
        requires
            old(ctx).wf(),
            old(ctx).node_count() + body_size(body@) <= usize::MAX,
            old(ctx).block_count() + body_size(body@) <= usize::MAX,
        ensures
            *final(self) == *old(self),
            final(ctx).wf(),
            extends(*old(ctx), *final(ctx)),
            final(ctx).node_count() <= old(ctx).node_count() + body_size(body@),
            final(ctx).block_count() <= old(ctx).block_count() + body_size(body@),
            match body_error(body@) {
                Some(e) => r == Err::<Vec<HirNode>, CompilerError>(e),
                None => r matches Ok(nodes) && final(ctx).scopes() == old(ctx).scopes() && fresh_ids(
                    *old(ctx),
                    *final(ctx),
                    nodes@,
                ) && exists|ctxs: Seq<HirBuilderContext>, outs: Seq<Vec<HirNode>>|
                    #[trigger] body_steps(body@, ctxs, outs) && ctxs[0] == *old(ctx) && ctxs.last() == *final(ctx)
                        && nodes@ == concat_outputs(outs),
            },
        decreases body_size(body@), 0int,
    {
        let mut nodes: Vec<HirNode> = Vec::new();
        let mut i: usize = 0;
        let ghost mut ctxs: Seq<HirBuilderContext> = seq![*ctx];
        let ghost mut outs: Seq<Vec<HirNode>> = Seq::empty();
        proof {
            lemma_extends_refl(*ctx);
            assert(body@.take(0) =~= Seq::<AstNode>::empty());
        }
        while i < body.len()
            invariant
                0 <= i <= body@.len(),
                ctxs.len() == i + 1,
                outs.len() == i,
                ctxs[0] == *old(ctx),
                ctxs[i as int] == *ctx,
                forall|k: int| 0 <= k < i ==> #[trigger] stmt_linearized(
                    body@[k],
                    ctxs[k],
                    ctxs[k + 1],
                    Ok::<Vec<HirNode>, CompilerError>(outs[k]),
                ),
                nodes@ == concat_outputs(outs),
                *self == *old(self),
                ctx.wf(),
                extends(*old(ctx), *ctx),
                ctx.node_count() <= old(ctx).node_count() + body_size(body@.take(i as int)),
                ctx.block_count() <= old(ctx).block_count() + body_size(body@.take(i as int)),
                old(ctx).node_count() + body_size(body@) <= usize::MAX,
                old(ctx).block_count() + body_size(body@) <= usize::MAX,
                body_error(body@.take(i as int)) is None,
                ctx.scopes() == old(ctx).scopes(),
                fresh_ids(*old(ctx), *ctx, nodes@),
            decreases body@.len() - i,
        {
            proof {
                lemma_body_size_prefix(body@, i as int);
                assert(body@.take(i + 1).drop_last() =~= body@.take(i as int));
                assert(body@.take(i + 1).last() == body@[i as int]);
            }
            let ghost before = *ctx;
            let ghost prev = nodes@;
            match self.linearize_ast_node(&body[i], ctx) {
                Ok(mut stmt_nodes) => {
                    let ghost added = stmt_nodes@;
                    let ghost out = stmt_nodes;
                    nodes.append(&mut stmt_nodes);
                    proof {
                        let ghost old_ctxs = ctxs;
                        let ghost old_outs = outs;
                        ctxs = ctxs.push(*ctx);
                        outs = outs.push(out);
                        assert(outs.drop_last() =~= old_outs);
                        assert forall|k: int| 0 <= k < i + 1 implies #[trigger] stmt_linearized(
                            body@[k],
                            ctxs[k],
                            ctxs[k + 1],
                            Ok::<Vec<HirNode>, CompilerError>(outs[k]),
                        ) by {
                            if k < i {
                                assert(ctxs[k] == old_ctxs[k] && ctxs[k + 1] == old_ctxs[k + 1] && outs[k] == old_outs[k]);
                            }
                        }
                        lemma_extends_trans(*old(ctx), before, *ctx);
                        assert(nodes@ =~= prev + added);
                        assert forall|k: int| 0 <= k < nodes@.len() implies old(ctx).node_count() <= #[trigger] nodes@[k].id
                            < ctx.node_count() by {
                            if k >= prev.len() {
                                assert(nodes@[k] == added[k - prev.len()]);
                            }
                        }
                        assert forall|j: int, k: int| 0 <= j < k < nodes@.len() implies #[trigger] nodes@[j].id
                            < #[trigger] nodes@[k].id by {
                            if k >= prev.len() {
                                assert(nodes@[k] == added[k - prev.len()]);
                                if j >= prev.len() {
                                    assert(nodes@[j] == added[j - prev.len()]);
                                }
                            }
                        }
                    }
                },
                Err(e) => {
                    proof {
                        lemma_extends_trans(*old(ctx), before, *ctx);
                        lemma_body_error_prefix(body@, i + 1);
                    }
                    return Err(e);
                },
            }
            i = i + 1;
        }
        proof {
            assert(body@.take(body@.len() as int) =~= body@);
            assert(body_steps(body@, ctxs, outs));
        }
        Ok(nodes)
    }

    /// Linearizes one statement: control flow into blocks and terminators, declarations,
    /// assignments, calls and expression statements into single nodes; other nodes yield
    /// nothing.
    pub fn linearize_ast_node(&mut self, node: &AstNode, ctx: &mut HirBuilderContext) -> (r: Result<
        Vec<HirNode>,
        CompilerError,
    >)
        requires
            stmt_ready(*node, *old(ctx)),
        ensures
            *final(self) == *old(self),
            stmt_linearized(*node, *old(ctx), *final(ctx), r),
        decreases node_size(*node), 3int,
    {
        let ghost s0 = *ctx;
        match &node.kind {
            NodeKind::If(condition, then_body, else_body) => {
                let else_ref: Option<&Vec<AstNode>> = match else_body {
                    Some(b) => Some(b),
                    None => None,
                };
                proof {
                    assert(if_node(*condition, *then_body, opt_body(else_ref), node.location) == *node);
                }
                self.linearize_if_statement(condition, then_body, else_ref, &node.location, ctx)
            },
            NodeKind::ForLoop(binding, iterator, body) => {
                proof {
                    assert(for_node(**binding, *iterator, *body, node.location) == *node);
                }
                self.linearize_for_loop(binding, iterator, body, &node.location, ctx)
            },
            NodeKind::WhileLoop(condition, body) => {
                proof {
                    assert(while_node(*condition, *body, node.location) == *node);
                }
                self.linearize_while_loop(condition, body, &node.location, ctx)
            },
            NodeKind::Match(scrutinee, arms, default) => {
                let default_ref: Option<&Vec<AstNode>> = match default {
                    Some(b) => Some(b),
                    None => None,
                };
                proof {
                    assert(match_node(*scrutinee, *arms, opt_body(default_ref), node.location) == *node);
                }
                self.linearize_match(scrutinee, arms, default_ref, &node.location, ctx)
            },
            NodeKind::Return(values) => {
                let r = self.linearize_return(values, &node.location, ctx);
                proof {
                    if r is Ok {
                        lemma_return_recorded_extends(s0, *ctx, r->Ok_0@, node.location);
                    } else {
                        lemma_extends_refl(s0);
                    }
                }
                r
            },
            NodeKind::VariableDeclaration(arg) => {
                let r = self.linearize_variable_declaration(arg, &node.location, ctx);
                proof {
                    if r is Ok {
                        lemma_node_recorded_extends(s0, *ctx, r->Ok_0@[0].id, node.location);
                    } else {
                        lemma_extends_refl(s0);
                    }
                }
                r
            },
            NodeKind::Assignment { target, value } => {
                let r = self.linearize_assignment(target, value, &node.location, ctx);
                proof {
                    if r is Ok {
                        lemma_node_recorded_extends(s0, *ctx, r->Ok_0@[0].id, node.location);
                    } else {
                        lemma_extends_refl(s0);
                    }
                }
                r
            },
            NodeKind::FunctionCall { name, args, location } => {
                let r = self.linearize_function_call(*name, args, location, ctx);
                proof {
                    if r is Ok {
                        lemma_node_recorded_extends(s0, *ctx, r->Ok_0@[0].id, *location);
                    } else {
                        lemma_extends_refl(s0);
                    }
                }
                r
            },
            NodeKind::HostFunctionCall { host_function_id, args, location } => {
                let r = self.linearize_host_function_call(*host_function_id, args, location, ctx);
                proof {
                    if r is Ok {
                        lemma_node_recorded_extends(s0, *ctx, r->Ok_0@[0].id, *location);
                    } else {
                        lemma_extends_refl(s0);
                    }
                }
                r
            },
            NodeKind::Rvalue(expr) => {
                let r = self.linearize_expression_statement(expr, &node.location, ctx);
                proof {
                    if r is Ok {
                        lemma_node_recorded_extends(s0, *ctx, r->Ok_0@[0].id, node.location);
                    } else {
                        lemma_extends_refl(s0);
                    }
                }
                r
            },
            _ => {
                proof {
                    lemma_extends_refl(s0);
                }
                Ok(Vec::new())
            },
        }
    }

    /// Linearizes `if condition: then-body else: else-body`. The current block ends with
    /// an `if` terminator to a fresh then block (and a fresh else block when there is an
    /// else body); each branch block gets its body and, unless it already ends in a
    /// terminator, a jump to a fresh merge block.
    pub fn linearize_if_statement(
        &mut self,
        condition: &Expression,
        then_body: &Vec<AstNode>,
        else_body: Option<&Vec<AstNode>>,
        location: &TextLocation,
        ctx: &mut HirBuilderContext,
    ) -> (r: Result<Vec<HirNode>, CompilerError>)
        requires
            stmt_ready(if_node(*condition, *then_body, opt_body(else_body), *location), *old(ctx)),
        ensures
            *final(self) == *old(self),
            stmt_linearized(if_node(*condition, *then_body, opt_body(else_body), *location), *old(ctx), *final(ctx), r),
        decreases node_size(if_node(*condition, *then_body, opt_body(else_body), *location)), 2int,
    {
        let ghost s0 = *ctx;
        let ghost bl = s0.block_list().len() as int;
        let (mut nodes, cond_expr) = match self.expr_linearizer.linearize_expression(condition, ctx) {
            Ok(x) => x,
            Err(e) => {
                proof {
                    lemma_extends_refl(s0);
                }
                return Err(e);
            },
        };
        let then_block_id = ctx.create_block();
        let ghost s1 = *ctx;
        proof {
            lemma_create_block_extends(s0, s1);
        }
        let else_block_id = if else_body.is_some() {
            Some(ctx.create_block())
        } else {
            None
        };
        let ghost s2 = *ctx;
        proof {
            if else_body.is_some() {
                lemma_create_block_extends(s1, s2);
                lemma_extends_trans(s0, s1, s2);
            } else {
                assert(s2 == s1);
            }
            assert(s2.block_list()[bl].id == then_block_id);
        }
        let merge_block_id = ctx.create_block();
        let ghost s3 = *ctx;
        proof {
            lemma_create_block_extends(s2, s3);
            lemma_extends_trans(s0, s2, s3);
        }
        let if_terminator = self.create_if_terminator(cond_expr, then_block_id, else_block_id, *location, ctx);
        nodes.push(if_terminator);
        let ghost s4 = *ctx;
        proof {
            lemma_node_recorded_extends(s3, s4, if_terminator.id, *location);
            lemma_extends_trans(s0, s3, s4);
            assert(s4.block_list()[bl].id == then_block_id);
        }
        match self.linearize_into_block(then_body, ScopeType::If, then_block_id, Ghost(bl), merge_block_id, false, *location, ctx) {
            Ok(()) => {},
            Err(e) => {
                proof {
                    lemma_extends_except_beyond(s0, s4, *ctx, bl);
                }
                return Err(e);
            },
        }
        let ghost s5 = *ctx;
        proof {
            lemma_extends_except_beyond(s0, s4, s5, bl);
            assert(s4.block_list()[bl].nodes@ == Seq::<HirNode>::empty());
            if else_body.is_some() {
                assert(s4.block_list()[bl + 1].nodes@ == Seq::<HirNode>::empty());
                assert(s4.block_list()[bl + 2].nodes@ == Seq::<HirNode>::empty());
                assert(s4.block_list()[bl + 2].id == merge_block_id);
            } else {
                assert(s4.block_list()[bl + 1].nodes@ == Seq::<HirNode>::empty());
                assert(s4.block_list()[bl + 1].id == merge_block_id);
            }
        }
        match (else_block_id, else_body) {
            (Some(else_id), Some(else_nodes_ast)) => {
                proof {
                    assert(s5.block_list()[bl + 1] == s4.block_list()[bl + 1]);
                }
                match self.linearize_into_block(
                    else_nodes_ast,
                    ScopeType::If,
                    else_id,
                    Ghost(bl + 1),
                    merge_block_id,
                    false,
                    *location,
                    ctx,
                ) {
                    Ok(()) => {},
                    Err(e) => {
                        proof {
                            lemma_extends_except_beyond(s0, s5, *ctx, bl + 1);
                        }
                        return Err(e);
                    },
                }
                proof {
                    lemma_extends_except_beyond(s0, s5, *ctx, bl + 1);
                    assert(ctx.block_list()[bl] == s5.block_list()[bl]);
                    assert(ctx.block_list()[bl + 2] == s5.block_list()[bl + 2]);
                }
            },
            _ => {},
        }
        Ok(nodes)
    }

    /// Linearizes `loop binding in iterator: body`. The current block ends with a loop
    /// terminator over a fresh body block that exits to a fresh exit block; the body runs
    /// in a loop scope whose `break` goes to the exit block and whose `continue` goes to
    /// the body block, and falls through to a `continue`.
    pub fn linearize_for_loop(
        &mut self,
        binding: &Var,
        iterator: &Expression,
        body: &Vec<AstNode>,
        location: &TextLocation,
        ctx: &mut HirBuilderContext,
    ) -> (r: Result<Vec<HirNode>, CompilerError>)
        requires
            stmt_ready(for_node(*binding, *iterator, *body, *location), *old(ctx)),
        ensures
            *final(self) == *old(self),
            stmt_linearized(for_node(*binding, *iterator, *body, *location), *old(ctx), *final(ctx), r),
        decreases node_size(for_node(*binding, *iterator, *body, *location)), 2int,
    {
        let ghost s0 = *ctx;
        let ghost bl = s0.block_list().len() as int;
        let (mut nodes, iter_expr) = match self.expr_linearizer.linearize_expression(iterator, ctx) {
            Ok(x) => x,
            Err(e) => {
                proof {
                    lemma_extends_refl(s0);
                }
                return Err(e);
            },
        };
        let body_block_id = ctx.create_block();
        let ghost s1 = *ctx;
        let exit_block_id = ctx.create_block();
        let ghost s2 = *ctx;
        proof {
            lemma_create_block_extends(s0, s1);
            lemma_create_block_extends(s1, s2);
            lemma_extends_trans(s0, s1, s2);
            assert(s2.block_list()[bl].id == body_block_id);
        }
        let binding_type = clone_data_type(&binding.value.data_type);
        let loop_terminator = self.create_loop_terminator(
            Some((binding.id, binding_type)),
            Some(iter_expr),
            body_block_id,
            exit_block_id,
            None,
            *location,
            ctx,
        );
        nodes.push(loop_terminator);
        let ghost s3 = *ctx;
        proof {
            lemma_node_recorded_extends(s2, s3, loop_terminator.id, *location);
            lemma_extends_trans(s0, s2, s3);
        }
        match self.linearize_into_block(
            body,
            ScopeType::Loop { break_target: exit_block_id, continue_target: body_block_id },
            body_block_id,
            Ghost(bl),
            body_block_id,
            true,
            *location,
            ctx,
        ) {
            Ok(()) => {},
            Err(e) => {
                proof {
                    lemma_extends_except_beyond(s0, s3, *ctx, bl);
                }
                return Err(e);
            },
        }
        proof {
            lemma_extends_except_beyond(s0, s3, *ctx, bl);
        }
        Ok(nodes)
    }

    /// Linearizes `loop condition: body`. The current block jumps to a fresh condition
    /// block, which evaluates the condition and branches to a fresh body block or a fresh
    /// exit block; the body runs in a loop scope whose `break` goes to the exit block and
    /// whose `continue` goes back to the condition block, and falls through to a
    /// `continue` to the condition block.
    pub fn linearize_while_loop(
        &mut self,
        condition: &Expression,
        body: &Vec<AstNode>,
        location: &TextLocation,
        ctx: &mut HirBuilderContext,
    ) -> (r: Result<Vec<HirNode>, CompilerError>)
        requires
            stmt_ready(while_node(*condition, *body, *location), *old(ctx)),
        ensures
            *final(self) == *old(self),
            stmt_linearized(while_node(*condition, *body, *location), *old(ctx), *final(ctx), r),
        decreases node_size(while_node(*condition, *body, *location)), 2int,
    {
        let ghost s0 = *ctx;
        let ghost bl = s0.block_list().len() as int;
        let mut nodes: Vec<HirNode> = Vec::new();
        let condition_block_id = ctx.create_block();
        let ghost s1 = *ctx;
        let body_block_id = ctx.create_block();
        let ghost s2 = *ctx;
        let exit_block_id = ctx.create_block();
        let ghost s3 = *ctx;
        proof {
            lemma_create_block_extends(s0, s1);
            lemma_create_block_extends(s1, s2);
            lemma_create_block_extends(s2, s3);
            lemma_extends_trans(s0, s1, s2);
            lemma_extends_trans(s0, s2, s3);
            assert(s3.block_list()[bl].id == condition_block_id);
            assert(s3.block_list()[bl + 1].id == body_block_id);
        }
        let jump_to_condition = self.create_jump_to_block(condition_block_id, *location, ctx);
        nodes.push(jump_to_condition);
        let ghost s4 = *ctx;
        proof {
            lemma_node_recorded_extends(s3, s4, jump_to_condition.id, *location);
            lemma_extends_trans(s0, s3, s4);
        }
        ctx.enter_scope_with_block(ScopeType::Block, condition_block_id);
        let ghost s5 = *ctx;
        proof {
            assert(s5.scopes().subrange(0, s4.scopes().len() as int) =~= s4.scopes());
            assert(extends(s4, s5));
            lemma_extends_trans(s0, s4, s5);
        }
        let (cond_nodes, cond_expr) = match self.expr_linearizer.linearize_expression(condition, ctx) {
            Ok(x) => x,
            Err(e) => {
                return Err(e);
            },
        };
        self.append_to_block(ctx, condition_block_id, cond_nodes, Ghost(bl));
        let ghost s6 = *ctx;
        let if_terminator = self.create_if_terminator(cond_expr, body_block_id, Some(exit_block_id), *location, ctx);
        let ghost s7 = *ctx;
        proof {
            lemma_first_block_unique(s7, bl);
        }
        ctx.add_node_to_block(condition_block_id, if_terminator);
        let ghost s8 = *ctx;
        let _ = ctx.exit_scope();
        let ghost s9 = *ctx;
        proof {
            assert(s8.block_list()[bl].nodes@ =~= seq![if_terminator]);
            assert(s9.scopes() =~= s4.scopes());
            assert(s9.scopes().subrange(0, s4.scopes().len() as int) =~= s4.scopes());
            assert forall|i: int| 0 <= i < s4.block_list().len() && i != bl implies #[trigger] s9.block_list()[i]
                == s4.block_list()[i] by {
                assert(s6.block_list()[i] == s4.block_list()[i]);
                assert(s8.block_list()[i] == s7.block_list()[i]);
            }
            assert(extends_except(s4, s9, bl));
            lemma_extends_except_beyond(s0, s4, s9, bl);
            assert(s9.block_list()[bl + 1] == s3.block_list()[bl + 1]);
        }
        match self.linearize_into_block(
            body,
            ScopeType::Loop { break_target: exit_block_id, continue_target: condition_block_id },
            body_block_id,
            Ghost(bl + 1),
            condition_block_id,
            true,
            *location,
            ctx,
        ) {
            Ok(()) => {},
            Err(e) => {
                proof {
                    lemma_extends_except_beyond(s0, s9, *ctx, bl + 1);
                }
                return Err(e);
            },
        }
        proof {
            lemma_extends_except_beyond(s0, s9, *ctx, bl + 1);
            assert(ctx.block_list()[bl] == s9.block_list()[bl]);
        }
        Ok(nodes)
    }

    /// Linearizes `if scrutinee is: arms else: default`. A fresh merge block comes first;
    /// each arm then gets a fresh block holding its body, which falls through to a jump to
    /// the merge block, and so does the default body; the current block ends with a match
    /// terminator over the converted arm patterns.
    #[verifier::rlimit(60)]
    pub fn linearize_match(
        &mut self,
        scrutinee: &Expression,
        arms: &Vec<MatchArm>,
        default: Option<&Vec<AstNode>>,
        location: &TextLocation,
        ctx: &mut HirBuilderContext,
    ) -> (r: Result<Vec<HirNode>, CompilerError>)
        requires
            stmt_ready(match_node(*scrutinee, *arms, opt_body(default), *location), *old(ctx)),
        ensures
            *final(self) == *old(self),
            stmt_linearized(match_node(*scrutinee, *arms, opt_body(default), *location), *old(ctx), *final(ctx), r),
        decreases node_size(match_node(*scrutinee, *arms, opt_body(default), *location)), 2int,
    {
        let ghost s0 = *ctx;
        let ghost node = match_node(*scrutinee, *arms, opt_body(default), *location);
        let (mut nodes, scrutinee_expr) = match self.expr_linearizer.linearize_expression(scrutinee, ctx) {
            Ok(x) => x,
            Err(e) => {
                proof {
                    lemma_extends_refl(s0);
                }
                return Err(e);
            },
        };
        let merge_block_id = ctx.create_block();
        proof {
            lemma_create_block_extends(s0, *ctx);
            assert(arms@.take(0) =~= Seq::<MatchArm>::empty());
            assert(ctx.block_list()[s0.block_list().len() as int] == ctx.block_list().last());
        }
        let mut hir_arms: Vec<HirMatchArm> = Vec::new();
        let mut i: usize = 0;
        while i < arms.len()
            invariant
                0 <= i <= arms@.len(),
                *self == *old(self),
                node == match_node(*scrutinee, *arms, opt_body(default), *location),
                s0 == *old(ctx),
                stmt_ready(node, s0),
                ctx.wf(),
                extends(s0, *ctx),
                ctx.node_count() <= s0.node_count() + arms_size(arms@.take(i as int)),
                ctx.block_count() <= s0.block_count() + 1 + arms_size(arms@.take(i as int)),
                arms_error(arms@.take(i as int)) is None,
                ctx.scopes() == s0.scopes(),
                nodes@.len() == 0,
                lower_expression(*scrutinee) == Ok::<ExprModel, CompilerError>(expr_model(scrutinee_expr)),
                hir_arms@.len() == i,
                forall|k: int| 0 <= k < i ==> {
                    &&& spec_convert_pattern(#[trigger] arms@[k].condition) == Ok::<PatternModel, CompilerError>(
                        pattern_model(hir_arms@[k].pattern),
                    )
                    &&& hir_arms@[k].guard is None
                    &&& has_terminated_block(ctx.block_list(), hir_arms@[k].body)
                },
                merge_block_id == s0.block_count(),
                s0.block_list().len() < ctx.block_list().len(),
                ctx.block_list()[s0.block_list().len() as int].id == merge_block_id,
                ctx.block_list()[s0.block_list().len() as int].nodes@ == Seq::<HirNode>::empty(),
                forall|k: int| 0 <= k < i ==> {
                    &&& s0.block_count() < (#[trigger] hir_arms@[k]).body < ctx.block_count()
                    &&& block_with_id_filled(s0, *ctx, hir_arms@[k].body, merge_block_id)
                },
                forall|j: int, k: int| 0 <= j < k < i ==> (#[trigger] hir_arms@[j]).body < (#[trigger] hir_arms@[k]).body,
            decreases arms@.len() - i,
        {
            proof {
                lemma_arms_size_prefix(arms@, i as int);
                assert(arms@.take(i + 1).drop_last() =~= arms@.take(i as int));
                assert(arms@.take(i + 1).last() == arms@[i as int]);
            }
            let ghost t0 = *ctx;
            let ghost arms_before = hir_arms@;
            let ghost idx = t0.block_list().len() as int;
            let arm = &arms[i];
            let arm_block_id = ctx.create_block();
            let ghost t1 = *ctx;
            proof {
                lemma_create_block_extends(t0, t1);
                lemma_extends_trans(s0, t0, t1);
            }
            let hir_pattern = match self.convert_pattern(&arm.condition, ctx) {
                Ok(p) => p,
                Err(e) => {
                    proof {
                        lemma_arms_error_prefix(arms@, i + 1);
                    }
                    return Err(e);
                },
            };
            let ghost pattern_view = pattern_model(hir_pattern);
            hir_arms.push(HirMatchArm { pattern: hir_pattern, guard: None, body: arm_block_id });
            match self.linearize_into_block(
                &arm.body,
                ScopeType::Block,
                arm_block_id,
                Ghost(idx),
                merge_block_id,
                false,
                *location,
                ctx,
            ) {
                Ok(()) => {},
                Err(e) => {
                    proof {
                        lemma_extends_except_beyond(s0, t1, *ctx, idx);
                        lemma_arms_error_prefix(arms@, i + 1);
                    }
                    return Err(e);
                },
            }
            proof {
                lemma_extends_except_beyond(s0, t1, *ctx, idx);
                let ghost t2 = *ctx;
                assert(t1.block_list()[idx].nodes@ == Seq::<HirNode>::empty());
                assert(t1.block_list()[idx].id == arm_block_id);
                assert(t2.block_list()[idx].id == arm_block_id);
                let body_nodes = choose|body_nodes: Seq<HirNode>| #[trigger] fills(
                    t1.block_list()[idx].nodes@,
                    body_nodes,
                    t2.block_list()[idx].nodes@,
                    merge_block_id,
                    false,
                ) && fresh_ids(t1, t2, body_nodes);
                assert(fills(Seq::empty(), body_nodes, t2.block_list()[idx].nodes@, merge_block_id, false));
                assert(fresh_ids(s0, t2, body_nodes));
                assert(branch_filled(s0, t2, t2.block_list()[idx].nodes@, merge_block_id, false));
                assert(block_with_id_filled(s0, t2, arm_block_id, merge_block_id));
                let ghost ids = arms_before.map_values(|a: HirMatchArm| a.body);
                assert forall|k: int| 0 <= k < ids.len() implies {
                    &&& (#[trigger] ids[k]) < t1.block_list()[idx].id
                    &&& block_with_id_filled(s0, t0, ids[k], merge_block_id)
                } by {
                    assert(ids[k] == arms_before[k].body);
                }
                lemma_blocks_filled_persist(s0, t0, t1, t2, ids, merge_block_id, idx);
                assert forall|k: int| 0 <= k < i implies block_with_id_filled(s0, t2, #[trigger] hir_arms@[k].body, merge_block_id) by {
                    assert(hir_arms@[k] == arms_before[k]);
                    assert(ids[k] == hir_arms@[k].body);
                }
                assert(t2.block_list()[s0.block_list().len() as int] == t0.block_list()[s0.block_list().len() as int]);
                assert forall|k: int| 0 <= k < i + 1 implies {
                    &&& spec_convert_pattern(#[trigger] arms@[k].condition) == Ok::<PatternModel, CompilerError>(
                        pattern_model(hir_arms@[k].pattern),
                    )
                    &&& hir_arms@[k].guard is None
                    &&& has_terminated_block(ctx.block_list(), hir_arms@[k].body)
                } by {
                    if k < i {
                        assert(hir_arms@[k] == arms_before[k]);
                        assert(spec_convert_pattern(arms@[k].condition) is Ok);
                        let j = choose|j: int| ends_in_terminator(t0.block_list(), j, hir_arms@[k].body);
                        assert(ctx.block_list()[j] == t0.block_list()[j]);
                        assert(ends_in_terminator(ctx.block_list(), j, hir_arms@[k].body));
                    } else {
                        assert(ends_in_terminator(ctx.block_list(), idx, hir_arms@[k].body));
                    }
                }
            }
            i = i + 1;
        }
        proof {
            assert(arms@.take(arms@.len() as int) =~= arms@);
        }
        let ghost s1 = *ctx;
        let default_block_id = match default {
            Some(default_body) => {
                let ghost idx = s1.block_list().len() as int;
                let default_id = ctx.create_block();
                let ghost s2 = *ctx;
                proof {
                    lemma_create_block_extends(s1, s2);
                    lemma_extends_trans(s0, s1, s2);
                }
                match self.linearize_into_block(
                    default_body,
                    ScopeType::Block,
                    default_id,
                    Ghost(idx),
                    merge_block_id,
                    false,
                    *location,
                    ctx,
                ) {
                    Ok(()) => {},
                    Err(e) => {
                        proof {
                            lemma_extends_except_beyond(s0, s2, *ctx, idx);
                        }
                        return Err(e);
                    },
                }
                proof {
                    lemma_extends_except_beyond(s0, s2, *ctx, idx);
                    let ghost t2 = *ctx;
                    let ghost ids = hir_arms@.map_values(|a: HirMatchArm| a.body);
                    assert forall|k: int| 0 <= k < ids.len() implies {
                        &&& (#[trigger] ids[k]) < s2.block_list()[idx].id
                        &&& block_with_id_filled(s0, s1, ids[k], merge_block_id)
                    } by {
                        assert(ids[k] == hir_arms@[k].body);
                    }
                    lemma_blocks_filled_persist(s0, s1, s2, t2, ids, merge_block_id, idx);
                    assert forall|k: int| 0 <= k < hir_arms@.len() implies block_with_id_filled(s0, t2, #[trigger] hir_arms@[k].body, merge_block_id) by {
                        assert(ids[k] == hir_arms@[k].body);
                    }
                    let body_nodes = choose|body_nodes: Seq<HirNode>| #[trigger] fills(
                        s2.block_list()[idx].nodes@,
                        body_nodes,
                        t2.block_list()[idx].nodes@,
                        merge_block_id,
                        false,
                    ) && fresh_ids(s2, t2, body_nodes);
                    assert(fills(Seq::empty(), body_nodes, t2.block_list()[idx].nodes@, merge_block_id, false));
                    assert(fresh_ids(s0, t2, body_nodes));
                    assert(branch_filled(s0, t2, t2.block_list()[idx].nodes@, merge_block_id, false));
                    assert(block_with_id_filled(s0, t2, default_id, merge_block_id));
                    assert(t2.block_list()[s0.block_list().len() as int] == s1.block_list()[s0.block_list().len() as int]);
                    assert forall|k: int| 0 <= k < arms@.len() implies has_terminated_block(
                        ctx.block_list(),
                        #[trigger] hir_arms@[k].body,
                    ) by {
                        assert(spec_convert_pattern(arms@[k].condition) is Ok);
                        let j = choose|j: int| ends_in_terminator(s1.block_list(), j, hir_arms@[k].body);
                        assert(ctx.block_list()[j] == s1.block_list()[j]);
                        assert(ends_in_terminator(ctx.block_list(), j, hir_arms@[k].body));
                    }
                    assert(ends_in_terminator(ctx.block_list(), idx, default_id));
                }
                Some(default_id)
            },
            None => None,
        };
        let ghost s3 = *ctx;
        let ghost arms_view = hir_arms@;
        proof {
            assert(arm_blocks_fresh(s0, s3, arms_view, default_block_id));
        }
        let match_terminator = self.create_match_terminator(scrutinee_expr, hir_arms, default_block_id, *location, ctx);
        nodes.push(match_terminator);
        proof {
            lemma_node_recorded_extends(s3, *ctx, match_terminator.id, *location);
            lemma_extends_trans(s0, s3, *ctx);
            lemma_extends_is_except(s3, *ctx);
            assert forall|k: int| 0 <= k < arms_view.len() implies block_with_id_filled(s0, *ctx, #[trigger] arms_view[k].body, merge_block_id) by {
                lemma_filled_persists(s0, s3, *ctx, arms_view[k].body, merge_block_id, s3.block_list().len() as int);
            }
            if let Some(d) = default_block_id {
                lemma_filled_persists(s0, s3, *ctx, d, merge_block_id, s3.block_list().len() as int);
            }
            assert(ctx.block_list()[s0.block_list().len() as int] == s3.block_list()[s0.block_list().len() as int]);
            assert(arm_blocks_fresh(s0, *ctx, arms_view, default_block_id));
            assert forall|k: int| 0 <= k < arms@.len() implies {
                &&& spec_convert_pattern(#[trigger] arms@[k].condition) == Ok::<PatternModel, CompilerError>(
                    pattern_model(hir_arms@[k].pattern),
                )
                &&& hir_arms@[k].guard is None
                &&& has_terminated_block(ctx.block_list(), hir_arms@[k].body)
            } by {
                assert(has_terminated_block(s3.block_list(), hir_arms@[k].body));
            }
        }
        Ok(nodes)
    }

    /// Converts the condition of a match arm into a pattern (see `spec_convert_pattern`).
    pub fn convert_pattern(&mut self, pattern: &Expression, ctx: &mut HirBuilderContext) -> (r: Result<
        HirPattern,
        CompilerError,
    >)
        ensures
            *final(self) == *old(self),
            *final(ctx) == *old(ctx),
            match r {
                Ok(p) => spec_convert_pattern(*pattern) == Ok::<PatternModel, CompilerError>(pattern_model(p)),
                Err(e) => spec_convert_pattern(*pattern) == Err::<PatternModel, CompilerError>(e),
            },
    {
        match &pattern.kind {
            ExpressionKind::Int(val) => Ok(
                HirPattern::Literal(HirExpr { kind: HirExprKind::Int(*val), location: pattern.location }),
            ),
            ExpressionKind::Bool(val) => Ok(
                HirPattern::Literal(HirExpr { kind: HirExprKind::Bool(*val), location: pattern.location }),
            ),
            ExpressionKind::Range(start, end) => {
                let (_, start_expr) = match self.expr_linearizer.linearize_expression(start, ctx) {
                    Ok(x) => x,
                    Err(e) => return Err(e),
                };
                let (_, end_expr) = match self.expr_linearizer.linearize_expression(end, ctx) {
                    Ok(x) => x,
                    Err(e) => return Err(e),
                };
                Ok(HirPattern::Range { start: start_expr, end: end_expr })
            },
            ExpressionKind::Empty => Ok(HirPattern::Wildcard),
            _ => {
                let (_, expr) = match self.expr_linearizer.linearize_expression(pattern, ctx) {
                    Ok(x) => x,
                    Err(e) => return Err(e),
                };
                Ok(HirPattern::Literal(expr))
            },
        }
    }

    /// Whether the first block with id `block_id` exists and ends with a terminator.
    pub fn block_has_terminator(&self, ctx: &HirBuilderContext, block_id: BlockId) -> (b: bool)
        ensures
            b == (has_block(ctx.block_list(), block_id) && {
                let block = first_block(ctx.block_list(), block_id);
                block.nodes@.len() > 0 && block.nodes@.last().is_terminator()
            }),
    {
        match ctx.get_block(block_id) {
            Some(block) => {
                proof {
                    let blocks = ctx.block_list();
                    let i = choose|i: int| 0 <= i < blocks.len() && *block == #[trigger] blocks[i]
                        && forall|j: int| 0 <= j < i ==> #[trigger] blocks[j].id != block_id;
                    let k = choose|k: int| 0 <= k < blocks.len() && blocks[k].id == block_id
                        && forall|j: int| 0 <= j < k ==> #[trigger] blocks[j].id != block_id;
                    if i < k {
                        assert(blocks[i].id != block_id);
                    }
                    if k < i {
                        assert(blocks[k].id != block_id);
                    }
                    assert(first_block(blocks, block_id) == *block);
                }
                let n = block.nodes.len();
                if n > 0 {
                    match block.nodes[n - 1].kind {
                        HirKind::Terminator(_) => true,
                        _ => false,
                    }
                } else {
                    false
                }
            },
            None => false,
        }
    }

    /// Checks that the first block with id `block_id` ends with exactly one terminator: it
    /// holds one terminator, and that terminator is its last node. A missing block passes.
    pub fn ensure_block_termination(&self, ctx: &HirBuilderContext, block_id: BlockId) -> (r: Result<
        (),
        CompilerError,
    >)
        ensures
            !has_block(ctx.block_list(), block_id) ==> r is Ok,
            has_block(ctx.block_list(), block_id) ==> {
                let n = count_terminators(first_block(ctx.block_list(), block_id).nodes@);
                &&& n == 0 ==> r == Err::<(), CompilerError>(CompilerError::MissingTerminator(block_id))
                &&& n > 1 ==> r == Err::<(), CompilerError>(CompilerError::ExtraTerminators(block_id, n as usize))
                &&& n == 1 ==> r == if first_block(ctx.block_list(), block_id).nodes@.last().is_terminator() {
                    Ok::<(), CompilerError>(())
                } else {
                    Err(CompilerError::MisplacedTerminator(block_id))
                }
            },
    {
        match ctx.get_block(block_id) {
            Some(block) => {
                proof {
                    let blocks = ctx.block_list();
                    let i = choose|i: int| 0 <= i < blocks.len() && *block == #[trigger] blocks[i]
                        && forall|j: int| 0 <= j < i ==> #[trigger] blocks[j].id != block_id;
                    let k = choose|k: int| 0 <= k < blocks.len() && blocks[k].id == block_id
                        && forall|j: int| 0 <= j < k ==> #[trigger] blocks[j].id != block_id;
                    if i < k {
                        assert(blocks[i].id != block_id);
                    }
                    if k < i {
                        assert(blocks[k].id != block_id);
                    }
                    assert(first_block(blocks, block_id) == *block);
                }
                let mut count: usize = 0;
                let mut i: usize = 0;
                while i < block.nodes.len()
                    invariant
                        0 <= i <= block.nodes@.len(),
                        count == count_terminators(block.nodes@.take(i as int)),
                        count <= i,
                    decreases block.nodes@.len() - i,
                {
                    proof {
                        assert(block.nodes@.take(i + 1).drop_last() =~= block.nodes@.take(i as int));
                    }
                    match block.nodes[i].kind {
                        HirKind::Terminator(_) => {
                            count = count + 1;
                        },
                        _ => {},
                    }
                    i = i + 1;
                }
                assert(block.nodes@.take(block.nodes@.len() as int) =~= block.nodes@);
                if count == 0 {
                    Err(CompilerError::MissingTerminator(block_id))
                } else if count > 1 {
                    Err(CompilerError::ExtraTerminators(block_id, count))
                } else {
                    let last = block.nodes.len() - 1;
                    match block.nodes[last].kind {
                        HirKind::Terminator(_) => Ok(()),
                        _ => Err(CompilerError::MisplacedTerminator(block_id)),
                    }
                }
            },
            None => Ok(()),
        }
    }

    /// A `break` terminator aimed at the innermost loop's break target.
    pub fn linearize_break(&mut self, location: &TextLocation, ctx: &mut HirBuilderContext) -> (r: Result<
        HirNode,
        CompilerError,
    >)
        requires
            old(ctx).node_count() < usize::MAX,
        ensures
            *final(self) == *old(self),
            old(ctx).wf() ==> final(ctx).wf(),
            match innermost_loop_targets(old(ctx).scopes()) {
                Some((break_target, _)) => r matches Ok(node) && node.kind == HirKind::Terminator(
                    HirTerminator::Break { target: break_target },
                ) && node.location == *location && node_recorded(*old(ctx), *final(ctx), node.id, *location),
                None => r == Err::<HirNode, CompilerError>(CompilerError::BreakOutsideLoop)
                    && *final(ctx) == *old(ctx),
            },
    {
        let break_target = match ctx.find_enclosing_loop() {
            Some(scope_info) => {
                proof {
                    lemma_innermost_loop_found(ctx.scopes(), *scope_info);
                }
                match scope_info.scope_type {
                    ScopeType::Loop { break_target, .. } => break_target,
                    _ => return Err(CompilerError::BreakOutsideLoop),
                }
            },
            None => {
                proof {
                    lemma_innermost_loop_none(ctx.scopes());
                }
                return Err(CompilerError::BreakOutsideLoop);
            },
        };
        Ok(self.create_break(break_target, *location, ctx))
    }

    /// A `continue` terminator aimed at the innermost loop's continue target.
    pub fn linearize_continue(&mut self, location: &TextLocation, ctx: &mut HirBuilderContext) -> (r: Result<
        HirNode,
        CompilerError,
    >)
        requires
            old(ctx).node_count() < usize::MAX,
        ensures
            *final(self) == *old(self),
            old(ctx).wf() ==> final(ctx).wf(),
            match innermost_loop_targets(old(ctx).scopes()) {
                Some((_, continue_target)) => r matches Ok(node) && node.kind == HirKind::Terminator(
                    HirTerminator::Continue { target: continue_target },
                ) && node.location == *location && node_recorded(*old(ctx), *final(ctx), node.id, *location),
                None => r == Err::<HirNode, CompilerError>(CompilerError::ContinueOutsideLoop)
                    && *final(ctx) == *old(ctx),
            },
    {
        let continue_target = match ctx.find_enclosing_loop() {
            Some(scope_info) => {
                proof {
                    lemma_innermost_loop_found(ctx.scopes(), *scope_info);
                }
                match scope_info.scope_type {
                    ScopeType::Loop { continue_target, .. } => continue_target,
                    _ => return Err(CompilerError::ContinueOutsideLoop),
                }
            },
            None => {
                proof {
                    lemma_innermost_loop_none(ctx.scopes());
                }
                return Err(CompilerError::ContinueOutsideLoop);
            },
        };
        Ok(self.create_continue(continue_target, *location, ctx))
    }
}

/// Law: entering a loop scope makes its break and continue targets the innermost loop
/// targets, and entering any other scope leaves the innermost loop targets as they were.
pub proof fn lemma_loop_scope_targets(scopes: Seq<crate::build_hir::ScopeInfo>, s: crate::build_hir::ScopeInfo)
    ensures
        s.scope_type matches ScopeType::Loop { break_target, continue_target } ==> innermost_loop_targets(scopes.push(s))
            == Some((break_target, continue_target)),
        !(s.scope_type is Loop) ==> innermost_loop_targets(scopes.push(s)) == innermost_loop_targets(scopes),
{
    assert(scopes.push(s).drop_last() =~= scopes);
}

/// When the innermost loop scope is at position `i`, its targets are the innermost loop
/// targets.
pub proof fn lemma_innermost_loop_found(scopes: Seq<crate::build_hir::ScopeInfo>, s: crate::build_hir::ScopeInfo)
    requires
        exists|i: int| 0 <= i < scopes.len() && s == #[trigger] scopes[i] && s.scope_type is Loop
            && forall|j: int| i < j < scopes.len() ==> !(#[trigger] scopes[j].scope_type is Loop),
    ensures
        innermost_loop_targets(scopes) == Some((s.scope_type->break_target, s.scope_type->continue_target)),
    decreases scopes.len(),
{
    let i = choose|i: int| 0 <= i < scopes.len() && s == #[trigger] scopes[i] && s.scope_type is Loop
        && forall|j: int| i < j < scopes.len() ==> !(#[trigger] scopes[j].scope_type is Loop);
    if i < scopes.len() - 1 {
        assert(!(scopes.last().scope_type is Loop));
        let d = scopes.drop_last();
        assert(d[i] == s);
        assert forall|j: int| i < j < d.len() implies !(#[trigger] d[j].scope_type is Loop) by {
            assert(d[j] == scopes[j]);
        }
        lemma_innermost_loop_found(d, s);
    }
}

/// Without loop scopes there are no loop targets.
pub proof fn lemma_innermost_loop_none(scopes: Seq<crate::build_hir::ScopeInfo>)
    requires
        forall|j: int| 0 <= j < scopes.len() ==> !(#[trigger] scopes[j].scope_type is Loop),
    ensures
        innermost_loop_targets(scopes) is None,
    decreases scopes.len(),
{
    if scopes.len() > 0 {
        let d = scopes.drop_last();
        assert forall|j: int| 0 <= j < d.len() implies !(#[trigger] d[j].scope_type is Loop) by {
            assert(d[j] == scopes[j]);
        }
        lemma_innermost_loop_none(d);
    }
}

/// Law: a local allocated through `expr_linearizer_mut` (the linearizer `before` handed out,
/// `after` what it became, `ctx0`/`ctx1` the builder state around the allocation, as the
/// contracts of `expr_linearizer_mut` and `allocate_compiler_local` state) is then seen through
/// `expr_linearizer` as a compiler local whose recorded kind has the model of the requested
/// kind; it is a registered temporary of that kind and potentially owned; and no other
/// local was added or changed.
pub proof fn lemma_allocated_local_known(
    c0: ControlFlowLinearizer,
    c1: ControlFlowLinearizer,
    before: ExpressionLinearizer,
    after: ExpressionLinearizer,
    ctx0: HirBuilderContext,
    ctx1: HirBuilderContext,
    kind: HirExprKind,
    name: InternedString,
)
    requires
        before == c0.inner(),
        c1.inner() == after,
        after.locals().dom() == before.locals().dom().insert(name),
        crate::nodes::expr_kind_model(after.locals()[name]) == crate::nodes::expr_kind_model(kind),
        forall|k: InternedString| k != name && #[trigger] before.locals().contains_key(k) ==>
            after.locals()[k] == before.locals()[k],
        ctx1.meta().temporary_variables@.dom() == ctx0.meta().temporary_variables@.dom().insert(name),
        crate::nodes::expr_kind_model(ctx1.meta().temporary_variables@[name]) == crate::nodes::expr_kind_model(kind),
        ctx1.meta().ownership_hints.potentially_owned@ == ctx0.meta().ownership_hints.potentially_owned@.insert(name),
    ensures
        c1.inner().locals().contains_key(name),
        crate::nodes::expr_kind_model(c1.inner().locals()[name]) == crate::nodes::expr_kind_model(kind),
        forall|k: InternedString| k != name ==> (#[trigger] c1.inner().locals().contains_key(k)
            <==> c0.inner().locals().contains_key(k)),
        forall|k: InternedString| k != name && #[trigger] c0.inner().locals().contains_key(k) ==>
            c1.inner().locals()[k] == c0.inner().locals()[k],
        ctx1.meta().temporary_variables@.contains_key(name),
        crate::nodes::expr_kind_model(ctx1.meta().temporary_variables@[name]) == crate::nodes::expr_kind_model(kind),
        ctx1.meta().ownership_hints.potentially_owned@.contains(name),
{
    assert(after.locals().dom().contains(name));
    assert(ctx1.meta().temporary_variables@.dom().contains(name));
    assert forall|k: InternedString| k != name implies (#[trigger] c1.inner().locals().contains_key(k)
        <==> c0.inner().locals().contains_key(k)) by {
        assert(after.locals().dom().contains(k) == before.locals().dom().insert(name).contains(k));
    }
}

} // verus!
