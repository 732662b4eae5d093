use beanstalk_hir::ast::{
    AstNode, DataType, Expression, ExpressionKind, HostFunctionId, MatchArm, NodeKind, Operator,
    Ownership, Var,
};
use beanstalk_hir::build_hir::{HirBuilderContext, ScopeType};
use beanstalk_hir::control_flow_linearizer::ControlFlowLinearizer;
use beanstalk_hir::errors::CompilerError;
use beanstalk_hir::expression_linearizer::ExpressionLinearizer;
use beanstalk_hir::nodes::{
    BinOp, CallTarget, HirExprKind, HirKind, HirPattern, HirPlace, HirStmt, HirTerminator,
};
use beanstalk_hir::string_table::StringTable;
use beanstalk_hir::tokens::{CharPosition, TextLocation};

fn loc(line: i32) -> TextLocation {
    TextLocation {
        scope: 0,
        start_pos: CharPosition { line_number: line, char_column: 1 },
        end_pos: CharPosition { line_number: line, char_column: 5 },
    }
}

fn expr(kind: ExpressionKind) -> Expression {
    Expression { kind, data_type: DataType::Int, ownership: Ownership::ImmutableOwned, location: loc(1) }
}

fn int_expr(v: i64) -> Expression {
    expr(ExpressionKind::Int(v))
}

fn node(kind: NodeKind) -> AstNode {
    AstNode { kind, location: loc(2) }
}

fn rvalue(e: Expression) -> AstNode {
    node(NodeKind::Rvalue(e))
}

fn builder() -> HirBuilderContext {
    HirBuilderContext::new(StringTable::new())
}

// ---------------------------------------------------------------------------
// Expressions
// ---------------------------------------------------------------------------

#[test]
fn literal_lowers_without_nodes() {
    let mut ctx = builder();
    let mut lin = ExpressionLinearizer::new();
    let (nodes, e) = lin.linearize_expression(&int_expr(7), &mut ctx).unwrap();
    assert!(nodes.is_empty());
    assert!(matches!(e.kind, HirExprKind::Int(7)));
}

#[test]
fn runtime_rpn_builds_binary_operation() {
    let mut ctx = builder();
    let mut lin = ExpressionLinearizer::new();
    let runtime = expr(ExpressionKind::Runtime(vec![
        rvalue(int_expr(1)),
        rvalue(int_expr(2)),
        node(NodeKind::Operator(Operator::Add)),
    ]));
    let (nodes, e) = lin.linearize_expression(&runtime, &mut ctx).unwrap();
    assert!(nodes.is_empty());
    match e.kind {
        HirExprKind::BinOp { left, op, right } => {
            assert_eq!(op, BinOp::Add);
            assert!(matches!(left.kind, HirExprKind::Int(1)));
            assert!(matches!(right.kind, HirExprKind::Int(2)));
        }
        other => panic!("unexpected {:?}", other),
    }
}

#[test]
fn runtime_rpn_unary_not() {
    let mut ctx = builder();
    let mut lin = ExpressionLinearizer::new();
    let runtime = expr(ExpressionKind::Runtime(vec![
        rvalue(expr(ExpressionKind::Bool(true))),
        node(NodeKind::Operator(Operator::Not)),
    ]));
    let (_, e) = lin.linearize_expression(&runtime, &mut ctx).unwrap();
    assert!(matches!(e.kind, HirExprKind::UnaryOp { .. }));
}

#[test]
fn runtime_rpn_missing_operands_is_an_error() {
    let mut ctx = builder();
    let mut lin = ExpressionLinearizer::new();
    let runtime = expr(ExpressionKind::Runtime(vec![rvalue(int_expr(1)), node(NodeKind::Operator(Operator::Multiply))]));
    let r = lin.linearize_expression(&runtime, &mut ctx);
    assert_eq!(r.unwrap_err(), CompilerError::MissingBinaryOperands(Operator::Multiply));
}

#[test]
fn runtime_rpn_missing_unary_operand_is_an_error() {
    let mut ctx = builder();
    let mut lin = ExpressionLinearizer::new();
    let runtime = expr(ExpressionKind::Runtime(vec![node(NodeKind::Operator(Operator::Not))]));
    let r = lin.linearize_expression(&runtime, &mut ctx);
    assert_eq!(r.unwrap_err(), CompilerError::MissingUnaryOperand(Operator::Not));
}

#[test]
fn runtime_rpn_leftover_values_is_an_error() {
    let mut ctx = builder();
    let mut lin = ExpressionLinearizer::new();
    let runtime = expr(ExpressionKind::Runtime(vec![rvalue(int_expr(1)), rvalue(int_expr(2)), rvalue(int_expr(3))]));
    let r = lin.linearize_expression(&runtime, &mut ctx);
    assert_eq!(r.unwrap_err(), CompilerError::UnusedStackValues(2));
}

#[test]
fn range_operator_in_rpn_is_rejected() {
    let mut ctx = builder();
    let mut lin = ExpressionLinearizer::new();
    let runtime = expr(ExpressionKind::Runtime(vec![
        rvalue(int_expr(1)),
        rvalue(int_expr(2)),
        node(NodeKind::Operator(Operator::Range)),
    ]));
    let r = lin.linearize_expression(&runtime, &mut ctx);
    assert_eq!(r.unwrap_err(), CompilerError::RangeHandledSeparately);
}

#[test]
fn non_expression_kinds_are_rejected() {
    let mut ctx = builder();
    let mut lin = ExpressionLinearizer::new();
    assert_eq!(
        lin.linearize_expression(&expr(ExpressionKind::Function(3)), &mut ctx).unwrap_err(),
        CompilerError::FunctionExpression
    );
    assert_eq!(
        lin.linearize_expression(&expr(ExpressionKind::StructDefinition(Vec::new())), &mut ctx).unwrap_err(),
        CompilerError::StructDefinitionExpression
    );
}

#[test]
fn operator_conversion() {
    let lin = ExpressionLinearizer::new();
    assert_eq!(lin.convert_operator(&Operator::Subtract), Ok(BinOp::Sub));
    assert_eq!(lin.convert_operator(&Operator::Equality), Ok(BinOp::Eq));
    assert_eq!(lin.convert_operator(&Operator::Not), Err(CompilerError::NotIsUnaryOperator));
    assert!(lin.convert_unary_operator(&Operator::Subtract).is_ok());
    assert_eq!(lin.convert_unary_operator(&Operator::Add), Err(CompilerError::NotAUnaryOperator(Operator::Add)));
}

#[test]
fn call_arguments_lower_in_order() {
    let mut ctx = builder();
    let mut lin = ExpressionLinearizer::new();
    let call = expr(ExpressionKind::FunctionCall(4, vec![int_expr(1), int_expr(2)]));
    let (_, e) = lin.linearize_expression(&call, &mut ctx).unwrap();
    match e.kind {
        HirExprKind::Call { target, args } => {
            assert_eq!(target, CallTarget::UserFunction(4));
            assert_eq!(args.len(), 2);
            assert!(matches!(args[0].kind, HirExprKind::Int(1)));
            assert!(matches!(args[1].kind, HirExprKind::Int(2)));
        }
        other => panic!("unexpected {:?}", other),
    }
}

#[test]
fn temporaries_get_distinct_names() {
    let mut ctx = builder();
    let mut lin = ExpressionLinearizer::new();
    let (n1, l1) = lin.create_temporary_with_value(
        beanstalk_hir::nodes::HirExpr { kind: HirExprKind::Int(1), location: loc(3) },
        &mut ctx,
    );
    let (n2, l2) = lin.create_temporary_with_value(
        beanstalk_hir::nodes::HirExpr { kind: HirExprKind::Int(2), location: loc(3) },
        &mut ctx,
    );
    assert_eq!(n1.len(), 1);
    assert_eq!(n2.len(), 1);
    let name = |e: &beanstalk_hir::nodes::HirExpr| match &e.kind {
        HirExprKind::Load(HirPlace::Var(v)) => *v,
        other => panic!("unexpected {:?}", other),
    };
    assert_ne!(name(&l1), name(&l2));
    assert!(lin.is_compiler_local(&name(&l1)));
    assert_eq!(ctx.string_table().resolve(name(&l1)), "__tmp_0");
    assert_eq!(ctx.string_table().resolve(name(&l2)), "__tmp_1");
}

// ---------------------------------------------------------------------------
// Statements and control flow
// ---------------------------------------------------------------------------

#[test]
fn break_outside_loop_is_an_error() {
    let mut ctx = builder();
    let mut cfl = ControlFlowLinearizer::new();
    assert_eq!(cfl.linearize_break(&loc(1), &mut ctx).unwrap_err(), CompilerError::BreakOutsideLoop);
    assert_eq!(cfl.linearize_continue(&loc(1), &mut ctx).unwrap_err(), CompilerError::ContinueOutsideLoop);
}

#[test]
fn break_targets_innermost_loop() {
    let mut ctx = builder();
    let mut cfl = ControlFlowLinearizer::new();
    ctx.enter_scope(ScopeType::Loop { break_target: 10, continue_target: 11 });
    ctx.enter_scope(ScopeType::Loop { break_target: 20, continue_target: 21 });
    ctx.enter_scope(ScopeType::If);
    let b = cfl.linearize_break(&loc(1), &mut ctx).unwrap();
    assert!(matches!(b.kind, HirKind::Terminator(HirTerminator::Break { target: 20 })));
    let c = cfl.linearize_continue(&loc(1), &mut ctx).unwrap();
    assert!(matches!(c.kind, HirKind::Terminator(HirTerminator::Continue { target: 21 })));
    assert_eq!(b.id, 0);
    assert_eq!(c.id, 1);
}

#[test]
fn variable_declaration_becomes_assignment() {
    let mut ctx = builder();
    let mut cfl = ControlFlowLinearizer::new();
    let mut value = int_expr(5);
    value.ownership = Ownership::MutableOwned;
    let decl = node(NodeKind::VariableDeclaration(Var { id: 9, value }));
    let nodes = cfl.linearize_ast_node(&decl, &mut ctx).unwrap();
    assert_eq!(nodes.len(), 1);
    match &nodes[0].kind {
        HirKind::Stmt(HirStmt::Assign { target: HirPlace::Var(9), value, is_mutable: true }) => {
            assert!(matches!(value.kind, HirExprKind::Int(5)));
        }
        other => panic!("unexpected {:?}", other),
    }
    assert_eq!(nodes[0].id, 0);
}

#[test]
fn assignment_to_field_place() {
    let mut ctx = builder();
    let mut cfl = ControlFlowLinearizer::new();
    let target = node(NodeKind::FieldAccess { base: Box::new(rvalue(expr(ExpressionKind::Reference(3)))), field: 8 });
    let assign = node(NodeKind::Assignment { target: Box::new(target), value: int_expr(1) });
    let nodes = cfl.linearize_ast_node(&assign, &mut ctx).unwrap();
    match &nodes[0].kind {
        HirKind::Stmt(HirStmt::Assign { target: HirPlace::Field { base, field: 8 }, is_mutable: true, .. }) => {
            assert!(matches!(**base, HirPlace::Var(3)));
        }
        other => panic!("unexpected {:?}", other),
    }
}

#[test]
fn assignment_to_literal_is_an_error() {
    let mut ctx = builder();
    let mut cfl = ControlFlowLinearizer::new();
    let assign = node(NodeKind::Assignment { target: Box::new(rvalue(int_expr(3))), value: int_expr(1) });
    assert_eq!(
        cfl.linearize_ast_node(&assign, &mut ctx).unwrap_err(),
        CompilerError::InvalidAssignmentTargetExpression
    );
    let assign = node(NodeKind::Assignment { target: Box::new(node(NodeKind::Break)), value: int_expr(1) });
    assert_eq!(cfl.linearize_ast_node(&assign, &mut ctx).unwrap_err(), CompilerError::InvalidAssignmentTargetNode);
}

#[test]
fn host_call_statement() {
    let mut ctx = builder();
    let mut cfl = ControlFlowLinearizer::new();
    let call = node(NodeKind::HostFunctionCall { host_function_id: HostFunctionId::Io, args: vec![int_expr(1)], location: loc(9) });
    let nodes = cfl.linearize_ast_node(&call, &mut ctx).unwrap();
    assert_eq!(nodes[0].location, loc(9));
    assert!(matches!(
        nodes[0].kind,
        HirKind::Stmt(HirStmt::Call { target: CallTarget::HostFunction(HostFunctionId::Io), .. })
    ));
}

#[test]
fn return_collects_values() {
    let mut ctx = builder();
    let mut cfl = ControlFlowLinearizer::new();
    let ret = node(NodeKind::Return(vec![int_expr(1), int_expr(2)]));
    let nodes = cfl.linearize_ast_node(&ret, &mut ctx).unwrap();
    match &nodes[0].kind {
        HirKind::Terminator(HirTerminator::Return(values)) => assert_eq!(values.len(), 2),
        other => panic!("unexpected {:?}", other),
    }
}

#[test]
fn unhandled_statements_yield_nothing() {
    let mut ctx = builder();
    let mut cfl = ControlFlowLinearizer::new();
    assert!(cfl.linearize_ast_node(&node(NodeKind::Break), &mut ctx).unwrap().is_empty());
    assert!(cfl.linearize_ast_node(&node(NodeKind::Newline), &mut ctx).unwrap().is_empty());
}

#[test]
fn if_else_creates_branch_blocks_ending_in_terminators() {
    let mut ctx = builder();
    let mut cfl = ControlFlowLinearizer::new();
    let then_body = vec![rvalue(int_expr(1))];
    let else_body = vec![node(NodeKind::Return(vec![int_expr(2)]))];
    let stmt = node(NodeKind::If(expr(ExpressionKind::Bool(true)), then_body, Some(else_body)));
    let nodes = cfl.linearize_ast_node(&stmt, &mut ctx).unwrap();
    assert_eq!(nodes.len(), 1);
    match &nodes[0].kind {
        HirKind::Terminator(HirTerminator::If { then_block, else_block, .. }) => {
            assert_eq!(*then_block, 0);
            assert_eq!(*else_block, Some(1));
        }
        other => panic!("unexpected {:?}", other),
    }
    // then block: expression statement, then a jump to the merge block (2)
    let then_block = ctx.get_block(0).unwrap();
    assert_eq!(then_block.nodes.len(), 2);
    assert!(matches!(then_block.nodes[1].kind, HirKind::Terminator(HirTerminator::Break { target: 2 })));
    // else block ends with its own return and gets no jump
    let else_block = ctx.get_block(1).unwrap();
    assert_eq!(else_block.nodes.len(), 1);
    assert!(matches!(else_block.nodes[0].kind, HirKind::Terminator(HirTerminator::Return(_))));
    assert!(cfl.block_has_terminator(&ctx, 0));
    assert!(cfl.block_has_terminator(&ctx, 1));
    // the merge block is created empty
    assert!(!cfl.block_has_terminator(&ctx, 2));
    assert!(cfl.ensure_block_termination(&ctx, 0).is_ok());
    assert_eq!(cfl.ensure_block_termination(&ctx, 2), Err(CompilerError::MissingTerminator(2)));
    assert_eq!(ctx.current_scope_depth(), 0);
}

#[test]
fn while_loop_layout() {
    let mut ctx = builder();
    let mut cfl = ControlFlowLinearizer::new();
    let body = vec![node(NodeKind::Break), rvalue(int_expr(1))];
    let stmt = node(NodeKind::WhileLoop(expr(ExpressionKind::Bool(true)), body));
    let nodes = cfl.linearize_ast_node(&stmt, &mut ctx).unwrap();
    // jump into the condition block
    assert!(matches!(nodes[0].kind, HirKind::Terminator(HirTerminator::Break { target: 0 })));
    let cond = ctx.get_block(0).unwrap();
    assert_eq!(cond.nodes.len(), 1);
    assert!(matches!(
        cond.nodes[0].kind,
        HirKind::Terminator(HirTerminator::If { then_block: 1, else_block: Some(2), .. })
    ));
    // body falls through to a continue back to the condition block
    let body = ctx.get_block(1).unwrap();
    assert!(matches!(body.nodes.last().unwrap().kind, HirKind::Terminator(HirTerminator::Continue { target: 0 })));
    assert_eq!(ctx.current_scope_depth(), 0);
}

#[test]
fn for_loop_layout() {
    let mut ctx = builder();
    let mut cfl = ControlFlowLinearizer::new();
    let binding = Var { id: 4, value: int_expr(0) };
    let iterator = expr(ExpressionKind::Range(Box::new(int_expr(0)), Box::new(int_expr(10))));
    let stmt = node(NodeKind::ForLoop(Box::new(binding), iterator, Vec::new()));
    let nodes = cfl.linearize_ast_node(&stmt, &mut ctx).unwrap();
    match &nodes[0].kind {
        HirKind::Terminator(HirTerminator::Loop { label, binding, iterator, body, index_binding }) => {
            assert_eq!(*label, 1);
            assert_eq!(*body, 0);
            assert!(index_binding.is_none());
            assert_eq!(binding.as_ref().unwrap().0, 4);
            assert!(matches!(iterator.as_ref().unwrap().kind, HirExprKind::Range { .. }));
        }
        other => panic!("unexpected {:?}", other),
    }
    let body = ctx.get_block(0).unwrap();
    assert!(matches!(body.nodes[0].kind, HirKind::Terminator(HirTerminator::Continue { target: 0 })));
}

#[test]
fn match_layout() {
    let mut ctx = builder();
    let mut cfl = ControlFlowLinearizer::new();
    let arms = vec![
        MatchArm { condition: int_expr(1), body: vec![rvalue(int_expr(10))] },
        MatchArm {
            condition: expr(ExpressionKind::Range(Box::new(int_expr(2)), Box::new(int_expr(5)))),
            body: Vec::new(),
        },
        MatchArm { condition: expr(ExpressionKind::Empty), body: Vec::new() },
    ];
    let stmt = node(NodeKind::Match(int_expr(3), arms, Some(vec![rvalue(int_expr(0))])));
    let nodes = cfl.linearize_ast_node(&stmt, &mut ctx).unwrap();
    match &nodes[0].kind {
        HirKind::Terminator(HirTerminator::Match { arms, default_block, .. }) => {
            assert_eq!(arms.len(), 3);
            assert!(matches!(arms[0].pattern, HirPattern::Literal(_)));
            assert!(matches!(arms[1].pattern, HirPattern::Range { .. }));
            assert!(matches!(arms[2].pattern, HirPattern::Wildcard));
            assert_eq!(arms[0].body, 1);
            assert_eq!(arms[1].body, 2);
            assert_eq!(arms[2].body, 3);
            assert_eq!(*default_block, Some(4));
            for b in 1..5 {
                assert!(cfl.block_has_terminator(&ctx, b));
            }
        }
        other => panic!("unexpected {:?}", other),
    }
    // the match terminator is created last
    assert_eq!(nodes[0].id, 6);
}

#[test]
fn body_fails_with_first_error() {
    let mut ctx = builder();
    let mut cfl = ControlFlowLinearizer::new();
    let body = vec![
        rvalue(int_expr(1)),
        rvalue(expr(ExpressionKind::Function(1))),
        rvalue(expr(ExpressionKind::StructDefinition(Vec::new()))),
    ];
    assert_eq!(cfl.linearize_body(&body, &mut ctx).unwrap_err(), CompilerError::FunctionExpression);
}

#[test]
fn body_node_ids_increase() {
    let mut ctx = builder();
    let mut cfl = ControlFlowLinearizer::new();
    let body = vec![rvalue(int_expr(1)), node(NodeKind::Empty), rvalue(int_expr(2)), rvalue(int_expr(3))];
    let nodes = cfl.linearize_body(&body, &mut ctx).unwrap();
    let ids: Vec<usize> = nodes.iter().map(|n| n.id).collect();
    assert_eq!(ids, vec![0, 1, 2]);
}

#[test]
fn extra_terminators_are_reported() {
    let mut ctx = builder();
    let cfl = ControlFlowLinearizer::new();
    let b = ctx.create_block();
    let mut lin = ControlFlowLinearizer::new();
    ctx.enter_scope(ScopeType::Loop { break_target: 7, continue_target: 8 });
    let n1 = lin.linearize_break(&loc(1), &mut ctx).unwrap();
    let n2 = lin.linearize_continue(&loc(1), &mut ctx).unwrap();
    ctx.add_node_to_block(b, n1);
    ctx.add_node_to_block(b, n2);
    assert_eq!(cfl.ensure_block_termination(&ctx, b), Err(CompilerError::ExtraTerminators(b, 2)));
    assert!(cfl.ensure_block_termination(&ctx, 99).is_ok());
}

#[test]
fn misplaced_terminator_is_reported() {
    let mut ctx = builder();
    let mut lin = ControlFlowLinearizer::new();
    let b = ctx.create_block();
    ctx.enter_scope(ScopeType::Loop { break_target: 7, continue_target: 8 });
    let brk = lin.linearize_break(&loc(1), &mut ctx).unwrap();
    let stmt = lin.linearize_ast_node(&rvalue(int_expr(1)), &mut ctx).unwrap().into_iter().next().unwrap();
    ctx.add_node_to_block(b, brk);
    ctx.add_node_to_block(b, stmt);
    assert_eq!(lin.ensure_block_termination(&ctx, b), Err(CompilerError::MisplacedTerminator(b)));
}

#[test]
fn return_records_drop_point_for_owned_variables() {
    let mut ctx = builder();
    let mut cfl = ControlFlowLinearizer::new();
    ctx.enter_scope(ScopeType::Function);
    ctx.add_drop_candidate(5, loc(1));
    ctx.enter_scope(ScopeType::Block);
    ctx.add_drop_candidate(6, loc(2));
    let nodes = cfl.linearize_return(&vec![int_expr(1)], &loc(3), &mut ctx).unwrap();
    assert_eq!(nodes.len(), 1);
    assert!(matches!(nodes[0].kind, HirKind::Terminator(HirTerminator::Return(_))));
    let points = &ctx.metadata().drop_insertion_points;
    assert_eq!(points.len(), 1);
    assert_eq!(points[0].variables, vec![5, 6]);
    assert_eq!(points[0].insertion_type, beanstalk_hir::build_hir::DropInsertionType::Return);
    assert_eq!(points[0].location, loc(3));
}

#[test]
fn return_without_owned_variables_records_nothing() {
    let mut ctx = builder();
    let mut cfl = ControlFlowLinearizer::new();
    cfl.linearize_return(&Vec::new(), &loc(3), &mut ctx).unwrap();
    assert!(ctx.metadata().drop_insertion_points.is_empty());
}

#[test]
fn match_arms_fill_fresh_blocks_jumping_to_merge() {
    let mut ctx = builder();
    let mut cfl = ControlFlowLinearizer::new();
    let arms = vec![
        MatchArm { condition: int_expr(1), body: vec![rvalue(int_expr(10)), rvalue(int_expr(11))] },
        MatchArm { condition: int_expr(2), body: vec![node(NodeKind::Return(Vec::new()))] },
    ];
    let stmt = node(NodeKind::Match(int_expr(3), arms, Some(Vec::new())));
    let nodes = cfl.linearize_ast_node(&stmt, &mut ctx).unwrap();
    // the merge block comes first and stays empty
    assert!(ctx.get_block(0).unwrap().nodes.is_empty());
    match &nodes[0].kind {
        HirKind::Terminator(HirTerminator::Match { arms, default_block, .. }) => {
            assert_eq!((arms[0].body, arms[1].body, *default_block), (1, 2, Some(3)));
        }
        other => panic!("unexpected {:?}", other),
    }
    // first arm: both statements, then a jump to the merge block
    let first = ctx.get_block(1).unwrap();
    assert_eq!(first.nodes.len(), 3);
    assert!(matches!(first.nodes[0].kind, HirKind::Stmt(_)));
    assert!(matches!(first.nodes[1].kind, HirKind::Stmt(_)));
    assert!(matches!(first.nodes[2].kind, HirKind::Terminator(HirTerminator::Break { target: 0 })));
    // second arm ends in its own return: no jump is added
    let second = ctx.get_block(2).unwrap();
    assert_eq!(second.nodes.len(), 1);
    assert!(matches!(second.nodes[0].kind, HirKind::Terminator(HirTerminator::Return(_))));
    // empty default body: just the jump
    let default = ctx.get_block(3).unwrap();
    assert_eq!(default.nodes.len(), 1);
    assert!(matches!(default.nodes[0].kind, HirKind::Terminator(HirTerminator::Break { target: 0 })));
}

#[test]
fn runtime_intermediate_result_held_in_temporary() {
    let mut ctx = builder();
    let mut lin = ExpressionLinearizer::new();
    let rpn = vec![
        rvalue(int_expr(1)),
        rvalue(int_expr(2)),
        node(NodeKind::Operator(Operator::Add)),
        rvalue(int_expr(3)),
        node(NodeKind::Operator(Operator::Multiply)),
    ];
    let (nodes, e) = lin.linearize_runtime_expression(&rpn, &loc(9), &mut ctx).unwrap();
    assert_eq!(nodes.len(), 1);
    let temp = match &nodes[0].kind {
        HirKind::Stmt(HirStmt::Assign { target: HirPlace::Var(t), value, is_mutable }) => {
            assert!(*is_mutable);
            match &value.kind {
                HirExprKind::BinOp { left, op, right } => {
                    assert_eq!(*op, BinOp::Add);
                    assert!(matches!(left.kind, HirExprKind::Int(1)));
                    assert!(matches!(right.kind, HirExprKind::Int(2)));
                }
                other => panic!("unexpected {:?}", other),
            }
            *t
        }
        other => panic!("unexpected {:?}", other),
    };
    assert!(lin.is_compiler_local(&temp));
    assert_eq!(ctx.string_table().resolve(temp), "__tmp_0");
    match e.kind {
        HirExprKind::BinOp { left, op, right } => {
            assert_eq!(op, BinOp::Mul);
            assert!(matches!(left.kind, HirExprKind::Load(HirPlace::Var(t)) if t == temp));
            assert!(matches!(right.kind, HirExprKind::Int(3)));
        }
        other => panic!("unexpected {:?}", other),
    }
}

#[test]
fn runtime_single_operation_needs_no_temporary() {
    let mut ctx = builder();
    let mut lin = ExpressionLinearizer::new();
    let rpn = vec![rvalue(int_expr(1)), rvalue(int_expr(2)), node(NodeKind::Operator(Operator::Add))];
    let (nodes, e) = lin.linearize_runtime_expression(&rpn, &loc(9), &mut ctx).unwrap();
    assert!(nodes.is_empty());
    assert!(matches!(e.kind, HirExprKind::BinOp { op: BinOp::Add, .. }));
}

#[test]
fn runtime_leftover_values_are_an_error() {
    let mut ctx = builder();
    let mut lin = ExpressionLinearizer::new();
    let rpn = vec![rvalue(int_expr(1)), rvalue(int_expr(2)), node(NodeKind::Operator(Operator::Not)), rvalue(int_expr(3))];
    let r = lin.linearize_runtime_expression(&rpn, &loc(9), &mut ctx);
    assert_eq!(r.unwrap_err(), CompilerError::UnusedStackValues(2));
}
