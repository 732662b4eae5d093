use beanstalk_hir::ast::{
    AstNode, ChildTemplatePiece, DataType, DynamicExpressionPiece, Expression, ExpressionKind, NodeKind, Ownership,
    RelationalPatternOp, RenderPiece, RuntimeSlotApplication, Template, TemplateRenderPlan,
};
use beanstalk_hir::hir_nodes::HirRelationalPatternOp;
use beanstalk_hir::ids::LocalId;
use beanstalk_hir::templates::{
    expression_contains_runtime_slot_application, lower_relational_pattern_op, render_piece_contains_runtime_slot_application,
    render_plan_contains_runtime_slot_application, runtime_template_for_expression, RuntimeSlotContributionSourceId,
    RuntimeSlotPlaceholderPolicy, RuntimeSlotSourceAccumulatorContext, RuntimeTemplateAppendContext,
};
use beanstalk_hir::tokens::{CharPosition, TextLocation};

fn loc() -> TextLocation {
    TextLocation {
        scope: 0,
        start_pos: CharPosition { line_number: 1, char_column: 1 },
        end_pos: CharPosition { line_number: 1, char_column: 2 },
    }
}

fn expr(kind: ExpressionKind) -> Expression {
    Expression { kind, data_type: DataType::String, ownership: Ownership::ImmutableOwned, location: loc() }
}

fn template(slot: bool, pieces: Option<Vec<RenderPiece>>) -> Expression {
    expr(ExpressionKind::Template(Box::new(Template {
        runtime_slot_application: if slot { Some(RuntimeSlotApplication { wrapper_id: 0 }) } else { None },
        render_plan: pieces.map(|pieces| TemplateRenderPlan { pieces }),
    })))
}

#[test]
fn accumulator_insert_grows_and_overwrites() {
    let mut c = RuntimeSlotSourceAccumulatorContext::new();
    assert_eq!(c.local_for(RuntimeSlotContributionSourceId(0)), None);
    c.insert(RuntimeSlotContributionSourceId(2), LocalId(7));
    assert_eq!(c.local_for(RuntimeSlotContributionSourceId(0)), Some(LocalId(7)));
    assert_eq!(c.local_for(RuntimeSlotContributionSourceId(2)), Some(LocalId(7)));
    assert_eq!(c.local_for(RuntimeSlotContributionSourceId(3)), None);
    c.insert(RuntimeSlotContributionSourceId(1), LocalId(9));
    assert_eq!(c.local_for(RuntimeSlotContributionSourceId(1)), Some(LocalId(9)));
    assert_eq!(c.local_for(RuntimeSlotContributionSourceId(2)), Some(LocalId(7)));
}

#[test]
fn append_context_builders() {
    let c = RuntimeTemplateAppendContext::new(LocalId(1));
    assert_eq!(c.target_accumulator(), LocalId(1));
    assert_eq!(c.emitted_output(), None);
    assert!(!c.rejects_unresolved_slots());
    assert_eq!(c.slot_placeholder_policy, RuntimeSlotPlaceholderPolicy::MissingSlotRendersEmpty);
    let c = c.with_emitted_output(Some(LocalId(4))).with_target_accumulator(LocalId(2)).rejecting_unresolved_slots();
    assert_eq!(c.target_accumulator(), LocalId(2));
    assert_eq!(c.emitted_output(), Some(LocalId(4)));
    assert!(c.rejects_unresolved_slots());
    let sources = RuntimeSlotSourceAccumulatorContext::new();
    let sites = Vec::new();
    let c = c.with_runtime_slot_sites(&sources, &sites);
    assert!(c.source_accumulators.is_some());
    assert!(c.slot_sites.is_some());
    assert!(c.loop_control_flush.is_none());
}

#[test]
fn relational_pattern_ops() {
    assert_eq!(lower_relational_pattern_op(RelationalPatternOp::LessThan), HirRelationalPatternOp::LessThan);
    assert_eq!(lower_relational_pattern_op(RelationalPatternOp::LessThanOrEqual), HirRelationalPatternOp::LessThanOrEqual);
    assert_eq!(lower_relational_pattern_op(RelationalPatternOp::GreaterThan), HirRelationalPatternOp::GreaterThan);
    assert_eq!(
        lower_relational_pattern_op(RelationalPatternOp::GreaterThanOrEqual),
        HirRelationalPatternOp::GreaterThanOrEqual
    );
}

#[test]
fn template_seen_through_coercion_and_runtime_wrapper() {
    let t = template(true, None);
    assert!(runtime_template_for_expression(&t).is_some());
    let coerced = expr(ExpressionKind::Coerced { value: Box::new(template(false, None)) });
    assert!(runtime_template_for_expression(&coerced).unwrap().runtime_slot_application.is_none());
    let wrapped = expr(ExpressionKind::Runtime(vec![AstNode { kind: NodeKind::Rvalue(template(true, None)), location: loc() }]));
    assert!(runtime_template_for_expression(&wrapped).unwrap().runtime_slot_application.is_some());
    let two = expr(ExpressionKind::Runtime(vec![
        AstNode { kind: NodeKind::Rvalue(template(true, None)), location: loc() },
        AstNode { kind: NodeKind::Newline, location: loc() },
    ]));
    assert!(runtime_template_for_expression(&two).is_none());
    assert!(runtime_template_for_expression(&expr(ExpressionKind::Int(1))).is_none());
}

#[test]
fn slot_application_detection() {
    assert!(expression_contains_runtime_slot_application(&template(true, None)));
    assert!(!expression_contains_runtime_slot_application(&template(false, None)));
    assert!(!expression_contains_runtime_slot_application(&expr(ExpressionKind::Bool(true))));
    let plain = template(false, Some(vec![RenderPiece::Text(String::from("hi")), RenderPiece::Slot(0)]));
    assert!(!expression_contains_runtime_slot_application(&plain));
    let site = template(false, Some(vec![RenderPiece::Text(String::from("hi")), RenderPiece::RuntimeSlotSite(1)]));
    assert!(expression_contains_runtime_slot_application(&site));
    let nested = template(
        false,
        Some(vec![RenderPiece::DynamicExpression(DynamicExpressionPiece { expression: template(true, None) })]),
    );
    assert!(expression_contains_runtime_slot_application(&nested));
    let child = RenderPiece::ChildTemplate(ChildTemplatePiece {
        expression: expr(ExpressionKind::Coerced { value: Box::new(template(true, None)) }),
    });
    assert!(render_piece_contains_runtime_slot_application(&child));
    let plan = TemplateRenderPlan { pieces: vec![RenderPiece::HeadContent(String::from("x")), child] };
    assert!(render_plan_contains_runtime_slot_application(&plan));
    let empty = TemplateRenderPlan { pieces: Vec::new() };
    assert!(!render_plan_contains_runtime_slot_application(&empty));
}
