use beanstalk_hir::expression_rewrite::{
    rewrite_expression_bottom_up, rewrite_place_expressions_bottom_up, substitute_locals_in_expression,
    substitute_locals_in_place,
};
use beanstalk_hir::expressions::{copy_hir_expression, HirExpression, HirExpressionKind, HirPlace, HirVariantField};
use beanstalk_hir::hir_datatypes::TypeId;
use beanstalk_hir::hir_nodes::{HirBinOp, HirVariantCarrier, ValueKind};
use beanstalk_hir::ids::{ChoiceId, FieldId, HirValueId, LocalId, RegionId, StringId, StructId};
use rustc_hash::FxHashMap;

fn expr(id: u32, kind: HirExpressionKind) -> HirExpression {
    HirExpression { id: HirValueId(id), kind, ty: TypeId(0), value_kind: ValueKind::RValue, region: RegionId(0) }
}

fn load(id: u32, local: u32) -> HirExpression {
    expr(id, HirExpressionKind::Load(HirPlace::Local(LocalId(local))))
}

fn int_expr(id: u32, value: i64) -> HirExpression {
    expr(id, HirExpressionKind::Int(value))
}

fn payload(id: u32) -> HirExpression {
    expr(
        id,
        HirExpressionKind::VariantPayloadGet {
            carrier: HirVariantCarrier::Choice { choice_id: ChoiceId(0) },
            source: Box::new(load(id + 1, 9)),
            variant_index: 1,
            field_index: 0,
        },
    )
}

fn show(e: &HirExpression) -> String {
    format!("{:?}", e)
}

#[test]
fn bare_local_reads_are_replaced() {
    let mut subs = FxHashMap::default();
    subs.insert(1, payload(100));
    let input = expr(
        1,
        HirExpressionKind::BinOp {
            left: Box::new(load(2, 1)),
            op: HirBinOp::Add,
            right: Box::new(expr(3, HirExpressionKind::Copy(HirPlace::Local(LocalId(2))))),
        },
    );
    let expected = expr(
        1,
        HirExpressionKind::BinOp {
            left: Box::new(payload(100)),
            op: HirBinOp::Add,
            right: Box::new(expr(3, HirExpressionKind::Copy(HirPlace::Local(LocalId(2))))),
        },
    );
    assert_eq!(show(&substitute_locals_in_expression(&input, &subs)), show(&expected));
}

#[test]
fn copies_of_substituted_locals_are_replaced() {
    let mut subs = FxHashMap::default();
    subs.insert(4, int_expr(50, 8));
    let input = expr(1, HirExpressionKind::Copy(HirPlace::Local(LocalId(4))));
    assert_eq!(show(&substitute_locals_in_expression(&input, &subs)), show(&int_expr(50, 8)));
}

#[test]
fn substitution_reaches_every_child() {
    let mut subs = FxHashMap::default();
    subs.insert(1, int_expr(100, 5));
    let input = expr(
        1,
        HirExpressionKind::Collection(vec![
            expr(2, HirExpressionKind::StructConstruct { struct_id: StructId(0), fields: vec![(FieldId(3), load(3, 1))] }),
            expr(
                4,
                HirExpressionKind::VariantConstruct {
                    carrier: HirVariantCarrier::Option,
                    variant_index: 0,
                    fields: vec![HirVariantField { name: Some(StringId(2)), value: load(5, 1) }],
                },
            ),
            expr(6, HirExpressionKind::TupleConstruct { elements: vec![load(7, 1), load(8, 2)] }),
            expr(9, HirExpressionKind::ResultIsOk { result: Box::new(load(10, 1)) }),
        ]),
    );
    let expected = expr(
        1,
        HirExpressionKind::Collection(vec![
            expr(2, HirExpressionKind::StructConstruct { struct_id: StructId(0), fields: vec![(FieldId(3), int_expr(100, 5))] }),
            expr(
                4,
                HirExpressionKind::VariantConstruct {
                    carrier: HirVariantCarrier::Option,
                    variant_index: 0,
                    fields: vec![HirVariantField { name: Some(StringId(2)), value: int_expr(100, 5) }],
                },
            ),
            expr(6, HirExpressionKind::TupleConstruct { elements: vec![int_expr(100, 5), load(8, 2)] }),
            expr(9, HirExpressionKind::ResultIsOk { result: Box::new(int_expr(100, 5)) }),
        ]),
    );
    assert_eq!(show(&substitute_locals_in_expression(&input, &subs)), show(&expected));
}

#[test]
fn projected_places_keep_their_root_but_indices_are_substituted() {
    let mut subs = FxHashMap::default();
    subs.insert(1, int_expr(100, 0));
    let place = HirPlace::Index {
        base: Box::new(HirPlace::Field { base: Box::new(HirPlace::Local(LocalId(1))), field: FieldId(2) }),
        index: Box::new(load(3, 1)),
    };
    let expected = HirPlace::Index {
        base: Box::new(HirPlace::Field { base: Box::new(HirPlace::Local(LocalId(1))), field: FieldId(2) }),
        index: Box::new(int_expr(100, 0)),
    };
    assert_eq!(format!("{:?}", substitute_locals_in_place(&place, &subs)), format!("{:?}", expected));
}

#[test]
fn empty_substitution_changes_nothing() {
    let subs: FxHashMap<u32, HirExpression> = FxHashMap::default();
    let input = expr(
        1,
        HirExpressionKind::Range {
            start: Box::new(expr(2, HirExpressionKind::Float(1.5f64.to_bits()))),
            end: Box::new(expr(3, HirExpressionKind::StringLiteral(String::from("end")))),
        },
    );
    assert_eq!(show(&substitute_locals_in_expression(&input, &subs)), show(&input));
}

#[test]
fn unsubstituted_locals_stay() {
    let mut subs = FxHashMap::default();
    subs.insert(7, int_expr(100, 1));
    let input = expr(1, HirExpressionKind::UnaryOp { op: beanstalk_hir::hir_nodes::HirUnaryOp::Not, operand: Box::new(load(2, 3)) });
    assert_eq!(show(&substitute_locals_in_expression(&input, &subs)), show(&input));
}

#[test]
fn copies_are_equal() {
    let input = expr(
        1,
        HirExpressionKind::TupleGet { tuple: Box::new(expr(2, HirExpressionKind::Char('x'))), index: 3 },
    );
    assert_eq!(show(&copy_hir_expression(&input)), show(&input));
}

fn add(id: u32, left: HirExpression, right: HirExpression) -> HirExpression {
    expr(id, HirExpressionKind::BinOp { left: Box::new(left), op: HirBinOp::Add, right: Box::new(right) })
}

fn fold_constant_additions(e: &HirExpression) -> Option<HirExpression> {
    match &e.kind {
        HirExpressionKind::BinOp { left, op: HirBinOp::Add, right } => match (&left.kind, &right.kind) {
            (HirExpressionKind::Int(a), HirExpressionKind::Int(b)) => Some(int_expr(e.id.0, a + b)),
            _ => None,
        },
        _ => None,
    }
}

#[test]
fn bottom_up_rewrite_sees_rewritten_children() {
    let input = add(1, add(2, int_expr(3, 1), int_expr(4, 2)), add(5, int_expr(6, 3), int_expr(7, 4)));
    let r = rewrite_expression_bottom_up(&input, &fold_constant_additions);
    assert_eq!(show(&r), show(&int_expr(1, 10)));
}

#[test]
fn bottom_up_rewrite_keeps_unanswered_nodes() {
    let input = add(1, add(2, int_expr(3, 1), load(4, 0)), int_expr(5, 3));
    let r = rewrite_expression_bottom_up(&input, &fold_constant_additions);
    assert_eq!(show(&r), show(&input));
    let none = |_: &HirExpression| -> Option<HirExpression> { None };
    let tree = expr(
        1,
        HirExpressionKind::Collection(vec![
            expr(2, HirExpressionKind::Bool(true)),
            expr(3, HirExpressionKind::Load(HirPlace::Index { base: Box::new(HirPlace::Local(LocalId(1))), index: Box::new(int_expr(4, 0)) })),
        ]),
    );
    assert_eq!(show(&rewrite_expression_bottom_up(&tree, &none)), show(&tree));
}

#[test]
fn bottom_up_rewrite_reaches_place_indices() {
    let place = HirPlace::Field {
        base: Box::new(HirPlace::Index { base: Box::new(HirPlace::Local(LocalId(1))), index: Box::new(add(2, int_expr(3, 4), int_expr(4, 5))) }),
        field: FieldId(0),
    };
    let expected = HirPlace::Field {
        base: Box::new(HirPlace::Index { base: Box::new(HirPlace::Local(LocalId(1))), index: Box::new(int_expr(2, 9)) }),
        field: FieldId(0),
    };
    assert_eq!(
        format!("{:?}", rewrite_place_expressions_bottom_up(&place, &fold_constant_additions)),
        format!("{:?}", expected)
    );
}
