//! HIR expressions: typed value-producing trees used by statements, terminators and
//! pattern matching, with the places they read from.
//!
//! Each expression is modelled by a value of the same shape with sequences in place of
//! vectors (`hir_expression_model`), and `copy_hir_expression` makes a copy with the same
//! model.

use vstd::prelude::*;
use crate::hir_datatypes::TypeId;
use crate::hir_nodes::{HirBinOp, HirBuiltinCastKind, HirUnaryOp, HirVariantCarrier, ValueKind};
use crate::ids::{FieldId, HirValueId, LocalId, RegionId, StringId, StructId};

verus! {

/// A memory place: a local, a field of a place, or an indexed element of a place.
#[derive(Debug)]
pub enum HirPlace {
    Local(LocalId),
    Field { base: Box<HirPlace>, field: FieldId },
    Index { base: Box<HirPlace>, index: Box<HirExpression> },
}

/// One field inside a `VariantConstruct`: its name, if the payload field has one, and its
/// value.
#[derive(Debug)]
pub struct HirVariantField {
    pub name: Option<StringId>,
    pub value: HirExpression,
}

/// A typed expression node.
#[derive(Debug)]
pub struct HirExpression {
    pub id: HirValueId,
    pub kind: HirExpressionKind,
    pub ty: TypeId,
    pub value_kind: ValueKind,
    pub region: RegionId,
}

/// The kinds of expressions.
#[derive(Debug)]
pub enum HirExpressionKind {
    Int(i64),
    /// A float literal, held as the bit pattern of its 64-bit IEEE 754 value.
    Float(u64),
    Bool(bool),
    Char(char),
    StringLiteral(String),
    /// Reads the value at a place.
    Load(HirPlace),
    /// Copies the value at a place.
    Copy(HirPlace),
    BinOp { left: Box<HirExpression>, op: HirBinOp, right: Box<HirExpression> },
    UnaryOp { op: HirUnaryOp, operand: Box<HirExpression> },
    StructConstruct { struct_id: StructId, fields: Vec<(FieldId, HirExpression)> },
    Collection(Vec<HirExpression>),
    Range { start: Box<HirExpression>, end: Box<HirExpression> },
    /// A tuple value; the empty tuple is the unit value.
    TupleConstruct { elements: Vec<HirExpression> },
    /// A tuple slot, by flat index.
    TupleGet { tuple: Box<HirExpression>, index: usize },
    /// The success value of a result, or propagation of its error.
    ResultPropagate { result: Box<HirExpression> },
    /// Whether a result holds a success value.
    ResultIsOk { result: Box<HirExpression> },
    /// The success payload of a result.
    ResultUnwrapOk { result: Box<HirExpression> },
    /// The error payload of a result.
    ResultUnwrapErr { result: Box<HirExpression> },
    BuiltinCast { kind: HirBuiltinCastKind, value: Box<HirExpression> },
    /// A variant value of a choice, option or result carrier.
    VariantConstruct { carrier: HirVariantCarrier, variant_index: usize, fields: Vec<HirVariantField> },
    /// A payload field of a variant value.
    VariantPayloadGet {
        carrier: HirVariantCarrier,
        source: Box<HirExpression>,
        variant_index: usize,
        field_index: usize,
    },
}

// ============================================================================
// Mathematical model
// ============================================================================

/// Model of a [`HirPlace`].
pub enum HirPlaceModel {
    Local(LocalId),
    Field { base: Box<HirPlaceModel>, field: FieldId },
    Index { base: Box<HirPlaceModel>, index: Box<HirExpressionModel> },
}

/// Model of a [`HirExpression`].
pub struct HirExpressionModel {
    pub id: HirValueId,
    pub kind: HirExpressionKindModel,
    pub ty: TypeId,
    pub value_kind: ValueKind,
    pub region: RegionId,
}

/// Model of a [`HirExpressionKind`]: the same shape, with sequences in place of vectors and
/// of strings, and a variant field as a pair of its name and its value.
pub enum HirExpressionKindModel {
    Int(i64),
    Float(u64),
    Bool(bool),
    Char(char),
    StringLiteral(Seq<char>),
    Load(HirPlaceModel),
    Copy(HirPlaceModel),
    BinOp { left: Box<HirExpressionModel>, op: HirBinOp, right: Box<HirExpressionModel> },
    UnaryOp { op: HirUnaryOp, operand: Box<HirExpressionModel> },
    StructConstruct { struct_id: StructId, fields: Seq<(FieldId, HirExpressionModel)> },
    Collection(Seq<HirExpressionModel>),
    Range { start: Box<HirExpressionModel>, end: Box<HirExpressionModel> },
    TupleConstruct { elements: Seq<HirExpressionModel> },
    TupleGet { tuple: Box<HirExpressionModel>, index: usize },
    ResultPropagate { result: Box<HirExpressionModel> },
    ResultIsOk { result: Box<HirExpressionModel> },
    ResultUnwrapOk { result: Box<HirExpressionModel> },
    ResultUnwrapErr { result: Box<HirExpressionModel> },
    BuiltinCast { kind: HirBuiltinCastKind, value: Box<HirExpressionModel> },
    VariantConstruct {
        carrier: HirVariantCarrier,
        variant_index: usize,
        fields: Seq<(Option<StringId>, HirExpressionModel)>,
    },
    VariantPayloadGet {
        carrier: HirVariantCarrier,
        source: Box<HirExpressionModel>,
        variant_index: usize,
        field_index: usize,
    },
}

/// The model of a place.
pub open spec fn hir_place_model(p: HirPlace) -> HirPlaceModel
    decreases p, 0int,
{
    match p {
        HirPlace::Local(l) => HirPlaceModel::Local(l),
        HirPlace::Field { base, field } => HirPlaceModel::Field { base: Box::new(hir_place_model(*base)), field },
        HirPlace::Index { base, index } => HirPlaceModel::Index {
            base: Box::new(hir_place_model(*base)),
            index: Box::new(hir_expression_model(*index)),
        },
    }
}

/// The model of an expression.
pub open spec fn hir_expression_model(e: HirExpression) -> HirExpressionModel
    decreases e, 1int,
{
    HirExpressionModel {
        id: e.id,
        kind: hir_kind_model(e.kind),
        ty: e.ty,
        value_kind: e.value_kind,
        region: e.region,
    }
}

/// The model of an expression kind.
pub open spec fn hir_kind_model(k: HirExpressionKind) -> HirExpressionKindModel
    decreases k, 0int,
{
    match k {
        HirExpressionKind::Int(v) => HirExpressionKindModel::Int(v),
        HirExpressionKind::Float(v) => HirExpressionKindModel::Float(v),
        HirExpressionKind::Bool(v) => HirExpressionKindModel::Bool(v),
        HirExpressionKind::Char(v) => HirExpressionKindModel::Char(v),
        HirExpressionKind::StringLiteral(v) => HirExpressionKindModel::StringLiteral(v@),
        HirExpressionKind::Load(p) => HirExpressionKindModel::Load(hir_place_model(p)),
        HirExpressionKind::Copy(p) => HirExpressionKindModel::Copy(hir_place_model(p)),
        HirExpressionKind::BinOp { left, op, right } => HirExpressionKindModel::BinOp {
            left: Box::new(hir_expression_model(*left)),
            op,
            right: Box::new(hir_expression_model(*right)),
        },
        HirExpressionKind::UnaryOp { op, operand } => HirExpressionKindModel::UnaryOp {
            op,
            operand: Box::new(hir_expression_model(*operand)),
        },
        HirExpressionKind::StructConstruct { struct_id, fields } => HirExpressionKindModel::StructConstruct {
            struct_id,
            fields: hir_field_values_model(fields@),
        },
        HirExpressionKind::Collection(elements) => HirExpressionKindModel::Collection(
            hir_expressions_model(elements@),
        ),
        HirExpressionKind::Range { start, end } => HirExpressionKindModel::Range {
            start: Box::new(hir_expression_model(*start)),
            end: Box::new(hir_expression_model(*end)),
        },
        HirExpressionKind::TupleConstruct { elements } => HirExpressionKindModel::TupleConstruct {
            elements: hir_expressions_model(elements@),
        },
        HirExpressionKind::TupleGet { tuple, index } => HirExpressionKindModel::TupleGet {
            tuple: Box::new(hir_expression_model(*tuple)),
            index,
        },
        HirExpressionKind::ResultPropagate { result } => HirExpressionKindModel::ResultPropagate {
            result: Box::new(hir_expression_model(*result)),
        },
        HirExpressionKind::ResultIsOk { result } => HirExpressionKindModel::ResultIsOk {
            result: Box::new(hir_expression_model(*result)),
        },
        HirExpressionKind::ResultUnwrapOk { result } => HirExpressionKindModel::ResultUnwrapOk {
            result: Box::new(hir_expression_model(*result)),
        },
        HirExpressionKind::ResultUnwrapErr { result } => HirExpressionKindModel::ResultUnwrapErr {
            result: Box::new(hir_expression_model(*result)),
        },
        HirExpressionKind::BuiltinCast { kind, value } => HirExpressionKindModel::BuiltinCast {
            kind,
            value: Box::new(hir_expression_model(*value)),
        },
        HirExpressionKind::VariantConstruct { carrier, variant_index, fields } => HirExpressionKindModel::VariantConstruct {
            carrier,
            variant_index,
            fields: hir_variant_fields_model(fields@),
        },
        HirExpressionKind::VariantPayloadGet { carrier, source, variant_index, field_index } => HirExpressionKindModel::VariantPayloadGet {
            carrier,
            source: Box::new(hir_expression_model(*source)),
            variant_index,
            field_index,
        },
    }
}

/// The models of a sequence of expressions, in order.
pub open spec fn hir_expressions_model(s: Seq<HirExpression>) -> Seq<HirExpressionModel>
    decreases s, 0int,
{
    if s.len() == 0 {
        Seq::empty()
    } else {
        hir_expressions_model(s.drop_last()).push(hir_expression_model(s.last()))
    }
}

/// The models of a sequence of field values, in order.
pub open spec fn hir_field_values_model(s: Seq<(FieldId, HirExpression)>) -> Seq<(FieldId, HirExpressionModel)>
    decreases s, 0int,
{
    if s.len() == 0 {
        Seq::empty()
    } else {
        hir_field_values_model(s.drop_last()).push((s.last().0, hir_expression_model(s.last().1)))
    }
}

/// The models of a sequence of variant fields, in order.
pub open spec fn hir_variant_fields_model(s: Seq<HirVariantField>) -> Seq<(Option<StringId>, HirExpressionModel)>
    decreases s, 0int,
{
    if s.len() == 0 {
        Seq::empty()
    } else {
        hir_variant_fields_model(s.drop_last()).push((s.last().name, hir_expression_model(s.last().value)))
    }
}

/// Modelling commutes with appending one expression.
pub proof fn lemma_hir_expressions_model_push(s: Seq<HirExpression>, e: HirExpression)
    ensures
        hir_expressions_model(s.push(e)) == hir_expressions_model(s).push(hir_expression_model(e)),
{
    assert(s.push(e).drop_last() =~= s);
}

/// Modelling commutes with appending one field value.
pub proof fn lemma_hir_field_values_model_push(s: Seq<(FieldId, HirExpression)>, f: (FieldId, HirExpression))
    ensures
        hir_field_values_model(s.push(f)) == hir_field_values_model(s).push((f.0, hir_expression_model(f.1))),
{
    assert(s.push(f).drop_last() =~= s);
}

/// Modelling commutes with appending one variant field.
pub proof fn lemma_hir_variant_fields_model_push(s: Seq<HirVariantField>, f: HirVariantField)
    ensures
        hir_variant_fields_model(s.push(f)) == hir_variant_fields_model(s).push((f.name, hir_expression_model(f.value))),
{
    assert(s.push(f).drop_last() =~= s);
}

// ============================================================================
// Copies
// ============================================================================

/// A copy of a place with the same model.
pub fn copy_hir_place(p: &HirPlace) -> (r: HirPlace)
    ensures
        hir_place_model(r) == hir_place_model(*p),
    decreases p, 0int,
{
    match p {
        HirPlace::Local(l) => HirPlace::Local(*l),
        HirPlace::Field { base, field } => HirPlace::Field { base: Box::new(copy_hir_place(base)), field: *field },
        HirPlace::Index { base, index } => HirPlace::Index {
            base: Box::new(copy_hir_place(base)),
            index: Box::new(copy_hir_expression(index)),
        },
    }
}

/// A copy of an expression with the same model.
pub fn copy_hir_expression(e: &HirExpression) -> (r: HirExpression)
    ensures
        hir_expression_model(r) == hir_expression_model(*e),
    decreases e, 1int,
{
    HirExpression {
        id: e.id,
        kind: copy_hir_kind(&e.kind),
        ty: e.ty,
        value_kind: e.value_kind,
        region: e.region,
    }
}

/// A copy of an expression kind with the same model.
pub fn copy_hir_kind(k: &HirExpressionKind) -> (r: HirExpressionKind)
    ensures
        hir_kind_model(r) == hir_kind_model(*k),
    decreases k, 0int,
{
    match k {
        HirExpressionKind::Int(v) => HirExpressionKind::Int(*v),
        HirExpressionKind::Float(v) => HirExpressionKind::Float(*v),
        HirExpressionKind::Bool(v) => HirExpressionKind::Bool(*v),
        HirExpressionKind::Char(v) => HirExpressionKind::Char(*v),
        HirExpressionKind::StringLiteral(v) => HirExpressionKind::StringLiteral(v.clone()),
        HirExpressionKind::Load(p) => HirExpressionKind::Load(copy_hir_place(p)),
        HirExpressionKind::Copy(p) => HirExpressionKind::Copy(copy_hir_place(p)),
        HirExpressionKind::BinOp { left, op, right } => HirExpressionKind::BinOp {
            left: Box::new(copy_hir_expression(left)),
            op: *op,
            right: Box::new(copy_hir_expression(right)),
        },
        HirExpressionKind::UnaryOp { op, operand } => HirExpressionKind::UnaryOp {
            op: *op,
            operand: Box::new(copy_hir_expression(operand)),
        },
        HirExpressionKind::StructConstruct { struct_id, fields } => HirExpressionKind::StructConstruct {
            struct_id: *struct_id,
            fields: copy_hir_field_values(fields),
        },
        HirExpressionKind::Collection(elements) => HirExpressionKind::Collection(copy_hir_expressions(elements)),
        HirExpressionKind::Range { start, end } => HirExpressionKind::Range {
            start: Box::new(copy_hir_expression(start)),
            end: Box::new(copy_hir_expression(end)),
        },
        HirExpressionKind::TupleConstruct { elements } => HirExpressionKind::TupleConstruct {
            elements: copy_hir_expressions(elements),
        },
        HirExpressionKind::TupleGet { tuple, index } => HirExpressionKind::TupleGet {
            tuple: Box::new(copy_hir_expression(tuple)),
            index: *index,
        },
        HirExpressionKind::ResultPropagate { result } => HirExpressionKind::ResultPropagate {
            result: Box::new(copy_hir_expression(result)),
        },
        HirExpressionKind::ResultIsOk { result } => HirExpressionKind::ResultIsOk {
            result: Box::new(copy_hir_expression(result)),
        },
        HirExpressionKind::ResultUnwrapOk { result } => HirExpressionKind::ResultUnwrapOk {
            result: Box::new(copy_hir_expression(result)),
        },
        HirExpressionKind::ResultUnwrapErr { result } => HirExpressionKind::ResultUnwrapErr {
            result: Box::new(copy_hir_expression(result)),
        },
        HirExpressionKind::BuiltinCast { kind, value } => HirExpressionKind::BuiltinCast {
            kind: *kind,
            value: Box::new(copy_hir_expression(value)),
        },
        HirExpressionKind::VariantConstruct { carrier, variant_index, fields } => HirExpressionKind::VariantConstruct {
            carrier: *carrier,
            variant_index: *variant_index,
            fields: copy_hir_variant_fields(fields),
        },
        HirExpressionKind::VariantPayloadGet { carrier, source, variant_index, field_index } => HirExpressionKind::VariantPayloadGet {
            carrier: *carrier,
            source: Box::new(copy_hir_expression(source)),
            variant_index: *variant_index,
            field_index: *field_index,
        },
    }
}

/// A copy of a vector of expressions with the same models.
pub fn copy_hir_expressions(v: &Vec<HirExpression>) -> (r: Vec<HirExpression>)
    ensures
        hir_expressions_model(r@) == hir_expressions_model(v@),
    decreases v, 0int,
{
    let mut r: Vec<HirExpression> = Vec::new();
    let mut i: usize = 0;
    while i < v.len()
        invariant
            0 <= i <= v@.len(),
            hir_expressions_model(r@) == hir_expressions_model(v@.take(i as int)),
        decreases v@.len() - i,
    {
        proof {
            assert(decreases_to!(v => v@[i as int]));
        }
        let c = copy_hir_expression(&v[i]);
        proof {
            lemma_hir_expressions_model_push(r@, c);
            assert(v@.take(i + 1) =~= v@.take(i as int).push(v@[i as int]));
            lemma_hir_expressions_model_push(v@.take(i as int), v@[i as int]);
        }
        r.push(c);
        i = i + 1;
    }
    assert(v@.take(v@.len() as int) =~= v@);
    r
}

/// A copy of a vector of field values with the same models.
pub fn copy_hir_field_values(v: &Vec<(FieldId, HirExpression)>) -> (r: Vec<(FieldId, HirExpression)>)
    ensures
        hir_field_values_model(r@) == hir_field_values_model(v@),
    decreases v, 0int,
{
    let mut r: Vec<(FieldId, HirExpression)> = Vec::new();
    let mut i: usize = 0;
    while i < v.len()
        invariant
            0 <= i <= v@.len(),
            hir_field_values_model(r@) == hir_field_values_model(v@.take(i as int)),
        decreases v@.len() - i,
    {
        proof {
            assert(decreases_to!(v => v@[i as int]));
            assert(decreases_to!(v@[i as int] => v@[i as int].1));
        }
        let c = (v[i].0, copy_hir_expression(&v[i].1));
        proof {
            lemma_hir_field_values_model_push(r@, c);
            assert(v@.take(i + 1) =~= v@.take(i as int).push(v@[i as int]));
            lemma_hir_field_values_model_push(v@.take(i as int), v@[i as int]);
        }
        r.push(c);
        i = i + 1;
    }
    assert(v@.take(v@.len() as int) =~= v@);
    r
}

/// A copy of a vector of variant fields with the same models.
pub fn copy_hir_variant_fields(v: &Vec<HirVariantField>) -> (r: Vec<HirVariantField>)
    ensures
        hir_variant_fields_model(r@) == hir_variant_fields_model(v@),
    decreases v, 0int,
{
    let mut r: Vec<HirVariantField> = Vec::new();
    let mut i: usize = 0;
    while i < v.len()
        invariant
            0 <= i <= v@.len(),
            hir_variant_fields_model(r@) == hir_variant_fields_model(v@.take(i as int)),
        decreases v@.len() - i,
    {
        proof {
            assert(decreases_to!(v => v@[i as int]));
            assert(decreases_to!(v@[i as int] => v@[i as int].value));
        }
        let c = HirVariantField { name: v[i].name, value: copy_hir_expression(&v[i].value) };
        proof {
            lemma_hir_variant_fields_model_push(r@, c);
            assert(v@.take(i + 1) =~= v@.take(i as int).push(v@[i as int]));
            lemma_hir_variant_fields_model_push(v@.take(i as int), v@[i as int]);
        }
        r.push(c);
        i = i + 1;
    }
    assert(v@.take(v@.len() as int) =~= v@);
    r
}

} // verus!
