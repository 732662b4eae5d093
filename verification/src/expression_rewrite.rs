//! Rewriting of expression trees.
//!
//! `rewrite_expression_bottom_up` rebuilds a tree from its leaves up and lets a function
//! replace each rebuilt node; `substitute_locals_in_expression` replaces reads of locals by
//! given expressions. Match guards are evaluated in the block that holds the match, before
//! the capture assignments of the arm body run; replacing reads of capture locals in a guard
//! by expressions on the scrutinee lets the guard be evaluated without reading locals that
//! are not yet assigned.
//!
//! The substitutions are an `FxHashMap` keyed by the number of the replaced local.

use vstd::prelude::*;
use rustc_hash::FxHashMap;
use crate::expressions::{
    copy_hir_expression, hir_kind_model, hir_expression_model, hir_expressions_model, hir_field_values_model,
    hir_place_model, hir_variant_fields_model, lemma_hir_expressions_model_push,
    lemma_hir_field_values_model_push, lemma_hir_variant_fields_model_push, HirExpression,
    HirExpressionKind, HirExpressionKindModel, HirExpressionModel, HirPlace, HirPlaceModel,
    HirVariantField,
};
use crate::fx_collections::fx_map_get;
use crate::ids::{FieldId, LocalId, StringId};

verus! {

// ============================================================================
// Specification
// ============================================================================

/// The models of the replacement expressions, by local number.
pub open spec fn substitution_models(m: Map<u32, HirExpression>) -> Map<u32, HirExpressionModel> {
    m.map_values(|e: HirExpression| hir_expression_model(e))
}

/// The local that an expression of this kind reads as a whole: a load or a copy of a bare
/// local.
pub open spec fn read_local(k: HirExpressionKindModel) -> Option<LocalId> {
    match k {
        HirExpressionKindModel::Load(HirPlaceModel::Local(l)) => Some(l),
        HirExpressionKindModel::Copy(HirPlaceModel::Local(l)) => Some(l),
        _ => None,
    }
}

/// Whether an expression is replaced as a whole: it reads a bare local that has a
/// replacement.
pub open spec fn replaced(e: HirExpressionModel, subs: Map<u32, HirExpressionModel>) -> bool {
    match read_local(e.kind) {
        Some(l) => subs.contains_key(l.0),
        None => false,
    }
}

/// An expression with each read of a bare local that has a replacement replaced by it,
/// everywhere in the tree; every other node keeps its id, type, value kind and region.
pub open spec fn substituted(e: HirExpressionModel, subs: Map<u32, HirExpressionModel>) -> HirExpressionModel
    decreases e, 1int,
{
    let rebuilt = HirExpressionModel {
        id: e.id,
        kind: substituted_kind(e.kind, subs),
        ty: e.ty,
        value_kind: e.value_kind,
        region: e.region,
    };
    match read_local(e.kind) {
        Some(l) => if subs.contains_key(l.0) {
            subs[l.0]
        } else {
            rebuilt
        },
        None => rebuilt,
    }
}

/// An expression kind with the substitution applied to every child expression and place.
pub open spec fn substituted_kind(k: HirExpressionKindModel, subs: Map<u32, HirExpressionModel>) -> HirExpressionKindModel
    decreases k, 0int,
{
    match k {
        HirExpressionKindModel::Load(p) => HirExpressionKindModel::Load(substituted_place(p, subs)),
        HirExpressionKindModel::Copy(p) => HirExpressionKindModel::Copy(substituted_place(p, subs)),
        HirExpressionKindModel::BinOp { left, op, right } => HirExpressionKindModel::BinOp {
            left: Box::new(substituted(*left, subs)),
            op,
            right: Box::new(substituted(*right, subs)),
        },
        HirExpressionKindModel::UnaryOp { op, operand } => HirExpressionKindModel::UnaryOp {
            op,
            operand: Box::new(substituted(*operand, subs)),
        },
        HirExpressionKindModel::StructConstruct { struct_id, fields } => HirExpressionKindModel::StructConstruct {
            struct_id,
            fields: substituted_field_values(fields, subs),
        },
        HirExpressionKindModel::Collection(elements) => HirExpressionKindModel::Collection(
            substituted_all(elements, subs),
        ),
        HirExpressionKindModel::Range { start, end } => HirExpressionKindModel::Range {
            start: Box::new(substituted(*start, subs)),
            end: Box::new(substituted(*end, subs)),
        },
        HirExpressionKindModel::TupleConstruct { elements } => HirExpressionKindModel::TupleConstruct {
            elements: substituted_all(elements, subs),
        },
        HirExpressionKindModel::TupleGet { tuple, index } => HirExpressionKindModel::TupleGet {
            tuple: Box::new(substituted(*tuple, subs)),
            index,
        },
        HirExpressionKindModel::ResultPropagate { result } => HirExpressionKindModel::ResultPropagate {
            result: Box::new(substituted(*result, subs)),
        },
        HirExpressionKindModel::ResultIsOk { result } => HirExpressionKindModel::ResultIsOk {
            result: Box::new(substituted(*result, subs)),
        },
        HirExpressionKindModel::ResultUnwrapOk { result } => HirExpressionKindModel::ResultUnwrapOk {
            result: Box::new(substituted(*result, subs)),
        },
        HirExpressionKindModel::ResultUnwrapErr { result } => HirExpressionKindModel::ResultUnwrapErr {
            result: Box::new(substituted(*result, subs)),
        },
        HirExpressionKindModel::BuiltinCast { kind, value } => HirExpressionKindModel::BuiltinCast {
            kind,
            value: Box::new(substituted(*value, subs)),
        },
        HirExpressionKindModel::VariantConstruct { carrier, variant_index, fields } => HirExpressionKindModel::VariantConstruct {
            carrier,
            variant_index,
            fields: substituted_variant_fields(fields, subs),
        },
        HirExpressionKindModel::VariantPayloadGet { carrier, source, variant_index, field_index } => HirExpressionKindModel::VariantPayloadGet {
            carrier,
            source: Box::new(substituted(*source, subs)),
            variant_index,
            field_index,
        },
        _ => k,
    }
}

/// A place with the substitution applied to its index expressions.
pub open spec fn substituted_place(p: HirPlaceModel, subs: Map<u32, HirExpressionModel>) -> HirPlaceModel
    decreases p, 0int,
{
    match p {
        HirPlaceModel::Local(l) => HirPlaceModel::Local(l),
        HirPlaceModel::Field { base, field } => HirPlaceModel::Field {
            base: Box::new(substituted_place(*base, subs)),
            field,
        },
        HirPlaceModel::Index { base, index } => HirPlaceModel::Index {
            base: Box::new(substituted_place(*base, subs)),
            index: Box::new(substituted(*index, subs)),
        },
    }
}

/// The substitution applied to each expression of a sequence.
pub open spec fn substituted_all(s: Seq<HirExpressionModel>, subs: Map<u32, HirExpressionModel>) -> Seq<HirExpressionModel>
    decreases s, 0int,
{
    if s.len() == 0 {
        Seq::empty()
    } else {
        substituted_all(s.drop_last(), subs).push(substituted(s.last(), subs))
    }
}

/// The substitution applied to each value of a sequence of field values.
pub open spec fn substituted_field_values(s: Seq<(FieldId, HirExpressionModel)>, subs: Map<u32, HirExpressionModel>) -> Seq<(FieldId, HirExpressionModel)>
    decreases s, 0int,
{
    if s.len() == 0 {
        Seq::empty()
    } else {
        substituted_field_values(s.drop_last(), subs).push((s.last().0, substituted(s.last().1, subs)))
    }
}

/// The substitution applied to each value of a sequence of variant fields.
pub open spec fn substituted_variant_fields(s: Seq<(Option<StringId>, HirExpressionModel)>, subs: Map<u32, HirExpressionModel>) -> Seq<(Option<StringId>, HirExpressionModel)>
    decreases s, 0int,
{
    if s.len() == 0 {
        Seq::empty()
    } else {
        substituted_variant_fields(s.drop_last(), subs).push((s.last().0, substituted(s.last().1, subs)))
    }
}

/// Substitution commutes with appending one expression.
pub proof fn lemma_substituted_all_push(s: Seq<HirExpressionModel>, e: HirExpressionModel, subs: Map<u32, HirExpressionModel>)
    ensures
        substituted_all(s.push(e), subs) == substituted_all(s, subs).push(substituted(e, subs)),
{
    assert(s.push(e).drop_last() =~= s);
}

/// Substitution commutes with appending one field value.
pub proof fn lemma_substituted_field_values_push(s: Seq<(FieldId, HirExpressionModel)>, f: (FieldId, HirExpressionModel), subs: Map<u32, HirExpressionModel>)
    ensures
        substituted_field_values(s.push(f), subs) == substituted_field_values(s, subs).push((f.0, substituted(f.1, subs))),
{
    assert(s.push(f).drop_last() =~= s);
}

/// Substitution commutes with appending one variant field.
pub proof fn lemma_substituted_variant_fields_push(s: Seq<(Option<StringId>, HirExpressionModel)>, f: (Option<StringId>, HirExpressionModel), subs: Map<u32, HirExpressionModel>)
    ensures
        substituted_variant_fields(s.push(f), subs) == substituted_variant_fields(s, subs).push((f.0, substituted(f.1, subs))),
{
    assert(s.push(f).drop_last() =~= s);
}

// ============================================================================
// Reads of bare locals
// ============================================================================

/// Whether a load or copy of the bare local numbered `l` occurs anywhere in an expression.
pub open spec fn reads_bare(e: HirExpressionModel, l: u32) -> bool
    decreases e, 1int,
{
    (match read_local(e.kind) {
        Some(x) => x.0 == l,
        None => false,
    }) || kind_reads_bare(e.kind, l)
}

/// Whether a load or copy of the bare local numbered `l` occurs in a child of a kind.
pub open spec fn kind_reads_bare(k: HirExpressionKindModel, l: u32) -> bool
    decreases k, 0int,
{
    match k {
        HirExpressionKindModel::Load(p) => place_reads_bare(p, l),
        HirExpressionKindModel::Copy(p) => place_reads_bare(p, l),
        HirExpressionKindModel::BinOp { left, op, right } => reads_bare(*left, l) || reads_bare(*right, l),
        HirExpressionKindModel::UnaryOp { op, operand } => reads_bare(*operand, l),
        HirExpressionKindModel::StructConstruct { struct_id, fields } => field_values_read_bare(fields, l),
        HirExpressionKindModel::Collection(elements) => all_read_bare(elements, l),
        HirExpressionKindModel::Range { start, end } => reads_bare(*start, l) || reads_bare(*end, l),
        HirExpressionKindModel::TupleConstruct { elements } => all_read_bare(elements, l),
        HirExpressionKindModel::TupleGet { tuple, index } => reads_bare(*tuple, l),
        HirExpressionKindModel::ResultPropagate { result } => reads_bare(*result, l),
        HirExpressionKindModel::ResultIsOk { result } => reads_bare(*result, l),
        HirExpressionKindModel::ResultUnwrapOk { result } => reads_bare(*result, l),
        HirExpressionKindModel::ResultUnwrapErr { result } => reads_bare(*result, l),
        HirExpressionKindModel::BuiltinCast { kind, value } => reads_bare(*value, l),
        HirExpressionKindModel::VariantConstruct { carrier, variant_index, fields } => variant_fields_read_bare(fields, l),
        HirExpressionKindModel::VariantPayloadGet { carrier, source, variant_index, field_index } => reads_bare(*source, l),
        _ => false,
    }
}

/// Whether a load or copy of the bare local numbered `l` occurs in an index of a place.
pub open spec fn place_reads_bare(p: HirPlaceModel, l: u32) -> bool
    decreases p, 0int,
{
    match p {
        HirPlaceModel::Local(_) => false,
        HirPlaceModel::Field { base, field } => place_reads_bare(*base, l),
        HirPlaceModel::Index { base, index } => place_reads_bare(*base, l) || reads_bare(*index, l),
    }
}

/// Whether one of a sequence of expressions reads the bare local numbered `l`.
pub open spec fn all_read_bare(s: Seq<HirExpressionModel>, l: u32) -> bool
    decreases s, 0int,
{
    s.len() > 0 && (all_read_bare(s.drop_last(), l) || reads_bare(s.last(), l))
}

/// Whether one of a sequence of field values reads the bare local numbered `l`.
pub open spec fn field_values_read_bare(s: Seq<(FieldId, HirExpressionModel)>, l: u32) -> bool
    decreases s, 0int,
{
    s.len() > 0 && (field_values_read_bare(s.drop_last(), l) || reads_bare(s.last().1, l))
}

/// Whether one of a sequence of variant fields reads the bare local numbered `l`.
pub open spec fn variant_fields_read_bare(s: Seq<(Option<StringId>, HirExpressionModel)>, l: u32) -> bool
    decreases s, 0int,
{
    s.len() > 0 && (variant_fields_read_bare(s.drop_last(), l) || reads_bare(s.last().1, l))
}

// ============================================================================
// Laws
// ============================================================================

/// Law: with no substitutions, every expression comes back with the same model.
pub proof fn lemma_substitute_nothing(e: HirExpression)
    ensures
        substituted(hir_expression_model(e), substitution_models(Map::<u32, HirExpression>::empty()))
            == hir_expression_model(e),
{
    lemma_substitute_unread(e, Map::<u32, HirExpression>::empty());
}

/// Law: an expression in which no local that has a replacement is loaded or copied as a
/// bare local comes back with the same model: every node keeps its id, kind, type, value
/// kind and region, index expressions inside places included.
pub proof fn lemma_substitute_unread(e: HirExpression, substitutions: Map<u32, HirExpression>)
    requires
        forall|l: u32| #[trigger] substitutions.contains_key(l) ==> !reads_bare(hir_expression_model(e), l),
    ensures
        substituted(hir_expression_model(e), substitution_models(substitutions)) == hir_expression_model(e),
{
    let subs = substitution_models(substitutions);
    assert(subs.dom() =~= substitutions.dom());
    lemma_substituted_unread(hir_expression_model(e), subs);
}

/// No local with a replacement is read bare anywhere in an expression.
pub open spec fn reads_none(e: HirExpressionModel, subs: Map<u32, HirExpressionModel>) -> bool {
    forall|l: u32| #[trigger] subs.contains_key(l) ==> !reads_bare(e, l)
}

/// A substitution that touches no local read in an expression leaves it unchanged.
pub proof fn lemma_substituted_unread(e: HirExpressionModel, subs: Map<u32, HirExpressionModel>)
    requires
        reads_none(e, subs),
    ensures
        substituted(e, subs) == e,
    decreases e, 1int,
{
    assert forall|l: u32| #[trigger] subs.contains_key(l) implies !kind_reads_bare(e.kind, l) by {
        assert(!reads_bare(e, l));
    }
    if let Some(x) = read_local(e.kind) {
        assert(!reads_bare(e, x.0) || !subs.contains_key(x.0));
    }
    lemma_substituted_kind_unread(e.kind, subs);
}

/// A substitution that touches no local read in a kind leaves it unchanged.
pub proof fn lemma_substituted_kind_unread(k: HirExpressionKindModel, subs: Map<u32, HirExpressionModel>)
    requires
        forall|l: u32| #[trigger] subs.contains_key(l) ==> !kind_reads_bare(k, l),
    ensures
        substituted_kind(k, subs) == k,
    decreases k, 0int,
{
    match k {
        HirExpressionKindModel::Load(p) => lemma_substituted_place_unread(p, subs),
        HirExpressionKindModel::Copy(p) => lemma_substituted_place_unread(p, subs),
        HirExpressionKindModel::BinOp { left, op, right } => {
            lemma_substituted_unread(*left, subs);
            lemma_substituted_unread(*right, subs);
        },
        HirExpressionKindModel::UnaryOp { op, operand } => lemma_substituted_unread(*operand, subs),
        HirExpressionKindModel::StructConstruct { struct_id, fields } => lemma_substituted_field_values_unread(fields, subs),
        HirExpressionKindModel::Collection(elements) => lemma_substituted_all_unread(elements, subs),
        HirExpressionKindModel::Range { start, end } => {
            lemma_substituted_unread(*start, subs);
            lemma_substituted_unread(*end, subs);
        },
        HirExpressionKindModel::TupleConstruct { elements } => lemma_substituted_all_unread(elements, subs),
        HirExpressionKindModel::TupleGet { tuple, index } => lemma_substituted_unread(*tuple, subs),
        HirExpressionKindModel::ResultPropagate { result } => lemma_substituted_unread(*result, subs),
        HirExpressionKindModel::ResultIsOk { result } => lemma_substituted_unread(*result, subs),
        HirExpressionKindModel::ResultUnwrapOk { result } => lemma_substituted_unread(*result, subs),
        HirExpressionKindModel::ResultUnwrapErr { result } => lemma_substituted_unread(*result, subs),
        HirExpressionKindModel::BuiltinCast { kind, value } => lemma_substituted_unread(*value, subs),
        HirExpressionKindModel::VariantConstruct { carrier, variant_index, fields } => lemma_substituted_variant_fields_unread(fields, subs),
        HirExpressionKindModel::VariantPayloadGet { carrier, source, variant_index, field_index } => lemma_substituted_unread(*source, subs),
        _ => {},
    }
}

/// A substitution that touches no local read in a place's indices leaves it unchanged.
pub proof fn lemma_substituted_place_unread(p: HirPlaceModel, subs: Map<u32, HirExpressionModel>)
    requires
        forall|l: u32| #[trigger] subs.contains_key(l) ==> !place_reads_bare(p, l),
    ensures
        substituted_place(p, subs) == p,
    decreases p, 0int,
{
    match p {
        HirPlaceModel::Local(_) => {},
        HirPlaceModel::Field { base, field } => lemma_substituted_place_unread(*base, subs),
        HirPlaceModel::Index { base, index } => {
            lemma_substituted_place_unread(*base, subs);
            lemma_substituted_unread(*index, subs);
        },
    }
}

/// A substitution that touches no local read in a sequence leaves it unchanged.
pub proof fn lemma_substituted_all_unread(s: Seq<HirExpressionModel>, subs: Map<u32, HirExpressionModel>)
    requires
        forall|l: u32| #[trigger] subs.contains_key(l) ==> !all_read_bare(s, l),
    ensures
        substituted_all(s, subs) == s,
    decreases s, 0int,
{
    if s.len() > 0 {
        lemma_substituted_all_unread(s.drop_last(), subs);
        lemma_substituted_unread(s.last(), subs);
        assert(s.drop_last().push(s.last()) =~= s);
    }
}

/// A substitution that touches no local read in field values leaves them unchanged.
pub proof fn lemma_substituted_field_values_unread(s: Seq<(FieldId, HirExpressionModel)>, subs: Map<u32, HirExpressionModel>)
    requires
        forall|l: u32| #[trigger] subs.contains_key(l) ==> !field_values_read_bare(s, l),
    ensures
        substituted_field_values(s, subs) == s,
    decreases s, 0int,
{
    if s.len() > 0 {
        lemma_substituted_field_values_unread(s.drop_last(), subs);
        lemma_substituted_unread(s.last().1, subs);
        assert(s.drop_last().push((s.last().0, s.last().1)) =~= s);
    }
}

/// A substitution that touches no local read in variant fields leaves them unchanged.
pub proof fn lemma_substituted_variant_fields_unread(s: Seq<(Option<StringId>, HirExpressionModel)>, subs: Map<u32, HirExpressionModel>)
    requires
        forall|l: u32| #[trigger] subs.contains_key(l) ==> !variant_fields_read_bare(s, l),
    ensures
        substituted_variant_fields(s, subs) == s,
    decreases s, 0int,
{
    if s.len() > 0 {
        lemma_substituted_variant_fields_unread(s.drop_last(), subs);
        lemma_substituted_unread(s.last().1, subs);
        assert(s.drop_last().push((s.last().0, s.last().1)) =~= s);
    }
}

/// Law: after substitution, no load or copy of a bare substituted local remains, as long as
/// no replacement itself reads that local.
pub proof fn lemma_substitution_removes_reads(e: HirExpression, substitutions: Map<u32, HirExpression>, l: u32)
    requires
        substitutions.contains_key(l),
        forall|k: u32| #[trigger] substitutions.contains_key(k) ==> !reads_bare(hir_expression_model(substitutions[k]), l),
    ensures
        !reads_bare(substituted(hir_expression_model(e), substitution_models(substitutions)), l),
{
    lemma_substituted_reads(hir_expression_model(e), substitution_models(substitutions), l);
}

/// Substitution removes the bare reads of a substituted local whose replacements do not
/// read it.
pub proof fn lemma_substituted_reads(e: HirExpressionModel, subs: Map<u32, HirExpressionModel>, l: u32)
    requires
        subs.contains_key(l),
        forall|k: u32| #[trigger] subs.contains_key(k) ==> !reads_bare(subs[k], l),
    ensures
        !reads_bare(substituted(e, subs), l),
    decreases e, 1int,
{
    if !replaced(e, subs) {
        lemma_substituted_kind_reads(e.kind, subs, l);
    }
}

/// Substitution keeps the bare local read by a kind, if any, and removes the bare reads of a
/// substituted local from its children.
pub proof fn lemma_substituted_kind_reads(k: HirExpressionKindModel, subs: Map<u32, HirExpressionModel>, l: u32)
    requires
        subs.contains_key(l),
        forall|k: u32| #[trigger] subs.contains_key(k) ==> !reads_bare(subs[k], l),
    ensures
        read_local(substituted_kind(k, subs)) == read_local(k),
        !kind_reads_bare(substituted_kind(k, subs), l),
    decreases k, 0int,
{
    match k {
        HirExpressionKindModel::Load(p) => lemma_substituted_place_reads(p, subs, l),
        HirExpressionKindModel::Copy(p) => lemma_substituted_place_reads(p, subs, l),
        HirExpressionKindModel::BinOp { left, op, right } => {
            lemma_substituted_reads(*left, subs, l);
            lemma_substituted_reads(*right, subs, l);
        },
        HirExpressionKindModel::UnaryOp { op, operand } => lemma_substituted_reads(*operand, subs, l),
        HirExpressionKindModel::StructConstruct { struct_id, fields } => lemma_substituted_field_values_reads(fields, subs, l),
        HirExpressionKindModel::Collection(elements) => lemma_substituted_all_reads(elements, subs, l),
        HirExpressionKindModel::Range { start, end } => {
            lemma_substituted_reads(*start, subs, l);
            lemma_substituted_reads(*end, subs, l);
        },
        HirExpressionKindModel::TupleConstruct { elements } => lemma_substituted_all_reads(elements, subs, l),
        HirExpressionKindModel::TupleGet { tuple, index } => lemma_substituted_reads(*tuple, subs, l),
        HirExpressionKindModel::ResultPropagate { result } => lemma_substituted_reads(*result, subs, l),
        HirExpressionKindModel::ResultIsOk { result } => lemma_substituted_reads(*result, subs, l),
        HirExpressionKindModel::ResultUnwrapOk { result } => lemma_substituted_reads(*result, subs, l),
        HirExpressionKindModel::ResultUnwrapErr { result } => lemma_substituted_reads(*result, subs, l),
        HirExpressionKindModel::BuiltinCast { kind, value } => lemma_substituted_reads(*value, subs, l),
        HirExpressionKindModel::VariantConstruct { carrier, variant_index, fields } => lemma_substituted_variant_fields_reads(fields, subs, l),
        HirExpressionKindModel::VariantPayloadGet { carrier, source, variant_index, field_index } => lemma_substituted_reads(*source, subs, l),
        _ => {},
    }
}

/// Substitution keeps a place rooted where it was, and removes the bare reads of a
/// substituted local from its indices.
pub proof fn lemma_substituted_place_reads(p: HirPlaceModel, subs: Map<u32, HirExpressionModel>, l: u32)
    requires
        subs.contains_key(l),
        forall|k: u32| #[trigger] subs.contains_key(k) ==> !reads_bare(subs[k], l),
    ensures
        (substituted_place(p, subs) is Local) == (p is Local),
        p is Local ==> substituted_place(p, subs) == p,
        !place_reads_bare(substituted_place(p, subs), l),
    decreases p, 0int,
{
    match p {
        HirPlaceModel::Local(_) => {},
        HirPlaceModel::Field { base, field } => lemma_substituted_place_reads(*base, subs, l),
        HirPlaceModel::Index { base, index } => {
            lemma_substituted_place_reads(*base, subs, l);
            lemma_substituted_reads(*index, subs, l);
        },
    }
}

/// Substitution removes the bare reads of a substituted local from a sequence.
pub proof fn lemma_substituted_all_reads(s: Seq<HirExpressionModel>, subs: Map<u32, HirExpressionModel>, l: u32)
    requires
        subs.contains_key(l),
        forall|k: u32| #[trigger] subs.contains_key(k) ==> !reads_bare(subs[k], l),
    ensures
        !all_read_bare(substituted_all(s, subs), l),
    decreases s, 0int,
{
    if s.len() > 0 {
        lemma_substituted_all_reads(s.drop_last(), subs, l);
        lemma_substituted_reads(s.last(), subs, l);
        lemma_substituted_all_push(s.drop_last(), s.last(), subs);
        assert(substituted_all(s, subs).drop_last() =~= substituted_all(s.drop_last(), subs));
    }
}

/// Substitution removes the bare reads of a substituted local from field values.
pub proof fn lemma_substituted_field_values_reads(s: Seq<(FieldId, HirExpressionModel)>, subs: Map<u32, HirExpressionModel>, l: u32)
    requires
        subs.contains_key(l),
        forall|k: u32| #[trigger] subs.contains_key(k) ==> !reads_bare(subs[k], l),
    ensures
        !field_values_read_bare(substituted_field_values(s, subs), l),
    decreases s, 0int,
{
    if s.len() > 0 {
        lemma_substituted_field_values_reads(s.drop_last(), subs, l);
        lemma_substituted_reads(s.last().1, subs, l);
        assert(substituted_field_values(s, subs).drop_last() =~= substituted_field_values(s.drop_last(), subs));
    }
}

/// Substitution removes the bare reads of a substituted local from variant fields.
pub proof fn lemma_substituted_variant_fields_reads(s: Seq<(Option<StringId>, HirExpressionModel)>, subs: Map<u32, HirExpressionModel>, l: u32)
    requires
        subs.contains_key(l),
        forall|k: u32| #[trigger] subs.contains_key(k) ==> !reads_bare(subs[k], l),
    ensures
        !variant_fields_read_bare(substituted_variant_fields(s, subs), l),
    decreases s, 0int,
{
    if s.len() > 0 {
        lemma_substituted_variant_fields_reads(s.drop_last(), subs, l);
        lemma_substituted_reads(s.last().1, subs, l);
        assert(substituted_variant_fields(s, subs).drop_last() =~= substituted_variant_fields(s.drop_last(), subs));
    }
}

// ============================================================================
// Bottom-up rewriting
// ============================================================================

/// Whether `out` is a result of rewriting `e` bottom up with `f`: every child is rewritten
/// first, the node is rebuilt around the rewritten children with its own id, type, value kind
/// and region, and `f` is applied to the rebuilt node; its answer, if any, replaces the node.
pub open spec fn rewrites_to<F: Fn(&HirExpression) -> Option<HirExpression>>(f: F, e: HirExpressionModel, out: HirExpressionModel) -> bool
    decreases e, 1int,
{
    exists|node: HirExpression, answer: Option<HirExpression>|
        #[trigger] call_ensures(f, (&node,), answer) && {
            &&& node.id == e.id
            &&& node.ty == e.ty
            &&& node.value_kind == e.value_kind
            &&& node.region == e.region
            &&& kind_rewrites_to(f, e.kind, hir_kind_model(node.kind))
            &&& out == match answer {
                Some(x) => hir_expression_model(x),
                None => hir_expression_model(node),
            }
        }
}

/// Whether `out` has the shape of `k` with each child expression rewritten bottom up with `f`.
pub open spec fn kind_rewrites_to<F: Fn(&HirExpression) -> Option<HirExpression>>(f: F, k: HirExpressionKindModel, out: HirExpressionKindModel) -> bool
    decreases k, 0int,
{
    match k {
        HirExpressionKindModel::Load(p) => out matches HirExpressionKindModel::Load(q) && place_rewrites_to(f, p, q),
        HirExpressionKindModel::Copy(p) => out matches HirExpressionKindModel::Copy(q) && place_rewrites_to(f, p, q),
        HirExpressionKindModel::BinOp { left, op, right } => out matches HirExpressionKindModel::BinOp { left: l, op: o, right: r }
            && o == op && rewrites_to(f, *left, *l) && rewrites_to(f, *right, *r),
        HirExpressionKindModel::UnaryOp { op, operand } => out matches HirExpressionKindModel::UnaryOp { op: o, operand: x }
            && o == op && rewrites_to(f, *operand, *x),
        HirExpressionKindModel::StructConstruct { struct_id, fields } => out matches HirExpressionKindModel::StructConstruct { struct_id: id, fields: fs }
            && id == struct_id && field_values_rewrite_to(f, fields, fs),
        HirExpressionKindModel::Collection(elements) => out matches HirExpressionKindModel::Collection(xs) && all_rewrite_to(f, elements, xs),
        HirExpressionKindModel::Range { start, end } => out matches HirExpressionKindModel::Range { start: a, end: b }
            && rewrites_to(f, *start, *a) && rewrites_to(f, *end, *b),
        HirExpressionKindModel::TupleConstruct { elements } => out matches HirExpressionKindModel::TupleConstruct { elements: xs } && all_rewrite_to(f, elements, xs),
        HirExpressionKindModel::TupleGet { tuple, index } => out matches HirExpressionKindModel::TupleGet { tuple: t, index: i }
            && i == index && rewrites_to(f, *tuple, *t),
        HirExpressionKindModel::ResultPropagate { result } => out matches HirExpressionKindModel::ResultPropagate { result: x } && rewrites_to(f, *result, *x),
        HirExpressionKindModel::ResultIsOk { result } => out matches HirExpressionKindModel::ResultIsOk { result: x } && rewrites_to(f, *result, *x),
        HirExpressionKindModel::ResultUnwrapOk { result } => out matches HirExpressionKindModel::ResultUnwrapOk { result: x } && rewrites_to(f, *result, *x),
        HirExpressionKindModel::ResultUnwrapErr { result } => out matches HirExpressionKindModel::ResultUnwrapErr { result: x } && rewrites_to(f, *result, *x),
        HirExpressionKindModel::BuiltinCast { kind, value } => out matches HirExpressionKindModel::BuiltinCast { kind: c, value: x }
            && c == kind && rewrites_to(f, *value, *x),
        HirExpressionKindModel::VariantConstruct { carrier, variant_index, fields } => out matches HirExpressionKindModel::VariantConstruct { carrier: c, variant_index: v, fields: fs }
            && c == carrier && v == variant_index && variant_fields_rewrite_to(f, fields, fs),
        HirExpressionKindModel::VariantPayloadGet { carrier, source, variant_index, field_index } => out matches HirExpressionKindModel::VariantPayloadGet { carrier: c, source: x, variant_index: v, field_index: i }
            && c == carrier && v == variant_index && i == field_index && rewrites_to(f, *source, *x),
        _ => out == k,
    }
}

/// Whether `out` is `p` with each index expression rewritten bottom up with `f`.
pub open spec fn place_rewrites_to<F: Fn(&HirExpression) -> Option<HirExpression>>(f: F, p: HirPlaceModel, out: HirPlaceModel) -> bool
    decreases p, 0int,
{
    match p {
        HirPlaceModel::Local(l) => out == HirPlaceModel::Local(l),
        HirPlaceModel::Field { base, field } => out matches HirPlaceModel::Field { base: b, field: x }
            && x == field && place_rewrites_to(f, *base, *b),
        HirPlaceModel::Index { base, index } => out matches HirPlaceModel::Index { base: b, index: i }
            && place_rewrites_to(f, *base, *b) && rewrites_to(f, *index, *i),
    }
}

/// Whether `out` is `s` with each expression rewritten bottom up with `f`, in order.
pub open spec fn all_rewrite_to<F: Fn(&HirExpression) -> Option<HirExpression>>(f: F, s: Seq<HirExpressionModel>, out: Seq<HirExpressionModel>) -> bool
    decreases s, 0int,
{
    out.len() == s.len() && (s.len() == 0 || (all_rewrite_to(f, s.drop_last(), out.drop_last())
        && rewrites_to(f, s.last(), out.last())))
}

/// Whether `out` is `s` with each field value rewritten bottom up with `f`, in order.
pub open spec fn field_values_rewrite_to<F: Fn(&HirExpression) -> Option<HirExpression>>(f: F, s: Seq<(FieldId, HirExpressionModel)>, out: Seq<(FieldId, HirExpressionModel)>) -> bool
    decreases s, 0int,
{
    out.len() == s.len() && (s.len() == 0 || (field_values_rewrite_to(f, s.drop_last(), out.drop_last())
        && out.last().0 == s.last().0 && rewrites_to(f, s.last().1, out.last().1)))
}

/// Whether `out` is `s` with each variant field value rewritten bottom up with `f`, in order.
pub open spec fn variant_fields_rewrite_to<F: Fn(&HirExpression) -> Option<HirExpression>>(f: F, s: Seq<(Option<StringId>, HirExpressionModel)>, out: Seq<(Option<StringId>, HirExpressionModel)>) -> bool
    decreases s, 0int,
{
    out.len() == s.len() && (s.len() == 0 || (variant_fields_rewrite_to(f, s.drop_last(), out.drop_last())
        && out.last().0 == s.last().0 && rewrites_to(f, s.last().1, out.last().1)))
}


/// Rewriting commutes with appending one expression.
pub proof fn lemma_all_rewrite_to_push<F: Fn(&HirExpression) -> Option<HirExpression>>(f: F, s: Seq<HirExpressionModel>, out: Seq<HirExpressionModel>, e: HirExpressionModel, o: HirExpressionModel)
    requires
        all_rewrite_to(f, s, out),
        rewrites_to(f, e, o),
    ensures
        all_rewrite_to(f, s.push(e), out.push(o)),
{
    assert(s.push(e).drop_last() =~= s);
    assert(out.push(o).drop_last() =~= out);
}

/// Rewriting commutes with appending one field value.
pub proof fn lemma_field_values_rewrite_to_push<F: Fn(&HirExpression) -> Option<HirExpression>>(f: F, s: Seq<(FieldId, HirExpressionModel)>, out: Seq<(FieldId, HirExpressionModel)>, id: FieldId, e: HirExpressionModel, o: HirExpressionModel)
    requires
        field_values_rewrite_to(f, s, out),
        rewrites_to(f, e, o),
    ensures
        field_values_rewrite_to(f, s.push((id, e)), out.push((id, o))),
{
    assert(s.push((id, e)).drop_last() =~= s);
    assert(out.push((id, o)).drop_last() =~= out);
}

/// Rewriting commutes with appending one variant field.
pub proof fn lemma_variant_fields_rewrite_to_push<F: Fn(&HirExpression) -> Option<HirExpression>>(f: F, s: Seq<(Option<StringId>, HirExpressionModel)>, out: Seq<(Option<StringId>, HirExpressionModel)>, name: Option<StringId>, e: HirExpressionModel, o: HirExpressionModel)
    requires
        variant_fields_rewrite_to(f, s, out),
        rewrites_to(f, e, o),
    ensures
        variant_fields_rewrite_to(f, s.push((name, e)), out.push((name, o))),
{
    assert(s.push((name, e)).drop_last() =~= s);
    assert(out.push((name, o)).drop_last() =~= out);
}

/// Rewrites an expression tree bottom up: every child is rewritten first, the node is rebuilt
/// around the rewritten children, and `rewrite` is applied to the rebuilt node; its answer,
/// if any, replaces the node.
pub fn rewrite_expression_bottom_up<F: Fn(&HirExpression) -> Option<HirExpression>>(expression: &HirExpression, rewrite: &F) -> (r: HirExpression)
    requires
        forall|x: &HirExpression| #[trigger] call_requires(*rewrite, (x,)),
    ensures
        rewrites_to(*rewrite, hir_expression_model(*expression), hir_expression_model(r)),
    decreases expression, 1int,
{
    let kind = rewrite_kind_bottom_up(&expression.kind, rewrite);
    let rewritten = HirExpression {
        id: expression.id,
        kind,
        ty: expression.ty,
        value_kind: expression.value_kind,
        region: expression.region,
    };
    let answer = rewrite(&rewritten);
    proof {
        assert(call_ensures(*rewrite, (&rewritten,), answer));
    }
    match answer {
        Some(replacement) => replacement,
        None => rewritten,
    }
}

/// Rewrites the children of an expression kind bottom up.
#[verifier::rlimit(40)]
fn rewrite_kind_bottom_up<F: Fn(&HirExpression) -> Option<HirExpression>>(kind: &HirExpressionKind, rewrite: &F) -> (r: HirExpressionKind)
    requires
        forall|x: &HirExpression| #[trigger] call_requires(*rewrite, (x,)),
    ensures
        kind_rewrites_to(*rewrite, hir_kind_model(*kind), hir_kind_model(r)),
    decreases kind, 0int,
{
    match kind {
        HirExpressionKind::Int(v) => HirExpressionKind::Int(*v),
        HirExpressionKind::Float(v) => HirExpressionKind::Float(*v),
        HirExpressionKind::Bool(v) => HirExpressionKind::Bool(*v),
        HirExpressionKind::Char(v) => HirExpressionKind::Char(*v),
        HirExpressionKind::StringLiteral(v) => HirExpressionKind::StringLiteral(v.clone()),
        HirExpressionKind::Load(place) => HirExpressionKind::Load(rewrite_place_expressions_bottom_up(place, rewrite)),
        HirExpressionKind::Copy(place) => HirExpressionKind::Copy(rewrite_place_expressions_bottom_up(place, rewrite)),
        HirExpressionKind::BinOp { left, op, right } => HirExpressionKind::BinOp {
            left: Box::new(rewrite_expression_bottom_up(left, rewrite)),
            op: *op,
            right: Box::new(rewrite_expression_bottom_up(right, rewrite)),
        },
        HirExpressionKind::UnaryOp { op, operand } => HirExpressionKind::UnaryOp {
            op: *op,
            operand: Box::new(rewrite_expression_bottom_up(operand, rewrite)),
        },
        HirExpressionKind::StructConstruct { struct_id, fields } => HirExpressionKind::StructConstruct {
            struct_id: *struct_id,
            fields: rewrite_field_values_bottom_up(fields, rewrite),
        },
        HirExpressionKind::Collection(elements) => HirExpressionKind::Collection(rewrite_all_bottom_up(elements, rewrite)),
        HirExpressionKind::Range { start, end } => HirExpressionKind::Range {
            start: Box::new(rewrite_expression_bottom_up(start, rewrite)),
            end: Box::new(rewrite_expression_bottom_up(end, rewrite)),
        },
        HirExpressionKind::TupleConstruct { elements } => HirExpressionKind::TupleConstruct {
            elements: rewrite_all_bottom_up(elements, rewrite),
        },
        HirExpressionKind::TupleGet { tuple, index } => HirExpressionKind::TupleGet {
            tuple: Box::new(rewrite_expression_bottom_up(tuple, rewrite)),
            index: *index,
        },
        HirExpressionKind::ResultPropagate { result } => HirExpressionKind::ResultPropagate {
            result: Box::new(rewrite_expression_bottom_up(result, rewrite)),
        },
        HirExpressionKind::ResultIsOk { result } => HirExpressionKind::ResultIsOk {
            result: Box::new(rewrite_expression_bottom_up(result, rewrite)),
        },
        HirExpressionKind::ResultUnwrapOk { result } => HirExpressionKind::ResultUnwrapOk {
            result: Box::new(rewrite_expression_bottom_up(result, rewrite)),
        },
        HirExpressionKind::ResultUnwrapErr { result } => HirExpressionKind::ResultUnwrapErr {
            result: Box::new(rewrite_expression_bottom_up(result, rewrite)),
        },
        HirExpressionKind::BuiltinCast { kind, value } => HirExpressionKind::BuiltinCast {
            kind: *kind,
            value: Box::new(rewrite_expression_bottom_up(value, rewrite)),
        },
        HirExpressionKind::VariantConstruct { carrier, variant_index, fields } => HirExpressionKind::VariantConstruct {
            carrier: *carrier,
            variant_index: *variant_index,
            fields: rewrite_variant_fields_bottom_up(fields, rewrite),
        },
        HirExpressionKind::VariantPayloadGet { carrier, source, variant_index, field_index } => HirExpressionKind::VariantPayloadGet {
            carrier: *carrier,
            source: Box::new(rewrite_expression_bottom_up(source, rewrite)),
            variant_index: *variant_index,
            field_index: *field_index,
        },
    }
}

/// Rewrites the index expressions of a place bottom up.
pub fn rewrite_place_expressions_bottom_up<F: Fn(&HirExpression) -> Option<HirExpression>>(place: &HirPlace, rewrite: &F) -> (r: HirPlace)
    requires
        forall|x: &HirExpression| #[trigger] call_requires(*rewrite, (x,)),
    ensures
        place_rewrites_to(*rewrite, hir_place_model(*place), hir_place_model(r)),
    decreases place, 0int,
{
    match place {
        HirPlace::Local(l) => HirPlace::Local(*l),
        HirPlace::Field { base, field } => HirPlace::Field {
            base: Box::new(rewrite_place_expressions_bottom_up(base, rewrite)),
            field: *field,
        },
        HirPlace::Index { base, index } => HirPlace::Index {
            base: Box::new(rewrite_place_expressions_bottom_up(base, rewrite)),
            index: Box::new(rewrite_expression_bottom_up(index, rewrite)),
        },
    }
}

/// Rewrites each expression of a vector bottom up, in order.
fn rewrite_all_bottom_up<F: Fn(&HirExpression) -> Option<HirExpression>>(v: &Vec<HirExpression>, rewrite: &F) -> (r: Vec<HirExpression>)
    requires
        forall|x: &HirExpression| #[trigger] call_requires(*rewrite, (x,)),
    ensures
        all_rewrite_to(*rewrite, hir_expressions_model(v@), hir_expressions_model(r@)),
    decreases v, 0int,
{
    let mut r: Vec<HirExpression> = Vec::new();
    let mut i: usize = 0;
    while i < v.len()
        invariant
            0 <= i <= v@.len(),
            forall|x: &HirExpression| #[trigger] call_requires(*rewrite, (x,)),
            all_rewrite_to(*rewrite, hir_expressions_model(v@.take(i as int)), hir_expressions_model(r@)),
        decreases v@.len() - i,
    {
        proof {
            assert(decreases_to!(v => v@[i as int]));
        }
        let c = rewrite_expression_bottom_up(&v[i], rewrite);
        proof {
            lemma_hir_expressions_model_push(r@, c);
            assert(v@.take(i + 1) =~= v@.take(i as int).push(v@[i as int]));
            lemma_hir_expressions_model_push(v@.take(i as int), v@[i as int]);
            lemma_all_rewrite_to_push(
                *rewrite,
                hir_expressions_model(v@.take(i as int)),
                hir_expressions_model(r@),
                hir_expression_model(v@[i as int]),
                hir_expression_model(c),
            );
        }
        r.push(c);
        i = i + 1;
    }
    assert(v@.take(v@.len() as int) =~= v@);
    r
}

/// Rewrites each value of a vector of field values bottom up, in order.
fn rewrite_field_values_bottom_up<F: Fn(&HirExpression) -> Option<HirExpression>>(v: &Vec<(FieldId, HirExpression)>, rewrite: &F) -> (r: Vec<(FieldId, HirExpression)>)
    requires
        forall|x: &HirExpression| #[trigger] call_requires(*rewrite, (x,)),
    ensures
        field_values_rewrite_to(*rewrite, hir_field_values_model(v@), hir_field_values_model(r@)),
    decreases v, 0int,
{
    let mut r: Vec<(FieldId, HirExpression)> = Vec::new();
    let mut i: usize = 0;
    while i < v.len()
        invariant
            0 <= i <= v@.len(),
            forall|x: &HirExpression| #[trigger] call_requires(*rewrite, (x,)),
            field_values_rewrite_to(*rewrite, hir_field_values_model(v@.take(i as int)), hir_field_values_model(r@)),
        decreases v@.len() - i,
    {
        proof {
            assert(decreases_to!(v => v@[i as int]));
            assert(decreases_to!(v@[i as int] => v@[i as int].1));
        }
        let c = (v[i].0, rewrite_expression_bottom_up(&v[i].1, rewrite));
        proof {
            lemma_hir_field_values_model_push(r@, c);
            assert(v@.take(i + 1) =~= v@.take(i as int).push(v@[i as int]));
            lemma_hir_field_values_model_push(v@.take(i as int), v@[i as int]);
            lemma_field_values_rewrite_to_push(
                *rewrite,
                hir_field_values_model(v@.take(i as int)),
                hir_field_values_model(r@),
                v@[i as int].0,
                hir_expression_model(v@[i as int].1),
                hir_expression_model(c.1),
            );
        }
        r.push(c);
        i = i + 1;
    }
    assert(v@.take(v@.len() as int) =~= v@);
    r
}

/// Rewrites each value of a vector of variant fields bottom up, in order.
fn rewrite_variant_fields_bottom_up<F: Fn(&HirExpression) -> Option<HirExpression>>(v: &Vec<HirVariantField>, rewrite: &F) -> (r: Vec<HirVariantField>)
    requires
        forall|x: &HirExpression| #[trigger] call_requires(*rewrite, (x,)),
    ensures
        variant_fields_rewrite_to(*rewrite, hir_variant_fields_model(v@), hir_variant_fields_model(r@)),
    decreases v, 0int,
{
    let mut r: Vec<HirVariantField> = Vec::new();
    let mut i: usize = 0;
    while i < v.len()
        invariant
            0 <= i <= v@.len(),
            forall|x: &HirExpression| #[trigger] call_requires(*rewrite, (x,)),
            variant_fields_rewrite_to(*rewrite, hir_variant_fields_model(v@.take(i as int)), hir_variant_fields_model(r@)),
        decreases v@.len() - i,
    {
        proof {
            assert(decreases_to!(v => v@[i as int]));
            assert(decreases_to!(v@[i as int] => v@[i as int].value));
        }
        let c = HirVariantField { name: v[i].name, value: rewrite_expression_bottom_up(&v[i].value, rewrite) };
        proof {
            lemma_hir_variant_fields_model_push(r@, c);
            assert(v@.take(i + 1) =~= v@.take(i as int).push(v@[i as int]));
            lemma_hir_variant_fields_model_push(v@.take(i as int), v@[i as int]);
            lemma_variant_fields_rewrite_to_push(
                *rewrite,
                hir_variant_fields_model(v@.take(i as int)),
                hir_variant_fields_model(r@),
                v@[i as int].name,
                hir_expression_model(v@[i as int].value),
                hir_expression_model(c.value),
            );
        }
        r.push(c);
        i = i + 1;
    }
    assert(v@.take(v@.len() as int) =~= v@);
    r
}


/// Law: a bottom-up rewrite whose function never answers gives back an expression with the
/// same model.
pub proof fn lemma_rewrite_without_answers<F: Fn(&HirExpression) -> Option<HirExpression>>(f: F, e: HirExpressionModel, out: HirExpressionModel)
    requires
        forall|x: &HirExpression, a: Option<HirExpression>| #[trigger] call_ensures(f, (x,), a) ==> a is None,
        rewrites_to(f, e, out),
    ensures
        out == e,
    decreases e, 1int,
{
    let (node, answer) = choose|node: HirExpression, answer: Option<HirExpression>|
        #[trigger] call_ensures(f, (&node,), answer) && {
            &&& node.id == e.id
            &&& node.ty == e.ty
            &&& node.value_kind == e.value_kind
            &&& node.region == e.region
            &&& kind_rewrites_to(f, e.kind, hir_kind_model(node.kind))
            &&& out == match answer {
                Some(x) => hir_expression_model(x),
                None => hir_expression_model(node),
            }
        };
    lemma_kind_rewrite_without_answers(f, e.kind, hir_kind_model(node.kind));
}

/// A kind rewritten by a function that never answers is unchanged.
pub proof fn lemma_kind_rewrite_without_answers<F: Fn(&HirExpression) -> Option<HirExpression>>(f: F, k: HirExpressionKindModel, out: HirExpressionKindModel)
    requires
        forall|x: &HirExpression, a: Option<HirExpression>| #[trigger] call_ensures(f, (x,), a) ==> a is None,
        kind_rewrites_to(f, k, out),
    ensures
        out == k,
    decreases k, 0int,
{
    match k {
        HirExpressionKindModel::Load(p) => {
            let q = out->Load_0;
            lemma_place_rewrite_without_answers(f, p, q);
        },
        HirExpressionKindModel::Copy(p) => {
            let q = out->Copy_0;
            lemma_place_rewrite_without_answers(f, p, q);
        },
        HirExpressionKindModel::BinOp { left, op, right } => {
            lemma_rewrite_without_answers(f, *left, *out->BinOp_left);
            lemma_rewrite_without_answers(f, *right, *out->BinOp_right);
        },
        HirExpressionKindModel::UnaryOp { op, operand } => lemma_rewrite_without_answers(f, *operand, *out->operand),
        HirExpressionKindModel::StructConstruct { struct_id, fields } => {
            lemma_field_values_rewrite_without_answers(f, fields, out->StructConstruct_fields);
        },
        HirExpressionKindModel::Collection(elements) => lemma_all_rewrite_without_answers(f, elements, out->Collection_0),
        HirExpressionKindModel::Range { start, end } => {
            lemma_rewrite_without_answers(f, *start, *out->start);
            lemma_rewrite_without_answers(f, *end, *out->end);
        },
        HirExpressionKindModel::TupleConstruct { elements } => lemma_all_rewrite_without_answers(f, elements, out->TupleConstruct_elements),
        HirExpressionKindModel::TupleGet { tuple, index } => lemma_rewrite_without_answers(f, *tuple, *out->tuple),
        HirExpressionKindModel::ResultPropagate { result } => lemma_rewrite_without_answers(f, *result, *out->ResultPropagate_result),
        HirExpressionKindModel::ResultIsOk { result } => lemma_rewrite_without_answers(f, *result, *out->ResultIsOk_result),
        HirExpressionKindModel::ResultUnwrapOk { result } => lemma_rewrite_without_answers(f, *result, *out->ResultUnwrapOk_result),
        HirExpressionKindModel::ResultUnwrapErr { result } => lemma_rewrite_without_answers(f, *result, *out->ResultUnwrapErr_result),
        HirExpressionKindModel::BuiltinCast { kind, value } => lemma_rewrite_without_answers(f, *value, *out->BuiltinCast_value),
        HirExpressionKindModel::VariantConstruct { carrier, variant_index, fields } => {
            lemma_variant_fields_rewrite_without_answers(f, fields, out->VariantConstruct_fields);
        },
        HirExpressionKindModel::VariantPayloadGet { carrier, source, variant_index, field_index } => {
            lemma_rewrite_without_answers(f, *source, *out->source);
        },
        _ => {},
    }
}

/// A place rewritten by a function that never answers is unchanged.
pub proof fn lemma_place_rewrite_without_answers<F: Fn(&HirExpression) -> Option<HirExpression>>(f: F, p: HirPlaceModel, out: HirPlaceModel)
    requires
        forall|x: &HirExpression, a: Option<HirExpression>| #[trigger] call_ensures(f, (x,), a) ==> a is None,
        place_rewrites_to(f, p, out),
    ensures
        out == p,
    decreases p, 0int,
{
    match p {
        HirPlaceModel::Local(_) => {},
        HirPlaceModel::Field { base, field } => lemma_place_rewrite_without_answers(f, *base, *out->Field_base),
        HirPlaceModel::Index { base, index } => {
            lemma_place_rewrite_without_answers(f, *base, *out->Index_base);
            lemma_rewrite_without_answers(f, *index, *out->index);
        },
    }
}

/// Expressions rewritten by a function that never answers are unchanged.
pub proof fn lemma_all_rewrite_without_answers<F: Fn(&HirExpression) -> Option<HirExpression>>(f: F, s: Seq<HirExpressionModel>, out: Seq<HirExpressionModel>)
    requires
        forall|x: &HirExpression, a: Option<HirExpression>| #[trigger] call_ensures(f, (x,), a) ==> a is None,
        all_rewrite_to(f, s, out),
    ensures
        out == s,
    decreases s, 0int,
{
    if s.len() > 0 {
        lemma_all_rewrite_without_answers(f, s.drop_last(), out.drop_last());
        lemma_rewrite_without_answers(f, s.last(), out.last());
        assert(out =~= s) by {
            assert forall|i: int| 0 <= i < s.len() implies out[i] == s[i] by {
                if i < s.len() - 1 {
                    assert(out.drop_last()[i] == s.drop_last()[i]);
                }
            }
        }
    } else {
        assert(out =~= s);
    }
}

/// Field values rewritten by a function that never answers are unchanged.
pub proof fn lemma_field_values_rewrite_without_answers<F: Fn(&HirExpression) -> Option<HirExpression>>(f: F, s: Seq<(FieldId, HirExpressionModel)>, out: Seq<(FieldId, HirExpressionModel)>)
    requires
        forall|x: &HirExpression, a: Option<HirExpression>| #[trigger] call_ensures(f, (x,), a) ==> a is None,
        field_values_rewrite_to(f, s, out),
    ensures
        out == s,
    decreases s, 0int,
{
    if s.len() > 0 {
        lemma_field_values_rewrite_without_answers(f, s.drop_last(), out.drop_last());
        lemma_rewrite_without_answers(f, s.last().1, out.last().1);
        assert(out =~= s) by {
            assert forall|i: int| 0 <= i < s.len() implies out[i] == s[i] by {
                if i < s.len() - 1 {
                    assert(out.drop_last()[i] == s.drop_last()[i]);
                }
            }
        }
    } else {
        assert(out =~= s);
    }
}

/// Variant fields rewritten by a function that never answers are unchanged.
pub proof fn lemma_variant_fields_rewrite_without_answers<F: Fn(&HirExpression) -> Option<HirExpression>>(f: F, s: Seq<(Option<StringId>, HirExpressionModel)>, out: Seq<(Option<StringId>, HirExpressionModel)>)
    requires
        forall|x: &HirExpression, a: Option<HirExpression>| #[trigger] call_ensures(f, (x,), a) ==> a is None,
        variant_fields_rewrite_to(f, s, out),
    ensures
        out == s,
    decreases s, 0int,
{
    if s.len() > 0 {
        lemma_variant_fields_rewrite_without_answers(f, s.drop_last(), out.drop_last());
        lemma_rewrite_without_answers(f, s.last().1, out.last().1);
        assert(out =~= s) by {
            assert forall|i: int| 0 <= i < s.len() implies out[i] == s[i] by {
                if i < s.len() - 1 {
                    assert(out.drop_last()[i] == s.drop_last()[i]);
                }
            }
        }
    } else {
        assert(out =~= s);
    }
}

// ============================================================================
// Substitution
// ============================================================================

/// Replaces, everywhere in `expr`, each load or copy of a bare local that has an entry in
/// `substitutions` (keyed by the local's number) by a copy of that entry.
pub fn substitute_locals_in_expression(expr: &HirExpression, substitutions: &FxHashMap<u32, HirExpression>) -> (r: HirExpression)
    ensures
        hir_expression_model(r) == substituted(hir_expression_model(*expr), substitution_models(substitutions@)),
    decreases expr, 1int,
{
    let ghost subs = substitution_models(substitutions@);
    match &expr.kind {
        HirExpressionKind::Load(HirPlace::Local(local_id)) => {
            if let Some(replacement) = fx_map_get(substitutions, local_id.0) {
                proof {
                    assert(hir_place_model(HirPlace::Local(*local_id)) == HirPlaceModel::Local(*local_id));
                }
                return copy_hir_expression(replacement);
            }
            proof {
                assert(hir_place_model(HirPlace::Local(*local_id)) == HirPlaceModel::Local(*local_id));
                assert(!replaced(hir_expression_model(*expr), subs));
            }
        },
        HirExpressionKind::Copy(HirPlace::Local(local_id)) => {
            if let Some(replacement) = fx_map_get(substitutions, local_id.0) {
                proof {
                    assert(hir_place_model(HirPlace::Local(*local_id)) == HirPlaceModel::Local(*local_id));
                }
                return copy_hir_expression(replacement);
            }
            proof {
                assert(hir_place_model(HirPlace::Local(*local_id)) == HirPlaceModel::Local(*local_id));
                assert(!replaced(hir_expression_model(*expr), subs));
            }
        },
        _ => {
            proof {
                assert(read_local(hir_kind_model(expr.kind)) is None);
            }
        },
    }
    let new_kind = substitute_locals_in_kind(&expr.kind, substitutions);
    HirExpression { id: expr.id, kind: new_kind, ty: expr.ty, value_kind: expr.value_kind, region: expr.region }
}

/// Applies the substitution to every child expression and place of an expression kind.
#[verifier::rlimit(40)]
fn substitute_locals_in_kind(kind: &HirExpressionKind, substitutions: &FxHashMap<u32, HirExpression>) -> (r: HirExpressionKind)
    ensures
        hir_kind_model(r) == substituted_kind(hir_kind_model(*kind), substitution_models(substitutions@)),
    decreases kind, 0int,
{
    match kind {
        HirExpressionKind::Int(v) => HirExpressionKind::Int(*v),
        HirExpressionKind::Float(v) => HirExpressionKind::Float(*v),
        HirExpressionKind::Bool(v) => HirExpressionKind::Bool(*v),
        HirExpressionKind::Char(v) => HirExpressionKind::Char(*v),
        HirExpressionKind::StringLiteral(v) => HirExpressionKind::StringLiteral(v.clone()),
        HirExpressionKind::Load(place) => HirExpressionKind::Load(substitute_locals_in_place(place, substitutions)),
        HirExpressionKind::Copy(place) => HirExpressionKind::Copy(substitute_locals_in_place(place, substitutions)),
        HirExpressionKind::BinOp { left, op, right } => HirExpressionKind::BinOp {
            left: Box::new(substitute_locals_in_expression(left, substitutions)),
            op: *op,
            right: Box::new(substitute_locals_in_expression(right, substitutions)),
        },
        HirExpressionKind::UnaryOp { op, operand } => HirExpressionKind::UnaryOp {
            op: *op,
            operand: Box::new(substitute_locals_in_expression(operand, substitutions)),
        },
        HirExpressionKind::StructConstruct { struct_id, fields } => HirExpressionKind::StructConstruct {
            struct_id: *struct_id,
            fields: substitute_locals_in_field_values(fields, substitutions),
        },
        HirExpressionKind::Collection(elements) => HirExpressionKind::Collection(
            substitute_locals_in_expressions(elements, substitutions),
        ),
        HirExpressionKind::Range { start, end } => HirExpressionKind::Range {
            start: Box::new(substitute_locals_in_expression(start, substitutions)),
            end: Box::new(substitute_locals_in_expression(end, substitutions)),
        },
        HirExpressionKind::TupleConstruct { elements } => HirExpressionKind::TupleConstruct {
            elements: substitute_locals_in_expressions(elements, substitutions),
        },
        HirExpressionKind::TupleGet { tuple, index } => HirExpressionKind::TupleGet {
            tuple: Box::new(substitute_locals_in_expression(tuple, substitutions)),
            index: *index,
        },
        HirExpressionKind::ResultPropagate { result } => HirExpressionKind::ResultPropagate {
            result: Box::new(substitute_locals_in_expression(result, substitutions)),
        },
        HirExpressionKind::ResultIsOk { result } => HirExpressionKind::ResultIsOk {
            result: Box::new(substitute_locals_in_expression(result, substitutions)),
        },
        HirExpressionKind::ResultUnwrapOk { result } => HirExpressionKind::ResultUnwrapOk {
            result: Box::new(substitute_locals_in_expression(result, substitutions)),
        },
        HirExpressionKind::ResultUnwrapErr { result } => HirExpressionKind::ResultUnwrapErr {
            result: Box::new(substitute_locals_in_expression(result, substitutions)),
        },
        HirExpressionKind::BuiltinCast { kind, value } => HirExpressionKind::BuiltinCast {
            kind: *kind,
            value: Box::new(substitute_locals_in_expression(value, substitutions)),
        },
        HirExpressionKind::VariantConstruct { carrier, variant_index, fields } => HirExpressionKind::VariantConstruct {
            carrier: *carrier,
            variant_index: *variant_index,
            fields: substitute_locals_in_variant_fields(fields, substitutions),
        },
        HirExpressionKind::VariantPayloadGet { carrier, source, variant_index, field_index } => HirExpressionKind::VariantPayloadGet {
            carrier: *carrier,
            source: Box::new(substitute_locals_in_expression(source, substitutions)),
            variant_index: *variant_index,
            field_index: *field_index,
        },
    }
}

/// Applies the substitution to the index expressions of a place.
pub fn substitute_locals_in_place(place: &HirPlace, substitutions: &FxHashMap<u32, HirExpression>) -> (r: HirPlace)
    ensures
        hir_place_model(r) == substituted_place(hir_place_model(*place), substitution_models(substitutions@)),
    decreases place, 0int,
{
    match place {
        HirPlace::Local(l) => HirPlace::Local(*l),
        HirPlace::Field { base, field } => HirPlace::Field {
            base: Box::new(substitute_locals_in_place(base, substitutions)),
            field: *field,
        },
        HirPlace::Index { base, index } => HirPlace::Index {
            base: Box::new(substitute_locals_in_place(base, substitutions)),
            index: Box::new(substitute_locals_in_expression(index, substitutions)),
        },
    }
}

/// Applies the substitution to each expression of a vector, in order.
fn substitute_locals_in_expressions(v: &Vec<HirExpression>, substitutions: &FxHashMap<u32, HirExpression>) -> (r: Vec<HirExpression>)
    ensures
        hir_expressions_model(r@) == substituted_all(hir_expressions_model(v@), substitution_models(substitutions@)),
    decreases v, 0int,
{
    let ghost subs = substitution_models(substitutions@);
    let mut r: Vec<HirExpression> = Vec::new();
    let mut i: usize = 0;
    while i < v.len()
        invariant
            0 <= i <= v@.len(),
            subs == substitution_models(substitutions@),
            hir_expressions_model(r@) == substituted_all(hir_expressions_model(v@.take(i as int)), subs),
        decreases v@.len() - i,
    {
        proof {
            assert(decreases_to!(v => v@[i as int]));
        }
        let c = substitute_locals_in_expression(&v[i], substitutions);
        proof {
            lemma_hir_expressions_model_push(r@, c);
            assert(v@.take(i + 1) =~= v@.take(i as int).push(v@[i as int]));
            lemma_hir_expressions_model_push(v@.take(i as int), v@[i as int]);
            lemma_substituted_all_push(hir_expressions_model(v@.take(i as int)), hir_expression_model(v@[i as int]), subs);
        }
        r.push(c);
        i = i + 1;
    }
    assert(v@.take(v@.len() as int) =~= v@);
    r
}

/// Applies the substitution to each value of a vector of field values, in order.
fn substitute_locals_in_field_values(v: &Vec<(FieldId, HirExpression)>, substitutions: &FxHashMap<u32, HirExpression>) -> (r: Vec<(FieldId, HirExpression)>)
    ensures
        hir_field_values_model(r@) == substituted_field_values(hir_field_values_model(v@), substitution_models(substitutions@)),
    decreases v, 0int,
{
    let ghost subs = substitution_models(substitutions@);
    let mut r: Vec<(FieldId, HirExpression)> = Vec::new();
    let mut i: usize = 0;
    while i < v.len()
        invariant
            0 <= i <= v@.len(),
            subs == substitution_models(substitutions@),
            hir_field_values_model(r@) == substituted_field_values(hir_field_values_model(v@.take(i as int)), subs),
        decreases v@.len() - i,
    {
        proof {
            assert(decreases_to!(v => v@[i as int]));
            assert(decreases_to!(v@[i as int] => v@[i as int].1));
        }
        let c = (v[i].0, substitute_locals_in_expression(&v[i].1, substitutions));
        proof {
            lemma_hir_field_values_model_push(r@, c);
            assert(v@.take(i + 1) =~= v@.take(i as int).push(v@[i as int]));
            lemma_hir_field_values_model_push(v@.take(i as int), v@[i as int]);
            lemma_substituted_field_values_push(
                hir_field_values_model(v@.take(i as int)),
                (v@[i as int].0, hir_expression_model(v@[i as int].1)),
                subs,
            );
        }
        r.push(c);
        i = i + 1;
    }
    assert(v@.take(v@.len() as int) =~= v@);
    r
}

/// Applies the substitution to each value of a vector of variant fields, in order.
fn substitute_locals_in_variant_fields(v: &Vec<HirVariantField>, substitutions: &FxHashMap<u32, HirExpression>) -> (r: Vec<HirVariantField>)
    ensures
        hir_variant_fields_model(r@) == substituted_variant_fields(hir_variant_fields_model(v@), substitution_models(substitutions@)),
    decreases v, 0int,
{
    let ghost subs = substitution_models(substitutions@);
    let mut r: Vec<HirVariantField> = Vec::new();
    let mut i: usize = 0;
    while i < v.len()
        invariant
            0 <= i <= v@.len(),
            subs == substitution_models(substitutions@),
            hir_variant_fields_model(r@) == substituted_variant_fields(hir_variant_fields_model(v@.take(i as int)), subs),
        decreases v@.len() - i,
    {
        proof {
            assert(decreases_to!(v => v@[i as int]));
            assert(decreases_to!(v@[i as int] => v@[i as int].value));
        }
        let c = HirVariantField { name: v[i].name, value: substitute_locals_in_expression(&v[i].value, substitutions) };
        proof {
            lemma_hir_variant_fields_model_push(r@, c);
            assert(v@.take(i + 1) =~= v@.take(i as int).push(v@[i as int]));
            lemma_hir_variant_fields_model_push(v@.take(i as int), v@[i as int]);
            lemma_substituted_variant_fields_push(
                hir_variant_fields_model(v@.take(i as int)),
                (v@[i as int].name, hir_expression_model(v@[i as int].value)),
                subs,
            );
        }
        r.push(c);
        i = i + 1;
    }
    assert(v@.take(v@.len() as int) =~= v@);
    r
}

} // verus!
