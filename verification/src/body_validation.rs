//! Validation of what HIR blocks hold: every block's region and its locals' types and
//! regions are known, no block keeps the placeholder `panic` terminator, statements hold
//! well-formed places and expressions and name known locals, and every terminator refers
//! to known blocks of the same function and holds well-formed expressions and patterns.
//!
//! An expression is well formed when its type and region are known and so are, recursively,
//! its children: loads and copies name known locals through field and index projections
//! whose bases have struct and collection types, struct constructions name known structs
//! and fields they own. Checks run in source order and the first failure is reported.

use vstd::prelude::*;
use crate::errors::CompilerError;
use crate::expressions::{
    hir_expression_model, hir_expressions_model, hir_field_values_model, hir_place_model, hir_variant_fields_model,
    lemma_hir_expressions_model_push, lemma_hir_field_values_model_push, lemma_hir_variant_fields_model_push,
    HirExpression, HirExpressionKind, HirExpressionKindModel, HirExpressionModel, HirPlace, HirPlaceModel,
    HirVariantField,
};
use crate::fx_collections::{fx_map_contains_key, fx_map_get, fx_set_contains};
use crate::hir_datatypes::{HirTypeKind, TypeId};
use crate::hir_nodes::{
    arm_bodies, terminator_target_seq, HirLocal, HirMatchArm, HirPattern, HirStatement, HirStatementKind, HirTerminator,
    ValueKind,
};
use crate::hir_validation::{HirBlockDecl, HirValidator};
use crate::ids::{BlockId, FieldId, LocalId, RegionId, StringId, StructId};

verus! {

/// The first of two errors, if any.
pub open spec fn either(first: Option<CompilerError>, second: Option<CompilerError>) -> Option<CompilerError> {
    match first {
        Some(e) => Some(e),
        None => second,
    }
}

/// A check's outcome: its error, or success when there is none.
pub open spec fn outcome(error: Option<CompilerError>) -> Result<(), CompilerError> {
    match error {
        Some(e) => Err(e),
        None => Ok(()),
    }
}

impl<'a> HirValidator<'a> {
    /// The check of a type id: the module's type context holds it.
    pub open spec fn type_error(&self, t: TypeId) -> Option<CompilerError> {
        if (t.0 as int) < self.module.type_context@.len() {
            None
        } else {
            Some(CompilerError::UnknownTypeId(t))
        }
    }

    /// The check of a region id: it was collected.
    pub open spec fn region_error(&self, r: RegionId) -> Option<CompilerError> {
        if self.region_ids@.contains(r.0) {
            None
        } else {
            Some(CompilerError::UnknownRegionId(r))
        }
    }

    /// The check that field `f` is a known field owned by the known struct `s`.
    pub open spec fn owned_error(&self, f: FieldId, s: StructId) -> Option<CompilerError> {
        if !self.field_ids@.contains(f.0) {
            Some(CompilerError::UnknownFieldId(f))
        } else if !self.struct_ids@.contains(s.0) {
            Some(CompilerError::UnknownStructId(s))
        } else if !self.field_owner@.contains_key(f.0) {
            Some(CompilerError::FieldWithoutOwner(f))
        } else if self.field_owner@[f.0] == s {
            None
        } else {
            Some(CompilerError::FieldOwnedByOther { field: f, owner: self.field_owner@[f.0], expected: s })
        }
    }

    /// The type of a place, or the first reason it is ill formed: a local must be known; a
    /// field's base must have a struct type owning the field; an index must be well formed
    /// and its base must have a collection type, whose element type is the place's type.
    pub open spec fn place_result(&self, p: HirPlaceModel) -> Result<TypeId, CompilerError>
        decreases p, 0int,
    {
        match p {
            HirPlaceModel::Local(l) => if self.local_types@.contains_key(l.0) {
                Ok(self.local_types@[l.0])
            } else {
                Err(CompilerError::UnknownLocalId(l))
            },
            HirPlaceModel::Field { base, field } => match self.place_result(*base) {
                Err(e) => Err(e),
                Ok(base_type) => match self.type_error(base_type) {
                    Some(e) => Err(e),
                    None => match self.module.type_context@[base_type.0 as int].kind {
                        HirTypeKind::Struct { struct_id } => match self.owned_error(field, struct_id) {
                            Some(e) => Err(e),
                            None => if self.field_types@.contains_key(field.0) {
                                Ok(self.field_types@[field.0])
                            } else {
                                Err(CompilerError::UnknownFieldId(field))
                            },
                        },
                        _ => Err(CompilerError::FieldBaseNotStruct(field)),
                    },
                },
            },
            HirPlaceModel::Index { base, index } => match self.expr_error(*index) {
                Some(e) => Err(e),
                None => match self.place_result(*base) {
                    Err(e) => Err(e),
                    Ok(base_type) => match self.type_error(base_type) {
                        Some(e) => Err(e),
                        None => match self.module.type_context@[base_type.0 as int].kind {
                            HirTypeKind::Collection { element } => Ok(element),
                            _ => Err(CompilerError::IndexBaseNotCollection),
                        },
                    },
                },
            },
        }
    }

    /// The check of an expression: its type, its region, then its children.
    pub open spec fn expr_error(&self, e: HirExpressionModel) -> Option<CompilerError>
        decreases e, 1int,
    {
        either(self.type_error(e.ty), either(self.region_error(e.region), self.kind_error(e.kind)))
    }

    /// The check of the children of an expression kind, in order.
    pub open spec fn kind_error(&self, k: HirExpressionKindModel) -> Option<CompilerError>
        decreases k, 0int,
    {
        match k {
            HirExpressionKindModel::Load(p) => match self.place_result(p) {
                Err(e) => Some(e),
                Ok(_) => None,
            },
            HirExpressionKindModel::Copy(p) => match self.place_result(p) {
                Err(e) => Some(e),
                Ok(_) => None,
            },
            HirExpressionKindModel::BinOp { left, op, right } => either(self.expr_error(*left), self.expr_error(*right)),
            HirExpressionKindModel::UnaryOp { op, operand } => self.expr_error(*operand),
            HirExpressionKindModel::StructConstruct { struct_id, fields } => if self.struct_ids@.contains(struct_id.0) {
                self.field_values_error(fields, struct_id)
            } else {
                Some(CompilerError::UnknownStructId(struct_id))
            },
            HirExpressionKindModel::Collection(elements) => self.all_error(elements),
            HirExpressionKindModel::Range { start, end } => either(self.expr_error(*start), self.expr_error(*end)),
            HirExpressionKindModel::TupleConstruct { elements } => self.all_error(elements),
            HirExpressionKindModel::TupleGet { tuple, index } => self.expr_error(*tuple),
            HirExpressionKindModel::ResultPropagate { result } => self.expr_error(*result),
            HirExpressionKindModel::ResultIsOk { result } => self.expr_error(*result),
            HirExpressionKindModel::ResultUnwrapOk { result } => self.expr_error(*result),
            HirExpressionKindModel::ResultUnwrapErr { result } => self.expr_error(*result),
            HirExpressionKindModel::BuiltinCast { kind, value } => self.expr_error(*value),
            HirExpressionKindModel::VariantConstruct { carrier, variant_index, fields } => self.variant_fields_error(fields),
            HirExpressionKindModel::VariantPayloadGet { carrier, source, variant_index, field_index } => self.expr_error(*source),
            _ => None,
        }
    }

    /// The check of a sequence of expressions, first to last.
    pub open spec fn all_error(&self, s: Seq<HirExpressionModel>) -> Option<CompilerError>
        decreases s, 0int,
    {
        if s.len() == 0 {
            None
        } else {
            either(self.all_error(s.drop_last()), self.expr_error(s.last()))
        }
    }

    /// The check of the fields of a construction of struct `s`, first to last: each field is
    /// owned by the struct and its value is well formed.
    pub open spec fn field_values_error(&self, v: Seq<(FieldId, HirExpressionModel)>, s: StructId) -> Option<CompilerError>
        decreases v, 0int,
    {
        if v.len() == 0 {
            None
        } else {
            either(
                self.field_values_error(v.drop_last(), s),
                either(self.owned_error(v.last().0, s), self.expr_error(v.last().1)),
            )
        }
    }

    /// The check of the values of variant fields, first to last.
    pub open spec fn variant_fields_error(&self, v: Seq<(Option<StringId>, HirExpressionModel)>) -> Option<CompilerError>
        decreases v, 0int,
    {
        if v.len() == 0 {
            None
        } else {
            either(self.variant_fields_error(v.drop_last()), self.expr_error(v.last().1))
        }
    }

    /// Validates a place and returns its type (see `place_result`).
    pub fn validate_place(&self, place: &HirPlace) -> (r: Result<TypeId, CompilerError>)
        ensures
            r == self.place_result(hir_place_model(*place)),
        decreases place, 0int,
    {
        match place {
            HirPlace::Local(local_id) => match fx_map_get(&self.local_types, local_id.0) {
                Some(t) => Ok(*t),
                None => Err(CompilerError::UnknownLocalId(*local_id)),
            },
            HirPlace::Field { base, field } => {
                let base_type = match self.validate_place(base) {
                    Ok(t) => t,
                    Err(e) => return Err(e),
                };
                match self.require_type_id(base_type) {
                    Ok(()) => {},
                    Err(e) => return Err(e),
                }
                let struct_id = match &self.module.type_context.get(base_type).kind {
                    HirTypeKind::Struct { struct_id } => *struct_id,
                    _ => return Err(CompilerError::FieldBaseNotStruct(*field)),
                };
                match self.require_field_owned_by(*field, struct_id) {
                    Ok(()) => {},
                    Err(e) => return Err(e),
                }
                match fx_map_get(&self.field_types, field.0) {
                    Some(t) => Ok(*t),
                    None => Err(CompilerError::UnknownFieldId(*field)),
                }
            },
            HirPlace::Index { base, index } => {
                match self.validate_expression(index) {
                    Ok(()) => {},
                    Err(e) => return Err(e),
                }
                let base_type = match self.validate_place(base) {
                    Ok(t) => t,
                    Err(e) => return Err(e),
                };
                match self.require_type_id(base_type) {
                    Ok(()) => {},
                    Err(e) => return Err(e),
                }
                match &self.module.type_context.get(base_type).kind {
                    HirTypeKind::Collection { element } => Ok(*element),
                    _ => Err(CompilerError::IndexBaseNotCollection),
                }
            },
        }
    }

    /// Validates an expression (see `expr_error`).
    pub fn validate_expression(&self, expression: &HirExpression) -> (r: Result<(), CompilerError>)
        ensures
            r == outcome(self.expr_error(hir_expression_model(*expression))),
        decreases expression, 1int,
    {
        match self.require_type_id(expression.ty) {
            Ok(()) => {},
            Err(e) => return Err(e),
        }
        match self.require_region_id(expression.region) {
            Ok(()) => {},
            Err(e) => return Err(e),
        }
        self.validate_expression_kind(&expression.kind)
    }

    /// Validates the children of an expression kind (see `kind_error`).
    #[verifier::rlimit(40)]
    fn validate_expression_kind(&self, kind: &HirExpressionKind) -> (r: Result<(), CompilerError>)
        ensures
            r == outcome(self.kind_error(crate::expressions::hir_kind_model(*kind))),
        decreases kind, 0int,
    {
        match kind {
            HirExpressionKind::Load(place) => match self.validate_place(place) {
                Ok(_) => Ok(()),
                Err(e) => Err(e),
            },
            HirExpressionKind::Copy(place) => match self.validate_place(place) {
                Ok(_) => Ok(()),
                Err(e) => Err(e),
            },
            HirExpressionKind::BinOp { left, right, .. } => match self.validate_expression(left) {
                Ok(()) => self.validate_expression(right),
                Err(e) => Err(e),
            },
            HirExpressionKind::UnaryOp { operand, .. } => self.validate_expression(operand),
            HirExpressionKind::StructConstruct { struct_id, fields } => {
                match self.require_struct_id(*struct_id) {
                    Ok(()) => {},
                    Err(e) => return Err(e),
                }
                self.validate_field_values(fields, *struct_id)
            },
            HirExpressionKind::Collection(elements) => self.validate_expressions(elements),
            HirExpressionKind::TupleConstruct { elements } => self.validate_expressions(elements),
            HirExpressionKind::TupleGet { tuple, .. } => self.validate_expression(tuple),
            HirExpressionKind::Range { start, end } => match self.validate_expression(start) {
                Ok(()) => self.validate_expression(end),
                Err(e) => Err(e),
            },
            HirExpressionKind::ResultPropagate { result } => self.validate_expression(result),
            HirExpressionKind::ResultIsOk { result } => self.validate_expression(result),
            HirExpressionKind::ResultUnwrapOk { result } => self.validate_expression(result),
            HirExpressionKind::ResultUnwrapErr { result } => self.validate_expression(result),
            HirExpressionKind::BuiltinCast { value, .. } => self.validate_expression(value),
            HirExpressionKind::VariantConstruct { fields, .. } => self.validate_variant_fields(fields),
            HirExpressionKind::VariantPayloadGet { source, .. } => self.validate_expression(source),
            _ => Ok(()),
        }
    }

    /// Validates expressions in order (see `all_error`).
    fn validate_expressions(&self, v: &Vec<HirExpression>) -> (r: Result<(), CompilerError>)
        ensures
            r == outcome(self.all_error(hir_expressions_model(v@))),
        decreases v, 0int,
    {
        let mut i: usize = 0;
        while i < v.len()
            invariant
                0 <= i <= v@.len(),
                self.all_error(hir_expressions_model(v@.take(i as int))) is None,
            decreases v@.len() - i,
        {
            proof {
                assert(decreases_to!(v => v@[i as int]));
                assert(v@.take(i + 1) =~= v@.take(i as int).push(v@[i as int]));
                lemma_hir_expressions_model_push(v@.take(i as int), v@[i as int]);
                assert(hir_expressions_model(v@.take(i + 1)).drop_last() =~= hir_expressions_model(v@.take(i as int)));
            }
            let checked = self.validate_expression(&v[i]);
            match checked {
                Ok(()) => {},
                Err(e) => {
                    proof {
                        lemma_all_error_prefix(*self, v@, i as int + 1);
                    }
                    return Err(e);
                },
            }
            i = i + 1;
        }
        assert(v@.take(v@.len() as int) =~= v@);
        Ok(())
    }

    /// Validates the fields of a construction of struct `s` in order (see
    /// `field_values_error`).
    fn validate_field_values(&self, v: &Vec<(FieldId, HirExpression)>, s: StructId) -> (r: Result<(), CompilerError>)
        ensures
            r == outcome(self.field_values_error(hir_field_values_model(v@), s)),
        decreases v, 0int,
    {
        let mut i: usize = 0;
        while i < v.len()
            invariant
                0 <= i <= v@.len(),
                self.field_values_error(hir_field_values_model(v@.take(i as int)), s) is None,
            decreases v@.len() - i,
        {
            proof {
                assert(decreases_to!(v => v@[i as int]));
                assert(decreases_to!(v@[i as int] => v@[i as int].1));
                assert(v@.take(i + 1) =~= v@.take(i as int).push(v@[i as int]));
                lemma_hir_field_values_model_push(v@.take(i as int), v@[i as int]);
                assert(hir_field_values_model(v@.take(i + 1)).drop_last() =~= hir_field_values_model(v@.take(i as int)));
            }
            let r1 = self.require_field_owned_by(v[i].0, s);
            let r2 = match r1 {
                Ok(()) => self.validate_expression(&v[i].1),
                Err(e) => Err(e),
            };
            match r2 {
                Ok(()) => {},
                Err(e) => {
                    proof {
                        lemma_field_values_error_prefix(*self, v@, s, i as int + 1);
                    }
                    return Err(e);
                },
            }
            i = i + 1;
        }
        assert(v@.take(v@.len() as int) =~= v@);
        Ok(())
    }

    /// Validates the values of variant fields in order (see `variant_fields_error`).
    fn validate_variant_fields(&self, v: &Vec<HirVariantField>) -> (r: Result<(), CompilerError>)
        ensures
            r == outcome(self.variant_fields_error(hir_variant_fields_model(v@))),
        decreases v, 0int,
    {
        let mut i: usize = 0;
        while i < v.len()
            invariant
                0 <= i <= v@.len(),
                self.variant_fields_error(hir_variant_fields_model(v@.take(i as int))) is None,
            decreases v@.len() - i,
        {
            proof {
                assert(decreases_to!(v => v@[i as int]));
                assert(decreases_to!(v@[i as int] => v@[i as int].value));
                assert(v@.take(i + 1) =~= v@.take(i as int).push(v@[i as int]));
                lemma_hir_variant_fields_model_push(v@.take(i as int), v@[i as int]);
                assert(hir_variant_fields_model(v@.take(i + 1)).drop_last() =~= hir_variant_fields_model(v@.take(i as int)));
            }
            let checked = self.validate_expression(&v[i].value);
            match checked {
                Ok(()) => {},
                Err(e) => {
                    proof {
                        lemma_variant_fields_error_prefix(*self, v@, i as int + 1);
                    }
                    return Err(e);
                },
            }
            i = i + 1;
        }
        assert(v@.take(v@.len() as int) =~= v@);
        Ok(())
    }
}

impl<'a> HirValidator<'a> {
    /// The check of a block id: it was collected.
    pub open spec fn block_error(&self, b: BlockId) -> Option<CompilerError> {
        if self.block_ids@.contains(b.0) {
            None
        } else {
            Some(CompilerError::UnknownBlockId(b))
        }
    }

    /// The check that an edge from `source` to `target` stays in one function's
    /// control-flow graph (as `require_same_function_cfg_owner` checks it).
    pub open spec fn owner_error(&self, source: BlockId, target: BlockId) -> Option<CompilerError> {
        if !self.block_owner_by_id@.contains_key(source.0) {
            Some(CompilerError::BlockWithoutOwner(source))
        } else if !self.block_owner_by_id@.contains_key(target.0) {
            Some(CompilerError::BlockWithoutOwner(target))
        } else if self.block_owner_by_id@[source.0] == self.block_owner_by_id@[target.0] {
            None
        } else {
            Some(
                CompilerError::CrossFunctionEdge {
                    source,
                    target,
                    source_owner: self.block_owner_by_id@[source.0],
                    target_owner: self.block_owner_by_id@[target.0],
                },
            )
        }
    }

    /// The check of a control-flow edge: the target is a known block of the same function.
    pub open spec fn edge_error(&self, source: BlockId, target: BlockId) -> Option<CompilerError> {
        either(self.block_error(target), self.owner_error(source, target))
    }

    /// The check of a literal pattern's value: a well-formed constant int, float, bool, char
    /// or string literal.
    pub open spec fn literal_pattern_error(&self, e: HirExpressionModel) -> Option<CompilerError> {
        either(
            self.expr_error(e),
            if e.value_kind != ValueKind::Const {
                Some(CompilerError::PatternNotConst)
            } else if !(e.kind is Int || e.kind is Float || e.kind is Bool || e.kind is Char || e.kind is StringLiteral) {
                Some(CompilerError::PatternNotLiteral)
            } else {
                None
            },
        )
    }

    /// The check of a pattern: literal and relational patterns compare against a literal.
    pub open spec fn pattern_error(&self, p: HirPattern) -> Option<CompilerError> {
        match p {
            HirPattern::Literal(value) => self.literal_pattern_error(hir_expression_model(value)),
            HirPattern::Relational { value, .. } => self.literal_pattern_error(hir_expression_model(value)),
            _ => None,
        }
    }

    /// The check of a match arm of block `source`: its pattern, its guard, and the edge to
    /// its body.
    pub open spec fn arm_error(&self, source: BlockId, arm: HirMatchArm) -> Option<CompilerError> {
        either(
            self.pattern_error(arm.pattern),
            either(
                match arm.guard {
                    Some(g) => self.expr_error(hir_expression_model(g)),
                    None => None,
                },
                self.edge_error(source, arm.body),
            ),
        )
    }

    /// The check of match arms, first to last.
    pub open spec fn arms_error(&self, source: BlockId, arms: Seq<HirMatchArm>) -> Option<CompilerError>
        decreases arms.len(),
    {
        if arms.len() == 0 {
            None
        } else {
            either(self.arms_error(source, arms.drop_last()), self.arm_error(source, arms.last()))
        }
    }

    /// The first unknown local among jump arguments.
    pub open spec fn args_error(&self, args: Seq<LocalId>) -> Option<CompilerError>
        decreases args.len(),
    {
        if args.len() == 0 {
            None
        } else {
            either(
                self.args_error(args.drop_last()),
                if self.local_types@.contains_key(args.last().0) {
                    None
                } else {
                    Some(CompilerError::UnknownLocalId(args.last()))
                },
            )
        }
    }

    /// The check of the terminator of block `b`: its edges stay in the function and its
    /// expressions and patterns are well formed; a `panic` must carry a message.
    pub open spec fn terminator_error(&self, b: BlockId, t: HirTerminator) -> Option<CompilerError> {
        match t {
            HirTerminator::Jump { target, args } => either(self.edge_error(b, target), self.args_error(args@)),
            HirTerminator::If { condition, then_block, else_block } => either(
                self.expr_error(hir_expression_model(condition)),
                either(self.edge_error(b, then_block), self.edge_error(b, else_block)),
            ),
            HirTerminator::Match { scrutinee, arms } => either(
                self.expr_error(hir_expression_model(scrutinee)),
                self.arms_error(b, arms@),
            ),
            HirTerminator::Break { target } => self.edge_error(b, target),
            HirTerminator::Continue { target } => self.edge_error(b, target),
            HirTerminator::Return(value) => self.expr_error(hir_expression_model(value)),
            HirTerminator::Panic { message } => match message {
                Some(m) => self.expr_error(hir_expression_model(m)),
                None => Some(CompilerError::PlaceholderPanic(b)),
            },
        }
    }

    /// The check of block locals, first to last: known types and regions.
    pub open spec fn locals_error(&self, locals: Seq<HirLocal>) -> Option<CompilerError>
        decreases locals.len(),
    {
        if locals.len() == 0 {
            None
        } else {
            either(
                self.locals_error(locals.drop_last()),
                either(self.type_error(locals.last().ty), self.region_error(locals.last().region)),
            )
        }
    }

    /// The check of a local id: it was collected.
    pub open spec fn local_error(&self, l: LocalId) -> Option<CompilerError> {
        if self.local_types@.contains_key(l.0) {
            None
        } else {
            Some(CompilerError::UnknownLocalId(l))
        }
    }

    /// The check of a statement: its places and expressions are well formed and the locals
    /// it names are known.
    pub open spec fn statement_error(&self, st: HirStatement) -> Option<CompilerError> {
        match st.kind {
            HirStatementKind::Assign { target, value } => either(
                match self.place_result(hir_place_model(target)) {
                    Err(e) => Some(e),
                    Ok(_) => None,
                },
                self.expr_error(hir_expression_model(value)),
            ),
            HirStatementKind::Call { args, result, .. } => either(
                self.all_error(hir_expressions_model(args@)),
                match result {
                    Some(l) => self.local_error(l),
                    None => None,
                },
            ),
            HirStatementKind::Expr(e) => self.expr_error(hir_expression_model(e)),
            HirStatementKind::PushRuntimeFragment { vec_local, value } => either(
                self.local_error(vec_local),
                self.expr_error(hir_expression_model(value)),
            ),
            HirStatementKind::Drop(l) => self.local_error(l),
        }
    }

    /// The check of statements, first to last.
    pub open spec fn statements_error(&self, statements: Seq<HirStatement>) -> Option<CompilerError>
        decreases statements.len(),
    {
        if statements.len() == 0 {
            None
        } else {
            either(self.statements_error(statements.drop_last()), self.statement_error(statements.last()))
        }
    }

    /// The check of a block: not left with the placeholder `panic`, then its region, its
    /// locals, its statements and its terminator.
    pub open spec fn block_decl_error(&self, block: HirBlockDecl) -> Option<CompilerError> {
        if block.terminator matches HirTerminator::Panic { message: None } {
            Some(CompilerError::PlaceholderPanic(block.id))
        } else {
            either(
                self.region_error(block.region),
                either(
                    self.locals_error(block.locals@),
                    either(self.statements_error(block.statements@), self.terminator_error(block.id, block.terminator)),
                ),
            )
        }
    }

    /// The check of blocks, first to last.
    pub open spec fn blocks_decl_error(&self, blocks: Seq<HirBlockDecl>) -> Option<CompilerError>
        decreases blocks.len(),
    {
        if blocks.len() == 0 {
            None
        } else {
            either(self.blocks_decl_error(blocks.drop_last()), self.block_decl_error(blocks.last()))
        }
    }

    /// Checks every block of the module in order (see `blocks_decl_error`).
    pub fn validate_blocks(&self) -> (r: Result<(), CompilerError>)
        ensures
            r == outcome(self.blocks_decl_error(self.module.blocks@)),
    {
        let blocks = &self.module.blocks;
        let mut i: usize = 0;
        while i < blocks.len()
            invariant
                0 <= i <= blocks@.len(),
                blocks == &self.module.blocks,
                self.blocks_decl_error(blocks@.take(i as int)) is None,
            decreases blocks@.len() - i,
        {
            proof {
                assert(blocks@.take(i + 1).drop_last() =~= blocks@.take(i as int));
                assert(blocks@.take(i + 1).last() == blocks@[i as int]);
            }
            match self.validate_block(&blocks[i]) {
                Ok(()) => {},
                Err(e) => {
                    proof {
                        lemma_blocks_decl_error_prefix(*self, blocks@, i as int + 1);
                    }
                    return Err(e);
                },
            }
            i = i + 1;
        }
        assert(blocks@.take(blocks@.len() as int) =~= blocks@);
        Ok(())
    }

    /// Checks one block (see `block_decl_error`).
    #[verifier::loop_isolation(false)]
    pub fn validate_block(&self, block: &HirBlockDecl) -> (r: Result<(), CompilerError>)
        ensures
            r == outcome(self.block_decl_error(*block)),
    {
        if let HirTerminator::Panic { message: None } = &block.terminator {
            return Err(CompilerError::PlaceholderPanic(block.id));
        }
        match self.require_region_id(block.region) {
            Ok(()) => {},
            Err(e) => return Err(e),
        }
        let mut i: usize = 0;
        while i < block.locals.len()
            invariant
                0 <= i <= block.locals@.len(),
                self.locals_error(block.locals@.take(i as int)) is None,
            decreases block.locals@.len() - i,
        {
            proof {
                assert(block.locals@.take(i + 1).drop_last() =~= block.locals@.take(i as int));
                assert(block.locals@.take(i + 1).last() == block.locals@[i as int]);
            }
            let local = &block.locals[i];
            let checked = match self.require_type_id(local.ty) {
                Ok(()) => self.require_region_id(local.region),
                Err(e) => Err(e),
            };
            match checked {
                Ok(()) => {},
                Err(e) => {
                    proof {
                        assert(self.locals_error(block.locals@.take(i + 1)) == either(
                            self.locals_error(block.locals@.take(i as int)),
                            either(self.type_error(block.locals@[i as int].ty), self.region_error(block.locals@[i as int].region)),
                        ));
                        lemma_locals_error_prefix(*self, block.locals@, i as int + 1);
                    }
                    return Err(e);
                },
            }
            i = i + 1;
        }
        proof {
            assert(block.locals@.take(block.locals@.len() as int) =~= block.locals@);
        }
        let mut j: usize = 0;
        while j < block.statements.len()
            invariant
                0 <= j <= block.statements@.len(),
                self.statements_error(block.statements@.take(j as int)) is None,
            decreases block.statements@.len() - j,
        {
            proof {
                assert(block.statements@.take(j + 1).drop_last() =~= block.statements@.take(j as int));
                assert(block.statements@.take(j + 1).last() == block.statements@[j as int]);
            }
            match self.validate_statement(&block.statements[j]) {
                Ok(()) => {},
                Err(e) => {
                    proof {
                        lemma_statements_error_prefix(*self, block.statements@, j as int + 1);
                    }
                    return Err(e);
                },
            }
            j = j + 1;
        }
        proof {
            assert(block.statements@.take(block.statements@.len() as int) =~= block.statements@);
        }
        self.validate_terminator(block.id, &block.terminator)
    }

    /// Checks a statement (see `statement_error`).
    pub fn validate_statement(&self, statement: &HirStatement) -> (r: Result<(), CompilerError>)
        ensures
            r == outcome(self.statement_error(*statement)),
    {
        match &statement.kind {
            HirStatementKind::Assign { target, value } => {
                match self.validate_place(target) {
                    Ok(_) => {},
                    Err(e) => return Err(e),
                }
                self.validate_expression(value)
            },
            HirStatementKind::Call { args, result, .. } => {
                match self.validate_expressions(args) {
                    Ok(()) => {},
                    Err(e) => return Err(e),
                }
                match result {
                    Some(local_id) => self.require_local_id(*local_id),
                    None => Ok(()),
                }
            },
            HirStatementKind::Expr(expression) => self.validate_expression(expression),
            HirStatementKind::PushRuntimeFragment { vec_local, value } => {
                match self.require_local_id(*vec_local) {
                    Ok(()) => {},
                    Err(e) => return Err(e),
                }
                self.validate_expression(value)
            },
            HirStatementKind::Drop(local_id) => self.require_local_id(*local_id),
        }
    }

    /// Checks the terminator of block `block_id` (see `terminator_error`).
    #[verifier::loop_isolation(false)]
    pub fn validate_terminator(&self, block_id: BlockId, terminator: &HirTerminator) -> (r: Result<(), CompilerError>)
        ensures
            r == outcome(self.terminator_error(block_id, *terminator)),
    {
        match terminator {
            HirTerminator::Jump { target, args } => {
                match self.validate_edge(block_id, *target) {
                    Ok(()) => {},
                    Err(e) => return Err(e),
                }
                let mut i: usize = 0;
                while i < args.len()
                    invariant
                        0 <= i <= args@.len(),
                        self.args_error(args@.take(i as int)) is None,
                    decreases args@.len() - i,
                {
                    proof {
                        assert(args@.take(i + 1).drop_last() =~= args@.take(i as int));
                        assert(args@.take(i + 1).last() == args@[i as int]);
                    }
                    match self.require_local_id(args[i]) {
                        Ok(()) => {},
                        Err(e) => {
                            proof {
                                assert(self.args_error(args@.take(i + 1)) == either(
                                    self.args_error(args@.take(i as int)),
                                    Some(CompilerError::UnknownLocalId(args@[i as int])),
                                ));
                                lemma_args_error_prefix(*self, args@, i as int + 1);
                            }
                            return Err(e);
                        },
                    }
                    i = i + 1;
                }
                proof {
                    assert(args@.take(args@.len() as int) =~= args@);
                }
                Ok(())
            },
            HirTerminator::If { condition, then_block, else_block } => {
                match self.validate_expression(condition) {
                    Ok(()) => {},
                    Err(e) => return Err(e),
                }
                match self.validate_edge(block_id, *then_block) {
                    Ok(()) => {},
                    Err(e) => return Err(e),
                }
                self.validate_edge(block_id, *else_block)
            },
            HirTerminator::Match { scrutinee, arms } => {
                match self.validate_expression(scrutinee) {
                    Ok(()) => {},
                    Err(e) => return Err(e),
                }
                let mut i: usize = 0;
                while i < arms.len()
                    invariant
                        0 <= i <= arms@.len(),
                        self.arms_error(block_id, arms@.take(i as int)) is None,
                    decreases arms@.len() - i,
                {
                    proof {
                        assert(arms@.take(i + 1).drop_last() =~= arms@.take(i as int));
                        assert(arms@.take(i + 1).last() == arms@[i as int]);
                    }
                    match self.validate_match_arm(block_id, &arms[i]) {
                        Ok(()) => {},
                        Err(e) => {
                            proof {
                                assert(self.arms_error(block_id, arms@.take(i + 1)) == either(
                                    self.arms_error(block_id, arms@.take(i as int)),
                                    self.arm_error(block_id, arms@[i as int]),
                                ));
                                lemma_arms_error_prefix(*self, block_id, arms@, i as int + 1);
                            }
                            return Err(e);
                        },
                    }
                    i = i + 1;
                }
                proof {
                    assert(arms@.take(arms@.len() as int) =~= arms@);
                }
                Ok(())
            },
            HirTerminator::Break { target } => self.validate_edge(block_id, *target),
            HirTerminator::Continue { target } => self.validate_edge(block_id, *target),
            HirTerminator::Return(value) => self.validate_expression(value),
            HirTerminator::Panic { message } => match message {
                Some(m) => self.validate_expression(m),
                None => Err(CompilerError::PlaceholderPanic(block_id)),
            },
        }
    }

    /// Checks a control-flow edge (see `edge_error`).
    pub fn validate_edge(&self, source: BlockId, target: BlockId) -> (r: Result<(), CompilerError>)
        ensures
            r == outcome(self.edge_error(source, target)),
    {
        match self.require_block_id(target) {
            Ok(()) => {},
            Err(e) => return Err(e),
        }
        self.require_same_function_cfg_owner(source, target)
    }

    /// Checks a match arm of block `source` (see `arm_error`).
    pub fn validate_match_arm(&self, source: BlockId, arm: &HirMatchArm) -> (r: Result<(), CompilerError>)
        ensures
            r == outcome(self.arm_error(source, *arm)),
    {
        match self.validate_pattern(&arm.pattern) {
            Ok(()) => {},
            Err(e) => return Err(e),
        }
        if let Some(guard) = &arm.guard {
            match self.validate_expression(guard) {
                Ok(()) => {},
                Err(e) => return Err(e),
            }
        }
        self.validate_edge(source, arm.body)
    }

    /// Checks a pattern (see `pattern_error`).
    pub fn validate_pattern(&self, pattern: &HirPattern) -> (r: Result<(), CompilerError>)
        ensures
            r == outcome(self.pattern_error(*pattern)),
    {
        match pattern {
            HirPattern::Literal(value) => self.validate_literal_pattern_expression(value),
            HirPattern::Relational { value, .. } => self.validate_literal_pattern_expression(value),
            _ => Ok(()),
        }
    }

    /// Checks the value of a literal pattern (see `literal_pattern_error`).
    pub fn validate_literal_pattern_expression(&self, expression: &HirExpression) -> (r: Result<(), CompilerError>)
        ensures
            r == outcome(self.literal_pattern_error(hir_expression_model(*expression))),
    {
        match self.validate_expression(expression) {
            Ok(()) => {},
            Err(e) => return Err(e),
        }
        if expression.value_kind != ValueKind::Const {
            return Err(CompilerError::PatternNotConst);
        }
        match &expression.kind {
            HirExpressionKind::Int(_) => Ok(()),
            HirExpressionKind::Float(_) => Ok(()),
            HirExpressionKind::Bool(_) => Ok(()),
            HirExpressionKind::Char(_) => Ok(()),
            HirExpressionKind::StringLiteral(_) => Ok(()),
            _ => Err(CompilerError::PatternNotLiteral),
        }
    }
}

/// The blocks check fails with the error of its first failing prefix.
pub proof fn lemma_blocks_decl_error_prefix(v: HirValidator, s: Seq<HirBlockDecl>, k: int)
    requires
        0 <= k <= s.len(),
        v.blocks_decl_error(s.take(k)) is Some,
    ensures
        v.blocks_decl_error(s) == v.blocks_decl_error(s.take(k)),
    decreases s.len(),
{
    if k < s.len() {
        assert(s.drop_last().take(k) =~= s.take(k));
        lemma_blocks_decl_error_prefix(v, s.drop_last(), k);
    } else {
        assert(s.take(k) =~= s);
    }
}

/// The locals check fails with the error of its first failing prefix.
pub proof fn lemma_locals_error_prefix(v: HirValidator, s: Seq<HirLocal>, k: int)
    requires
        0 <= k <= s.len(),
        v.locals_error(s.take(k)) is Some,
    ensures
        v.locals_error(s) == v.locals_error(s.take(k)),
    decreases s.len(),
{
    if k < s.len() {
        assert(s.drop_last().take(k) =~= s.take(k));
        lemma_locals_error_prefix(v, s.drop_last(), k);
    } else {
        assert(s.take(k) =~= s);
    }
}

/// The statements check fails with the error of its first failing prefix.
pub proof fn lemma_statements_error_prefix(v: HirValidator, s: Seq<HirStatement>, k: int)
    requires
        0 <= k <= s.len(),
        v.statements_error(s.take(k)) is Some,
    ensures
        v.statements_error(s) == v.statements_error(s.take(k)),
    decreases s.len(),
{
    if k < s.len() {
        assert(s.drop_last().take(k) =~= s.take(k));
        lemma_statements_error_prefix(v, s.drop_last(), k);
    } else {
        assert(s.take(k) =~= s);
    }
}

/// The jump-arguments check fails with the error of its first failing prefix.
pub proof fn lemma_args_error_prefix(v: HirValidator, s: Seq<LocalId>, k: int)
    requires
        0 <= k <= s.len(),
        v.args_error(s.take(k)) is Some,
    ensures
        v.args_error(s) == v.args_error(s.take(k)),
    decreases s.len(),
{
    if k < s.len() {
        assert(s.drop_last().take(k) =~= s.take(k));
        lemma_args_error_prefix(v, s.drop_last(), k);
    } else {
        assert(s.take(k) =~= s);
    }
}

/// The match-arms check fails with the error of its first failing prefix.
pub proof fn lemma_arms_error_prefix(v: HirValidator, source: BlockId, s: Seq<HirMatchArm>, k: int)
    requires
        0 <= k <= s.len(),
        v.arms_error(source, s.take(k)) is Some,
    ensures
        v.arms_error(source, s) == v.arms_error(source, s.take(k)),
    decreases s.len(),
{
    if k < s.len() {
        assert(s.drop_last().take(k) =~= s.take(k));
        lemma_arms_error_prefix(v, source, s.drop_last(), k);
    } else {
        assert(s.take(k) =~= s);
    }
}

/// A sequence check fails with the error of its first failing prefix.
pub proof fn lemma_all_error_prefix(v: HirValidator, s: Seq<HirExpression>, k: int)
    requires
        0 <= k <= s.len(),
        v.all_error(hir_expressions_model(s.take(k))) is Some,
    ensures
        v.all_error(hir_expressions_model(s)) == v.all_error(hir_expressions_model(s.take(k))),
    decreases s.len(),
{
    if k < s.len() {
        assert(s.drop_last().take(k) =~= s.take(k));
        lemma_all_error_prefix(v, s.drop_last(), k);
        assert(hir_expressions_model(s).drop_last() =~= hir_expressions_model(s.drop_last()));
    } else {
        assert(s.take(k) =~= s);
    }
}

/// A field-values check fails with the error of its first failing prefix.
pub proof fn lemma_field_values_error_prefix(v: HirValidator, s: Seq<(FieldId, HirExpression)>, st: StructId, k: int)
    requires
        0 <= k <= s.len(),
        v.field_values_error(hir_field_values_model(s.take(k)), st) is Some,
    ensures
        v.field_values_error(hir_field_values_model(s), st) == v.field_values_error(hir_field_values_model(s.take(k)), st),
    decreases s.len(),
{
    if k < s.len() {
        assert(s.drop_last().take(k) =~= s.take(k));
        lemma_field_values_error_prefix(v, s.drop_last(), st, k);
        assert(hir_field_values_model(s).drop_last() =~= hir_field_values_model(s.drop_last()));
    } else {
        assert(s.take(k) =~= s);
    }
}

/// A variant-fields check fails with the error of its first failing prefix.
pub proof fn lemma_variant_fields_error_prefix(v: HirValidator, s: Seq<HirVariantField>, k: int)
    requires
        0 <= k <= s.len(),
        v.variant_fields_error(hir_variant_fields_model(s.take(k))) is Some,
    ensures
        v.variant_fields_error(hir_variant_fields_model(s)) == v.variant_fields_error(hir_variant_fields_model(s.take(k))),
    decreases s.len(),
{
    if k < s.len() {
        assert(s.drop_last().take(k) =~= s.take(k));
        lemma_variant_fields_error_prefix(v, s.drop_last(), k);
        assert(hir_variant_fields_model(s).drop_last() =~= hir_variant_fields_model(s.drop_last()));
    } else {
        assert(s.take(k) =~= s);
    }
}

/// An edge from `source` to `target` is sound: the target is a known block, and both
/// blocks belong to the same function's control-flow graph.
pub open spec fn edge_sound(v: HirValidator, source: BlockId, target: BlockId) -> bool {
    &&& v.block_ids@.contains(target.0)
    &&& v.block_owner_by_id@.contains_key(source.0)
    &&& v.block_owner_by_id@.contains_key(target.0)
    &&& v.block_owner_by_id@[source.0] == v.block_owner_by_id@[target.0]
}

/// When the blocks check passes, each block passes its own check.
pub proof fn lemma_blocks_pass_each(v: HirValidator, blocks: Seq<HirBlockDecl>, i: int)
    requires
        v.blocks_decl_error(blocks) is None,
        0 <= i < blocks.len(),
    ensures
        v.block_decl_error(blocks[i]) is None,
    decreases blocks.len(),
{
    if i < blocks.len() - 1 {
        lemma_blocks_pass_each(v, blocks.drop_last(), i);
    }
}

/// When the arms check passes, each arm passes its own check.
pub proof fn lemma_arms_pass_each(v: HirValidator, source: BlockId, arms: Seq<HirMatchArm>, i: int)
    requires
        v.arms_error(source, arms) is None,
        0 <= i < arms.len(),
    ensures
        v.arm_error(source, arms[i]) is None,
    decreases arms.len(),
{
    if i < arms.len() - 1 {
        lemma_arms_pass_each(v, source, arms.drop_last(), i);
    }
}

/// Law: when the blocks check passes, every control-flow edge of every block (a jump,
/// branch, match arm, break or continue target) leads to a known block of the same
/// function.
pub proof fn lemma_checked_edges_sound(v: HirValidator, blocks: Seq<HirBlockDecl>, i: int, k: int)
    requires
        v.blocks_decl_error(blocks) is None,
        0 <= i < blocks.len(),
        0 <= k < terminator_target_seq(blocks[i].terminator).len(),
    ensures
        edge_sound(v, blocks[i].id, terminator_target_seq(blocks[i].terminator)[k]),
{
    lemma_blocks_pass_each(v, blocks, i);
    let b = blocks[i];
    match b.terminator {
        HirTerminator::Match { scrutinee, arms } => {
            lemma_arms_pass_each(v, b.id, arms@, k);
            assert(arm_bodies(arms@)[k] == arms@[k].body);
        },
        _ => {},
    }
}

} // verus!
