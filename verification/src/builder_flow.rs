//! Control-flow steps of the HIR builder: child regions, fresh blocks with the placeholder
//! terminator, terminators and jumps, the loop-target stack with `break` and `continue`,
//! and statements appended to the current block.

use vstd::prelude::*;
use crate::errors::CompilerError;
use crate::expressions::{HirExpression, HirExpressionKind, HirPlace};
use crate::fx_collections::{fx_map_contains_key, fx_map_insert};
use crate::hir_builder::{is_placeholder, HirBuilder, LoopTargets, TypeKindView, type_kind_view};
use crate::hir_datatypes::TypeId;
use crate::hir_nodes::{HirDocFragment, HirDocFragmentKind, HirLocal, HirRegion, HirStatement, HirStatementKind, HirTerminator, ValueKind};
use crate::datatypes::{AstDocFragment, AstDocFragmentKind};
use crate::string_table::StringTable;
use crate::hir_validation::{HirBlockDecl, HirModuleDecls};
use crate::ids::{BlockId, HirNodeId, HirValueId, LocalId, RegionId};
use crate::tokens::SourceLocation;

verus! {

impl HirBuilder {
    /// A new region whose parent is `parent`, appended to the module's region tree.
    pub fn create_child_region(&mut self, parent: RegionId) -> (id: RegionId)
        requires
            old(self).wf(),
            old(self).next_region_id < u32::MAX,
        ensures
            final(self).wf(),
            id.0 == old(self).next_region_id,
            final(self).next_region_id == old(self).next_region_id + 1,
            final(self).module.regions@.len() == old(self).module.regions@.len() + 1,
            final(self).module.regions@.drop_last() == old(self).module.regions@,
            final(self).module.regions@.last().spec_id() == id,
            final(self).module.regions@.last().spec_parent() == Some(parent),
            final(self).region_index_by_id@ == old(self).region_index_by_id@.insert(id.0, old(self).module.regions@.len() as usize),
            *final(self) == (HirBuilder {
                module: HirModuleDecls { regions: final(self).module.regions, ..old(self).module },
                region_index_by_id: final(self).region_index_by_id,
                next_region_id: final(self).next_region_id,
                ..*old(self)
            }),
    {
        let region_id = self.allocate_region_id();
        let region = HirRegion::lexical(region_id, Some(parent));
        self.push_region(region);
        proof {
            assert(self.module.regions@.drop_last() =~= old(self).module.regions@);
        }
        region_id
    }

    /// A new block in `region`: no locals or statements and the placeholder terminator,
    /// appended to the module under the next block id.
    pub fn create_block(&mut self, region: RegionId, source_location: &SourceLocation, label: &str) -> (r: Result<BlockId, CompilerError>)
        requires
            old(self).wf(),
            old(self).next_block_id < u32::MAX,
        ensures
            final(self).wf(),
            r == Ok::<BlockId, CompilerError>(BlockId(old(self).next_block_id)),
            final(self).next_block_id == old(self).next_block_id + 1,
            final(self).module.blocks@.len() == old(self).module.blocks@.len() + 1,
            final(self).module.blocks@.drop_last() == old(self).module.blocks@,
            final(self).module.blocks@.last().id == BlockId(old(self).next_block_id),
            final(self).module.blocks@.last().region == region,
            final(self).module.blocks@.last().locals@ == Seq::<crate::hir_nodes::HirLocal>::empty(),
            final(self).module.blocks@.last().statements@ == Seq::<HirStatement>::empty(),
            is_placeholder(final(self).module.blocks@.last().terminator),
            final(self).block_index_by_id@ == old(self).block_index_by_id@.insert(
                old(self).next_block_id,
                old(self).module.blocks@.len() as usize,
            ),
            *final(self) == (HirBuilder {
                module: HirModuleDecls { blocks: final(self).module.blocks, ..old(self).module },
                block_index_by_id: final(self).block_index_by_id,
                next_block_id: final(self).next_block_id,
                ..*old(self)
            }),
    {
        let id = self.allocate_block_id();
        let block = HirBlockDecl {
            id,
            region,
            locals: Vec::new(),
            statements: Vec::new(),
            terminator: HirTerminator::Panic { message: None },
        };
        self.push_block(block);
        proof {
            assert(self.module.blocks@.drop_last() =~= old(self).module.blocks@);
        }
        Ok(id)
    }

    /// Ends block `block_id` with `terminator` (see `terminator_set`).
    pub fn emit_terminator(&mut self, block_id: BlockId, terminator: HirTerminator, location: &SourceLocation) -> (r: Result<
        (),
        CompilerError,
    >)
        requires
            old(self).wf(),
        ensures
            final(self).wf(),
            Self::terminator_set(*old(self), *final(self), block_id, terminator, r),
    {
        self.set_block_terminator(block_id, terminator, location)
    }

    /// Ends block `from_block` with a jump to `target` passing `args`.
    pub fn emit_jump_with_args(
        &mut self,
        from_block: BlockId,
        target: BlockId,
        args: Vec<LocalId>,
        location: &SourceLocation,
        edge_label: &str,
    ) -> (r: Result<(), CompilerError>)
        requires
            old(self).wf(),
        ensures
            final(self).wf(),
            Self::terminator_set(*old(self), *final(self), from_block, HirTerminator::Jump { target, args }, r),
    {
        self.emit_terminator(from_block, HirTerminator::Jump { target, args }, location)
    }

    /// Ends block `from_block` with a jump to `target` passing nothing.
    pub fn emit_jump_to(&mut self, from_block: BlockId, target: BlockId, location: &SourceLocation, edge_label: &str) -> (r: Result<
        (),
        CompilerError,
    >)
        requires
            old(self).wf(),
        ensures
            final(self).wf(),
            exists|args: Vec<LocalId>| args@ == Seq::<LocalId>::empty() && #[trigger] Self::terminator_set(
                *old(self),
                *final(self),
                from_block,
                HirTerminator::Jump { target, args },
                r,
            ),
    {
        let args: Vec<LocalId> = Vec::new();
        let ghost a = args;
        let r = self.emit_jump_with_args(from_block, target, args, location, edge_label);
        assert(Self::terminator_set(*old(self), *self, from_block, HirTerminator::Jump { target, args: a }, r));
        r
    }

    /// Enters a loop: `break` and `continue` now jump to these targets.
    pub fn push_loop_targets(&mut self, break_target: BlockId, continue_target: BlockId)
        ensures
            final(self).loop_targets@ == old(self).loop_targets@.push(LoopTargets { break_target, continue_target }),
            *final(self) == (HirBuilder { loop_targets: final(self).loop_targets, ..*old(self) }),
    {
        self.loop_targets.push(LoopTargets { break_target, continue_target });
    }

    /// Leaves the innermost loop (nothing happens outside any loop).
    pub fn pop_loop_targets(&mut self)
        ensures
            final(self).loop_targets@ == if old(self).loop_targets@.len() == 0 {
                old(self).loop_targets@
            } else {
                old(self).loop_targets@.drop_last()
            },
            *final(self) == (HirBuilder { loop_targets: final(self).loop_targets, ..*old(self) }),
    {
        let _ = self.loop_targets.pop();
    }

    /// The targets of the innermost loop.
    pub fn current_loop_targets_or_error(&self, keyword: &str, location: &SourceLocation) -> (r: Result<LoopTargets, CompilerError>)
        ensures
            r == if self.loop_targets@.len() == 0 {
                Err::<LoopTargets, CompilerError>(CompilerError::NoActiveLoop)
            } else {
                Ok(self.loop_targets@.last())
            },
    {
        let n = self.loop_targets.len();
        if n == 0 {
            return Err(CompilerError::NoActiveLoop);
        }
        Ok(self.loop_targets[n - 1])
    }

    /// Lowers `break`: the current block jumps to the innermost loop's break target.
    pub fn lower_break_statement(&mut self, location: &SourceLocation) -> (r: Result<(), CompilerError>)
        requires
            old(self).wf(),
        ensures
            final(self).wf(),
            match old(self).current_block {
                None => r == Err::<(), CompilerError>(CompilerError::NoCurrentBlock) && *final(self) == *old(self),
                Some(b) => if old(self).loop_targets@.len() == 0 {
                    r == Err::<(), CompilerError>(CompilerError::NoActiveLoop) && *final(self) == *old(self)
                } else {
                    Self::terminator_set(
                        *old(self),
                        *final(self),
                        b,
                        HirTerminator::Break { target: old(self).loop_targets@.last().break_target },
                        r,
                    )
                },
            },
    {
        let current_block = match self.current_block_id_or_error(location) {
            Ok(b) => b,
            Err(e) => return Err(e),
        };
        let targets = match self.current_loop_targets_or_error("break", location) {
            Ok(t) => t,
            Err(e) => return Err(e),
        };
        self.emit_terminator(current_block, HirTerminator::Break { target: targets.break_target }, location)
    }

    /// Lowers `continue`: the current block jumps to the innermost loop's continue target.
    pub fn lower_continue_statement(&mut self, location: &SourceLocation) -> (r: Result<(), CompilerError>)
        requires
            old(self).wf(),
        ensures
            final(self).wf(),
            match old(self).current_block {
                None => r == Err::<(), CompilerError>(CompilerError::NoCurrentBlock) && *final(self) == *old(self),
                Some(b) => if old(self).loop_targets@.len() == 0 {
                    r == Err::<(), CompilerError>(CompilerError::NoActiveLoop) && *final(self) == *old(self)
                } else {
                    Self::terminator_set(
                        *old(self),
                        *final(self),
                        b,
                        HirTerminator::Continue { target: old(self).loop_targets@.last().continue_target },
                        r,
                    )
                },
            },
    {
        let current_block = match self.current_block_id_or_error(location) {
            Ok(b) => b,
            Err(e) => return Err(e),
        };
        let targets = match self.current_loop_targets_or_error("continue", location) {
            Ok(t) => t,
            Err(e) => return Err(e),
        };
        self.emit_terminator(current_block, HirTerminator::Continue { target: targets.continue_target }, location)
    }

    /// Appending `statement` to the current block from `before` gave `after` and `r`: no
    /// current block, or an unregistered one, is refused with nothing changed; otherwise
    /// only that block's statements grow by the statement.
    pub open spec fn statement_emitted(before: HirBuilder, after: HirBuilder, statement: HirStatement, r: Result<(), CompilerError>) -> bool {
        match before.current_block {
            None => r == Err::<(), CompilerError>(CompilerError::NoCurrentBlock) && after == before,
            Some(b) => match before.block_index_result(b) {
                Err(e) => r == Err::<(), CompilerError>(e) && after == before,
                Ok(i) => {
                    let old_block = before.module.blocks@[i as int];
                    let new_block = after.module.blocks@[i as int];
                    &&& r is Ok
                    &&& after.module.blocks@.len() == before.module.blocks@.len()
                    &&& forall|j: int| 0 <= j < before.module.blocks@.len() && j != i ==>
                        #[trigger] after.module.blocks@[j] == before.module.blocks@[j]
                    &&& new_block.id == old_block.id
                    &&& new_block.region == old_block.region
                    &&& new_block.locals == old_block.locals
                    &&& new_block.terminator == old_block.terminator
                    &&& new_block.statements@ == old_block.statements@.push(statement)
                    &&& after == (HirBuilder {
                        module: HirModuleDecls { blocks: after.module.blocks, ..before.module },
                        ..before
                    })
                },
            },
        }
    }

    /// Appends `statement` to the statements of the current block.
    pub fn emit_statement_to_current_block(&mut self, statement: HirStatement, source_location: &SourceLocation) -> (r: Result<
        (),
        CompilerError,
    >)
        requires
            old(self).wf(),
        ensures
            final(self).wf(),
            Self::statement_emitted(*old(self), *final(self), statement, r),
    {
        let block_id = match self.current_block_id_or_error(source_location) {
            Ok(b) => b,
            Err(e) => return Err(e),
        };
        let block_index = match self.block_index_or_error(block_id, source_location) {
            Ok(i) => i,
            Err(e) => return Err(e),
        };
        let ghost old_blocks = self.module.blocks@;
        let mut block = self.module.blocks.remove(block_index);
        block.statements.push(statement);
        self.module.blocks.insert(block_index, block);
        proof {
            let blocks = self.module.blocks@;
            assert forall|j: int| 0 <= j < old_blocks.len() && j != block_index implies #[trigger] blocks[j] == old_blocks[j] by {
                if j < block_index {
                } else {
                }
            }
            assert forall|id: u32| #[trigger] self.block_index_by_id@.contains_key(id) implies {
                &&& (self.block_index_by_id@[id] as int) < blocks.len()
                &&& blocks[self.block_index_by_id@[id] as int].id.0 == id
            } by {
                let k = self.block_index_by_id@[id] as int;
                if k != block_index {
                    assert(blocks[k] == old_blocks[k]);
                }
            }
            assert forall|id: u32| #[trigger] self.local_index_by_id@.contains_key(id) implies {
                let (b, l) = self.local_index_by_id@[id];
                &&& (b as int) < blocks.len()
                &&& (l as int) < blocks[b as int].locals@.len()
                &&& blocks[b as int].locals@[l as int].id.0 == id
            } by {
                let (b, l) = self.local_index_by_id@[id];
                if b as int != block_index {
                    assert(blocks[b as int] == old_blocks[b as int]);
                }
            }
        }
        Ok(())
    }

    /// Appends a statement of the given kind, under the next node id, to the current block.
    pub fn emit_statement_kind(&mut self, kind: HirStatementKind, location: &SourceLocation) -> (r: Result<(), CompilerError>)
        requires
            old(self).wf(),
            old(self).next_node_id < u32::MAX,
        ensures
            final(self).wf(),
            final(self).next_node_id == old(self).next_node_id + 1,
            Self::statement_emitted(
                HirBuilder { next_node_id: final(self).next_node_id, ..*old(self) },
                *final(self),
                HirStatement { id: HirNodeId(old(self).next_node_id), kind, location: *location },
                r,
            ),
    {
        let id = self.allocate_node_id();
        let statement = HirStatement { id, kind, location: *location };
        self.emit_statement_to_current_block(statement, location)
    }

    /// Appends `local = value` to the current block.
    pub fn emit_assign_local_statement(&mut self, local: LocalId, value: HirExpression, location: &SourceLocation) -> (r: Result<
        (),
        CompilerError,
    >)
        requires
            old(self).wf(),
            old(self).next_node_id < u32::MAX,
        ensures
            final(self).wf(),
            final(self).next_node_id == old(self).next_node_id + 1,
            Self::statement_emitted(
                HirBuilder { next_node_id: final(self).next_node_id, ..*old(self) },
                *final(self),
                HirStatement {
                    id: HirNodeId(old(self).next_node_id),
                    kind: HirStatementKind::Assign { target: HirPlace::Local(local), value },
                    location: *location,
                },
                r,
            ),
    {
        self.emit_statement_kind(HirStatementKind::Assign { target: HirPlace::Local(local), value }, location)
    }

    /// Whether type `ty` is the unit type.
    pub fn is_unit_type(&self, ty: TypeId) -> (b: bool)
        requires
            (ty.0 as int) < self.type_context@.len(),
        ensures
            b == (type_kind_view(self.type_context@[ty.0 as int].kind) == TypeKindView::Unit),
    {
        match self.type_context.get(ty).kind {
            crate::hir_datatypes::HirTypeKind::Unit => true,
            _ => false,
        }
    }

    /// The merge block of a match, created in `region` the first time it is needed and
    /// reused afterwards.
    pub fn ensure_match_merge_block(
        &mut self,
        region: RegionId,
        location: &SourceLocation,
        merge_block: &mut Option<BlockId>,
    ) -> (r: Result<BlockId, CompilerError>)
        requires
            old(self).wf(),
            old(self).next_block_id < u32::MAX,
        ensures
            final(self).wf(),
            match *old(merge_block) {
                Some(existing) => r == Ok::<BlockId, CompilerError>(existing) && *final(self) == *old(self)
                    && *final(merge_block) == *old(merge_block),
                None => {
                    &&& r == Ok::<BlockId, CompilerError>(BlockId(old(self).next_block_id))
                    &&& *final(merge_block) == Some(BlockId(old(self).next_block_id))
                    &&& final(self).next_block_id == old(self).next_block_id + 1
                    &&& final(self).module.blocks@.drop_last() == old(self).module.blocks@
                    &&& final(self).module.blocks@.last().id == BlockId(old(self).next_block_id)
                    &&& final(self).module.blocks@.last().region == region
                    &&& is_placeholder(final(self).module.blocks@.last().terminator)
                },
            },
    {
        if let Some(existing) = *merge_block {
            return Ok(existing);
        }
        let created = match self.create_block(region, location, "match-merge") {
            Ok(b) => b,
            Err(e) => return Err(e),
        };
        *merge_block = Some(created);
        Ok(created)
    }
}

impl HirBuilder {
    /// Declares a local named by the path handle `name` in the current block and region,
    /// under the next local id, and records the name. A name already declared in the
    /// function, or no current region or block, is refused with nothing changed.
    pub fn allocate_named_local(&mut self, name: u32, ty: TypeId, mutable: bool, source_info: Option<SourceLocation>) -> (r: Result<
        LocalId,
        CompilerError,
    >)
        requires
            old(self).wf(),
            old(self).next_local_id < u32::MAX,
        ensures
            final(self).wf(),
            if old(self).locals_by_name@.contains_key(name) {
                r == Err::<LocalId, CompilerError>(CompilerError::LocalAlreadyDeclared(name)) && *final(self) == *old(self)
            } else {
                match (old(self).current_region, old(self).current_block) {
                    (None, _) => r == Err::<LocalId, CompilerError>(CompilerError::NoCurrentRegion) && *final(self) == *old(self),
                    (Some(_), None) => r == Err::<LocalId, CompilerError>(CompilerError::NoCurrentBlock) && *final(self) == *old(self),
                    (Some(region), Some(block)) => {
                        let id = LocalId(old(self).next_local_id);
                        let counted = HirBuilder { next_local_id: (old(self).next_local_id + 1) as u32, ..*old(self) };
                        let local = HirLocal { id, ty, mutable, region, source_info };
                        exists|mid: HirBuilder, rr: Result<(), CompilerError>| {
                            &&& #[trigger] Self::local_registered(counted, mid, block, local, rr)
                            &&& match rr {
                                Err(e) => r == Err::<LocalId, CompilerError>(e) && *final(self) == mid,
                                Ok(_) => r == Ok::<LocalId, CompilerError>(id)
                                    && final(self).locals_by_name@ == mid.locals_by_name@.insert(name, id)
                                    && *final(self) == (HirBuilder { locals_by_name: final(self).locals_by_name, ..mid }),
                            }
                        }
                    },
                }
            },
    {
        if fx_map_contains_key(&self.locals_by_name, name) {
            return Err(CompilerError::LocalAlreadyDeclared(name));
        }
        let location = SourceLocation {
            scope: 0,
            start_pos: crate::tokens::CharPosition { line_number: 0, char_column: 0 },
            end_pos: crate::tokens::CharPosition { line_number: 0, char_column: 0 },
        };
        let local_location = match source_info {
            Some(l) => l,
            None => location,
        };
        let region = match self.current_region_or_error(&local_location) {
            Ok(g) => g,
            Err(e) => return Err(e),
        };
        let block_id = match self.current_block_id_or_error(&local_location) {
            Ok(b) => b,
            Err(e) => return Err(e),
        };
        let local_id = self.allocate_local_id();
        let local = HirLocal { id: local_id, ty, mutable, region, source_info };
        let ghost counted = *self;
        let registered = self.register_local_in_block(block_id, local, &local_location);
        let ghost mid = *self;
        match registered {
            Ok(()) => {},
            Err(e) => return Err(e),
        }
        fx_map_insert(&mut self.locals_by_name, name, local_id);
        proof {
            assert(Self::local_registered(counted, mid, block_id, local, registered));
        }
        Ok(local_id)
    }

    /// An expression under the next value id.
    pub fn make_expression(
        &mut self,
        location: &SourceLocation,
        kind: HirExpressionKind,
        ty: TypeId,
        value_kind: ValueKind,
        region: RegionId,
    ) -> (e: HirExpression)
        requires
            old(self).next_value_id < u32::MAX,
        ensures
            e == (HirExpression { id: HirValueId(old(self).next_value_id), kind, ty, value_kind, region }),
            *final(self) == (HirBuilder { next_value_id: (old(self).next_value_id + 1) as u32, ..*old(self) }),
    {
        let id = self.allocate_value_id();
        HirExpression { id, kind, ty, value_kind, region }
    }

    /// A load of `local` as a value, under the next value id.
    pub fn make_local_load_expression(&mut self, local: LocalId, ty: TypeId, location: &SourceLocation, region: RegionId) -> (e:
        HirExpression)
        requires
            old(self).next_value_id < u32::MAX,
        ensures
            e == (HirExpression {
                id: HirValueId(old(self).next_value_id),
                kind: HirExpressionKind::Load(HirPlace::Local(local)),
                ty,
                value_kind: ValueKind::RValue,
                region,
            }),
            *final(self) == (HirBuilder { next_value_id: (old(self).next_value_id + 1) as u32, ..*old(self) }),
    {
        self.make_expression(location, HirExpressionKind::Load(HirPlace::Local(local)), ty, ValueKind::RValue, region)
    }
}

/// The module's documentation fragments rendered from the source's: same kind and
/// location, with the text the string table holds for the fragment's value.
pub open spec fn fragments_rendered(out: Seq<HirDocFragment>, fragments: Seq<AstDocFragment>, table: Seq<Seq<char>>) -> bool {
    &&& out.len() == fragments.len()
    &&& forall|i: int| 0 <= i < out.len() ==> {
        &&& (#[trigger] out[i]).kind == HirDocFragmentKind::Doc
        &&& out[i].rendered_text@ == table[fragments[i].value as int]
        &&& out[i].location == fragments[i].location
    }
}

impl HirBuilder {
    /// Replaces the module's documentation fragments by the source's, rendered through
    /// the string table.
    pub fn resolve_doc_fragments(&mut self, fragments: &Vec<AstDocFragment>, string_table: &StringTable) -> (r: Result<(), CompilerError>)
        requires
            forall|i: int| 0 <= i < fragments@.len() ==> ((#[trigger] fragments@[i]).value as int) < string_table@.len(),
        ensures
            r is Ok,
            fragments_rendered(final(self).module.doc_fragments@, fragments@, string_table@),
            *final(self) == (HirBuilder {
                module: HirModuleDecls { doc_fragments: final(self).module.doc_fragments, ..old(self).module },
                ..*old(self)
            }),
    {
        self.module.doc_fragments.clear();
        let mut i: usize = 0;
        while i < fragments.len()
            invariant
                0 <= i <= fragments@.len(),
                forall|j: int| 0 <= j < fragments@.len() ==> ((#[trigger] fragments@[j]).value as int) < string_table@.len(),
                fragments_rendered(self.module.doc_fragments@, fragments@.take(i as int), string_table@),
                *self == (HirBuilder {
                    module: HirModuleDecls { doc_fragments: self.module.doc_fragments, ..old(self).module },
                    ..*old(self)
                }),
            decreases fragments@.len() - i,
        {
            let fragment = fragments[i];
            let kind = match fragment.kind {
                AstDocFragmentKind::Doc => HirDocFragmentKind::Doc,
            };
            let text = string_table.resolve(fragment.value);
            let rendered_text = String::from_str(text);
            self.module.doc_fragments.push(HirDocFragment { kind, rendered_text, location: fragment.location });
            proof {
                assert forall|j: int| 0 <= j < self.module.doc_fragments@.len() implies {
                    &&& (#[trigger] self.module.doc_fragments@[j]).kind == HirDocFragmentKind::Doc
                    &&& self.module.doc_fragments@[j].rendered_text@ == string_table@[fragments@.take(i + 1)[j].value as int]
                    &&& self.module.doc_fragments@[j].location == fragments@.take(i + 1)[j].location
                } by {
                    if j < i as int {
                        assert(fragments@.take(i + 1)[j] == fragments@.take(i as int)[j]);
                    }
                }
            }
            i = i + 1;
        }
        proof {
            assert(fragments@.take(fragments@.len() as int) =~= fragments@);
        }
        Ok(())
    }
}

/// Every region of the module is a root or has a registered parent region.
pub open spec fn parents_registered(b: HirBuilder) -> bool {
    forall|i: int| 0 <= i < b.module.regions@.len() ==>
        ((#[trigger] b.module.regions@[i]).spec_parent() matches Some(p) ==> b.region_index_by_id@.contains_key(p.0))
}

/// Law: the region tree stays closed: creating a child region under a registered parent
/// (`before` and `after` related as `create_child_region` states) keeps every region's
/// parent registered, and the new region is registered itself.
pub proof fn lemma_child_region_keeps_tree(before: HirBuilder, after: HirBuilder, parent: RegionId, id: RegionId)
    requires
        parents_registered(before),
        before.region_index_by_id@.contains_key(parent.0),
        after.module.regions@.len() == before.module.regions@.len() + 1,
        after.module.regions@.drop_last() == before.module.regions@,
        after.module.regions@.last().spec_id() == id,
        after.module.regions@.last().spec_parent() == Some(parent),
        after.region_index_by_id@ == before.region_index_by_id@.insert(id.0, before.module.regions@.len() as usize),
    ensures
        parents_registered(after),
        after.region_index_by_id@.contains_key(id.0),
{
    assert forall|i: int| 0 <= i < after.module.regions@.len() implies
        ((#[trigger] after.module.regions@[i]).spec_parent() matches Some(p) ==> after.region_index_by_id@.contains_key(p.0)) by {
        if i < before.module.regions@.len() {
            assert(after.module.regions@[i] == before.module.regions@[i]);
        }
    }
}

} // verus!
