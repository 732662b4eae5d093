use beanstalk_hir::build_hir::{
    AstHirMapping, DropInsertionPoint, DropInsertionType, HirBuildContext, HirBuilderContext, HirGenerationMetadata,
    OwnershipHints, ScopeInfo, ScopeType,
};
use beanstalk_hir::hir_datatypes::{classify_hir_type, HirType, HirTypeClass, HirTypeKind, TypeContext, TypeId};
use beanstalk_hir::hir_nodes::HirRegion;
use beanstalk_hir::ids::{ChoiceId, ExternalTypeId, RegionId, StructId};
use beanstalk_hir::nodes::{HirExpr, HirExprKind, HirPlace};
use beanstalk_hir::string_table::StringTable;
use beanstalk_hir::text::{number_label, push_decimal};
use beanstalk_hir::tokens::{CharPosition, TextLocation};

fn loc(line: i32) -> TextLocation {
    TextLocation {
        scope: 1,
        start_pos: CharPosition { line_number: line, char_column: 0 },
        end_pos: CharPosition { line_number: line, char_column: 3 },
    }
}

#[test]
fn decimal_rendering() {
    let mut s = String::from("x=");
    push_decimal(&mut s, 0);
    assert_eq!(s, "x=0");
    let mut s = String::new();
    push_decimal(&mut s, 1234567890);
    assert_eq!(s, "1234567890");
    assert_eq!(number_label("bb", 42), "bb42");
    assert_eq!(number_label("t", u32::MAX), "t4294967295");
}

#[test]
fn type_context_insert_and_get() {
    let mut types = TypeContext::default();
    assert_eq!(types.len(), 0);
    let a = types.insert(HirType { kind: HirTypeKind::Int });
    let b = types.insert(HirType { kind: HirTypeKind::String });
    assert_eq!(a, TypeId(0));
    assert_eq!(b, TypeId(1));
    assert_eq!(types.len(), 2);
    assert!(types.contains(a));
    assert!(!types.contains(TypeId(2)));
    assert_eq!(types.get(b).kind, HirTypeKind::String);
    assert_eq!(types.get(a).kind, HirTypeKind::Int);
}

#[test]
fn type_classification() {
    assert_eq!(classify_hir_type(&HirTypeKind::Unit), HirTypeClass::Unit);
    assert_eq!(classify_hir_type(&HirTypeKind::Bool), HirTypeClass::Bool);
    assert_eq!(classify_hir_type(&HirTypeKind::Char), HirTypeClass::Char);
    assert_eq!(classify_hir_type(&HirTypeKind::Int), HirTypeClass::Int);
    assert_eq!(classify_hir_type(&HirTypeKind::Float), HirTypeClass::Float);
    assert_eq!(classify_hir_type(&HirTypeKind::Decimal), HirTypeClass::Decimal);
    assert_eq!(
        classify_hir_type(&HirTypeKind::Function { receiver: None, params: Vec::new(), returns: Vec::new() }),
        HirTypeClass::Function
    );
    assert_eq!(classify_hir_type(&HirTypeKind::String), HirTypeClass::HeapAllocated);
    assert_eq!(classify_hir_type(&HirTypeKind::Struct { struct_id: StructId(0) }), HirTypeClass::HeapAllocated);
    assert_eq!(classify_hir_type(&HirTypeKind::Choice { choice_id: ChoiceId(0) }), HirTypeClass::HeapAllocated);
    assert_eq!(
        classify_hir_type(&HirTypeKind::External { type_id: ExternalTypeId(0) }),
        HirTypeClass::HeapAllocated
    );
}

#[test]
fn regions_keep_id_and_parent() {
    let r = HirRegion::lexical(RegionId(3), Some(RegionId(1)));
    assert_eq!(r.id(), RegionId(3));
    assert_eq!(r.parent(), Some(RegionId(1)));
    assert_eq!(HirRegion::lexical(RegionId(0), None).parent(), None);
}

#[test]
fn interning_is_idempotent() {
    let mut t = StringTable::new();
    let a = t.intern("alpha");
    let b = t.intern("beta");
    let a2 = t.intern("alpha");
    assert_eq!(a, a2);
    assert_ne!(a, b);
    assert_eq!(t.resolve(b), "beta");
    assert_eq!(t.len(), 2);
}

#[test]
fn temp_names_count_up() {
    let mut m = HirGenerationMetadata::new();
    assert_eq!(m.generate_temp_name(), "__tmp_0");
    assert_eq!(m.generate_temp_name(), "__tmp_1");
    assert_eq!(m.generate_temp_name(), "__tmp_2");
}

#[test]
fn temporaries_and_block_stack() {
    let mut m = HirGenerationMetadata::new();
    assert!(!m.is_temporary(&4));
    m.register_temporary(4, HirExprKind::Int(1));
    assert!(m.is_temporary(&4));
    assert_eq!(m.current_block(), None);
    m.push_block(3);
    m.push_block(5);
    assert_eq!(m.current_block(), Some(5));
    assert_eq!(m.pop_block(), Some(5));
    assert_eq!(m.current_block(), Some(3));
    assert_eq!(m.pop_block(), Some(3));
    assert_eq!(m.pop_block(), None);
    m.record_drop_point(DropInsertionPoint {
        location: loc(1),
        variables: vec![1, 2],
        insertion_type: DropInsertionType::Return,
    });
    assert_eq!(m.drop_insertion_points.len(), 1);
}

#[test]
fn ownership_hints() {
    let mut h = OwnershipHints::new();
    h.mark_definitely_borrowed(1);
    assert!(h.is_definitely_borrowed(&1));
    h.mark_potentially_owned(1);
    assert!(h.is_potentially_owned(&1));
    assert!(!h.is_definitely_borrowed(&1));
    h.mark_potentially_owned(2);
    h.mark_potentially_consumed(2);
    assert!(h.is_potentially_consumed(&2));
    h.record_potential_last_use(1, loc(7));
    assert_eq!(h.get_last_use(&1), Some(&loc(7)));
    let mut candidates = h.get_drop_candidates();
    candidates.sort();
    assert_eq!(candidates, vec![1]);
    h.clear_variable(&1);
    assert!(!h.is_potentially_owned(&1));
    assert_eq!(h.get_last_use(&1), None);
}

#[test]
fn ast_hir_mapping_round_trip() {
    let mut m = AstHirMapping::new();
    m.add_mapping(7, vec![1, 2]);
    assert_eq!(m.get_hir_nodes(7), Some(&vec![1, 2]));
    assert_eq!(m.get_original_ast(2), Some(7));
    m.add_single_mapping(7, 3);
    assert_eq!(m.get_hir_nodes(7), Some(&vec![1, 2, 3]));
    m.add_single_mapping(8, 4);
    assert_eq!(m.get_hir_nodes(8), Some(&vec![4]));
    assert_eq!(m.get_original_ast(9), None);
    m.record_build_context(3, HirBuildContext::with_details(loc(2), Some(7), 2, true));
    assert_eq!(m.get_source_location(3), Some(&loc(2)));
    assert!(m.has_ownership_potential(3));
    assert_eq!(m.get_scope_depth(3), Some(2));
    assert_eq!(m.get_scope_depth(4), None);
    m.record_location(5, loc(4));
    assert_eq!(m.get_source_location(5), Some(&loc(4)));
    assert!(m.get_build_context(5).is_none());
}

#[test]
fn build_contexts() {
    let c = HirBuildContext::new(loc(1));
    assert_eq!(c.original_ast_node, None);
    assert_eq!(c.scope_depth, 0);
    let c = HirBuildContext::from_ast_node(loc(1), 5, 3).with_ownership_potential();
    assert_eq!(c.original_ast_node, Some(5));
    assert_eq!(c.scope_depth, 3);
    assert!(c.ownership_potential);
    let s = ScopeInfo::with_block(ScopeType::If, 4, 1);
    assert_eq!(s.block_id, Some(4));
    assert!(s.owned_variables.is_empty());
    assert_eq!(ScopeInfo::new(ScopeType::Block, 2).block_id, None);
}

#[test]
fn builder_scopes_and_blocks() {
    let mut ctx = HirBuilderContext::new(StringTable::new());
    assert_eq!(ctx.current_scope_depth(), 0);
    assert!(ctx.current_scope().is_none());
    let b0 = ctx.create_block();
    let b1 = ctx.create_block();
    assert_eq!((b0, b1), (0, 1));
    assert_eq!(ctx.allocate_node_id(), 0);
    assert_eq!(ctx.allocate_node_id(), 1);
    ctx.enter_scope(ScopeType::Function);
    ctx.enter_scope_with_block(ScopeType::Loop { break_target: 1, continue_target: 0 }, 0);
    ctx.enter_scope(ScopeType::If);
    assert_eq!(ctx.current_scope_depth(), 3);
    assert_eq!(ctx.find_enclosing_loop().unwrap().block_id, Some(0));
    ctx.add_drop_candidate(5, loc(1));
    assert_eq!(ctx.get_drop_candidates_for_scope(2).len(), 1);
    assert_eq!(ctx.get_drop_candidates_for_scope(3).len(), 1);
    assert_eq!(ctx.get_drop_candidates_for_scope(4).len(), 0);
    let owned = ctx.exit_scope();
    assert_eq!(owned, vec![5]);
    ctx.exit_scope();
    assert!(ctx.find_enclosing_loop().is_none());
    ctx.exit_scope();
    assert!(ctx.exit_scope().is_empty());
    assert!(ctx.get_block(1).is_some());
    assert!(ctx.get_block(2).is_none());
    let name = ctx.intern("value");
    assert_eq!(ctx.intern("value"), name);
    assert_eq!(ctx.string_table().resolve(name), "value");
    ctx.mark_potentially_owned(name);
    assert!(ctx.is_potentially_owned(&name));
    ctx.record_ast_to_hir(3, 9, loc(5));
    assert_eq!(ctx.ast_hir_mapping().get_original_ast(9), Some(3));
    assert_eq!(ctx.ast_hir_mapping().get_source_location(9), Some(&loc(5)));
}

#[test]
fn base_variables_of_places_and_expressions() {
    let c = HirBuilderContext::new(StringTable::new());
    let place = HirPlace::Index {
        base: Box::new(HirPlace::Field { base: Box::new(HirPlace::Var(4)), field: 5 }),
        index: Box::new(HirExpr { kind: HirExprKind::Int(0), location: loc(1) }),
    };
    assert_eq!(c.extract_var_from_place(&place), Ok(4));
    let load = HirExpr { kind: HirExprKind::Load(place), location: loc(1) };
    assert_eq!(c.extract_base_var_from_expr(&load), Ok(4));
    let field = HirExpr { kind: HirExprKind::Field { base: 7, field: 8 }, location: loc(2) };
    assert_eq!(c.extract_base_var_from_expr(&field), Ok(7));
    let int = HirExpr { kind: HirExprKind::Int(3), location: loc(3) };
    assert_eq!(c.extract_base_var_from_expr(&int), Err(beanstalk_hir::errors::CompilerError::NoBaseVariable));
}

#[test]
fn mutable_accessors_reach_the_right_parts() {
    let mut c = HirBuilderContext::new(StringTable::new());
    assert!(c.current_scope_mut().is_none());
    let b = c.create_block();
    c.enter_scope_with_block(ScopeType::Function, b);
    c.current_scope_mut().unwrap().depth = 9;
    assert_eq!(c.current_scope().map(|s| s.depth), Some(9));
    assert!(c.get_block_mut(77).is_none());
    c.get_block_mut(b).unwrap().params.push(3);
    assert_eq!(c.get_block(b).map(|x| x.params.len()), Some(1));
    c.ast_hir_mapping_mut().add_single_mapping(1, 2);
    assert_eq!(c.ast_hir_mapping().get_hir_nodes(1).map(|v| v.len()), Some(1));
}

#[test]
fn scope_round_trip_returns_candidates_in_order() {
    let mut ctx = HirBuilderContext::new(StringTable::new());
    ctx.enter_scope(ScopeType::Function);
    let depth = ctx.current_scope_depth();
    ctx.enter_scope(ScopeType::Block);
    ctx.add_drop_candidate(9, loc(1));
    ctx.add_drop_candidate(3, loc(2));
    ctx.add_drop_candidate(7, loc(3));
    assert_eq!(ctx.exit_scope(), vec![9, 3, 7]);
    assert_eq!(ctx.current_scope_depth(), depth);
}

#[test]
fn temporary_keeps_its_last_registered_kind() {
    let mut m = HirGenerationMetadata::new();
    m.register_temporary(4, HirExprKind::Int(1));
    m.register_temporary(6, HirExprKind::Int(2));
    m.push_block(1);
    m.register_temporary(4, HirExprKind::Bool(true));
    m.pop_block();
    assert!(m.is_temporary(&4));
    assert!(m.is_temporary(&6));
    assert!(!m.is_temporary(&5));
    assert!(matches!(m.temporary_variables.get(&4), Some(HirExprKind::Bool(true))));
    assert!(matches!(m.temporary_variables.get(&6), Some(HirExprKind::Int(2))));
}
