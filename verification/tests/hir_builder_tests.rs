use beanstalk_hir::string_table::StringTable;
use beanstalk_hir::datatypes::{
    AstDocFragment, AstDocFragmentKind, BuiltinGenericType, BuiltinScalarReceiver, DataType, FunctionSignature, GenericBaseType, ReceiverKey,
};
use beanstalk_hir::errors::CompilerError;
use beanstalk_hir::hir_builder::HirBuilder;
use beanstalk_hir::hir_datatypes::{HirTypeKind, TypeId};
use beanstalk_hir::hir_nodes::{HirField, HirFunction, HirFunctionOrigin, HirLocal, HirRegion, HirStruct, HirTerminator};
use beanstalk_hir::hir_validation::HirBlockDecl;
use beanstalk_hir::ids::{BlockId, ChoiceId, ExternalTypeId, FieldId, FunctionId, LocalId, RegionId, StringId, StructId};
use beanstalk_hir::tokens::{CharPosition, TextLocation};

fn loc() -> TextLocation {
    TextLocation {
        scope: 0,
        start_pos: CharPosition { line_number: 1, char_column: 0 },
        end_pos: CharPosition { line_number: 1, char_column: 4 },
    }
}

fn placeholder_block(id: u32, region: u32) -> HirBlockDecl {
    HirBlockDecl {
        id: BlockId(id),
        region: RegionId(region),
        locals: Vec::new(),
        statements: Vec::new(),
        terminator: HirTerminator::Panic { message: None },
    }
}

fn local(id: u32, ty: u32) -> HirLocal {
    HirLocal { id: LocalId(id), ty: TypeId(ty), mutable: true, region: RegionId(0), source_info: None }
}

fn kind_of(b: &HirBuilder, id: TypeId) -> &HirTypeKind {
    &b.type_context.get(id).kind
}

#[test]
fn ids_count_up_per_kind() {
    let mut b = HirBuilder::new();
    assert_eq!(b.allocate_block_id(), BlockId(0));
    assert_eq!(b.allocate_block_id(), BlockId(1));
    assert_eq!(b.allocate_local_id(), LocalId(0));
    assert_eq!(b.allocate_function_id(), FunctionId(0));
    assert_eq!(b.allocate_struct_id(), StructId(0));
    assert_eq!(b.allocate_field_id(), FieldId(0));
    assert_eq!(b.allocate_field_id(), FieldId(1));
    assert_eq!(b.allocate_region_id(), RegionId(0));
    assert_eq!(b.next_block_id, 2);
}

#[test]
fn interning_a_kind_twice_gives_one_type() {
    let mut b = HirBuilder::new();
    let int = b.intern_type_kind(HirTypeKind::Int);
    let pair = b.intern_type_kind(HirTypeKind::Tuple { fields: vec![int, int] });
    assert_eq!(b.intern_type_kind(HirTypeKind::Int), int);
    assert_eq!(b.intern_type_kind(HirTypeKind::Tuple { fields: vec![int, int] }), pair);
    assert_eq!((int, pair), (TypeId(0), TypeId(1)));
    assert_eq!(b.type_context.len(), 2);
    let other = b.intern_type_kind(HirTypeKind::Tuple { fields: vec![int] });
    assert_eq!(other, TypeId(2));
}

#[test]
fn blocks_locals_and_terminators() {
    let mut b = HirBuilder::new();
    b.push_region(HirRegion::lexical(RegionId(4), None));
    b.push_block(placeholder_block(7, 4));
    assert_eq!(b.block_index_or_error(BlockId(7), &loc()), Ok(0));
    assert_eq!(b.block_index_or_error(BlockId(8), &loc()), Err(CompilerError::UnregisteredBlock(BlockId(8))));
    assert_eq!(b.register_local_in_block(BlockId(7), local(3, 0), &loc()), Ok(()));
    assert_eq!(b.register_local_in_block(BlockId(9), local(4, 0), &loc()), Err(CompilerError::UnregisteredBlock(BlockId(9))));
    assert_eq!(b.local_type_id_or_error(LocalId(3), &loc()), Ok(TypeId(0)));
    assert_eq!(b.local_type_id_or_error(LocalId(4), &loc()), Err(CompilerError::UnregisteredLocal(LocalId(4))));
    assert_eq!(b.block_has_explicit_terminator(BlockId(7), &loc()), Ok(false));
    assert_eq!(b.set_block_terminator(BlockId(7), HirTerminator::Break { target: BlockId(7) }, &loc()), Ok(()));
    assert_eq!(b.block_has_explicit_terminator(BlockId(7), &loc()), Ok(true));
    assert_eq!(
        b.set_block_terminator(BlockId(7), HirTerminator::Continue { target: BlockId(7) }, &loc()),
        Err(CompilerError::TerminatorAlreadySet(BlockId(7)))
    );
    assert!(matches!(b.module.blocks[0].terminator, HirTerminator::Break { .. }));
    assert_eq!(b.module.blocks[0].locals.len(), 1);
}

#[test]
fn struct_fields_are_indexed() {
    let mut b = HirBuilder::new();
    b.push_struct(HirStruct { id: StructId(2), fields: vec![HirField { id: FieldId(5), ty: TypeId(1) }, HirField { id: FieldId(6), ty: TypeId(3) }] });
    assert_eq!(b.field_type_id_or_error(FieldId(6), &loc()), Ok(TypeId(3)));
    assert_eq!(b.field_type_id_or_error(FieldId(5), &loc()), Ok(TypeId(1)));
    assert_eq!(b.field_type_id_or_error(FieldId(7), &loc()), Err(CompilerError::UnregisteredField(FieldId(7))));
}

#[test]
fn entering_and_leaving_functions() {
    let mut b = HirBuilder::new();
    assert_eq!(b.current_block_id_or_error(&loc()), Err(CompilerError::NoCurrentBlock));
    assert_eq!(b.enter_function(FunctionId(1), &loc()), Err(CompilerError::UnregisteredFunction(FunctionId(1))));
    b.push_block(placeholder_block(0, 2));
    b.push_function(HirFunction { id: FunctionId(1), entry: BlockId(0), params: Vec::new(), return_type: TypeId(0), return_aliases: Vec::new() });
    b.locals_by_name.insert(9, LocalId(9));
    assert_eq!(b.enter_function(FunctionId(1), &loc()), Ok(()));
    assert_eq!(b.current_function_id_or_error(&loc()), Ok(FunctionId(1)));
    assert_eq!(b.current_block_id(), Some(BlockId(0)));
    assert_eq!(b.current_region_or_error(&loc()), Ok(RegionId(2)));
    assert!(b.locals_by_name.is_empty());
    b.leave_function();
    assert_eq!(b.current_function_id_or_error(&loc()), Err(CompilerError::NoCurrentFunction));
    assert_eq!(b.current_region_or_error(&loc()), Err(CompilerError::NoCurrentRegion));
    assert_eq!(b.current_block_id(), None);
}

#[test]
fn function_origins_mark_the_start_function() {
    let mut b = HirBuilder::new();
    for id in 0..3 {
        b.push_function(HirFunction { id: FunctionId(id), entry: BlockId(0), params: Vec::new(), return_type: TypeId(0), return_aliases: Vec::new() });
    }
    b.module.start_function = FunctionId(2);
    b.module.function_origins.insert(9, HirFunctionOrigin::Normal);
    assert_eq!(b.assign_function_origins(), Ok(()));
    assert_eq!(b.module.function_origins.len(), 3);
    assert_eq!(b.module.function_origins.get(&0), Some(&HirFunctionOrigin::Normal));
    assert_eq!(b.module.function_origins.get(&2), Some(&HirFunctionOrigin::EntryStart));
    assert_eq!(b.module.function_origins.get(&9), None);
}

#[test]
fn scalar_types_lower_to_their_kinds() {
    let mut b = HirBuilder::new();
    let int = b.lower_data_type(&DataType::Int, &loc()).unwrap();
    assert_eq!(*kind_of(&b, int), HirTypeKind::Int);
    let t = b.lower_data_type(&DataType::True, &loc()).unwrap();
    assert_eq!(*kind_of(&b, t), HirTypeKind::Bool);
    let s = b.lower_data_type(&DataType::Template, &loc()).unwrap();
    assert_eq!(*kind_of(&b, s), HirTypeKind::String);
    let none = b.lower_data_type(&DataType::NoValue, &loc()).unwrap();
    assert_eq!(*kind_of(&b, none), HirTypeKind::Unit);
    assert_eq!(b.lower_data_type(&DataType::Reference(Box::new(DataType::Int)), &loc()), Ok(int));
    assert_eq!(b.lower_data_type(&DataType::Returns(vec![DataType::Int]), &loc()), Ok(int));
    assert_eq!(b.lower_data_type(&DataType::Returns(Vec::new()), &loc()), Ok(none));
    let ext = b.lower_data_type(&DataType::External { type_id: ExternalTypeId(4) }, &loc()).unwrap();
    assert_eq!(*kind_of(&b, ext), HirTypeKind::External { type_id: ExternalTypeId(4) });
}

#[test]
fn composite_types_lower_with_their_components() {
    let mut b = HirBuilder::new();
    let pair = b.lower_data_type(&DataType::Returns(vec![DataType::Int, DataType::Bool]), &loc()).unwrap();
    assert_eq!(*kind_of(&b, pair), HirTypeKind::Tuple { fields: vec![TypeId(0), TypeId(1)] });
    let list = DataType::GenericInstance {
        base: GenericBaseType::Builtin(BuiltinGenericType::Collection),
        arguments: vec![DataType::Char],
    };
    let collection = b.lower_data_type(&list, &loc()).unwrap();
    let char_id = b.lower_data_type(&DataType::Char, &loc()).unwrap();
    assert_eq!(*kind_of(&b, collection), HirTypeKind::Collection { element: char_id });
    let result = DataType::Result { ok: Box::new(DataType::Int), err: Box::new(DataType::StringSlice) };
    let r = b.lower_data_type(&result, &loc()).unwrap();
    let string_id = b.lower_data_type(&DataType::StringSlice, &loc()).unwrap();
    assert_eq!(*kind_of(&b, r), HirTypeKind::Result { ok: TypeId(0), err: string_id });
    let opt = b.lower_data_type(&DataType::Option(Box::new(DataType::Int)), &loc()).unwrap();
    assert_eq!(*kind_of(&b, opt), HirTypeKind::Option { inner: TypeId(0) });
    let function = DataType::Function(
        Some(ReceiverKey::BuiltinScalar(BuiltinScalarReceiver::Float)),
        FunctionSignature { parameters: vec![DataType::Int], returns: vec![DataType::Bool, DataType::Int], return_aliases: vec![None, None] },
    );
    let f = b.lower_data_type(&function, &loc()).unwrap();
    let float_id = b.lower_data_type(&DataType::Float, &loc()).unwrap();
    assert_eq!(
        *kind_of(&b, f),
        HirTypeKind::Function { receiver: Some(float_id), params: vec![TypeId(0)], returns: vec![TypeId(1), TypeId(0)] }
    );
    // lowering the same type again adds nothing
    let count = b.type_context.len();
    assert_eq!(b.lower_data_type(&function, &loc()), Ok(f));
    assert_eq!(b.type_context.len(), count);
}

#[test]
fn nominal_types_resolve_through_registered_paths() {
    let mut b = HirBuilder::new();
    assert_eq!(b.lower_data_type(&DataType::Struct { nominal_path: 7 }, &loc()), Err(CompilerError::UnresolvedStruct(7)));
    assert_eq!(b.lower_data_type(&DataType::Choices { nominal_path: 8 }, &loc()), Err(CompilerError::UnresolvedChoice(8)));
    b.structs_by_name.insert(7, StructId(3));
    b.choices_by_name.insert(8, ChoiceId(1));
    let s = b.lower_data_type(&DataType::Struct { nominal_path: 7 }, &loc()).unwrap();
    assert_eq!(*kind_of(&b, s), HirTypeKind::Struct { struct_id: StructId(3) });
    let c = b.lower_data_type(&DataType::Choices { nominal_path: 8 }, &loc()).unwrap();
    assert_eq!(*kind_of(&b, c), HirTypeKind::Choice { choice_id: ChoiceId(1) });
    let method = DataType::Function(Some(ReceiverKey::Struct(5)), FunctionSignature { parameters: Vec::new(), returns: Vec::new(), return_aliases: Vec::new() });
    assert_eq!(b.lower_data_type(&method, &loc()), Err(CompilerError::UnresolvedReceiverStruct(5)));
}

#[test]
fn unresolved_types_are_rejected() {
    let mut b = HirBuilder::new();
    assert_eq!(b.lower_data_type(&DataType::Inferred, &loc()), Err(CompilerError::InferredTypeInHir));
    assert_eq!(b.lower_data_type(&DataType::NamedType(StringId(1)), &loc()), Err(CompilerError::UnresolvedNamedType));
    assert_eq!(b.lower_data_type(&DataType::TypeParameter { id: 2 }, &loc()), Err(CompilerError::UnresolvedTypeParameter));
    let named = DataType::GenericInstance { base: GenericBaseType::Named(3), arguments: vec![DataType::Int] };
    assert_eq!(b.lower_data_type(&named, &loc()), Err(CompilerError::UnresolvedGenericInstance));
    // the first failing part decides
    let both = DataType::Returns(vec![DataType::Int, DataType::Inferred, DataType::NamedType(StringId(0))]);
    assert_eq!(b.lower_data_type(&both, &loc()), Err(CompilerError::InferredTypeInHir));
}

#[test]
fn regions_and_blocks_are_created_in_order() {
    let mut b = HirBuilder::new();
    b.push_region(HirRegion::lexical(RegionId(0), None));
    b.next_region_id = 1;
    let child = b.create_child_region(RegionId(0));
    assert_eq!(child, RegionId(1));
    assert_eq!(b.module.regions[1].parent(), Some(RegionId(0)));
    let first = b.create_block(child, &loc(), "entry").unwrap();
    let second = b.create_block(child, &loc(), "exit").unwrap();
    assert_eq!((first, second), (BlockId(0), BlockId(1)));
    assert_eq!(b.module.blocks[1].region, RegionId(1));
    assert_eq!(b.block_has_explicit_terminator(second, &loc()), Ok(false));
    assert_eq!(b.emit_jump_to(first, second, &loc(), "edge"), Ok(()));
    assert!(matches!(&b.module.blocks[0].terminator, HirTerminator::Jump { target: BlockId(1), args } if args.is_empty()));
    assert_eq!(b.emit_jump_to(first, second, &loc(), "edge"), Err(CompilerError::TerminatorAlreadySet(first)));
}

#[test]
fn break_and_continue_use_the_innermost_loop() {
    let mut b = HirBuilder::new();
    assert_eq!(b.lower_break_statement(&loc()), Err(CompilerError::NoCurrentBlock));
    let body = b.create_block(RegionId(0), &loc(), "body").unwrap();
    let other = b.create_block(RegionId(0), &loc(), "other").unwrap();
    b.current_block = Some(body);
    assert_eq!(b.lower_break_statement(&loc()), Err(CompilerError::NoActiveLoop));
    b.push_loop_targets(BlockId(7), BlockId(8));
    b.push_loop_targets(BlockId(9), BlockId(10));
    assert_eq!(b.current_loop_targets_or_error("break", &loc()).unwrap().break_target, BlockId(9));
    assert_eq!(b.lower_break_statement(&loc()), Ok(()));
    assert!(matches!(b.module.blocks[0].terminator, HirTerminator::Break { target: BlockId(9) }));
    b.pop_loop_targets();
    b.current_block = Some(other);
    assert_eq!(b.lower_continue_statement(&loc()), Ok(()));
    assert!(matches!(b.module.blocks[1].terminator, HirTerminator::Continue { target: BlockId(8) }));
    b.pop_loop_targets();
    b.pop_loop_targets();
    assert!(b.loop_targets.is_empty());
}

#[test]
fn statements_go_to_the_current_block() {
    let mut b = HirBuilder::new();
    let value = beanstalk_hir::expressions::HirExpression {
        id: beanstalk_hir::ids::HirValueId(0),
        kind: beanstalk_hir::expressions::HirExpressionKind::Int(3),
        ty: TypeId(0),
        value_kind: beanstalk_hir::hir_nodes::ValueKind::Const,
        region: RegionId(0),
    };
    assert_eq!(b.emit_assign_local_statement(LocalId(1), value, &loc()), Err(CompilerError::NoCurrentBlock));
    let block = b.create_block(RegionId(0), &loc(), "entry").unwrap();
    b.current_block = Some(block);
    let value = beanstalk_hir::expressions::HirExpression {
        id: beanstalk_hir::ids::HirValueId(0),
        kind: beanstalk_hir::expressions::HirExpressionKind::Int(3),
        ty: TypeId(0),
        value_kind: beanstalk_hir::hir_nodes::ValueKind::Const,
        region: RegionId(0),
    };
    assert_eq!(b.emit_assign_local_statement(LocalId(1), value, &loc()), Ok(()));
    assert_eq!(b.emit_statement_kind(beanstalk_hir::hir_nodes::HirStatementKind::Drop(LocalId(1)), &loc()), Ok(()));
    let statements = &b.module.blocks[0].statements;
    assert_eq!(statements.len(), 2);
    assert_eq!(statements[1].id, beanstalk_hir::ids::HirNodeId(2));
    assert!(matches!(statements[1].kind, beanstalk_hir::hir_nodes::HirStatementKind::Drop(LocalId(1))));
}

#[test]
fn match_merge_block_is_created_once() {
    let mut b = HirBuilder::new();
    let mut merge = None;
    let first = b.ensure_match_merge_block(RegionId(2), &loc(), &mut merge).unwrap();
    let again = b.ensure_match_merge_block(RegionId(2), &loc(), &mut merge).unwrap();
    assert_eq!(first, again);
    assert_eq!(merge, Some(first));
    assert_eq!(b.module.blocks.len(), 1);
    let int = b.intern_type_kind(HirTypeKind::Unit);
    assert!(b.is_unit_type(int));
}

#[test]
fn named_locals_are_declared_once_per_function() {
    let mut b = HirBuilder::new();
    assert_eq!(b.allocate_named_local(40, TypeId(0), true, None), Err(CompilerError::NoCurrentRegion));
    b.current_region = Some(RegionId(3));
    assert_eq!(b.allocate_named_local(40, TypeId(0), true, None), Err(CompilerError::NoCurrentBlock));
    let block = b.create_block(RegionId(3), &loc(), "entry").unwrap();
    b.current_block = Some(block);
    let x = b.allocate_named_local(40, TypeId(2), false, Some(loc())).unwrap();
    assert_eq!(x, LocalId(0));
    assert_eq!(b.locals_by_name.get(&40), Some(&LocalId(0)));
    assert_eq!(b.local_type_id_or_error(x, &loc()), Ok(TypeId(2)));
    assert_eq!(b.module.blocks[0].locals[0].region, RegionId(3));
    assert!(!b.module.blocks[0].locals[0].mutable);
    assert_eq!(b.allocate_named_local(40, TypeId(2), true, None), Err(CompilerError::LocalAlreadyDeclared(40)));
    let load = b.make_local_load_expression(x, TypeId(2), &loc(), RegionId(3));
    assert_eq!(load.id, beanstalk_hir::ids::HirValueId(0));
    assert!(matches!(load.kind, beanstalk_hir::expressions::HirExpressionKind::Load(beanstalk_hir::expressions::HirPlace::Local(LocalId(0)))));
    let next = b.make_local_load_expression(x, TypeId(2), &loc(), RegionId(3));
    assert_eq!(next.id, beanstalk_hir::ids::HirValueId(1));
}

#[test]
fn function_declarations_get_an_entry_block_and_return_type() {
    let mut b = HirBuilder::new();
    let signature = FunctionSignature {
        parameters: vec![DataType::Int],
        returns: vec![DataType::Int, DataType::Bool],
        return_aliases: vec![Some(vec![0]), None],
    };
    assert_eq!(b.register_function_declaration(11, &signature, &loc()), Ok(()));
    assert_eq!(b.functions_by_name.get(&11), Some(&FunctionId(0)));
    let f = &b.module.functions[0];
    assert_eq!(f.entry, BlockId(0));
    assert!(f.params.is_empty());
    assert_eq!(f.return_aliases, vec![Some(vec![0]), None]);
    assert_eq!(*kind_of(&b, f.return_type), HirTypeKind::Tuple { fields: vec![TypeId(0), TypeId(1)] });
    assert_eq!(b.module.regions[0].parent(), None);
    assert_eq!(b.module.blocks[0].region, b.module.regions[0].id());
    assert_eq!(b.block_has_explicit_terminator(BlockId(0), &loc()), Ok(false));
    assert_eq!(
        b.register_function_declaration(11, &signature, &loc()),
        Err(CompilerError::DuplicateFunctionDeclaration(11))
    );
    assert_eq!(b.module.functions.len(), 1);
    let no_returns = FunctionSignature { parameters: Vec::new(), returns: Vec::new(), return_aliases: Vec::new() };
    assert_eq!(b.register_function_declaration(12, &no_returns, &loc()), Ok(()));
    assert_eq!(*kind_of(&b, b.module.functions[1].return_type), HirTypeKind::Unit);
    assert_eq!(b.module.functions[1].entry, BlockId(1));
    let bad = FunctionSignature { parameters: Vec::new(), returns: vec![DataType::Inferred], return_aliases: vec![None] };
    assert_eq!(b.register_function_declaration(13, &bad, &loc()), Err(CompilerError::InferredTypeInHir));
    assert_eq!(b.module.functions.len(), 2);
    assert_eq!(b.next_function_id, 3);
}

#[test]
fn doc_fragments_are_rendered_through_the_string_table() {
    let mut table = StringTable::new();
    let first = table.intern("Adds two numbers.");
    let second = table.intern("Returns the sum.");
    let mut b = HirBuilder::new();
    let fragments = vec![
        AstDocFragment { kind: AstDocFragmentKind::Doc, value: first, location: loc() },
        AstDocFragment { kind: AstDocFragmentKind::Doc, value: second, location: loc() },
    ];
    assert!(b.resolve_doc_fragments(&fragments, &table).is_ok());
    assert_eq!(b.module.doc_fragments.len(), 2);
    assert_eq!(b.module.doc_fragments[0].rendered_text, "Adds two numbers.");
    assert_eq!(b.module.doc_fragments[1].rendered_text, "Returns the sum.");
    assert_eq!(b.module.doc_fragments[1].location, loc());
    // A second resolution replaces the earlier fragments.
    let only = vec![AstDocFragment { kind: AstDocFragmentKind::Doc, value: second, location: loc() }];
    assert!(b.resolve_doc_fragments(&only, &table).is_ok());
    assert_eq!(b.module.doc_fragments.len(), 1);
    assert_eq!(b.module.doc_fragments[0].rendered_text, "Returns the sum.");
}

#[test]
fn reserved_ids_are_not_allocated_again() {
    let mut b = HirBuilder::new();
    b.reserve_block_id(BlockId(4));
    assert_eq!(b.allocate_block_id(), BlockId(5));
    // Reserving an id below the counter leaves it where it is.
    b.reserve_block_id(BlockId(1));
    assert_eq!(b.allocate_block_id(), BlockId(6));
    b.reserve_region_id(RegionId(0));
    assert_eq!(b.allocate_region_id(), RegionId(1));
    b.reserve_local_id(LocalId(9));
    assert_eq!(b.allocate_local_id(), LocalId(10));
    b.reserve_function_id(FunctionId(2));
    assert_eq!(b.allocate_function_id(), FunctionId(3));
    b.reserve_struct_id(StructId(7));
    assert_eq!(b.allocate_struct_id(), StructId(8));
    b.reserve_field_id(FieldId(3));
    assert_eq!(b.allocate_field_id(), FieldId(4));
    let mut counter: u32 = 3;
    HirBuilder::advance_counter_past(&mut counter, u32::MAX);
    assert_eq!(counter, u32::MAX);
}
