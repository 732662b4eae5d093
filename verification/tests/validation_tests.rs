use beanstalk_hir::errors::CompilerError;
use beanstalk_hir::expressions::{HirExpression, HirExpressionKind, HirPlace};
use beanstalk_hir::hir_datatypes::{HirType, HirTypeKind, TypeContext, TypeId};
use beanstalk_hir::hir_nodes::{
    HirConstField, HirConstValue, HirDocFragment, HirDocFragmentKind, HirField, HirFunction, HirFunctionOrigin,
    HirLocal, HirMatchArm, HirModuleConst, HirPattern, HirRegion, HirStatement, HirStatementKind, HirStruct, HirTerminator,
    ResultVariant, ValueKind,
};
use beanstalk_hir::hir_validation::{validate_hir_declarations, HirBlockDecl, HirModuleDecls, HirValidator};
use beanstalk_hir::ids::{BlockId, FieldId, FunctionId, HirConstId, HirNodeId, HirValueId, LocalId, RegionId, StructId};
use beanstalk_hir::tokens::{CharPosition, TextLocation};
use rustc_hash::FxHashMap;

fn local(id: u32) -> HirLocal {
    HirLocal { id: LocalId(id), ty: TypeId(0), mutable: false, region: RegionId(0), source_info: None }
}

fn function(id: u32) -> HirFunction {
    HirFunction { id: FunctionId(id), entry: BlockId(id), params: Vec::new(), return_type: TypeId(0), return_aliases: Vec::new() }
}

fn unit() -> HirExpression {
    HirExpression {
        id: HirValueId(0),
        kind: HirExpressionKind::TupleConstruct { elements: Vec::new() },
        ty: TypeId(0),
        value_kind: ValueKind::RValue,
        region: RegionId(0),
    }
}

fn const_int(value: i64) -> HirExpression {
    HirExpression {
        id: HirValueId(1),
        kind: HirExpressionKind::Int(value),
        ty: TypeId(1),
        value_kind: ValueKind::Const,
        region: RegionId(0),
    }
}

fn block(id: u32, locals: Vec<HirLocal>, terminator: HirTerminator) -> HirBlockDecl {
    HirBlockDecl { id: BlockId(id), region: RegionId(0), locals, statements: Vec::new(), terminator }
}

fn ret() -> HirTerminator {
    HirTerminator::Return(unit())
}

fn span(start: (i32, i32), end: (i32, i32)) -> TextLocation {
    TextLocation {
        scope: 0,
        start_pos: CharPosition { line_number: start.0, char_column: start.1 },
        end_pos: CharPosition { line_number: end.0, char_column: end.1 },
    }
}

/// Types: 0 unit, 1 int, 2 a pair of ints, 3 a result of a pair, 4 bool.
fn types() -> TypeContext {
    let mut types = TypeContext::default();
    types.insert(HirType { kind: HirTypeKind::Unit });
    types.insert(HirType { kind: HirTypeKind::Int });
    types.insert(HirType { kind: HirTypeKind::Tuple { fields: vec![TypeId(1), TypeId(1)] } });
    types.insert(HirType { kind: HirTypeKind::Result { ok: TypeId(2), err: TypeId(1) } });
    types.insert(HirType { kind: HirTypeKind::Bool });
    types
}

fn valid_module() -> HirModuleDecls {
    let mut origins = FxHashMap::default();
    origins.insert(0, HirFunctionOrigin::EntryStart);
    origins.insert(1, HirFunctionOrigin::Normal);
    HirModuleDecls {
        blocks: vec![
            block(0, vec![local(0), local(1)], ret()),
            block(1, vec![local(2)], ret()),
        ],
        functions: vec![function(0), function(1)],
        structs: vec![HirStruct {
            id: StructId(0),
            fields: vec![HirField { id: FieldId(0), ty: TypeId(1) }, HirField { id: FieldId(1), ty: TypeId(2) }],
        }],
        type_context: types(),
        start_function: FunctionId(0),
        function_origins: origins,
        doc_fragments: vec![HirDocFragment {
            kind: HirDocFragmentKind::Doc,
            rendered_text: String::from("docs"),
            location: span((1, 0), (2, 0)),
        }],
        module_constants: vec![HirModuleConst {
            id: HirConstId(0),
            name: String::from("limits"),
            ty: TypeId(1),
            value: HirConstValue::Record(vec![
                HirConstField { name: String::from("low"), value: HirConstValue::Int(1) },
                HirConstField { name: String::from("scale"), value: HirConstValue::Float(0.5f64.to_bits()) },
            ]),
        }],
        regions: vec![
            HirRegion::lexical(RegionId(0), None),
            HirRegion::lexical(RegionId(1), Some(RegionId(0))),
            HirRegion::lexical(RegionId(2), Some(RegionId(1))),
        ],
    }
}

#[test]
fn valid_declarations_pass() {
    assert_eq!(validate_hir_declarations(&valid_module()), Ok(()));
}

#[test]
fn collected_ids_and_maps() {
    let m = valid_module();
    let mut v = HirValidator::new(&m);
    assert_eq!(v.collect_definition_ids(), Ok(()));
    assert_eq!(v.block_index_by_id.get(&1), Some(&1));
    assert_eq!(v.local_types.len(), 3);
    assert_eq!(v.field_owner.get(&1), Some(&StructId(0)));
    assert_eq!(v.field_types.get(&1), Some(&TypeId(2)));
    assert!(v.region_ids.contains(&2));
    assert!(v.function_ids.contains(&1));
}

#[test]
fn duplicate_region_is_rejected() {
    let mut m = valid_module();
    m.regions.push(HirRegion::lexical(RegionId(1), None));
    assert_eq!(validate_hir_declarations(&m), Err(CompilerError::DuplicateRegionId(RegionId(1))));
}

#[test]
fn duplicate_block_is_rejected() {
    let mut m = valid_module();
    m.blocks.push(block(0, Vec::new(), ret()));
    assert_eq!(validate_hir_declarations(&m), Err(CompilerError::DuplicateBlockId(BlockId(0))));
}

#[test]
fn duplicate_local_across_blocks_is_rejected() {
    let mut m = valid_module();
    m.blocks.push(block(5, vec![local(7), local(1)], ret()));
    assert_eq!(validate_hir_declarations(&m), Err(CompilerError::DuplicateLocalId(LocalId(1))));
}

#[test]
fn duplicate_struct_and_field_are_rejected() {
    let mut m = valid_module();
    m.structs.push(HirStruct { id: StructId(3), fields: vec![HirField { id: FieldId(1), ty: TypeId(0) }] });
    assert_eq!(validate_hir_declarations(&m), Err(CompilerError::DuplicateFieldId(FieldId(1))));
    let mut m = valid_module();
    m.structs.push(HirStruct { id: StructId(0), fields: Vec::new() });
    assert_eq!(validate_hir_declarations(&m), Err(CompilerError::DuplicateStructId(StructId(0))));
}

#[test]
fn duplicate_function_is_rejected() {
    let mut m = valid_module();
    m.functions.push(function(1));
    assert_eq!(validate_hir_declarations(&m), Err(CompilerError::DuplicateFunctionId(FunctionId(1))));
}

#[test]
fn missing_parent_region_is_rejected() {
    let mut m = valid_module();
    m.regions.push(HirRegion::lexical(RegionId(3), Some(RegionId(9))));
    assert_eq!(
        validate_hir_declarations(&m),
        Err(CompilerError::MissingParentRegion { region: RegionId(3), parent: RegionId(9) })
    );
}

#[test]
fn region_cycle_is_rejected() {
    let mut m = valid_module();
    m.regions = vec![
        HirRegion::lexical(RegionId(0), None),
        HirRegion::lexical(RegionId(4), Some(RegionId(5))),
        HirRegion::lexical(RegionId(5), Some(RegionId(6))),
        HirRegion::lexical(RegionId(6), Some(RegionId(5))),
    ];
    // the walk from region 4 goes 4, 5, 6 and comes back to 5
    assert_eq!(validate_hir_declarations(&m), Err(CompilerError::RegionCycle(RegionId(5))));
}

#[test]
fn region_self_parent_is_rejected() {
    let mut m = valid_module();
    m.regions.push(HirRegion::lexical(RegionId(3), Some(RegionId(3))));
    assert_eq!(validate_hir_declarations(&m), Err(CompilerError::RegionCycle(RegionId(3))));
}

#[test]
fn start_function_must_exist() {
    let mut m = valid_module();
    m.start_function = FunctionId(8);
    assert_eq!(validate_hir_declarations(&m), Err(CompilerError::MissingStartFunction(FunctionId(8))));
}

#[test]
fn origins_must_cover_every_function() {
    let mut m = valid_module();
    m.function_origins.remove(&1);
    assert_eq!(
        validate_hir_declarations(&m),
        Err(CompilerError::FunctionOriginCount { origins: 1, functions: 2 })
    );
    let mut m = valid_module();
    m.function_origins.remove(&1);
    m.function_origins.insert(9, HirFunctionOrigin::Normal);
    assert_eq!(validate_hir_declarations(&m), Err(CompilerError::MissingFunctionOrigin(FunctionId(1))));
}

#[test]
fn start_function_must_be_entry() {
    let mut m = valid_module();
    m.function_origins.insert(0, HirFunctionOrigin::Normal);
    assert_eq!(validate_hir_declarations(&m), Err(CompilerError::StartFunctionNotEntry(FunctionId(0))));
}

#[test]
fn doc_fragment_spans_must_be_ordered() {
    let mut m = valid_module();
    m.doc_fragments.push(HirDocFragment {
        kind: HirDocFragmentKind::Doc,
        rendered_text: String::new(),
        location: span((5, 0), (4, 0)),
    });
    assert_eq!(
        validate_hir_declarations(&m),
        Err(CompilerError::DocFragmentLines { index: 1, start_line: 5, end_line: 4 })
    );
    let mut m = valid_module();
    m.doc_fragments.push(HirDocFragment {
        kind: HirDocFragmentKind::Doc,
        rendered_text: String::new(),
        location: span((3, 9), (3, 2)),
    });
    assert_eq!(
        validate_hir_declarations(&m),
        Err(CompilerError::DocFragmentColumns { index: 1, start_column: 9, end_column: 2 })
    );
}

#[test]
fn function_entry_block_must_exist() {
    let mut m = valid_module();
    m.functions[1].entry = BlockId(9);
    assert_eq!(validate_hir_declarations(&m), Err(CompilerError::UnknownBlockId(BlockId(9))));
}

#[test]
fn function_return_type_must_exist() {
    let mut m = valid_module();
    m.functions[1].return_type = TypeId(50);
    assert_eq!(validate_hir_declarations(&m), Err(CompilerError::UnknownTypeId(TypeId(50))));
}

#[test]
fn return_alias_slots_follow_the_return_type() {
    let mut m = valid_module();
    m.functions[1].return_type = TypeId(1);
    assert_eq!(
        validate_hir_declarations(&m),
        Err(CompilerError::ReturnAliasCount { function: FunctionId(1), slots: 0, expected: 1 })
    );
    m.functions[1].return_aliases = vec![None];
    assert_eq!(validate_hir_declarations(&m), Ok(()));
    m.functions[1].return_type = TypeId(3);
    assert_eq!(
        validate_hir_declarations(&m),
        Err(CompilerError::ReturnAliasCount { function: FunctionId(1), slots: 1, expected: 2 })
    );
    m.functions[1].return_aliases = vec![None, None];
    assert_eq!(validate_hir_declarations(&m), Ok(()));
}

#[test]
fn empty_return_alias_is_rejected() {
    let mut m = valid_module();
    m.functions[1].return_type = TypeId(2);
    m.functions[1].return_aliases = vec![None, Some(Vec::new())];
    assert_eq!(
        validate_hir_declarations(&m),
        Err(CompilerError::EmptyReturnAlias { function: FunctionId(1), slot: 1 })
    );
}

#[test]
fn return_alias_index_must_name_a_parameter() {
    let mut m = valid_module();
    m.functions[1].return_type = TypeId(1);
    m.functions[1].params = vec![LocalId(0)];
    m.functions[1].return_aliases = vec![Some(vec![0, 1])];
    assert_eq!(
        validate_hir_declarations(&m),
        Err(CompilerError::ReturnAliasOutOfRange { function: FunctionId(1), slot: 0, index: 1 })
    );
}

#[test]
fn repeated_return_alias_index_is_rejected() {
    let mut m = valid_module();
    m.functions[1].return_type = TypeId(1);
    m.functions[1].params = vec![LocalId(0), LocalId(1)];
    m.functions[1].return_aliases = vec![Some(vec![1, 0, 1])];
    assert_eq!(
        validate_hir_declarations(&m),
        Err(CompilerError::DuplicateReturnAlias { function: FunctionId(1), slot: 0, index: 1 })
    );
    m.functions[1].return_aliases = vec![Some(vec![1, 0])];
    assert_eq!(validate_hir_declarations(&m), Ok(()));
}

#[test]
fn function_parameters_must_be_locals() {
    let mut m = valid_module();
    m.functions[0].params = vec![LocalId(2), LocalId(42)];
    assert_eq!(validate_hir_declarations(&m), Err(CompilerError::UnknownLocalId(LocalId(42))));
}

#[test]
fn require_checks_after_collection() {
    let m = valid_module();
    let mut v = HirValidator::new(&m);
    assert_eq!(v.collect_definition_ids(), Ok(()));
    assert_eq!(v.require_block_id(BlockId(1)), Ok(()));
    assert_eq!(v.require_block_id(BlockId(7)), Err(CompilerError::UnknownBlockId(BlockId(7))));
    assert_eq!(v.require_struct_id(StructId(0)), Ok(()));
    assert_eq!(v.require_struct_id(StructId(4)), Err(CompilerError::UnknownStructId(StructId(4))));
    assert_eq!(v.require_field_id(FieldId(1)), Ok(()));
    assert_eq!(v.require_field_id(FieldId(6)), Err(CompilerError::UnknownFieldId(FieldId(6))));
    assert_eq!(v.require_local_id(LocalId(2)), Ok(()));
    assert_eq!(v.require_local_id(LocalId(3)), Err(CompilerError::UnknownLocalId(LocalId(3))));
    assert_eq!(v.require_region_id(RegionId(2)), Ok(()));
    assert_eq!(v.require_region_id(RegionId(3)), Err(CompilerError::UnknownRegionId(RegionId(3))));
    assert_eq!(v.require_type_id(TypeId(4)), Ok(()));
    assert_eq!(v.require_type_id(TypeId(5)), Err(CompilerError::UnknownTypeId(TypeId(5))));
}

#[test]
fn field_ownership_is_checked() {
    let mut m = valid_module();
    m.structs.push(HirStruct { id: StructId(1), fields: vec![HirField { id: FieldId(5), ty: TypeId(4) }] });
    let mut v = HirValidator::new(&m);
    assert_eq!(v.collect_definition_ids(), Ok(()));
    assert_eq!(v.require_field_owned_by(FieldId(5), StructId(1)), Ok(()));
    assert_eq!(
        v.require_field_owned_by(FieldId(5), StructId(0)),
        Err(CompilerError::FieldOwnedByOther { field: FieldId(5), owner: StructId(1), expected: StructId(0) })
    );
    assert_eq!(v.require_field_owned_by(FieldId(8), StructId(0)), Err(CompilerError::UnknownFieldId(FieldId(8))));
}

#[test]
fn expected_slots_by_return_type() {
    let m = valid_module();
    let v = HirValidator::new(&m);
    assert_eq!(v.expected_return_alias_slots(TypeId(0), FunctionId(0)), Ok(0));
    assert_eq!(v.expected_return_alias_slots(TypeId(1), FunctionId(0)), Ok(1));
    assert_eq!(v.expected_return_alias_slots(TypeId(2), FunctionId(0)), Ok(2));
    assert_eq!(v.expected_return_alias_slots(TypeId(3), FunctionId(0)), Ok(2));
    assert_eq!(v.expected_return_alias_slots(TypeId(9), FunctionId(0)), Err(CompilerError::UnknownTypeId(TypeId(9))));
}

fn constant(id: u32, name: &str, value: HirConstValue) -> HirModuleConst {
    HirModuleConst { id: HirConstId(id), name: String::from(name), ty: TypeId(1), value }
}

#[test]
fn constant_names_must_not_be_blank() {
    let mut m = valid_module();
    m.module_constants.push(constant(4, " \t\u{3000}", HirConstValue::Bool(true)));
    assert_eq!(validate_hir_declarations(&m), Err(CompilerError::EmptyConstantName(HirConstId(4))));
    let mut m = valid_module();
    m.module_constants.push(constant(5, "", HirConstValue::Char('c')));
    assert_eq!(validate_hir_declarations(&m), Err(CompilerError::EmptyConstantName(HirConstId(5))));
    let mut m = valid_module();
    m.module_constants.push(constant(6, " x ", HirConstValue::String(String::from("s"))));
    assert_eq!(validate_hir_declarations(&m), Ok(()));
}

#[test]
fn constant_type_must_exist() {
    let mut m = valid_module();
    m.module_constants.push(HirModuleConst { id: HirConstId(1), name: String::from("k"), ty: TypeId(40), value: HirConstValue::Int(0) });
    assert_eq!(validate_hir_declarations(&m), Err(CompilerError::UnknownTypeId(TypeId(40))));
}

#[test]
fn nested_record_field_names_must_not_be_blank() {
    let blank_field = HirConstValue::Record(vec![
        HirConstField { name: String::from("ok"), value: HirConstValue::Int(1) },
        HirConstField { name: String::from("   "), value: HirConstValue::Int(2) },
    ]);
    let nested = HirConstValue::Collection(vec![
        HirConstValue::Int(0),
        HirConstValue::Range(
            Box::new(HirConstValue::Int(1)),
            Box::new(HirConstValue::Result { variant: ResultVariant::Success, value: Box::new(blank_field) }),
        ),
    ]);
    let mut m = valid_module();
    m.module_constants.push(constant(2, "nested", nested));
    assert_eq!(validate_hir_declarations(&m), Err(CompilerError::EmptyConstantFieldName));
}

#[test]
fn constants_are_checked_before_functions() {
    let mut m = valid_module();
    m.functions[1].entry = BlockId(9);
    m.module_constants.push(constant(3, "", HirConstValue::Int(0)));
    assert_eq!(validate_hir_declarations(&m), Err(CompilerError::EmptyConstantName(HirConstId(3))));
}

#[test]
fn every_block_gets_the_function_that_reaches_it() {
    let mut m = valid_module();
    m.blocks[0].terminator = HirTerminator::If { condition: unit(), then_block: BlockId(2), else_block: BlockId(3) };
    m.blocks.push(block(2, Vec::new(), HirTerminator::Jump { target: BlockId(4), args: vec![LocalId(0)] }));
    m.blocks.push(block(3, Vec::new(), HirTerminator::Continue { target: BlockId(0) }));
    m.blocks.push(block(4, Vec::new(), ret()));
    m.blocks[1].terminator = HirTerminator::Match {
        scrutinee: unit(),
        arms: vec![
            HirMatchArm { pattern: HirPattern::Wildcard, guard: None, body: BlockId(5) },
            HirMatchArm { pattern: HirPattern::Literal(const_int(3)), guard: Some(unit()), body: BlockId(6) },
        ],
    };
    m.blocks.push(block(5, Vec::new(), HirTerminator::Break { target: BlockId(6) }));
    m.blocks.push(block(6, Vec::new(), HirTerminator::Panic { message: Some(unit()) }));
    assert_eq!(validate_hir_declarations(&m), Ok(()));
    let mut v = HirValidator::new(&m);
    assert_eq!(v.validate(), Ok(()));
    for (b, f) in [(0, 0), (2, 0), (3, 0), (4, 0), (1, 1), (5, 1), (6, 1)] {
        assert_eq!(v.block_owner_by_id.get(&b), Some(&FunctionId(f)));
    }
}

#[test]
fn block_reached_from_two_functions_is_rejected() {
    let mut m = valid_module();
    m.blocks[0].terminator = HirTerminator::Jump { target: BlockId(1), args: Vec::new() };
    assert_eq!(
        validate_hir_declarations(&m),
        Err(CompilerError::BlockInTwoFunctions { block: BlockId(1), first: FunctionId(0), second: FunctionId(1) })
    );
}

#[test]
fn unreachable_block_is_rejected() {
    let mut m = valid_module();
    m.blocks.push(block(2, Vec::new(), ret()));
    m.blocks.push(block(3, Vec::new(), HirTerminator::Jump { target: BlockId(2), args: Vec::new() }));
    assert_eq!(validate_hir_declarations(&m), Err(CompilerError::UnreachableBlock(BlockId(2))));
}

#[test]
fn reached_block_must_be_declared() {
    let mut m = valid_module();
    m.blocks[1].terminator = HirTerminator::Break { target: BlockId(7) };
    assert_eq!(validate_hir_declarations(&m), Err(CompilerError::UnknownBlockId(BlockId(7))));
}

#[test]
fn block_by_id_finds_declared_blocks() {
    let m = valid_module();
    let mut v = HirValidator::new(&m);
    assert_eq!(v.collect_definition_ids(), Ok(()));
    assert_eq!(v.block_by_id(BlockId(1)).map(|b| b.locals.len()), Ok(1));
    assert!(matches!(v.block_by_id(BlockId(8)), Err(CompilerError::UnknownBlockId(BlockId(8)))));
}

#[test]
fn edges_must_stay_inside_one_function() {
    let mut m = valid_module();
    m.blocks.push(block(2, Vec::new(), ret()));
    m.blocks[0].terminator = HirTerminator::Jump { target: BlockId(2), args: Vec::new() };
    let mut v = HirValidator::new(&m);
    assert_eq!(v.validate(), Ok(()));
    assert_eq!(v.require_same_function_cfg_owner(BlockId(0), BlockId(2)), Ok(()));
    assert_eq!(
        v.require_same_function_cfg_owner(BlockId(2), BlockId(1)),
        Err(CompilerError::CrossFunctionEdge {
            source: BlockId(2),
            target: BlockId(1),
            source_owner: FunctionId(0),
            target_owner: FunctionId(1),
        })
    );
    assert_eq!(v.require_same_function_cfg_owner(BlockId(9), BlockId(1)), Err(CompilerError::BlockWithoutOwner(BlockId(9))));
    assert_eq!(v.require_same_function_cfg_owner(BlockId(1), BlockId(9)), Err(CompilerError::BlockWithoutOwner(BlockId(9))));
}

#[test]
fn ownership_pass_starts_from_no_owners() {
    let m = valid_module();
    let mut v = HirValidator::new(&m);
    assert_eq!(v.collect_definition_ids(), Ok(()));
    v.block_owner_by_id.insert(1, FunctionId(0));
    v.block_owner_by_id.insert(40, FunctionId(3));
    assert_eq!(v.validate_function_cfg_ownership(), Ok(()));
    assert_eq!(v.block_owner_by_id.get(&1), Some(&FunctionId(1)));
    assert_eq!(v.block_owner_by_id.get(&40), None);
}

fn load_local(local: u32, ty: u32) -> HirExpression {
    HirExpression {
        id: HirValueId(2),
        kind: HirExpressionKind::Load(HirPlace::Local(LocalId(local))),
        ty: TypeId(ty),
        value_kind: ValueKind::Place,
        region: RegionId(0),
    }
}

#[test]
fn placeholder_panic_is_rejected() {
    let mut m = valid_module();
    m.blocks[1].terminator = HirTerminator::Panic { message: None };
    assert_eq!(validate_hir_declarations(&m), Err(CompilerError::PlaceholderPanic(BlockId(1))));
}

#[test]
fn returned_value_needs_known_type_and_local() {
    let mut m = valid_module();
    m.blocks[0].terminator = HirTerminator::Return(load_local(1, 9));
    assert_eq!(validate_hir_declarations(&m), Err(CompilerError::UnknownTypeId(TypeId(9))));
    m.blocks[0].terminator = HirTerminator::Return(load_local(7, 1));
    assert_eq!(validate_hir_declarations(&m), Err(CompilerError::UnknownLocalId(LocalId(7))));
    m.blocks[0].terminator = HirTerminator::Return(load_local(1, 1));
    assert_eq!(validate_hir_declarations(&m), Ok(()));
}

#[test]
fn block_local_types_must_be_known() {
    let mut m = valid_module();
    m.blocks[1].locals[0].ty = TypeId(42);
    assert_eq!(validate_hir_declarations(&m), Err(CompilerError::UnknownTypeId(TypeId(42))));
}

#[test]
fn literal_patterns_must_be_constant_literals() {
    let mut m = valid_module();
    m.blocks.push(block(2, Vec::new(), ret()));
    let arm = |pattern| HirTerminator::Match {
        scrutinee: const_int(1),
        arms: vec![HirMatchArm { pattern, guard: None, body: BlockId(2) }],
    };
    m.blocks[0].terminator = arm(HirPattern::Literal(unit()));
    assert_eq!(validate_hir_declarations(&m), Err(CompilerError::PatternNotConst));
    let mut not_literal = unit();
    not_literal.value_kind = ValueKind::Const;
    m.blocks[0].terminator = arm(HirPattern::Literal(not_literal));
    assert_eq!(validate_hir_declarations(&m), Err(CompilerError::PatternNotLiteral));
    m.blocks[0].terminator = arm(HirPattern::Literal(const_int(4)));
    assert_eq!(validate_hir_declarations(&m), Ok(()));
}

#[test]
fn places_follow_struct_and_collection_types() {
    let m = valid_module();
    let mut v = HirValidator::new(&m);
    assert_eq!(v.validate(), Ok(()));
    // local 1 has the unit type: no field or index can be taken from it
    let field = HirPlace::Field { base: Box::new(HirPlace::Local(LocalId(1))), field: FieldId(0) };
    assert_eq!(v.validate_place(&field), Err(CompilerError::FieldBaseNotStruct(FieldId(0))));
    let index = HirPlace::Index { base: Box::new(HirPlace::Local(LocalId(1))), index: Box::new(const_int(0)) };
    assert_eq!(v.validate_place(&index), Err(CompilerError::IndexBaseNotCollection));
    assert_eq!(v.validate_place(&HirPlace::Local(LocalId(2))), Ok(TypeId(0)));
}

fn statement(kind: HirStatementKind) -> HirStatement {
    HirStatement { id: HirNodeId(0), kind, location: span((1, 0), (1, 4)) }
}

#[test]
fn statements_are_checked_in_order() {
    let mut m = valid_module();
    m.blocks[0].statements = vec![
        statement(HirStatementKind::Assign { target: HirPlace::Local(LocalId(0)), value: unit() }),
        statement(HirStatementKind::Expr(const_int(5))),
        statement(HirStatementKind::Drop(LocalId(1))),
    ];
    assert_eq!(validate_hir_declarations(&m), Ok(()));
    m.blocks[0].statements.push(statement(HirStatementKind::PushRuntimeFragment { vec_local: LocalId(8), value: unit() }));
    m.blocks[0].statements.push(statement(HirStatementKind::Drop(LocalId(9))));
    assert_eq!(validate_hir_declarations(&m), Err(CompilerError::UnknownLocalId(LocalId(8))));
}

#[test]
fn assignment_target_must_be_a_known_place() {
    let mut m = valid_module();
    m.blocks[1].statements = vec![statement(HirStatementKind::Assign { target: HirPlace::Local(LocalId(5)), value: unit() })];
    assert_eq!(validate_hir_declarations(&m), Err(CompilerError::UnknownLocalId(LocalId(5))));
}

#[test]
fn block_region_must_be_known() {
    let mut m = valid_module();
    m.blocks[1].region = RegionId(77);
    assert_eq!(validate_hir_declarations(&m), Err(CompilerError::UnknownRegionId(RegionId(77))));
}
