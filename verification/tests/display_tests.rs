use beanstalk_hir::hir_datatypes::{HirType, HirTypeKind, TypeContext, TypeId};
use beanstalk_hir::hir_display::{HirDisplayContext, HirDisplayOptions};
use beanstalk_hir::hir_nodes::{CallTarget, HirField, HirFunction, HirLocal, HirStruct, HostFunctionPath, ValueKind};
use beanstalk_hir::hir_side_table::HirSideTable;
use beanstalk_hir::ids::{BlockId, ChoiceId, ExternalTypeId, FieldId, FunctionId, HirNodeId, HirValueId, LocalId, RegionId, StructId};
use beanstalk_hir::string_table::StringTable;

fn ty(kind: HirTypeKind) -> HirType {
    HirType { kind }
}

#[test]
fn default_options() {
    let o = HirDisplayOptions::default();
    assert!(o.include_ids);
    assert!(o.include_types);
    assert!(!o.include_value_kinds);
    assert!(o.include_regions);
    assert!(o.multiline_match_arms);
}

#[test]
fn numeric_labels() {
    let table = StringTable::new();
    let d = HirDisplayContext::new(&table);
    assert_eq!(d.block_label(BlockId(3)), "bb3");
    assert_eq!(d.node_label(HirNodeId(17)), "n17");
    assert_eq!(d.value_label(HirValueId(0)), "v0");
    assert_eq!(d.region_label(RegionId(120)), "r120");
    assert_eq!(d.local_label(LocalId(2)), "l2");
    assert_eq!(d.function_label(FunctionId(0)), "fn0");
    assert_eq!(d.struct_label(StructId(4)), "struct4");
    assert_eq!(d.field_label(FieldId(5)), "field5");
    assert_eq!(d.choice_label(ChoiceId(6)), "choice6");
    assert_eq!(d.type_label(TypeId(9)), "t9");
}

#[test]
fn side_table_names_replace_numbers() {
    let mut table = StringTable::new();
    let counter = table.intern("counter");
    let main = table.intern("main");
    let point = table.intern("Point");
    let x = table.intern("x");
    let mut side = HirSideTable::new();
    side.bind_local_name(LocalId(0), counter);
    side.bind_function_name(FunctionId(1), main);
    side.bind_struct_name(StructId(2), point);
    side.bind_field_name(FieldId(3), x);
    side.bind_local_name(LocalId(7), 99);
    let d = HirDisplayContext::new(&table).with_side_table(&side);
    assert_eq!(d.local_label(LocalId(0)), "counter");
    assert_eq!(d.function_label(FunctionId(1)), "main");
    assert_eq!(d.struct_label(StructId(2)), "Point");
    assert_eq!(d.field_label(FieldId(3)), "x");
    // unbound ids and names the table does not hold fall back to numbers
    assert_eq!(d.local_label(LocalId(1)), "l1");
    assert_eq!(d.local_label(LocalId(7)), "l7");
    assert_eq!(side.resolve_local_name(LocalId(0), &table), Some("counter"));
    assert_eq!(side.resolve_local_name(LocalId(7), &table), None);
}

#[test]
fn rebinding_a_name_replaces_it() {
    let mut table = StringTable::new();
    let a = table.intern("a");
    let b = table.intern("b");
    let mut side = HirSideTable::new();
    side.bind_local_name(LocalId(0), a);
    side.bind_local_name(LocalId(0), b);
    assert_eq!(side.resolve_local_name(LocalId(0), &table), Some("b"));
}

#[test]
fn value_kind_labels() {
    let table = StringTable::new();
    let d = HirDisplayContext::new(&table);
    assert_eq!(d.value_kind_label(ValueKind::Place), "place");
    assert_eq!(d.value_kind_label(ValueKind::RValue), "rvalue");
    assert_eq!(d.value_kind_label(ValueKind::Const), "const");
}

#[test]
fn type_rendering_with_context() {
    let table = StringTable::new();
    let mut types = TypeContext::default();
    let int = types.insert(ty(HirTypeKind::Int));
    let boolean = types.insert(ty(HirTypeKind::Bool));
    let tuple = types.insert(ty(HirTypeKind::Tuple { fields: vec![int, boolean] }));
    let func = types.insert(ty(HirTypeKind::Function {
        receiver: Some(int),
        params: vec![boolean, int],
        returns: vec![int, boolean],
    }));
    let plain_fn = types.insert(ty(HirTypeKind::Function { receiver: None, params: Vec::new(), returns: Vec::new() }));
    let one_ret = types.insert(ty(HirTypeKind::Function { receiver: None, params: vec![int], returns: vec![boolean] }));
    let list = types.insert(ty(HirTypeKind::Collection { element: int }));
    let opt = types.insert(ty(HirTypeKind::Option { inner: list }));
    let res = types.insert(ty(HirTypeKind::Result { ok: int, err: boolean }));
    let unit = types.insert(ty(HirTypeKind::Unit));
    let empty_tuple = types.insert(ty(HirTypeKind::Tuple { fields: Vec::new() }));
    let st = types.insert(ty(HirTypeKind::Struct { struct_id: StructId(3) }));
    let ch = types.insert(ty(HirTypeKind::Choice { choice_id: ChoiceId(2) }));
    let ext = types.insert(ty(HirTypeKind::External { type_id: ExternalTypeId(5) }));
    let d = HirDisplayContext::new(&table).with_type_context(&types);
    assert_eq!(d.type_label(int), "Int");
    assert_eq!(d.type_label(tuple), "(Int, Bool)");
    assert_eq!(d.type_label(func), "fn(Int.Bool, Int)->(Int, Bool)");
    assert_eq!(d.type_label(plain_fn), "fn()->()");
    assert_eq!(d.type_label(one_ret), "fn(Int)->Bool");
    assert_eq!(d.type_label(list), "[Int]");
    assert_eq!(d.type_label(opt), "Option<[Int]>");
    assert_eq!(d.type_label(res), "Result<Int, Bool>");
    assert_eq!(d.type_label(unit), "()");
    assert_eq!(d.type_label(empty_tuple), "()");
    assert_eq!(d.type_label(st), "struct3");
    assert_eq!(d.type_label(ch), "choice2");
    assert_eq!(d.type_label(ext), "external5");
}

#[test]
fn cyclic_type_rendering_stops_at_depth_limit() {
    let table = StringTable::new();
    let mut types = TypeContext::default();
    // type 0 is a collection of itself
    let looped = types.insert(ty(HirTypeKind::Collection { element: TypeId(0) }));
    let d = HirDisplayContext::new(&table).with_type_context(&types);
    let mut expected = String::new();
    for _ in 0..24 {
        expected.push('[');
    }
    expected.push_str("t0");
    for _ in 0..24 {
        expected.push(']');
    }
    assert_eq!(d.type_label(looped), expected);
    assert_eq!(d.render_type_with_context(&types, looped, 24), "t0");
    assert_eq!(d.render_type_with_context(&types, looped, 23), "[t0]");
}

#[test]
fn struct_rendering() {
    let table = StringTable::new();
    let d = HirDisplayContext::new(&table);
    let s = HirStruct {
        id: StructId(1),
        fields: vec![HirField { id: FieldId(0), ty: TypeId(0) }, HirField { id: FieldId(1), ty: TypeId(2) }],
    };
    assert_eq!(d.render_struct(&s), "struct1 { field0: t0, field1: t2 }");
    assert_eq!(s.display_with_context(&d), "struct1 { field0: t0, field1: t2 }");
    let empty = HirStruct { id: StructId(2), fields: Vec::new() };
    assert_eq!(d.render_struct(&empty), "struct2 {  }");
    assert_eq!(d.render_field(&HirField { id: FieldId(4), ty: TypeId(1) }), "field4: t1");
}

#[test]
fn function_rendering() {
    let table = StringTable::new();
    let d = HirDisplayContext::new(&table);
    let f = HirFunction {
        id: FunctionId(0),
        entry: BlockId(2),
        params: vec![LocalId(0), LocalId(1)],
        return_type: TypeId(0),
        return_aliases: Vec::new(),
    };
    assert_eq!(d.render_function(&f), "fn0(l0, l1) -> t0 [entry: bb2]");
    assert_eq!(f.display_with_context(&d), "fn0(l0, l1) -> t0 [entry: bb2]");
}

#[test]
fn local_rendering() {
    let table = StringTable::new();
    let d = HirDisplayContext::new(&table);
    let local = HirLocal { id: LocalId(1), ty: TypeId(0), mutable: true, region: RegionId(2), source_info: None };
    assert_eq!(d.render_local(&local), "mut l1: t0 [r2]");
    let fixed = HirLocal { mutable: false, ..local };
    assert_eq!(d.render_local(&fixed), "l1: t0 [r2]");
}

#[test]
fn call_target_rendering() {
    let mut table = StringTable::new();
    let io = table.intern("io");
    let print = table.intern("print");
    let d = HirDisplayContext::new(&table);
    assert_eq!(d.render_call_target(&CallTarget::UserFunction(FunctionId(3))), "fn3");
    let host = CallTarget::HostFunction(HostFunctionPath { segments: vec![io, print] });
    assert_eq!(d.render_call_target(&host), "print");
}

#[test]
fn indented_lines() {
    let table = StringTable::new();
    let d = HirDisplayContext::new(&table);
    let mut out = String::from("x\n");
    d.push_indented_line(&mut out, 2, "a");
    assert_eq!(out, "x\n  a\n");
    let mut out = String::new();
    d.push_indented_multiline(&mut out, 3, "a\r\nb\n\nc");
    assert_eq!(out, "   a\n   b\n   \n   c\n");
    let mut out = String::new();
    d.push_indented_multiline(&mut out, 1, "one\ntwo\n");
    assert_eq!(out, " one\n two\n");
    let mut out = String::new();
    d.push_indented_multiline(&mut out, 1, "");
    assert_eq!(out, "");
    let mut out = String::new();
    d.push_indented_multiline(&mut out, 0, "a\rb\r");
    assert_eq!(out, "a\rb\r\n");
}

#[test]
fn host_path_without_segments_renders_its_empty_path() {
    let table = StringTable::new();
    let d = HirDisplayContext::new(&table);
    let host = CallTarget::HostFunction(HostFunctionPath { segments: Vec::new() });
    assert_eq!(d.render_call_target(&host), "");
}

#[test]
fn whole_host_path_is_joined_by_slashes() {
    let mut table = StringTable::new();
    let io = table.intern("io");
    let print = table.intern("print");
    let d = HirDisplayContext::new(&table);
    assert_eq!(d.render_path(&HostFunctionPath { segments: vec![io, print] }), "io/print");
    assert_eq!(d.render_path(&HostFunctionPath { segments: vec![print] }), "print");
}
