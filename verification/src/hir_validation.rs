//! Structural validation of the declarations of a HIR module: every region, block, local,
//! struct, field and function id is defined once, every parent region exists and the
//! region tree has no cycle, the start function exists and is the one tagged as the
//! entry start function, every function has an origin, documentation fragments have
//! ordered spans, module constants and their record fields have names, and every function
//! has a known entry block, return type and parameters and well-formed return aliases;
//! then that every block belongs to the control-flow graph of exactly one function; and
//! last that every block's locals, terminator, expressions, places and patterns are well
//! formed (see `body_validation`).
//!
//! Ids are collected in `FxHashSet`s and `FxHashMap`s keyed by the ids' numbers.

use vstd::prelude::*;
use rustc_hash::{FxHashMap, FxHashSet};
use crate::fx_collections::{
    fx_map_clear, fx_map_contains_key, fx_map_get, fx_map_insert, fx_map_len, fx_set_contains, fx_set_insert,
};
use crate::errors::CompilerError;
use crate::body_validation::outcome;
use crate::hir_datatypes::{HirType, HirTypeKind, TypeContext, TypeId};
use crate::hir_nodes::{
    terminator_target_seq, terminator_targets, HirConstField, HirConstValue, HirDocFragment,
    HirDocFragmentKind, HirFunction, HirFunctionOrigin, HirLocal, HirModuleConst, HirRegion,
    HirStatement, HirStruct, HirTerminator,
};
use std::collections::VecDeque;
use crate::text::{blank, is_blank};
use crate::ids::{BlockId, FieldId, FunctionId, LocalId, RegionId, StructId};

verus! {

// ============================================================================
// Module declarations
// ============================================================================

/// What validation reads of a block: its id, its region, its locals, its statements and
/// its terminator.
#[derive(Debug)]
pub struct HirBlockDecl {
    pub id: BlockId,
    pub region: RegionId,
    pub locals: Vec<HirLocal>,
    pub statements: Vec<HirStatement>,
    pub terminator: HirTerminator,
}

/// The declarations of a HIR module: blocks with their locals and terminators, functions,
/// structs, the type context, the start function with the origin of every function,
/// documentation fragments, module constants, and the region tree.
#[derive(Debug)]
pub struct HirModuleDecls {
    pub blocks: Vec<HirBlockDecl>,
    pub functions: Vec<HirFunction>,
    pub structs: Vec<HirStruct>,
    pub type_context: TypeContext,
    pub start_function: FunctionId,
    /// The origin of each function, by function id.
    pub function_origins: FxHashMap<u32, HirFunctionOrigin>,
    pub doc_fragments: Vec<HirDocFragment>,
    pub module_constants: Vec<HirModuleConst>,
    pub regions: Vec<HirRegion>,
}

impl HirModuleDecls {
    /// An empty module: no blocks, functions, structs, types, origins, fragments, constants
    /// or regions, with function 0 as the start function.
    pub fn new() -> (m: Self)
        ensures
            m.blocks@ == Seq::<HirBlockDecl>::empty(),
            m.functions@ == Seq::<HirFunction>::empty(),
            m.structs@ == Seq::<HirStruct>::empty(),
            m.type_context@ == Seq::<HirType>::empty(),
            m.start_function == FunctionId(0),
            m.function_origins@ == Map::<u32, HirFunctionOrigin>::empty(),
            m.doc_fragments@ == Seq::<HirDocFragment>::empty(),
            m.module_constants@ == Seq::<HirModuleConst>::empty(),
            m.regions@ == Seq::<HirRegion>::empty(),
    {
        HirModuleDecls {
            blocks: Vec::new(),
            functions: Vec::new(),
            structs: Vec::new(),
            type_context: TypeContext::default(),
            start_function: FunctionId(0),
            function_origins: FxHashMap::default(),
            doc_fragments: Vec::new(),
            module_constants: Vec::new(),
            regions: Vec::new(),
        }
    }
}

// ============================================================================
// Specification
// ============================================================================

/// The first element of `s` that occurred before it, in `seen` or earlier in `s`.
pub open spec fn first_repeat(s: Seq<u32>, seen: Set<u32>) -> Option<u32>
    decreases s.len(),
{
    if s.len() == 0 {
        None
    } else {
        match first_repeat(s.drop_last(), seen) {
            Some(x) => Some(x),
            None => if seen.contains(s.last()) || s.drop_last().contains(s.last()) {
                Some(s.last())
            } else {
                None
            },
        }
    }
}

/// The numbers of the regions' ids, in order.
pub open spec fn region_numbers(regions: Seq<HirRegion>) -> Seq<u32> {
    regions.map_values(|r: HirRegion| r.spec_id().0)
}

/// The numbers of the functions' ids, in order.
pub open spec fn function_numbers(functions: Seq<HirFunction>) -> Seq<u32> {
    functions.map_values(|f: HirFunction| f.id.0)
}

/// The numbers of the blocks' ids, in order.
pub open spec fn block_numbers(blocks: Seq<HirBlockDecl>) -> Seq<u32> {
    blocks.map_values(|b: HirBlockDecl| b.id.0)
}

/// The numbers of the locals' ids, in order.
pub open spec fn local_numbers(locals: Seq<HirLocal>) -> Seq<u32> {
    locals.map_values(|l: HirLocal| l.id.0)
}

/// The numbers of the ids of all locals of `blocks`, block by block.
pub open spec fn all_local_numbers(blocks: Seq<HirBlockDecl>) -> Seq<u32>
    decreases blocks.len(),
{
    if blocks.len() == 0 {
        Seq::empty()
    } else {
        all_local_numbers(blocks.drop_last()) + local_numbers(blocks.last().locals@)
    }
}

/// The numbers of the structs' ids, in order.
pub open spec fn struct_numbers(structs: Seq<HirStruct>) -> Seq<u32> {
    structs.map_values(|s: HirStruct| s.id.0)
}

/// The numbers of the fields' ids, in order.
pub open spec fn field_numbers(fields: Seq<crate::hir_nodes::HirField>) -> Seq<u32> {
    fields.map_values(|f: crate::hir_nodes::HirField| f.id.0)
}

/// The numbers of the ids of all fields of `structs`, struct by struct.
pub open spec fn all_field_numbers(structs: Seq<HirStruct>) -> Seq<u32>
    decreases structs.len(),
{
    if structs.len() == 0 {
        Seq::empty()
    } else {
        all_field_numbers(structs.drop_last()) + field_numbers(structs.last().fields@)
    }
}

/// The first repeated block id or local id, in the order blocks and their locals come.
pub open spec fn blocks_error(blocks: Seq<HirBlockDecl>) -> Option<CompilerError>
    decreases blocks.len(),
{
    if blocks.len() == 0 {
        None
    } else {
        let prev = blocks.drop_last();
        let b = blocks.last();
        match blocks_error(prev) {
            Some(e) => Some(e),
            None => if block_numbers(prev).contains(b.id.0) {
                Some(CompilerError::DuplicateBlockId(b.id))
            } else {
                match first_repeat(local_numbers(b.locals@), all_local_numbers(prev).to_set()) {
                    Some(x) => Some(CompilerError::DuplicateLocalId(LocalId(x))),
                    None => None,
                }
            },
        }
    }
}

/// The first repeated struct id or field id, in the order structs and their fields come.
pub open spec fn structs_error(structs: Seq<HirStruct>) -> Option<CompilerError>
    decreases structs.len(),
{
    if structs.len() == 0 {
        None
    } else {
        let prev = structs.drop_last();
        let s = structs.last();
        match structs_error(prev) {
            Some(e) => Some(e),
            None => if struct_numbers(prev).contains(s.id.0) {
                Some(CompilerError::DuplicateStructId(s.id))
            } else {
                match first_repeat(field_numbers(s.fields@), all_field_numbers(prev).to_set()) {
                    Some(x) => Some(CompilerError::DuplicateFieldId(FieldId(x))),
                    None => None,
                }
            },
        }
    }
}

/// The first repeated id among the declarations: regions first, then blocks with their
/// locals, structs with their fields, and functions.
pub open spec fn definition_error(m: HirModuleDecls) -> Option<CompilerError> {
    match first_repeat(region_numbers(m.regions@), Set::empty()) {
        Some(x) => Some(CompilerError::DuplicateRegionId(RegionId(x))),
        None => match blocks_error(m.blocks@) {
            Some(e) => Some(e),
            None => match structs_error(m.structs@) {
                Some(e) => Some(e),
                None => match first_repeat(function_numbers(m.functions@), Set::empty()) {
                    Some(x) => Some(CompilerError::DuplicateFunctionId(FunctionId(x))),
                    None => None,
                },
            },
        },
    }
}

/// The first function (in order) without an origin entry.
pub open spec fn first_without_origin(functions: Seq<HirFunction>, origins: Map<u32, HirFunctionOrigin>) -> Option<FunctionId>
    decreases functions.len(),
{
    if functions.len() == 0 {
        None
    } else {
        match first_without_origin(functions.drop_last(), origins) {
            Some(f) => Some(f),
            None => if origins.contains_key(functions.last().id.0) {
                None
            } else {
                Some(functions.last().id)
            },
        }
    }
}

/// The origin check: one origin per function, every function has one, and the start
/// function's is `EntryStart`.
pub open spec fn origins_error(
    functions: Seq<HirFunction>,
    origins: Map<u32, HirFunctionOrigin>,
    start: FunctionId,
) -> Option<CompilerError> {
    if origins.len() != functions.len() {
        Some(CompilerError::FunctionOriginCount { origins: origins.len() as usize, functions: functions.len() as usize })
    } else {
        match first_without_origin(functions, origins) {
            Some(f) => Some(CompilerError::MissingFunctionOrigin(f)),
            None => if origins.contains_key(start.0) && origins[start.0] == HirFunctionOrigin::EntryStart {
                None
            } else {
                Some(CompilerError::StartFunctionNotEntry(start))
            },
        }
    }
}

/// The check of one documentation fragment at `index`: a documentation fragment may not
/// start on a later line than it ends, and no fragment on a single line may start in a
/// later column than it ends.
pub open spec fn fragment_error(fragment: HirDocFragment, index: int) -> Option<CompilerError> {
    let start = fragment.location.start_pos;
    let end = fragment.location.end_pos;
    if fragment.kind == HirDocFragmentKind::Doc && start.line_number > end.line_number {
        Some(CompilerError::DocFragmentLines { index: index as usize, start_line: start.line_number, end_line: end.line_number })
    } else if start.line_number == end.line_number && start.char_column > end.char_column {
        Some(CompilerError::DocFragmentColumns {
            index: index as usize,
            start_column: start.char_column,
            end_column: end.char_column,
        })
    } else {
        None
    }
}

/// The first failing documentation fragment check, in order.
pub open spec fn fragments_error(fragments: Seq<HirDocFragment>) -> Option<CompilerError>
    decreases fragments.len(),
{
    if fragments.len() == 0 {
        None
    } else {
        match fragments_error(fragments.drop_last()) {
            Some(e) => Some(e),
            None => fragment_error(fragments.last(), fragments.len() - 1),
        }
    }
}

/// The first record field with a blank name inside a constant value, in order.
pub open spec fn const_value_error(v: HirConstValue) -> Option<CompilerError>
    decreases v, 1int,
{
    match v {
        HirConstValue::Collection(values) => const_values_error(values@),
        HirConstValue::Record(fields) => const_fields_error(fields@),
        HirConstValue::Range(start, end) => match const_value_error(*start) {
            Some(e) => Some(e),
            None => const_value_error(*end),
        },
        HirConstValue::Result { variant, value } => const_value_error(*value),
        _ => None,
    }
}

/// The first error among constant values, in order.
pub open spec fn const_values_error(values: Seq<HirConstValue>) -> Option<CompilerError>
    decreases values, 0int,
{
    if values.len() == 0 {
        None
    } else {
        match const_values_error(values.drop_last()) {
            Some(e) => Some(e),
            None => const_value_error(values.last()),
        }
    }
}

/// The first error among record fields, in order: a blank name, or an error in the value.
pub open spec fn const_fields_error(fields: Seq<HirConstField>) -> Option<CompilerError>
    decreases fields, 0int,
{
    if fields.len() == 0 {
        None
    } else {
        match const_fields_error(fields.drop_last()) {
            Some(e) => Some(e),
            None => if blank(fields.last().name@) {
                Some(CompilerError::EmptyConstantFieldName)
            } else {
                const_value_error(fields.last().value)
            },
        }
    }
}

/// The checks of one module constant: a name that is not blank, a known type, and a value
/// whose record fields have names that are not blank.
pub open spec fn constant_error(c: HirModuleConst, types: Seq<HirType>) -> Option<CompilerError> {
    if blank(c.name@) {
        Some(CompilerError::EmptyConstantName(c.id))
    } else if (c.ty.0 as int) >= types.len() {
        Some(CompilerError::UnknownTypeId(c.ty))
    } else {
        const_value_error(c.value)
    }
}

/// The first failing module constant check, in order.
pub open spec fn constants_error(constants: Seq<HirModuleConst>, types: Seq<HirType>) -> Option<CompilerError>
    decreases constants.len(),
{
    if constants.len() == 0 {
        None
    } else {
        match constants_error(constants.drop_last(), types) {
            Some(e) => Some(e),
            None => constant_error(constants.last(), types),
        }
    }
}

/// The type of each local of `locals`, entered into `m` in order.
pub open spec fn locals_into(m: Map<u32, TypeId>, locals: Seq<HirLocal>) -> Map<u32, TypeId>
    decreases locals.len(),
{
    if locals.len() == 0 {
        m
    } else {
        locals_into(m, locals.drop_last()).insert(locals.last().id.0, locals.last().ty)
    }
}

/// The type of each local of `blocks`, by local id number.
pub open spec fn local_type_map(blocks: Seq<HirBlockDecl>) -> Map<u32, TypeId>
    decreases blocks.len(),
{
    if blocks.len() == 0 {
        Map::empty()
    } else {
        locals_into(local_type_map(blocks.drop_last()), blocks.last().locals@)
    }
}

/// The type and owner of each field of `fields` (of struct `owner`), entered into `types`
/// and `owners` in order.
pub open spec fn fields_into(
    types: Map<u32, TypeId>,
    owners: Map<u32, StructId>,
    fields: Seq<crate::hir_nodes::HirField>,
    owner: StructId,
) -> (Map<u32, TypeId>, Map<u32, StructId>)
    decreases fields.len(),
{
    if fields.len() == 0 {
        (types, owners)
    } else {
        let (t, o) = fields_into(types, owners, fields.drop_last(), owner);
        (t.insert(fields.last().id.0, fields.last().ty), o.insert(fields.last().id.0, owner))
    }
}

/// The type and owning struct of each field of `structs`, by field id number.
pub open spec fn field_maps(structs: Seq<HirStruct>) -> (Map<u32, TypeId>, Map<u32, StructId>)
    decreases structs.len(),
{
    if structs.len() == 0 {
        (Map::empty(), Map::empty())
    } else {
        let (t, o) = field_maps(structs.drop_last());
        fields_into(t, o, structs.last().fields@, structs.last().id)
    }
}

/// Each element of `s` mapped to its position.
pub open spec fn index_map(s: Seq<u32>) -> Map<u32, usize>
    decreases s.len(),
{
    if s.len() == 0 {
        Map::empty()
    } else {
        index_map(s.drop_last()).insert(s.last(), (s.len() - 1) as usize)
    }
}

/// Taking one more element of a sequence adds that element.
pub proof fn lemma_take_next(s: Seq<u32>, i: int)
    requires
        0 <= i < s.len(),
    ensures
        s.take(i + 1).drop_last() == s.take(i),
        s.take(i + 1).last() == s[i],
        s.take(i + 1).to_set() == s.take(i).to_set().insert(s[i]),
        s.take(i).contains(s[i]) <==> s.take(i).to_set().contains(s[i]),
{
    assert(s.take(i + 1).drop_last() =~= s.take(i));
    assert(s.take(i + 1).to_set() =~= s.take(i).to_set().insert(s[i])) by {
        assert forall|x: u32| s.take(i + 1).to_set().contains(x) <==> s.take(i).to_set().insert(s[i]).contains(x) by {
            if s.take(i + 1).contains(x) {
                let j = choose|j: int| 0 <= j < i + 1 && #[trigger] s.take(i + 1)[j] == x;
                if j < i {
                    assert(s.take(i)[j] == x);
                }
            }
            if s.take(i).contains(x) {
                let j = choose|j: int| 0 <= j < i && #[trigger] s.take(i)[j] == x;
                assert(s.take(i + 1)[j] == x);
            }
            if x == s[i] {
                assert(s.take(i + 1)[i] == x);
            }
        }
    }
}

/// Once a prefix has a repeat, the whole sequence has the same first repeat.
pub proof fn lemma_first_repeat_prefix(s: Seq<u32>, seen: Set<u32>, k: int)
    requires
        0 <= k <= s.len(),
        first_repeat(s.take(k), seen) is Some,
    ensures
        first_repeat(s, seen) == first_repeat(s.take(k), seen),
    decreases s.len(),
{
    if k == s.len() {
        assert(s.take(k) =~= s);
    } else {
        assert(s.drop_last().take(k) =~= s.take(k));
        lemma_first_repeat_prefix(s.drop_last(), seen, k);
    }
}

/// Without a repeat, the elements are distinct and none was seen.
pub proof fn lemma_first_repeat_none(s: Seq<u32>, seen: Set<u32>)
    requires
        first_repeat(s, seen) is None,
    ensures
        s.no_duplicates(),
        forall|i: int| 0 <= i < s.len() ==> !seen.contains(#[trigger] s[i]),
    decreases s.len(),
{
    if s.len() > 0 {
        let d = s.drop_last();
        lemma_first_repeat_none(d, seen);
        assert forall|i: int, j: int| 0 <= i < j < s.len() implies s[i] != s[j] by {
            if j == s.len() - 1 {
                assert(d[i] == s[i]);
                assert(!d.contains(s.last()));
            } else {
                assert(d[i] == s[i] && d[j] == s[j]);
            }
        }
        assert forall|i: int| 0 <= i < s.len() implies !seen.contains(#[trigger] s[i]) by {
            if i < s.len() - 1 {
                assert(d[i] == s[i]);
            }
        }
    }
}

/// The parent of each region, by region id number (a later region with the same id
/// replaces an earlier one).
pub open spec fn parent_map(regions: Seq<HirRegion>) -> Map<u32, Option<RegionId>>
    decreases regions.len(),
{
    if regions.len() == 0 {
        Map::empty()
    } else {
        parent_map(regions.drop_last()).insert(regions.last().spec_id().0, regions.last().spec_parent())
    }
}

/// The first region (in order) whose parent is not among `ids`.
pub open spec fn missing_parent(regions: Seq<HirRegion>, ids: Set<u32>) -> Option<CompilerError>
    decreases regions.len(),
{
    if regions.len() == 0 {
        None
    } else {
        match missing_parent(regions.drop_last(), ids) {
            Some(e) => Some(e),
            None => match regions.last().spec_parent() {
                Some(p) => if ids.contains(p.0) {
                    None
                } else {
                    Some(CompilerError::MissingParentRegion { region: regions.last().spec_id(), parent: p })
                },
                None => None,
            },
        }
    }
}

/// The region after `r` when following parents: its parent, when `r` is a known region
/// that has one.
pub open spec fn next_region(parents: Map<u32, Option<RegionId>>, r: u32) -> Option<u32> {
    if parents.contains_key(r) {
        match parents[r] {
            Some(p) => Some(p.0),
            None => None,
        }
    } else {
        None
    }
}

/// Following parents from `current`, having visited `seen`: the first region reached a
/// second time, or `None` when the walk reaches a region without parent (or has taken
/// `fuel` further steps).
pub open spec fn revisit(parents: Map<u32, Option<RegionId>>, current: Option<u32>, seen: Set<u32>, fuel: nat) -> Option<u32>
    decreases fuel,
{
    match current {
        None => None,
        Some(r) => if seen.contains(r) {
            Some(r)
        } else if fuel == 0 {
            None
        } else {
            revisit(parents, next_region(parents, r), seen.insert(r), (fuel - 1) as nat)
        },
    }
}

/// The region at which following parents from `start` first comes back to a region it
/// already visited, or `None` when the walk ends. A walk among n known regions revisits
/// one within n + 1 steps, which is the bound given here.
pub open spec fn cycle_from(parents: Map<u32, Option<RegionId>>, start: u32) -> Option<u32> {
    revisit(parents, Some(start), Set::empty(), parents.dom().len() + 1)
}

/// The first region (in order) from which following parents comes back to a region.
pub open spec fn cycle_error(regions: Seq<HirRegion>, parents: Map<u32, Option<RegionId>>) -> Option<CompilerError>
    decreases regions.len(),
{
    if regions.len() == 0 {
        None
    } else {
        match cycle_error(regions.drop_last(), parents) {
            Some(e) => Some(e),
            None => match cycle_from(parents, regions.last().spec_id().0) {
                Some(x) => Some(CompilerError::RegionCycle(RegionId(x))),
                None => None,
            },
        }
    }
}

/// The region graph check: every parent is a known region, then no walk along parents
/// comes back to a region.
pub open spec fn region_graph_error(regions: Seq<HirRegion>, ids: Set<u32>) -> Option<CompilerError> {
    match missing_parent(regions, ids) {
        Some(e) => Some(e),
        None => cycle_error(regions, parent_map(regions)),
    }
}

/// The parent map holds exactly the regions' ids, each with the parent of a region that
/// has that id.
pub proof fn lemma_parent_map(regions: Seq<HirRegion>)
    ensures
        parent_map(regions).dom() == region_numbers(regions).to_set(),
        parent_map(regions).dom().finite(),
        forall|r: u32| #[trigger] parent_map(regions).contains_key(r) ==> exists|i: int|
            0 <= i < regions.len() && regions[i].spec_id().0 == r && parent_map(regions)[r] == regions[i].spec_parent(),
    decreases regions.len(),
{
    if regions.len() > 0 {
        let d = regions.drop_last();
        lemma_parent_map(d);
        assert(region_numbers(regions) =~= region_numbers(d).push(regions.last().spec_id().0));
        assert(parent_map(regions).dom() =~= region_numbers(regions).to_set()) by {
            assert forall|x: u32| parent_map(regions).dom().contains(x) <==> region_numbers(regions).to_set().contains(x) by {
                if region_numbers(d).contains(x) {
                    let k = choose|k: int| 0 <= k < region_numbers(d).len() && #[trigger] region_numbers(d)[k] == x;
                    assert(region_numbers(regions)[k] == x);
                }
                if region_numbers(regions).contains(x) && x != regions.last().spec_id().0 {
                    let k = choose|k: int| 0 <= k < region_numbers(regions).len() && #[trigger] region_numbers(regions)[k] == x;
                    assert(region_numbers(d)[k] == x);
                }
                if x == regions.last().spec_id().0 {
                    assert(region_numbers(regions)[regions.len() - 1] == x);
                }
            }
        }
        assert forall|r: u32| #[trigger] parent_map(regions).contains_key(r) implies exists|i: int|
            0 <= i < regions.len() && regions[i].spec_id().0 == r && parent_map(regions)[r] == regions[i].spec_parent() by {
            if r == regions.last().spec_id().0 {
                assert(regions[regions.len() - 1].spec_id().0 == r);
            } else {
                assert(parent_map(d).contains_key(r));
                let i = choose|i: int| 0 <= i < d.len() && d[i].spec_id().0 == r && parent_map(d)[r] == d[i].spec_parent();
                assert(regions[i] == d[i]);
            }
        }
    } else {
        assert(parent_map(regions).dom() =~= Set::<u32>::empty());
        assert(region_numbers(regions).to_set() =~= Set::<u32>::empty());
    }
}

/// Without a missing parent, every region's parent is among `ids`.
pub proof fn lemma_missing_parent_none(regions: Seq<HirRegion>, ids: Set<u32>)
    requires
        missing_parent(regions, ids) is None,
    ensures
        forall|i: int| 0 <= i < regions.len() ==> ((#[trigger] regions[i]).spec_parent() matches Some(p) ==> ids.contains(p.0)),
    decreases regions.len(),
{
    if regions.len() > 0 {
        lemma_missing_parent_none(regions.drop_last(), ids);
        assert forall|i: int| 0 <= i < regions.len() implies ((#[trigger] regions[i]).spec_parent() matches Some(p) ==> ids.contains(p.0)) by {
            if i < regions.len() - 1 {
                assert(regions.drop_last()[i] == regions[i]);
            }
        }
    }
}

/// Once a prefix of the regions has a missing parent, all of them have the same first one.
pub proof fn lemma_missing_parent_prefix(regions: Seq<HirRegion>, ids: Set<u32>, k: int)
    requires
        0 <= k <= regions.len(),
        missing_parent(regions.take(k), ids) is Some,
    ensures
        missing_parent(regions, ids) == missing_parent(regions.take(k), ids),
    decreases regions.len(),
{
    if k == regions.len() {
        assert(regions.take(k) =~= regions);
    } else {
        assert(regions.drop_last().take(k) =~= regions.take(k));
        lemma_missing_parent_prefix(regions.drop_last(), ids, k);
    }
}

/// Once a prefix of the regions has a cycle, all of them have the same first one.
pub proof fn lemma_cycle_error_prefix(regions: Seq<HirRegion>, parents: Map<u32, Option<RegionId>>, k: int)
    requires
        0 <= k <= regions.len(),
        cycle_error(regions.take(k), parents) is Some,
    ensures
        cycle_error(regions, parents) == cycle_error(regions.take(k), parents),
    decreases regions.len(),
{
    if k == regions.len() {
        assert(regions.take(k) =~= regions);
    } else {
        assert(regions.drop_last().take(k) =~= regions.take(k));
        lemma_cycle_error_prefix(regions.drop_last(), parents, k);
    }
}

/// The number of return alias slots a returned value of type `ty` has: none for the unit
/// type, one per field of a tuple, and one otherwise.
pub open spec fn value_slots(types: Seq<HirType>, ty: TypeId) -> Result<usize, CompilerError> {
    if (ty.0 as int) < types.len() {
        Ok(
            match types[ty.0 as int].kind {
                HirTypeKind::Unit => 0usize,
                HirTypeKind::Tuple { fields } => fields@.len() as usize,
                _ => 1usize,
            },
        )
    } else {
        Err(CompilerError::UnknownTypeId(ty))
    }
}

/// The number of return alias slots of a function returning `ret`: those of the success
/// type of a result, and of the returned type otherwise.
pub open spec fn expected_slots(types: Seq<HirType>, ret: TypeId) -> Result<usize, CompilerError> {
    if (ret.0 as int) < types.len() {
        match types[ret.0 as int].kind {
            HirTypeKind::Result { ok, .. } => value_slots(types, ok),
            _ => value_slots(types, ret),
        }
    } else {
        Err(CompilerError::UnknownTypeId(ret))
    }
}

/// Law: the number of return alias slots follows the shape of the returned value's type
/// alone: a unit value has none, a tuple one per field, and a value of any other kind
/// (option, collection, scalar, struct, ...) exactly one; an unknown type id is refused.
/// A function returning a result has the slots of its success type; any other function
/// those of its return type.
pub proof fn lemma_alias_slots_by_shape(types: Seq<HirType>, ty: TypeId)
    ensures
        (ty.0 as int) >= types.len() ==> value_slots(types, ty) == Err::<usize, CompilerError>(CompilerError::UnknownTypeId(ty))
            && expected_slots(types, ty) == Err::<usize, CompilerError>(CompilerError::UnknownTypeId(ty)),
        (ty.0 as int) < types.len() ==> {
            let kind = types[ty.0 as int].kind;
            &&& kind is Unit ==> value_slots(types, ty) == Ok::<usize, CompilerError>(0)
            &&& kind matches HirTypeKind::Tuple { fields } ==> value_slots(types, ty) == Ok::<usize, CompilerError>(
                fields@.len() as usize,
            )
            &&& !(kind is Unit) && !(kind is Tuple) ==> value_slots(types, ty) == Ok::<usize, CompilerError>(1)
            &&& kind matches HirTypeKind::Result { ok, .. } ==> expected_slots(types, ty) == value_slots(types, ok)
            &&& !(kind is Result) ==> expected_slots(types, ty) == value_slots(types, ty)
        },
{
}

/// The first parameter index of a return alias slot that is out of range or repeated.
pub open spec fn alias_list_error(function: FunctionId, slot: int, list: Seq<usize>, param_count: nat) -> Option<CompilerError>
    decreases list.len(),
{
    if list.len() == 0 {
        None
    } else {
        match alias_list_error(function, slot, list.drop_last(), param_count) {
            Some(e) => Some(e),
            None => {
                let index = list.last();
                if index >= param_count {
                    Some(CompilerError::ReturnAliasOutOfRange { function, slot: slot as usize, index })
                } else if list.drop_last().contains(index) {
                    Some(CompilerError::DuplicateReturnAlias { function, slot: slot as usize, index })
                } else {
                    None
                }
            },
        }
    }
}

/// The first failing return alias slot: an empty list, or a bad parameter index.
pub open spec fn aliases_error(function: FunctionId, slots: Seq<Option<Vec<usize>>>, param_count: nat) -> Option<CompilerError>
    decreases slots.len(),
{
    if slots.len() == 0 {
        None
    } else {
        match aliases_error(function, slots.drop_last(), param_count) {
            Some(e) => Some(e),
            None => match slots.last() {
                None => None,
                Some(list) => if list@.len() == 0 {
                    Some(CompilerError::EmptyReturnAlias { function, slot: (slots.len() - 1) as usize })
                } else {
                    alias_list_error(function, slots.len() - 1, list@, param_count)
                },
            },
        }
    }
}

/// The first parameter that is not a known local.
pub open spec fn unknown_param(params: Seq<LocalId>, locals: Set<u32>) -> Option<LocalId>
    decreases params.len(),
{
    if params.len() == 0 {
        None
    } else {
        match unknown_param(params.drop_last(), locals) {
            Some(l) => Some(l),
            None => if locals.contains(params.last().0) {
                None
            } else {
                Some(params.last())
            },
        }
    }
}

/// The checks of one function: a known entry block, a known return type, as many return
/// alias slots as the return type calls for, well-formed slots, and known parameters.
pub open spec fn function_error(f: HirFunction, blocks: Set<u32>, locals: Set<u32>, types: Seq<HirType>) -> Option<CompilerError> {
    if !blocks.contains(f.entry.0) {
        Some(CompilerError::UnknownBlockId(f.entry))
    } else if (f.return_type.0 as int) >= types.len() {
        Some(CompilerError::UnknownTypeId(f.return_type))
    } else {
        match expected_slots(types, f.return_type) {
            Err(e) => Some(e),
            Ok(n) => if f.return_aliases@.len() != n {
                Some(CompilerError::ReturnAliasCount { function: f.id, slots: f.return_aliases@.len() as usize, expected: n })
            } else {
                match aliases_error(f.id, f.return_aliases@, f.params@.len()) {
                    Some(e) => Some(e),
                    None => match unknown_param(f.params@, locals) {
                        Some(l) => Some(CompilerError::UnknownLocalId(l)),
                        None => None,
                    },
                }
            },
        }
    }
}

/// The first failing function check, in order.
pub open spec fn functions_error(functions: Seq<HirFunction>, blocks: Set<u32>, locals: Set<u32>, types: Seq<HirType>) -> Option<CompilerError>
    decreases functions.len(),
{
    if functions.len() == 0 {
        None
    } else {
        match functions_error(functions.drop_last(), blocks, locals, types) {
            Some(e) => Some(e),
            None => function_error(functions.last(), blocks, locals, types),
        }
    }
}

/// Once a prefix of a list has an error, the list has the same first one.
pub proof fn lemma_alias_list_error_prefix(function: FunctionId, slot: int, list: Seq<usize>, param_count: nat, k: int)
    requires
        0 <= k <= list.len(),
        alias_list_error(function, slot, list.take(k), param_count) is Some,
    ensures
        alias_list_error(function, slot, list, param_count) == alias_list_error(function, slot, list.take(k), param_count),
    decreases list.len(),
{
    if k == list.len() {
        assert(list.take(k) =~= list);
    } else {
        assert(list.drop_last().take(k) =~= list.take(k));
        lemma_alias_list_error_prefix(function, slot, list.drop_last(), param_count, k);
    }
}

/// Once a prefix of the slots has an error, the slots have the same first one.
pub proof fn lemma_aliases_error_prefix(function: FunctionId, slots: Seq<Option<Vec<usize>>>, param_count: nat, k: int)
    requires
        0 <= k <= slots.len(),
        aliases_error(function, slots.take(k), param_count) is Some,
    ensures
        aliases_error(function, slots, param_count) == aliases_error(function, slots.take(k), param_count),
    decreases slots.len(),
{
    if k == slots.len() {
        assert(slots.take(k) =~= slots);
    } else {
        assert(slots.drop_last().take(k) =~= slots.take(k));
        lemma_aliases_error_prefix(function, slots.drop_last(), param_count, k);
    }
}

/// Once a prefix of the parameters has an unknown one, the parameters have the same first
/// one.
pub proof fn lemma_unknown_param_prefix(params: Seq<LocalId>, locals: Set<u32>, k: int)
    requires
        0 <= k <= params.len(),
        unknown_param(params.take(k), locals) is Some,
    ensures
        unknown_param(params, locals) == unknown_param(params.take(k), locals),
    decreases params.len(),
{
    if k == params.len() {
        assert(params.take(k) =~= params);
    } else {
        assert(params.drop_last().take(k) =~= params.take(k));
        lemma_unknown_param_prefix(params.drop_last(), locals, k);
    }
}

/// Once a prefix of the functions fails, all of them fail with the same error.
pub proof fn lemma_functions_error_prefix(functions: Seq<HirFunction>, blocks: Set<u32>, locals: Set<u32>, types: Seq<HirType>, k: int)
    requires
        0 <= k <= functions.len(),
        functions_error(functions.take(k), blocks, locals, types) is Some,
    ensures
        functions_error(functions, blocks, locals, types) == functions_error(functions.take(k), blocks, locals, types),
    decreases functions.len(),
{
    if k == functions.len() {
        assert(functions.take(k) =~= functions);
    } else {
        assert(functions.drop_last().take(k) =~= functions.take(k));
        lemma_functions_error_prefix(functions.drop_last(), blocks, locals, types, k);
    }
}

/// The declaration checks in the order they run: unique ids, the region tree, the start
/// function, the function origins, the documentation fragments, the module constants, and
/// the functions.
pub open spec fn declarations_error(m: HirModuleDecls) -> Option<CompilerError> {
    match definition_error(m) {
        Some(e) => Some(e),
        None => match region_graph_error(m.regions@, region_numbers(m.regions@).to_set()) {
            Some(e) => Some(e),
            None => if !function_numbers(m.functions@).to_set().contains(m.start_function.0) {
                Some(CompilerError::MissingStartFunction(m.start_function))
            } else {
                match origins_error(m.functions@, m.function_origins@, m.start_function) {
                    Some(e) => Some(e),
                    None => match fragments_error(m.doc_fragments@) {
                        Some(e) => Some(e),
                        None => match constants_error(m.module_constants@, m.type_context@) {
                            Some(e) => Some(e),
                            None => functions_error(
                                m.functions@,
                                block_numbers(m.blocks@).to_set(),
                                local_type_map(m.blocks@).dom(),
                                m.type_context@,
                            ),
                        },
                    },
                }
            },
        },
    }
}

// ============================================================================
// Control-flow ownership
// ============================================================================

/// Whether `b` is the number of a declared block.
pub open spec fn known_block(m: HirModuleDecls, b: u32) -> bool {
    block_numbers(m.blocks@).contains(b)
}

/// The numbers of the blocks a terminator can pass control to.
pub open spec fn target_numbers(t: HirTerminator) -> Seq<u32> {
    terminator_target_seq(t).map_values(|b: BlockId| b.0)
}

/// The block declared with number `b` (the last one with that number).
pub open spec fn declared_block(m: HirModuleDecls, b: u32) -> HirBlockDecl {
    m.blocks@[index_map(block_numbers(m.blocks@))[b] as int]
}

/// The numbers of the blocks that declared block `b` passes control to.
pub open spec fn block_successors(m: HirModuleDecls, b: u32) -> Seq<u32> {
    target_numbers(declared_block(m, b).terminator)
}

/// Step `k` of a path follows an edge: `path[k]` is a declared block that passes control to
/// `path[k + 1]`.
pub open spec fn cfg_step(m: HirModuleDecls, path: Seq<u32>, k: int) -> bool {
    known_block(m, path[k]) && block_successors(m, path[k]).contains(path[k + 1])
}

/// A walk through the control-flow graph.
pub open spec fn cfg_path(m: HirModuleDecls, path: Seq<u32>) -> bool {
    &&& path.len() > 0
    &&& forall|k: int| 0 <= k < path.len() - 1 ==> #[trigger] cfg_step(m, path, k)
}

/// Whether a walk leads from block `from` to block `to` (every block reaches itself).
pub open spec fn cfg_reaches(m: HirModuleDecls, from: u32, to: u32) -> bool {
    exists|path: Seq<u32>| #[trigger] cfg_path(m, path) && path[0] == from && path.last() == to
}

/// Whether the entry block of the `i`-th function reaches block `b`.
pub open spec fn function_reaches(m: HirModuleDecls, i: int, b: u32) -> bool {
    cfg_reaches(m, m.functions@[i].entry.0, b)
}

/// Every block belongs to the control-flow graph of exactly one function: every block that
/// a function's entry reaches is declared, no block is reached from two functions with
/// different ids, and every declared block is reached from some function.
pub open spec fn cfg_owned(m: HirModuleDecls) -> bool {
    &&& forall|i: int, b: u32| 0 <= i < m.functions@.len() && #[trigger] function_reaches(m, i, b) ==> known_block(m, b)
    &&& forall|i: int, j: int, b: u32|
        0 <= i < m.functions@.len() && 0 <= j < m.functions@.len() && #[trigger] function_reaches(m, i, b)
            && #[trigger] function_reaches(m, j, b) ==> m.functions@[i].id == m.functions@[j].id
    &&& forall|b: u32| #[trigger] known_block(m, b) ==> exists|i: int| 0 <= i < m.functions@.len() && #[trigger] function_reaches(m, i, b)
}

/// Block `b` is reached from the entry of the `i`-th function, whose id is `first`, and from
/// the entry of the `j`-th, whose id is `second`.
pub open spec fn reached_from_both(m: HirModuleDecls, i: int, j: int, b: u32, first: FunctionId, second: FunctionId) -> bool {
    &&& 0 <= i < m.functions@.len()
    &&& 0 <= j < m.functions@.len()
    &&& m.functions@[i].id == first
    &&& m.functions@[j].id == second
    &&& function_reaches(m, i, b)
    &&& function_reaches(m, j, b)
}

/// The error shows a way in which `cfg_owned` fails.
pub open spec fn cfg_error_witness(m: HirModuleDecls, e: CompilerError) -> bool {
    match e {
        CompilerError::UnknownBlockId(b) => !known_block(m, b.0) && exists|i: int|
            0 <= i < m.functions@.len() && #[trigger] function_reaches(m, i, b.0),
        CompilerError::BlockInTwoFunctions { block, first, second } => first != second && exists|i: int, j: int|
            #[trigger] reached_from_both(m, i, j, block.0, first, second),
        CompilerError::UnreachableBlock(b) => known_block(m, b.0) && forall|i: int|
            0 <= i < m.functions@.len() ==> !#[trigger] function_reaches(m, i, b.0),
        _ => false,
    }
}

/// The owner map maps each declared block to the function whose entry reaches it.
pub open spec fn owners_match(m: HirModuleDecls, owners: Map<u32, FunctionId>) -> bool {
    &&& forall|b: u32| #[trigger] owners.contains_key(b) <==> known_block(m, b)
    &&& forall|i: int, b: u32| 0 <= i < m.functions@.len() && #[trigger] function_reaches(m, i, b) ==> owners[b] == m.functions@[i].id
}

/// Whether the queue holds block number `b`.
pub open spec fn queued(q: Seq<BlockId>, b: u32) -> bool {
    exists|k: int| 0 <= k < q.len() && (#[trigger] q[k]).0 == b
}

/// The index map of a sequence (of a length that fits in `usize`) maps exactly its
/// elements, each to a position holding it.
pub proof fn lemma_index_map(s: Seq<u32>)
    requires
        s.len() <= usize::MAX,
    ensures
        forall|x: u32| #[trigger] index_map(s).contains_key(x) <==> s.contains(x),
        forall|x: u32| #[trigger] index_map(s).contains_key(x) ==> index_map(s)[x] < s.len() && s[index_map(s)[x] as int] == x,
    decreases s.len(),
{
    if s.len() > 0 {
        let t = s.drop_last();
        lemma_index_map(t);
        assert(index_map(s) == index_map(t).insert(s.last(), (s.len() - 1) as usize));
        assert forall|x: u32| #[trigger] index_map(s).contains_key(x) <==> s.contains(x) by {
            assert(index_map(t).contains_key(x) <==> t.contains(x));
            if s.contains(x) && x != s.last() {
                let k = choose|k: int| 0 <= k < s.len() && s[k] == x;
                assert(k != s.len() - 1);
                assert(t[k] == x);
            }
            if t.contains(x) {
                let k = choose|k: int| 0 <= k < t.len() && t[k] == x;
                assert(s[k] == x);
            }
            if x == s.last() {
                assert(s[s.len() - 1] == x);
            }
        }
        assert forall|x: u32| #[trigger] index_map(s).contains_key(x) implies index_map(s)[x] < s.len() && s[index_map(s)[x] as int] == x by {
            if x != s.last() {
                assert(index_map(t).contains_key(x));
                assert(t[index_map(t)[x] as int] == x);
            }
        }
    }
}

/// Every block reaches itself.
pub proof fn lemma_reaches_self(m: HirModuleDecls, b: u32)
    ensures
        cfg_reaches(m, b, b),
{
    let path = seq![b];
    assert(cfg_path(m, path));
}

/// A walk to a declared block extends to each block it passes control to.
pub proof fn lemma_reaches_step(m: HirModuleDecls, from: u32, b: u32, next: u32)
    requires
        cfg_reaches(m, from, b),
        known_block(m, b),
        block_successors(m, b).contains(next),
    ensures
        cfg_reaches(m, from, next),
{
    let path = choose|path: Seq<u32>| #[trigger] cfg_path(m, path) && path[0] == from && path.last() == b;
    let longer = path.push(next);
    assert forall|k: int| 0 <= k < longer.len() - 1 implies #[trigger] cfg_step(m, longer, k) by {
        if k < path.len() - 1 {
            assert(cfg_step(m, path, k));
        }
    }
    assert(cfg_path(m, longer));
    assert(longer[0] == from && longer.last() == next);
}

/// A set of blocks that holds `from` and every block that its declared members pass control
/// to holds every block that `from` reaches.
pub proof fn lemma_closed_holds_reach(m: HirModuleDecls, visited: Set<u32>, from: u32, to: u32)
    requires
        visited.contains(from),
        forall|b: u32, s: u32| visited.contains(b) && known_block(m, b) && #[trigger] block_successors(m, b).contains(s) ==> visited.contains(s),
        cfg_reaches(m, from, to),
    ensures
        visited.contains(to),
{
    let path = choose|path: Seq<u32>| #[trigger] cfg_path(m, path) && path[0] == from && path.last() == to;
    lemma_closed_holds_path(m, visited, path, path.len() - 1);
}

/// Every block of a walk that starts in a closed set is in the set.
pub proof fn lemma_closed_holds_path(m: HirModuleDecls, visited: Set<u32>, path: Seq<u32>, k: int)
    requires
        cfg_path(m, path),
        visited.contains(path[0]),
        forall|b: u32, s: u32| visited.contains(b) && known_block(m, b) && #[trigger] block_successors(m, b).contains(s) ==> visited.contains(s),
        0 <= k < path.len(),
    ensures
        visited.contains(path[k]),
    decreases k,
{
    if k > 0 {
        lemma_closed_holds_path(m, visited, path, k - 1);
        assert(cfg_step(m, path, k - 1));
    }
}

/// Law: when every block belongs to exactly one function, with `owners` naming that
/// function, each function's entry block belongs to it, and every edge of the control-flow
/// graph joins two blocks of the same function.
pub proof fn lemma_owned_edges_stay_inside(m: HirModuleDecls, owners: Map<u32, FunctionId>, b: u32, s: u32, i: int)
    requires
        cfg_owned(m),
        owners_match(m, owners),
        0 <= i < m.functions@.len(),
    ensures
        owners.contains_key(m.functions@[i].entry.0) && owners[m.functions@[i].entry.0] == m.functions@[i].id,
        known_block(m, b) && block_successors(m, b).contains(s) ==> owners.contains_key(s) && owners[b] == owners[s],
{
    lemma_reaches_self(m, m.functions@[i].entry.0);
    assert(function_reaches(m, i, m.functions@[i].entry.0));
    if known_block(m, b) && block_successors(m, b).contains(s) {
        let k = choose|k: int| 0 <= k < m.functions@.len() && #[trigger] function_reaches(m, k, b);
        lemma_reaches_step(m, m.functions@[k].entry.0, b, s);
        assert(function_reaches(m, k, s));
    }
}

/// An error that shows a failure of `cfg_owned` rules it out.
pub proof fn lemma_witness_not_owned(m: HirModuleDecls, e: CompilerError)
    requires
        cfg_error_witness(m, e),
    ensures
        !cfg_owned(m),
{
    match e {
        CompilerError::UnknownBlockId(b) => {
            let i = choose|i: int| 0 <= i < m.functions@.len() && #[trigger] function_reaches(m, i, b.0);
            assert(function_reaches(m, i, b.0));
        },
        CompilerError::BlockInTwoFunctions { block, first, second } => {
            let (i, j) = choose|i: int, j: int| #[trigger] reached_from_both(m, i, j, block.0, first, second);
            assert(function_reaches(m, i, block.0) && function_reaches(m, j, block.0));
        },
        CompilerError::UnreachableBlock(b) => {
            assert(known_block(m, b.0));
        },
        _ => {},
    }
}

/// The region reached from `current` after `n` steps along parents.
pub open spec fn walk(parents: Map<u32, Option<RegionId>>, current: Option<u32>, n: nat) -> Option<u32>
    decreases n,
{
    if n == 0 {
        current
    } else {
        match current {
            Some(r) => walk(parents, next_region(parents, r), (n - 1) as nat),
            None => None,
        }
    }
}

/// A walk among known regions that does not come back to a region within the bound
/// reaches a region without parent.
pub proof fn lemma_revisit_none_ends(
    parents: Map<u32, Option<RegionId>>,
    current: Option<u32>,
    seen: Set<u32>,
    fuel: nat,
)
    requires
        parents.dom().finite(),
        seen.subset_of(parents.dom()),
        fuel + seen.len() >= parents.dom().len() + 1,
        current matches Some(r) ==> parents.contains_key(r),
        forall|r: u32| #[trigger] parents.contains_key(r) ==> (next_region(parents, r) matches Some(p) ==> parents.contains_key(p)),
        revisit(parents, current, seen, fuel) is None,
    ensures
        exists|n: nat| #[trigger] walk(parents, current, n) is None,
    decreases fuel,
{
    vstd::set_lib::lemma_len_subset(seen, parents.dom());
    match current {
        None => {
            assert(walk(parents, current, 0) is None);
        },
        Some(r) => {
            assert(!seen.contains(r));
            assert(fuel > 0);
            let next = next_region(parents, r);
            lemma_revisit_none_ends(parents, next, seen.insert(r), (fuel - 1) as nat);
            let n = choose|n: nat| #[trigger] walk(parents, next, n) is None;
            assert(walk(parents, current, n + 1) == walk(parents, next, n));
        },
    }
}

/// Following parents from `region` comes to a region without parent.
pub open spec fn reaches_root(parents: Map<u32, Option<RegionId>>, region: HirRegion) -> bool {
    exists|n: nat| #[trigger] walk(parents, Some(region.spec_id().0), n) is None
}

/// Law: when the declarations validate, all ids of each kind are distinct, and following
/// parents from any region reaches a region without parent.
pub proof fn lemma_valid_declarations(m: HirModuleDecls)
    requires
        declarations_error(m) is None,
    ensures
        region_numbers(m.regions@).no_duplicates(),
        block_numbers(m.blocks@).no_duplicates(),
        function_numbers(m.functions@).no_duplicates(),
        forall|i: int| 0 <= i < m.regions@.len() ==> reaches_root(parent_map(m.regions@), #[trigger] m.regions@[i]),
{
    let rs = m.regions@;
    let parents = parent_map(rs);
    lemma_first_repeat_none(region_numbers(rs), Set::empty());
    lemma_first_repeat_none(function_numbers(m.functions@), Set::empty());
    lemma_blocks_error_none(m.blocks@);
    lemma_parent_map(rs);
    lemma_missing_parent_none(rs, region_numbers(rs).to_set());
    assert forall|r: u32| #[trigger] parents.contains_key(r) implies (next_region(parents, r) matches Some(p) ==> parents.contains_key(p)) by {
        let k = choose|k: int| 0 <= k < rs.len() && rs[k].spec_id().0 == r && parents[r] == rs[k].spec_parent();
        assert(rs[k].spec_parent() matches Some(q) ==> region_numbers(rs).to_set().contains(q.0));
    }
    assert forall|i: int| 0 <= i < rs.len() implies reaches_root(parents, #[trigger] rs[i]) by {
        lemma_cycle_error_none(rs, parents, i);
        assert(region_numbers(rs)[i] == rs[i].spec_id().0);
        assert(parents.contains_key(rs[i].spec_id().0));
        lemma_revisit_none_ends(parents, Some(rs[i].spec_id().0), Set::empty(), parents.dom().len() + 1);
    }
}

/// A function whose checks pass: its entry is a known block, its return type is known and
/// has as many alias slots as the function lists, each listed slot names at least one
/// parameter, in range and none twice, and each parameter is a known local.
pub open spec fn function_well_formed(f: HirFunction, blocks: Set<u32>, locals: Set<u32>, types: Seq<HirType>) -> bool {
    &&& blocks.contains(f.entry.0)
    &&& (f.return_type.0 as int) < types.len()
    &&& expected_slots(types, f.return_type) == Ok::<usize, CompilerError>(f.return_aliases@.len() as usize)
    &&& forall|s: int| 0 <= s < f.return_aliases@.len() ==> (#[trigger] f.return_aliases@[s] matches Some(list) ==> {
        &&& list@.len() > 0
        &&& forall|j: int| 0 <= j < list@.len() ==> (#[trigger] list@[j]) < f.params@.len()
        &&& list@.no_duplicates()
    })
    &&& forall|p: int| 0 <= p < f.params@.len() ==> locals.contains((#[trigger] f.params@[p]).0)
}

/// Law: when the declarations validate, every function is well formed against the blocks,
/// the locals and the types of the module.
pub proof fn lemma_valid_functions(m: HirModuleDecls)
    requires
        declarations_error(m) is None,
    ensures
        forall|i: int| 0 <= i < m.functions@.len() ==> function_well_formed(
            #[trigger] m.functions@[i],
            block_numbers(m.blocks@).to_set(),
            local_type_map(m.blocks@).dom(),
            m.type_context@,
        ),
{
    let blocks = block_numbers(m.blocks@).to_set();
    let locals = local_type_map(m.blocks@).dom();
    assert forall|i: int| 0 <= i < m.functions@.len() implies function_well_formed(
        #[trigger] m.functions@[i],
        blocks,
        locals,
        m.type_context@,
    ) by {
        lemma_functions_error_none(m.functions@, blocks, locals, m.type_context@, i);
        lemma_function_error_none(m.functions@[i], blocks, locals, m.type_context@);
    }
}

/// Law: when the declarations validate, every module constant has a name that is not blank
/// and a known type, and no record field inside its value has a blank name.
pub proof fn lemma_valid_constants(m: HirModuleDecls)
    requires
        declarations_error(m) is None,
    ensures
        forall|i: int| 0 <= i < m.module_constants@.len() ==> {
            let c = #[trigger] m.module_constants@[i];
            &&& !blank(c.name@)
            &&& (c.ty.0 as int) < m.type_context@.len()
            &&& const_value_error(c.value) is None
        },
{
    assert forall|i: int| 0 <= i < m.module_constants@.len() implies {
        let c = #[trigger] m.module_constants@[i];
        &&& !blank(c.name@)
        &&& (c.ty.0 as int) < m.type_context@.len()
        &&& const_value_error(c.value) is None
    } by {
        lemma_constants_error_none(m.module_constants@, m.type_context@, i);
    }
}

/// Without a constants error, no constant has an error.
pub proof fn lemma_constants_error_none(constants: Seq<HirModuleConst>, types: Seq<HirType>, i: int)
    requires
        constants_error(constants, types) is None,
        0 <= i < constants.len(),
    ensures
        constant_error(constants[i], types) is None,
    decreases constants.len(),
{
    if i < constants.len() - 1 {
        assert(constants.drop_last()[i] == constants[i]);
        lemma_constants_error_none(constants.drop_last(), types, i);
    }
}

/// Without a functions error, no function has an error.
pub proof fn lemma_functions_error_none(functions: Seq<HirFunction>, blocks: Set<u32>, locals: Set<u32>, types: Seq<HirType>, i: int)
    requires
        functions_error(functions, blocks, locals, types) is None,
        0 <= i < functions.len(),
    ensures
        function_error(functions[i], blocks, locals, types) is None,
    decreases functions.len(),
{
    if i < functions.len() - 1 {
        assert(functions.drop_last()[i] == functions[i]);
        lemma_functions_error_none(functions.drop_last(), blocks, locals, types, i);
    }
}

/// A function without an error is well formed.
pub proof fn lemma_function_error_none(f: HirFunction, blocks: Set<u32>, locals: Set<u32>, types: Seq<HirType>)
    requires
        function_error(f, blocks, locals, types) is None,
    ensures
        function_well_formed(f, blocks, locals, types),
{
    let slots = f.return_aliases@;
    let n = f.params@.len();
    assert forall|s: int| 0 <= s < slots.len() implies (#[trigger] slots[s] matches Some(list) ==> {
        &&& list@.len() > 0
        &&& forall|j: int| 0 <= j < list@.len() ==> (#[trigger] list@[j]) < n
        &&& list@.no_duplicates()
    }) by {
        lemma_aliases_error_none(f.id, slots, n, s);
        if let Some(list) = slots[s] {
            lemma_alias_list_error_none(f.id, s, list@, n);
        }
    }
    assert forall|p: int| 0 <= p < f.params@.len() implies locals.contains((#[trigger] f.params@[p]).0) by {
        lemma_unknown_param_none(f.params@, locals, p);
    }
}

/// Without an aliases error, each listed slot is nonempty and has no list error.
pub proof fn lemma_aliases_error_none(function: FunctionId, slots: Seq<Option<Vec<usize>>>, param_count: nat, s: int)
    requires
        aliases_error(function, slots, param_count) is None,
        0 <= s < slots.len(),
    ensures
        slots[s] matches Some(list) ==> list@.len() > 0 && alias_list_error(function, s, list@, param_count) is None,
    decreases slots.len(),
{
    if s < slots.len() - 1 {
        assert(slots.drop_last()[s] == slots[s]);
        lemma_aliases_error_none(function, slots.drop_last(), param_count, s);
    }
}

/// Without a list error, the indices are in range and distinct.
pub proof fn lemma_alias_list_error_none(function: FunctionId, slot: int, list: Seq<usize>, param_count: nat)
    requires
        alias_list_error(function, slot, list, param_count) is None,
    ensures
        forall|j: int| 0 <= j < list.len() ==> (#[trigger] list[j]) < param_count,
        list.no_duplicates(),
    decreases list.len(),
{
    if list.len() > 0 {
        let rest = list.drop_last();
        lemma_alias_list_error_none(function, slot, rest, param_count);
        assert forall|j: int| 0 <= j < list.len() implies (#[trigger] list[j]) < param_count by {
            if j < list.len() - 1 {
                assert(rest[j] == list[j]);
            }
        }
        assert forall|a: int, b: int| 0 <= a < list.len() && 0 <= b < list.len() && a != b implies list[a] != list[b] by {
            if a < list.len() - 1 && b < list.len() - 1 {
                assert(rest[a] == list[a] && rest[b] == list[b]);
            } else if a == list.len() - 1 {
                assert(rest[b] == list[b]);
                assert(rest.contains(list[b]));
            } else {
                assert(rest[a] == list[a]);
                assert(rest.contains(list[a]));
            }
        }
    }
}

/// Without an unknown parameter, every parameter is a known local.
pub proof fn lemma_unknown_param_none(params: Seq<LocalId>, locals: Set<u32>, p: int)
    requires
        unknown_param(params, locals) is None,
        0 <= p < params.len(),
    ensures
        locals.contains(params[p].0),
    decreases params.len(),
{
    if p < params.len() - 1 {
        assert(params.drop_last()[p] == params[p]);
        lemma_unknown_param_none(params.drop_last(), locals, p);
    }
}

/// Without a cycle error, no region's walk comes back to a region.
pub proof fn lemma_cycle_error_none(regions: Seq<HirRegion>, parents: Map<u32, Option<RegionId>>, i: int)
    requires
        cycle_error(regions, parents) is None,
        0 <= i < regions.len(),
    ensures
        cycle_from(parents, regions[i].spec_id().0) is None,
    decreases regions.len(),
{
    if i < regions.len() - 1 {
        assert(regions.drop_last()[i] == regions[i]);
        lemma_cycle_error_none(regions.drop_last(), parents, i);
    }
}

/// Without a block error, the block ids are distinct.
pub proof fn lemma_blocks_error_none(blocks: Seq<HirBlockDecl>)
    requires
        blocks_error(blocks) is None,
    ensures
        block_numbers(blocks).no_duplicates(),
    decreases blocks.len(),
{
    if blocks.len() > 0 {
        let d = blocks.drop_last();
        lemma_blocks_error_none(d);
        assert(block_numbers(blocks) =~= block_numbers(d).push(blocks.last().id.0));
        assert forall|a: int, b: int| 0 <= a < b < blocks.len() implies #[trigger] block_numbers(blocks)[a] != #[trigger] block_numbers(blocks)[b] by {
            if b == blocks.len() - 1 {
                assert(block_numbers(d)[a] == block_numbers(blocks)[a]);
                assert(block_numbers(d).contains(block_numbers(d)[a]));
            } else {
                assert(block_numbers(d)[a] == block_numbers(blocks)[a]);
                assert(block_numbers(d)[b] == block_numbers(blocks)[b]);
            }
        }
    }
}

/// Once a prefix of the blocks fails, all blocks fail with the same error.
pub proof fn lemma_blocks_error_prefix(blocks: Seq<HirBlockDecl>, k: int)
    requires
        0 <= k <= blocks.len(),
        blocks_error(blocks.take(k)) is Some,
    ensures
        blocks_error(blocks) == blocks_error(blocks.take(k)),
    decreases blocks.len(),
{
    if k == blocks.len() {
        assert(blocks.take(k) =~= blocks);
    } else {
        assert(blocks.drop_last().take(k) =~= blocks.take(k));
        lemma_blocks_error_prefix(blocks.drop_last(), k);
    }
}

/// Once a prefix of the structs fails, all structs fail with the same error.
pub proof fn lemma_structs_error_prefix(structs: Seq<HirStruct>, k: int)
    requires
        0 <= k <= structs.len(),
        structs_error(structs.take(k)) is Some,
    ensures
        structs_error(structs) == structs_error(structs.take(k)),
    decreases structs.len(),
{
    if k == structs.len() {
        assert(structs.take(k) =~= structs);
    } else {
        assert(structs.drop_last().take(k) =~= structs.take(k));
        lemma_structs_error_prefix(structs.drop_last(), k);
    }
}

// ============================================================================
// Validator
// ============================================================================

/// The ids collected from a module's declarations.
pub struct HirValidator<'a> {
    pub module: &'a HirModuleDecls,
    pub block_ids: FxHashSet<u32>,
    pub block_index_by_id: FxHashMap<u32, usize>,
    pub function_ids: FxHashSet<u32>,
    pub struct_ids: FxHashSet<u32>,
    pub field_ids: FxHashSet<u32>,
    pub region_ids: FxHashSet<u32>,
    pub local_types: FxHashMap<u32, TypeId>,
    pub field_types: FxHashMap<u32, TypeId>,
    pub field_owner: FxHashMap<u32, StructId>,
    /// The function whose control-flow graph each block belongs to, by block id number.
    pub block_owner_by_id: FxHashMap<u32, FunctionId>,
}

/// The validator holds exactly the ids and maps its module's declarations define.
pub open spec fn collected(v: HirValidator) -> bool {
    let m = *v.module;
    &&& v.region_ids@ == region_numbers(m.regions@).to_set()
    &&& v.block_ids@ == block_numbers(m.blocks@).to_set()
    &&& v.block_index_by_id@ == index_map(block_numbers(m.blocks@))
    &&& v.local_types@ == local_type_map(m.blocks@)
    &&& v.struct_ids@ == struct_numbers(m.structs@).to_set()
    &&& v.field_ids@ == all_field_numbers(m.structs@).to_set()
    &&& (v.field_types@, v.field_owner@) == field_maps(m.structs@)
    &&& v.function_ids@ == function_numbers(m.functions@).to_set()
}

impl<'a> HirValidator<'a> {
    /// A validator for `module` with nothing collected yet.
    pub fn new(module: &'a HirModuleDecls) -> (v: Self)
        ensures
            *v.module == *module,
            v.block_ids@ == Set::<u32>::empty(),
            v.block_index_by_id@ == Map::<u32, usize>::empty(),
            v.function_ids@ == Set::<u32>::empty(),
            v.struct_ids@ == Set::<u32>::empty(),
            v.field_ids@ == Set::<u32>::empty(),
            v.region_ids@ == Set::<u32>::empty(),
            v.local_types@ == Map::<u32, TypeId>::empty(),
            v.field_types@ == Map::<u32, TypeId>::empty(),
            v.field_owner@ == Map::<u32, StructId>::empty(),
            v.block_owner_by_id@ == Map::<u32, FunctionId>::empty(),
    {
        HirValidator {
            module,
            block_ids: FxHashSet::default(),
            block_index_by_id: FxHashMap::default(),
            function_ids: FxHashSet::default(),
            struct_ids: FxHashSet::default(),
            field_ids: FxHashSet::default(),
            region_ids: FxHashSet::default(),
            local_types: FxHashMap::default(),
            field_types: FxHashMap::default(),
            field_owner: FxHashMap::default(),
            block_owner_by_id: FxHashMap::default(),
        }
    }

    /// Collects the region ids, failing at the first repeated one.
    fn collect_region_ids(module: &HirModuleDecls, region_ids: &mut FxHashSet<u32>) -> (r: Result<(), CompilerError>)
        requires
            old(region_ids)@ == Set::<u32>::empty(),
        ensures
            r == match first_repeat(region_numbers(module.regions@), Set::empty()) {
                Some(x) => Err::<(), CompilerError>(CompilerError::DuplicateRegionId(RegionId(x))),
                None => Ok(()),
            },
            r is Ok ==> final(region_ids)@ == region_numbers(module.regions@).to_set(),
    {
        let ghost nums = region_numbers(module.regions@);
        let mut i: usize = 0;
        proof {
            assert(nums.take(0).to_set() =~= Set::<u32>::empty());
        }
        while i < module.regions.len()
            invariant
                0 <= i <= module.regions@.len(),
                nums == region_numbers(module.regions@),
                region_ids@ == nums.take(i as int).to_set(),
                first_repeat(nums.take(i as int), Set::empty()) is None,
            decreases module.regions@.len() - i,
        {
            let id = module.regions[i].id();
            proof {
                assert(nums[i as int] == id.0);
                lemma_take_next(nums, i as int);
            }
            if !fx_set_insert(region_ids, id.0) {
                proof {
                    lemma_first_repeat_prefix(nums, Set::empty(), i + 1);
                }
                return Err(CompilerError::DuplicateRegionId(id));
            }
            i = i + 1;
        }
        proof {
            assert(nums.take(nums.len() as int) =~= nums);
        }
        Ok(())
    }

    /// Collects the function ids, failing at the first repeated one.
    fn collect_function_ids(module: &HirModuleDecls, function_ids: &mut FxHashSet<u32>) -> (r: Result<(), CompilerError>)
        requires
            old(function_ids)@ == Set::<u32>::empty(),
        ensures
            r == match first_repeat(function_numbers(module.functions@), Set::empty()) {
                Some(x) => Err::<(), CompilerError>(CompilerError::DuplicateFunctionId(FunctionId(x))),
                None => Ok(()),
            },
            r is Ok ==> final(function_ids)@ == function_numbers(module.functions@).to_set(),
    {
        let ghost nums = function_numbers(module.functions@);
        let mut i: usize = 0;
        proof {
            assert(nums.take(0).to_set() =~= Set::<u32>::empty());
        }
        while i < module.functions.len()
            invariant
                0 <= i <= module.functions@.len(),
                nums == function_numbers(module.functions@),
                function_ids@ == nums.take(i as int).to_set(),
                first_repeat(nums.take(i as int), Set::empty()) is None,
            decreases module.functions@.len() - i,
        {
            let id = module.functions[i].id;
            proof {
                assert(nums[i as int] == id.0);
                lemma_take_next(nums, i as int);
            }
            if !fx_set_insert(function_ids, id.0) {
                proof {
                    lemma_first_repeat_prefix(nums, Set::empty(), i + 1);
                }
                return Err(CompilerError::DuplicateFunctionId(id));
            }
            i = i + 1;
        }
        proof {
            assert(nums.take(nums.len() as int) =~= nums);
        }
        Ok(())
    }

    /// Collects the block ids with their positions and the types of all locals, failing at
    /// the first repeated block id or local id.
    fn collect_block_ids(
        module: &HirModuleDecls,
        block_ids: &mut FxHashSet<u32>,
        block_index_by_id: &mut FxHashMap<u32, usize>,
        local_types: &mut FxHashMap<u32, TypeId>,
    ) -> (r: Result<(), CompilerError>)
        requires
            old(block_ids)@ == Set::<u32>::empty(),
            old(block_index_by_id)@ == Map::<u32, usize>::empty(),
            old(local_types)@ == Map::<u32, TypeId>::empty(),
        ensures
            r == match blocks_error(module.blocks@) {
                Some(e) => Err::<(), CompilerError>(e),
                None => Ok(()),
            },
            r is Ok ==> {
                &&& final(block_ids)@ == block_numbers(module.blocks@).to_set()
                &&& final(block_index_by_id)@ == index_map(block_numbers(module.blocks@))
                &&& final(local_types)@ == local_type_map(module.blocks@)
            },
    {
        let ghost blocks = module.blocks@;
        let ghost bnums = block_numbers(blocks);
        let mut i: usize = 0;
        proof {
            assert(bnums.take(0).to_set() =~= Set::<u32>::empty());
            assert(blocks.take(0) =~= Seq::<HirBlockDecl>::empty());
            assert(bnums.take(0) =~= Seq::<u32>::empty());
            assert(all_local_numbers(blocks.take(0)).to_set() =~= Set::<u32>::empty());
            assert(local_types@.dom() =~= Set::<u32>::empty());
            assert(block_index_by_id@.dom() =~= Set::<u32>::empty());
        }
        while i < module.blocks.len()
            invariant
                0 <= i <= blocks.len(),
                blocks == module.blocks@,
                bnums == block_numbers(blocks),
                block_ids@ == bnums.take(i as int).to_set(),
                blocks_error(blocks.take(i as int)) is None,
                bnums.take(i as int).no_duplicates(),
                block_index_by_id@ == index_map(bnums.take(i as int)),
                block_index_by_id@.dom() == bnums.take(i as int).to_set(),
                local_types@ == local_type_map(blocks.take(i as int)),
                local_types@.dom() == all_local_numbers(blocks.take(i as int)).to_set(),
            decreases blocks.len() - i,
        {
            let block = &module.blocks[i];
            let ghost prev = blocks.take(i as int);
            let ghost next = blocks.take(i + 1);
            proof {
                assert(next.drop_last() =~= prev);
                assert(next.last() == blocks[i as int]);
                assert(bnums[i as int] == block.id.0);
                lemma_take_next(bnums, i as int);
                assert(block_numbers(prev) =~= bnums.take(i as int));
            }
            if !fx_set_insert(block_ids, block.id.0) {
                proof {
                    assert(blocks_error(next) == Some(CompilerError::DuplicateBlockId(block.id)));
                    lemma_blocks_error_prefix(blocks, i + 1);
                }
                return Err(CompilerError::DuplicateBlockId(block.id));
            }
            let position = fx_map_len(block_index_by_id);
            proof {
                bnums.take(i as int).unique_seq_to_set();
                assert(position == i);
            }
            fx_map_insert(block_index_by_id, block.id.0, position);
            proof {
                assert(bnums.take(i + 1).drop_last() =~= bnums.take(i as int));
                assert(block_index_by_id@ =~= index_map(bnums.take(i + 1)));
                assert(bnums.take(i + 1).no_duplicates()) by {
                    assert forall|a: int, b: int| 0 <= a < b < i + 1 implies #[trigger] bnums.take(i + 1)[a] != #[trigger] bnums.take(i + 1)[b] by {
                        if b == i {
                            assert(bnums.take(i as int).contains(bnums.take(i as int)[a]));
                        } else {
                            assert(bnums.take(i as int)[a] == bnums.take(i + 1)[a]);
                            assert(bnums.take(i as int)[b] == bnums.take(i + 1)[b]);
                        }
                    }
                }
            }
            let ghost lnums = local_numbers(block.locals@);
            let ghost seen = all_local_numbers(prev).to_set();
            let mut j: usize = 0;
            proof {
                assert(lnums.take(0).to_set() =~= Set::<u32>::empty());
                assert(block.locals@.take(0) =~= Seq::<HirLocal>::empty());
                assert(seen.union(lnums.take(0).to_set()) =~= seen);
            }
            while j < block.locals.len()
                invariant
                    0 <= j <= block.locals@.len(),
                    block == &module.blocks[i as int],
                    blocks == module.blocks@,
                    0 <= i < blocks.len(),
                    prev == blocks.take(i as int),
                    next == blocks.take(i + 1),
                    next.drop_last() == prev,
                    next.last() == *block,
                    blocks_error(prev) is None,
                    !block_numbers(prev).contains(block.id.0),
                    lnums == local_numbers(block.locals@),
                    seen == all_local_numbers(prev).to_set(),
                    local_types@ == locals_into(local_type_map(prev), block.locals@.take(j as int)),
                    local_types@.dom() == seen.union(lnums.take(j as int).to_set()),
                    first_repeat(lnums.take(j as int), seen) is None,
                decreases block.locals@.len() - j,
            {
                let local = &block.locals[j];
                proof {
                    assert(lnums[j as int] == local.id.0);
                    lemma_take_next(lnums, j as int);
                    assert(block.locals@.take(j + 1).drop_last() =~= block.locals@.take(j as int));
                    assert(block.locals@.take(j + 1).last() == block.locals@[j as int]);
                }
                let previous = fx_map_insert(local_types, local.id.0, local.ty);
                if previous.is_some() {
                    proof {
                        assert(first_repeat(lnums.take(j + 1), seen) == Some(local.id.0));
                        lemma_first_repeat_prefix(lnums, seen, j + 1);
                        assert(blocks_error(blocks.take(i + 1)) == Some(CompilerError::DuplicateLocalId(local.id)));
                        lemma_blocks_error_prefix(blocks, i + 1);
                    }
                    return Err(CompilerError::DuplicateLocalId(local.id));
                }
                proof {
                    assert(local_types@.dom() =~= seen.union(lnums.take(j + 1).to_set()));
                }
                j = j + 1;
            }
            proof {
                assert(lnums.take(lnums.len() as int) =~= lnums);
                assert(block.locals@.take(block.locals@.len() as int) =~= block.locals@);
                assert(all_local_numbers(next) == all_local_numbers(prev) + lnums);
                vstd::seq_lib::seq_to_set_distributes_over_add(all_local_numbers(prev), lnums);
                assert(local_types@.dom() =~= all_local_numbers(next).to_set());
            }
            i = i + 1;
        }
        proof {
            assert(blocks.take(blocks.len() as int) =~= blocks);
            assert(bnums.take(bnums.len() as int) =~= bnums);
        }
        Ok(())
    }

    /// Collects the struct ids and the field ids with their types and owners, failing at the
    /// first repeated struct id or field id.
    fn collect_struct_ids(
        module: &HirModuleDecls,
        struct_ids: &mut FxHashSet<u32>,
        field_ids: &mut FxHashSet<u32>,
        field_types: &mut FxHashMap<u32, TypeId>,
        field_owner: &mut FxHashMap<u32, StructId>,
    ) -> (r: Result<(), CompilerError>)
        requires
            old(struct_ids)@ == Set::<u32>::empty(),
            old(field_ids)@ == Set::<u32>::empty(),
            old(field_types)@ == Map::<u32, TypeId>::empty(),
            old(field_owner)@ == Map::<u32, StructId>::empty(),
        ensures
            r == match structs_error(module.structs@) {
                Some(e) => Err::<(), CompilerError>(e),
                None => Ok(()),
            },
            r is Ok ==> {
                &&& final(struct_ids)@ == struct_numbers(module.structs@).to_set()
                &&& final(field_ids)@ == all_field_numbers(module.structs@).to_set()
                &&& (final(field_types)@, final(field_owner)@) == field_maps(module.structs@)
            },
    {
        let ghost structs = module.structs@;
        let ghost snums = struct_numbers(structs);
        let mut i: usize = 0;
        proof {
            assert(snums.take(0).to_set() =~= Set::<u32>::empty());
            assert(structs.take(0) =~= Seq::<HirStruct>::empty());
            assert(all_field_numbers(structs.take(0)).to_set() =~= Set::<u32>::empty());
        }
        while i < module.structs.len()
            invariant
                0 <= i <= structs.len(),
                structs == module.structs@,
                snums == struct_numbers(structs),
                struct_ids@ == snums.take(i as int).to_set(),
                structs_error(structs.take(i as int)) is None,
                field_ids@ == all_field_numbers(structs.take(i as int)).to_set(),
                (field_types@, field_owner@) == field_maps(structs.take(i as int)),
            decreases structs.len() - i,
        {
            let hir_struct = &module.structs[i];
            let ghost prev = structs.take(i as int);
            let ghost next = structs.take(i + 1);
            proof {
                assert(next.drop_last() =~= prev);
                assert(next.last() == structs[i as int]);
                assert(snums[i as int] == hir_struct.id.0);
                lemma_take_next(snums, i as int);
                assert(struct_numbers(prev) =~= snums.take(i as int));
            }
            if !fx_set_insert(struct_ids, hir_struct.id.0) {
                proof {
                    assert(structs_error(next) == Some(CompilerError::DuplicateStructId(hir_struct.id)));
                    lemma_structs_error_prefix(structs, i + 1);
                }
                return Err(CompilerError::DuplicateStructId(hir_struct.id));
            }
            let ghost fnums = field_numbers(hir_struct.fields@);
            let ghost seen = all_field_numbers(prev).to_set();
            let ghost base = field_maps(prev);
            let mut j: usize = 0;
            proof {
                assert(fnums.take(0).to_set() =~= Set::<u32>::empty());
                assert(hir_struct.fields@.take(0) =~= Seq::<crate::hir_nodes::HirField>::empty());
                assert(seen.union(fnums.take(0).to_set()) =~= seen);
            }
            while j < hir_struct.fields.len()
                invariant
                    0 <= j <= hir_struct.fields@.len(),
                    hir_struct == &module.structs[i as int],
                    structs == module.structs@,
                    0 <= i < structs.len(),
                    prev == structs.take(i as int),
                    next == structs.take(i + 1),
                    next.drop_last() == prev,
                    next.last() == *hir_struct,
                    structs_error(prev) is None,
                    !struct_numbers(prev).contains(hir_struct.id.0),
                    fnums == field_numbers(hir_struct.fields@),
                    seen == all_field_numbers(prev).to_set(),
                    base == field_maps(prev),
                    field_ids@ == seen.union(fnums.take(j as int).to_set()),
                    (field_types@, field_owner@) == fields_into(base.0, base.1, hir_struct.fields@.take(j as int), hir_struct.id),
                    first_repeat(fnums.take(j as int), seen) is None,
                decreases hir_struct.fields@.len() - j,
            {
                let field = &hir_struct.fields[j];
                proof {
                    assert(fnums[j as int] == field.id.0);
                    lemma_take_next(fnums, j as int);
                    assert(hir_struct.fields@.take(j + 1).drop_last() =~= hir_struct.fields@.take(j as int));
                    assert(hir_struct.fields@.take(j + 1).last() == hir_struct.fields@[j as int]);
                }
                if !fx_set_insert(field_ids, field.id.0) {
                    proof {
                        assert(first_repeat(fnums.take(j + 1), seen) == Some(field.id.0));
                        lemma_first_repeat_prefix(fnums, seen, j + 1);
                        assert(structs_error(next) == Some(CompilerError::DuplicateFieldId(field.id)));
                        lemma_structs_error_prefix(structs, i + 1);
                    }
                    return Err(CompilerError::DuplicateFieldId(field.id));
                }
                fx_map_insert(field_types, field.id.0, field.ty);
                fx_map_insert(field_owner, field.id.0, hir_struct.id);
                proof {
                    assert(field_ids@ =~= seen.union(fnums.take(j + 1).to_set()));
                }
                j = j + 1;
            }
            proof {
                assert(fnums.take(fnums.len() as int) =~= fnums);
                assert(hir_struct.fields@.take(hir_struct.fields@.len() as int) =~= hir_struct.fields@);
                assert(all_field_numbers(next) == all_field_numbers(prev) + fnums);
                vstd::seq_lib::seq_to_set_distributes_over_add(all_field_numbers(prev), fnums);
                assert(field_ids@ =~= all_field_numbers(next).to_set());
            }
            i = i + 1;
        }
        proof {
            assert(structs.take(structs.len() as int) =~= structs);
            assert(snums.take(snums.len() as int) =~= snums);
        }
        Ok(())
    }

    /// Collects every id the module defines, failing at the first repeated id (see
    /// `definition_error`).
    pub fn collect_definition_ids(&mut self) -> (r: Result<(), CompilerError>)
        requires
            old(self).block_ids@ == Set::<u32>::empty(),
            old(self).block_index_by_id@ == Map::<u32, usize>::empty(),
            old(self).function_ids@ == Set::<u32>::empty(),
            old(self).struct_ids@ == Set::<u32>::empty(),
            old(self).field_ids@ == Set::<u32>::empty(),
            old(self).region_ids@ == Set::<u32>::empty(),
            old(self).local_types@ == Map::<u32, TypeId>::empty(),
            old(self).field_types@ == Map::<u32, TypeId>::empty(),
            old(self).field_owner@ == Map::<u32, StructId>::empty(),
        ensures
            final(self).module == old(self).module,
            r == match definition_error(*old(self).module) {
                Some(e) => Err::<(), CompilerError>(e),
                None => Ok(()),
            },
            r is Ok ==> collected(*final(self)),
    {
        let module = self.module;
        match Self::collect_region_ids(module, &mut self.region_ids) {
            Ok(()) => {},
            Err(e) => return Err(e),
        }
        match Self::collect_block_ids(module, &mut self.block_ids, &mut self.block_index_by_id, &mut self.local_types) {
            Ok(()) => {},
            Err(e) => return Err(e),
        }
        match Self::collect_struct_ids(
            module,
            &mut self.struct_ids,
            &mut self.field_ids,
            &mut self.field_types,
            &mut self.field_owner,
        ) {
            Ok(()) => {},
            Err(e) => return Err(e),
        }
        match Self::collect_function_ids(module, &mut self.function_ids) {
            Ok(()) => {},
            Err(e) => return Err(e),
        }
        Ok(())
    }

    /// Checks the region tree: every parent region exists, and following parents from any
    /// region never comes back to a region (see `region_graph_error`).
    pub fn validate_region_graph(&self) -> (r: Result<(), CompilerError>)
        requires
            self.region_ids@ == region_numbers(self.module.regions@).to_set(),
        ensures
            r == match region_graph_error(self.module.regions@, self.region_ids@) {
                Some(e) => Err::<(), CompilerError>(e),
                None => Ok(()),
            },
    {
        let regions = &self.module.regions;
        let ghost rs = regions@;
        let mut parent_by_region: FxHashMap<u32, Option<RegionId>> = FxHashMap::default();
        let mut i: usize = 0;
        proof {
            assert(rs.take(0) =~= Seq::<HirRegion>::empty());
        }
        while i < regions.len()
            invariant
                0 <= i <= rs.len(),
                rs == regions@,
                parent_by_region@ == parent_map(rs.take(i as int)),
            decreases rs.len() - i,
        {
            let region = &regions[i];
            proof {
                assert(rs.take(i + 1).drop_last() =~= rs.take(i as int));
                assert(rs.take(i + 1).last() == rs[i as int]);
            }
            fx_map_insert(&mut parent_by_region, region.id().0, region.parent());
            i = i + 1;
        }
        proof {
            assert(rs.take(rs.len() as int) =~= rs);
        }
        let ghost parents = parent_by_region@;
        i = 0;
        while i < regions.len()
            invariant
                0 <= i <= rs.len(),
                rs == regions@,
                regions == &self.module.regions,
                missing_parent(rs.take(i as int), self.region_ids@) is None,
            decreases rs.len() - i,
        {
            let region = &regions[i];
            proof {
                assert(rs.take(i + 1).drop_last() =~= rs.take(i as int));
                assert(rs.take(i + 1).last() == rs[i as int]);
            }
            if let Some(parent) = region.parent() {
                if !fx_set_contains(&self.region_ids, parent.0) {
                    proof {
                        lemma_missing_parent_prefix(rs, self.region_ids@, i + 1);
                    }
                    return Err(CompilerError::MissingParentRegion { region: region.id(), parent });
                }
            }
            i = i + 1;
        }
        proof {
            assert(rs.take(rs.len() as int) =~= rs);
            lemma_missing_parent_none(rs, self.region_ids@);
            lemma_parent_map(rs);
        }
        i = 0;
        while i < regions.len()
            invariant
                0 <= i <= rs.len(),
                rs == regions@,
                regions == &self.module.regions,
                parents == parent_by_region@,
                parents == parent_map(rs),
                missing_parent(rs, self.region_ids@) is None,
                self.region_ids@ == region_numbers(rs).to_set(),
                parents.dom() == region_numbers(rs).to_set(),
                parents.dom().finite(),
                forall|k: int| 0 <= k < rs.len() ==> ((#[trigger] rs[k]).spec_parent() matches Some(p) ==> self.region_ids@.contains(p.0)),
                forall|r: u32| #[trigger] parents.contains_key(r) ==> exists|k: int|
                    0 <= k < rs.len() && rs[k].spec_id().0 == r && parents[r] == rs[k].spec_parent(),
                cycle_error(rs.take(i as int), parents) is None,
            decreases rs.len() - i,
        {
            let start = regions[i].id();
            proof {
                assert(rs.take(i + 1).drop_last() =~= rs.take(i as int));
                assert(rs.take(i + 1).last() == rs[i as int]);
                assert(region_numbers(rs)[i as int] == start.0);
                assert(parents.contains_key(start.0));
            }
            let mut chain: FxHashSet<u32> = FxHashSet::default();
            let mut current: Option<u32> = Some(start.0);
            let ghost fuel = parents.dom().len() + 1;
            loop
                invariant
                    0 <= i < rs.len(),
                    cycle_error(rs.take(i as int), parents) is None,
                    rs.take(i + 1).drop_last() == rs.take(i as int),
                    rs.take(i + 1).last().spec_id() == start,
                    rs == regions@,
                    regions == &self.module.regions,
                    parents == parent_map(rs),
                    missing_parent(rs, self.region_ids@) is None,
                    parents == parent_by_region@,
                    parents.dom().finite(),
                    fuel == parents.dom().len() + 1,
                    chain@.subset_of(parents.dom()),
                    current matches Some(r) ==> parents.contains_key(r),
                    revisit(parents, current, chain@, (fuel - chain@.len()) as nat) == cycle_from(parents, start.0),
                    forall|k: int| 0 <= k < rs.len() ==> ((#[trigger] rs[k]).spec_parent() matches Some(p) ==> self.region_ids@.contains(p.0)),
                    forall|r: u32| #[trigger] parents.contains_key(r) ==> exists|k: int|
                        0 <= k < rs.len() && rs[k].spec_id().0 == r && parents[r] == rs[k].spec_parent(),
                    parents.dom() == region_numbers(rs).to_set(),
                    self.region_ids@ == region_numbers(rs).to_set(),
                ensures
                    cycle_from(parents, start.0) is None,
                decreases parents.dom().len() - chain@.len() + if current is Some { 1int } else { 0int },
            {
                proof {
                    vstd::set_lib::lemma_len_subset(chain@, parents.dom());
                }
                match current {
                    None => {
                        break;
                    },
                    Some(region_id) => {
                        if !fx_set_insert(&mut chain, region_id) {
                            proof {
                                assert(cycle_error(rs.take(i + 1), parents) == Some(CompilerError::RegionCycle(RegionId(region_id))));
                                lemma_cycle_error_prefix(rs, parents, i + 1);
                            }
                            return Err(CompilerError::RegionCycle(RegionId(region_id)));
                        }
                        let ghost before = chain@.remove(region_id);
                        current = match fx_map_get(&parent_by_region, region_id) {
                            Some(parent) => match parent {
                                Some(p) => Some(p.0),
                                None => None,
                            },
                            None => None,
                        };
                        proof {
                            vstd::set_lib::lemma_len_subset(chain@, parents.dom());
                            assert(chain@.len() == before.len() + 1);
                            assert(current == next_region(parents, region_id));
                            if let Some(p) = current {
                                let k = choose|k: int| 0 <= k < rs.len() && rs[k].spec_id().0 == region_id && parents[region_id] == rs[k].spec_parent();
                                assert(rs[k].spec_parent() matches Some(q) && q.0 == p);
                                assert(self.region_ids@.contains(p));
                            }
                        }
                    },
                }
            }
            proof {
                assert(cycle_from(parents, start.0) is None);
            }
            i = i + 1;
        }
        proof {
            assert(rs.take(rs.len() as int) =~= rs);
        }
        Ok(())
    }

    /// Runs the declaration checks in order, stopping at the first failure (see
    /// `declarations_error`), and then assigns every block to the function whose
    /// control-flow graph holds it (see `validate_function_cfg_ownership`).
    pub fn validate(&mut self) -> (r: Result<(), CompilerError>)
        requires
            old(self).block_ids@ == Set::<u32>::empty(),
            old(self).block_index_by_id@ == Map::<u32, usize>::empty(),
            old(self).function_ids@ == Set::<u32>::empty(),
            old(self).struct_ids@ == Set::<u32>::empty(),
            old(self).field_ids@ == Set::<u32>::empty(),
            old(self).region_ids@ == Set::<u32>::empty(),
            old(self).local_types@ == Map::<u32, TypeId>::empty(),
            old(self).field_types@ == Map::<u32, TypeId>::empty(),
            old(self).field_owner@ == Map::<u32, StructId>::empty(),
        ensures
            final(self).module == old(self).module,
            match declarations_error(*old(self).module) {
                Some(e) => r == Err::<(), CompilerError>(e),
                None => {
                    &&& !cfg_owned(*old(self).module) ==> (r matches Err(e) && cfg_error_witness(*old(self).module, e))
                    &&& cfg_owned(*old(self).module) ==> {
                        &&& collected(*final(self))
                        &&& owners_match(*old(self).module, final(self).block_owner_by_id@)
                        &&& r == outcome(final(self).blocks_decl_error(old(self).module.blocks@))
                    }
                },
            },
    {
        match self.collect_definition_ids() {
            Ok(()) => {},
            Err(e) => return Err(e),
        }
        match self.validate_region_graph() {
            Ok(()) => {},
            Err(e) => return Err(e),
        }
        match self.validate_start_function() {
            Ok(()) => {},
            Err(e) => return Err(e),
        }
        match self.validate_function_origins() {
            Ok(()) => {},
            Err(e) => return Err(e),
        }
        match self.validate_doc_fragments() {
            Ok(()) => {},
            Err(e) => return Err(e),
        }
        match self.validate_module_constants() {
            Ok(()) => {},
            Err(e) => return Err(e),
        }
        match self.validate_functions() {
            Ok(()) => {},
            Err(e) => return Err(e),
        }
        match self.validate_function_cfg_ownership() {
            Ok(()) => {},
            Err(e) => return Err(e),
        }
        self.validate_blocks()
    }

    /// Checks that `block_id` is a collected block.
    pub fn require_block_id(&self, block_id: BlockId) -> (r: Result<(), CompilerError>)
        ensures
            r == if self.block_ids@.contains(block_id.0) {
                Ok::<(), CompilerError>(())
            } else {
                Err(CompilerError::UnknownBlockId(block_id))
            },
    {
        if fx_set_contains(&self.block_ids, block_id.0) {
            return Ok(());
        }
        Err(CompilerError::UnknownBlockId(block_id))
    }

    /// Checks that `struct_id` is a collected struct.
    pub fn require_struct_id(&self, struct_id: StructId) -> (r: Result<(), CompilerError>)
        ensures
            r == if self.struct_ids@.contains(struct_id.0) {
                Ok::<(), CompilerError>(())
            } else {
                Err(CompilerError::UnknownStructId(struct_id))
            },
    {
        if fx_set_contains(&self.struct_ids, struct_id.0) {
            return Ok(());
        }
        Err(CompilerError::UnknownStructId(struct_id))
    }

    /// Checks that `field_id` is a collected field.
    pub fn require_field_id(&self, field_id: FieldId) -> (r: Result<(), CompilerError>)
        ensures
            r == if self.field_ids@.contains(field_id.0) {
                Ok::<(), CompilerError>(())
            } else {
                Err(CompilerError::UnknownFieldId(field_id))
            },
    {
        if fx_set_contains(&self.field_ids, field_id.0) {
            return Ok(());
        }
        Err(CompilerError::UnknownFieldId(field_id))
    }

    /// Checks that `local_id` is a collected local.
    pub fn require_local_id(&self, local_id: LocalId) -> (r: Result<(), CompilerError>)
        ensures
            r == if self.local_types@.contains_key(local_id.0) {
                Ok::<(), CompilerError>(())
            } else {
                Err(CompilerError::UnknownLocalId(local_id))
            },
    {
        if fx_map_contains_key(&self.local_types, local_id.0) {
            return Ok(());
        }
        Err(CompilerError::UnknownLocalId(local_id))
    }

    /// Checks that `region_id` is a collected region.
    pub fn require_region_id(&self, region_id: RegionId) -> (r: Result<(), CompilerError>)
        ensures
            r == if self.region_ids@.contains(region_id.0) {
                Ok::<(), CompilerError>(())
            } else {
                Err(CompilerError::UnknownRegionId(region_id))
            },
    {
        if fx_set_contains(&self.region_ids, region_id.0) {
            return Ok(());
        }
        Err(CompilerError::UnknownRegionId(region_id))
    }

    /// Checks that the module's type context holds `type_id`.
    pub fn require_type_id(&self, type_id: TypeId) -> (r: Result<(), CompilerError>)
        ensures
            r == if (type_id.0 as int) < self.module.type_context@.len() {
                Ok::<(), CompilerError>(())
            } else {
                Err(CompilerError::UnknownTypeId(type_id))
            },
    {
        if self.module.type_context.contains(type_id) {
            return Ok(());
        }
        Err(CompilerError::UnknownTypeId(type_id))
    }

    /// Checks that `field_id` is a collected field of the collected struct `struct_id`.
    pub fn require_field_owned_by(&self, field_id: FieldId, struct_id: StructId) -> (r: Result<(), CompilerError>)
        ensures
            r == if !self.field_ids@.contains(field_id.0) {
                Err(CompilerError::UnknownFieldId(field_id))
            } else if !self.struct_ids@.contains(struct_id.0) {
                Err(CompilerError::UnknownStructId(struct_id))
            } else if !self.field_owner@.contains_key(field_id.0) {
                Err(CompilerError::FieldWithoutOwner(field_id))
            } else if self.field_owner@[field_id.0] == struct_id {
                Ok::<(), CompilerError>(())
            } else {
                Err(
                    CompilerError::FieldOwnedByOther {
                        field: field_id,
                        owner: self.field_owner@[field_id.0],
                        expected: struct_id,
                    },
                )
            },
    {
        match self.require_field_id(field_id) {
            Ok(()) => {},
            Err(e) => return Err(e),
        }
        match self.require_struct_id(struct_id) {
            Ok(()) => {},
            Err(e) => return Err(e),
        }
        let owner = match fx_map_get(&self.field_owner, field_id.0) {
            Some(o) => *o,
            None => return Err(CompilerError::FieldWithoutOwner(field_id)),
        };
        if owner == struct_id {
            return Ok(());
        }
        Err(CompilerError::FieldOwnedByOther { field: field_id, owner, expected: struct_id })
    }

    /// The number of return alias slots of a returned value of type `ty` (see
    /// `value_slots`).
    fn slot_count_for_value_type(&self, ty: TypeId) -> (r: Result<usize, CompilerError>)
        ensures
            r == value_slots(self.module.type_context@, ty),
    {
        match self.require_type_id(ty) {
            Ok(()) => {},
            Err(e) => return Err(e),
        }
        match &self.module.type_context.get(ty).kind {
            HirTypeKind::Unit => Ok(0),
            HirTypeKind::Tuple { fields } => Ok(fields.len()),
            _ => Ok(1),
        }
    }

    /// The number of return alias slots of a function returning `return_type` (see
    /// `expected_slots`).
    pub fn expected_return_alias_slots(&self, return_type: TypeId, function_id: FunctionId) -> (r: Result<
        usize,
        CompilerError,
    >)
        ensures
            r == expected_slots(self.module.type_context@, return_type),
    {
        match self.require_type_id(return_type) {
            Ok(()) => {},
            Err(e) => return Err(e),
        }
        match &self.module.type_context.get(return_type).kind {
            HirTypeKind::Result { ok, .. } => self.slot_count_for_value_type(*ok),
            _ => self.slot_count_for_value_type(return_type),
        }
    }

    /// Checks the parameter indices of one return alias slot: each in range and none twice.
    fn validate_alias_list(function: &HirFunction, slot: usize, list: &Vec<usize>) -> (r: Result<(), CompilerError>)
        ensures
            r == match alias_list_error(function.id, slot as int, list@, function.params@.len()) {
                Some(e) => Err::<(), CompilerError>(e),
                None => Ok(()),
            },
    {
        let mut seen: FxHashSet<usize> = FxHashSet::default();
        let mut k: usize = 0;
        while k < list.len()
            invariant
                0 <= k <= list@.len(),
                alias_list_error(function.id, slot as int, list@.take(k as int), function.params@.len()) is None,
                forall|x: usize| #[trigger] seen@.contains(x) <==> list@.take(k as int).contains(x),
            decreases list@.len() - k,
        {
            let param_index = list[k];
            proof {
                assert(list@.take(k + 1).drop_last() =~= list@.take(k as int));
                assert(list@.take(k + 1).last() == param_index);
            }
            if param_index >= function.params.len() {
                proof {
                    lemma_alias_list_error_prefix(function.id, slot as int, list@, function.params@.len(), k + 1);
                }
                return Err(CompilerError::ReturnAliasOutOfRange { function: function.id, slot, index: param_index });
            }
            if !fx_set_insert(&mut seen, param_index) {
                proof {
                    lemma_alias_list_error_prefix(function.id, slot as int, list@, function.params@.len(), k + 1);
                }
                return Err(CompilerError::DuplicateReturnAlias { function: function.id, slot, index: param_index });
            }
            proof {
                assert forall|x: usize| #[trigger] seen@.contains(x) <==> list@.take(k + 1).contains(x) by {
                    if list@.take(k + 1).contains(x) && x != param_index {
                        let j = choose|j: int| 0 <= j < k + 1 && #[trigger] list@.take(k + 1)[j] == x;
                        assert(list@.take(k as int)[j] == x);
                    }
                    if list@.take(k as int).contains(x) {
                        let j = choose|j: int| 0 <= j < k && #[trigger] list@.take(k as int)[j] == x;
                        assert(list@.take(k + 1)[j] == x);
                    }
                    if x == param_index {
                        assert(list@.take(k + 1)[k as int] == x);
                    }
                }
            }
            k = k + 1;
        }
        proof {
            assert(list@.take(list@.len() as int) =~= list@);
        }
        Ok(())
    }

    /// Checks one function (see `function_error`).
    fn validate_function(&self, function: &HirFunction) -> (r: Result<(), CompilerError>)
        ensures
            r == match function_error(*function, self.block_ids@, self.local_types@.dom(), self.module.type_context@) {
                Some(e) => Err::<(), CompilerError>(e),
                None => Ok(()),
            },
    {
        match self.require_block_id(function.entry) {
            Ok(()) => {},
            Err(e) => return Err(e),
        }
        match self.require_type_id(function.return_type) {
            Ok(()) => {},
            Err(e) => return Err(e),
        }
        let expected = match self.expected_return_alias_slots(function.return_type, function.id) {
            Ok(n) => n,
            Err(e) => return Err(e),
        };
        if function.return_aliases.len() != expected {
            return Err(
                CompilerError::ReturnAliasCount { function: function.id, slots: function.return_aliases.len(), expected },
            );
        }
        let ghost slots = function.return_aliases@;
        let mut slot: usize = 0;
        while slot < function.return_aliases.len()
            invariant
                0 <= slot <= slots.len(),
                slots == function.return_aliases@,
                aliases_error(function.id, slots.take(slot as int), function.params@.len()) is None,
                self.block_ids@.contains(function.entry.0),
                (function.return_type.0 as int) < self.module.type_context@.len(),
                expected_slots(self.module.type_context@, function.return_type) == Ok::<usize, CompilerError>(expected),
                slots.len() == expected,
            decreases slots.len() - slot,
        {
            proof {
                assert(slots.take(slot + 1).drop_last() =~= slots.take(slot as int));
                assert(slots.take(slot + 1).last() == slots[slot as int]);
            }
            match &function.return_aliases[slot] {
                None => {},
                Some(list) => {
                    if list.len() == 0 {
                        proof {
                            lemma_aliases_error_prefix(function.id, slots, function.params@.len(), slot + 1);
                        }
                        return Err(CompilerError::EmptyReturnAlias { function: function.id, slot });
                    }
                    match Self::validate_alias_list(function, slot, list) {
                        Ok(()) => {},
                        Err(e) => {
                            proof {
                                lemma_aliases_error_prefix(function.id, slots, function.params@.len(), slot + 1);
                            }
                            return Err(e);
                        },
                    }
                },
            }
            slot = slot + 1;
        }
        proof {
            assert(slots.take(slots.len() as int) =~= slots);
        }
        let ghost params = function.params@;
        let mut p: usize = 0;
        while p < function.params.len()
            invariant
                0 <= p <= params.len(),
                params == function.params@,
                unknown_param(params.take(p as int), self.local_types@.dom()) is None,
                self.block_ids@.contains(function.entry.0),
                (function.return_type.0 as int) < self.module.type_context@.len(),
                expected_slots(self.module.type_context@, function.return_type) == Ok::<usize, CompilerError>(expected),
                function.return_aliases@.len() == expected,
                aliases_error(function.id, function.return_aliases@, function.params@.len()) is None,
            decreases params.len() - p,
        {
            proof {
                assert(params.take(p + 1).drop_last() =~= params.take(p as int));
                assert(params.take(p + 1).last() == params[p as int]);
            }
            match self.require_local_id(function.params[p]) {
                Ok(()) => {},
                Err(e) => {
                    proof {
                        lemma_unknown_param_prefix(params, self.local_types@.dom(), p + 1);
                    }
                    return Err(e);
                },
            }
            p = p + 1;
        }
        proof {
            assert(params.take(params.len() as int) =~= params);
        }
        Ok(())
    }

    /// Checks every function in order (see `functions_error`).
    pub fn validate_functions(&self) -> (r: Result<(), CompilerError>)
        ensures
            r == match functions_error(
                self.module.functions@,
                self.block_ids@,
                self.local_types@.dom(),
                self.module.type_context@,
            ) {
                Some(e) => Err::<(), CompilerError>(e),
                None => Ok(()),
            },
    {
        let functions = &self.module.functions;
        let mut i: usize = 0;
        while i < functions.len()
            invariant
                0 <= i <= functions@.len(),
                functions == &self.module.functions,
                functions_error(functions@.take(i as int), self.block_ids@, self.local_types@.dom(), self.module.type_context@) is None,
            decreases functions@.len() - i,
        {
            proof {
                assert(functions@.take(i + 1).drop_last() =~= functions@.take(i as int));
                assert(functions@.take(i + 1).last() == functions@[i as int]);
            }
            match self.validate_function(&functions[i]) {
                Ok(()) => {},
                Err(e) => {
                    proof {
                        lemma_functions_error_prefix(
                            functions@,
                            self.block_ids@,
                            self.local_types@.dom(),
                            self.module.type_context@,
                            i + 1,
                        );
                    }
                    return Err(e);
                },
            }
            i = i + 1;
        }
        proof {
            assert(functions@.take(functions@.len() as int) =~= functions@);
        }
        Ok(())
    }

    /// Checks that the start function is one of the collected functions.
    pub fn validate_start_function(&self) -> (r: Result<(), CompilerError>)
        ensures
            r == if self.function_ids@.contains(self.module.start_function.0) {
                Ok::<(), CompilerError>(())
            } else {
                Err(CompilerError::MissingStartFunction(self.module.start_function))
            },
    {
        if !fx_set_contains(&self.function_ids, self.module.start_function.0) {
            return Err(CompilerError::MissingStartFunction(self.module.start_function));
        }
        Ok(())
    }

    /// Checks the function origins (see `origins_error`).
    pub fn validate_function_origins(&self) -> (r: Result<(), CompilerError>)
        ensures
            r == match origins_error(self.module.functions@, self.module.function_origins@, self.module.start_function) {
                Some(e) => Err::<(), CompilerError>(e),
                None => Ok(()),
            },
    {
        let module = self.module;
        let origin_count = fx_map_len(&module.function_origins);
        if origin_count != module.functions.len() {
            return Err(CompilerError::FunctionOriginCount { origins: origin_count, functions: module.functions.len() });
        }
        let mut i: usize = 0;
        while i < module.functions.len()
            invariant
                0 <= i <= module.functions@.len(),
                module == self.module,
                module.function_origins@.len() == module.functions@.len(),
                first_without_origin(module.functions@.take(i as int), module.function_origins@) is None,
            decreases module.functions@.len() - i,
        {
            proof {
                assert(module.functions@.take(i + 1).drop_last() =~= module.functions@.take(i as int));
            }
            let id = module.functions[i].id;
            if !fx_map_contains_key(&module.function_origins, id.0) {
                proof {
                    lemma_first_without_origin_prefix(module.functions@, module.function_origins@, i + 1);
                }
                return Err(CompilerError::MissingFunctionOrigin(id));
            }
            i = i + 1;
        }
        proof {
            assert(module.functions@.take(module.functions@.len() as int) =~= module.functions@);
        }
        match fx_map_get(&module.function_origins, module.start_function.0) {
            Some(HirFunctionOrigin::EntryStart) => Ok(()),
            _ => Err(CompilerError::StartFunctionNotEntry(module.start_function)),
        }
    }

    /// The block declared with `block_id` (see `declared_block`).
    pub fn block_by_id(&self, block_id: BlockId) -> (r: Result<&'a HirBlockDecl, CompilerError>)
        requires
            collected(*self),
        ensures
            match r {
                Ok(block) => known_block(*self.module, block_id.0) && *block == declared_block(*self.module, block_id.0),
                Err(e) => !known_block(*self.module, block_id.0) && e == CompilerError::UnknownBlockId(block_id),
            },
    {
        let module: &'a HirModuleDecls = self.module;
        let block_count = module.blocks.len();
        proof {
            assert(block_numbers(module.blocks@).len() == block_count);
            lemma_index_map(block_numbers(module.blocks@));
        }
        match fx_map_get(&self.block_index_by_id, block_id.0) {
            Some(index) => Ok(&module.blocks[*index]),
            None => Err(CompilerError::UnknownBlockId(block_id)),
        }
    }

    /// Assigns every block to the function whose control-flow graph holds it: a
    /// breadth-first walk from each function's entry block, in function order, claims the
    /// blocks it reaches. Fails at an undeclared block that an entry reaches, at a block
    /// that two functions with different ids reach, and then at the first declared block
    /// that no entry reaches.
    pub fn validate_function_cfg_ownership(&mut self) -> (r: Result<(), CompilerError>)
        requires
            collected(*old(self)),
        ensures
            final(self).module == old(self).module,
            collected(*final(self)),
            (r is Ok) == cfg_owned(*old(self).module),
            r is Ok ==> owners_match(*old(self).module, final(self).block_owner_by_id@),
            r matches Err(e) ==> cfg_error_witness(*old(self).module, e),
    {
        fx_map_clear(&mut self.block_owner_by_id);
        let module: &'a HirModuleDecls = self.module;
        let ghost m = *module;
        let ghost fs = m.functions@;
        let ghost known = block_numbers(m.blocks@).to_set();
        let block_count = module.blocks.len();
        proof {
            assert(block_numbers(m.blocks@).len() == block_count);
            lemma_index_map(block_numbers(m.blocks@));
            assert(self.block_owner_by_id@ =~= Map::<u32, FunctionId>::empty());
        }
        let mut i: usize = 0;
        while i < module.functions.len()
            invariant
                0 <= i <= fs.len(),
                self.module == module,
                module == old(self).module,
                m == *module,
                fs == m.functions@,
                known == block_numbers(m.blocks@).to_set(),
                collected(*self),
                forall|b: u32| #[trigger] self.block_owner_by_id@.contains_key(b) <==> exists|k: int|
                    0 <= k < i && #[trigger] function_reaches(m, k, b),
                forall|k: int, b: u32| 0 <= k < i && #[trigger] function_reaches(m, k, b) ==> known_block(m, b)
                    && self.block_owner_by_id@[b] == fs[k].id,
            decreases fs.len() - i,
        {
            let function = &module.functions[i];
            let ghost entry = function.entry.0;
            let ghost owners_before = self.block_owner_by_id@;
            let mut queue: VecDeque<BlockId> = VecDeque::new();
            let mut visited: FxHashSet<u32> = FxHashSet::default();
            queue.push_back(function.entry);
            proof {
                lemma_reaches_self(m, entry);
                assert(queue@[0].0 == entry);
                assert(visited@ =~= Set::<u32>::empty());
                vstd::seq_lib::seq_to_set_is_finite(block_numbers(m.blocks@));
            }
            while queue.len() > 0
                invariant
                    0 <= i < fs.len(),
                    self.module == module,
                    module == old(self).module,
                    m == *module,
                    fs == m.functions@,
                    *function == fs[i as int],
                    entry == fs[i as int].entry.0,
                    known == block_numbers(m.blocks@).to_set(),
                    known.finite(),
                    collected(*self),
                    forall|b: u32| #[trigger] owners_before.contains_key(b) <==> exists|k: int|
                        0 <= k < i && #[trigger] function_reaches(m, k, b),
                    forall|k: int, b: u32| 0 <= k < i && #[trigger] function_reaches(m, k, b) ==> known_block(m, b)
                        && owners_before[b] == fs[k].id,
                    visited@.subset_of(known),
                    forall|b: u32| #[trigger] visited@.contains(b) ==> function_reaches(m, i as int, b),
                    forall|k: int| 0 <= k < queue@.len() ==> function_reaches(m, i as int, (#[trigger] queue@[k]).0),
                    forall|b: u32, s: u32| visited@.contains(b) && known_block(m, b)
                        && #[trigger] block_successors(m, b).contains(s) ==> visited@.contains(s) || queued(queue@, s),
                    visited@.contains(entry) || queued(queue@, entry),
                    forall|b: u32| #[trigger] self.block_owner_by_id@.contains_key(b) <==> (owners_before.contains_key(b)
                        || visited@.contains(b)),
                    forall|b: u32| #[trigger] owners_before.contains_key(b) ==> self.block_owner_by_id@[b] == owners_before[b],
                    forall|b: u32| #[trigger] visited@.contains(b) ==> self.block_owner_by_id@[b] == fs[i as int].id,
                decreases known.difference(visited@).len(), queue@.len(),
            {
                let ghost queue_before = queue@;
                let ghost visited_before = visited@;
                let block_id = queue.pop_front().unwrap();
                proof {
                    assert(queue_before[0] == block_id);
                    assert forall|x: u32| x != block_id.0 && #[trigger] queued(queue_before, x) implies queued(queue@, x) by {
                        let k = choose|k: int| 0 <= k < queue_before.len() && (#[trigger] queue_before[k]).0 == x;
                        assert(k > 0);
                        assert(queue@[k - 1] == queue_before[k]);
                    }
                    assert forall|k: int| 0 <= k < queue@.len() implies function_reaches(m, i as int, (#[trigger] queue@[k]).0) by {
                        assert(queue@[k] == queue_before[k + 1]);
                    }
                }
                if !fx_set_insert(&mut visited, block_id.0) {
                    proof {
                        assert(visited@ =~= visited_before);
                    }
                    continue;
                }
                match self.require_block_id(block_id) {
                    Ok(()) => {},
                    Err(e) => {
                        proof {
                            assert(function_reaches(m, i as int, block_id.0));
                            lemma_witness_not_owned(m, e);
                        }
                        return Err(e);
                    },
                }
                match fx_map_get(&self.block_owner_by_id, block_id.0) {
                    Some(existing_owner) => {
                        let existing_owner = *existing_owner;
                        if existing_owner != function.id {
                            proof {
                                assert(owners_before.contains_key(block_id.0));
                                let k = choose|k: int| 0 <= k < i && #[trigger] function_reaches(m, k, block_id.0);
                                assert(function_reaches(m, k, block_id.0));
                                assert(function_reaches(m, i as int, block_id.0));
                                assert(existing_owner == owners_before[block_id.0]);
                                assert(owners_before[block_id.0] == fs[k].id);
                                assert(fs[i as int].id == function.id);
                                assert(reached_from_both(m, k, i as int, block_id.0, existing_owner, function.id));
                                assert(exists|x: int, y: int| #[trigger] reached_from_both(m, x, y, block_id.0, existing_owner, function.id));
                                let err = CompilerError::BlockInTwoFunctions { block: block_id, first: existing_owner, second: function.id };
                                assert(err->block == block_id && err->first == existing_owner && err->second == function.id);
                                assert(cfg_error_witness(m, err));
                                lemma_witness_not_owned(m, err);
                            }
                            return Err(CompilerError::BlockInTwoFunctions { block: block_id, first: existing_owner, second: function.id });
                        }
                    },
                    None => {
                        fx_map_insert(&mut self.block_owner_by_id, block_id.0, function.id);
                    },
                }
                let block = match self.block_by_id(block_id) {
                    Ok(block) => block,
                    Err(e) => return Err(e),
                };
                let targets = terminator_targets(&block.terminator);
                let ghost queue_popped = queue@;
                let mut t: usize = 0;
                while t < targets.len()
                    invariant
                        0 <= t <= targets@.len(),
                        queue@ == queue_popped + targets@.take(t as int),
                    decreases targets@.len() - t,
                {
                    queue.push_back(targets[t]);
                    proof {
                        assert(targets@.take(t + 1) =~= targets@.take(t as int).push(targets@[t as int]));
                    }
                    t = t + 1;
                }
                proof {
                    assert(targets@.take(targets@.len() as int) =~= targets@);
                    let b = block_id.0;
                    assert(block_successors(m, b) =~= targets@.map_values(|x: BlockId| x.0));
                    assert forall|k: int| 0 <= k < queue@.len() implies function_reaches(m, i as int, (#[trigger] queue@[k]).0) by {
                        if k < queue_popped.len() {
                            assert(queue@[k] == queue_popped[k]);
                        } else {
                            let j = k - queue_popped.len();
                            assert(queue@[k] == targets@[j]);
                            assert(block_successors(m, b)[j] == targets@[j].0);
                            lemma_reaches_step(m, entry, b, targets@[j].0);
                        }
                    }
                    assert forall|x: u32| #[trigger] queued(queue_popped, x) implies queued(queue@, x) by {
                        let k = choose|k: int| 0 <= k < queue_popped.len() && (#[trigger] queue_popped[k]).0 == x;
                        assert(queue@[k] == queue_popped[k]);
                    }
                    assert forall|s: u32| #[trigger] block_successors(m, b).contains(s) implies queued(queue@, s) by {
                        let j = choose|j: int| 0 <= j < block_successors(m, b).len() && block_successors(m, b)[j] == s;
                        assert(queue@[queue_popped.len() + j] == targets@[j]);
                    }
                    assert forall|x: u32, s: u32| visited@.contains(x) && known_block(m, x)
                        && #[trigger] block_successors(m, x).contains(s) implies visited@.contains(s) || queued(queue@, s) by {
                        if x != b {
                            assert(visited_before.contains(x));
                            if !visited@.contains(s) {
                                assert(queued(queue_before, s));
                                assert(s != b);
                            }
                        }
                    }
                    if !visited@.contains(entry) {
                        assert(queued(queue_before, entry));
                    }
                    known.lemma_set_insert_diff_decreases(visited_before, b);
                }
            }
            proof {
                assert forall|b: u32| #[trigger] function_reaches(m, i as int, b) implies visited@.contains(b) by {
                    lemma_closed_holds_reach(m, visited@, entry, b);
                }
                assert forall|b: u32| #[trigger] self.block_owner_by_id@.contains_key(b) <==> exists|k: int|
                    0 <= k < i + 1 && #[trigger] function_reaches(m, k, b) by {
                    if visited@.contains(b) {
                        assert(function_reaches(m, i as int, b));
                    }
                    if exists|k: int| 0 <= k < i + 1 && #[trigger] function_reaches(m, k, b) {
                        let k = choose|k: int| 0 <= k < i + 1 && #[trigger] function_reaches(m, k, b);
                        if k == i {
                            assert(visited@.contains(b));
                        } else {
                            assert(owners_before.contains_key(b));
                        }
                    }
                }
                assert forall|k: int, b: u32| 0 <= k < i + 1 && #[trigger] function_reaches(m, k, b) implies known_block(m, b)
                    && self.block_owner_by_id@[b] == fs[k].id by {
                    if k == i {
                        assert(visited@.contains(b));
                        assert(known.contains(b));
                    } else {
                        assert(owners_before.contains_key(b));
                    }
                }
            }
            i = i + 1;
        }
        let mut j: usize = 0;
        while j < module.blocks.len()
            invariant
                0 <= j <= m.blocks@.len(),
                self.module == module,
                module == old(self).module,
                m == *module,
                fs == m.functions@,
                collected(*self),
                forall|b: u32| #[trigger] self.block_owner_by_id@.contains_key(b) <==> exists|k: int|
                    0 <= k < fs.len() && #[trigger] function_reaches(m, k, b),
                forall|k: int, b: u32| 0 <= k < fs.len() && #[trigger] function_reaches(m, k, b) ==> known_block(m, b)
                    && self.block_owner_by_id@[b] == fs[k].id,
                forall|x: int| 0 <= x < j ==> #[trigger] self.block_owner_by_id@.contains_key(m.blocks@[x].id.0),
            decreases m.blocks@.len() - j,
        {
            let block_id = module.blocks[j].id;
            if !fx_map_contains_key(&self.block_owner_by_id, block_id.0) {
                proof {
                    assert(block_numbers(m.blocks@)[j as int] == block_id.0);
                    assert(known_block(m, block_id.0));
                    lemma_witness_not_owned(m, CompilerError::UnreachableBlock(block_id));
                }
                return Err(CompilerError::UnreachableBlock(block_id));
            }
            j = j + 1;
        }
        proof {
            assert forall|b: u32| #[trigger] known_block(m, b) implies exists|k: int|
                0 <= k < fs.len() && #[trigger] function_reaches(m, k, b) by {
                let x = choose|x: int| 0 <= x < block_numbers(m.blocks@).len() && block_numbers(m.blocks@)[x] == b;
                assert(self.block_owner_by_id@.contains_key(m.blocks@[x].id.0));
            }
        }
        Ok(())
    }

    /// Checks that a control-flow edge stays inside one function: both blocks have an owner
    /// and it is the same.
    pub fn require_same_function_cfg_owner(&self, source_block: BlockId, target_block: BlockId) -> (r: Result<
        (),
        CompilerError,
    >)
        ensures
            r == if !self.block_owner_by_id@.contains_key(source_block.0) {
                Err::<(), CompilerError>(CompilerError::BlockWithoutOwner(source_block))
            } else if !self.block_owner_by_id@.contains_key(target_block.0) {
                Err(CompilerError::BlockWithoutOwner(target_block))
            } else if self.block_owner_by_id@[source_block.0] == self.block_owner_by_id@[target_block.0] {
                Ok(())
            } else {
                Err(
                    CompilerError::CrossFunctionEdge {
                        source: source_block,
                        target: target_block,
                        source_owner: self.block_owner_by_id@[source_block.0],
                        target_owner: self.block_owner_by_id@[target_block.0],
                    },
                )
            },
    {
        let source_owner = match fx_map_get(&self.block_owner_by_id, source_block.0) {
            Some(owner) => *owner,
            None => return Err(CompilerError::BlockWithoutOwner(source_block)),
        };
        let target_owner = match fx_map_get(&self.block_owner_by_id, target_block.0) {
            Some(owner) => *owner,
            None => return Err(CompilerError::BlockWithoutOwner(target_block)),
        };
        if source_owner == target_owner {
            return Ok(());
        }
        Err(CompilerError::CrossFunctionEdge { source: source_block, target: target_block, source_owner, target_owner })
    }

    /// Checks the module constants in order (see `constants_error`).
    pub fn validate_module_constants(&self) -> (r: Result<(), CompilerError>)
        ensures
            r == match constants_error(self.module.module_constants@, self.module.type_context@) {
                Some(e) => Err::<(), CompilerError>(e),
                None => Ok(()),
            },
    {
        let constants = &self.module.module_constants;
        let mut i: usize = 0;
        while i < constants.len()
            invariant
                0 <= i <= constants@.len(),
                constants == &self.module.module_constants,
                constants_error(constants@.take(i as int), self.module.type_context@) is None,
            decreases constants@.len() - i,
        {
            proof {
                assert(constants@.take(i + 1).drop_last() =~= constants@.take(i as int));
                assert(constants@.take(i + 1).last() == constants@[i as int]);
            }
            let module_constant = &constants[i];
            let checked = if is_blank(module_constant.name.as_str()) {
                Err(CompilerError::EmptyConstantName(module_constant.id))
            } else {
                match self.require_type_id(module_constant.ty) {
                    Ok(()) => Self::validate_module_const_value(&module_constant.value),
                    Err(e) => Err(e),
                }
            };
            match checked {
                Ok(()) => {},
                Err(e) => {
                    proof {
                        lemma_constants_error_prefix(constants@, self.module.type_context@, i + 1);
                    }
                    return Err(e);
                },
            }
            i = i + 1;
        }
        proof {
            assert(constants@.take(constants@.len() as int) =~= constants@);
        }
        Ok(())
    }

    /// Checks that every record field inside a constant value has a name that is not blank
    /// (see `const_value_error`).
    pub fn validate_module_const_value(value: &HirConstValue) -> (r: Result<(), CompilerError>)
        ensures
            r == match const_value_error(*value) {
                Some(e) => Err::<(), CompilerError>(e),
                None => Ok(()),
            },
        decreases value, 1int,
    {
        match value {
            HirConstValue::Collection(values) => Self::validate_module_const_values(values),
            HirConstValue::Record(fields) => Self::validate_module_const_fields(fields),
            HirConstValue::Range(start, end) => {
                match Self::validate_module_const_value(start) {
                    Ok(()) => {},
                    Err(e) => return Err(e),
                }
                Self::validate_module_const_value(end)
            },
            HirConstValue::Result { value, .. } => Self::validate_module_const_value(value),
            _ => Ok(()),
        }
    }

    /// Checks constant values in order (see `const_values_error`).
    fn validate_module_const_values(values: &Vec<HirConstValue>) -> (r: Result<(), CompilerError>)
        ensures
            r == match const_values_error(values@) {
                Some(e) => Err::<(), CompilerError>(e),
                None => Ok(()),
            },
        decreases values, 0int,
    {
        let mut i: usize = 0;
        while i < values.len()
            invariant
                0 <= i <= values@.len(),
                const_values_error(values@.take(i as int)) is None,
            decreases values@.len() - i,
        {
            proof {
                assert(decreases_to!(values => values@[i as int]));
                assert(values@.take(i + 1).drop_last() =~= values@.take(i as int));
                assert(values@.take(i + 1).last() == values@[i as int]);
            }
            match Self::validate_module_const_value(&values[i]) {
                Ok(()) => {},
                Err(e) => {
                    proof {
                        lemma_const_values_error_prefix(values@, i + 1);
                    }
                    return Err(e);
                },
            }
            i = i + 1;
        }
        proof {
            assert(values@.take(values@.len() as int) =~= values@);
        }
        Ok(())
    }

    /// Checks record fields in order (see `const_fields_error`).
    fn validate_module_const_fields(fields: &Vec<HirConstField>) -> (r: Result<(), CompilerError>)
        ensures
            r == match const_fields_error(fields@) {
                Some(e) => Err::<(), CompilerError>(e),
                None => Ok(()),
            },
        decreases fields, 0int,
    {
        let mut i: usize = 0;
        while i < fields.len()
            invariant
                0 <= i <= fields@.len(),
                const_fields_error(fields@.take(i as int)) is None,
            decreases fields@.len() - i,
        {
            proof {
                assert(decreases_to!(fields => fields@[i as int]));
                assert(decreases_to!(fields@[i as int] => fields@[i as int].value));
                assert(fields@.take(i + 1).drop_last() =~= fields@.take(i as int));
                assert(fields@.take(i + 1).last() == fields@[i as int]);
            }
            let field = &fields[i];
            let checked = if is_blank(field.name.as_str()) {
                Err(CompilerError::EmptyConstantFieldName)
            } else {
                Self::validate_module_const_value(&field.value)
            };
            match checked {
                Ok(()) => {},
                Err(e) => {
                    proof {
                        lemma_const_fields_error_prefix(fields@, i + 1);
                    }
                    return Err(e);
                },
            }
            i = i + 1;
        }
        proof {
            assert(fields@.take(fields@.len() as int) =~= fields@);
        }
        Ok(())
    }

    /// Checks the documentation fragments in order (see `fragments_error`).
    pub fn validate_doc_fragments(&self) -> (r: Result<(), CompilerError>)
        ensures
            r == match fragments_error(self.module.doc_fragments@) {
                Some(e) => Err::<(), CompilerError>(e),
                None => Ok(()),
            },
    {
        let fragments = &self.module.doc_fragments;
        let mut index: usize = 0;
        while index < fragments.len()
            invariant
                0 <= index <= fragments@.len(),
                fragments == &self.module.doc_fragments,
                fragments_error(fragments@.take(index as int)) is None,
            decreases fragments@.len() - index,
        {
            proof {
                assert(fragments@.take(index + 1).drop_last() =~= fragments@.take(index as int));
                assert(fragments@.take(index + 1).last() == fragments@[index as int]);
            }
            let fragment = &fragments[index];
            let start = fragment.location.start_pos;
            let end = fragment.location.end_pos;
            let is_doc = match fragment.kind {
                HirDocFragmentKind::Doc => true,
            };
            if is_doc && start.line_number > end.line_number {
                proof {
                    lemma_fragments_error_prefix(fragments@, index + 1);
                }
                return Err(
                    CompilerError::DocFragmentLines { index, start_line: start.line_number, end_line: end.line_number },
                );
            }
            if start.line_number == end.line_number && start.char_column > end.char_column {
                proof {
                    lemma_fragments_error_prefix(fragments@, index + 1);
                }
                return Err(
                    CompilerError::DocFragmentColumns {
                        index,
                        start_column: start.char_column,
                        end_column: end.char_column,
                    },
                );
            }
            index = index + 1;
        }
        proof {
            assert(fragments@.take(fragments@.len() as int) =~= fragments@);
        }
        Ok(())
    }
}

/// Once a prefix of the functions has one without an origin, so do all of them, and it is
/// the same function.
pub proof fn lemma_first_without_origin_prefix(functions: Seq<HirFunction>, origins: Map<u32, HirFunctionOrigin>, k: int)
    requires
        0 <= k <= functions.len(),
        first_without_origin(functions.take(k), origins) is Some,
    ensures
        first_without_origin(functions, origins) == first_without_origin(functions.take(k), origins),
    decreases functions.len(),
{
    if k == functions.len() {
        assert(functions.take(k) =~= functions);
    } else {
        assert(functions.drop_last().take(k) =~= functions.take(k));
        lemma_first_without_origin_prefix(functions.drop_last(), origins, k);
    }
}

/// Once a prefix of the constants fails, all of them fail with the same error.
pub proof fn lemma_constants_error_prefix(constants: Seq<HirModuleConst>, types: Seq<HirType>, k: int)
    requires
        0 <= k <= constants.len(),
        constants_error(constants.take(k), types) is Some,
    ensures
        constants_error(constants, types) == constants_error(constants.take(k), types),
    decreases constants.len(),
{
    if k == constants.len() {
        assert(constants.take(k) =~= constants);
    } else {
        assert(constants.drop_last().take(k) =~= constants.take(k));
        lemma_constants_error_prefix(constants.drop_last(), types, k);
    }
}

/// Once a prefix of the constant values fails, all of them fail with the same error.
pub proof fn lemma_const_values_error_prefix(values: Seq<HirConstValue>, k: int)
    requires
        0 <= k <= values.len(),
        const_values_error(values.take(k)) is Some,
    ensures
        const_values_error(values) == const_values_error(values.take(k)),
    decreases values.len(),
{
    if k == values.len() {
        assert(values.take(k) =~= values);
    } else {
        assert(values.drop_last().take(k) =~= values.take(k));
        lemma_const_values_error_prefix(values.drop_last(), k);
    }
}

/// Once a prefix of the record fields fails, all of them fail with the same error.
pub proof fn lemma_const_fields_error_prefix(fields: Seq<HirConstField>, k: int)
    requires
        0 <= k <= fields.len(),
        const_fields_error(fields.take(k)) is Some,
    ensures
        const_fields_error(fields) == const_fields_error(fields.take(k)),
    decreases fields.len(),
{
    if k == fields.len() {
        assert(fields.take(k) =~= fields);
    } else {
        assert(fields.drop_last().take(k) =~= fields.take(k));
        lemma_const_fields_error_prefix(fields.drop_last(), k);
    }
}

/// Once a prefix of the fragments fails, all of them fail with the same error.
pub proof fn lemma_fragments_error_prefix(fragments: Seq<HirDocFragment>, k: int)
    requires
        0 <= k <= fragments.len(),
        fragments_error(fragments.take(k)) is Some,
    ensures
        fragments_error(fragments) == fragments_error(fragments.take(k)),
    decreases fragments.len(),
{
    if k == fragments.len() {
        assert(fragments.take(k) =~= fragments);
    } else {
        assert(fragments.drop_last().take(k) =~= fragments.take(k));
        lemma_fragments_error_prefix(fragments.drop_last(), k);
    }
}

/// Validates the declarations of a HIR module (see `declarations_error`), then checks that
/// every block belongs to the control-flow graph of exactly one function (see `cfg_owned`),
/// then checks what the blocks hold (see `blocks_decl_error`), against the ids the
/// declarations define and the function owning each block.
pub fn validate_hir_declarations(module: &HirModuleDecls) -> (r: Result<(), CompilerError>)
    ensures
        match declarations_error(*module) {
            Some(e) => r == Err::<(), CompilerError>(e),
            None => {
                &&& !cfg_owned(*module) ==> (r matches Err(e) && cfg_error_witness(*module, e))
                &&& cfg_owned(*module) ==> exists|v: HirValidator| {
                    &&& *v.module == *module
                    &&& collected(v)
                    &&& owners_match(*module, v.block_owner_by_id@)
                    &&& r == outcome(#[trigger] v.blocks_decl_error(module.blocks@))
                }
            },
        },
{
    let mut validator = HirValidator::new(module);
    validator.validate()
}

} // verus!
