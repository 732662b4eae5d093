//! The state of the HIR builder, which lowers the typed AST to HIR: the module being
//! built, the id counters, the canonical type interner, the id-to-index maps over the
//! module's arenas, and the function, block and region being lowered.
//!
//! Every id-to-index map points at the entry with that id (`wf`), and the type context
//! holds each type kind at most once, so interning a kind twice gives the same id.

use vstd::prelude::*;
use rustc_hash::FxHashMap;
use crate::errors::CompilerError;
use crate::fx_collections::{fx_map_clear, fx_map_get, fx_map_insert};
use crate::hir_datatypes::{HirType, HirTypeKind, TypeContext, TypeId};
use crate::hir_nodes::{HirField, HirFunction, HirFunctionOrigin, HirLocal, HirRegion, HirStruct, HirTerminator};
use crate::hir_validation::{first_without_origin, function_numbers, origins_error, HirBlockDecl, HirModuleDecls};
use crate::ids::{BlockId, ChoiceId, ExternalTypeId, FieldId, FunctionId, HirConstId, HirNodeId, HirValueId, LocalId, RegionId, StructId};
use crate::tokens::SourceLocation;

verus! {

/// The blocks a `break` and a `continue` of the innermost loop jump to.
#[derive(Debug, Clone, Copy, PartialEq, Eq, Structural)]
pub struct LoopTargets {
    pub break_target: BlockId,
    pub continue_target: BlockId,
}

/// Model of a [`HirTypeKind`], with sequences in place of vectors.
pub enum TypeKindView {
    Bool,
    Int,
    Float,
    Decimal,
    Char,
    String,
    Range,
    Unit,
    Tuple { fields: Seq<TypeId> },
    Collection { element: TypeId },
    Struct { struct_id: StructId },
    Function { receiver: Option<TypeId>, params: Seq<TypeId>, returns: Seq<TypeId> },
    Option { inner: TypeId },
    Result { ok: TypeId, err: TypeId },
    Choice { choice_id: ChoiceId },
    External { type_id: ExternalTypeId },
}

/// The model of a type kind.
pub open spec fn type_kind_view(k: HirTypeKind) -> TypeKindView {
    match k {
        HirTypeKind::Bool => TypeKindView::Bool,
        HirTypeKind::Int => TypeKindView::Int,
        HirTypeKind::Float => TypeKindView::Float,
        HirTypeKind::Decimal => TypeKindView::Decimal,
        HirTypeKind::Char => TypeKindView::Char,
        HirTypeKind::String => TypeKindView::String,
        HirTypeKind::Range => TypeKindView::Range,
        HirTypeKind::Unit => TypeKindView::Unit,
        HirTypeKind::Tuple { fields } => TypeKindView::Tuple { fields: fields@ },
        HirTypeKind::Collection { element } => TypeKindView::Collection { element },
        HirTypeKind::Struct { struct_id } => TypeKindView::Struct { struct_id },
        HirTypeKind::Function { receiver, params, returns } => TypeKindView::Function {
            receiver,
            params: params@,
            returns: returns@,
        },
        HirTypeKind::Option { inner } => TypeKindView::Option { inner },
        HirTypeKind::Result { ok, err } => TypeKindView::Result { ok, err },
        HirTypeKind::Choice { choice_id } => TypeKindView::Choice { choice_id },
        HirTypeKind::External { type_id } => TypeKindView::External { type_id },
    }
}

/// Whether two id lists are equal.
fn same_type_ids(a: &Vec<TypeId>, b: &Vec<TypeId>) -> (r: bool)
    ensures
        r == (a@ == b@),
{
    if a.len() != b.len() {
        return false;
    }
    let mut i: usize = 0;
    while i < a.len()
        invariant
            0 <= i <= a@.len(),
            a@.len() == b@.len(),
            forall|j: int| 0 <= j < i ==> a@[j] == b@[j],
        decreases a@.len() - i,
    {
        if a[i] != b[i] {
            return false;
        }
        i = i + 1;
    }
    assert(a@ =~= b@);
    true
}

/// Whether two type kinds are the same kind (equal models).
pub fn same_type_kind(a: &HirTypeKind, b: &HirTypeKind) -> (r: bool)
    ensures
        r == (type_kind_view(*a) == type_kind_view(*b)),
{
    match (a, b) {
        (HirTypeKind::Bool, HirTypeKind::Bool) => true,
        (HirTypeKind::Int, HirTypeKind::Int) => true,
        (HirTypeKind::Float, HirTypeKind::Float) => true,
        (HirTypeKind::Decimal, HirTypeKind::Decimal) => true,
        (HirTypeKind::Char, HirTypeKind::Char) => true,
        (HirTypeKind::String, HirTypeKind::String) => true,
        (HirTypeKind::Range, HirTypeKind::Range) => true,
        (HirTypeKind::Unit, HirTypeKind::Unit) => true,
        (HirTypeKind::Tuple { fields: x }, HirTypeKind::Tuple { fields: y }) => same_type_ids(x, y),
        (HirTypeKind::Collection { element: x }, HirTypeKind::Collection { element: y }) => *x == *y,
        (HirTypeKind::Struct { struct_id: x }, HirTypeKind::Struct { struct_id: y }) => *x == *y,
        (
            HirTypeKind::Function { receiver: r1, params: p1, returns: t1 },
            HirTypeKind::Function { receiver: r2, params: p2, returns: t2 },
        ) => {
            let same_receiver = match (r1, r2) {
                (Some(x), Some(y)) => *x == *y,
                (None, None) => true,
                _ => false,
            };
            same_receiver && same_type_ids(p1, p2) && same_type_ids(t1, t2)
        },
        (HirTypeKind::Option { inner: x }, HirTypeKind::Option { inner: y }) => *x == *y,
        (HirTypeKind::Result { ok: o1, err: e1 }, HirTypeKind::Result { ok: o2, err: e2 }) => *o1 == *o2 && *e1 == *e2,
        (HirTypeKind::Choice { choice_id: x }, HirTypeKind::Choice { choice_id: y }) => *x == *y,
        (HirTypeKind::External { type_id: x }, HirTypeKind::External { type_id: y }) => *x == *y,
        _ => false,
    }
}

/// No two types of a context have the same kind.
pub open spec fn kinds_distinct(types: Seq<HirType>) -> bool {
    forall|i: int, j: int| 0 <= i < j < types.len() ==>
        type_kind_view(#[trigger] types[i].kind) != type_kind_view(#[trigger] types[j].kind)
}

/// The state of the HIR builder.
pub struct HirBuilder {
    /// The module being built.
    pub module: HirModuleDecls,
    pub next_block_id: u32,
    pub next_local_id: u32,
    pub next_node_id: u32,
    pub next_value_id: u32,
    pub next_region_id: u32,
    pub next_function_id: u32,
    pub next_struct_id: u32,
    pub next_field_id: u32,
    pub next_const_id: u32,
    pub temp_local_counter: u32,
    pub template_function_counter: u32,
    /// The canonical types, each kind stored once.
    pub type_context: TypeContext,
    /// Locals of the function being lowered, by the handle of their path.
    pub locals_by_name: FxHashMap<u32, LocalId>,
    /// Declared functions, by the handle of their path.
    pub functions_by_name: FxHashMap<u32, FunctionId>,
    /// Declared structs, by the handle of their path.
    pub structs_by_name: FxHashMap<u32, StructId>,
    /// Declared choices, by the handle of their path.
    pub choices_by_name: FxHashMap<u32, ChoiceId>,
    pub block_index_by_id: FxHashMap<u32, usize>,
    pub function_index_by_id: FxHashMap<u32, usize>,
    pub region_index_by_id: FxHashMap<u32, usize>,
    /// Block index and index among the block's locals, by local id.
    pub local_index_by_id: FxHashMap<u32, (usize, usize)>,
    pub struct_index_by_id: FxHashMap<u32, usize>,
    /// Struct index and index among the struct's fields, by field id.
    pub field_index_by_id: FxHashMap<u32, (usize, usize)>,
    pub current_function: Option<FunctionId>,
    pub current_block: Option<BlockId>,
    pub current_region: Option<RegionId>,
    pub loop_targets: Vec<LoopTargets>,
    /// The runtime fragment vector local of the entry start function, while it is lowered.
    pub entry_fragment_vec_local: Option<LocalId>,
}

/// The placeholder terminator a block has until lowering gives it an explicit one.
pub open spec fn is_placeholder(t: HirTerminator) -> bool {
    t matches HirTerminator::Panic { message: None }
}

impl HirBuilder {
    /// Every id-to-index map points at the entry with that id, and the type context holds
    /// each kind at most once.
    pub open spec fn wf(&self) -> bool {
        let m = self.module;
        &&& forall|id: u32| #[trigger] self.block_index_by_id@.contains_key(id) ==> {
            &&& (self.block_index_by_id@[id] as int) < m.blocks@.len()
            &&& m.blocks@[self.block_index_by_id@[id] as int].id.0 == id
        }
        &&& forall|id: u32| #[trigger] self.function_index_by_id@.contains_key(id) ==> {
            &&& (self.function_index_by_id@[id] as int) < m.functions@.len()
            &&& m.functions@[self.function_index_by_id@[id] as int].id.0 == id
        }
        &&& forall|id: u32| #[trigger] self.region_index_by_id@.contains_key(id) ==> {
            &&& (self.region_index_by_id@[id] as int) < m.regions@.len()
            &&& m.regions@[self.region_index_by_id@[id] as int].spec_id().0 == id
        }
        &&& forall|id: u32| #[trigger] self.struct_index_by_id@.contains_key(id) ==> {
            &&& (self.struct_index_by_id@[id] as int) < m.structs@.len()
            &&& m.structs@[self.struct_index_by_id@[id] as int].id.0 == id
        }
        &&& forall|id: u32| #[trigger] self.local_index_by_id@.contains_key(id) ==> {
            let (b, l) = self.local_index_by_id@[id];
            &&& (b as int) < m.blocks@.len()
            &&& (l as int) < m.blocks@[b as int].locals@.len()
            &&& m.blocks@[b as int].locals@[l as int].id.0 == id
        }
        &&& forall|id: u32| #[trigger] self.field_index_by_id@.contains_key(id) ==> {
            let (s, f) = self.field_index_by_id@[id];
            &&& (s as int) < m.structs@.len()
            &&& (f as int) < m.structs@[s as int].fields@.len()
            &&& m.structs@[s as int].fields@[f as int].id.0 == id
        }
        &&& kinds_distinct(self.type_context@)
    }

    /// An empty builder: an empty module, every counter at zero, no types, empty maps,
    /// and no current function, block or region.
    pub fn new() -> (b: Self)
        ensures
            b.wf(),
            b.module.blocks@ == Seq::<HirBlockDecl>::empty(),
            b.module.functions@ == Seq::<HirFunction>::empty(),
            b.module.structs@ == Seq::<HirStruct>::empty(),
            b.module.regions@ == Seq::<HirRegion>::empty(),
            b.next_block_id == 0 && b.next_local_id == 0 && b.next_node_id == 0 && b.next_value_id == 0,
            b.next_region_id == 0 && b.next_function_id == 0 && b.next_struct_id == 0,
            b.next_field_id == 0 && b.next_const_id == 0,
            b.temp_local_counter == 0 && b.template_function_counter == 0,
            b.type_context@ == Seq::<HirType>::empty(),
            b.locals_by_name@ == Map::<u32, LocalId>::empty(),
            b.functions_by_name@ == Map::<u32, FunctionId>::empty(),
            b.structs_by_name@ == Map::<u32, StructId>::empty(),
            b.choices_by_name@ == Map::<u32, ChoiceId>::empty(),
            b.block_index_by_id@ == Map::<u32, usize>::empty(),
            b.function_index_by_id@ == Map::<u32, usize>::empty(),
            b.region_index_by_id@ == Map::<u32, usize>::empty(),
            b.local_index_by_id@ == Map::<u32, (usize, usize)>::empty(),
            b.struct_index_by_id@ == Map::<u32, usize>::empty(),
            b.field_index_by_id@ == Map::<u32, (usize, usize)>::empty(),
            b.current_function == None::<FunctionId>,
            b.current_block == None::<BlockId>,
            b.current_region == None::<RegionId>,
            b.loop_targets@ == Seq::<LoopTargets>::empty(),
            b.entry_fragment_vec_local == None::<LocalId>,
    {
        HirBuilder {
            module: HirModuleDecls::new(),
            next_block_id: 0,
            next_local_id: 0,
            next_node_id: 0,
            next_value_id: 0,
            next_region_id: 0,
            next_function_id: 0,
            next_struct_id: 0,
            next_field_id: 0,
            next_const_id: 0,
            temp_local_counter: 0,
            template_function_counter: 0,
            type_context: TypeContext::default(),
            locals_by_name: FxHashMap::default(),
            functions_by_name: FxHashMap::default(),
            structs_by_name: FxHashMap::default(),
            choices_by_name: FxHashMap::default(),
            block_index_by_id: FxHashMap::default(),
            function_index_by_id: FxHashMap::default(),
            region_index_by_id: FxHashMap::default(),
            local_index_by_id: FxHashMap::default(),
            struct_index_by_id: FxHashMap::default(),
            field_index_by_id: FxHashMap::default(),
            current_function: None,
            current_block: None,
            current_region: None,
            loop_targets: Vec::new(),
            entry_fragment_vec_local: None,
        }
    }

    /// A fresh block id: the block counter, which advances by one.
    pub fn allocate_block_id(&mut self) -> (id: BlockId)
        requires
            old(self).next_block_id < u32::MAX,
        ensures
            id.0 == old(self).next_block_id,
            *final(self) == (HirBuilder { next_block_id: (old(self).next_block_id + 1) as u32, ..*old(self) }),
    {
        let id = BlockId(self.next_block_id);
        self.next_block_id = self.next_block_id + 1;
        id
    }

    /// A fresh local id: the local counter, which advances by one.
    pub fn allocate_local_id(&mut self) -> (id: LocalId)
        requires
            old(self).next_local_id < u32::MAX,
        ensures
            id.0 == old(self).next_local_id,
            *final(self) == (HirBuilder { next_local_id: (old(self).next_local_id + 1) as u32, ..*old(self) }),
    {
        let id = LocalId(self.next_local_id);
        self.next_local_id = self.next_local_id + 1;
        id
    }

    /// A fresh node id: the node counter, which advances by one.
    pub fn allocate_node_id(&mut self) -> (id: HirNodeId)
        requires
            old(self).next_node_id < u32::MAX,
        ensures
            id.0 == old(self).next_node_id,
            *final(self) == (HirBuilder { next_node_id: (old(self).next_node_id + 1) as u32, ..*old(self) }),
    {
        let id = HirNodeId(self.next_node_id);
        self.next_node_id = self.next_node_id + 1;
        id
    }

    /// A fresh value id: the value counter, which advances by one.
    pub fn allocate_value_id(&mut self) -> (id: HirValueId)
        requires
            old(self).next_value_id < u32::MAX,
        ensures
            id.0 == old(self).next_value_id,
            *final(self) == (HirBuilder { next_value_id: (old(self).next_value_id + 1) as u32, ..*old(self) }),
    {
        let id = HirValueId(self.next_value_id);
        self.next_value_id = self.next_value_id + 1;
        id
    }

    /// A fresh region id: the region counter, which advances by one.
    pub fn allocate_region_id(&mut self) -> (id: RegionId)
        requires
            old(self).next_region_id < u32::MAX,
        ensures
            id.0 == old(self).next_region_id,
            *final(self) == (HirBuilder { next_region_id: (old(self).next_region_id + 1) as u32, ..*old(self) }),
    {
        let id = RegionId(self.next_region_id);
        self.next_region_id = self.next_region_id + 1;
        id
    }

    /// A fresh function id: the function counter, which advances by one.
    pub fn allocate_function_id(&mut self) -> (id: FunctionId)
        requires
            old(self).next_function_id < u32::MAX,
        ensures
            id.0 == old(self).next_function_id,
            *final(self) == (HirBuilder { next_function_id: (old(self).next_function_id + 1) as u32, ..*old(self) }),
    {
        let id = FunctionId(self.next_function_id);
        self.next_function_id = self.next_function_id + 1;
        id
    }

    /// A fresh struct id: the struct counter, which advances by one.
    pub fn allocate_struct_id(&mut self) -> (id: StructId)
        requires
            old(self).next_struct_id < u32::MAX,
        ensures
            id.0 == old(self).next_struct_id,
            *final(self) == (HirBuilder { next_struct_id: (old(self).next_struct_id + 1) as u32, ..*old(self) }),
    {
        let id = StructId(self.next_struct_id);
        self.next_struct_id = self.next_struct_id + 1;
        id
    }

    /// A fresh field id: the field counter, which advances by one.
    pub fn allocate_field_id(&mut self) -> (id: FieldId)
        requires
            old(self).next_field_id < u32::MAX,
        ensures
            id.0 == old(self).next_field_id,
            *final(self) == (HirBuilder { next_field_id: (old(self).next_field_id + 1) as u32, ..*old(self) }),
    {
        let id = FieldId(self.next_field_id);
        self.next_field_id = self.next_field_id + 1;
        id
    }

    /// A fresh module constant id: the constant counter, which advances by one.
    pub fn allocate_const_id(&mut self) -> (id: HirConstId)
        requires
            old(self).next_const_id < u32::MAX,
        ensures
            id.0 == old(self).next_const_id,
            *final(self) == (HirBuilder { next_const_id: (old(self).next_const_id + 1) as u32, ..*old(self) }),
    {
        let id = HirConstId(self.next_const_id);
        self.next_const_id = self.next_const_id + 1;
        id
    }

    /// The counter value after `used_id` was taken: past it, and never lower than before.
    pub open spec fn counter_past(next_counter: u32, used_id: u32) -> u32 {
        let past = if used_id == u32::MAX { u32::MAX } else { (used_id + 1) as u32 };
        if next_counter < past { past } else { next_counter }
    }

    /// Moves a counter past an id that is already in use: the counter becomes the larger of
    /// its value and `used_id + 1` (saturating).
    pub fn advance_counter_past(next_counter: &mut u32, used_id: u32)
        ensures
            *final(next_counter) == Self::counter_past(*old(next_counter), used_id),
    {
        let past = used_id.saturating_add(1);
        if *next_counter < past {
            *next_counter = past;
        }
    }

    /// Law: reserving an id never moves a counter back, and the id an allocation hands out
    /// next (the counter) is past the reserved one, unless that one is the largest id.
    pub proof fn lemma_reserved_ids_not_reused(next_counter: u32, used_id: u32)
        ensures
            Self::counter_past(next_counter, used_id) >= next_counter,
            used_id < u32::MAX ==> Self::counter_past(next_counter, used_id) > used_id,
            Self::counter_past(Self::counter_past(next_counter, used_id), used_id) == Self::counter_past(
                next_counter,
                used_id,
            ),
    {
    }

    /// Marks a block id as used, so that later block ids are allocated past it.
    pub fn reserve_block_id(&mut self, block_id: BlockId)
        ensures
            *final(self) == (HirBuilder {
                next_block_id: Self::counter_past(old(self).next_block_id, block_id.0),
                ..*old(self)
            }),
    {
        Self::advance_counter_past(&mut self.next_block_id, block_id.0);
    }

    /// Marks a region id as used, so that later region ids are allocated past it.
    pub fn reserve_region_id(&mut self, region_id: RegionId)
        ensures
            *final(self) == (HirBuilder {
                next_region_id: Self::counter_past(old(self).next_region_id, region_id.0),
                ..*old(self)
            }),
    {
        Self::advance_counter_past(&mut self.next_region_id, region_id.0);
    }

    /// Marks a local id as used, so that later local ids are allocated past it.
    pub fn reserve_local_id(&mut self, local_id: LocalId)
        ensures
            *final(self) == (HirBuilder {
                next_local_id: Self::counter_past(old(self).next_local_id, local_id.0),
                ..*old(self)
            }),
    {
        Self::advance_counter_past(&mut self.next_local_id, local_id.0);
    }

    /// Marks a function id as used, so that later function ids are allocated past it.
    pub fn reserve_function_id(&mut self, function_id: FunctionId)
        ensures
            *final(self) == (HirBuilder {
                next_function_id: Self::counter_past(old(self).next_function_id, function_id.0),
                ..*old(self)
            }),
    {
        Self::advance_counter_past(&mut self.next_function_id, function_id.0);
    }

    /// Marks a struct id as used, so that later struct ids are allocated past it.
    pub fn reserve_struct_id(&mut self, struct_id: StructId)
        ensures
            *final(self) == (HirBuilder {
                next_struct_id: Self::counter_past(old(self).next_struct_id, struct_id.0),
                ..*old(self)
            }),
    {
        Self::advance_counter_past(&mut self.next_struct_id, struct_id.0);
    }

    /// Marks a field id as used, so that later field ids are allocated past it.
    pub fn reserve_field_id(&mut self, field_id: FieldId)
        ensures
            *final(self) == (HirBuilder {
                next_field_id: Self::counter_past(old(self).next_field_id, field_id.0),
                ..*old(self)
            }),
    {
        Self::advance_counter_past(&mut self.next_field_id, field_id.0);
    }

    /// The index of the first stored type with the model of `kind`, if any.
    pub open spec fn interned_index(types: Seq<HirType>, kind: HirTypeKind) -> Option<int> {
        if exists|i: int| 0 <= i < types.len() && type_kind_view(#[trigger] types[i].kind) == type_kind_view(kind) {
            Some(choose|i: int| 0 <= i < types.len() && type_kind_view(#[trigger] types[i].kind) == type_kind_view(kind))
        } else {
            None
        }
    }

    /// Interning `kind` from `before` gave `id` and `after`: the type at `id` has the kind;
    /// a kind already stored keeps its id and nothing changes; a new kind is stored last.
    pub open spec fn interned(before: HirBuilder, after: HirBuilder, kind: HirTypeKind, id: TypeId) -> bool {
        &&& (id.0 as int) < after.type_context@.len()
        &&& type_kind_view(after.type_context@[id.0 as int].kind) == type_kind_view(kind)
        &&& match Self::interned_index(before.type_context@, kind) {
            Some(i) => id.0 == i && after == before,
            None => {
                &&& id.0 == before.type_context@.len()
                &&& after.type_context@ == before.type_context@.push(HirType { kind })
                &&& after == (HirBuilder { type_context: after.type_context, ..before })
            },
        }
    }

    /// The canonical id of `kind`: the id of the stored type of that kind, if there is one,
    /// with nothing changed; otherwise `kind` is stored as a new type under the next id.
    #[verifier::loop_isolation(false)]
    pub fn intern_type_kind(&mut self, kind: HirTypeKind) -> (id: TypeId)
        requires
            old(self).wf(),
            old(self).type_context@.len() < u32::MAX,
        ensures
            final(self).wf(),
            Self::interned(*old(self), *final(self), kind, id),
    {
        let n = self.type_context.len();
        let mut i: usize = 0;
        while i < n
            invariant
                0 <= i <= n,
                n == self.type_context@.len(),
                forall|j: int| 0 <= j < i ==> type_kind_view(#[trigger] self.type_context@[j].kind) != type_kind_view(kind),
            decreases n - i,
        {
            if same_type_kind(&self.type_context.get(TypeId(i as u32)).kind, &kind) {
                proof {
                    let t = self.type_context@;
                    assert(type_kind_view(t[i as int].kind) == type_kind_view(kind));
                    let c = choose|c: int| 0 <= c < t.len() && type_kind_view(#[trigger] t[c].kind) == type_kind_view(kind);
                    if c != i as int {
                        if c < i as int {
                            assert(type_kind_view(t[c].kind) != type_kind_view(kind));
                        } else {
                            assert(type_kind_view(t[i as int].kind) != type_kind_view(t[c].kind));
                        }
                    }
                }
                return TypeId(i as u32);
            }
            i = i + 1;
        }
        let ghost before = self.type_context@;
        let id = self.type_context.insert(HirType { kind });
        proof {
            assert forall|a: int, b: int| 0 <= a < b < self.type_context@.len() implies
                type_kind_view(#[trigger] self.type_context@[a].kind) != type_kind_view(#[trigger] self.type_context@[b].kind) by {
                if b == before.len() {
                    assert(self.type_context@[a] == before[a]);
                } else {
                    assert(self.type_context@[a] == before[a] && self.type_context@[b] == before[b]);
                }
            }
        }
        id
    }
}

/// A struct's fields entered into a field index map, in order: field `k` of the struct at
/// `struct_index` maps to `(struct_index, k)`.
pub open spec fn fields_indexed(m: Map<u32, (usize, usize)>, fields: Seq<HirField>, struct_index: usize) -> Map<u32, (usize, usize)>
    decreases fields.len(),
{
    if fields.len() == 0 {
        m
    } else {
        fields_indexed(m, fields.drop_last(), struct_index).insert(
            fields.last().id.0,
            (struct_index, (fields.len() - 1) as usize),
        )
    }
}

impl HirBuilder {
    /// Appends a region to the module and maps its id to its index.
    pub fn push_region(&mut self, region: HirRegion)
        requires
            old(self).wf(),
        ensures
            final(self).wf(),
            final(self).module.regions@ == old(self).module.regions@.push(region),
            final(self).region_index_by_id@ == old(self).region_index_by_id@.insert(
                region.spec_id().0,
                old(self).module.regions@.len() as usize,
            ),
            *final(self) == (HirBuilder {
                module: HirModuleDecls { regions: final(self).module.regions, ..old(self).module },
                region_index_by_id: final(self).region_index_by_id,
                ..*old(self)
            }),
    {
        let index = self.module.regions.len();
        fx_map_insert(&mut self.region_index_by_id, region.id().0, index);
        self.module.regions.push(region);
    }

    /// Appends a block to the module and maps its id to its index.
    pub fn push_block(&mut self, block: HirBlockDecl)
        requires
            old(self).wf(),
        ensures
            final(self).wf(),
            final(self).module.blocks@ == old(self).module.blocks@.push(block),
            final(self).block_index_by_id@ == old(self).block_index_by_id@.insert(
                block.id.0,
                old(self).module.blocks@.len() as usize,
            ),
            *final(self) == (HirBuilder {
                module: HirModuleDecls { blocks: final(self).module.blocks, ..old(self).module },
                block_index_by_id: final(self).block_index_by_id,
                ..*old(self)
            }),
    {
        let index = self.module.blocks.len();
        fx_map_insert(&mut self.block_index_by_id, block.id.0, index);
        self.module.blocks.push(block);
    }

    /// Appends a function to the module and maps its id to its index.
    pub fn push_function(&mut self, function: HirFunction)
        requires
            old(self).wf(),
        ensures
            final(self).wf(),
            final(self).module.functions@ == old(self).module.functions@.push(function),
            final(self).function_index_by_id@ == old(self).function_index_by_id@.insert(
                function.id.0,
                old(self).module.functions@.len() as usize,
            ),
            *final(self) == (HirBuilder {
                module: HirModuleDecls { functions: final(self).module.functions, ..old(self).module },
                function_index_by_id: final(self).function_index_by_id,
                ..*old(self)
            }),
    {
        let index = self.module.functions.len();
        fx_map_insert(&mut self.function_index_by_id, function.id.0, index);
        self.module.functions.push(function);
    }

    /// Appends a struct to the module, maps its id to its index and each of its fields to
    /// (the struct's index, the field's index).
    pub fn push_struct(&mut self, hir_struct: HirStruct)
        requires
            old(self).wf(),
        ensures
            final(self).wf(),
            final(self).module.structs@ == old(self).module.structs@.push(hir_struct),
            final(self).struct_index_by_id@ == old(self).struct_index_by_id@.insert(
                hir_struct.id.0,
                old(self).module.structs@.len() as usize,
            ),
            final(self).field_index_by_id@ == fields_indexed(
                old(self).field_index_by_id@,
                hir_struct.fields@,
                old(self).module.structs@.len() as usize,
            ),
            *final(self) == (HirBuilder {
                module: HirModuleDecls { structs: final(self).module.structs, ..old(self).module },
                struct_index_by_id: final(self).struct_index_by_id,
                field_index_by_id: final(self).field_index_by_id,
                ..*old(self)
            }),
    {
        let struct_index = self.module.structs.len();
        fx_map_insert(&mut self.struct_index_by_id, hir_struct.id.0, struct_index);
        let ghost structs_after = self.module.structs@.push(hir_struct);
        let mut k: usize = 0;
        while k < hir_struct.fields.len()
            invariant
                0 <= k <= hir_struct.fields@.len(),
                struct_index == old(self).module.structs@.len(),
                old(self).wf(),
                self.module == old(self).module,
                self.struct_index_by_id@ == old(self).struct_index_by_id@.insert(hir_struct.id.0, struct_index),
                structs_after == old(self).module.structs@.push(hir_struct),
                self.field_index_by_id@ == fields_indexed(old(self).field_index_by_id@, hir_struct.fields@.take(k as int), struct_index),
                forall|id: u32| #[trigger] self.field_index_by_id@.contains_key(id) ==> {
                    let (s, f) = self.field_index_by_id@[id];
                    &&& (s as int) < structs_after.len()
                    &&& (f as int) < structs_after[s as int].fields@.len()
                    &&& structs_after[s as int].fields@[f as int].id.0 == id
                },
                *self == (HirBuilder {
                    struct_index_by_id: self.struct_index_by_id,
                    field_index_by_id: self.field_index_by_id,
                    ..*old(self)
                }),
            decreases hir_struct.fields@.len() - k,
        {
            proof {
                assert(hir_struct.fields@.take(k + 1).drop_last() =~= hir_struct.fields@.take(k as int));
                assert(hir_struct.fields@.take(k + 1).last() == hir_struct.fields@[k as int]);
                assert(structs_after[struct_index as int] == hir_struct);
            }
            fx_map_insert(&mut self.field_index_by_id, hir_struct.fields[k].id.0, (struct_index, k));
            k = k + 1;
        }
        proof {
            assert(hir_struct.fields@.take(hir_struct.fields@.len() as int) =~= hir_struct.fields@);
        }
        self.module.structs.push(hir_struct);
        proof {
            assert(self.module.structs@ == structs_after);
            assert forall|id: u32| #[trigger] self.struct_index_by_id@.contains_key(id) implies {
                &&& (self.struct_index_by_id@[id] as int) < self.module.structs@.len()
                &&& self.module.structs@[self.struct_index_by_id@[id] as int].id.0 == id
            } by {
                if id != hir_struct.id.0 {
                    assert(old(self).struct_index_by_id@.contains_key(id));
                }
            }
        }
    }
}

impl HirBuilder {
    /// The index of the block registered under `id`, or why there is none.
    pub open spec fn block_index_result(&self, id: BlockId) -> Result<usize, CompilerError> {
        if self.block_index_by_id@.contains_key(id.0) {
            Ok(self.block_index_by_id@[id.0])
        } else {
            Err(CompilerError::UnregisteredBlock(id))
        }
    }

    /// The index of the function registered under `id`, or why there is none.
    pub open spec fn function_index_result(&self, id: FunctionId) -> Result<usize, CompilerError> {
        if self.function_index_by_id@.contains_key(id.0) {
            Ok(self.function_index_by_id@[id.0])
        } else {
            Err(CompilerError::UnregisteredFunction(id))
        }
    }

    /// The index of the block registered under `block_id`.
    pub fn block_index_or_error(&self, block_id: BlockId, location: &SourceLocation) -> (r: Result<usize, CompilerError>)
        ensures
            r == self.block_index_result(block_id),
    {
        match fx_map_get(&self.block_index_by_id, block_id.0) {
            Some(index) => Ok(*index),
            None => Err(CompilerError::UnregisteredBlock(block_id)),
        }
    }

    /// The index of the function registered under `function_id`.
    pub fn function_index_or_error(&self, function_id: FunctionId, location: &SourceLocation) -> (r: Result<usize, CompilerError>)
        ensures
            r == self.function_index_result(function_id),
    {
        match fx_map_get(&self.function_index_by_id, function_id.0) {
            Some(index) => Ok(*index),
            None => Err(CompilerError::UnregisteredFunction(function_id)),
        }
    }

    /// The block registered under `block_id`.
    pub fn block_by_id_or_error(&self, block_id: BlockId, location: &SourceLocation) -> (r: Result<&HirBlockDecl, CompilerError>)
        requires
            self.wf(),
        ensures
            match self.block_index_result(block_id) {
                Ok(i) => r matches Ok(b) && *b == self.module.blocks@[i as int] && b.id == block_id,
                Err(e) => r == Err::<&HirBlockDecl, CompilerError>(e),
            },
    {
        let index = match self.block_index_or_error(block_id, location) {
            Ok(i) => i,
            Err(e) => return Err(e),
        };
        Ok(&self.module.blocks[index])
    }

    /// The function registered under `function_id`.
    pub fn function_by_id_or_error(&self, function_id: FunctionId, location: &SourceLocation) -> (r: Result<&HirFunction, CompilerError>)
        requires
            self.wf(),
        ensures
            match self.function_index_result(function_id) {
                Ok(i) => r matches Ok(f) && *f == self.module.functions@[i as int] && f.id == function_id,
                Err(e) => r == Err::<&HirFunction, CompilerError>(e),
            },
    {
        let index = match self.function_index_or_error(function_id, location) {
            Ok(i) => i,
            Err(e) => return Err(e),
        };
        Ok(&self.module.functions[index])
    }

    /// The type of the local registered under `local_id`.
    pub fn local_type_id_or_error(&self, local_id: LocalId, location: &SourceLocation) -> (r: Result<TypeId, CompilerError>)
        requires
            self.wf(),
        ensures
            r == if self.local_index_by_id@.contains_key(local_id.0) {
                let (b, l) = self.local_index_by_id@[local_id.0];
                Ok::<TypeId, CompilerError>(self.module.blocks@[b as int].locals@[l as int].ty)
            } else {
                Err(CompilerError::UnregisteredLocal(local_id))
            },
    {
        match fx_map_get(&self.local_index_by_id, local_id.0) {
            Some(pair) => {
                let (b, l) = *pair;
                Ok(self.module.blocks[b].locals[l].ty)
            },
            None => Err(CompilerError::UnregisteredLocal(local_id)),
        }
    }

    /// The type of the field registered under `field_id`.
    pub fn field_type_id_or_error(&self, field_id: FieldId, location: &SourceLocation) -> (r: Result<TypeId, CompilerError>)
        requires
            self.wf(),
        ensures
            r == if self.field_index_by_id@.contains_key(field_id.0) {
                let (s, f) = self.field_index_by_id@[field_id.0];
                Ok::<TypeId, CompilerError>(self.module.structs@[s as int].fields@[f as int].ty)
            } else {
                Err(CompilerError::UnregisteredField(field_id))
            },
    {
        match fx_map_get(&self.field_index_by_id, field_id.0) {
            Some(pair) => {
                let (s, f) = *pair;
                Ok(self.module.structs[s].fields[f].ty)
            },
            None => Err(CompilerError::UnregisteredField(field_id)),
        }
    }

    /// Registering `local` in block `block_id` from `before` gave `after` and `r`: an
    /// unregistered block is refused with nothing changed; otherwise the local is appended
    /// to that block's locals and its id mapped to (block index, local index).
    pub open spec fn local_registered(before: HirBuilder, after: HirBuilder, block_id: BlockId, local: HirLocal, r: Result<(), CompilerError>) -> bool {
        match before.block_index_result(block_id) {
            Err(e) => r == Err::<(), CompilerError>(e) && after == before,
            Ok(i) => {
                let old_block = before.module.blocks@[i as int];
                let new_block = after.module.blocks@[i as int];
                &&& r is Ok
                &&& after.module.blocks@.len() == before.module.blocks@.len()
                &&& forall|j: int| 0 <= j < before.module.blocks@.len() && j != i ==>
                    #[trigger] after.module.blocks@[j] == before.module.blocks@[j]
                &&& new_block.id == old_block.id
                &&& new_block.region == old_block.region
                &&& new_block.statements == old_block.statements
                &&& new_block.terminator == old_block.terminator
                &&& new_block.locals@ == old_block.locals@.push(local)
                &&& after.local_index_by_id@ == before.local_index_by_id@.insert(
                    local.id.0,
                    (i, old_block.locals@.len() as usize),
                )
                &&& after == (HirBuilder {
                    module: HirModuleDecls { blocks: after.module.blocks, ..before.module },
                    local_index_by_id: after.local_index_by_id,
                    ..before
                })
            },
        }
    }

    /// Appends `local` to the locals of the block registered under `block_id` and maps the
    /// local's id to (the block's index, its index among the block's locals).
    pub fn register_local_in_block(&mut self, block_id: BlockId, local: HirLocal, location: &SourceLocation) -> (r: Result<
        (),
        CompilerError,
    >)
        requires
            old(self).wf(),
        ensures
            final(self).wf(),
            Self::local_registered(*old(self), *final(self), block_id, local, r),
    {
        let block_index = match self.block_index_or_error(block_id, location) {
            Ok(i) => i,
            Err(e) => return Err(e),
        };
        let ghost old_blocks = self.module.blocks@;
        let mut block = self.module.blocks.remove(block_index);
        let local_index = block.locals.len();
        fx_map_insert(&mut self.local_index_by_id, local.id.0, (block_index, local_index));
        block.locals.push(local);
        self.module.blocks.insert(block_index, block);
        proof {
            let blocks = self.module.blocks@;
            assert forall|j: int| 0 <= j < old_blocks.len() && j != block_index implies #[trigger] blocks[j] == old_blocks[j] by {
                if j < block_index {
                } else {
                }
            }
            assert forall|id: u32| #[trigger] self.block_index_by_id@.contains_key(id) implies {
                &&& (self.block_index_by_id@[id] as int) < blocks.len()
                &&& blocks[self.block_index_by_id@[id] as int].id.0 == id
            } by {
                let k = self.block_index_by_id@[id] as int;
                if k != block_index {
                    assert(blocks[k] == old_blocks[k]);
                }
            }
            assert forall|id: u32| #[trigger] self.local_index_by_id@.contains_key(id) implies {
                let (b, l) = self.local_index_by_id@[id];
                &&& (b as int) < blocks.len()
                &&& (l as int) < blocks[b as int].locals@.len()
                &&& blocks[b as int].locals@[l as int].id.0 == id
            } by {
                if id != local.id.0 {
                    let (b, l) = self.local_index_by_id@[id];
                    assert(old(self).local_index_by_id@.contains_key(id));
                    if b as int != block_index {
                        assert(blocks[b as int] == old_blocks[b as int]);
                    } else {
                        assert(blocks[b as int].locals@[l as int] == old_blocks[b as int].locals@[l as int]);
                    }
                }
            }
        }
        Ok(())
    }

    /// Makes the block registered under `block_id` the current block, and its region the
    /// current region.
    pub fn set_current_block(&mut self, block_id: BlockId, location: &SourceLocation) -> (r: Result<(), CompilerError>)
        requires
            old(self).wf(),
        ensures
            match old(self).block_index_result(block_id) {
                Err(e) => r == Err::<(), CompilerError>(e) && *final(self) == *old(self),
                Ok(i) => r is Ok && *final(self) == (HirBuilder {
                    current_block: Some(block_id),
                    current_region: Some(old(self).module.blocks@[i as int].region),
                    ..*old(self)
                }),
            },
    {
        let region = match self.block_by_id_or_error(block_id, location) {
            Ok(block) => block.region,
            Err(e) => return Err(e),
        };
        self.current_block = Some(block_id);
        self.current_region = Some(region);
        Ok(())
    }

    /// Starts lowering the function registered under `function_id`: it becomes the current
    /// function, the local names and loop targets are cleared, and its entry block becomes
    /// the current block.
    pub fn enter_function(&mut self, function_id: FunctionId, location: &SourceLocation) -> (r: Result<(), CompilerError>)
        requires
            old(self).wf(),
        ensures
            match old(self).function_index_result(function_id) {
                Err(e) => r == Err::<(), CompilerError>(e) && *final(self) == *old(self),
                Ok(fi) => {
                    let entry = old(self).module.functions@[fi as int].entry;
                    let cleared = HirBuilder {
                        current_function: Some(function_id),
                        locals_by_name: final(self).locals_by_name,
                        loop_targets: final(self).loop_targets,
                        ..*old(self)
                    };
                    &&& final(self).locals_by_name@ == Map::<u32, LocalId>::empty()
                    &&& final(self).loop_targets@ == Seq::<LoopTargets>::empty()
                    &&& match old(self).block_index_result(entry) {
                        Err(e) => r == Err::<(), CompilerError>(e) && *final(self) == cleared,
                        Ok(bi) => r is Ok && *final(self) == (HirBuilder {
                            current_block: Some(entry),
                            current_region: Some(old(self).module.blocks@[bi as int].region),
                            ..cleared
                        }),
                    }
                },
            },
    {
        let entry_block = match self.function_by_id_or_error(function_id, location) {
            Ok(f) => f.entry,
            Err(e) => return Err(e),
        };
        self.current_function = Some(function_id);
        fx_map_clear(&mut self.locals_by_name);
        self.loop_targets.clear();
        proof {
            assert(self.locals_by_name@ =~= Map::<u32, LocalId>::empty());
        }
        self.set_current_block(entry_block, location)
    }

    /// Stops lowering the current function: no current function, block or region, no
    /// local names, loop targets or entry fragment vector local.
    pub fn leave_function(&mut self)
        ensures
            final(self).locals_by_name@ == Map::<u32, LocalId>::empty(),
            final(self).loop_targets@ == Seq::<LoopTargets>::empty(),
            *final(self) == (HirBuilder {
                current_function: None,
                current_block: None,
                current_region: None,
                locals_by_name: final(self).locals_by_name,
                loop_targets: final(self).loop_targets,
                entry_fragment_vec_local: None,
                ..*old(self)
            }),
    {
        self.current_function = None;
        self.current_block = None;
        self.current_region = None;
        fx_map_clear(&mut self.locals_by_name);
        self.loop_targets.clear();
        self.entry_fragment_vec_local = None;
        proof {
            assert(self.locals_by_name@ =~= Map::<u32, LocalId>::empty());
        }
    }

    /// The current block.
    pub fn current_block_id_or_error(&self, location: &SourceLocation) -> (r: Result<BlockId, CompilerError>)
        ensures
            r == match self.current_block {
                Some(b) => Ok::<BlockId, CompilerError>(b),
                None => Err(CompilerError::NoCurrentBlock),
            },
    {
        match self.current_block {
            Some(b) => Ok(b),
            None => Err(CompilerError::NoCurrentBlock),
        }
    }

    /// The current block, if any.
    pub fn current_block_id(&self) -> (r: Option<BlockId>)
        ensures
            r == self.current_block,
    {
        self.current_block
    }

    /// The current function.
    pub fn current_function_id_or_error(&self, location: &SourceLocation) -> (r: Result<FunctionId, CompilerError>)
        ensures
            r == match self.current_function {
                Some(f) => Ok::<FunctionId, CompilerError>(f),
                None => Err(CompilerError::NoCurrentFunction),
            },
    {
        match self.current_function {
            Some(f) => Ok(f),
            None => Err(CompilerError::NoCurrentFunction),
        }
    }

    /// The current region.
    pub fn current_region_or_error(&self, location: &SourceLocation) -> (r: Result<RegionId, CompilerError>)
        ensures
            r == match self.current_region {
                Some(g) => Ok::<RegionId, CompilerError>(g),
                None => Err(CompilerError::NoCurrentRegion),
            },
    {
        match self.current_region {
            Some(g) => Ok(g),
            None => Err(CompilerError::NoCurrentRegion),
        }
    }

    /// Whether a terminator is the placeholder a block has until it gets an explicit one.
    pub fn is_placeholder_terminator(terminator: &HirTerminator) -> (b: bool)
        ensures
            b == is_placeholder(*terminator),
    {
        match terminator {
            HirTerminator::Panic { message: None } => true,
            _ => false,
        }
    }

    /// Whether the block registered under `block_id` has an explicit terminator.
    pub fn block_has_explicit_terminator(&self, block_id: BlockId, location: &SourceLocation) -> (r: Result<bool, CompilerError>)
        requires
            self.wf(),
        ensures
            r == match self.block_index_result(block_id) {
                Ok(i) => Ok::<bool, CompilerError>(!is_placeholder(self.module.blocks@[i as int].terminator)),
                Err(e) => Err(e),
            },
    {
        match self.block_by_id_or_error(block_id, location) {
            Ok(block) => Ok(!Self::is_placeholder_terminator(&block.terminator)),
            Err(e) => Err(e),
        }
    }

    /// Setting the terminator of `block_id` to `terminator` from `before` gave `after` and
    /// `r`: an unregistered block and a block with an explicit terminator are refused with
    /// nothing changed; otherwise only that block's terminator changes.
    pub open spec fn terminator_set(
        before: HirBuilder,
        after: HirBuilder,
        block_id: BlockId,
        terminator: HirTerminator,
        r: Result<(), CompilerError>,
    ) -> bool {
        match before.block_index_result(block_id) {
            Err(e) => r == Err::<(), CompilerError>(e) && after == before,
            Ok(i) => {
                let old_block = before.module.blocks@[i as int];
                if !is_placeholder(old_block.terminator) {
                    r == Err::<(), CompilerError>(CompilerError::TerminatorAlreadySet(block_id)) && after == before
                } else {
                    let new_block = after.module.blocks@[i as int];
                    &&& r is Ok
                    &&& after.module.blocks@.len() == before.module.blocks@.len()
                    &&& forall|j: int| 0 <= j < before.module.blocks@.len() && j != i ==>
                        #[trigger] after.module.blocks@[j] == before.module.blocks@[j]
                    &&& new_block.id == old_block.id
                    &&& new_block.region == old_block.region
                    &&& new_block.locals == old_block.locals
                    &&& new_block.statements == old_block.statements
                    &&& new_block.terminator == terminator
                    &&& after == (HirBuilder {
                        module: HirModuleDecls { blocks: after.module.blocks, ..before.module },
                        ..before
                    })
                }
            },
        }
    }

    /// Gives the block registered under `block_id` its explicit terminator; a block that
    /// already has one is refused.
    pub fn set_block_terminator(&mut self, block_id: BlockId, terminator: HirTerminator, location: &SourceLocation) -> (r: Result<
        (),
        CompilerError,
    >)
        requires
            old(self).wf(),
        ensures
            final(self).wf(),
            Self::terminator_set(*old(self), *final(self), block_id, terminator, r),
    {
        let block_index = match self.block_index_or_error(block_id, location) {
            Ok(i) => i,
            Err(e) => return Err(e),
        };
        if !Self::is_placeholder_terminator(&self.module.blocks[block_index].terminator) {
            return Err(CompilerError::TerminatorAlreadySet(block_id));
        }
        let ghost old_blocks = self.module.blocks@;
        let mut block = self.module.blocks.remove(block_index);
        block.terminator = terminator;
        self.module.blocks.insert(block_index, block);
        proof {
            let blocks = self.module.blocks@;
            assert forall|j: int| 0 <= j < old_blocks.len() && j != block_index implies #[trigger] blocks[j] == old_blocks[j] by {
                if j < block_index {
                } else {
                }
            }
            assert forall|id: u32| #[trigger] self.block_index_by_id@.contains_key(id) implies {
                &&& (self.block_index_by_id@[id] as int) < blocks.len()
                &&& blocks[self.block_index_by_id@[id] as int].id.0 == id
            } by {
                let k = self.block_index_by_id@[id] as int;
                if k != block_index {
                    assert(blocks[k] == old_blocks[k]);
                }
            }
            assert forall|id: u32| #[trigger] self.local_index_by_id@.contains_key(id) implies {
                let (b, l) = self.local_index_by_id@[id];
                &&& (b as int) < blocks.len()
                &&& (l as int) < blocks[b as int].locals@.len()
                &&& blocks[b as int].locals@[l as int].id.0 == id
            } by {
                let (b, l) = self.local_index_by_id@[id];
                if b as int != block_index {
                    assert(blocks[b as int] == old_blocks[b as int]);
                }
            }
        }
        Ok(())
    }
}

/// Law: interning a kind a second time gives the id of the first interning and changes
/// nothing.
pub proof fn lemma_intern_twice(s0: HirBuilder, s1: HirBuilder, s2: HirBuilder, kind: HirTypeKind, id1: TypeId, id2: TypeId)
    requires
        s0.wf(),
        HirBuilder::interned(s0, s1, kind, id1),
        HirBuilder::interned(s1, s2, kind, id2),
    ensures
        id2 == id1,
        s2 == s1,
{
    let t = s1.type_context@;
    assert(type_kind_view(t[id1.0 as int].kind) == type_kind_view(kind));
    assert(HirBuilder::interned_index(t, kind) is Some);
    let c = choose|c: int| 0 <= c < t.len() && type_kind_view(#[trigger] t[c].kind) == type_kind_view(kind);
    if c != id1.0 as int {
        assert(kinds_distinct(t)) by {
            match HirBuilder::interned_index(s0.type_context@, kind) {
                Some(i) => {},
                None => {
                    let t0 = s0.type_context@;
                    assert forall|a: int, b: int| 0 <= a < b < t.len() implies
                        type_kind_view(#[trigger] t[a].kind) != type_kind_view(#[trigger] t[b].kind) by {
                        if b == t0.len() {
                            assert(t[a] == t0[a]);
                            assert(type_kind_view(t0[a].kind) != type_kind_view(kind));
                        } else {
                            assert(t[a] == t0[a] && t[b] == t0[b]);
                        }
                    }
                },
            }
        }
        if c < id1.0 as int {
            assert(type_kind_view(t[c].kind) != type_kind_view(t[id1.0 as int].kind));
        } else {
            assert(type_kind_view(t[id1.0 as int].kind) != type_kind_view(t[c].kind));
        }
    }
}

/// Law: a block gets at most one explicit terminator: once a terminator other than the
/// placeholder was set, setting one again is refused and changes nothing.
pub proof fn lemma_terminator_set_once(
    s0: HirBuilder,
    s1: HirBuilder,
    s2: HirBuilder,
    block_id: BlockId,
    first: HirTerminator,
    second: HirTerminator,
    r1: Result<(), CompilerError>,
    r2: Result<(), CompilerError>,
)
    requires
        s0.wf(),
        !is_placeholder(first),
        HirBuilder::terminator_set(s0, s1, block_id, first, r1),
        r1 is Ok,
        HirBuilder::terminator_set(s1, s2, block_id, second, r2),
    ensures
        r2 == Err::<(), CompilerError>(CompilerError::TerminatorAlreadySet(block_id)),
        s2 == s1,
{
}

/// Every function of `functions` tagged as a normal function.
pub open spec fn normal_origins(functions: Seq<HirFunction>) -> Map<u32, HirFunctionOrigin>
    decreases functions.len(),
{
    if functions.len() == 0 {
        Map::empty()
    } else {
        normal_origins(functions.drop_last()).insert(functions.last().id.0, HirFunctionOrigin::Normal)
    }
}

/// The origins assigned to a module's functions: every function is normal but the start
/// function, which is the entry start function.
pub open spec fn assigned_origins(functions: Seq<HirFunction>, start: FunctionId) -> Map<u32, HirFunctionOrigin> {
    normal_origins(functions).insert(start.0, HirFunctionOrigin::EntryStart)
}

impl HirBuilder {
    /// Tags every function of the module with its origin (see `assigned_origins`),
    /// replacing any earlier tags.
    pub fn assign_function_origins(&mut self) -> (r: Result<(), CompilerError>)
        ensures
            r is Ok,
            final(self).module.function_origins@ == assigned_origins(old(self).module.functions@, old(self).module.start_function),
            *final(self) == (HirBuilder {
                module: HirModuleDecls { function_origins: final(self).module.function_origins, ..old(self).module },
                ..*old(self)
            }),
    {
        fx_map_clear(&mut self.module.function_origins);
        proof {
            assert(self.module.function_origins@ =~= Map::<u32, HirFunctionOrigin>::empty());
        }
        let n = self.module.functions.len();
        let mut i: usize = 0;
        while i < n
            invariant
                0 <= i <= n,
                n == old(self).module.functions@.len(),
                self.module.function_origins@ == normal_origins(old(self).module.functions@.take(i as int)),
                *self == (HirBuilder {
                    module: HirModuleDecls { function_origins: self.module.function_origins, ..old(self).module },
                    ..*old(self)
                }),
            decreases n - i,
        {
            proof {
                let fs = old(self).module.functions@;
                assert(fs.take(i + 1).drop_last() =~= fs.take(i as int));
                assert(fs.take(i + 1).last() == fs[i as int]);
            }
            let id = self.module.functions[i].id.0;
            fx_map_insert(&mut self.module.function_origins, id, HirFunctionOrigin::Normal);
            i = i + 1;
        }
        proof {
            assert(old(self).module.functions@.take(n as int) =~= old(self).module.functions@);
        }
        let start = self.module.start_function.0;
        fx_map_insert(&mut self.module.function_origins, start, HirFunctionOrigin::EntryStart);
        Ok(())
    }
}

/// The functions tagged as normal are exactly the module's functions, and no function is
/// left without a tag.
pub proof fn lemma_normal_origins_cover(functions: Seq<HirFunction>, m: Map<u32, HirFunctionOrigin>)
    requires
        forall|k: u32| #[trigger] normal_origins(functions).contains_key(k) ==> m.contains_key(k),
    ensures
        normal_origins(functions).dom() == function_numbers(functions).to_set(),
        first_without_origin(functions, m) is None,
    decreases functions.len(),
{
    if functions.len() > 0 {
        let prev = functions.drop_last();
        assert forall|k: u32| #[trigger] normal_origins(prev).contains_key(k) implies m.contains_key(k) by {
            assert(normal_origins(functions).contains_key(k));
        }
        lemma_normal_origins_cover(prev, m);
        let fnums = function_numbers(functions);
        let pnums = function_numbers(prev);
        assert(fnums =~= pnums.push(functions.last().id.0));
        assert forall|k: u32| normal_origins(functions).dom().contains(k) == fnums.to_set().contains(k) by {
            if pnums.contains(k) {
                let j = choose|j: int| 0 <= j < pnums.len() && pnums[j] == k;
                assert(fnums[j] == k);
            }
            if fnums.contains(k) {
                let j = choose|j: int| 0 <= j < fnums.len() && fnums[j] == k;
                if j < pnums.len() {
                    assert(pnums[j] == k);
                }
            }
            if k == functions.last().id.0 {
                assert(fnums[fnums.len() - 1] == k);
            }
        }
        assert(normal_origins(functions).dom() =~= fnums.to_set());
        assert(normal_origins(functions).contains_key(functions.last().id.0));
        assert(m.contains_key(functions.last().id.0));
    } else {
        assert forall|k: u32| !function_numbers(functions).to_set().contains(k) by {
            assert(function_numbers(functions).len() == 0);
        }
        assert(normal_origins(functions).dom() =~= function_numbers(functions).to_set());
    }
}

/// Law: assigning origins to a module whose function ids are distinct and whose start
/// function is one of its functions passes the validator's origin check.
pub proof fn lemma_assigned_origins_valid(functions: Seq<HirFunction>, start: FunctionId)
    requires
        function_numbers(functions).no_duplicates(),
        function_numbers(functions).contains(start.0),
    ensures
        origins_error(functions, assigned_origins(functions, start), start) is None,
{
    let m = assigned_origins(functions, start);
    lemma_normal_origins_cover(functions, m);
    assert(m.dom() =~= normal_origins(functions).dom());
    function_numbers(functions).unique_seq_to_set();
    assert(function_numbers(functions).len() == functions.len());
}

} // verus!
