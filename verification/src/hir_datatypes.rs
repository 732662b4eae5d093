//! The canonical HIR type representation: types are stored once in a [`TypeContext`]
//! and referred to by [`TypeId`].

use vstd::prelude::*;
use crate::ids::{ChoiceId, ExternalTypeId, StructId};

verus! {

/// Stable identifier of a canonical HIR type (its index in the owning [`TypeContext`]).
#[derive(Debug, Clone, Copy, PartialEq, Eq, Structural, Hash)]
pub struct TypeId(pub u32);

/// Canonical type container.
#[derive(Debug, Clone)]
pub struct HirType {
    pub kind: HirTypeKind,
}

/// The structural kinds of HIR types.
#[derive(Debug, Clone, PartialEq, Eq, Hash)]
pub enum HirTypeKind {
    Bool,
    Int,
    Float,
    Decimal,
    Char,
    String,
    Range,
    /// The unit type (no value).
    Unit,
    /// Multiple return values.
    Tuple { fields: Vec<TypeId> },
    /// Dynamically sized homogeneous collection.
    Collection { element: TypeId },
    /// Fully resolved struct type.
    Struct { struct_id: StructId },
    /// Function type; `receiver` is present for method-style functions.
    Function { receiver: Option<TypeId>, params: Vec<TypeId>, returns: Vec<TypeId> },
    /// Optional value of the inner type.
    Option { inner: TypeId },
    /// Success or error value.
    Result { ok: TypeId, err: TypeId },
    /// Nominal choice type.
    Choice { choice_id: ChoiceId },
    /// Opaque type provided by a platform package.
    External { type_id: ExternalTypeId },
}

/// Central type storage: the type with id `t` is the `t.0`-th inserted type.
#[derive(Debug, Clone)]
pub struct TypeContext {
    types: Vec<HirType>,
}

impl View for TypeContext {
    type V = Seq<HirType>;

    closed spec fn view(&self) -> Seq<HirType> {
        self.types@
    }
}

impl Default for TypeContext {
    /// The empty type context.
    fn default() -> (ctx: Self)
        ensures
            ctx@ == Seq::<HirType>::empty(),
    {
        TypeContext { types: Vec::new() }
    }
}

impl TypeContext {
    /// Whether `id` names a stored type.
    pub open spec fn spec_contains(&self, id: TypeId) -> bool {
        (id.0 as int) < self@.len()
    }

    /// Inserts a new canonical type and returns its id, the number of types stored before
    /// the insertion (taken modulo 2^32, as a 32-bit id).
    pub fn insert(&mut self, ty: HirType) -> (id: TypeId)
        ensures
            final(self)@ == old(self)@.push(ty),
            id.0 == old(self)@.len() as u32,
    {
        let id = TypeId(#[verifier::truncate] (self.types.len() as u32));
        self.types.push(ty);
        id
    }

    /// The type stored under `id`.
    pub fn get(&self, id: TypeId) -> (ty: &HirType)
        requires
            self.spec_contains(id),
        ensures
            *ty == self@[id.0 as int],
    {
        &self.types[id.0 as usize]
    }

    /// Whether `id` names a stored type.
    pub fn contains(&self, id: TypeId) -> (b: bool)
        ensures
            b == self.spec_contains(id),
    {
        (id.0 as usize) < self.types.len()
    }

    /// The number of stored types.
    pub fn len(&self) -> (n: usize)
        ensures
            n == self@.len(),
    {
        self.types.len()
    }
}

/// Backend-agnostic classification of a HIR type.
#[derive(Debug, Clone, Copy, PartialEq, Eq, Structural)]
pub enum HirTypeClass {
    Unit,
    Bool,
    Char,
    Int,
    Float,
    Decimal,
    Function,
    HeapAllocated,
}

/// The class of a type kind: scalars map to themselves, function types to `Function`,
/// and every other kind (strings, ranges, compounds, nominal and external types) is heap
/// allocated.
pub open spec fn spec_classify_hir_type(kind: HirTypeKind) -> HirTypeClass {
    match kind {
        HirTypeKind::Unit => HirTypeClass::Unit,
        HirTypeKind::Bool => HirTypeClass::Bool,
        HirTypeKind::Char => HirTypeClass::Char,
        HirTypeKind::Int => HirTypeClass::Int,
        HirTypeKind::Float => HirTypeClass::Float,
        HirTypeKind::Decimal => HirTypeClass::Decimal,
        HirTypeKind::Function { .. } => HirTypeClass::Function,
        _ => HirTypeClass::HeapAllocated,
    }
}

/// Classifies a `HirTypeKind` into a backend-agnostic category.
pub fn classify_hir_type(kind: &HirTypeKind) -> (class: HirTypeClass)
    ensures
        class == spec_classify_hir_type(*kind),
{
    match kind {
        HirTypeKind::Unit => HirTypeClass::Unit,
        HirTypeKind::Bool => HirTypeClass::Bool,
        HirTypeKind::Char => HirTypeClass::Char,
        HirTypeKind::Int => HirTypeClass::Int,
        HirTypeKind::Float => HirTypeClass::Float,
        HirTypeKind::Decimal => HirTypeClass::Decimal,
        HirTypeKind::Function { .. } => HirTypeClass::Function,
        HirTypeKind::String
        | HirTypeKind::Range
        | HirTypeKind::Tuple { .. }
        | HirTypeKind::Collection { .. }
        | HirTypeKind::Struct { .. }
        | HirTypeKind::Option { .. }
        | HirTypeKind::Result { .. }
        | HirTypeKind::Choice { .. }
        | HirTypeKind::External { .. } => HirTypeClass::HeapAllocated,
    }
}

/// Law: a type inserted into a context is found again under the id that `insert` returned,
/// and every type stored before keeps its id (while fewer than 2^32 types are stored).
pub proof fn lemma_insert_then_get(before: TypeContext, after: TypeContext, ty: HirType, id: TypeId)
    requires
        after@ == before@.push(ty),
        id.0 == before@.len() as u32,
        before@.len() < 0x1_0000_0000,
    ensures
        after.spec_contains(id),
        after@[id.0 as int] == ty,
        forall|t: TypeId| #[trigger] before.spec_contains(t) ==> after.spec_contains(t) && after@[t.0 as int] == before@[t.0 as int],
{
    assert(id.0 == before@.len());
}

} // verus!
