//! Lowering of frontend data types into canonical interned HIR types.
//!
//! A data type lowers to the id of a stored type whose kind has the type's shape, with
//! the ids of its components' lowerings in it (`denotes`); it fails at the first part, in
//! source order, that is not resolved (`type_error`). Types are interned, so lowering
//! only ever adds types to the builder's type context.

use vstd::prelude::*;
use crate::datatypes::{BuiltinGenericType, BuiltinScalarReceiver, DataType, FunctionSignature, GenericBaseType, ReceiverKey};
use crate::errors::CompilerError;
use crate::fx_collections::{fx_map_contains_key, fx_map_get, fx_map_insert};
use crate::hir_builder::{kinds_distinct, type_kind_view, HirBuilder, TypeKindView};
use crate::hir_datatypes::{HirType, HirTypeKind, TypeId};
use crate::hir_nodes::{HirFunction, HirRegion, HirStatement, HirTerminator, HirLocal};
use crate::hir_validation::{HirBlockDecl, HirModuleDecls};
use crate::hir_builder::is_placeholder;
use crate::ids::{BlockId, FunctionId, RegionId};
use crate::ids::{ChoiceId, StructId};
use crate::tokens::SourceLocation;

verus! {

/// The first of two errors, if any.
pub open spec fn first_error(first: Option<CompilerError>, second: Option<CompilerError>) -> Option<CompilerError> {
    match first {
        Some(e) => Some(e),
        None => second,
    }
}

/// Why a data type cannot be lowered with the builder's registered structs and choices:
/// its first part, in source order, that is not resolved.
pub open spec fn type_error(structs: Map<u32, StructId>, choices: Map<u32, ChoiceId>, dt: DataType) -> Option<CompilerError>
    decreases dt, 1int,
{
    match dt {
        DataType::Inferred => Some(CompilerError::InferredTypeInHir),
        DataType::NamedType(_) => Some(CompilerError::UnresolvedNamedType),
        DataType::TypeParameter { .. } => Some(CompilerError::UnresolvedTypeParameter),
        DataType::Reference(inner) => type_error(structs, choices, *inner),
        DataType::GenericInstance { base, arguments } => if base == GenericBaseType::Builtin(BuiltinGenericType::Collection)
            && arguments@.len() == 1 {
            type_error(structs, choices, arguments@[0])
        } else {
            Some(CompilerError::UnresolvedGenericInstance)
        },
        DataType::Returns(values) => if values@.len() == 1 {
            type_error(structs, choices, values@[0])
        } else {
            types_error(structs, choices, values@)
        },
        DataType::Function(receiver, signature) => first_error(
            match receiver {
                Some(ReceiverKey::Struct(path)) => if structs.contains_key(path) {
                    None
                } else {
                    Some(CompilerError::UnresolvedReceiverStruct(path))
                },
                _ => None,
            },
            first_error(types_error(structs, choices, signature.parameters@), types_error(structs, choices, signature.returns@)),
        ),
        DataType::Option(inner) => type_error(structs, choices, *inner),
        DataType::Result { ok, err } => first_error(type_error(structs, choices, *ok), type_error(structs, choices, *err)),
        DataType::Choices { nominal_path } => if choices.contains_key(nominal_path) {
            None
        } else {
            Some(CompilerError::UnresolvedChoice(nominal_path))
        },
        DataType::Struct { nominal_path } => if structs.contains_key(nominal_path) {
            None
        } else {
            Some(CompilerError::UnresolvedStruct(nominal_path))
        },
        _ => None,
    }
}

/// The first error among data types, first to last.
pub open spec fn types_error(structs: Map<u32, StructId>, choices: Map<u32, ChoiceId>, s: Seq<DataType>) -> Option<CompilerError>
    decreases s, 0int,
{
    if s.len() == 0 {
        None
    } else {
        first_error(types_error(structs, choices, s.drop_last()), type_error(structs, choices, s.last()))
    }
}

/// Whether a data type is resolved with the given registered structs and choices: it
/// contains no inferred type, unresolved name, type parameter or generic instance other
/// than a collection of one element type, and every struct, choice and struct receiver
/// it names is registered.
pub open spec fn resolved(structs: Map<u32, StructId>, choices: Map<u32, ChoiceId>, dt: DataType) -> bool
    decreases dt, 1int,
{
    match dt {
        DataType::Inferred => false,
        DataType::NamedType(_) => false,
        DataType::TypeParameter { .. } => false,
        DataType::Reference(inner) => resolved(structs, choices, *inner),
        DataType::Option(inner) => resolved(structs, choices, *inner),
        DataType::GenericInstance { base, arguments } => base == GenericBaseType::Builtin(BuiltinGenericType::Collection)
            && arguments@.len() == 1 && resolved(structs, choices, arguments@[0]),
        DataType::Returns(values) => all_resolved(structs, choices, values@),
        DataType::Function(receiver, signature) => {
            &&& match receiver {
                Some(ReceiverKey::Struct(path)) => structs.contains_key(path),
                _ => true,
            }
            &&& all_resolved(structs, choices, signature.parameters@)
            &&& all_resolved(structs, choices, signature.returns@)
        },
        DataType::Result { ok, err } => resolved(structs, choices, *ok) && resolved(structs, choices, *err),
        DataType::Choices { nominal_path } => choices.contains_key(nominal_path),
        DataType::Struct { nominal_path } => structs.contains_key(nominal_path),
        _ => true,
    }
}

/// Whether every data type of `s` is resolved.
pub open spec fn all_resolved(structs: Map<u32, StructId>, choices: Map<u32, ChoiceId>, s: Seq<DataType>) -> bool
    decreases s, 0int,
{
    s.len() == 0 || (all_resolved(structs, choices, s.drop_last()) && resolved(structs, choices, s.last()))
}

/// Law: lowering is total on resolved types: a data type fails to lower exactly when it
/// is not resolved (see `resolved`); so every scalar, string-like, range, unit and external
/// type, and every composite of resolved types, lowers.
pub proof fn lemma_lowering_total(structs: Map<u32, StructId>, choices: Map<u32, ChoiceId>, dt: DataType)
    ensures
        type_error(structs, choices, dt) is None <==> resolved(structs, choices, dt),
    decreases dt, 1int,
{
    match dt {
        DataType::Reference(inner) => {
            lemma_lowering_total(structs, choices, *inner);
            assert(type_error(structs, choices, dt) == type_error(structs, choices, *inner));
            assert(resolved(structs, choices, dt) == resolved(structs, choices, *inner));
        },
        DataType::Option(inner) => {
            lemma_lowering_total(structs, choices, *inner);
            assert(type_error(structs, choices, dt) == type_error(structs, choices, *inner));
            assert(resolved(structs, choices, dt) == resolved(structs, choices, *inner));
        },
        DataType::GenericInstance { base, arguments } => {
            if arguments@.len() == 1 {
                lemma_lowering_total(structs, choices, arguments@[0]);
            }
        },
        DataType::Returns(values) => {
            lemma_all_lowering_total(structs, choices, values@);
            if values@.len() == 1 {
                lemma_lowering_total(structs, choices, values@[0]);
                assert(values@.drop_last() =~= Seq::<DataType>::empty());
                assert(values@.last() == values@[0]);
                assert(all_resolved(structs, choices, values@.drop_last()));
                assert(all_resolved(structs, choices, values@) == resolved(structs, choices, values@[0]));
            }
        },
        DataType::Function(receiver, signature) => {
            lemma_all_lowering_total(structs, choices, signature.parameters@);
            lemma_all_lowering_total(structs, choices, signature.returns@);
        },
        DataType::Result { ok, err } => {
            lemma_lowering_total(structs, choices, *ok);
            lemma_lowering_total(structs, choices, *err);
        },
        _ => {},
    }
}

/// Law: composite data types lower to the type kind of the same shape, with components
/// lowered in place: an option to an option of its inner type, a result to a result whose
/// success and error types are those of `ok` and `err` in that order, and a collection
/// instance to a collection of its element type.
pub proof fn lemma_composite_lowering(structs: Map<u32, StructId>, choices: Map<u32, ChoiceId>, types: Seq<HirType>, id: TypeId, dt: DataType)
    requires
        denotes(structs, choices, types, id, dt),
    ensures
        dt matches DataType::Option(inner) ==> (kind_at(types, id) matches TypeKindView::Option { inner: t } && denotes(
            structs,
            choices,
            types,
            t,
            *inner,
        )),
        dt matches DataType::Result { ok, err } ==> (kind_at(types, id) matches TypeKindView::Result { ok: o, err: e }
            && denotes(structs, choices, types, o, *ok) && denotes(structs, choices, types, e, *err)),
        dt matches DataType::GenericInstance { arguments, .. } ==> (arguments@.len() == 1 && (kind_at(types, id) matches TypeKindView::Collection {
            element,
        } && denotes(structs, choices, types, element, arguments@[0]))),
{
}

/// A list of data types fails to lower exactly when one of them is not resolved.
pub proof fn lemma_all_lowering_total(structs: Map<u32, StructId>, choices: Map<u32, ChoiceId>, s: Seq<DataType>)
    ensures
        types_error(structs, choices, s) is None <==> all_resolved(structs, choices, s),
    decreases s, 0int,
{
    if s.len() > 0 {
        lemma_all_lowering_total(structs, choices, s.drop_last());
        lemma_lowering_total(structs, choices, s.last());
    }
}

/// Law: a scalar, string-like, range, unit or external data type always lowers, and to
/// the type kind of its own name: booleans (and the truth literals) to `Bool`, `Int`,
/// `Float`, `Decimal` and `Char` to themselves, error kinds, string slices, templates and
/// paths to `String`, `Range` to `Range`, the none type to `Unit`, an external type to
/// that external type.
pub proof fn lemma_scalar_lowering(structs: Map<u32, StructId>, choices: Map<u32, ChoiceId>, types: Seq<HirType>, id: TypeId, dt: DataType)
    requires
        (id.0 as int) < types.len(),
    ensures
        (dt is Bool || dt is True || dt is False) ==> type_error(structs, choices, dt) is None && (denotes(
            structs,
            choices,
            types,
            id,
            dt,
        ) <==> kind_at(types, id) == TypeKindView::Bool),
        dt is Int ==> type_error(structs, choices, dt) is None && (denotes(structs, choices, types, id, dt) <==> kind_at(types, id)
            == TypeKindView::Int),
        dt is Float ==> type_error(structs, choices, dt) is None && (denotes(structs, choices, types, id, dt) <==> kind_at(types, id)
            == TypeKindView::Float),
        dt is Decimal ==> type_error(structs, choices, dt) is None && (denotes(structs, choices, types, id, dt) <==> kind_at(
            types,
            id,
        ) == TypeKindView::Decimal),
        dt is Char ==> type_error(structs, choices, dt) is None && (denotes(structs, choices, types, id, dt) <==> kind_at(types, id)
            == TypeKindView::Char),
        (dt is BuiltinErrorKind || dt is StringSlice || dt is Template || dt is TemplateWrapper || dt is Path)
            ==> type_error(structs, choices, dt) is None && (denotes(structs, choices, types, id, dt)
            <==> kind_at(types, id) == TypeKindView::String),
        dt is Range ==> type_error(structs, choices, dt) is None && (denotes(structs, choices, types, id, dt) <==> kind_at(types, id)
            == TypeKindView::Range),
        dt is NoValue ==> type_error(structs, choices, dt) is None && (denotes(structs, choices, types, id, dt) <==> kind_at(
            types,
            id,
        ) == TypeKindView::Unit),
        dt matches DataType::External { type_id } ==> type_error(structs, choices, dt) is None && (denotes(
            structs,
            choices,
            types,
            id,
            dt,
        ) <==> kind_at(types, id) == TypeKindView::External { type_id }),
{
}

/// The kind of stored type `id` of `types` (meaningful when `id` is stored).
pub open spec fn kind_at(types: Seq<HirType>, id: TypeId) -> TypeKindView {
    type_kind_view(types[id.0 as int].kind)
}

/// Type `id` of `types` is the lowering of `dt`: it is stored and its kind has the shape
/// of `dt`, with components that are the lowerings of `dt`'s components. Builtin truth
/// values are booleans; error kinds, string slices, templates and paths are strings; a
/// reference is its target; one returned value is that value and none is the unit.
pub open spec fn denotes(structs: Map<u32, StructId>, choices: Map<u32, ChoiceId>, types: Seq<HirType>, id: TypeId, dt: DataType) -> bool
    decreases dt, 1int,
{
    &&& (id.0 as int) < types.len()
    &&& match dt {
        DataType::Reference(inner) => denotes(structs, choices, types, id, *inner),
        DataType::Bool | DataType::True | DataType::False => kind_at(types, id) == TypeKindView::Bool,
        DataType::Int => kind_at(types, id) == TypeKindView::Int,
        DataType::Float => kind_at(types, id) == TypeKindView::Float,
        DataType::Decimal => kind_at(types, id) == TypeKindView::Decimal,
        DataType::Char => kind_at(types, id) == TypeKindView::Char,
        DataType::BuiltinErrorKind | DataType::StringSlice | DataType::Template | DataType::TemplateWrapper
        | DataType::Path(_) => kind_at(types, id) == TypeKindView::String,
        DataType::Range => kind_at(types, id) == TypeKindView::Range,
        DataType::NoValue => kind_at(types, id) == TypeKindView::Unit,
        DataType::GenericInstance { arguments, .. } => arguments@.len() == 1 && match kind_at(types, id) {
            TypeKindView::Collection { element } => denotes(structs, choices, types, element, arguments@[0]),
            _ => false,
        },
        DataType::Returns(values) => if values@.len() == 0 {
            kind_at(types, id) == TypeKindView::Unit
        } else if values@.len() == 1 {
            denotes(structs, choices, types, id, values@[0])
        } else {
            match kind_at(types, id) {
                TypeKindView::Tuple { fields } => all_denote(structs, choices, types, fields, values@),
                _ => false,
            }
        },
        DataType::Function(receiver, signature) => match kind_at(types, id) {
            TypeKindView::Function { receiver: r, params, returns: rets } => {
                &&& receiver_denotes(structs, choices, types, r, receiver)
                &&& all_denote(structs, choices, types, params, signature.parameters@)
                &&& all_denote(structs, choices, types, rets, signature.returns@)
            },
            _ => false,
        },
        DataType::Option(inner) => match kind_at(types, id) {
            TypeKindView::Option { inner: t } => denotes(structs, choices, types, t, *inner),
            _ => false,
        },
        DataType::Result { ok, err } => match kind_at(types, id) {
            TypeKindView::Result { ok: o, err: e } => denotes(structs, choices, types, o, *ok) && denotes(structs, choices, types, e, *err),
            _ => false,
        },
        DataType::Choices { nominal_path } => kind_at(types, id) == TypeKindView::Choice {
            choice_id: choices[nominal_path],
        },
        DataType::Struct { nominal_path } => kind_at(types, id) == TypeKindView::Struct {
            struct_id: structs[nominal_path],
        },
        DataType::External { type_id } => kind_at(types, id) == TypeKindView::External { type_id },
        _ => false,
    }
}

/// Each of `ids` is the lowering of the data type at the same position.
pub open spec fn all_denote(structs: Map<u32, StructId>, choices: Map<u32, ChoiceId>, types: Seq<HirType>, ids: Seq<TypeId>, dts: Seq<DataType>) -> bool
    decreases dts, 0int,
{
    &&& ids.len() == dts.len()
    &&& dts.len() > 0 ==> all_denote(structs, choices, types, ids.drop_last(), dts.drop_last()) && denotes(structs, choices, types, ids.last(), dts.last())
}

/// The receiver type `r` is the lowering of the receiver key: none for none, the struct
/// registered under the path, or the builtin scalar type.
pub open spec fn receiver_denotes(structs: Map<u32, StructId>, choices: Map<u32, ChoiceId>, types: Seq<HirType>, r: Option<TypeId>, key: Option<ReceiverKey>) -> bool {
    match key {
        None => r is None,
        Some(k) => r matches Some(t) && (t.0 as int) < types.len() && kind_at(types, t) == match k {
            ReceiverKey::Struct(path) => TypeKindView::Struct { struct_id: structs[path] },
            ReceiverKey::BuiltinScalar(BuiltinScalarReceiver::Int) => TypeKindView::Int,
            ReceiverKey::BuiltinScalar(BuiltinScalarReceiver::Float) => TypeKindView::Float,
            ReceiverKey::BuiltinScalar(BuiltinScalarReceiver::Bool) => TypeKindView::Bool,
            ReceiverKey::BuiltinScalar(BuiltinScalarReceiver::String) => TypeKindView::String,
            ReceiverKey::BuiltinScalar(BuiltinScalarReceiver::Char) => TypeKindView::Char,
        },
    }
}

/// The number of parts of a data type, a bound on the types its lowering adds.
pub open spec fn type_size(dt: DataType) -> nat
    decreases dt, 1int,
{
    1 + match dt {
        DataType::Reference(inner) => type_size(*inner),
        DataType::GenericInstance { arguments, .. } => types_size(arguments@),
        DataType::Returns(values) => types_size(values@),
        DataType::Function(_, signature) => 1 + types_size(signature.parameters@) + types_size(signature.returns@),
        DataType::Option(inner) => type_size(*inner),
        DataType::Result { ok, err } => type_size(*ok) + type_size(*err),
        _ => 0nat,
    }
}

/// The number of parts of data types.
pub open spec fn types_size(s: Seq<DataType>) -> nat
    decreases s, 0int,
{
    if s.len() == 0 {
        0
    } else {
        types_size(s.drop_last()) + type_size(s.last())
    }
}

/// The builder after lowering from `before`: only types were added.
pub open spec fn only_types_added(before: HirBuilder, after: HirBuilder) -> bool {
    &&& before.type_context@.len() <= after.type_context@.len()
    &&& after.type_context@.subrange(0, before.type_context@.len() as int) == before.type_context@
    &&& after == (HirBuilder { type_context: after.type_context, ..before })
}

/// Adding types twice adds types.
pub proof fn lemma_only_types_added_trans(a: HirBuilder, b: HirBuilder, c: HirBuilder)
    requires
        only_types_added(a, b),
        only_types_added(b, c),
    ensures
        only_types_added(a, c),
{
    let n = a.type_context@.len() as int;
    assert(c.type_context@.subrange(0, n) =~= b.type_context@.subrange(0, n));
}

/// Lowerings stay lowerings when types are added.
pub proof fn lemma_denotes_grow(structs: Map<u32, StructId>, choices: Map<u32, ChoiceId>, t1: Seq<HirType>, t2: Seq<HirType>, id: TypeId, dt: DataType)
    requires
        denotes(structs, choices, t1, id, dt),
        t1.len() <= t2.len(),
        t2.subrange(0, t1.len() as int) == t1,
    ensures
        denotes(structs, choices, t2, id, dt),
    decreases dt, 1int,
{
    assert(t2[id.0 as int] == t1[id.0 as int]);
    match dt {
        DataType::Reference(inner) => lemma_denotes_grow(structs, choices, t1, t2, id, *inner),
        DataType::GenericInstance { arguments, .. } => {
            if let TypeKindView::Collection { element } = kind_at(t1, id) {
                lemma_denotes_grow(structs, choices, t1, t2, element, arguments@[0]);
            }
        },
        DataType::Returns(values) => {
            if values@.len() == 1 {
                lemma_denotes_grow(structs, choices, t1, t2, id, values@[0]);
            } else if values@.len() > 1 {
                if let TypeKindView::Tuple { fields } = kind_at(t1, id) {
                    lemma_all_denote_grow(structs, choices, t1, t2, fields, values@);
                }
            }
        },
        DataType::Function(receiver, signature) => {
            if let TypeKindView::Function { receiver: r, params, returns: rets } = kind_at(t1, id) {
                if let Some(t) = r {
                    assert(t2[t.0 as int] == t1[t.0 as int]);
                }
                lemma_all_denote_grow(structs, choices, t1, t2, params, signature.parameters@);
                lemma_all_denote_grow(structs, choices, t1, t2, rets, signature.returns@);
            }
        },
        DataType::Option(inner) => {
            if let TypeKindView::Option { inner: t } = kind_at(t1, id) {
                lemma_denotes_grow(structs, choices, t1, t2, t, *inner);
            }
        },
        DataType::Result { ok, err } => {
            if let TypeKindView::Result { ok: o, err: e } = kind_at(t1, id) {
                lemma_denotes_grow(structs, choices, t1, t2, o, *ok);
                lemma_denotes_grow(structs, choices, t1, t2, e, *err);
            }
        },
        _ => {},
    }
}

/// Sequences of lowerings stay lowerings when types are added.
pub proof fn lemma_all_denote_grow(structs: Map<u32, StructId>, choices: Map<u32, ChoiceId>, t1: Seq<HirType>, t2: Seq<HirType>, ids: Seq<TypeId>, dts: Seq<DataType>)
    requires
        all_denote(structs, choices, t1, ids, dts),
        t1.len() <= t2.len(),
        t2.subrange(0, t1.len() as int) == t1,
    ensures
        all_denote(structs, choices, t2, ids, dts),
    decreases dts, 0int,
{
    if dts.len() > 0 {
        lemma_all_denote_grow(structs, choices, t1, t2, ids.drop_last(), dts.drop_last());
        lemma_denotes_grow(structs, choices, t1, t2, ids.last(), dts.last());
    }
}

/// Two stored types with the same kind are the same type when kinds are distinct.
pub proof fn lemma_same_kind_same_id(types: Seq<HirType>, a: TypeId, b: TypeId)
    requires
        kinds_distinct(types),
        (a.0 as int) < types.len(),
        (b.0 as int) < types.len(),
        kind_at(types, a) == kind_at(types, b),
    ensures
        a == b,
{
    if a.0 < b.0 {
        assert(type_kind_view(types[a.0 as int].kind) != type_kind_view(types[b.0 as int].kind));
    } else if b.0 < a.0 {
        assert(type_kind_view(types[b.0 as int].kind) != type_kind_view(types[a.0 as int].kind));
    }
}

/// Law: lowering is canonical: in a type context where each kind is stored once, a data
/// type has exactly one lowering, so lowering it again, or lowering a single returned
/// value of it, gives the same type id.
pub proof fn lemma_lowering_unique(
    structs: Map<u32, StructId>,
    choices: Map<u32, ChoiceId>,
    types: Seq<HirType>,
    a: TypeId,
    b: TypeId,
    dt: DataType,
)
    requires
        kinds_distinct(types),
        denotes(structs, choices, types, a, dt),
        denotes(structs, choices, types, b, dt),
    ensures
        a == b,
    decreases dt, 1int,
{
    match dt {
        DataType::Reference(inner) => lemma_lowering_unique(structs, choices, types, a, b, *inner),
        DataType::GenericInstance { arguments, .. } => {
            if let (TypeKindView::Collection { element: x }, TypeKindView::Collection { element: y }) = (kind_at(types, a), kind_at(types, b)) {
                lemma_lowering_unique(structs, choices, types, x, y, arguments@[0]);
            }
            lemma_same_kind_same_id(types, a, b);
        },
        DataType::Returns(values) => {
            if values@.len() == 1 {
                lemma_lowering_unique(structs, choices, types, a, b, values@[0]);
            } else if values@.len() > 1 {
                if let (TypeKindView::Tuple { fields: x }, TypeKindView::Tuple { fields: y }) = (kind_at(types, a), kind_at(types, b)) {
                    lemma_all_lowerings_unique(structs, choices, types, x, y, values@);
                }
                lemma_same_kind_same_id(types, a, b);
            } else {
                lemma_same_kind_same_id(types, a, b);
            }
        },
        DataType::Function(receiver, signature) => {
            if let (
                TypeKindView::Function { receiver: r1, params: p1, returns: t1 },
                TypeKindView::Function { receiver: r2, params: p2, returns: t2 },
            ) = (kind_at(types, a), kind_at(types, b)) {
                if let (Some(x), Some(y)) = (r1, r2) {
                    lemma_same_kind_same_id(types, x, y);
                }
                lemma_all_lowerings_unique(structs, choices, types, p1, p2, signature.parameters@);
                lemma_all_lowerings_unique(structs, choices, types, t1, t2, signature.returns@);
            }
            lemma_same_kind_same_id(types, a, b);
        },
        DataType::Option(inner) => {
            if let (TypeKindView::Option { inner: x }, TypeKindView::Option { inner: y }) = (kind_at(types, a), kind_at(types, b)) {
                lemma_lowering_unique(structs, choices, types, x, y, *inner);
            }
            lemma_same_kind_same_id(types, a, b);
        },
        DataType::Result { ok, err } => {
            if let (TypeKindView::Result { ok: o1, err: e1 }, TypeKindView::Result { ok: o2, err: e2 }) = (kind_at(types, a), kind_at(types, b)) {
                lemma_lowering_unique(structs, choices, types, o1, o2, *ok);
                lemma_lowering_unique(structs, choices, types, e1, e2, *err);
            }
            lemma_same_kind_same_id(types, a, b);
        },
        _ => lemma_same_kind_same_id(types, a, b),
    }
}

/// Sequences of lowerings of the same data types are the same ids.
pub proof fn lemma_all_lowerings_unique(
    structs: Map<u32, StructId>,
    choices: Map<u32, ChoiceId>,
    types: Seq<HirType>,
    a: Seq<TypeId>,
    b: Seq<TypeId>,
    dts: Seq<DataType>,
)
    requires
        kinds_distinct(types),
        all_denote(structs, choices, types, a, dts),
        all_denote(structs, choices, types, b, dts),
    ensures
        a == b,
    decreases dts, 0int,
{
    if dts.len() > 0 {
        lemma_all_lowerings_unique(structs, choices, types, a.drop_last(), b.drop_last(), dts.drop_last());
        lemma_lowering_unique(structs, choices, types, a.last(), b.last(), dts.last());
        assert(a =~= a.drop_last().push(a.last()));
        assert(b =~= b.drop_last().push(b.last()));
    } else {
        assert(a =~= b);
    }
}

/// The size of a prefix grows by the next type's size and never exceeds the whole.
pub proof fn lemma_types_size_prefix(s: Seq<DataType>, k: int)
    requires
        0 <= k < s.len(),
    ensures
        types_size(s.take(k + 1)) == types_size(s.take(k)) + type_size(s[k]),
        types_size(s.take(k + 1)) <= types_size(s),
    decreases s.len(),
{
    assert(s.take(k + 1).drop_last() =~= s.take(k));
    if k + 1 < s.len() {
        assert(s.drop_last().take(k + 1) =~= s.take(k + 1));
        assert(s.drop_last().take(k) =~= s.take(k));
        lemma_types_size_prefix(s.drop_last(), k);
    } else {
        assert(s.take(k + 1) =~= s);
    }
}

/// A sequence error is the error of its first failing prefix.
pub proof fn lemma_types_error_prefix(structs: Map<u32, StructId>, choices: Map<u32, ChoiceId>, s: Seq<DataType>, k: int)
    requires
        0 <= k <= s.len(),
        types_error(structs, choices, s.take(k)) is Some,
    ensures
        types_error(structs, choices, s) == types_error(structs, choices, s.take(k)),
    decreases s.len(),
{
    if k < s.len() {
        assert(s.drop_last().take(k) =~= s.take(k));
        lemma_types_error_prefix(structs, choices, s.drop_last(), k);
    } else {
        assert(s.take(k) =~= s);
    }
}

impl HirBuilder {
    /// Interns `kind`, keeping what was lowered before.
    fn intern_kind(&mut self, kind: HirTypeKind) -> (id: TypeId)
        requires
            old(self).wf(),
            old(self).type_context@.len() < u32::MAX,
        ensures
            final(self).wf(),
            only_types_added(*old(self), *final(self)),
            final(self).type_context@.len() <= old(self).type_context@.len() + 1,
            (id.0 as int) < final(self).type_context@.len(),
            kind_at(final(self).type_context@, id) == type_kind_view(kind),
    {
        let id = self.intern_type_kind(kind);
        proof {
            assert(self.type_context@.subrange(0, old(self).type_context@.len() as int) =~= old(self).type_context@);
        }
        id
    }

    /// Lowers a data type to the id of its canonical HIR type (see `denotes`), failing with
    /// `type_error`; only types are added to the builder.
    pub fn lower_data_type(&mut self, data_type: &DataType, location: &SourceLocation) -> (r: Result<TypeId, CompilerError>)
        requires
            old(self).wf(),
            old(self).type_context@.len() + type_size(*data_type) < u32::MAX,
        ensures
            final(self).wf(),
            only_types_added(*old(self), *final(self)),
            final(self).type_context@.len() <= old(self).type_context@.len() + type_size(*data_type),
            match type_error(old(self).structs_by_name@, old(self).choices_by_name@, *data_type) {
                Some(e) => r == Err::<TypeId, CompilerError>(e),
                None => r matches Ok(id) && denotes(old(self).structs_by_name@, old(self).choices_by_name@, final(self).type_context@, id, *data_type),
            },
        decreases data_type, 1int,
    {
        let ghost b0 = *self;
        proof {
            assert(self.type_context@.subrange(0, self.type_context@.len() as int) =~= self.type_context@);
        }
        let kind = match data_type {
            DataType::Inferred => return Err(CompilerError::InferredTypeInHir),
            DataType::NamedType(_) => return Err(CompilerError::UnresolvedNamedType),
            DataType::TypeParameter { .. } => return Err(CompilerError::UnresolvedTypeParameter),
            DataType::Reference(inner) => return self.lower_data_type(inner, location),
            DataType::Bool | DataType::True | DataType::False => HirTypeKind::Bool,
            DataType::Int => HirTypeKind::Int,
            DataType::Float => HirTypeKind::Float,
            DataType::Decimal => HirTypeKind::Decimal,
            DataType::Char => HirTypeKind::Char,
            DataType::BuiltinErrorKind => HirTypeKind::String,
            DataType::StringSlice | DataType::Template | DataType::TemplateWrapper | DataType::Path(_) => HirTypeKind::String,
            DataType::Range => HirTypeKind::Range,
            DataType::NoValue => HirTypeKind::Unit,
            DataType::GenericInstance { base, arguments } => {
                let is_collection = match base {
                    GenericBaseType::Builtin(BuiltinGenericType::Collection) => true,
                    _ => false,
                };
                if is_collection && arguments.len() == 1 {
                    proof {
                        assert(types_size(arguments@) == type_size(arguments@[0])) by {
                            assert(arguments@.drop_last().len() == 0);
                            assert(types_size(arguments@.drop_last()) == 0);
                            assert(arguments@.last() == arguments@[0]);
                        }
                    }
                    let element = match self.lower_data_type(&arguments[0], location) {
                        Ok(t) => t,
                        Err(e) => return Err(e),
                    };
                    assert(type_error(b0.structs_by_name@, b0.choices_by_name@, *data_type) is None);
                    HirTypeKind::Collection { element }
                } else {
                    return Err(CompilerError::UnresolvedGenericInstance);
                }
            },
            DataType::Returns(values) => return self.lower_return_types(values, location),
            DataType::Function(receiver, signature) => {
                let receiver_type = match receiver {
                    Some(ReceiverKey::Struct(path)) => match fx_map_get(&self.structs_by_name, *path) {
                        Some(struct_id) => Some(self.intern_kind(HirTypeKind::Struct { struct_id: *struct_id })),
                        None => return Err(CompilerError::UnresolvedReceiverStruct(*path)),
                    },
                    Some(ReceiverKey::BuiltinScalar(BuiltinScalarReceiver::Int)) => Some(self.intern_kind(HirTypeKind::Int)),
                    Some(ReceiverKey::BuiltinScalar(BuiltinScalarReceiver::Float)) => Some(self.intern_kind(HirTypeKind::Float)),
                    Some(ReceiverKey::BuiltinScalar(BuiltinScalarReceiver::Bool)) => Some(self.intern_kind(HirTypeKind::Bool)),
                    Some(ReceiverKey::BuiltinScalar(BuiltinScalarReceiver::String)) => Some(self.intern_kind(HirTypeKind::String)),
                    Some(ReceiverKey::BuiltinScalar(BuiltinScalarReceiver::Char)) => Some(self.intern_kind(HirTypeKind::Char)),
                    None => None,
                };
                let ghost b1 = *self;
                let params = match self.lower_data_types(&signature.parameters, location) {
                    Ok(p) => p,
                    Err(e) => {
                        proof {
                            lemma_only_types_added_trans(b0, b1, *self);
                        }
                        return Err(e);
                    },
                };
                let ghost b2 = *self;
                let return_types = match self.lower_data_types(&signature.returns, location) {
                    Ok(p) => p,
                    Err(e) => {
                        proof {
                            lemma_only_types_added_trans(b0, b1, b2);
                            lemma_only_types_added_trans(b0, b2, *self);
                        }
                        return Err(e);
                    },
                };
                proof {
                    lemma_only_types_added_trans(b0, b1, b2);
                    lemma_only_types_added_trans(b0, b2, *self);
                    if let Some(t) = receiver_type {
                        assert(self.type_context@[t.0 as int] == b1.type_context@[t.0 as int]);
                    }
                    lemma_all_denote_grow(b0.structs_by_name@, b0.choices_by_name@, b2.type_context@, self.type_context@, params@, signature.parameters@);
                }
                assert(type_error(b0.structs_by_name@, b0.choices_by_name@, *data_type) is None);
                HirTypeKind::Function { receiver: receiver_type, params, returns: return_types }
            },
            DataType::Option(inner) => {
                let t = match self.lower_data_type(inner, location) {
                    Ok(t) => t,
                    Err(e) => return Err(e),
                };
                assert(type_error(b0.structs_by_name@, b0.choices_by_name@, *data_type) is None);
                HirTypeKind::Option { inner: t }
            },
            DataType::Result { ok, err } => {
                let o = match self.lower_data_type(ok, location) {
                    Ok(t) => t,
                    Err(e) => return Err(e),
                };
                let ghost b1 = *self;
                let e = match self.lower_data_type(err, location) {
                    Ok(t) => t,
                    Err(e) => {
                        proof {
                            lemma_only_types_added_trans(b0, b1, *self);
                        }
                        return Err(e);
                    },
                };
                proof {
                    lemma_only_types_added_trans(b0, b1, *self);
                    lemma_denotes_grow(b0.structs_by_name@, b0.choices_by_name@, b1.type_context@, self.type_context@, o, **ok);
                }
                assert(type_error(b0.structs_by_name@, b0.choices_by_name@, *data_type) is None);
                HirTypeKind::Result { ok: o, err: e }
            },
            DataType::Choices { nominal_path } => match fx_map_get(&self.choices_by_name, *nominal_path) {
                Some(choice_id) => HirTypeKind::Choice { choice_id: *choice_id },
                None => return Err(CompilerError::UnresolvedChoice(*nominal_path)),
            },
            DataType::Struct { nominal_path } => match fx_map_get(&self.structs_by_name, *nominal_path) {
                Some(struct_id) => HirTypeKind::Struct { struct_id: *struct_id },
                None => return Err(CompilerError::UnresolvedStruct(*nominal_path)),
            },
            DataType::External { type_id } => HirTypeKind::External { type_id: *type_id },
        };
        let ghost before_intern = *self;
        let ghost k = kind;
        let id = self.intern_kind(kind);
        proof {
            lemma_only_types_added_trans(b0, before_intern, *self);
            match data_type {
                DataType::GenericInstance { arguments, .. } => {
                    if let HirTypeKind::Collection { element } = k {
                        lemma_denotes_grow(b0.structs_by_name@, b0.choices_by_name@, before_intern.type_context@, self.type_context@, element, arguments@[0]);
                    }
                },
                DataType::Function(receiver, signature) => {
                    if let HirTypeKind::Function { receiver: r, params, returns: rets } = k {
                        if let Some(t) = r {
                            assert(self.type_context@[t.0 as int] == before_intern.type_context@[t.0 as int]);
                        }
                        lemma_all_denote_grow(b0.structs_by_name@, b0.choices_by_name@, before_intern.type_context@, self.type_context@, params@, signature.parameters@);
                        lemma_all_denote_grow(b0.structs_by_name@, b0.choices_by_name@, before_intern.type_context@, self.type_context@, rets@, signature.returns@);
                    }
                },
                DataType::Option(inner) => {
                    if let HirTypeKind::Option { inner: t } = k {
                        lemma_denotes_grow(b0.structs_by_name@, b0.choices_by_name@, before_intern.type_context@, self.type_context@, t, **inner);
                    }
                },
                DataType::Result { ok, err } => {
                    if let HirTypeKind::Result { ok: o, err: e } = k {
                        lemma_denotes_grow(b0.structs_by_name@, b0.choices_by_name@, before_intern.type_context@, self.type_context@, o, **ok);
                        lemma_denotes_grow(b0.structs_by_name@, b0.choices_by_name@, before_intern.type_context@, self.type_context@, e, **err);
                    }
                },
                _ => {},
            }
        }
        Ok(id)
    }

    /// Lowers the values a function returns as one type: none is the unit type, one is
    /// that value's type, several are the tuple of their types (see `denotes` on
    /// `DataType::Returns`).
    pub fn lower_return_types(&mut self, values: &Vec<DataType>, location: &SourceLocation) -> (r: Result<TypeId, CompilerError>)
        requires
            old(self).wf(),
            old(self).type_context@.len() + type_size(DataType::Returns(*values)) < u32::MAX,
        ensures
            final(self).wf(),
            only_types_added(*old(self), *final(self)),
            final(self).type_context@.len() <= old(self).type_context@.len() + type_size(DataType::Returns(*values)),
            match type_error(old(self).structs_by_name@, old(self).choices_by_name@, DataType::Returns(*values)) {
                Some(e) => r == Err::<TypeId, CompilerError>(e),
                None => r matches Ok(id) && denotes(
                    old(self).structs_by_name@,
                    old(self).choices_by_name@,
                    final(self).type_context@,
                    id,
                    DataType::Returns(*values),
                ),
            },
        decreases values, 1int,
    {
        let ghost b0 = *self;
        proof {
            assert(self.type_context@.subrange(0, self.type_context@.len() as int) =~= self.type_context@);
        }
        if values.len() == 0 {
            let id = self.intern_kind(HirTypeKind::Unit);
            proof {
                assert(types_error(b0.structs_by_name@, b0.choices_by_name@, values@) is None);
                assert(kind_at(self.type_context@, id) == TypeKindView::Unit);
            }
            return Ok(id);
        }
        if values.len() == 1 {
            proof {
                assert(decreases_to!(values => values@[0]));
                assert(types_size(values@) == type_size(values@[0])) by {
                    assert(values@.drop_last().len() == 0);
                    assert(types_size(values@.drop_last()) == 0);
                    assert(values@.last() == values@[0]);
                }
            }
            return self.lower_data_type(&values[0], location);
        }
        let fields = match self.lower_data_types(values, location) {
            Ok(f) => f,
            Err(e) => return Err(e),
        };
        let ghost before_intern = *self;
        let ghost field_ids = fields@;
        let id = self.intern_kind(HirTypeKind::Tuple { fields });
        proof {
            lemma_only_types_added_trans(b0, before_intern, *self);
            lemma_all_denote_grow(b0.structs_by_name@, b0.choices_by_name@, before_intern.type_context@, self.type_context@, field_ids, values@);
        }
        Ok(id)
    }

    /// Lowers data types in order (see `all_denote`), failing at the first error.
    pub fn lower_data_types(&mut self, data_types: &Vec<DataType>, location: &SourceLocation) -> (r: Result<Vec<TypeId>, CompilerError>)
        requires
            old(self).wf(),
            old(self).type_context@.len() + types_size(data_types@) < u32::MAX,
        ensures
            final(self).wf(),
            only_types_added(*old(self), *final(self)),
            final(self).type_context@.len() <= old(self).type_context@.len() + types_size(data_types@),
            match types_error(old(self).structs_by_name@, old(self).choices_by_name@, data_types@) {
                Some(e) => r == Err::<Vec<TypeId>, CompilerError>(e),
                None => r matches Ok(ids) && all_denote(old(self).structs_by_name@, old(self).choices_by_name@, final(self).type_context@, ids@, data_types@),
            },
        decreases data_types, 0int,
    {
        let ghost b0 = *self;
        proof {
            assert(self.type_context@.subrange(0, self.type_context@.len() as int) =~= self.type_context@);
        }
        let mut ids: Vec<TypeId> = Vec::new();
        let mut i: usize = 0;
        while i < data_types.len()
            invariant
                0 <= i <= data_types@.len(),
                b0 == *old(self),
                self.wf(),
                only_types_added(b0, *self),
                b0.type_context@.len() + types_size(data_types@) < u32::MAX,
                self.type_context@.len() <= b0.type_context@.len() + types_size(data_types@.take(i as int)),
                types_size(data_types@.take(i as int)) <= types_size(data_types@),
                types_error(b0.structs_by_name@, b0.choices_by_name@, data_types@.take(i as int)) is None,
                all_denote(b0.structs_by_name@, b0.choices_by_name@, self.type_context@, ids@, data_types@.take(i as int)),
            decreases data_types@.len() - i,
        {
            proof {
                assert(decreases_to!(data_types => data_types@[i as int]));
                lemma_types_size_prefix(data_types@, i as int);
                assert(data_types@.take(i + 1).drop_last() =~= data_types@.take(i as int));
                assert(data_types@.take(i + 1).last() == data_types@[i as int]);
            }
            let ghost before = *self;
            let t = match self.lower_data_type(&data_types[i], location) {
                Ok(t) => t,
                Err(e) => {
                    proof {
                        lemma_types_error_prefix(b0.structs_by_name@, b0.choices_by_name@, data_types@, i as int + 1);
                        assert(self.type_context@.subrange(0, b0.type_context@.len() as int) =~= b0.type_context@) by {
                            assert(self.type_context@.subrange(0, before.type_context@.len() as int) == before.type_context@);
                        }
                    }
                    return Err(e);
                },
            };
            proof {
                lemma_all_denote_grow(b0.structs_by_name@, b0.choices_by_name@, before.type_context@, self.type_context@, ids@, data_types@.take(i as int));
                assert(self.type_context@.subrange(0, b0.type_context@.len() as int) =~= b0.type_context@) by {
                    assert(self.type_context@.subrange(0, before.type_context@.len() as int) == before.type_context@);
                }
            }
            let ghost ids_before = ids@;
            ids.push(t);
            proof {
                assert(ids@.drop_last() =~= ids_before);
            }
            i = i + 1;
        }
        proof {
            assert(data_types@.take(data_types@.len() as int) =~= data_types@);
        }
        Ok(ids)
    }
}

/// Each alias list of `a` is the one at the same position of `b`.
pub open spec fn same_aliases(a: Seq<Option<Vec<usize>>>, b: Seq<Option<Vec<usize>>>) -> bool {
    &&& a.len() == b.len()
    &&& forall|i: int| 0 <= i < a.len() ==> match (#[trigger] a[i], b[i]) {
        (Some(x), Some(y)) => x@ == y@,
        (None, None) => true,
        _ => false,
    }
}

/// A copy of alias lists.
fn copy_aliases(v: &Vec<Option<Vec<usize>>>) -> (r: Vec<Option<Vec<usize>>>)
    ensures
        same_aliases(r@, v@),
{
    let mut r: Vec<Option<Vec<usize>>> = Vec::new();
    let mut i: usize = 0;
    while i < v.len()
        invariant
            0 <= i <= v@.len(),
            same_aliases(r@, v@.take(i as int)),
        decreases v@.len() - i,
    {
        let item = match &v[i] {
            Some(list) => {
                let mut copy: Vec<usize> = Vec::new();
                let mut k: usize = 0;
                while k < list.len()
                    invariant
                        0 <= k <= list@.len(),
                        copy@ == list@.take(k as int),
                    decreases list@.len() - k,
                {
                    copy.push(list[k]);
                    proof {
                        assert(list@.take(k + 1) =~= list@.take(k as int).push(list@[k as int]));
                    }
                    k = k + 1;
                }
                proof {
                    assert(list@.take(list@.len() as int) =~= list@);
                }
                Some(copy)
            },
            None => None,
        };
        r.push(item);
        proof {
            assert forall|j: int| 0 <= j < r@.len() implies match (#[trigger] r@[j], v@.take(i + 1)[j]) {
                (Some(x), Some(y)) => x@ == y@,
                (None, None) => true,
                _ => false,
            } by {
                if j < i as int {
                    assert(v@.take(i + 1)[j] == v@.take(i as int)[j]);
                }
            }
        }
        i = i + 1;
    }
    proof {
        assert(v@.take(v@.len() as int) =~= v@);
    }
    r
}

impl HirBuilder {
    /// Declares the function with path handle `name`: a fresh function id, its return
    /// type lowered from the signature's returns, a fresh root region and in it a fresh
    /// entry block with the placeholder terminator, and the function itself with no
    /// parameters yet and the signature's return aliases. A name already declared is
    /// refused with nothing changed; a return type that does not lower fails with its
    /// error after the function id was taken.
    pub fn register_function_declaration(&mut self, name: u32, signature: &FunctionSignature, location: &SourceLocation) -> (r: Result<
        (),
        CompilerError,
    >)
        requires
            old(self).wf(),
            old(self).next_function_id < u32::MAX,
            old(self).next_region_id < u32::MAX,
            old(self).next_block_id < u32::MAX,
            old(self).type_context@.len() + type_size(DataType::Returns(signature.returns)) < u32::MAX,
        ensures
            final(self).wf(),
            old(self).functions_by_name@.contains_key(name) ==> r == Err::<(), CompilerError>(
                CompilerError::DuplicateFunctionDeclaration(name),
            ) && *final(self) == *old(self),
            !old(self).functions_by_name@.contains_key(name) ==> {
                let f = FunctionId(old(self).next_function_id);
                let g = RegionId(old(self).next_region_id);
                let e = BlockId(old(self).next_block_id);
                let (structs, choices) = (old(self).structs_by_name@, old(self).choices_by_name@);
                match type_error(structs, choices, DataType::Returns(signature.returns)) {
                    Some(err) => r == Err::<(), CompilerError>(err) && *final(self) == (HirBuilder {
                        next_function_id: (old(self).next_function_id + 1) as u32,
                        type_context: final(self).type_context,
                        ..*old(self)
                    }) && final(self).type_context@.subrange(0, old(self).type_context@.len() as int) == old(self).type_context@,
                    None => {
                        let function = final(self).module.functions@.last();
                        let block = final(self).module.blocks@.last();
                        let region = final(self).module.regions@.last();
                        &&& r is Ok
                        &&& final(self).type_context@.subrange(0, old(self).type_context@.len() as int) == old(self).type_context@
                        &&& final(self).module.regions@.drop_last() == old(self).module.regions@
                        &&& final(self).module.regions@.len() == old(self).module.regions@.len() + 1
                        &&& region.spec_id() == g && region.spec_parent() == None::<RegionId>
                        &&& final(self).module.blocks@.drop_last() == old(self).module.blocks@
                        &&& final(self).module.blocks@.len() == old(self).module.blocks@.len() + 1
                        &&& block.id == e && block.region == g && is_placeholder(block.terminator)
                        &&& block.locals@ == Seq::<HirLocal>::empty() && block.statements@ == Seq::<HirStatement>::empty()
                        &&& final(self).module.functions@.drop_last() == old(self).module.functions@
                        &&& final(self).module.functions@.len() == old(self).module.functions@.len() + 1
                        &&& function.id == f && function.entry == e && function.params@ == Seq::<crate::ids::LocalId>::empty()
                        &&& denotes(structs, choices, final(self).type_context@, function.return_type, DataType::Returns(signature.returns))
                        &&& same_aliases(function.return_aliases@, signature.return_aliases@)
                        &&& final(self).functions_by_name@ == old(self).functions_by_name@.insert(name, f)
                        &&& final(self).region_index_by_id@ == old(self).region_index_by_id@.insert(g.0, old(self).module.regions@.len() as usize)
                        &&& final(self).block_index_by_id@ == old(self).block_index_by_id@.insert(e.0, old(self).module.blocks@.len() as usize)
                        &&& final(self).function_index_by_id@ == old(self).function_index_by_id@.insert(f.0, old(self).module.functions@.len() as usize)
                        &&& *final(self) == (HirBuilder {
                            module: HirModuleDecls {
                                regions: final(self).module.regions,
                                blocks: final(self).module.blocks,
                                functions: final(self).module.functions,
                                ..old(self).module
                            },
                            next_function_id: (old(self).next_function_id + 1) as u32,
                            next_region_id: (old(self).next_region_id + 1) as u32,
                            next_block_id: (old(self).next_block_id + 1) as u32,
                            type_context: final(self).type_context,
                            functions_by_name: final(self).functions_by_name,
                            region_index_by_id: final(self).region_index_by_id,
                            block_index_by_id: final(self).block_index_by_id,
                            function_index_by_id: final(self).function_index_by_id,
                            ..*old(self)
                        })
                    },
                }
            },
    {
        if fx_map_contains_key(&self.functions_by_name, name) {
            return Err(CompilerError::DuplicateFunctionDeclaration(name));
        }
        let function_id = self.allocate_function_id();
        let ghost b1 = *self;
        let return_type = match self.lower_return_types(&signature.returns, location) {
            Ok(t) => t,
            Err(e) => return Err(e),
        };
        let ghost b2 = *self;
        let region_id = self.allocate_region_id();
        self.push_region(HirRegion::lexical(region_id, None));
        let entry_block_id = self.allocate_block_id();
        let entry_block = HirBlockDecl {
            id: entry_block_id,
            region: region_id,
            locals: Vec::new(),
            statements: Vec::new(),
            terminator: HirTerminator::Panic { message: None },
        };
        self.push_block(entry_block);
        let function = HirFunction {
            id: function_id,
            entry: entry_block_id,
            params: Vec::new(),
            return_type,
            return_aliases: copy_aliases(&signature.return_aliases),
        };
        fx_map_insert(&mut self.functions_by_name, name, function_id);
        self.push_function(function);
        proof {
            assert(self.module.regions@.drop_last() =~= old(self).module.regions@);
            assert(self.module.blocks@.drop_last() =~= old(self).module.blocks@);
            assert(self.module.functions@.drop_last() =~= old(self).module.functions@);
            assert(self.type_context@ == b2.type_context@);
        }
        Ok(())
    }
}

} // verus!
