//! Frontend data types as HIR type lowering reads them: builtin scalars and strings,
//! references, collections, multiple returns, function signatures with receivers,
//! options, results, nominal structs and choices named by their interned path, and
//! external platform types.

use vstd::prelude::*;
use crate::ids::{ExternalTypeId, InternedString, StringId};
use crate::tokens::SourceLocation;

verus! {

/// A builtin generic type constructor.
#[derive(Debug, Clone, Copy, PartialEq, Eq, Structural)]
pub enum BuiltinGenericType {
    Collection,
}

/// The base of a generic instance: a builtin constructor, or a user generic by its path.
#[derive(Debug, Clone, Copy, PartialEq, Eq, Structural)]
pub enum GenericBaseType {
    Builtin(BuiltinGenericType),
    Named(u32),
}

/// A builtin scalar type that can receive methods.
#[derive(Debug, Clone, Copy, PartialEq, Eq, Structural)]
pub enum BuiltinScalarReceiver {
    Int,
    Float,
    Bool,
    String,
    Char,
}

/// The receiver of a method: a struct by its path, or a builtin scalar.
#[derive(Debug, Clone, Copy, PartialEq, Eq, Structural)]
pub enum ReceiverKey {
    Struct(u32),
    BuiltinScalar(BuiltinScalarReceiver),
}

/// A function signature: the types of its parameters and of its returns, in order, and
/// for each returned value the indices of the parameters it may alias, if any.
#[derive(Debug)]
pub struct FunctionSignature {
    pub parameters: Vec<DataType>,
    pub returns: Vec<DataType>,
    pub return_aliases: Vec<Option<Vec<usize>>>,
}

/// A frontend data type. Paths are interned path handles.
#[derive(Debug)]
pub enum DataType {
    /// Not yet inferred.
    Inferred,
    /// A name not yet resolved to a type.
    NamedType(StringId),
    /// A generic type parameter not yet substituted.
    TypeParameter { id: u32 },
    Reference(Box<DataType>),
    Bool,
    True,
    False,
    Int,
    Float,
    Decimal,
    Char,
    BuiltinErrorKind,
    StringSlice,
    Template,
    TemplateWrapper,
    Path(u32),
    Range,
    /// The `none` type: no value.
    NoValue,
    GenericInstance { base: GenericBaseType, arguments: Vec<DataType> },
    /// The values a function returns.
    Returns(Vec<DataType>),
    Function(Option<ReceiverKey>, FunctionSignature),
    Option(Box<DataType>),
    Result { ok: Box<DataType>, err: Box<DataType> },
    /// A nominal choice type, by its path.
    Choices { nominal_path: u32 },
    /// A nominal struct type, by its path.
    Struct { nominal_path: u32 },
    External { type_id: ExternalTypeId },
}

/// The kind of a documentation fragment of the module source.
#[derive(Debug, Clone, Copy, PartialEq, Eq, Structural)]
pub enum AstDocFragmentKind {
    Doc,
}

/// A documentation fragment of the module source: its kind, its interned text, and where
/// it stands.
#[derive(Debug, Clone, Copy)]
pub struct AstDocFragment {
    pub kind: AstDocFragmentKind,
    pub value: InternedString,
    pub location: SourceLocation,
}

} // verus!
