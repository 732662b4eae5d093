//! Stable numeric identifiers used throughout the HIR.

use vstd::prelude::*;
use crate::text::{decimal, number_label};

verus! {

/// Identifier of a HIR statement node.
#[derive(Debug, Clone, Copy, PartialEq, Eq, Structural, Hash)]
pub struct HirNodeId(pub u32);

/// Identifier of a HIR value (expression).
#[derive(Debug, Clone, Copy, PartialEq, Eq, Structural, Hash)]
pub struct HirValueId(pub u32);

/// Identifier of a basic block.
#[derive(Debug, Clone, Copy, PartialEq, Eq, Structural, Hash)]
pub struct BlockId(pub u32);

/// Identifier of a local variable slot.
#[derive(Debug, Clone, Copy, PartialEq, Eq, Structural, Hash)]
pub struct LocalId(pub u32);

/// Identifier of a struct declaration.
#[derive(Debug, Clone, Copy, PartialEq, Eq, Structural, Hash)]
pub struct StructId(pub u32);

/// Identifier of a struct field.
#[derive(Debug, Clone, Copy, PartialEq, Eq, Structural, Hash)]
pub struct FieldId(pub u32);

/// Identifier of a function.
#[derive(Debug, Clone, Copy, PartialEq, Eq, Structural, Hash)]
pub struct FunctionId(pub u32);

/// Identifier of a lexical region.
#[derive(Debug, Clone, Copy, PartialEq, Eq, Structural, Hash)]
pub struct RegionId(pub u32);

impl BlockId {
    /// The block id as text: `bb` followed by the number.
    pub fn to_string(&self) -> (s: String)
        ensures
            s@ == "bb"@ + decimal(self.0 as nat),
    {
        number_label("bb", self.0)
    }
}

impl FunctionId {
    /// The function id as text: `fn` followed by the number.
    pub fn to_string(&self) -> (s: String)
        ensures
            s@ == "fn"@ + decimal(self.0 as nat),
    {
        number_label("fn", self.0)
    }
}

impl StructId {
    /// The struct id as text: `struct` followed by the number.
    pub fn to_string(&self) -> (s: String)
        ensures
            s@ == "struct"@ + decimal(self.0 as nat),
    {
        number_label("struct", self.0)
    }
}

impl FieldId {
    /// The field id as text: `field` followed by the number.
    pub fn to_string(&self) -> (s: String)
        ensures
            s@ == "field"@ + decimal(self.0 as nat),
    {
        number_label("field", self.0)
    }
}

impl LocalId {
    /// The local id as text: `l` followed by the number.
    pub fn to_string(&self) -> (s: String)
        ensures
            s@ == "l"@ + decimal(self.0 as nat),
    {
        number_label("l", self.0)
    }
}

impl RegionId {
    /// The region id as text: `r` followed by the number.
    pub fn to_string(&self) -> (s: String)
        ensures
            s@ == "r"@ + decimal(self.0 as nat),
    {
        number_label("r", self.0)
    }
}

impl HirNodeId {
    /// The statement node id as text: `n` followed by the number.
    pub fn to_string(&self) -> (s: String)
        ensures
            s@ == "n"@ + decimal(self.0 as nat),
    {
        number_label("n", self.0)
    }
}

impl HirValueId {
    /// The value id as text: `v` followed by the number.
    pub fn to_string(&self) -> (s: String)
        ensures
            s@ == "v"@ + decimal(self.0 as nat),
    {
        number_label("v", self.0)
    }
}

/// Identifier of a module constant.
#[derive(Debug, Clone, Copy, PartialEq, Eq, Structural, Hash)]
pub struct HirConstId(pub u32);

/// Identifier of a nominal choice type.
#[derive(Debug, Clone, Copy, PartialEq, Eq, Structural, Hash)]
pub struct ChoiceId(pub u32);

/// Identifier of an opaque type supplied by a platform package.
#[derive(Debug, Clone, Copy, PartialEq, Eq, Structural, Hash)]
pub struct ExternalTypeId(pub u32);

/// Identifier of an interned string.
#[derive(Debug, Clone, Copy, PartialEq, Eq, Structural, Hash)]
pub struct StringId(pub u32);

} // verus!

verus! {

/// Handle of a string interned in the string table.
pub type InternedString = u32;

} // verus!
