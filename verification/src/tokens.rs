//! Source positions carried by HIR nodes for diagnostics.

use vstd::prelude::*;

verus! {

/// A position in a source file.
#[derive(Debug, Clone, Copy, PartialEq, Eq, Structural, Hash)]
pub struct CharPosition {
    pub line_number: i32,
    pub char_column: i32,
}

/// A span of source text: the interned path of the file plus start and end positions.
#[derive(Debug, Clone, Copy, PartialEq, Eq, Structural, Hash)]
pub struct TextLocation {
    pub scope: u32,
    pub start_pos: CharPosition,
    pub end_pos: CharPosition,
}

/// Source span as attached to HIR declarations.
pub type SourceLocation = TextLocation;

} // verus!
