//! Errors reported by HIR construction, linearisation and validation.

use vstd::prelude::*;
use crate::ast::Operator;
use crate::hir_datatypes::TypeId;
use crate::ids::{FieldId, FunctionId, HirConstId, LocalId, RegionId, StructId};
use crate::nodes::BlockId;

verus! {

/// An internal compiler error raised while building HIR.
#[derive(Debug, Clone, Copy, PartialEq, Eq, Structural)]
pub enum CompilerError {
    /// `not` was used where a binary operator is required.
    NotIsUnaryOperator,
    /// The range operator reached binary-operator conversion.
    RangeHandledSeparately,
    /// The operator cannot be used as a unary operator.
    NotAUnaryOperator(Operator),
    /// A binary operator found fewer than two operands on the stack.
    MissingBinaryOperands(Operator),
    /// A unary operator found no operand on the stack.
    MissingUnaryOperand(Operator),
    /// A runtime expression left this many extra values on the stack.
    UnusedStackValues(usize),
    /// No base variable can be extracted from the expression.
    NoBaseVariable,
    /// Function expressions are lowered by the function transformer.
    FunctionExpression,
    /// Struct definitions are lowered at module level.
    StructDefinitionExpression,
    /// Template expressions are lowered by the template pipeline.
    TemplateExpression,
    /// The expression cannot be assigned to.
    InvalidAssignmentTargetExpression,
    /// The node cannot be assigned to.
    InvalidAssignmentTargetNode,
    /// A `break` outside any loop.
    BreakOutsideLoop,
    /// A `continue` outside any loop.
    ContinueOutsideLoop,
    /// The block has no terminator.
    MissingTerminator(BlockId),
    /// The block has this many terminators instead of one.
    ExtraTerminators(BlockId, usize),
    /// The block's only terminator is not its last node.
    MisplacedTerminator(BlockId),
    /// Two regions share this id.
    DuplicateRegionId(RegionId),
    /// Two blocks share this id.
    DuplicateBlockId(crate::ids::BlockId),
    /// Two locals share this id.
    DuplicateLocalId(LocalId),
    /// Two structs share this id.
    DuplicateStructId(StructId),
    /// Two fields share this id.
    DuplicateFieldId(FieldId),
    /// Two functions share this id.
    DuplicateFunctionId(FunctionId),
    /// The region names a parent region that does not exist.
    MissingParentRegion { region: RegionId, parent: RegionId },
    /// Following parent regions comes back to this region.
    RegionCycle(RegionId),
    /// The start function is not among the module's functions.
    MissingStartFunction(FunctionId),
    /// The number of function origins differs from the number of functions.
    FunctionOriginCount { origins: usize, functions: usize },
    /// The function has no origin entry.
    MissingFunctionOrigin(FunctionId),
    /// The start function is not tagged as the entry start function.
    StartFunctionNotEntry(FunctionId),
    /// The documentation fragment at this index starts on a later line than it ends.
    DocFragmentLines { index: usize, start_line: i32, end_line: i32 },
    /// The single-line documentation fragment at this index starts in a later column than it ends.
    DocFragmentColumns { index: usize, start_column: i32, end_column: i32 },
    /// No block has this id.
    UnknownBlockId(crate::ids::BlockId),
    /// No struct has this id.
    UnknownStructId(StructId),
    /// No field has this id.
    UnknownFieldId(FieldId),
    /// No local has this id.
    UnknownLocalId(LocalId),
    /// No region has this id.
    UnknownRegionId(RegionId),
    /// The type context holds no type with this id.
    UnknownTypeId(TypeId),
    /// The field has no owning struct.
    FieldWithoutOwner(FieldId),
    /// The field belongs to `owner`, not to `expected`.
    FieldOwnedByOther { field: FieldId, owner: StructId, expected: StructId },
    /// The function has `slots` return alias slots where its return type calls for `expected`.
    ReturnAliasCount { function: FunctionId, slots: usize, expected: usize },
    /// The return alias slot lists no parameter.
    EmptyReturnAlias { function: FunctionId, slot: usize },
    /// The return alias slot names a parameter index beyond the parameters.
    ReturnAliasOutOfRange { function: FunctionId, slot: usize, index: usize },
    /// The return alias slot names a parameter index twice.
    DuplicateReturnAlias { function: FunctionId, slot: usize, index: usize },
    /// The block is reachable from the entry blocks of two different functions.
    BlockInTwoFunctions { block: crate::ids::BlockId, first: FunctionId, second: FunctionId },
    /// No function's entry block reaches the block.
    UnreachableBlock(crate::ids::BlockId),
    /// The block belongs to no function's control-flow graph.
    BlockWithoutOwner(crate::ids::BlockId),
    /// A control-flow edge leads from a block of one function to a block of another.
    CrossFunctionEdge {
        source: crate::ids::BlockId,
        target: crate::ids::BlockId,
        source_owner: FunctionId,
        target_owner: FunctionId,
    },
    /// A field place's base does not have a struct type.
    FieldBaseNotStruct(FieldId),
    /// An index place's base does not have a collection type.
    IndexBaseNotCollection,
    /// A literal match pattern's value is not a constant.
    PatternNotConst,
    /// A literal match pattern's value is not an int, float, bool, char or string literal.
    PatternNotLiteral,
    /// The block still ends in the placeholder `panic` without a message.
    PlaceholderPanic(crate::ids::BlockId),
    /// No block with this id was registered with the builder.
    UnregisteredBlock(crate::ids::BlockId),
    /// No function with this id was registered with the builder.
    UnregisteredFunction(FunctionId),
    /// No local with this id was registered in a block.
    UnregisteredLocal(LocalId),
    /// No field with this id was registered in a struct.
    UnregisteredField(FieldId),
    /// No block is being lowered.
    NoCurrentBlock,
    /// No function is being lowered.
    NoCurrentFunction,
    /// No region is being lowered.
    NoCurrentRegion,
    /// The block already has an explicit terminator.
    TerminatorAlreadySet(crate::ids::BlockId),
    /// A type that was never inferred reached HIR lowering.
    InferredTypeInHir,
    /// A type name that was never resolved reached HIR lowering.
    UnresolvedNamedType,
    /// A generic type parameter that was never substituted reached HIR lowering.
    UnresolvedTypeParameter,
    /// A generic instance other than a collection of one element type reached HIR lowering.
    UnresolvedGenericInstance,
    /// A method receiver names a struct path that no struct was registered under.
    UnresolvedReceiverStruct(u32),
    /// A struct path that no struct was registered under.
    UnresolvedStruct(u32),
    /// A choice path that no choice was registered under.
    UnresolvedChoice(u32),
    /// A function with this path is already declared.
    DuplicateFunctionDeclaration(u32),
    /// A local with this path is already declared in the function being lowered.
    LocalAlreadyDeclared(u32),
    /// A `break` or `continue` was lowered outside any loop.
    NoActiveLoop,
    /// The module constant's name is empty or only whitespace.
    EmptyConstantName(HirConstId),
    /// A record field of a module constant has a name that is empty or only whitespace.
    EmptyConstantFieldName,
    /// Two function-origin seeds carry this stable origin.
    DuplicateFunctionOrigin(u32),
    /// Two function-origin seeds carry the same declaration path.
    DuplicateDeclarationPaths,
}

} // verus!
