//! The HIR data model: regions, declarations, locals, and the small enums shared by
//! expressions, patterns, and operators.

use vstd::prelude::*;
use crate::expressions::{HirExpression, HirPlace};
use crate::hir_datatypes::TypeId;
use crate::ids::{BlockId, ChoiceId, FieldId, FunctionId, HirConstId, HirNodeId, InternedString, LocalId, RegionId, StringId, StructId};
use crate::string_table::StringTable;
use crate::tokens::SourceLocation;

verus! {

/// Semantic role of a function in a module.
#[derive(Debug, Clone, Copy, PartialEq, Eq, Structural, Hash)]
pub enum HirFunctionOrigin {
    /// Regular user-declared function.
    Normal,
    /// Implicit start function for the module entry file.
    EntryStart,
}

/// Kind of a documentation fragment.
#[derive(Debug, Clone, Copy, PartialEq, Eq, Structural, Hash)]
pub enum HirDocFragmentKind {
    Doc,
}

/// A rendered documentation fragment with its source location.
#[derive(Debug, Clone)]
pub struct HirDocFragment {
    pub kind: HirDocFragmentKind,
    pub rendered_text: String,
    pub location: SourceLocation,
}

/// A named field of a record constant.
#[derive(Debug)]
pub struct HirConstField {
    pub name: String,
    pub value: HirConstValue,
}

/// The value of a module constant.
#[derive(Debug)]
pub enum HirConstValue {
    Int(i64),
    /// A float value, held as the bit pattern of its 64-bit IEEE 754 value.
    Float(u64),
    Bool(bool),
    Char(char),
    String(String),
    Collection(Vec<HirConstValue>),
    Record(Vec<HirConstField>),
    Range(Box<HirConstValue>, Box<HirConstValue>),
    Result { variant: ResultVariant, value: Box<HirConstValue> },
}

/// A compile-time constant of the module.
#[derive(Debug)]
pub struct HirModuleConst {
    pub id: HirConstId,
    pub name: String,
    pub ty: TypeId,
    pub value: HirConstValue,
}

/// Registry entry for a nominal choice type.
#[derive(Debug, Clone)]
pub struct HirChoice {
    pub id: ChoiceId,
    pub variants: Vec<HirChoiceVariant>,
}

/// One variant of a choice type.
#[derive(Debug, Clone, Copy, PartialEq, Eq, Structural)]
pub struct HirChoiceVariant {
    pub name: StringId,
}

/// A node of the lexical region tree.
#[derive(Debug, Clone, Copy, PartialEq, Eq, Structural)]
pub struct HirRegion {
    id: RegionId,
    parent: Option<RegionId>,
}

impl HirRegion {
    /// The region's id.
    pub closed spec fn spec_id(&self) -> RegionId {
        self.id
    }

    /// The region's parent, if any.
    pub closed spec fn spec_parent(&self) -> Option<RegionId> {
        self.parent
    }

    /// A lexical region with the given id and parent.
    pub fn lexical(id: RegionId, parent: Option<RegionId>) -> (r: Self)
        ensures
            r.spec_id() == id,
            r.spec_parent() == parent,
    {
        Self { id, parent }
    }

    /// The region's id.
    pub fn id(&self) -> (r: RegionId)
        ensures
            r == self.spec_id(),
    {
        self.id
    }

    /// The region's parent, if any.
    pub fn parent(&self) -> (r: Option<RegionId>)
        ensures
            r == self.spec_parent(),
    {
        self.parent
    }
}

/// A struct declaration.
#[derive(Debug, Clone)]
pub struct HirStruct {
    pub id: StructId,
    pub fields: Vec<HirField>,
}

/// One field of a struct declaration.
#[derive(Debug, Clone, Copy, PartialEq, Eq, Structural)]
pub struct HirField {
    pub id: FieldId,
    pub ty: TypeId,
}

/// A function declaration.
#[derive(Debug, Clone)]
pub struct HirFunction {
    pub id: FunctionId,
    pub entry: BlockId,
    pub params: Vec<LocalId>,
    pub return_type: TypeId,
    pub return_aliases: Vec<Option<Vec<usize>>>,
}

/// A local variable declared in a block.
#[derive(Debug, Clone, Copy, PartialEq, Eq, Structural)]
pub struct HirLocal {
    pub id: LocalId,
    pub ty: TypeId,
    pub mutable: bool,
    pub region: RegionId,
    pub source_info: Option<SourceLocation>,
}

/// Whether an expression denotes a place, a value, or a constant.
#[derive(Debug, Clone, Copy, PartialEq, Eq, Structural)]
pub enum ValueKind {
    /// Refers to a memory location.
    Place,
    /// Produces a value.
    RValue,
    /// Compile-time constant.
    Const,
}

/// Comparison used by a relational match pattern.
#[derive(Debug, Clone, Copy, PartialEq, Eq, Structural)]
pub enum HirRelationalPatternOp {
    LessThan,
    LessThanOrEqual,
    GreaterThan,
    GreaterThanOrEqual,
}

/// Variant of an option value: `Present` is the language's `Some`, `Absent` its `None`.
#[derive(Debug, Clone, Copy, PartialEq, Eq, Structural, Hash)]
pub enum OptionVariant {
    Present,
    Absent,
}

impl OptionVariant {
    /// The variant's name in the language: `Some` or `None`.
    pub fn to_string(&self) -> (s: String)
        ensures
            s@ == match self {
                OptionVariant::Present => "Some"@,
                OptionVariant::Absent => "None"@,
            },
    {
        match self {
            OptionVariant::Present => String::from_str("Some"),
            OptionVariant::Absent => String::from_str("None"),
        }
    }
}

/// Target of a builtin numeric cast.
#[derive(Debug, Clone, Copy, PartialEq, Eq, Structural, Hash)]
pub enum HirBuiltinCastKind {
    Int,
    Float,
}

/// Variant of a result value: `Success` is the language's `Ok`, `Failure` its `Err`.
#[derive(Debug, Clone, Copy, PartialEq, Eq, Structural, Hash)]
pub enum ResultVariant {
    Success,
    Failure,
}

impl ResultVariant {
    /// The variant's name in the language: `Ok` or `Err`.
    pub fn to_string(&self) -> (s: String)
        ensures
            s@ == match self {
                ResultVariant::Success => "Ok"@,
                ResultVariant::Failure => "Err"@,
            },
    {
        match self {
            ResultVariant::Success => String::from_str("Ok"),
            ResultVariant::Failure => String::from_str("Err"),
        }
    }
}

/// Binary operators.
#[derive(Debug, Clone, Copy, PartialEq, Eq, Structural)]
pub enum HirBinOp {
    Add,
    Sub,
    Mul,
    Div,
    Mod,
    Eq,
    Ne,
    Lt,
    Le,
    Gt,
    Ge,
    And,
    Or,
    IntDiv,
    Exponent,
}

/// Unary operators.
#[derive(Debug, Clone, Copy, PartialEq, Eq, Structural)]
pub enum HirUnaryOp {
    Neg,
    Not,
}

impl HirUnaryOp {
    /// The operator's symbol: `-` for negation, `!` for not.
    pub fn to_string(&self) -> (s: String)
        ensures
            s@ == match self {
                HirUnaryOp::Neg => "-"@,
                HirUnaryOp::Not => "!"@,
            },
    {
        match self {
            HirUnaryOp::Neg => String::from_str("-"),
            HirUnaryOp::Not => String::from_str("!"),
        }
    }
}

/// Path of a host (platform) function: its interned segments, outermost first.
#[derive(Debug, Clone)]
pub struct HostFunctionPath {
    pub segments: Vec<InternedString>,
}

impl HostFunctionPath {
    /// Every segment is a handle that `table` holds.
    pub open spec fn resolvable(&self, table: Seq<Seq<char>>) -> bool {
        forall|i: int| 0 <= i < self.segments@.len() ==> (#[trigger] self.segments@[i] as int) < table.len()
    }

    /// The function's own name: the text of the last segment, if the path has one and the
    /// table holds it.
    pub fn name_str<'a>(&self, table: &'a StringTable) -> (r: Option<&'a str>)
        ensures
            match r {
                Some(s) => self.segments@.len() > 0 && (self.segments@.last() as int) < table@.len()
                    && s@ == table@[self.segments@.last() as int],
                None => self.segments@.len() == 0 || (self.segments@.last() as int) >= table@.len(),
            },
    {
        let n = self.segments.len();
        if n == 0 {
            return None;
        }
        let last = self.segments[n - 1];
        if (last as usize) < table.len() {
            Some(table.resolve(last))
        } else {
            None
        }
    }
}

/// The callee of a call statement.
#[derive(Debug, Clone)]
pub enum CallTarget {
    /// A function declared in the module.
    UserFunction(FunctionId),
    /// A function provided by the host platform.
    HostFunction(HostFunctionPath),
}

/// A statement of a block.
#[derive(Debug)]
pub struct HirStatement {
    pub id: HirNodeId,
    pub kind: HirStatementKind,
    pub location: SourceLocation,
}

/// What a statement does.
#[derive(Debug)]
pub enum HirStatementKind {
    /// Stores a value at a place.
    Assign { target: HirPlace, value: HirExpression },
    /// Calls a function, storing its result in a local if it has one.
    Call { target: CallTarget, args: Vec<HirExpression>, result: Option<LocalId> },
    /// Evaluates an expression for its side effects.
    Expr(HirExpression),
    /// Appends one runtime string value to the fragment vector held in `vec_local`.
    PushRuntimeFragment { vec_local: LocalId, value: HirExpression },
    /// Drops a local explicitly.
    Drop(LocalId),
}

/// A match arm: the pattern it tests, an optional guard, and the block it branches to.
#[derive(Debug)]
pub struct HirMatchArm {
    pub pattern: HirPattern,
    pub guard: Option<HirExpression>,
    pub body: BlockId,
}

/// The pattern of a match arm.
#[derive(Debug)]
pub enum HirPattern {
    Literal(HirExpression),
    Wildcard,
    Relational { op: HirRelationalPatternOp, value: HirExpression },
    ChoiceVariant { choice_id: ChoiceId, variant_index: usize },
}

/// How a block passes control on: explicit control flow between blocks.
#[derive(Debug)]
pub enum HirTerminator {
    /// Continues at `target`, passing the current values of `args`.
    Jump { target: BlockId, args: Vec<LocalId> },
    If { condition: HirExpression, then_block: BlockId, else_block: BlockId },
    /// Continues at the body of the first arm that matches.
    Match { scrutinee: HirExpression, arms: Vec<HirMatchArm> },
    Break { target: BlockId },
    Continue { target: BlockId },
    Return(HirExpression),
    Panic { message: Option<HirExpression> },
}

/// The bodies of match arms, in order.
pub open spec fn arm_bodies(arms: Seq<HirMatchArm>) -> Seq<BlockId> {
    arms.map_values(|a: HirMatchArm| a.body)
}

/// The blocks a terminator can pass control to, in order: the target of a jump, break or
/// continue, both branches of an `if`, and the arm bodies of a match.
pub open spec fn terminator_target_seq(t: HirTerminator) -> Seq<BlockId> {
    match t {
        HirTerminator::Jump { target, .. } => seq![target],
        HirTerminator::If { then_block, else_block, .. } => seq![then_block, else_block],
        HirTerminator::Match { arms, .. } => arm_bodies(arms@),
        HirTerminator::Break { target } => seq![target],
        HirTerminator::Continue { target } => seq![target],
        HirTerminator::Return(_) => Seq::empty(),
        HirTerminator::Panic { .. } => Seq::empty(),
    }
}

/// The blocks a terminator can pass control to (see `terminator_target_seq`).
pub fn terminator_targets(terminator: &HirTerminator) -> (r: Vec<BlockId>)
    ensures
        r@ == terminator_target_seq(*terminator),
{
    match terminator {
        HirTerminator::Jump { target, .. } => vec![*target],
        HirTerminator::If { then_block, else_block, .. } => vec![*then_block, *else_block],
        HirTerminator::Match { arms, .. } => {
            let mut targets: Vec<BlockId> = Vec::new();
            let mut i: usize = 0;
            while i < arms.len()
                invariant
                    0 <= i <= arms@.len(),
                    targets@ == arm_bodies(arms@.take(i as int)),
                decreases arms@.len() - i,
            {
                targets.push(arms[i].body);
                proof {
                    assert(arm_bodies(arms@.take(i + 1)) =~= arm_bodies(arms@.take(i as int)).push(arms@[i as int].body));
                }
                i = i + 1;
            }
            proof {
                assert(arms@.take(arms@.len() as int) =~= arms@);
            }
            targets
        },
        HirTerminator::Break { target } => vec![*target],
        HirTerminator::Continue { target } => vec![*target],
        HirTerminator::Return(_) => Vec::new(),
        HirTerminator::Panic { .. } => Vec::new(),
    }
}

/// Shared carrier tag for variant construction.
#[derive(Debug, Clone, Copy, PartialEq, Eq, Structural)]
pub enum HirVariantCarrier {
    Choice { choice_id: ChoiceId },
    Option,
    Result,
}

} // verus!
