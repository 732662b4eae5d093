//! The fully typed AST as the HIR stages read it: expressions, statement nodes in runtime
//! (reverse Polish) order, and the finalised template render plans.

use vstd::prelude::*;
use crate::ids::InternedString;
use crate::tokens::TextLocation;

verus! {

/// Operators as they appear in runtime expressions.
#[derive(Debug, Clone, Copy, PartialEq, Eq, Structural)]
pub enum Operator {
    Add,
    Subtract,
    Multiply,
    Divide,
    Modulus,
    Root,
    Exponent,
    And,
    Or,
    GreaterThan,
    GreaterThanOrEqual,
    LessThan,
    LessThanOrEqual,
    Equality,
    Not,
    Range,
}

impl Operator {
    /// The number of operands the operator consumes: one for `Not`, two otherwise.
    pub open spec fn spec_required_values(self) -> usize {
        match self {
            Operator::Not => 1,
            _ => 2,
        }
    }

    /// The number of operands the operator consumes.
    pub fn required_values(&self) -> (n: usize)
        ensures
            n == self.spec_required_values(),
    {
        match self {
            Operator::Not => 1,
            _ => 2,
        }
    }
}

/// Comparison of a relational match pattern.
#[derive(Debug, Clone, Copy, PartialEq, Eq, Structural)]
pub enum RelationalPatternOp {
    LessThan,
    LessThanOrEqual,
    GreaterThan,
    GreaterThanOrEqual,
}

/// Built-in host functions.
#[derive(Debug, Clone, Copy, PartialEq, Eq, Structural)]
pub enum HostFunctionId {
    Io,
}

/// Surface data types of AST expressions.
#[derive(Debug)]
pub enum DataType {
    /// No value (the language's `None` type).
    Unit,
    Bool,
    Int,
    Float,
    Decimal,
    Char,
    String,
    Range,
    /// Multiple values (for example several return values), by their types.
    Parameters(Vec<DataType>),
    /// Struct, by the types of its fields.
    Struct(Vec<DataType>),
    Collection(Box<DataType>),
}

/// Model of a [`DataType`]: the same shape with sequences in place of vectors.
pub enum DataTypeModel {
    Unit,
    Bool,
    Int,
    Float,
    Decimal,
    Char,
    String,
    Range,
    Parameters(Seq<DataTypeModel>),
    Struct(Seq<DataTypeModel>),
    Collection(Box<DataTypeModel>),
}

/// The model of a data type.
pub open spec fn data_type_model(t: DataType) -> DataTypeModel
    decreases t, 1int,
{
    match t {
        DataType::Unit => DataTypeModel::Unit,
        DataType::Bool => DataTypeModel::Bool,
        DataType::Int => DataTypeModel::Int,
        DataType::Float => DataTypeModel::Float,
        DataType::Decimal => DataTypeModel::Decimal,
        DataType::Char => DataTypeModel::Char,
        DataType::String => DataTypeModel::String,
        DataType::Range => DataTypeModel::Range,
        DataType::Parameters(ts) => DataTypeModel::Parameters(data_types_model(ts@)),
        DataType::Struct(ts) => DataTypeModel::Struct(data_types_model(ts@)),
        DataType::Collection(t) => DataTypeModel::Collection(Box::new(data_type_model(*t))),
    }
}

/// The models of a sequence of data types, in order.
pub open spec fn data_types_model(s: Seq<DataType>) -> Seq<DataTypeModel>
    decreases s, 0int,
{
    if s.len() == 0 {
        Seq::empty()
    } else {
        data_types_model(s.drop_last()).push(data_type_model(s.last()))
    }
}

/// The number of models equals the number of data types, and each is the model of the
/// data type at the same position.
pub proof fn lemma_data_types_model_index(s: Seq<DataType>)
    ensures
        data_types_model(s).len() == s.len(),
        forall|i: int| 0 <= i < s.len() ==> #[trigger] data_types_model(s)[i] == data_type_model(s[i]),
    decreases s.len(),
{
    if s.len() > 0 {
        lemma_data_types_model_index(s.drop_last());
        assert forall|i: int| 0 <= i < s.len() implies #[trigger] data_types_model(s)[i] == data_type_model(s[i]) by {
            if i < s.len() - 1 {
                assert(s.drop_last()[i] == s[i]);
            }
        }
    }
}

/// A copy of `t` with the same model.
pub fn clone_data_type(t: &DataType) -> (r: DataType)
    ensures
        data_type_model(r) == data_type_model(*t),
    decreases t, 1int,
{
    match t {
        DataType::Unit => DataType::Unit,
        DataType::Bool => DataType::Bool,
        DataType::Int => DataType::Int,
        DataType::Float => DataType::Float,
        DataType::Decimal => DataType::Decimal,
        DataType::Char => DataType::Char,
        DataType::String => DataType::String,
        DataType::Range => DataType::Range,
        DataType::Parameters(ts) => DataType::Parameters(clone_data_types(ts)),
        DataType::Struct(ts) => DataType::Struct(clone_data_types(ts)),
        DataType::Collection(inner) => DataType::Collection(Box::new(clone_data_type(inner))),
    }
}

/// A copy of `ts` whose elements have the same models.
pub fn clone_data_types(ts: &Vec<DataType>) -> (r: Vec<DataType>)
    ensures
        data_types_model(r@) == data_types_model(ts@),
    decreases ts, 0int,
{
    let mut r: Vec<DataType> = Vec::new();
    let mut i: usize = 0;
    while i < ts.len()
        invariant
            0 <= i <= ts@.len(),
            data_types_model(r@) == data_types_model(ts@.take(i as int)),
        decreases ts@.len() - i,
    {
        proof {
            assert(decreases_to!(ts => ts@[i as int]));
        }
        let c = clone_data_type(&ts[i]);
        let ghost r0 = r@;
        r.push(c);
        proof {
            assert(r@.drop_last() =~= r0);
            assert(ts@.take(i + 1).drop_last() =~= ts@.take(i as int));
        }
        i = i + 1;
    }
    assert(ts@.take(ts@.len() as int) =~= ts@);
    r
}

/// A named value: a declaration, argument, parameter, or struct field.
#[derive(Debug)]
pub struct Var {
    pub id: InternedString,
    pub value: Expression,
}

/// How a value is held: owned or borrowed, mutably or not.
#[derive(Debug, Clone, Copy, PartialEq, Eq, Structural)]
pub enum Ownership {
    ImmutableOwned,
    MutableOwned,
    ImmutableReference,
    MutableReference,
}

impl Ownership {
    /// Whether the value may be mutated.
    pub open spec fn spec_is_mutable(self) -> bool {
        self is MutableOwned || self is MutableReference
    }

    /// Whether the value may be mutated.
    pub fn is_mutable(&self) -> (b: bool)
        ensures
            b == self.spec_is_mutable(),
    {
        match self {
            Ownership::MutableOwned | Ownership::MutableReference => true,
            _ => false,
        }
    }
}

/// A typed AST expression.
#[derive(Debug)]
pub struct Expression {
    pub kind: ExpressionKind,
    pub data_type: DataType,
    pub ownership: Ownership,
    pub location: TextLocation,
}

/// The kinds of AST expressions.
#[derive(Debug)]
pub enum ExpressionKind {
    /// Empty expression (the language's `None`).
    Empty,
    Int(i64),
    Bool(bool),
    Char(char),
    StringSlice(InternedString),
    /// A variable reference.
    Reference(InternedString),
    /// An expression that could not be folded, as AST nodes in reverse Polish order.
    Runtime(Vec<AstNode>),
    FunctionCall(InternedString, Vec<Expression>),
    HostFunctionCall(HostFunctionId, Vec<Expression>),
    Collection(Vec<Expression>),
    StructInstance(Vec<Var>),
    Range(Box<Expression>, Box<Expression>),
    /// A function used as a value.
    Function(InternedString),
    StructDefinition(Vec<Var>),
    Template(Box<Template>),
    /// A value wrapped in a string-boundary coercion.
    Coerced { value: Box<Expression> },
}

/// An AST node with its location.
#[derive(Debug)]
pub struct AstNode {
    pub kind: NodeKind,
    pub location: TextLocation,
}

/// The kinds of AST nodes.
#[derive(Debug)]
pub enum NodeKind {
    Rvalue(Expression),
    VariableDeclaration(Var),
    Operator(Operator),
    FunctionCall { name: InternedString, args: Vec<Expression>, location: TextLocation },
    HostFunctionCall {
        host_function_id: HostFunctionId,
        args: Vec<Expression>,
        location: TextLocation,
    },
    FieldAccess { base: Box<AstNode>, field: InternedString },
    Assignment { target: Box<AstNode>, value: Expression },
    Return(Vec<Expression>),
    /// `if condition: then-body else: else-body`.
    If(Expression, Vec<AstNode>, Option<Vec<AstNode>>),
    /// `loop binding in iterator: body`.
    ForLoop(Box<Var>, Expression, Vec<AstNode>),
    /// `loop condition: body`.
    WhileLoop(Expression, Vec<AstNode>),
    /// `if scrutinee is: arms else: default`.
    Match(Expression, Vec<MatchArm>, Option<Vec<AstNode>>),
    Break,
    Continue,
    Empty,
    Newline,
}

/// One arm of a match statement: the pattern it tests and the statements it runs.
#[derive(Debug)]
pub struct MatchArm {
    pub condition: Expression,
    pub body: Vec<AstNode>,
}

/// A template after AST folding, with its runtime render plan.
#[derive(Debug)]
pub struct Template {
    pub runtime_slot_application: Option<RuntimeSlotApplication>,
    pub render_plan: Option<TemplateRenderPlan>,
}

/// The runtime slot application attached to a template helper.
#[derive(Debug, Clone, Copy, PartialEq, Eq, Structural)]
pub struct RuntimeSlotApplication {
    pub wrapper_id: usize,
}

/// The ordered pieces a runtime template renders.
#[derive(Debug)]
pub struct TemplateRenderPlan {
    pub pieces: Vec<RenderPiece>,
}

/// One piece of a render plan.
#[derive(Debug)]
pub enum RenderPiece {
    Text(String),
    HeadContent(String),
    Slot(usize),
    DynamicExpression(DynamicExpressionPiece),
    ChildTemplate(ChildTemplatePiece),
    RuntimeSlotSite(usize),
    LoopControl(LoopControlKind),
}

/// A dynamic expression rendered into the template.
#[derive(Debug)]
pub struct DynamicExpressionPiece {
    pub expression: Expression,
}

/// A child template rendered into the template.
#[derive(Debug)]
pub struct ChildTemplatePiece {
    pub expression: Expression,
}

/// Loop control emitted from inside a template.
#[derive(Debug, Clone, Copy, PartialEq, Eq, Structural)]
pub enum LoopControlKind {
    Break,
    Continue,
}

} // verus!
