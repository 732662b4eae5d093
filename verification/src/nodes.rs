//! The linear HIR node model produced by the expression and control-flow linearizers.

use vstd::prelude::*;
use crate::ast::{DataType, HostFunctionId};
use crate::ids::InternedString;
use crate::tokens::TextLocation;

verus! {

/// Identifier of a linear HIR block.
pub type BlockId = usize;

/// Identifier of a linear HIR node.
pub type HirNodeId = usize;

/// Binary operators of linear HIR expressions.
#[derive(Debug, Clone, Copy, PartialEq, Eq, Structural)]
pub enum BinOp {
    Add,
    Sub,
    Mul,
    Div,
    Mod,
    Root,
    Exponent,
    And,
    Or,
    Gt,
    Ge,
    Lt,
    Le,
    Eq,
    Ne,
}

/// Unary operators of linear HIR expressions.
#[derive(Debug, Clone, Copy, PartialEq, Eq, Structural)]
pub enum UnaryOp {
    Neg,
    Not,
}

/// A memory place: a variable, a field of a place, or an indexed element of a place.
#[derive(Debug)]
pub enum HirPlace {
    Var(InternedString),
    Field { base: Box<HirPlace>, field: InternedString },
    Index { base: Box<HirPlace>, index: Box<HirExpr> },
}

/// A linear HIR expression with its source location.
#[derive(Debug)]
pub struct HirExpr {
    pub kind: HirExprKind,
    pub location: TextLocation,
}

/// The kinds of linear HIR expressions.
#[derive(Debug)]
pub enum HirExprKind {
    Int(i64),
    Bool(bool),
    Char(char),
    StringLiteral(InternedString),
    Load(HirPlace),
    Field { base: InternedString, field: InternedString },
    BinOp { left: Box<HirExpr>, op: BinOp, right: Box<HirExpr> },
    UnaryOp { op: UnaryOp, operand: Box<HirExpr> },
    Call { target: CallTarget, args: Vec<HirExpr> },
    Collection(Vec<HirExpr>),
    StructConstruct { struct_name: InternedString, fields: Vec<(InternedString, HirExpr)> },
    Range { start: Box<HirExpr>, end: Box<HirExpr> },
}

/// The callee of a call: a user function by name or a host function.
#[derive(Debug, Clone, Copy, PartialEq, Eq, Structural)]
pub enum CallTarget {
    UserFunction(InternedString),
    HostFunction(HostFunctionId),
}

/// A linear HIR node: a statement or a block terminator.
#[derive(Debug)]
pub struct HirNode {
    pub kind: HirKind,
    pub location: TextLocation,
    pub id: HirNodeId,
}

/// Statement or terminator.
#[derive(Debug)]
pub enum HirKind {
    Stmt(HirStmt),
    Terminator(HirTerminator),
}

/// Linear HIR statements.
#[derive(Debug)]
pub enum HirStmt {
    Assign { target: HirPlace, value: HirExpr, is_mutable: bool },
    Call { target: CallTarget, args: Vec<HirExpr> },
    ExprStmt(HirExpr),
}

/// Linear HIR block terminators.
#[derive(Debug)]
pub enum HirTerminator {
    If { condition: HirExpr, then_block: BlockId, else_block: Option<BlockId> },
    Break { target: BlockId },
    Continue { target: BlockId },
    Return(Vec<HirExpr>),
    /// A loop over `body`; `label` is the block control reaches when the loop ends.
    Loop {
        label: BlockId,
        binding: Option<(InternedString, DataType)>,
        iterator: Option<HirExpr>,
        body: BlockId,
        index_binding: Option<InternedString>,
    },
    /// A multi-way branch on `scrutinee`.
    Match { scrutinee: HirExpr, arms: Vec<HirMatchArm>, default_block: Option<BlockId> },
}

/// A pattern of a match arm.
#[derive(Debug)]
pub enum HirPattern {
    Literal(HirExpr),
    Range { start: HirExpr, end: HirExpr },
    Wildcard,
}

/// One arm of a match terminator: its pattern, optional guard, and body block.
#[derive(Debug)]
pub struct HirMatchArm {
    pub pattern: HirPattern,
    pub guard: Option<HirExpr>,
    pub body: BlockId,
}

/// A linear HIR block: its id, parameters, and nodes in order.
#[derive(Debug)]
pub struct HirBlock {
    pub id: BlockId,
    pub params: Vec<InternedString>,
    pub nodes: Vec<HirNode>,
}

impl HirNode {
    /// Whether the node is a terminator.
    pub open spec fn is_terminator(self) -> bool {
        self.kind is Terminator
    }
}

// ============================================================================
// Mathematical model
// ============================================================================

/// Model of a [`HirPlace`].
pub enum PlaceModel {
    Var(InternedString),
    Field { base: Box<PlaceModel>, field: InternedString },
    Index { base: Box<PlaceModel>, index: Box<ExprModel> },
}

/// Model of a [`HirPattern`].
pub enum PatternModel {
    Literal(ExprModel),
    Range { start: ExprModel, end: ExprModel },
    Wildcard,
}

/// The model of a pattern.
pub open spec fn pattern_model(p: HirPattern) -> PatternModel {
    match p {
        HirPattern::Literal(e) => PatternModel::Literal(expr_model(e)),
        HirPattern::Range { start, end } => PatternModel::Range { start: expr_model(start), end: expr_model(end) },
        HirPattern::Wildcard => PatternModel::Wildcard,
    }
}

/// Model of a [`HirExpr`].
pub struct ExprModel {
    pub kind: ExprKindModel,
    pub location: TextLocation,
}

/// Model of a [`HirExprKind`]: the same shape with sequences in place of vectors.
pub enum ExprKindModel {
    Int(i64),
    Bool(bool),
    Char(char),
    StringLiteral(InternedString),
    Load(PlaceModel),
    Field { base: InternedString, field: InternedString },
    BinOp { left: Box<ExprModel>, op: BinOp, right: Box<ExprModel> },
    UnaryOp { op: UnaryOp, operand: Box<ExprModel> },
    Call { target: CallTarget, args: Seq<ExprModel> },
    Collection(Seq<ExprModel>),
    StructConstruct { struct_name: InternedString, fields: Seq<(InternedString, ExprModel)> },
    Range { start: Box<ExprModel>, end: Box<ExprModel> },
}

/// The model of a place.
pub open spec fn place_model(p: HirPlace) -> PlaceModel
    decreases p, 0int,
{
    match p {
        HirPlace::Var(v) => PlaceModel::Var(v),
        HirPlace::Field { base, field } => PlaceModel::Field { base: Box::new(place_model(*base)), field },
        HirPlace::Index { base, index } => PlaceModel::Index {
            base: Box::new(place_model(*base)),
            index: Box::new(expr_model(*index)),
        },
    }
}

/// The model of an expression.
pub open spec fn expr_model(e: HirExpr) -> ExprModel
    decreases e, 1int,
{
    ExprModel { kind: expr_kind_model(e.kind), location: e.location }
}

/// The model of an expression kind.
pub open spec fn expr_kind_model(k: HirExprKind) -> ExprKindModel
    decreases k, 0int,
{
    match k {
        HirExprKind::Int(v) => ExprKindModel::Int(v),
        HirExprKind::Bool(v) => ExprKindModel::Bool(v),
        HirExprKind::Char(v) => ExprKindModel::Char(v),
        HirExprKind::StringLiteral(v) => ExprKindModel::StringLiteral(v),
        HirExprKind::Load(p) => ExprKindModel::Load(place_model(p)),
        HirExprKind::Field { base, field } => ExprKindModel::Field { base, field },
        HirExprKind::BinOp { left, op, right } => ExprKindModel::BinOp {
            left: Box::new(expr_model(*left)),
            op,
            right: Box::new(expr_model(*right)),
        },
        HirExprKind::UnaryOp { op, operand } => ExprKindModel::UnaryOp {
            op,
            operand: Box::new(expr_model(*operand)),
        },
        HirExprKind::Call { target, args } => ExprKindModel::Call { target, args: exprs_model(args@) },
        HirExprKind::Collection(items) => ExprKindModel::Collection(exprs_model(items@)),
        HirExprKind::StructConstruct { struct_name, fields } => ExprKindModel::StructConstruct {
            struct_name,
            fields: fields_model(fields@),
        },
        HirExprKind::Range { start, end } => ExprKindModel::Range {
            start: Box::new(expr_model(*start)),
            end: Box::new(expr_model(*end)),
        },
    }
}

/// The models of a sequence of expressions, in order.
pub open spec fn exprs_model(s: Seq<HirExpr>) -> Seq<ExprModel>
    decreases s, 0int,
{
    if s.len() == 0 {
        Seq::empty()
    } else {
        exprs_model(s.drop_last()).push(expr_model(s.last()))
    }
}

/// The models of a sequence of named field values, in order.
pub open spec fn fields_model(s: Seq<(InternedString, HirExpr)>) -> Seq<(InternedString, ExprModel)>
    decreases s, 0int,
{
    if s.len() == 0 {
        Seq::empty()
    } else {
        fields_model(s.drop_last()).push((s.last().0, expr_model(s.last().1)))
    }
}

/// The model of a sequence of expressions has one entry per expression, each the model of
/// the expression at the same position.
pub proof fn lemma_exprs_model_index(s: Seq<HirExpr>)
    ensures
        exprs_model(s).len() == s.len(),
        forall|i: int| 0 <= i < s.len() ==> #[trigger] exprs_model(s)[i] == expr_model(s[i]),
    decreases s.len(),
{
    if s.len() > 0 {
        lemma_exprs_model_index(s.drop_last());
        assert forall|i: int| 0 <= i < s.len() implies #[trigger] exprs_model(s)[i] == expr_model(s[i]) by {
            if i < s.len() - 1 {
                assert(s.drop_last()[i] == s[i]);
            }
        }
    }
}

/// Modelling commutes with appending one expression.
pub proof fn lemma_exprs_model_push(s: Seq<HirExpr>, e: HirExpr)
    ensures
        exprs_model(s.push(e)) == exprs_model(s).push(expr_model(e)),
{
    assert(s.push(e).drop_last() =~= s);
}

/// Modelling commutes with appending one named field value.
pub proof fn lemma_fields_model_push(s: Seq<(InternedString, HirExpr)>, f: (InternedString, HirExpr))
    ensures
        fields_model(s.push(f)) == fields_model(s).push((f.0, expr_model(f.1))),
{
    assert(s.push(f).drop_last() =~= s);
}

/// A copy of a place with the same model.
pub fn clone_place(p: &HirPlace) -> (r: HirPlace)
    ensures
        place_model(r) == place_model(*p),
    decreases p, 0int,
{
    match p {
        HirPlace::Var(v) => HirPlace::Var(*v),
        HirPlace::Field { base, field } => HirPlace::Field { base: Box::new(clone_place(base)), field: *field },
        HirPlace::Index { base, index } => HirPlace::Index {
            base: Box::new(clone_place(base)),
            index: Box::new(clone_expr(index)),
        },
    }
}

/// A copy of an expression with the same model.
pub fn clone_expr(e: &HirExpr) -> (r: HirExpr)
    ensures
        expr_model(r) == expr_model(*e),
    decreases e, 1int,
{
    HirExpr { kind: clone_expr_kind(&e.kind), location: e.location }
}

/// A copy of an expression kind with the same model.
pub fn clone_expr_kind(k: &HirExprKind) -> (r: HirExprKind)
    ensures
        expr_kind_model(r) == expr_kind_model(*k),
    decreases k, 0int,
{
    match k {
        HirExprKind::Int(v) => HirExprKind::Int(*v),
        HirExprKind::Bool(v) => HirExprKind::Bool(*v),
        HirExprKind::Char(v) => HirExprKind::Char(*v),
        HirExprKind::StringLiteral(v) => HirExprKind::StringLiteral(*v),
        HirExprKind::Load(p) => HirExprKind::Load(clone_place(p)),
        HirExprKind::Field { base, field } => HirExprKind::Field { base: *base, field: *field },
        HirExprKind::BinOp { left, op, right } => HirExprKind::BinOp {
            left: Box::new(clone_expr(left)),
            op: *op,
            right: Box::new(clone_expr(right)),
        },
        HirExprKind::UnaryOp { op, operand } => HirExprKind::UnaryOp {
            op: *op,
            operand: Box::new(clone_expr(operand)),
        },
        HirExprKind::Call { target, args } => HirExprKind::Call { target: *target, args: clone_exprs(args) },
        HirExprKind::Collection(items) => HirExprKind::Collection(clone_exprs(items)),
        HirExprKind::StructConstruct { struct_name, fields } => HirExprKind::StructConstruct {
            struct_name: *struct_name,
            fields: clone_fields(fields),
        },
        HirExprKind::Range { start, end } => HirExprKind::Range {
            start: Box::new(clone_expr(start)),
            end: Box::new(clone_expr(end)),
        },
    }
}

/// A copy of a vector of expressions with the same models.
pub fn clone_exprs(v: &Vec<HirExpr>) -> (r: Vec<HirExpr>)
    ensures
        exprs_model(r@) == exprs_model(v@),
    decreases v, 0int,
{
    let mut r: Vec<HirExpr> = Vec::new();
    let mut i: usize = 0;
    while i < v.len()
        invariant
            0 <= i <= v@.len(),
            exprs_model(r@) == exprs_model(v@.take(i as int)),
        decreases v@.len() - i,
    {
        proof {
            assert(decreases_to!(v => v@[i as int]));
        }
        let c = clone_expr(&v[i]);
        proof {
            lemma_exprs_model_push(r@, c);
            assert(v@.take(i + 1) =~= v@.take(i as int).push(v@[i as int]));
            lemma_exprs_model_push(v@.take(i as int), v@[i as int]);
        }
        r.push(c);
        i = i + 1;
    }
    assert(v@.take(v@.len() as int) =~= v@);
    r
}

/// A copy of a vector of named field values with the same models.
pub fn clone_fields(v: &Vec<(InternedString, HirExpr)>) -> (r: Vec<(InternedString, HirExpr)>)
    ensures
        fields_model(r@) == fields_model(v@),
    decreases v, 0int,
{
    let mut r: Vec<(InternedString, HirExpr)> = Vec::new();
    let mut i: usize = 0;
    while i < v.len()
        invariant
            0 <= i <= v@.len(),
            fields_model(r@) == fields_model(v@.take(i as int)),
        decreases v@.len() - i,
    {
        proof {
            assert(decreases_to!(v => v@[i as int]));
            assert(decreases_to!(v@[i as int] => v@[i as int].1));
        }
        let c = (v[i].0, clone_expr(&v[i].1));
        proof {
            lemma_fields_model_push(r@, c);
            assert(v@.take(i + 1) =~= v@.take(i as int).push(v@[i as int]));
            lemma_fields_model_push(v@.take(i as int), v@[i as int]);
        }
        r.push(c);
        i = i + 1;
    }
    assert(v@.take(v@.len() as int) =~= v@);
    r
}

/// Modelling commutes with dropping the last expression, and the last model is the model of
/// the last expression.
pub proof fn lemma_exprs_model_drop_last(s: Seq<HirExpr>)
    requires
        s.len() > 0,
    ensures
        exprs_model(s.drop_last()) == exprs_model(s).drop_last(),
        exprs_model(s).last() == expr_model(s.last()),
        exprs_model(s).len() == s.len(),
{
    lemma_exprs_model_index(s);
    lemma_exprs_model_index(s.drop_last());
    assert(exprs_model(s.drop_last()) =~= exprs_model(s).drop_last());
}

} // verus!
