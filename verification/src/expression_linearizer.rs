//! Expression linearisation: converts AST expressions, including runtime expressions in
//! reverse Polish order, into linear HIR expressions, and manages compiler-introduced
//! temporaries.

use vstd::prelude::*;
use std::collections::HashMap;
use crate::ast::{
    clone_data_type, data_type_model, data_types_model, lemma_data_types_model_index, AstNode,
    DataType, DataTypeModel, Expression, ExpressionKind, NodeKind, Operator, Var,
};
use crate::ast::HostFunctionId;
use crate::build_hir::{HirBuildContext, HirBuilderContext, DropCandidate, temp_name};
use crate::errors::CompilerError;
use crate::ids::InternedString;
use crate::nodes::{
    BinOp, CallTarget, ExprKindModel, ExprModel, HirExpr, HirExprKind, HirKind, HirNode, HirPlace,
    HirStmt, PlaceModel, UnaryOp, clone_expr_kind, expr_kind_model, expr_model, exprs_model,
    fields_model, lemma_exprs_model_drop_last, lemma_exprs_model_index, lemma_exprs_model_push,
    lemma_fields_model_push, place_model,
};
use crate::tokens::TextLocation;

verus! {

broadcast use vstd::std_specs::hash::group_hash_axioms;

// ============================================================================
// Specification of linearisation
// ============================================================================

/// An expression model at `location`.
pub open spec fn at(kind: ExprKindModel, location: TextLocation) -> ExprModel {
    ExprModel { kind, location }
}

/// The binary operator an AST operator denotes; `not` and the range operator are not
/// binary operators here.
pub open spec fn spec_convert_operator(op: Operator) -> Result<BinOp, CompilerError> {
    match op {
        Operator::Add => Ok(BinOp::Add),
        Operator::Subtract => Ok(BinOp::Sub),
        Operator::Multiply => Ok(BinOp::Mul),
        Operator::Divide => Ok(BinOp::Div),
        Operator::Modulus => Ok(BinOp::Mod),
        Operator::Root => Ok(BinOp::Root),
        Operator::Exponent => Ok(BinOp::Exponent),
        Operator::And => Ok(BinOp::And),
        Operator::Or => Ok(BinOp::Or),
        Operator::GreaterThan => Ok(BinOp::Gt),
        Operator::GreaterThanOrEqual => Ok(BinOp::Ge),
        Operator::LessThan => Ok(BinOp::Lt),
        Operator::LessThanOrEqual => Ok(BinOp::Le),
        Operator::Equality => Ok(BinOp::Eq),
        Operator::Not => Err(CompilerError::NotIsUnaryOperator),
        Operator::Range => Err(CompilerError::RangeHandledSeparately),
    }
}

/// The unary operator an AST operator denotes: `not` and negation.
pub open spec fn spec_convert_unary_operator(op: Operator) -> Result<UnaryOp, CompilerError> {
    match op {
        Operator::Not => Ok(UnaryOp::Not),
        Operator::Subtract => Ok(UnaryOp::Neg),
        _ => Err(CompilerError::NotAUnaryOperator(op)),
    }
}

/// The base variable of a loaded variable or a field access.
pub open spec fn spec_base_var(e: ExprModel) -> Result<InternedString, CompilerError> {
    match e.kind {
        ExprKindModel::Load(PlaceModel::Var(name)) => Ok(name),
        ExprKindModel::Field { base, .. } => Ok(base),
        _ => Err(CompilerError::NoBaseVariable),
    }
}

/// The linear HIR an AST expression lowers to, or the first error met in evaluation order.
pub open spec fn lower_expression(e: Expression) -> Result<ExprModel, CompilerError>
    decreases e, 0int,
{
    let loc = e.location;
    match e.kind {
        ExpressionKind::Int(v) => Ok(at(ExprKindModel::Int(v), loc)),
        ExpressionKind::Bool(v) => Ok(at(ExprKindModel::Bool(v), loc)),
        ExpressionKind::Char(v) => Ok(at(ExprKindModel::Char(v), loc)),
        ExpressionKind::StringSlice(s) => Ok(at(ExprKindModel::StringLiteral(s), loc)),
        ExpressionKind::Reference(name) => Ok(at(ExprKindModel::Load(PlaceModel::Var(name)), loc)),
        ExpressionKind::Runtime(nodes) => lower_runtime(nodes@, loc),
        ExpressionKind::FunctionCall(name, args) => match lower_expressions(args@) {
            Ok(xs) => Ok(at(ExprKindModel::Call { target: CallTarget::UserFunction(name), args: xs }, loc)),
            Err(err) => Err(err),
        },
        ExpressionKind::HostFunctionCall(id, args) => match lower_expressions(args@) {
            Ok(xs) => Ok(at(ExprKindModel::Call { target: CallTarget::HostFunction(id), args: xs }, loc)),
            Err(err) => Err(err),
        },
        ExpressionKind::Collection(items) => match lower_expressions(items@) {
            Ok(xs) => Ok(at(ExprKindModel::Collection(xs), loc)),
            Err(err) => Err(err),
        },
        ExpressionKind::StructInstance(args) => match lower_fields(args@) {
            Ok(fs) => Ok(at(ExprKindModel::StructConstruct { struct_name: 0, fields: fs }, loc)),
            Err(err) => Err(err),
        },
        ExpressionKind::Range(start, end) => match lower_expression(*start) {
            Ok(s) => match lower_expression(*end) {
                Ok(x) => Ok(at(ExprKindModel::Range { start: Box::new(s), end: Box::new(x) }, loc)),
                Err(err) => Err(err),
            },
            Err(err) => Err(err),
        },
        ExpressionKind::Template(_) => Err(CompilerError::TemplateExpression),
        ExpressionKind::Coerced { .. } => Err(CompilerError::TemplateExpression),
        ExpressionKind::Function(_) => Err(CompilerError::FunctionExpression),
        ExpressionKind::StructDefinition(_) => Err(CompilerError::StructDefinitionExpression),
        ExpressionKind::Empty => Ok(at(ExprKindModel::Int(0), loc)),
    }
}

/// The lowering of each expression in order, or the first error.
pub open spec fn lower_expressions(s: Seq<Expression>) -> Result<Seq<ExprModel>, CompilerError>
    decreases s, 0int,
{
    if s.len() == 0 {
        Ok(Seq::empty())
    } else {
        match lower_expressions(s.drop_last()) {
            Ok(xs) => match lower_expression(s.last()) {
                Ok(x) => Ok(xs.push(x)),
                Err(err) => Err(err),
            },
            Err(err) => Err(err),
        }
    }
}

/// The lowering of each named value to a (name, value) pair in order, or the first error.
pub open spec fn lower_fields(s: Seq<Var>) -> Result<Seq<(InternedString, ExprModel)>, CompilerError>
    decreases s, 0int,
{
    if s.len() == 0 {
        Ok(Seq::empty())
    } else {
        match lower_fields(s.drop_last()) {
            Ok(fs) => match lower_expression(s.last().value) {
                Ok(x) => Ok(fs.push((s.last().id, x))),
                Err(err) => Err(err),
            },
            Err(err) => Err(err),
        }
    }
}

/// The linear HIR an AST node lowers to as a value; nodes without a value lower to the
/// placeholder `0`.
pub open spec fn lower_node(n: AstNode) -> Result<ExprModel, CompilerError>
    decreases n, 0int,
{
    match n.kind {
        NodeKind::Rvalue(e) => lower_expression(e),
        NodeKind::VariableDeclaration(v) => lower_expression(v.value),
        NodeKind::FunctionCall { name, args, location } => match lower_expressions(args@) {
            Ok(xs) => Ok(at(ExprKindModel::Call { target: CallTarget::UserFunction(name), args: xs }, location)),
            Err(err) => Err(err),
        },
        NodeKind::HostFunctionCall { host_function_id, args, location } => match lower_expressions(args@) {
            Ok(xs) => Ok(at(ExprKindModel::Call { target: CallTarget::HostFunction(host_function_id), args: xs }, location)),
            Err(err) => Err(err),
        },
        NodeKind::FieldAccess { base, field } => match lower_node(*base) {
            Ok(b) => match spec_base_var(b) {
                Ok(v) => Ok(at(ExprKindModel::Field { base: v, field }, n.location)),
                Err(err) => Err(err),
            },
            Err(err) => Err(err),
        },
        _ => Ok(at(ExprKindModel::Int(0), n.location)),
    }
}

/// One step of reverse Polish evaluation: an operator replaces its operands on the stack
/// by the operation; any other node pushes its lowering.
pub open spec fn rpn_step(stack: Seq<ExprModel>, n: AstNode) -> Result<Seq<ExprModel>, CompilerError>
    decreases n, 1int,
{
    match n.kind {
        NodeKind::Operator(op) => if op.spec_required_values() == 2 {
            if stack.len() < 2 {
                Err(CompilerError::MissingBinaryOperands(op))
            } else {
                match spec_convert_operator(op) {
                    Ok(b) => Ok(stack.drop_last().drop_last().push(at(ExprKindModel::BinOp {
                        left: Box::new(stack[stack.len() - 2]),
                        op: b,
                        right: Box::new(stack.last()),
                    }, n.location))),
                    Err(err) => Err(err),
                }
            }
        } else {
            if stack.len() == 0 {
                Err(CompilerError::MissingUnaryOperand(op))
            } else {
                match spec_convert_unary_operator(op) {
                    Ok(u) => Ok(stack.drop_last().push(at(ExprKindModel::UnaryOp {
                        op: u,
                        operand: Box::new(stack.last()),
                    }, n.location))),
                    Err(err) => Err(err),
                }
            }
        },
        _ => match lower_node(n) {
            Ok(x) => Ok(stack.push(x)),
            Err(err) => Err(err),
        },
    }
}

/// The value stack after evaluating `s` in reverse Polish order, or the first error.
pub open spec fn rpn_stack(s: Seq<AstNode>) -> Result<Seq<ExprModel>, CompilerError>
    decreases s, 0int,
{
    if s.len() == 0 {
        Ok(Seq::empty())
    } else {
        match rpn_stack(s.drop_last()) {
            Ok(stack) => rpn_step(stack, s.last()),
            Err(err) => Err(err),
        }
    }
}

/// The lowering of a runtime expression: the single value its evaluation leaves, the
/// placeholder `0` at `location` when it leaves none, and an error when it leaves more.
pub open spec fn lower_runtime(s: Seq<AstNode>, location: TextLocation) -> Result<ExprModel, CompilerError>
    decreases s, 1int,
{
    match rpn_stack(s) {
        Ok(stack) => if stack.len() == 0 {
            Ok(at(ExprKindModel::Int(0), location))
        } else if stack.len() == 1 {
            Ok(stack[0])
        } else {
            Err(CompilerError::UnusedStackValues((stack.len() - 1) as usize))
        },
        Err(err) => Err(err),
    }
}

/// The state of reverse Polish evaluation with temporaries: the value stack, and the
/// assignments `(temporary, value)` made so far, in order.
pub type TempState = (Seq<ExprModel>, Seq<(InternedString, ExprModel)>);

/// One step of reverse Polish evaluation that holds intermediate results in temporaries:
/// the step is `rpn_step`, except that the value of an operation that is not the last node
/// (`is_last`) is assigned to the next temporary, `names[k]` for the `k` assignments made
/// so far, and the stack holds a load of that temporary in its place.
pub open spec fn rpn_temps_step(state: TempState, n: AstNode, is_last: bool, names: Seq<InternedString>) -> Result<
    TempState,
    CompilerError,
> {
    match rpn_step(state.0, n) {
        Ok(stack) => if n.kind is Operator && !is_last {
            let t = names[state.1.len() as int];
            Ok((
                stack.drop_last().push(at(ExprKindModel::Load(PlaceModel::Var(t)), n.location)),
                state.1.push((t, stack.last())),
            ))
        } else {
            Ok((stack, state.1))
        },
        Err(err) => Err(err),
    }
}

/// The evaluation state after the prefix `s` of a runtime expression of `total` nodes, or
/// the first error.
pub open spec fn rpn_temps(s: Seq<AstNode>, total: nat, names: Seq<InternedString>) -> Result<TempState, CompilerError>
    decreases s.len(),
{
    if s.len() == 0 {
        Ok((Seq::empty(), Seq::empty()))
    } else {
        match rpn_temps(s.drop_last(), total, names) {
            Ok(state) => rpn_temps_step(state, s.last(), s.len() == total, names),
            Err(err) => Err(err),
        }
    }
}

/// The flattening of a runtime expression: the assignments of its intermediate results to
/// the temporaries `names`, and the single value left (the placeholder `0` at `location`
/// when none is left); an error when more are left.
pub open spec fn lower_runtime_temps(s: Seq<AstNode>, location: TextLocation, names: Seq<InternedString>) -> Result<
    (Seq<(InternedString, ExprModel)>, ExprModel),
    CompilerError,
> {
    match rpn_temps(s, s.len(), names) {
        Ok((stack, assigns)) => if stack.len() == 0 {
            Ok((assigns, at(ExprKindModel::Int(0), location)))
        } else if stack.len() == 1 {
            Ok((assigns, stack[0]))
        } else {
            Err(CompilerError::UnusedStackValues((stack.len() - 1) as usize))
        },
        Err(err) => Err(err),
    }
}

/// The id under which `table` holds the name of the temporary numbered `c`.
pub open spec fn temp_id(table: Seq<Seq<char>>, c: nat) -> InternedString {
    choose|i: InternedString| (i as int) < table.len() && table[i as int] == temp_name(c)
}

/// The ids of the `k` temporaries numbered from `c0`, as `table` holds them.
pub open spec fn temp_names(table: Seq<Seq<char>>, c0: nat, k: nat) -> Seq<InternedString> {
    Seq::new(k, |j: int| temp_id(table, (c0 + j) as nat))
}

/// The ids of the temporaries introduced between two builder states, in order.
pub open spec fn temporaries_between(before: HirBuilderContext, after: HirBuilderContext) -> Seq<InternedString> {
    temp_names(
        after.table()@,
        before.meta().temp_counter() as nat,
        (after.meta().temp_counter() - before.meta().temp_counter()) as nat,
    )
}

/// `r` is the outcome `spec` describes: on success one assignment node per temporary, in
/// order, with consecutive ids from `first_id`, each at the location of its value, and the
/// described result; on failure the described error.
pub open spec fn flattened_as(
    r: Result<(Vec<HirNode>, HirExpr), CompilerError>,
    spec: Result<(Seq<(InternedString, ExprModel)>, ExprModel), CompilerError>,
    first_id: nat,
) -> bool {
    match r {
        Ok((nodes, e)) => match spec {
            Ok((assigns, v)) => {
                &&& expr_model(e) == v
                &&& assigns_nodes(nodes@, assigns, first_id)
            },
            Err(_) => false,
        },
        Err(err) => spec == Err::<(Seq<(InternedString, ExprModel)>, ExprModel), CompilerError>(err),
    }
}

/// `nodes` are the assignment nodes of `assigns`, in order, with consecutive ids from
/// `first_id`, each at the location of its value.
pub open spec fn assigns_nodes(nodes: Seq<HirNode>, assigns: Seq<(InternedString, ExprModel)>, first_id: nat) -> bool {
    &&& nodes.len() == assigns.len()
    &&& forall|j: int| 0 <= j < nodes.len() ==> {
        &&& #[trigger] nodes[j].id == first_id + j
        &&& nodes[j].kind matches HirKind::Stmt(HirStmt::Assign { target: HirPlace::Var(t), value, is_mutable: true })
            && t == assigns[j].0 && expr_model(value) == assigns[j].1 && nodes[j].location == value.location
    }
}

/// Evaluation with temporaries reads only the names of the temporaries it assigns, so
/// extending the list of names does not change it.
pub proof fn lemma_rpn_temps_names(s: Seq<AstNode>, total: nat, a: Seq<InternedString>, b: Seq<InternedString>)
    requires
        a.len() <= b.len(),
        b.subrange(0, a.len() as int) == a,
        rpn_temps(s, total, a) matches Ok(st) && st.1.len() <= a.len(),
    ensures
        rpn_temps(s, total, b) == rpn_temps(s, total, a),
    decreases s.len(),
{
    if s.len() > 0 {
        let st = rpn_temps(s.drop_last(), total, a).unwrap();
        lemma_rpn_temps_names(s.drop_last(), total, a, b);
        if rpn_step(st.0, s.last()) is Ok && s.last().kind is Operator && s.len() != total {
            assert(b[st.1.len() as int] == b.subrange(0, a.len() as int)[st.1.len() as int]);
        }
    }
}

/// Once a prefix of a runtime expression fails, evaluation with temporaries fails with the
/// same error.
pub proof fn lemma_rpn_temps_prefix_err(s: Seq<AstNode>, k: int, total: nat, names: Seq<InternedString>)
    requires
        0 <= k <= s.len(),
        rpn_temps(s.take(k), total, names) is Err,
    ensures
        rpn_temps(s, total, names) == rpn_temps(s.take(k), total, names),
    decreases s.len(),
{
    if k == s.len() {
        assert(s.take(k) =~= s);
    } else {
        assert(s.drop_last().take(k) =~= s.take(k));
        lemma_rpn_temps_prefix_err(s.drop_last(), k, total, names);
    }
}

/// The temporaries numbered from `c0` that a table without duplicates holds are named by
/// `temp_names`.
pub proof fn lemma_temp_names(table: Seq<Seq<char>>, c0: nat, temps: Seq<InternedString>)
    requires
        table.no_duplicates(),
        forall|j: int| 0 <= j < temps.len() ==> (#[trigger] temps[j] as int) < table.len() && table[temps[j] as int]
            == temp_name((c0 + j) as nat),
    ensures
        temps == temp_names(table, c0, temps.len()),
{
    assert forall|j: int| 0 <= j < temps.len() implies #[trigger] temp_names(table, c0, temps.len())[j] == temps[j] by {
        let t = temps[j];
        assert((t as int) < table.len() && table[t as int] == temp_name((c0 + j) as nat));
        let i = temp_id(table, (c0 + j) as nat);
        assert((i as int) < table.len() && table[i as int] == temp_name((c0 + j) as nat));
    }
    assert(temps =~= temp_names(table, c0, temps.len()));
}

/// What a stack value stands for once the temporaries of `assigns` are read back: a load
/// of an assigned temporary stands for the operation assigned to it, with its operands read
/// back in turn; any other value stands for itself.
pub open spec fn assigned_value(v: ExprModel, assigns: Seq<(InternedString, ExprModel)>) -> ExprModel
    decreases assigns.len(), 0int,
{
    if assigns.len() == 0 {
        v
    } else if v.kind == ExprKindModel::Load(PlaceModel::Var(assigns.last().0)) {
        read_back_operands(assigns.last().1, assigns.drop_last())
    } else {
        assigned_value(v, assigns.drop_last())
    }
}

/// An operation with its operands read back through the temporaries of `assigns`.
pub open spec fn read_back_operands(v: ExprModel, assigns: Seq<(InternedString, ExprModel)>) -> ExprModel
    decreases assigns.len(), 1int,
{
    match v.kind {
        ExprKindModel::BinOp { left, op, right } => at(
            ExprKindModel::BinOp {
                left: Box::new(assigned_value(*left, assigns)),
                op,
                right: Box::new(assigned_value(*right, assigns)),
            },
            v.location,
        ),
        ExprKindModel::UnaryOp { op, operand } => at(
            ExprKindModel::UnaryOp { op, operand: Box::new(assigned_value(*operand, assigns)) },
            v.location,
        ),
        _ => v,
    }
}

/// `x` is not a load of any of `names`.
pub open spec fn not_a_name_load(x: ExprModel, names: Seq<InternedString>) -> bool {
    forall|j: int| 0 <= j < names.len() ==> x.kind != ExprKindModel::Load(PlaceModel::Var(#[trigger] names[j]))
}

/// No node of `s` lowers to a load of one of `names`.
pub open spec fn no_name_loads(s: Seq<AstNode>, names: Seq<InternedString>) -> bool {
    forall|i: int| 0 <= i < s.len() ==> (lower_node(#[trigger] s[i]) matches Ok(x) ==> not_a_name_load(x, names))
}

/// A value that loads none of the assigned temporaries stands for itself.
pub proof fn lemma_assigned_value_plain(v: ExprModel, assigns: Seq<(InternedString, ExprModel)>)
    requires
        forall|k: int| 0 <= k < assigns.len() ==> v.kind != ExprKindModel::Load(PlaceModel::Var(#[trigger] assigns[k].0)),
    ensures
        assigned_value(v, assigns) == v,
    decreases assigns.len(),
{
    if assigns.len() > 0 {
        assert(v.kind != ExprKindModel::Load(PlaceModel::Var(assigns[assigns.len() - 1].0)));
        assert forall|k: int| 0 <= k < assigns.drop_last().len() implies v.kind != ExprKindModel::Load(
            PlaceModel::Var(#[trigger] assigns.drop_last()[k].0),
        ) by {
            assert(assigns.drop_last()[k] == assigns[k]);
        }
        lemma_assigned_value_plain(v, assigns.drop_last());
    }
}

/// The evaluation state `st` with temporaries matches the plain value stack `ps`: stacks of
/// the same height whose values stand for the plain values, the `k`-th assignment made to
/// `names[k]`, and no stack value a load of a name not assigned yet.
pub open spec fn tracks(ps: Seq<ExprModel>, st: TempState, names: Seq<InternedString>) -> bool {
    &&& st.0.len() == ps.len()
    &&& st.1.len() <= names.len()
    &&& forall|k: int| 0 <= k < st.1.len() ==> (#[trigger] st.1[k]).0 == names[k]
    &&& forall|i: int| 0 <= i < ps.len() ==> assigned_value(#[trigger] st.0[i], st.1) == ps[i]
    &&& forall|i: int| 0 <= i < ps.len() ==> not_a_name_load(#[trigger] st.0[i], names.skip(st.1.len() as int))
}

/// Matching stacks keep matching when both lose their top values.
pub proof fn lemma_tracks_take(ps: Seq<ExprModel>, ts: Seq<ExprModel>, assigns: Seq<(InternedString, ExprModel)>, names: Seq<InternedString>, m: int)
    requires
        tracks(ps, (ts, assigns), names),
        0 <= m <= ps.len(),
    ensures
        tracks(ps.take(m), (ts.take(m), assigns), names),
{
    assert forall|i: int| 0 <= i < m implies assigned_value(#[trigger] ts.take(m)[i], assigns) == ps.take(m)[i] by {
        assert(ts.take(m)[i] == ts[i] && ps.take(m)[i] == ps[i]);
    }
    assert forall|i: int| 0 <= i < m implies not_a_name_load(#[trigger] ts.take(m)[i], names.skip(assigns.len() as int)) by {
        assert(ts.take(m)[i] == ts[i]);
    }
}

/// Pushing a value that loads none of the names keeps the stacks matching.
pub proof fn lemma_tracks_plain(ps: Seq<ExprModel>, ts: Seq<ExprModel>, assigns: Seq<(InternedString, ExprModel)>, names: Seq<InternedString>, x: ExprModel)
    requires
        tracks(ps, (ts, assigns), names),
        not_a_name_load(x, names),
    ensures
        tracks(ps.push(x), (ts.push(x), assigns), names),
{
    assert forall|k: int| 0 <= k < assigns.len() implies x.kind != ExprKindModel::Load(PlaceModel::Var(#[trigger] assigns[k].0)) by {
        assert(assigns[k].0 == names[k]);
    }
    lemma_assigned_value_plain(x, assigns);
    let (ps2, ts2) = (ps.push(x), ts.push(x));
    assert forall|i: int| 0 <= i < ps2.len() implies assigned_value(#[trigger] ts2[i], assigns) == ps2[i] by {
        if i < ps.len() {
            assert(ts2[i] == ts[i] && ps2[i] == ps[i]);
        }
    }
    assert forall|i: int| 0 <= i < ps2.len() implies not_a_name_load(#[trigger] ts2[i], names.skip(assigns.len() as int)) by {
        if i < ps.len() {
            assert(ts2[i] == ts[i]);
        } else {
            assert forall|j: int| 0 <= j < names.skip(assigns.len() as int).len() implies x.kind != ExprKindModel::Load(
                PlaceModel::Var(#[trigger] names.skip(assigns.len() as int)[j]),
            ) by {
                assert(names.skip(assigns.len() as int)[j] == names[assigns.len() + j]);
            }
        }
    }
}

/// Assigning an operation to the next temporary and pushing a load of it keeps the stacks
/// matching, when the operation read back is the plain value pushed.
pub proof fn lemma_tracks_store(
    ps: Seq<ExprModel>,
    ts: Seq<ExprModel>,
    assigns: Seq<(InternedString, ExprModel)>,
    names: Seq<InternedString>,
    pv: ExprModel,
    tv: ExprModel,
    location: TextLocation,
)
    requires
        tracks(ps, (ts, assigns), names),
        names.no_duplicates(),
        assigns.len() < names.len(),
        read_back_operands(tv, assigns) == pv,
    ensures
        tracks(
            ps.push(pv),
            (
                ts.push(at(ExprKindModel::Load(PlaceModel::Var(names[assigns.len() as int])), location)),
                assigns.push((names[assigns.len() as int], tv)),
            ),
            names,
        ),
{
    let t = names[assigns.len() as int];
    let ps2 = ps.push(pv);
    let ts2 = ts.push(at(ExprKindModel::Load(PlaceModel::Var(t)), location));
    let as2 = assigns.push((t, tv));
    assert(names.skip(assigns.len() as int)[0] == t);
    assert(as2.last() == (t, tv) && as2.drop_last() =~= assigns);
    assert forall|i: int| 0 <= i < ps2.len() implies assigned_value(#[trigger] ts2[i], as2) == ps2[i] by {
        if i < ps.len() {
            assert(ts2[i] == ts[i] && ps2[i] == ps[i]);
            assert(not_a_name_load(ts[i], names.skip(assigns.len() as int)));
            assert(ts[i].kind != ExprKindModel::Load(PlaceModel::Var(names.skip(assigns.len() as int)[0])));
        }
    }
    assert forall|i: int| 0 <= i < ps2.len() implies not_a_name_load(#[trigger] ts2[i], names.skip(as2.len() as int)) by {
        if i < ps.len() {
            assert(ts2[i] == ts[i]);
            assert forall|j: int| 0 <= j < names.skip(as2.len() as int).len() implies ts[i].kind != ExprKindModel::Load(
                PlaceModel::Var(#[trigger] names.skip(as2.len() as int)[j]),
            ) by {
                assert(names.skip(as2.len() as int)[j] == names.skip(assigns.len() as int)[j + 1]);
            }
        } else {
            assert forall|j: int| 0 <= j < names.skip(as2.len() as int).len() implies ts2[i].kind != ExprKindModel::Load(
                PlaceModel::Var(#[trigger] names.skip(as2.len() as int)[j]),
            ) by {
                assert(names.skip(as2.len() as int)[j] == names[as2.len() + j]);
                assert(names[assigns.len() as int] != names[as2.len() + j]);
            }
        }
    }
    assert forall|k: int| 0 <= k < as2.len() implies (#[trigger] as2[k]).0 == names[k] by {
        if k < assigns.len() {
            assert(as2[k] == assigns[k]);
        }
    }
}

/// The evaluation with temporaries of a prefix that stops before the last node matches the
/// plain evaluation: the same error, or matching stacks (see `tracks`).
pub proof fn lemma_rpn_temps_tracks(s: Seq<AstNode>, total: nat, names: Seq<InternedString>)
    requires
        s.len() < total,
        names.no_duplicates(),
        names.len() >= s.len(),
        no_name_loads(s, names),
    ensures
        match (rpn_stack(s), rpn_temps(s, total, names)) {
            (Ok(ps), Ok(st)) => tracks(ps, st, names) && st.1.len() <= s.len() && (st.1.len() > 0 ==> ps.len() > 0),
            (Err(a), Err(b)) => a == b,
            _ => false,
        },
    decreases s.len(),
{
    if s.len() > 0 {
        let p = s.drop_last();
        let n = s.last();
        assert forall|i: int| 0 <= i < p.len() implies (lower_node(#[trigger] p[i]) matches Ok(x) ==> not_a_name_load(x, names)) by {
            assert(p[i] == s[i]);
        }
        lemma_rpn_temps_tracks(p, total, names);
        assert(lower_node(s[s.len() - 1]) matches Ok(x) ==> not_a_name_load(x, names));
        assert(rpn_stack(s) == match rpn_stack(p) { Ok(stack) => rpn_step(stack, n), Err(e) => Err(e) });
        if let (Ok(ps), Ok(st)) = (rpn_stack(p), rpn_temps(p, total, names)) {
            let (ts, assigns) = st;
            assert(rpn_stack(s) == rpn_step(ps, n));
            assert(rpn_temps(s, total, names) == rpn_temps_step(st, n, false, names));
            match n.kind {
                NodeKind::Operator(op) => {
                    if op.spec_required_values() == 2 {
                        if ps.len() >= 2 && spec_convert_operator(op) is Ok {
                            let b = spec_convert_operator(op).unwrap();
                            let pv = at(ExprKindModel::BinOp { left: Box::new(ps[ps.len() - 2]), op: b, right: Box::new(ps.last()) }, n.location);
                            let tv = at(ExprKindModel::BinOp { left: Box::new(ts[ts.len() - 2]), op: b, right: Box::new(ts.last()) }, n.location);
                            let m = ps.len() - 2;
                            assert(ps.take(m) =~= ps.drop_last().drop_last());
                            assert(ts.take(m) =~= ts.drop_last().drop_last());
                            assert(ts.take(m).push(tv).drop_last() =~= ts.take(m));
                            assert(assigned_value(ts[ts.len() - 1], assigns) == ps[ps.len() - 1]);
                            assert(assigned_value(ts[ts.len() - 2], assigns) == ps[ps.len() - 2]);
                            assert(read_back_operands(tv, assigns) == pv);
                            lemma_tracks_take(ps, ts, assigns, names, m);
                            lemma_tracks_store(ps.take(m), ts.take(m), assigns, names, pv, tv, n.location);
                        }
                    } else {
                        if ps.len() >= 1 && spec_convert_unary_operator(op) is Ok {
                            let u = spec_convert_unary_operator(op).unwrap();
                            let pv = at(ExprKindModel::UnaryOp { op: u, operand: Box::new(ps.last()) }, n.location);
                            let tv = at(ExprKindModel::UnaryOp { op: u, operand: Box::new(ts.last()) }, n.location);
                            let m = ps.len() - 1;
                            assert(ps.take(m) =~= ps.drop_last());
                            assert(ts.take(m) =~= ts.drop_last());
                            assert(ts.take(m).push(tv).drop_last() =~= ts.take(m));
                            assert(assigned_value(ts[ts.len() - 1], assigns) == ps[ps.len() - 1]);
                            assert(read_back_operands(tv, assigns) == pv);
                            lemma_tracks_take(ps, ts, assigns, names, m);
                            lemma_tracks_store(ps.take(m), ts.take(m), assigns, names, pv, tv, n.location);
                        }
                    }
                },
                _ => {
                    if lower_node(n) is Ok {
                        lemma_tracks_plain(ps, ts, assigns, names, lower_node(n).unwrap());
                    }
                },
            }
        }
    }
}

/// Law: flattening a runtime expression into temporaries keeps its meaning. It fails
/// exactly when the plain lowering (`lower_runtime`) fails, with the same error; otherwise
/// its result, with the operations assigned to the temporaries read back in place of their
/// loads, is the plain lowering. This holds when the temporaries have distinct names that
/// no node of the expression loads (and there are enough of them).
pub proof fn lemma_flattening_keeps_value(s: Seq<AstNode>, location: TextLocation, names: Seq<InternedString>)
    requires
        names.no_duplicates(),
        names.len() >= s.len(),
        no_name_loads(s, names),
    ensures
        match (lower_runtime(s, location), lower_runtime_temps(s, location, names)) {
            (Ok(v), Ok((assigns, e))) => read_back_operands(assigned_value(e, assigns), assigns) == v,
            (Err(a), Err(b)) => a == b,
            _ => false,
        },
{
    let total = s.len();
    if s.len() == 0 {
        assert(rpn_temps(s, total, names) == Ok::<TempState, CompilerError>((Seq::empty(), Seq::empty())));
    } else {
        let p = s.drop_last();
        let n = s.last();
        assert forall|i: int| 0 <= i < p.len() implies (lower_node(#[trigger] p[i]) matches Ok(x) ==> not_a_name_load(x, names)) by {
            assert(p[i] == s[i]);
        }
        lemma_rpn_temps_tracks(p, total, names);
        assert(lower_node(s[s.len() - 1]) matches Ok(x) ==> not_a_name_load(x, names));
        if let (Ok(ps), Ok(st)) = (rpn_stack(p), rpn_temps(p, total, names)) {
            let (ts, assigns) = st;
            assert(rpn_stack(s) == rpn_step(ps, n));
            assert(rpn_temps(s, total, names) == rpn_temps_step(st, n, true, names));
            match n.kind {
                NodeKind::Operator(op) => {
                    if op.spec_required_values() == 2 {
                        if ps.len() == 2 && spec_convert_operator(op) is Ok {
                            let b = spec_convert_operator(op).unwrap();
                            let tv = at(ExprKindModel::BinOp { left: Box::new(ts[0]), op: b, right: Box::new(ts[1]) }, n.location);
                            assert(ts.drop_last().drop_last().push(tv) =~= seq![tv]);
                            assert(ps.drop_last().drop_last().push(at(ExprKindModel::BinOp { left: Box::new(ps[0]), op: b, right: Box::new(ps[1]) }, n.location)) =~= seq![at(ExprKindModel::BinOp { left: Box::new(ps[0]), op: b, right: Box::new(ps[1]) }, n.location)]);
                            assert(assigned_value(ts[0], assigns) == ps[0]);
                            assert(assigned_value(ts[1], assigns) == ps[1]);
                            lemma_assigned_value_plain(tv, assigns);
                        }
                    } else {
                        if ps.len() == 1 && spec_convert_unary_operator(op) is Ok {
                            let u = spec_convert_unary_operator(op).unwrap();
                            let tv = at(ExprKindModel::UnaryOp { op: u, operand: Box::new(ts[0]) }, n.location);
                            assert(ts.drop_last().push(tv) =~= seq![tv]);
                            assert(ps.drop_last().push(at(ExprKindModel::UnaryOp { op: u, operand: Box::new(ps[0]) }, n.location)) =~= seq![at(ExprKindModel::UnaryOp { op: u, operand: Box::new(ps[0]) }, n.location)]);
                            assert(assigned_value(ts[0], assigns) == ps[0]);
                            lemma_assigned_value_plain(tv, assigns);
                        }
                    }
                },
                _ => {
                    if lower_node(n) is Ok && ps.len() == 0 {
                        let x = lower_node(n).unwrap();
                        assert(assigns.len() == 0);
                        assert(ps.push(x) =~= seq![x]);
                        assert(ts.push(x) =~= seq![x]);
                    }
                },
            }
        }
    }
}

/// Law: every AST operator lowers to the HIR operator of the same meaning: arithmetic and
/// logical operators to their namesakes, `>` to `Gt`, `>=` to `Ge`, `<` to `Lt`, `<=` to
/// `Le`, `==` to `Eq`; `not` and the range operator are refused as binary operators, and
/// only `not` and `-` are unary operators (`not` and negation).
pub proof fn lemma_operator_lowering_table(op: Operator)
    ensures
        op == Operator::Add ==> spec_convert_operator(op) == Ok::<BinOp, CompilerError>(BinOp::Add),
        op == Operator::Subtract ==> spec_convert_operator(op) == Ok::<BinOp, CompilerError>(BinOp::Sub),
        op == Operator::Multiply ==> spec_convert_operator(op) == Ok::<BinOp, CompilerError>(BinOp::Mul),
        op == Operator::Divide ==> spec_convert_operator(op) == Ok::<BinOp, CompilerError>(BinOp::Div),
        op == Operator::Modulus ==> spec_convert_operator(op) == Ok::<BinOp, CompilerError>(BinOp::Mod),
        op == Operator::Root ==> spec_convert_operator(op) == Ok::<BinOp, CompilerError>(BinOp::Root),
        op == Operator::Exponent ==> spec_convert_operator(op) == Ok::<BinOp, CompilerError>(BinOp::Exponent),
        op == Operator::And ==> spec_convert_operator(op) == Ok::<BinOp, CompilerError>(BinOp::And),
        op == Operator::Or ==> spec_convert_operator(op) == Ok::<BinOp, CompilerError>(BinOp::Or),
        op == Operator::GreaterThan ==> spec_convert_operator(op) == Ok::<BinOp, CompilerError>(BinOp::Gt),
        op == Operator::GreaterThanOrEqual ==> spec_convert_operator(op) == Ok::<BinOp, CompilerError>(BinOp::Ge),
        op == Operator::LessThan ==> spec_convert_operator(op) == Ok::<BinOp, CompilerError>(BinOp::Lt),
        op == Operator::LessThanOrEqual ==> spec_convert_operator(op) == Ok::<BinOp, CompilerError>(BinOp::Le),
        op == Operator::Equality ==> spec_convert_operator(op) == Ok::<BinOp, CompilerError>(BinOp::Eq),
        op == Operator::Not ==> spec_convert_operator(op) == Err::<BinOp, CompilerError>(CompilerError::NotIsUnaryOperator),
        op == Operator::Range ==> spec_convert_operator(op) == Err::<BinOp, CompilerError>(
            CompilerError::RangeHandledSeparately,
        ),
        op == Operator::Not ==> spec_convert_unary_operator(op) == Ok::<UnaryOp, CompilerError>(UnaryOp::Not),
        op == Operator::Subtract ==> spec_convert_unary_operator(op) == Ok::<UnaryOp, CompilerError>(UnaryOp::Neg),
        op != Operator::Not && op != Operator::Subtract ==> spec_convert_unary_operator(op) == Err::<UnaryOp, CompilerError>(
            CompilerError::NotAUnaryOperator(op),
        ),
{
}

/// Law: distinct AST operators never lower to the same HIR binary operator, and no AST
/// operator lowers to `Ne`.
pub proof fn lemma_operator_lowering_injective(a: Operator, b: Operator)
    ensures
        spec_convert_operator(a) is Ok && spec_convert_operator(a) == spec_convert_operator(b) ==> a == b,
        spec_convert_operator(a) != Ok::<BinOp, CompilerError>(BinOp::Ne),
{
}

/// Law: a runtime expression of two operand nodes and a binary operator lowers to that
/// operation on the two operands, left before right, with the HIR operator the AST operator
/// lowers to (see `lemma_operator_lowering_table`); so `a > b` lowers to `a Gt b`.
pub proof fn lemma_binary_runtime_lowering(x: AstNode, y: AstNode, n: AstNode, location: TextLocation)
    requires
        !(x.kind is Operator),
        !(y.kind is Operator),
        lower_node(x) is Ok,
        lower_node(y) is Ok,
        n.kind matches NodeKind::Operator(op) && op != Operator::Not && spec_convert_operator(op) is Ok,
    ensures
        n.kind matches NodeKind::Operator(op) && lower_runtime(seq![x, y, n], location) == Ok::<ExprModel, CompilerError>(
            at(
                ExprKindModel::BinOp {
                    left: Box::new(lower_node(x).unwrap()),
                    op: spec_convert_operator(op).unwrap(),
                    right: Box::new(lower_node(y).unwrap()),
                },
                n.location,
            ),
        ),
{
    let s = seq![x, y, n];
    assert(s.drop_last() =~= seq![x, y]);
    assert(seq![x, y].drop_last() =~= seq![x]);
    assert(seq![x].drop_last() =~= Seq::<AstNode>::empty());
    let lx = lower_node(x).unwrap();
    let ly = lower_node(y).unwrap();
    assert(rpn_stack(seq![x]) == rpn_step(Seq::<ExprModel>::empty(), x));
    assert(rpn_stack(seq![x]) == Ok::<Seq<ExprModel>, CompilerError>(seq![lx]));
    assert(seq![x, y].last() == y && seq![x].last() == x && s.last() == n);
    assert(seq![lx].push(ly) =~= seq![lx, ly]);
    assert(Seq::<ExprModel>::empty().push(lx) =~= seq![lx]);
    assert(rpn_stack(seq![x, y]) == rpn_step(seq![lx], y));
    assert(rpn_stack(seq![x, y]) == Ok::<Seq<ExprModel>, CompilerError>(seq![lx, ly]));
    assert(rpn_stack(s) == rpn_step(seq![lx, ly], n));
    assert(seq![lx, ly].drop_last().drop_last() =~= Seq::<ExprModel>::empty());
}

/// Once a prefix of the arguments fails, the whole list fails with the same error.
pub proof fn lemma_lower_expressions_prefix_err(s: Seq<Expression>, k: int)
    requires
        0 <= k <= s.len(),
        lower_expressions(s.take(k)) is Err,
    ensures
        lower_expressions(s) == lower_expressions(s.take(k)),
    decreases s.len(),
{
    if k == s.len() {
        assert(s.take(k) =~= s);
    } else {
        assert(s.drop_last().take(k) =~= s.take(k));
        lemma_lower_expressions_prefix_err(s.drop_last(), k);
    }
}

/// Once a prefix of the fields fails, the whole list fails with the same error.
pub proof fn lemma_lower_fields_prefix_err(s: Seq<Var>, k: int)
    requires
        0 <= k <= s.len(),
        lower_fields(s.take(k)) is Err,
    ensures
        lower_fields(s) == lower_fields(s.take(k)),
    decreases s.len(),
{
    if k == s.len() {
        assert(s.take(k) =~= s);
    } else {
        assert(s.drop_last().take(k) =~= s.take(k));
        lemma_lower_fields_prefix_err(s.drop_last(), k);
    }
}

/// Once a prefix of a runtime expression fails, the whole evaluation fails with the same
/// error.
pub proof fn lemma_rpn_stack_prefix_err(s: Seq<AstNode>, k: int)
    requires
        0 <= k <= s.len(),
        rpn_stack(s.take(k)) is Err,
    ensures
        rpn_stack(s) == rpn_stack(s.take(k)),
    decreases s.len(),
{
    if k == s.len() {
        assert(s.take(k) =~= s);
    } else {
        assert(s.drop_last().take(k) =~= s.take(k));
        lemma_rpn_stack_prefix_err(s.drop_last(), k);
    }
}

// ============================================================================
// The linearizer
// ============================================================================

/// Converts AST expressions into linear HIR and tracks the temporaries it introduces.
#[derive(Debug)]
pub struct ExpressionLinearizer {
    compiler_introduced_locals: HashMap<InternedString, HirExprKind>,
}

impl ExpressionLinearizer {
    /// The compiler-introduced locals and their kinds.
    pub closed spec fn locals(&self) -> Map<InternedString, HirExprKind> {
        self.compiler_introduced_locals@
    }

    /// A linearizer that has introduced no locals.
    pub fn new() -> (l: Self)
        ensures
            l.locals() == Map::<InternedString, HirExprKind>::empty(),
    {
        ExpressionLinearizer { compiler_introduced_locals: HashMap::new() }
    }

    /// Whether `name` is a compiler-introduced local.
    pub fn is_compiler_local(&self, name: &InternedString) -> (b: bool)
        ensures
            b == self.locals().contains_key(*name),
    {
        self.compiler_introduced_locals.contains_key(name)
    }

    /// The kind recorded for a compiler-introduced local.
    pub fn get_compiler_local_type(&self, name: &InternedString) -> (r: Option<&HirExprKind>)
        ensures
            match r {
                Some(k) => self.locals().contains_key(*name) && *k == self.locals()[*name],
                None => !self.locals().contains_key(*name),
            },
    {
        self.compiler_introduced_locals.get(name)
    }

    /// An integer literal at `location`.
    pub fn create_int_expr(&self, value: i64, location: &TextLocation) -> (e: HirExpr)
        ensures
            expr_model(e) == at(ExprKindModel::Int(value), *location),
    {
        HirExpr { kind: HirExprKind::Int(value), location: *location }
    }

    /// A boolean literal at `location`.
    pub fn create_bool_expr(&self, value: bool, location: &TextLocation) -> (e: HirExpr)
        ensures
            expr_model(e) == at(ExprKindModel::Bool(value), *location),
    {
        HirExpr { kind: HirExprKind::Bool(value), location: *location }
    }

    /// A character literal at `location`.
    pub fn create_char_expr(&self, value: char, location: &TextLocation) -> (e: HirExpr)
        ensures
            expr_model(e) == at(ExprKindModel::Char(value), *location),
    {
        HirExpr { kind: HirExprKind::Char(value), location: *location }
    }

    /// A string literal at `location`.
    pub fn create_string_literal_expr(&self, value: InternedString, location: &TextLocation) -> (e:
        HirExpr)
        ensures
            expr_model(e) == at(ExprKindModel::StringLiteral(value), *location),
    {
        HirExpr { kind: HirExprKind::StringLiteral(value), location: *location }
    }

    /// The placeholder for an empty expression: the integer `0` at `location`.
    pub fn create_none_expr(&self, location: &TextLocation) -> (e: HirExpr)
        ensures
            expr_model(e) == at(ExprKindModel::Int(0), *location),
    {
        HirExpr { kind: HirExprKind::Int(0), location: *location }
    }

    /// Converts an AST operator to a binary operator.
    pub fn convert_operator(&self, op: &Operator) -> (r: Result<BinOp, CompilerError>)
        ensures
            r == spec_convert_operator(*op),
    {
        match op {
            Operator::Add => Ok(BinOp::Add),
            Operator::Subtract => Ok(BinOp::Sub),
            Operator::Multiply => Ok(BinOp::Mul),
            Operator::Divide => Ok(BinOp::Div),
            Operator::Modulus => Ok(BinOp::Mod),
            Operator::Root => Ok(BinOp::Root),
            Operator::Exponent => Ok(BinOp::Exponent),
            Operator::And => Ok(BinOp::And),
            Operator::Or => Ok(BinOp::Or),
            Operator::GreaterThan => Ok(BinOp::Gt),
            Operator::GreaterThanOrEqual => Ok(BinOp::Ge),
            Operator::LessThan => Ok(BinOp::Lt),
            Operator::LessThanOrEqual => Ok(BinOp::Le),
            Operator::Equality => Ok(BinOp::Eq),
            Operator::Not => Err(CompilerError::NotIsUnaryOperator),
            Operator::Range => Err(CompilerError::RangeHandledSeparately),
        }
    }

    /// Converts an AST operator to a unary operator.
    pub fn convert_unary_operator(&self, op: &Operator) -> (r: Result<UnaryOp, CompilerError>)
        ensures
            r == spec_convert_unary_operator(*op),
    {
        match op {
            Operator::Not => Ok(UnaryOp::Not),
            Operator::Subtract => Ok(UnaryOp::Neg),
            _ => Err(CompilerError::NotAUnaryOperator(*op)),
        }
    }

    /// The result type of a binary operation: comparisons and logical operators give
    /// `Bool`; arithmetic gives `Float` when either operand is `Float` and otherwise the left
    /// operand's type.
    pub fn infer_binop_type(&self, left: &DataType, right: &DataType, op: &BinOp) -> (t: DataType)
        ensures
            data_type_model(t) == match *op {
                BinOp::Eq | BinOp::Ne | BinOp::Lt | BinOp::Le | BinOp::Gt | BinOp::Ge
                | BinOp::And | BinOp::Or => DataTypeModel::Bool,
                _ => if *left is Float || *right is Float {
                    DataTypeModel::Float
                } else {
                    data_type_model(*left)
                },
            },
    {
        match op {
            BinOp::Eq | BinOp::Ne | BinOp::Lt | BinOp::Le | BinOp::Gt | BinOp::Ge => DataType::Bool,
            BinOp::And | BinOp::Or => DataType::Bool,
            BinOp::Add | BinOp::Sub | BinOp::Mul | BinOp::Div | BinOp::Mod | BinOp::Root
            | BinOp::Exponent => {
                let is_float = match left {
                    DataType::Float => true,
                    _ => match right {
                        DataType::Float => true,
                        _ => false,
                    },
                };
                if is_float {
                    DataType::Float
                } else {
                    clone_data_type(left)
                }
            },
        }
    }

    /// The type of a function's return values: the single return's type, `Unit` for none, and the
    /// types of all return_vars, in order, for several.
    pub fn get_return_type(&self, return_vars: &[Var]) -> (t: DataType)
        ensures
            return_vars@.len() == 1 ==> data_type_model(t) == data_type_model(return_vars@[0].value.data_type),
            return_vars@.len() == 0 ==> data_type_model(t) == DataTypeModel::Unit,
            return_vars@.len() > 1 ==> data_type_model(t) == DataTypeModel::Parameters(
                data_types_model(Seq::new(return_vars@.len(), |i: int| return_vars@[i].value.data_type)),
            ),
    {
        if return_vars.len() == 1 {
            clone_data_type(&return_vars[0].value.data_type)
        } else if return_vars.len() == 0 {
            DataType::Unit
        } else {
            let mut types: Vec<DataType> = Vec::new();
            let mut i: usize = 0;
            let ghost target = Seq::new(return_vars@.len(), |i: int| return_vars@[i].value.data_type);
            while i < return_vars.len()
                invariant
                    0 <= i <= return_vars@.len(),
                    target == Seq::new(return_vars@.len(), |i: int| return_vars@[i].value.data_type),
                    types@.len() == i,
                    forall|j: int| 0 <= j < i ==> data_type_model(#[trigger] types@[j]) == data_type_model(target[j]),
                decreases return_vars@.len() - i,
            {
                types.push(clone_data_type(&return_vars[i].value.data_type));
                i = i + 1;
            }
            proof {
                lemma_data_types_model_index(types@);
                lemma_data_types_model_index(target);
                assert(data_types_model(types@) =~= data_types_model(target));
            }
            DataType::Parameters(types)
        }
    }

    /// The struct name for a data type; struct types do not carry their name, so this is
    /// the placeholder handle `0`.
    pub fn extract_struct_name(&self, data_type: &DataType) -> (n: InternedString)
        ensures
            n == 0,
    {
        0
    }

    /// The base variable of a loaded variable or of a field access.
    pub fn extract_base_var(&self, expr: &HirExpr) -> (r: Result<InternedString, CompilerError>)
        ensures
            r == spec_base_var(expr_model(*expr)),
    {
        proof {
            assert(expr_model(*expr).kind == expr_kind_model(expr.kind));
        }
        match &expr.kind {
            HirExprKind::Load(place) => match place {
                HirPlace::Var(name) => Ok(*name),
                _ => {
                    assert(!(place_model(*place) is Var));
                    Err(CompilerError::NoBaseVariable)
                },
            },
            HirExprKind::Field { base, .. } => Ok(*base),
            _ => Err(CompilerError::NoBaseVariable),
        }
    }

    /// Linearizes an AST expression. On success the node list (intermediate computations)
    /// is empty and the expression is the lowering `lower_expression` describes; on failure
    /// the error is the one it describes.
    pub fn linearize_expression(&mut self, expr: &Expression, ctx: &mut HirBuilderContext) -> (r: Result<
        (Vec<HirNode>, HirExpr),
        CompilerError,
    >)
        ensures
            *final(self) == *old(self),
            *final(ctx) == *old(ctx),
            lowered_as(r, lower_expression(*expr)),
        decreases expr, 0int,
    {
        match &expr.kind {
            ExpressionKind::Int(v) => Ok((Vec::new(), self.create_int_expr(*v, &expr.location))),
            ExpressionKind::Bool(v) => Ok((Vec::new(), self.create_bool_expr(*v, &expr.location))),
            ExpressionKind::Char(v) => Ok((Vec::new(), self.create_char_expr(*v, &expr.location))),
            ExpressionKind::StringSlice(s) => Ok(
                (Vec::new(), self.create_string_literal_expr(*s, &expr.location)),
            ),
            ExpressionKind::Reference(name) => {
                let e = HirExpr { kind: HirExprKind::Load(HirPlace::Var(*name)), location: expr.location };
                assert(place_model(HirPlace::Var(*name)) == PlaceModel::Var(*name));
                assert(expr_kind_model(e.kind) == ExprKindModel::Load(PlaceModel::Var(*name)));
                Ok((Vec::new(), e))
            },
            ExpressionKind::Runtime(ast_nodes) => self.linearize_runtime_value(
                ast_nodes,
                &expr.location,
                ctx,
            ),
            ExpressionKind::FunctionCall(name, args) => self.linearize_function_call(
                *name,
                args,
                &expr.location,
                ctx,
            ),
            ExpressionKind::HostFunctionCall(id, args) => self.linearize_host_function_call(
                *id,
                args,
                &expr.location,
                ctx,
            ),
            ExpressionKind::Collection(items) => self.linearize_collection(
                items,
                &expr.data_type,
                &expr.location,
                ctx,
            ),
            ExpressionKind::StructInstance(args) => self.linearize_struct_instance(
                args,
                &expr.data_type,
                &expr.location,
                ctx,
            ),
            ExpressionKind::Range(start, end) => {
                let (mut nodes, start_expr) = match self.linearize_expression(start, ctx) {
                    Ok(x) => x,
                    Err(e) => return Err(e),
                };
                let (mut end_nodes, end_expr) = match self.linearize_expression(end, ctx) {
                    Ok(x) => x,
                    Err(e) => return Err(e),
                };
                nodes.append(&mut end_nodes);
                let e = HirExpr {
                    kind: HirExprKind::Range { start: Box::new(start_expr), end: Box::new(end_expr) },
                    location: expr.location,
                };
                Ok((nodes, e))
            },
            ExpressionKind::Template(_) => Err(CompilerError::TemplateExpression),
            ExpressionKind::Coerced { .. } => Err(CompilerError::TemplateExpression),
            ExpressionKind::Function(_) => Err(CompilerError::FunctionExpression),
            ExpressionKind::StructDefinition(_) => Err(CompilerError::StructDefinitionExpression),
            ExpressionKind::Empty => Ok((Vec::new(), self.create_none_expr(&expr.location))),
        }
    }

    /// Lowers a runtime expression given in reverse Polish order to one nested value:
    /// operators combine the values on a stack, every other node pushes its lowering, and the
    /// single value left is the result (see `lower_runtime`). Nothing is allocated.
    pub(crate) fn linearize_runtime_value(
        &mut self,
        ast_nodes: &Vec<AstNode>,
        location: &TextLocation,
        ctx: &mut HirBuilderContext,
    ) -> (r: Result<(Vec<HirNode>, HirExpr), CompilerError>)
        ensures
            *final(self) == *old(self),
            *final(ctx) == *old(ctx),
            lowered_as(r, lower_runtime(ast_nodes@, *location)),
        decreases ast_nodes, 1int,
    {
        let mut nodes: Vec<HirNode> = Vec::new();
        let mut value_stack: Vec<HirExpr> = Vec::new();
        let mut i: usize = 0;
        while i < ast_nodes.len()
            invariant
                0 <= i <= ast_nodes@.len(),
                nodes@.len() == 0,
                rpn_stack(ast_nodes@.take(i as int)) == Ok::<Seq<ExprModel>, CompilerError>(
                    exprs_model(value_stack@),
                ),
                *self == *old(self),
                *ctx == *old(ctx),
            decreases ast_nodes@.len() - i,
        {
            let ast_node = &ast_nodes[i];
            let ghost before = value_stack@;
            proof {
                assert(ast_nodes@.take(i + 1).drop_last() =~= ast_nodes@.take(i as int));
                assert(ast_nodes@.take(i + 1).last() == *ast_node);
                assert(decreases_to!(ast_nodes => ast_nodes@[i as int]));
                lemma_exprs_model_index(before);
            }
            match &ast_node.kind {
                NodeKind::Operator(op) => {
                    let required = op.required_values();
                    if required == 2 {
                        if value_stack.len() < 2 {
                            proof {
                                assert(exprs_model(before).len() < 2);
                                assert(rpn_step(exprs_model(before), *ast_node) is Err);
                                assert(rpn_stack(ast_nodes@.take(i + 1)) == rpn_step(exprs_model(before), *ast_node));
                                lemma_rpn_stack_prefix_err(ast_nodes@, i + 1);
                            }
                            return Err(CompilerError::MissingBinaryOperands(*op));
                        }
                        let right = value_stack.pop().unwrap();
                        let left = value_stack.pop().unwrap();
                        let hir_op = match self.convert_operator(op) {
                            Ok(b) => b,
                            Err(e) => {
                                proof {
                                    lemma_rpn_stack_prefix_err(ast_nodes@, i + 1);
                                }
                                return Err(e);
                            },
                        };
                        let ghost popped = value_stack@;
                        value_stack.push(
                            HirExpr {
                                kind: HirExprKind::BinOp {
                                    left: Box::new(left),
                                    op: hir_op,
                                    right: Box::new(right),
                                },
                                location: ast_node.location,
                            },
                        );
                        proof {
                            lemma_exprs_model_drop_last(before);
                            lemma_exprs_model_drop_last(before.drop_last());
                            assert(popped == before.drop_last().drop_last());
                            lemma_exprs_model_push(popped, value_stack@.last());
                            assert(value_stack@ == popped.push(value_stack@.last()));
                            assert(exprs_model(before)[before.len() - 2] == exprs_model(before).drop_last().last());
                        }
                    } else {
                        if value_stack.len() == 0 {
                            proof {
                                lemma_rpn_stack_prefix_err(ast_nodes@, i + 1);
                            }
                            return Err(CompilerError::MissingUnaryOperand(*op));
                        }
                        let operand = value_stack.pop().unwrap();
                        let hir_op = match self.convert_unary_operator(op) {
                            Ok(u) => u,
                            Err(e) => {
                                proof {
                                    lemma_rpn_stack_prefix_err(ast_nodes@, i + 1);
                                }
                                return Err(e);
                            },
                        };
                        let ghost popped = value_stack@;
                        value_stack.push(
                            HirExpr {
                                kind: HirExprKind::UnaryOp { op: hir_op, operand: Box::new(operand) },
                                location: ast_node.location,
                            },
                        );
                        proof {
                            lemma_exprs_model_drop_last(before);
                            lemma_exprs_model_push(popped, value_stack@.last());
                            assert(value_stack@ == popped.push(value_stack@.last()));
                        }
                    }
                },
                NodeKind::VariableDeclaration(arg) => {
                    match self.linearize_expression(&arg.value, ctx) {
                        Ok((mut expr_nodes, e)) => {
                            nodes.append(&mut expr_nodes);
                            proof {
                                lemma_exprs_model_push(value_stack@, e);
                            }
                            value_stack.push(e);
                        },
                        Err(e) => {
                            proof {
                                lemma_rpn_stack_prefix_err(ast_nodes@, i + 1);
                            }
                            return Err(e);
                        },
                    }
                },
                NodeKind::Rvalue(expr) => {
                    match self.linearize_expression(expr, ctx) {
                        Ok((mut expr_nodes, e)) => {
                            nodes.append(&mut expr_nodes);
                            proof {
                                lemma_exprs_model_push(value_stack@, e);
                            }
                            value_stack.push(e);
                        },
                        Err(e) => {
                            proof {
                                lemma_rpn_stack_prefix_err(ast_nodes@, i + 1);
                            }
                            return Err(e);
                        },
                    }
                },
                NodeKind::FunctionCall { name, args, location } => {
                    match self.linearize_function_call(*name, args, location, ctx) {
                        Ok((mut call_nodes, e)) => {
                            nodes.append(&mut call_nodes);
                            proof {
                                lemma_exprs_model_push(value_stack@, e);
                            }
                            value_stack.push(e);
                        },
                        Err(e) => {
                            proof {
                                lemma_rpn_stack_prefix_err(ast_nodes@, i + 1);
                            }
                            return Err(e);
                        },
                    }
                },
                NodeKind::HostFunctionCall { host_function_id, args, location } => {
                    match self.linearize_host_function_call(*host_function_id, args, location, ctx) {
                        Ok((mut call_nodes, e)) => {
                            nodes.append(&mut call_nodes);
                            proof {
                                lemma_exprs_model_push(value_stack@, e);
                            }
                            value_stack.push(e);
                        },
                        Err(e) => {
                            proof {
                                lemma_rpn_stack_prefix_err(ast_nodes@, i + 1);
                            }
                            return Err(e);
                        },
                    }
                },
                NodeKind::FieldAccess { base, field } => {
                    let (mut base_nodes, base_expr) = match self.linearize_ast_node(base, ctx) {
                        Ok(x) => x,
                        Err(e) => {
                            proof {
                                lemma_rpn_stack_prefix_err(ast_nodes@, i + 1);
                            }
                            return Err(e);
                        },
                    };
                    nodes.append(&mut base_nodes);
                    let base_var = match self.extract_base_var(&base_expr) {
                        Ok(v) => v,
                        Err(e) => {
                            proof {
                                lemma_rpn_stack_prefix_err(ast_nodes@, i + 1);
                            }
                            return Err(e);
                        },
                    };
                    let e = HirExpr { kind: HirExprKind::Field { base: base_var, field: *field }, location: ast_node.location };
                    proof {
                        lemma_exprs_model_push(value_stack@, e);
                    }
                    value_stack.push(e);
                },
                _ => {
                    match self.linearize_ast_node(ast_node, ctx) {
                        Ok((mut node_nodes, e)) => {
                            nodes.append(&mut node_nodes);
                            proof {
                                lemma_exprs_model_push(value_stack@, e);
                            }
                            value_stack.push(e);
                        },
                        Err(e) => {
                            proof {
                                lemma_rpn_stack_prefix_err(ast_nodes@, i + 1);
                            }
                            return Err(e);
                        },
                    }
                },
            }
            i = i + 1;
        }
        proof {
            assert(ast_nodes@.take(ast_nodes@.len() as int) =~= ast_nodes@);
            lemma_exprs_model_index(value_stack@);
        }
        match value_stack.pop() {
            Some(result) => {
                if value_stack.len() > 0 {
                    return Err(CompilerError::UnusedStackValues(value_stack.len()));
                }
                Ok((nodes, result))
            },
            None => Ok((nodes, HirExpr { kind: HirExprKind::Int(0), location: *location })),
        }
    }

    /// Linearizes a runtime expression given in reverse Polish order into sequential HIR:
    /// operators combine the values on a stack, every other node pushes its lowering, and
    /// the value of every operation but the last node's is an intermediate result, held in
    /// a fresh compiler temporary (see `create_temporary_with_value`) whose load takes its
    /// place on the stack. Returns the assignments to the temporaries, in evaluation order,
    /// and the single value left (see `lower_runtime_temps`).
    #[verifier::rlimit(60)]
    #[verifier::spinoff_prover]
    pub fn linearize_runtime_expression(
        &mut self,
        ast_nodes: &Vec<AstNode>,
        location: &TextLocation,
        ctx: &mut HirBuilderContext,
    ) -> (r: Result<(Vec<HirNode>, HirExpr), CompilerError>)
        requires
            old(ctx).table().wf(),
            old(ctx).table()@.len() + ast_nodes@.len() < u32::MAX,
            old(ctx).meta().temp_counter() + ast_nodes@.len() < usize::MAX,
            old(ctx).node_count() + ast_nodes@.len() < usize::MAX,
        ensures
            final(ctx).table().wf(),
            old(ctx).table()@.is_prefix_of(final(ctx).table()@),
            old(ctx).meta().temp_counter() <= final(ctx).meta().temp_counter(),
            final(ctx).node_count() == old(ctx).node_count() + (final(ctx).meta().temp_counter()
                - old(ctx).meta().temp_counter()),
            flattened_as(
                r,
                lower_runtime_temps(ast_nodes@, *location, temporaries_between(*old(ctx), *final(ctx))),
                old(ctx).node_count() as nat,
            ),
            forall|j: int| 0 <= j < temporaries_between(*old(ctx), *final(ctx)).len() ==> {
                let t = #[trigger] temporaries_between(*old(ctx), *final(ctx))[j];
                &&& final(self).locals().contains_key(t)
                &&& final(ctx).meta().temporary_variables@.contains_key(t)
                &&& final(ctx).meta().ownership_hints.potentially_owned@.contains(t)
                &&& final(ctx).candidates()[old(ctx).candidates().len() + j].variable == t
            },
            final(ctx).candidates().len() == old(ctx).candidates().len() + temporaries_between(*old(ctx), *final(ctx)).len(),
            final(ctx).candidates().take(old(ctx).candidates().len() as int) == old(ctx).candidates(),
            final(ctx).scopes().len() == old(ctx).scopes().len(),
            final(ctx).block_count() == old(ctx).block_count(),
            final(ctx).block_list() == old(ctx).block_list(),
            old(ctx).wf() ==> final(ctx).wf(),
    {
        let ghost c0 = old(ctx).meta().temp_counter();
        let ghost total = ast_nodes@.len();
        let ghost mut temps: Seq<InternedString> = Seq::empty();
        let ghost mut assigns: Seq<(InternedString, ExprModel)> = Seq::empty();
        let mut nodes: Vec<HirNode> = Vec::new();
        let mut value_stack: Vec<HirExpr> = Vec::new();
        let mut i: usize = 0;
        proof {
            assert(old(ctx).table()@.is_prefix_of(ctx.table()@)) by {
                assert(ctx.table()@.subrange(0, ctx.table()@.len() as int) =~= ctx.table()@);
            }
        }
        while i < ast_nodes.len()
            invariant
                0 <= i <= ast_nodes@.len(),
                total == ast_nodes@.len(),
                c0 == old(ctx).meta().temp_counter(),
                temps.len() <= i,
                assigns.len() == temps.len(),
                assigns_nodes(nodes@, assigns, old(ctx).node_count() as nat),
                rpn_temps(ast_nodes@.take(i as int), total, temps) == Ok::<TempState, CompilerError>(
                    (exprs_model(value_stack@), assigns),
                ),
                ctx.node_count() == old(ctx).node_count() + temps.len(),
                ctx.meta().temp_counter() == c0 + temps.len(),
                ctx.table().wf(),
                old(ctx).table()@.is_prefix_of(ctx.table()@),
                ctx.table()@.len() <= old(ctx).table()@.len() + temps.len(),
                forall|j: int| 0 <= j < temps.len() ==> (#[trigger] temps[j] as int) < ctx.table()@.len()
                    && ctx.table()@[temps[j] as int] == temp_name((c0 + j) as nat),
                forall|j: int| 0 <= j < temps.len() ==> self.locals().contains_key(#[trigger] temps[j]),
                forall|j: int| 0 <= j < temps.len() ==> ctx.meta().temporary_variables@.contains_key(#[trigger] temps[j])
                    && ctx.meta().ownership_hints.potentially_owned@.contains(temps[j]),
                ctx.candidates().len() == old(ctx).candidates().len() + temps.len(),
                ctx.candidates().take(old(ctx).candidates().len() as int) == old(ctx).candidates(),
                forall|j: int| 0 <= j < temps.len() ==> (#[trigger] ctx.candidates()[old(ctx).candidates().len() + j]).variable == temps[j],
                ctx.scopes().len() == old(ctx).scopes().len(),
                ctx.block_count() == old(ctx).block_count(),
                ctx.block_list() == old(ctx).block_list(),
                old(ctx).wf() ==> ctx.wf(),
                old(ctx).table()@.len() + ast_nodes@.len() < u32::MAX,
                c0 + ast_nodes@.len() < usize::MAX,
                old(ctx).node_count() + ast_nodes@.len() < usize::MAX,
            decreases ast_nodes@.len() - i,
        {
            let ast_node = &ast_nodes[i];
            let ghost before = value_stack@;
            let ghost state: TempState = (exprs_model(before), assigns);
            proof {
                assert(ast_nodes@.take(i + 1).drop_last() =~= ast_nodes@.take(i as int));
                assert(ast_nodes@.take(i + 1).last() == *ast_node);
                lemma_exprs_model_index(before);
            }
            match &ast_node.kind {
                NodeKind::Operator(op) => {
                    let op_value: HirExpr;
                    if op.required_values() == 2 {
                        if value_stack.len() < 2 {
                            proof {
                                lemma_rpn_temps_prefix_err(ast_nodes@, i + 1, total, temps);
                                lemma_temp_names(ctx.table()@, c0, temps);
                            }
                            return Err(CompilerError::MissingBinaryOperands(*op));
                        }
                        let right = value_stack.pop().unwrap();
                        let left = value_stack.pop().unwrap();
                        let hir_op = match self.convert_operator(op) {
                            Ok(b) => b,
                            Err(e) => {
                                proof {
                                    lemma_rpn_temps_prefix_err(ast_nodes@, i + 1, total, temps);
                                    lemma_temp_names(ctx.table()@, c0, temps);
                                }
                                return Err(e);
                            },
                        };
                        op_value = HirExpr {
                            kind: HirExprKind::BinOp { left: Box::new(left), op: hir_op, right: Box::new(right) },
                            location: ast_node.location,
                        };
                        proof {
                            lemma_exprs_model_drop_last(before);
                            lemma_exprs_model_drop_last(before.drop_last());
                            assert(value_stack@ == before.drop_last().drop_last());
                            assert(exprs_model(before)[before.len() - 2] == exprs_model(before).drop_last().last());
                            assert(rpn_step(exprs_model(before), *ast_node) == Ok::<Seq<ExprModel>, CompilerError>(
                                exprs_model(value_stack@).push(expr_model(op_value)),
                            ));
                        }
                    } else {
                        if value_stack.len() == 0 {
                            proof {
                                lemma_rpn_temps_prefix_err(ast_nodes@, i + 1, total, temps);
                                lemma_temp_names(ctx.table()@, c0, temps);
                            }
                            return Err(CompilerError::MissingUnaryOperand(*op));
                        }
                        let operand = value_stack.pop().unwrap();
                        let hir_op = match self.convert_unary_operator(op) {
                            Ok(u) => u,
                            Err(e) => {
                                proof {
                                    lemma_rpn_temps_prefix_err(ast_nodes@, i + 1, total, temps);
                                    lemma_temp_names(ctx.table()@, c0, temps);
                                }
                                return Err(e);
                            },
                        };
                        op_value = HirExpr {
                            kind: HirExprKind::UnaryOp { op: hir_op, operand: Box::new(operand) },
                            location: ast_node.location,
                        };
                        proof {
                            lemma_exprs_model_drop_last(before);
                            assert(value_stack@ == before.drop_last());
                            assert(rpn_step(exprs_model(before), *ast_node) == Ok::<Seq<ExprModel>, CompilerError>(
                                exprs_model(value_stack@).push(expr_model(op_value)),
                            ));
                        }
                    }
                    let ghost rest = value_stack@;
                    if i + 1 < ast_nodes.len() {
                        let ghost ctx0 = *ctx;
                        let ghost v = expr_model(op_value);
                        let (mut tmp_nodes, load) = self.create_temporary_with_value(op_value, ctx);
                        let ghost t: InternedString = match tmp_nodes@[0].kind {
                            HirKind::Stmt(HirStmt::Assign { target: HirPlace::Var(t), .. }) => t,
                            _ => 0,
                        };
                        proof {
                            let new_temps = temps.push(t);
                            assert(new_temps.subrange(0, temps.len() as int) =~= temps);
                            lemma_rpn_temps_names(ast_nodes@.take(i as int), total, temps, new_temps);
                            assert(new_temps[assigns.len() as int] == t);
                            lemma_exprs_model_push(rest, load);
                            assert(exprs_model(rest).push(v).drop_last() =~= exprs_model(rest));
                            assert forall|j: int| 0 <= j < new_temps.len() implies (#[trigger] new_temps[j] as int)
                                < ctx.table()@.len() && ctx.table()@[new_temps[j] as int] == temp_name(
                                (c0 + j) as nat,
                            ) by {
                                if j < temps.len() {
                                    assert(new_temps[j] == temps[j]);
                                    assert(ctx0.table()@ == ctx.table()@.subrange(0, ctx0.table()@.len() as int));
                                    assert(ctx0.table()@[temps[j] as int] == ctx.table()@.subrange(
                                        0,
                                        ctx0.table()@.len() as int,
                                    )[temps[j] as int]);
                                }
                            }
                            assert(old(ctx).table()@.is_prefix_of(ctx.table()@)) by {
                                assert(old(ctx).table()@ == ctx0.table()@.subrange(0, old(ctx).table()@.len() as int));
                                assert(ctx0.table()@ == ctx.table()@.subrange(0, ctx0.table()@.len() as int));
                                assert(old(ctx).table()@ =~= ctx.table()@.subrange(0, old(ctx).table()@.len() as int));
                            }
                            temps = new_temps;
                            assigns = assigns.push((t, v));
                        }
                        let ghost nodes0 = nodes@;
                        let ghost tn = tmp_nodes@;
                        nodes.append(&mut tmp_nodes);
                        value_stack.push(load);
                        proof {
                            assert(nodes@ =~= nodes0.push(tn[0]));
                            assert forall|j: int| 0 <= j < nodes@.len() implies #[trigger] nodes@[j].id
                                == old(ctx).node_count() + j by {
                                if j < nodes0.len() {
                                    assert(nodes@[j] == nodes0[j]);
                                }
                            }
                            assert(assigns_nodes(nodes@, assigns, old(ctx).node_count() as nat)) by {
                                assert forall|j: int| 0 <= j < nodes@.len() implies {
                                    &&& #[trigger] nodes@[j].id == old(ctx).node_count() + j
                                    &&& nodes@[j].kind matches HirKind::Stmt(
                                        HirStmt::Assign { target: HirPlace::Var(x), value, is_mutable: true },
                                    ) && x == assigns[j].0 && expr_model(value) == assigns[j].1 && nodes@[j].location
                                        == value.location
                                } by {
                                    if j < nodes0.len() {
                                        assert(nodes@[j] == nodes0[j]);
                                        assert(assigns[j] == assigns.drop_last()[j]);
                                    } else {
                                        assert(nodes@[j] == tn[0]);
                                        assert(assigns[j] == (t, v));
                                    }
                                }
                            }
                            assert(forall|j: int| 0 <= j < temps.len() ==> self.locals().contains_key(#[trigger] temps[j]));
                        }
                    } else {
                        value_stack.push(op_value);
                        proof {
                            lemma_exprs_model_push(rest, op_value);
                        }
                    }
                },
                _ => {
                    match self.linearize_ast_node(ast_node, ctx) {
                        Ok((_, e)) => {
                            proof {
                                lemma_exprs_model_push(value_stack@, e);
                            }
                            value_stack.push(e);
                        },
                        Err(e) => {
                            proof {
                                lemma_rpn_temps_prefix_err(ast_nodes@, i + 1, total, temps);
                                lemma_temp_names(ctx.table()@, c0, temps);
                            }
                            return Err(e);
                        },
                    }
                },
            }
            i = i + 1;
        }
        proof {
            assert(ast_nodes@.take(ast_nodes@.len() as int) =~= ast_nodes@);
            lemma_exprs_model_index(value_stack@);
            lemma_temp_names(ctx.table()@, c0, temps);
        }
        match value_stack.pop() {
            Some(result) => {
                if value_stack.len() > 0 {
                    return Err(CompilerError::UnusedStackValues(value_stack.len()));
                }
                Ok((nodes, result))
            },
            None => Ok((nodes, HirExpr { kind: HirExprKind::Int(0), location: *location })),
        }
    }

    /// Linearizes each argument in order; fails with the first argument's error.
    pub(crate) fn linearize_arguments(&mut self, args: &Vec<Expression>, ctx: &mut HirBuilderContext) -> (r:
        Result<(Vec<HirNode>, Vec<HirExpr>), CompilerError>)
        ensures
            *final(self) == *old(self),
            *final(ctx) == *old(ctx),
            match r {
                Ok((nodes, xs)) => nodes@.len() == 0 && lower_expressions(args@) == Ok::<
                    Seq<ExprModel>,
                    CompilerError,
                >(exprs_model(xs@)),
                Err(err) => lower_expressions(args@) == Err::<Seq<ExprModel>, CompilerError>(err),
            },
        decreases args, 0int,
    {
        let mut nodes: Vec<HirNode> = Vec::new();
        let mut hir_args: Vec<HirExpr> = Vec::new();
        let mut i: usize = 0;
        while i < args.len()
            invariant
                0 <= i <= args@.len(),
                nodes@.len() == 0,
                lower_expressions(args@.take(i as int)) == Ok::<Seq<ExprModel>, CompilerError>(
                    exprs_model(hir_args@),
                ),
                *self == *old(self),
                *ctx == *old(ctx),
            decreases args@.len() - i,
        {
            proof {
                assert(args@.take(i + 1).drop_last() =~= args@.take(i as int));
                assert(decreases_to!(args => args@[i as int]));
            }
            match self.linearize_expression(&args[i], ctx) {
                Ok((mut arg_nodes, e)) => {
                    nodes.append(&mut arg_nodes);
                    proof {
                        lemma_exprs_model_push(hir_args@, e);
                    }
                    hir_args.push(e);
                },
                Err(e) => {
                    proof {
                        lemma_lower_expressions_prefix_err(args@, i + 1);
                    }
                    return Err(e);
                },
            }
            i = i + 1;
        }
        assert(args@.take(args@.len() as int) =~= args@);
        Ok((nodes, hir_args))
    }

    /// Linearizes a call of the user function `name`: the arguments in order, then the call.
    pub fn linearize_function_call(
        &mut self,
        name: InternedString,
        args: &Vec<Expression>,
        location: &TextLocation,
        ctx: &mut HirBuilderContext,
    ) -> (r: Result<(Vec<HirNode>, HirExpr), CompilerError>)
        ensures
            *final(self) == *old(self),
            *final(ctx) == *old(ctx),
            lowered_as(r, match lower_expressions(args@) {
                Ok(xs) => Ok(at(ExprKindModel::Call { target: CallTarget::UserFunction(name), args: xs }, *location)),
                Err(err) => Err(err),
            }),
        decreases args, 1int,
    {
        let (nodes, hir_args) = match self.linearize_arguments(args, ctx) {
            Ok(x) => x,
            Err(e) => return Err(e),
        };
        let e = HirExpr {
            kind: HirExprKind::Call { target: CallTarget::UserFunction(name), args: hir_args },
            location: *location,
        };
        Ok((nodes, e))
    }

    /// Linearizes a call of a host function: the arguments in order, then the call.
    pub fn linearize_host_function_call(
        &mut self,
        host_function_id: HostFunctionId,
        args: &Vec<Expression>,
        location: &TextLocation,
        ctx: &mut HirBuilderContext,
    ) -> (r: Result<(Vec<HirNode>, HirExpr), CompilerError>)
        ensures
            *final(self) == *old(self),
            *final(ctx) == *old(ctx),
            lowered_as(r, match lower_expressions(args@) {
                Ok(xs) => Ok(at(ExprKindModel::Call { target: CallTarget::HostFunction(host_function_id), args: xs }, *location)),
                Err(err) => Err(err),
            }),
        decreases args, 1int,
    {
        let (nodes, hir_args) = match self.linearize_arguments(args, ctx) {
            Ok(x) => x,
            Err(e) => return Err(e),
        };
        let e = HirExpr {
            kind: HirExprKind::Call { target: CallTarget::HostFunction(host_function_id), args: hir_args },
            location: *location,
        };
        Ok((nodes, e))
    }

    /// Linearizes a collection literal: the items in order, then the collection.
    pub fn linearize_collection(
        &mut self,
        items: &Vec<Expression>,
        result_type: &DataType,
        location: &TextLocation,
        ctx: &mut HirBuilderContext,
    ) -> (r: Result<(Vec<HirNode>, HirExpr), CompilerError>)
        ensures
            *final(self) == *old(self),
            *final(ctx) == *old(ctx),
            lowered_as(r, match lower_expressions(items@) {
                Ok(xs) => Ok(at(ExprKindModel::Collection(xs), *location)),
                Err(err) => Err(err),
            }),
        decreases items, 1int,
    {
        let (nodes, hir_items) = match self.linearize_arguments(items, ctx) {
            Ok(x) => x,
            Err(e) => return Err(e),
        };
        let e = HirExpr { kind: HirExprKind::Collection(hir_items), location: *location };
        Ok((nodes, e))
    }

    /// Linearizes a struct instance: each field value in order, then the construction.
    pub fn linearize_struct_instance(
        &mut self,
        args: &Vec<Var>,
        result_type: &DataType,
        location: &TextLocation,
        ctx: &mut HirBuilderContext,
    ) -> (r: Result<(Vec<HirNode>, HirExpr), CompilerError>)
        ensures
            *final(self) == *old(self),
            *final(ctx) == *old(ctx),
            lowered_as(r, match lower_fields(args@) {
                Ok(fs) => Ok(at(ExprKindModel::StructConstruct { struct_name: 0, fields: fs }, *location)),
                Err(err) => Err(err),
            }),
        decreases args, 1int,
    {
        let mut nodes: Vec<HirNode> = Vec::new();
        let mut hir_fields: Vec<(InternedString, HirExpr)> = Vec::new();
        let mut i: usize = 0;
        while i < args.len()
            invariant
                0 <= i <= args@.len(),
                nodes@.len() == 0,
                lower_fields(args@.take(i as int)) == Ok::<Seq<(InternedString, ExprModel)>, CompilerError>(
                    fields_model(hir_fields@),
                ),
                *self == *old(self),
                *ctx == *old(ctx),
            decreases args@.len() - i,
        {
            proof {
                assert(args@.take(i + 1).drop_last() =~= args@.take(i as int));
                assert(decreases_to!(args => args@[i as int]));
            }
            match self.linearize_expression(&args[i].value, ctx) {
                Ok((mut field_nodes, e)) => {
                    nodes.append(&mut field_nodes);
                    let f = (args[i].id, e);
                    proof {
                        lemma_fields_model_push(hir_fields@, f);
                    }
                    hir_fields.push(f);
                },
                Err(e) => {
                    proof {
                        lemma_lower_fields_prefix_err(args@, i + 1);
                    }
                    return Err(e);
                },
            }
            i = i + 1;
        }
        assert(args@.take(args@.len() as int) =~= args@);
        let e = HirExpr {
            kind: HirExprKind::StructConstruct {
                struct_name: self.extract_struct_name(result_type),
                fields: hir_fields,
            },
            location: *location,
        };
        Ok((nodes, e))
    }

    /// Linearizes an AST node as a value (see `lower_node`).
    pub fn linearize_ast_node(&mut self, node: &AstNode, ctx: &mut HirBuilderContext) -> (r: Result<
        (Vec<HirNode>, HirExpr),
        CompilerError,
    >)
        ensures
            *final(self) == *old(self),
            *final(ctx) == *old(ctx),
            lowered_as(r, lower_node(*node)),
        decreases node, 0int,
    {
        match &node.kind {
            NodeKind::Rvalue(expr) => self.linearize_expression(expr, ctx),
            NodeKind::VariableDeclaration(arg) => self.linearize_expression(&arg.value, ctx),
            NodeKind::FunctionCall { name, args, location } => self.linearize_function_call(
                *name,
                args,
                location,
                ctx,
            ),
            NodeKind::HostFunctionCall { host_function_id, args, location } => self.linearize_host_function_call(
                *host_function_id,
                args,
                location,
                ctx,
            ),
            NodeKind::FieldAccess { base, field } => {
                let (base_nodes, base_expr) = match self.linearize_ast_node(base, ctx) {
                    Ok(x) => x,
                    Err(e) => return Err(e),
                };
                let base_var = match self.extract_base_var(&base_expr) {
                    Ok(v) => v,
                    Err(e) => return Err(e),
                };
                let e = HirExpr { kind: HirExprKind::Field { base: base_var, field: *field }, location: node.location };
                Ok((base_nodes, e))
            },
            _ => Ok((Vec::new(), HirExpr { kind: HirExprKind::Int(0), location: node.location })),
        }
    }

    /// Linearizes a binary operation: the left operand, then the right, then the operation.
    pub fn linearize_binary_operation(
        &mut self,
        left: &Expression,
        op: &Operator,
        right: &Expression,
        location: &TextLocation,
        ctx: &mut HirBuilderContext,
    ) -> (r: Result<(Vec<HirNode>, HirExpr), CompilerError>)
        ensures
            *final(self) == *old(self),
            *final(ctx) == *old(ctx),
            lowered_as(r, match lower_expression(*left) {
                Ok(l) => match lower_expression(*right) {
                    Ok(x) => match spec_convert_operator(*op) {
                        Ok(b) => Ok(at(ExprKindModel::BinOp { left: Box::new(l), op: b, right: Box::new(x) }, *location)),
                        Err(err) => Err(err),
                    },
                    Err(err) => Err(err),
                },
                Err(err) => Err(err),
            }),
    {
        let (mut nodes, left_expr) = match self.linearize_expression(left, ctx) {
            Ok(x) => x,
            Err(e) => return Err(e),
        };
        let (mut right_nodes, right_expr) = match self.linearize_expression(right, ctx) {
            Ok(x) => x,
            Err(e) => return Err(e),
        };
        nodes.append(&mut right_nodes);
        let hir_op = match self.convert_operator(op) {
            Ok(b) => b,
            Err(e) => return Err(e),
        };
        let e = HirExpr {
            kind: HirExprKind::BinOp { left: Box::new(left_expr), op: hir_op, right: Box::new(right_expr) },
            location: *location,
        };
        Ok((nodes, e))
    }
}

impl ExpressionLinearizer {
    /// Introduces a compiler temporary of the given kind: names it `__tmp_<n>` for the
    /// metadata counter `n`, interns the name, records it as a compiler local and as a
    /// temporary, marks it potentially owned, and adds it as a drop candidate of the current
    /// scope. Returns the interned name.
    pub fn allocate_compiler_local(
        &mut self,
        kind: HirExprKind,
        location: TextLocation,
        ctx: &mut HirBuilderContext,
    ) -> (name: InternedString)
        requires
            old(ctx).meta().temp_counter() < usize::MAX,
            old(ctx).table().wf(),
            old(ctx).table()@.len() < u32::MAX,
        ensures
            final(ctx).table().wf(),
            old(ctx).table()@.is_prefix_of(final(ctx).table()@),
            (name as int) < final(ctx).table()@.len(),
            final(ctx).table()@[name as int] == temp_name(old(ctx).meta().temp_counter()),
            final(ctx).meta().temp_counter() == old(ctx).meta().temp_counter() + 1,
            final(ctx).table()@.len() <= old(ctx).table()@.len() + 1,
            final(self).locals().dom() == old(self).locals().dom().insert(name),
            expr_kind_model(final(self).locals()[name]) == expr_kind_model(kind),
            forall|k: InternedString| k != name && #[trigger] old(self).locals().contains_key(k) ==>
                final(self).locals()[k] == old(self).locals()[k],
            final(ctx).meta().temporary_variables@.dom() == old(ctx).meta().temporary_variables@.dom().insert(name),
            expr_kind_model(final(ctx).meta().temporary_variables@[name]) == expr_kind_model(kind),
            final(ctx).meta().ownership_hints.potentially_owned@ == old(ctx).meta().ownership_hints.potentially_owned@.insert(name),
            final(ctx).meta().ownership_hints.definitely_borrowed@ == old(ctx).meta().ownership_hints.definitely_borrowed@.remove(name),
            final(ctx).candidates() == old(ctx).candidates().push(
                DropCandidate { variable: name, location, scope_level: old(ctx).scopes().len() as usize },
            ),
            final(ctx).scopes().len() == old(ctx).scopes().len(),
            old(ctx).scopes().len() > 0 ==> final(ctx).scopes().last().owned_variables@
                == old(ctx).scopes().last().owned_variables@.push(name),
            final(ctx).block_count() == old(ctx).block_count(),
            final(ctx).node_count() == old(ctx).node_count(),
            final(ctx).block_list() == old(ctx).block_list(),
            final(ctx).mapping() == old(ctx).mapping(),
            old(ctx).wf() ==> final(ctx).wf(),
    {
        let temp_name = ctx.metadata_mut().generate_temp_name();
        let interned_name = ctx.intern(temp_name.as_str());
        let kind_copy = clone_expr_kind(&kind);
        self.compiler_introduced_locals.insert(interned_name, kind_copy);
        ctx.metadata_mut().register_temporary(interned_name, kind);
        ctx.mark_potentially_owned(interned_name);
        ctx.add_drop_candidate(interned_name, location);
        interned_name
    }

    /// Creates an assignment node under a fresh node id and records its build context.
    pub fn create_assignment(
        &mut self,
        target: HirPlace,
        value: HirExpr,
        is_mutable: bool,
        location: TextLocation,
        ctx: &mut HirBuilderContext,
    ) -> (node: HirNode)
        requires
            old(ctx).node_count() < usize::MAX,
        ensures
            node.id == old(ctx).node_count(),
            node.location == location,
            node.kind == HirKind::Stmt(HirStmt::Assign { target, value, is_mutable }),
            final(ctx).node_count() == old(ctx).node_count() + 1,
            final(ctx).mapping().build_contexts@ == old(ctx).mapping().build_contexts@.insert(
                node.id,
                HirBuildContext {
                    source_location: location,
                    original_ast_node: None,
                    scope_depth: old(ctx).scopes().len() as usize,
                    ownership_potential: false,
                },
            ),
            final(ctx).mapping().source_locations@ == old(ctx).mapping().source_locations@.insert(node.id, location),
            final(ctx).mapping().ast_to_hir == old(ctx).mapping().ast_to_hir,
            final(ctx).mapping().hir_to_ast == old(ctx).mapping().hir_to_ast,
            final(ctx).block_count() == old(ctx).block_count(),
            final(ctx).scopes() == old(ctx).scopes(),
            final(ctx).candidates() == old(ctx).candidates(),
            final(ctx).block_list() == old(ctx).block_list(),
            final(ctx).meta() == old(ctx).meta(),
            final(ctx).entry() == old(ctx).entry(),
            final(ctx).table() == old(ctx).table(),
            final(ctx).function() == old(ctx).function(),
            *final(self) == *old(self),
            old(ctx).wf() ==> final(ctx).wf(),
    {
        let node_id = ctx.allocate_node_id();
        let build_context = ctx.create_build_context(location);
        ctx.record_node_context(node_id, build_context);
        HirNode { kind: HirKind::Stmt(HirStmt::Assign { target, value, is_mutable }), location, id: node_id }
    }

    /// Stores `value` in a fresh compiler temporary: returns the single assignment node and
    /// an expression that loads the temporary, both at the value's location.
    pub fn create_temporary_with_value(&mut self, value: HirExpr, ctx: &mut HirBuilderContext) -> (r: (
        Vec<HirNode>,
        HirExpr,
    ))
        requires
            old(ctx).meta().temp_counter() < usize::MAX,
            old(ctx).table().wf(),
            old(ctx).table()@.len() < u32::MAX,
            old(ctx).node_count() < usize::MAX,
        ensures
            r.0@.len() == 1,
            r.0@[0].id == old(ctx).node_count(),
            r.0@[0].location == value.location,
            r.0@[0].kind matches HirKind::Stmt(HirStmt::Assign { target: HirPlace::Var(t), value: v, is_mutable: true })
                && v == value
                && (t as int) < final(ctx).table()@.len()
                && final(ctx).table()@[t as int] == temp_name(old(ctx).meta().temp_counter())
                && final(self).locals().contains_key(t)
                && expr_kind_model(final(self).locals()[t]) == expr_kind_model(value.kind)
                && expr_model(r.1) == at(ExprKindModel::Load(PlaceModel::Var(t)), value.location)
                && final(ctx).meta().temporary_variables@.dom() == old(ctx).meta().temporary_variables@.dom().insert(t)
                && final(ctx).meta().ownership_hints.potentially_owned@ == old(ctx).meta().ownership_hints.potentially_owned@.insert(t)
                && final(ctx).candidates() == old(ctx).candidates().push(
                    DropCandidate { variable: t, location: value.location, scope_level: old(ctx).scopes().len() as usize },
                ),
            final(ctx).scopes().len() == old(ctx).scopes().len(),
            final(ctx).table().wf(),
            old(ctx).table()@.is_prefix_of(final(ctx).table()@),
            final(ctx).table()@.len() <= old(ctx).table()@.len() + 1,
            forall|k: InternedString| #[trigger] old(self).locals().contains_key(k) ==> final(self).locals().contains_key(k),
            final(ctx).node_count() == old(ctx).node_count() + 1,
            final(ctx).meta().temp_counter() == old(ctx).meta().temp_counter() + 1,
            final(ctx).block_count() == old(ctx).block_count(),
            final(ctx).block_list() == old(ctx).block_list(),
            old(ctx).wf() ==> final(ctx).wf(),
    {
        let location = value.location;
        let kind_copy = clone_expr_kind(&value.kind);
        let temp_name = self.allocate_compiler_local(kind_copy, location, ctx);
        let assign_node = self.create_assignment(HirPlace::Var(temp_name), value, true, location, ctx);
        let load_expr = HirExpr { kind: HirExprKind::Load(HirPlace::Var(temp_name)), location };
        proof {
            assert(place_model(HirPlace::Var(temp_name)) == PlaceModel::Var(temp_name));
            assert(expr_kind_model(load_expr.kind) == ExprKindModel::Load(PlaceModel::Var(temp_name)));
        }
        let mut nodes: Vec<HirNode> = Vec::new();
        nodes.push(assign_node);
        (nodes, load_expr)
    }
}

/// `r` is the outcome `spec` describes: on success no intermediate nodes and an expression
/// with the described model; on failure the described error.
pub open spec fn lowered_as(
    r: Result<(Vec<HirNode>, HirExpr), CompilerError>,
    spec: Result<ExprModel, CompilerError>,
) -> bool {
    match r {
        Ok((nodes, e)) => nodes@.len() == 0 && spec == Ok::<ExprModel, CompilerError>(expr_model(e)),
        Err(err) => spec == Err::<ExprModel, CompilerError>(err),
    }
}

} // verus!
