//! State shared while HIR lowers runtime templates: the accumulator locals of runtime slot
//! contribution sources, the append target with its slot-site state, and the queries that
//! decide whether an expression carries a runtime slot application.

use vstd::prelude::*;
use crate::ast::{
    Expression, ExpressionKind, NodeKind, RelationalPatternOp, RenderPiece, Template,
    TemplateRenderPlan,
};
use crate::hir_nodes::HirRelationalPatternOp;
use crate::ids::LocalId;

verus! {

// ============================================================================
// Handoff types from the AST
// ============================================================================

/// Identifier of an authored runtime slot contribution source (an index into the source
/// list of a slot application).
#[derive(Debug, Clone, Copy, PartialEq, Eq, Structural, Hash)]
pub struct RuntimeSlotContributionSourceId(pub usize);

/// A slot site of a runtime slot application: the contribution sources that fill it.
#[derive(Debug, Clone)]
pub struct OwnedRuntimeSlotSite {
    pub sources: Vec<RuntimeSlotContributionSourceId>,
}

/// An owned runtime template node handed over by the AST.
#[derive(Debug)]
pub enum OwnedRuntimeTemplateNode {
    /// Literal text.
    Text(String),
    /// A structural slot placeholder, by slot index.
    Slot(usize),
    /// A resolved slot site, by site index.
    SlotSite(usize),
    /// Nodes rendered one after another.
    Sequence(Vec<OwnedRuntimeTemplateNode>),
}

// ============================================================================
// Source accumulators
// ============================================================================

/// Locals that hold the already-initialised output of each runtime slot contribution
/// source, by source id, so repeated slot sites load the output instead of lowering the
/// contribution again.
#[derive(Debug)]
pub struct RuntimeSlotSourceAccumulatorContext {
    locals_by_source: Vec<LocalId>,
}

impl View for RuntimeSlotSourceAccumulatorContext {
    type V = Seq<LocalId>;

    /// The local of each source id below the table's length.
    closed spec fn view(&self) -> Seq<LocalId> {
        self.locals_by_source@
    }
}

impl RuntimeSlotSourceAccumulatorContext {
    /// A context with no source recorded.
    pub fn new() -> (c: Self)
        ensures
            c@ == Seq::<LocalId>::empty(),
    {
        Self { locals_by_source: Vec::new() }
    }

    /// Records `local` as the accumulator of source `id`. When `id` lies beyond the table,
    /// the table first grows to `id + 1` entries, the new ones filled with `local`.
    pub fn insert(&mut self, id: RuntimeSlotContributionSourceId, local: LocalId)
        requires
            id.0 < usize::MAX,
        ensures
            (id.0 as int) < old(self)@.len() ==> final(self)@ == old(self)@.update(id.0 as int, local),
            (id.0 as int) >= old(self)@.len() ==> final(self)@ == old(self)@ + Seq::new(
                (id.0 + 1 - old(self)@.len()) as nat,
                |i: int| local,
            ),
    {
        if self.locals_by_source.len() <= id.0 {
            self.locals_by_source.resize(id.0 + 1, local);
            proof {
                assert forall|i: int| old(self)@.len() <= i < id.0 + 1 implies self.locals_by_source@[i] == local by {
                    assert(cloned::<LocalId>(local, self.locals_by_source@[i]));
                }
            }
        }
        self.locals_by_source.set(id.0, local);
        proof {
            if (id.0 as int) >= old(self)@.len() {
                assert(self@ =~= old(self)@ + Seq::new((id.0 + 1 - old(self)@.len()) as nat, |i: int| local));
            } else {
                assert(self@ =~= old(self)@.update(id.0 as int, local));
            }
        }
    }

    /// The accumulator recorded for source `id`, if the table reaches that far.
    pub fn local_for(&self, id: RuntimeSlotContributionSourceId) -> (r: Option<LocalId>)
        ensures
            r == if (id.0 as int) < self@.len() {
                Some(self@[id.0 as int])
            } else {
                None
            },
    {
        if id.0 < self.locals_by_source.len() {
            Some(self.locals_by_source[id.0])
        } else {
            None
        }
    }
}

/// Law: after `insert(id, local)`, `local_for(id)` gives `local`, and every other source
/// that had an accumulator keeps it.
pub proof fn lemma_insert_then_local_for(
    before: RuntimeSlotSourceAccumulatorContext,
    after: RuntimeSlotSourceAccumulatorContext,
    id: RuntimeSlotContributionSourceId,
    local: LocalId,
)
    requires
        (id.0 as int) < before@.len() ==> after@ == before@.update(id.0 as int, local),
        (id.0 as int) >= before@.len() ==> after@ == before@ + Seq::new(
            (id.0 + 1 - before@.len()) as nat,
            |i: int| local,
        ),
    ensures
        (id.0 as int) < after@.len(),
        after@[id.0 as int] == local,
        forall|other: int| 0 <= other < before@.len() && other != id.0 ==> #[trigger] after@[other] == before@[other],
{
}

// ============================================================================
// Append context
// ============================================================================

/// Wrapper replay needed before a runtime slot contribution emits loop control: the outer
/// slot-application wrapper must be appended on a path that ends in `break` or `continue`
/// before control leaves for the surrounding template loop.
#[derive(Clone, Copy)]
pub struct RuntimeSlotLoopControlFlush<'a> {
    pub wrapper_plan: &'a OwnedRuntimeTemplateNode,
    pub target_accumulator: LocalId,
    pub source_accumulators: &'a RuntimeSlotSourceAccumulatorContext,
    pub slot_sites: &'a [OwnedRuntimeSlotSite],
    pub contribution_emitted_flag: LocalId,
    pub parent_emitted_flag: Option<LocalId>,
}

/// What an unresolved slot placeholder means: in a standalone runtime template a missing
/// slot renders empty; inside an active slot-application wrapper it is a transformation
/// error.
#[derive(Clone, Copy, Debug, PartialEq, Eq, Structural)]
pub enum RuntimeSlotPlaceholderPolicy {
    MissingSlotRendersEmpty,
    RejectUnresolvedSlot,
}

/// Append target plus optional runtime-slot state for lowering owned template nodes.
#[derive(Clone, Copy)]
pub struct RuntimeTemplateAppendContext<'a> {
    pub target_accumulator: LocalId,
    pub emitted_output: Option<LocalId>,
    pub source_accumulators: Option<&'a RuntimeSlotSourceAccumulatorContext>,
    pub slot_sites: Option<&'a [OwnedRuntimeSlotSite]>,
    pub loop_control_flush: Option<RuntimeSlotLoopControlFlush<'a>>,
    pub slot_placeholder_policy: RuntimeSlotPlaceholderPolicy,
}

impl<'a> RuntimeTemplateAppendContext<'a> {
    /// A context that appends to `target_accumulator`, with no emitted-output flag, no
    /// slot state and missing slots rendering empty.
    pub fn new(target_accumulator: LocalId) -> (c: Self)
        ensures
            c.target_accumulator == target_accumulator,
            c.emitted_output is None,
            c.source_accumulators is None,
            c.slot_sites is None,
            c.loop_control_flush is None,
            c.slot_placeholder_policy == RuntimeSlotPlaceholderPolicy::MissingSlotRendersEmpty,
    {
        Self {
            target_accumulator,
            emitted_output: None,
            source_accumulators: None,
            slot_sites: None,
            loop_control_flush: None,
            slot_placeholder_policy: RuntimeSlotPlaceholderPolicy::MissingSlotRendersEmpty,
        }
    }

    /// The same context with `flag` as its emitted-output flag.
    pub fn with_emitted_output(self, flag: Option<LocalId>) -> (c: Self)
        ensures
            c == (RuntimeTemplateAppendContext { emitted_output: flag, ..self }),
    {
        let mut c = self;
        c.emitted_output = flag;
        c
    }

    /// The same context appending to `target_accumulator` instead.
    pub fn with_target_accumulator(self, target_accumulator: LocalId) -> (c: Self)
        ensures
            c == (RuntimeTemplateAppendContext { target_accumulator, ..self }),
    {
        let mut c = self;
        c.target_accumulator = target_accumulator;
        c
    }

    /// The same context with the source accumulators and slot sites of a slot application.
    pub fn with_runtime_slot_sites(
        self,
        source_accumulators: &'a RuntimeSlotSourceAccumulatorContext,
        slot_sites: &'a [OwnedRuntimeSlotSite],
    ) -> (c: Self)
        ensures
            c == (RuntimeTemplateAppendContext {
                source_accumulators: Some(source_accumulators),
                slot_sites: Some(slot_sites),
                ..self
            }),
    {
        let mut c = self;
        c.source_accumulators = Some(source_accumulators);
        c.slot_sites = Some(slot_sites);
        c
    }

    /// The same context with `flush` replayed before loop control.
    pub fn with_loop_control_flush(self, flush: RuntimeSlotLoopControlFlush<'a>) -> (c: Self)
        ensures
            c == (RuntimeTemplateAppendContext { loop_control_flush: Some(flush), ..self }),
    {
        let mut c = self;
        c.loop_control_flush = Some(flush);
        c
    }

    /// The same context, treating an unresolved slot placeholder as a transformation
    /// error instead of rendering it empty.
    pub fn rejecting_unresolved_slots(self) -> (c: Self)
        ensures
            c == (RuntimeTemplateAppendContext {
                slot_placeholder_policy: RuntimeSlotPlaceholderPolicy::RejectUnresolvedSlot,
                ..self
            }),
    {
        let mut c = self;
        c.slot_placeholder_policy = RuntimeSlotPlaceholderPolicy::RejectUnresolvedSlot;
        c
    }

    /// Whether unresolved slot placeholders are rejected.
    pub fn rejects_unresolved_slots(&self) -> (b: bool)
        ensures
            b == (self.slot_placeholder_policy == RuntimeSlotPlaceholderPolicy::RejectUnresolvedSlot),
    {
        self.slot_placeholder_policy == RuntimeSlotPlaceholderPolicy::RejectUnresolvedSlot
    }

    /// The local that rendered output is appended to.
    pub fn target_accumulator(&self) -> (l: LocalId)
        ensures
            l == self.target_accumulator,
    {
        self.target_accumulator
    }

    /// The flag set when output is emitted, if any.
    pub fn emitted_output(&self) -> (l: Option<LocalId>)
        ensures
            l == self.emitted_output,
    {
        self.emitted_output
    }
}

// ============================================================================
// Pattern operators
// ============================================================================

/// The HIR comparison of a relational match pattern: the same comparison.
pub open spec fn spec_lower_relational_pattern_op(op: RelationalPatternOp) -> HirRelationalPatternOp {
    match op {
        RelationalPatternOp::LessThan => HirRelationalPatternOp::LessThan,
        RelationalPatternOp::LessThanOrEqual => HirRelationalPatternOp::LessThanOrEqual,
        RelationalPatternOp::GreaterThan => HirRelationalPatternOp::GreaterThan,
        RelationalPatternOp::GreaterThanOrEqual => HirRelationalPatternOp::GreaterThanOrEqual,
    }
}

/// Lowers the comparison of a relational match pattern.
pub fn lower_relational_pattern_op(op: RelationalPatternOp) -> (r: HirRelationalPatternOp)
    ensures
        r == spec_lower_relational_pattern_op(op),
{
    match op {
        RelationalPatternOp::LessThan => HirRelationalPatternOp::LessThan,
        RelationalPatternOp::LessThanOrEqual => HirRelationalPatternOp::LessThanOrEqual,
        RelationalPatternOp::GreaterThan => HirRelationalPatternOp::GreaterThan,
        RelationalPatternOp::GreaterThanOrEqual => HirRelationalPatternOp::GreaterThanOrEqual,
    }
}

// ============================================================================
// Runtime slot applications inside expressions
// ============================================================================

/// The runtime template an expression renders, seen through string-boundary coercions
/// and single-value runtime wrappers.
pub open spec fn spec_runtime_template(expression: Expression) -> Option<Template>
    decreases expression,
{
    match expression.kind {
        ExpressionKind::Template(template) => Some(*template),
        ExpressionKind::Coerced { value } => spec_runtime_template(*value),
        ExpressionKind::Runtime(nodes) => if nodes@.len() == 1 {
            match nodes@[0].kind {
                NodeKind::Rvalue(value) => spec_runtime_template(value),
                _ => None,
            }
        } else {
            None
        },
        _ => None,
    }
}

/// Whether `expression` renders a template that carries a runtime slot application
/// itself or in one of its pieces.
pub open spec fn expression_has_slot_application(expression: Expression) -> bool
    decreases expression,
{
    match expression.kind {
        ExpressionKind::Template(template) => template.runtime_slot_application is Some || match template.render_plan {
            Some(plan) => pieces_have_slot_application(plan.pieces@),
            None => false,
        },
        ExpressionKind::Coerced { value } => expression_has_slot_application(*value),
        ExpressionKind::Runtime(nodes) => nodes@.len() == 1 && match nodes@[0].kind {
            NodeKind::Rvalue(value) => expression_has_slot_application(value),
            _ => false,
        },
        _ => false,
    }
}

/// Whether some piece carries a runtime slot application.
pub open spec fn pieces_have_slot_application(pieces: Seq<RenderPiece>) -> bool
    decreases pieces,
{
    exists|i: int| 0 <= i < pieces.len() && piece_has_slot_application(#[trigger] pieces[i])
}

/// Whether a render piece is a runtime slot site or renders an expression that carries a
/// runtime slot application.
pub open spec fn piece_has_slot_application(piece: RenderPiece) -> bool
    decreases piece,
{
    match piece {
        RenderPiece::DynamicExpression(dynamic) => expression_has_slot_application(dynamic.expression),
        RenderPiece::ChildTemplate(child) => expression_has_slot_application(child.expression),
        RenderPiece::RuntimeSlotSite(_) => true,
        _ => false,
    }
}

/// Whether a template carries a runtime slot application itself or in its render plan.
pub open spec fn template_has_slot_application(template: Template) -> bool {
    template.runtime_slot_application is Some || match template.render_plan {
        Some(plan) => pieces_have_slot_application(plan.pieces@),
        None => false,
    }
}

/// The template an expression renders is part of the expression, and the expression
/// carries a slot application exactly when that template does.
pub proof fn lemma_runtime_template(expression: Expression)
    ensures
        spec_runtime_template(expression) matches Some(t) ==> decreases_to!(expression => t),
        expression_has_slot_application(expression) == match spec_runtime_template(expression) {
            Some(t) => template_has_slot_application(t),
            None => false,
        },
    decreases expression,
{
    match expression.kind {
        ExpressionKind::Coerced { value } => {
            lemma_runtime_template(*value);
        },
        ExpressionKind::Runtime(nodes) => {
            if nodes@.len() == 1 {
                match nodes@[0].kind {
                    NodeKind::Rvalue(value) => {
                        assert(decreases_to!(nodes => nodes@[0]));
                        lemma_runtime_template(value);
                    },
                    _ => {},
                }
            }
        },
        _ => {},
    }
}

/// The runtime template `expression` renders, if any.
pub fn runtime_template_for_expression(expression: &Expression) -> (r: Option<&Template>)
    ensures
        match r {
            Some(t) => spec_runtime_template(*expression) == Some(*t),
            None => spec_runtime_template(*expression) is None,
        },
    decreases expression,
{
    match &expression.kind {
        ExpressionKind::Template(template) => Some(template),
        ExpressionKind::Coerced { value } => runtime_template_for_expression(value),
        ExpressionKind::Runtime(nodes) => {
            if nodes.len() == 1 {
                match &nodes[0].kind {
                    NodeKind::Rvalue(value) => {
                        proof {
                            assert(decreases_to!(nodes => nodes@[0]));
                        }
                        runtime_template_for_expression(value)
                    },
                    _ => None,
                }
            } else {
                None
            }
        },
        _ => None,
    }
}

/// Whether some piece of `render_plan` carries a runtime slot application.
pub fn render_plan_contains_runtime_slot_application(render_plan: &TemplateRenderPlan) -> (b: bool)
    ensures
        b == pieces_have_slot_application(render_plan.pieces@),
    decreases render_plan, 1nat,
{
    let mut i: usize = 0;
    while i < render_plan.pieces.len()
        invariant
            0 <= i <= render_plan.pieces@.len(),
            forall|j: int| 0 <= j < i ==> !piece_has_slot_application(#[trigger] render_plan.pieces@[j]),
        decreases render_plan.pieces@.len() - i,
    {
        proof {
            assert(decreases_to!(render_plan => render_plan.pieces@[i as int]));
        }
        if render_piece_contains_runtime_slot_application(&render_plan.pieces[i]) {
            return true;
        }
        i = i + 1;
    }
    false
}

/// Whether `piece` is a runtime slot site or renders an expression that carries a runtime
/// slot application.
pub fn render_piece_contains_runtime_slot_application(piece: &RenderPiece) -> (b: bool)
    ensures
        b == piece_has_slot_application(*piece),
    decreases piece, 1nat,
{
    match piece {
        RenderPiece::DynamicExpression(dynamic) => expression_contains_runtime_slot_application(&dynamic.expression),
        RenderPiece::ChildTemplate(child) => expression_contains_runtime_slot_application(&child.expression),
        RenderPiece::RuntimeSlotSite(_) => true,
        RenderPiece::Text(_) | RenderPiece::HeadContent(_) | RenderPiece::Slot(_) => false,
        RenderPiece::LoopControl(_) => false,
    }
}

/// Whether `expression` renders a template that carries a runtime slot application
/// itself or in one of its pieces.
pub fn expression_contains_runtime_slot_application(expression: &Expression) -> (b: bool)
    ensures
        b == expression_has_slot_application(*expression),
    decreases expression, 0nat,
{
    proof {
        lemma_runtime_template(*expression);
    }
    let template = match runtime_template_for_expression(expression) {
        Some(t) => t,
        None => {
            return false;
        },
    };
    if template.runtime_slot_application.is_some() {
        return true;
    }
    match &template.render_plan {
        Some(plan) => {
            proof {
                assert(decreases_to!(*template => *plan));
            }
            render_plan_contains_runtime_slot_application(plan)
        },
        None => false,
    }
}

} // verus!
