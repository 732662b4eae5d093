//! Build-time bookkeeping for HIR generation: per-node build contexts, scope records,
//! drop candidates, conservative ownership hints, generation metadata, and the mapping
//! between AST nodes and the HIR nodes generated from them.

use vstd::prelude::*;
use std::collections::{HashMap, HashSet};
use crate::ids::InternedString;
use crate::errors::CompilerError;
use crate::nodes::{
    expr_model, place_model, BlockId, ExprKindModel, HirBlock, HirExpr, HirExprKind, HirNode, HirNodeId, HirPlace,
    PlaceModel,
};
use crate::string_table::StringTable;
use crate::text::{decimal, lemma_decimal_injective, push_char, push_decimal};
use crate::tokens::TextLocation;
use vstd::std_specs::iter::IteratorSpec;

verus! {

broadcast use vstd::std_specs::hash::group_hash_axioms;

/// Unique identifier of an AST node.
pub type AstNodeId = usize;

// ============================================================================
// HIR build context
// ============================================================================

/// Context attached to a HIR node: where it came from and the state it was built in.
#[derive(Debug, Clone, Copy, PartialEq, Eq, Structural)]
pub struct HirBuildContext {
    /// Source location of the original AST node.
    pub source_location: TextLocation,
    /// The original AST node, when known.
    pub original_ast_node: Option<AstNodeId>,
    /// The scope depth at which the node was created.
    pub scope_depth: usize,
    /// Whether the node could involve an ownership transfer.
    pub ownership_potential: bool,
}

impl HirBuildContext {
    /// A context at scope depth 0 with no AST node and no ownership potential.
    pub fn new(source_location: TextLocation) -> (c: Self)
        ensures
            c == (HirBuildContext {
                source_location,
                original_ast_node: None,
                scope_depth: 0,
                ownership_potential: false,
            }),
    {
        HirBuildContext {
            source_location,
            original_ast_node: None,
            scope_depth: 0,
            ownership_potential: false,
        }
    }

    /// A context with every field given.
    pub fn with_details(
        source_location: TextLocation,
        ast_node_id: Option<AstNodeId>,
        scope_depth: usize,
        ownership_potential: bool,
    ) -> (c: Self)
        ensures
            c == (HirBuildContext {
                source_location,
                original_ast_node: ast_node_id,
                scope_depth,
                ownership_potential,
            }),
    {
        HirBuildContext {
            source_location,
            original_ast_node: ast_node_id,
            scope_depth,
            ownership_potential,
        }
    }

    /// A context for a known AST node at the given depth, without ownership potential.
    pub fn from_ast_node(location: TextLocation, ast_node_id: AstNodeId, scope_depth: usize) -> (c:
        Self)
        ensures
            c == (HirBuildContext {
                source_location: location,
                original_ast_node: Some(ast_node_id),
                scope_depth,
                ownership_potential: false,
            }),
    {
        HirBuildContext {
            source_location: location,
            original_ast_node: Some(ast_node_id),
            scope_depth,
            ownership_potential: false,
        }
    }

    /// The same context, marked as potentially involving an ownership transfer.
    pub fn with_ownership_potential(self) -> (c: Self)
        ensures
            c == (HirBuildContext { ownership_potential: true, ..self }),
    {
        let mut c = self;
        c.ownership_potential = true;
        c
    }
}

// ============================================================================
// Scopes and drops
// ============================================================================

/// The kind of scope tracked during HIR generation.
#[derive(Debug, Clone, Copy, PartialEq, Eq, Structural)]
pub enum ScopeType {
    /// Top-level scope of a function body.
    Function,
    /// General block scope.
    Block,
    /// Loop scope with its break and continue targets.
    Loop { break_target: BlockId, continue_target: BlockId },
    /// If statement scope.
    If,
}

/// One scope of the scope stack.
#[derive(Debug, Clone)]
pub struct ScopeInfo {
    /// The kind of this scope.
    pub scope_type: ScopeType,
    /// Variables that could be owned in this scope (drop candidates at its exit).
    pub owned_variables: Vec<InternedString>,
    /// The block associated with this scope, if any.
    pub block_id: Option<BlockId>,
    /// The depth of this scope.
    pub depth: usize,
}

impl ScopeInfo {
    /// A scope with no block and no owned variables.
    pub fn new(scope_type: ScopeType, depth: usize) -> (s: Self)
        ensures
            s.scope_type == scope_type,
            s.owned_variables@ == Seq::<InternedString>::empty(),
            s.block_id == None::<BlockId>,
            s.depth == depth,
    {
        ScopeInfo { scope_type, owned_variables: Vec::new(), block_id: None, depth }
    }

    /// A scope associated with `block_id` and no owned variables.
    pub fn with_block(scope_type: ScopeType, block_id: BlockId, depth: usize) -> (s: Self)
        ensures
            s.scope_type == scope_type,
            s.owned_variables@ == Seq::<InternedString>::empty(),
            s.block_id == Some(block_id),
            s.depth == depth,
    {
        ScopeInfo { scope_type, owned_variables: Vec::new(), block_id: Some(block_id), depth }
    }
}

/// A variable that might need a drop.
#[derive(Debug, Clone, Copy, PartialEq, Eq, Structural)]
pub struct DropCandidate {
    /// The variable.
    pub variable: InternedString,
    /// Where it was declared.
    pub location: TextLocation,
    /// The scope depth at which it was declared.
    pub scope_level: usize,
}

/// Where a drop is inserted.
#[derive(Debug, Clone, Copy, PartialEq, Eq, Structural)]
pub enum DropInsertionType {
    /// At scope exit.
    ScopeExit,
    /// Before a return.
    Return,
    /// Before a break to `target`.
    Break { target: BlockId },
    /// Before a continue to `target`.
    Continue { target: BlockId },
    /// At a control-flow merge point.
    Merge,
}

/// A recorded drop insertion point.
#[derive(Debug, Clone)]
pub struct DropInsertionPoint {
    /// Source location of the drop.
    pub location: TextLocation,
    /// Variables that may be dropped there.
    pub variables: Vec<InternedString>,
    /// The kind of insertion.
    pub insertion_type: DropInsertionType,
}

// ============================================================================
// Ownership hints (conservative, not authoritative)
// ============================================================================

/// Conservative ownership hints gathered during HIR generation. They only guide drop
/// insertion; the borrow checker is the authority.
#[derive(Debug)]
pub struct OwnershipHints {
    /// Variables that might be owned.
    pub potentially_owned: HashSet<InternedString>,
    /// Variables that are definitely borrowed.
    pub definitely_borrowed: HashSet<InternedString>,
    /// Potential last-use locations.
    pub last_uses: HashMap<InternedString, TextLocation>,
    /// Variables that have potentially been consumed (moved).
    pub potentially_consumed: HashSet<InternedString>,
}

impl OwnershipHints {
    /// The set of variables that might need a drop: potentially owned and not consumed.
    pub open spec fn spec_drop_candidates(&self) -> Set<InternedString> {
        self.potentially_owned@.difference(self.potentially_consumed@)
    }

    /// Hints with every set and map empty.
    pub fn new() -> (h: Self)
        ensures
            h.potentially_owned@ == Set::<InternedString>::empty(),
            h.definitely_borrowed@ == Set::<InternedString>::empty(),
            h.last_uses@ == Map::<InternedString, TextLocation>::empty(),
            h.potentially_consumed@ == Set::<InternedString>::empty(),
    {
        OwnershipHints {
            potentially_owned: HashSet::new(),
            definitely_borrowed: HashSet::new(),
            last_uses: HashMap::new(),
            potentially_consumed: HashSet::new(),
        }
    }

    /// Marks `var` as potentially owned; it is no longer considered definitely borrowed.
    pub fn mark_potentially_owned(&mut self, var: InternedString)
        ensures
            final(self).potentially_owned@ == old(self).potentially_owned@.insert(var),
            final(self).definitely_borrowed@ == old(self).definitely_borrowed@.remove(var),
            final(self).last_uses@ == old(self).last_uses@,
            final(self).potentially_consumed@ == old(self).potentially_consumed@,
    {
        self.potentially_owned.insert(var);
        self.definitely_borrowed.remove(&var);
    }

    /// Marks `var` as definitely borrowed.
    pub fn mark_definitely_borrowed(&mut self, var: InternedString)
        ensures
            final(self).potentially_owned@ == old(self).potentially_owned@,
            final(self).definitely_borrowed@ == old(self).definitely_borrowed@.insert(var),
            final(self).last_uses@ == old(self).last_uses@,
            final(self).potentially_consumed@ == old(self).potentially_consumed@,
    {
        self.definitely_borrowed.insert(var);
    }

    /// Records `location` as the potential last use of `var`, replacing an earlier record.
    pub fn record_potential_last_use(&mut self, var: InternedString, location: TextLocation)
        ensures
            final(self).potentially_owned@ == old(self).potentially_owned@,
            final(self).definitely_borrowed@ == old(self).definitely_borrowed@,
            final(self).last_uses@ == old(self).last_uses@.insert(var, location),
            final(self).potentially_consumed@ == old(self).potentially_consumed@,
    {
        self.last_uses.insert(var, location);
    }

    /// Marks `var` as potentially consumed (moved).
    pub fn mark_potentially_consumed(&mut self, var: InternedString)
        ensures
            final(self).potentially_owned@ == old(self).potentially_owned@,
            final(self).definitely_borrowed@ == old(self).definitely_borrowed@,
            final(self).last_uses@ == old(self).last_uses@,
            final(self).potentially_consumed@ == old(self).potentially_consumed@.insert(var),
    {
        self.potentially_consumed.insert(var);
    }

    /// Whether `var` could be owned.
    pub fn is_potentially_owned(&self, var: &InternedString) -> (b: bool)
        ensures
            b == self.potentially_owned@.contains(*var),
    {
        self.potentially_owned.contains(var)
    }

    /// Whether `var` is definitely borrowed.
    pub fn is_definitely_borrowed(&self, var: &InternedString) -> (b: bool)
        ensures
            b == self.definitely_borrowed@.contains(*var),
    {
        self.definitely_borrowed.contains(var)
    }

    /// Whether `var` has potentially been consumed.
    pub fn is_potentially_consumed(&self, var: &InternedString) -> (b: bool)
        ensures
            b == self.potentially_consumed@.contains(*var),
    {
        self.potentially_consumed.contains(var)
    }

    /// The recorded potential last use of `var`, if any.
    pub fn get_last_use(&self, var: &InternedString) -> (r: Option<&TextLocation>)
        ensures
            match r {
                Some(loc) => self.last_uses@.contains_key(*var) && *loc == self.last_uses@[*var],
                None => !self.last_uses@.contains_key(*var),
            },
    {
        self.last_uses.get(var)
    }

    /// Forgets every hint about `var` (for example when it goes out of scope).
    pub fn clear_variable(&mut self, var: &InternedString)
        ensures
            final(self).potentially_owned@ == old(self).potentially_owned@.remove(*var),
            final(self).definitely_borrowed@ == old(self).definitely_borrowed@.remove(*var),
            final(self).last_uses@ == old(self).last_uses@.remove(*var),
            final(self).potentially_consumed@ == old(self).potentially_consumed@.remove(*var),
    {
        self.potentially_owned.remove(var);
        self.definitely_borrowed.remove(var);
        self.last_uses.remove(var);
        self.potentially_consumed.remove(var);
    }

    /// The variables that might need a drop (potentially owned and not consumed), each once,
    /// in the set's iteration order.
    pub fn get_drop_candidates(&self) -> (r: Vec<InternedString>)
        ensures
            r@.to_set() == self.spec_drop_candidates(),
            r@.no_duplicates(),
    {
        let mut r: Vec<InternedString> = Vec::new();
        let ghost all = vstd::std_specs::hash::spec_hash_keys_iter(&self.potentially_owned).remaining().unref();
        for v in it: self.potentially_owned.iter()
            invariant
                it.seq().unref() == all,
                all.to_set() == self.potentially_owned@,
                all.no_duplicates(),
                r@.no_duplicates(),
                forall|x: InternedString| #[trigger] r@.contains(x) <==> (all.take(it.index() as int).contains(x)
                    && !self.potentially_consumed@.contains(x)),
        {
            let ghost k = it.index() as int;
            let ghost r0 = r@;
            assert(all[k] == *v);
            assert(all.take(k + 1) =~= all.take(k).push(*v));
            assert(!all.take(k).contains(*v)) by {
                if all.take(k).contains(*v) {
                    let i = choose|i: int| 0 <= i < k && all.take(k)[i] == *v;
                    assert(all[i] == all[k]);
                }
            }
            assert forall|x: InternedString| #[trigger] all.take(k + 1).contains(x) <==> (all.take(k).contains(x) || x == *v) by {
                if all.take(k + 1).contains(x) && x != *v {
                    let i = choose|i: int| 0 <= i < k + 1 && #[trigger] all.take(k + 1)[i] == x;
                    assert(all.take(k)[i] == x);
                }
                if all.take(k).contains(x) {
                    let i = choose|i: int| 0 <= i < k && #[trigger] all.take(k)[i] == x;
                    assert(all.take(k + 1)[i] == x);
                }
                if x == *v {
                    assert(all.take(k + 1)[k] == x);
                }
            }
            assert(!r0.contains(*v));
            if !self.potentially_consumed.contains(v) {
                r.push(*v);
                assert(r@ == r0.push(*v));
                assert(r@.no_duplicates()) by {
                    assert forall|i: int, j: int| 0 <= i < j < r@.len() implies r@[i] != r@[j] by {
                        if j == r0.len() {
                            assert(r0[i] == r@[i]);
                        }
                    }
                }
                assert forall|x: InternedString| #[trigger] r@.contains(x) <==> (r0.contains(x) || x == *v) by {
                    if r@.contains(x) && !r0.contains(x) {
                        let i = choose|i: int| 0 <= i < r@.len() && r@[i] == x;
                        assert(i == r0.len());
                    }
                    if r0.contains(x) {
                        let i = choose|i: int| 0 <= i < r0.len() && r0[i] == x;
                        assert(r@[i] == x);
                    }
                    if x == *v {
                        assert(r@[r0.len() as int] == x);
                    }
                }
            }
        }
        proof {
            assert(all.take(all.len() as int) =~= all);
            assert forall|x: InternedString| #[trigger] r@.to_set().contains(x) <==> self.spec_drop_candidates().contains(x) by {
                assert(r@.to_set().contains(x) <==> r@.contains(x));
                assert(all.to_set().contains(x) <==> all.contains(x));
            }
            assert(r@.to_set() =~= self.spec_drop_candidates());
        }
        r
    }
}

// ============================================================================
// HIR generation metadata
// ============================================================================

/// The name given to the `n`-th compiler-introduced temporary: `__tmp_` followed by `n`
/// in decimal.
pub open spec fn temp_name(n: nat) -> Seq<char> {
    seq!['_', '_', 't', 'm', 'p', '_'] + decimal(n)
}

/// State kept across one HIR generation: temporaries, the active block stack, recorded drop
/// points, ownership hints, and the counter that names temporaries.
#[derive(Debug)]
pub struct HirGenerationMetadata {
    /// Temporaries introduced by the compiler (treated as user locals), with their kinds.
    pub temporary_variables: HashMap<InternedString, HirExprKind>,
    /// Stack of active block ids (innermost last).
    pub block_hierarchy: Vec<BlockId>,
    /// Recorded drop insertion points.
    pub drop_insertion_points: Vec<DropInsertionPoint>,
    /// Conservative ownership hints.
    pub ownership_hints: OwnershipHints,
    /// Number of temporary names generated so far.
    pub temp_var_counter: usize,
}

impl Default for HirGenerationMetadata {
    fn default() -> (m: Self)
        ensures
            m.temporary_variables@ == Map::<InternedString, HirExprKind>::empty(),
            m.block_hierarchy@ == Seq::<BlockId>::empty(),
            m.drop_insertion_points@ == Seq::<DropInsertionPoint>::empty(),
            m.ownership_hints.potentially_owned@ == Set::<InternedString>::empty(),
            m.ownership_hints.definitely_borrowed@ == Set::<InternedString>::empty(),
            m.ownership_hints.last_uses@ == Map::<InternedString, TextLocation>::empty(),
            m.ownership_hints.potentially_consumed@ == Set::<InternedString>::empty(),
            m.temp_counter() == 0,
    {
        Self::new()
    }
}

impl HirGenerationMetadata {
    /// Number of temporary names generated so far.
    pub open spec fn temp_counter(&self) -> nat {
        self.temp_var_counter as nat
    }

    /// Empty metadata whose first temporary will be named `__tmp_0`.
    pub fn new() -> (m: Self)
        ensures
            m.temporary_variables@ == Map::<InternedString, HirExprKind>::empty(),
            m.block_hierarchy@ == Seq::<BlockId>::empty(),
            m.drop_insertion_points@ == Seq::<DropInsertionPoint>::empty(),
            m.ownership_hints.potentially_owned@ == Set::<InternedString>::empty(),
            m.ownership_hints.definitely_borrowed@ == Set::<InternedString>::empty(),
            m.ownership_hints.last_uses@ == Map::<InternedString, TextLocation>::empty(),
            m.ownership_hints.potentially_consumed@ == Set::<InternedString>::empty(),
            m.temp_counter() == 0,
    {
        HirGenerationMetadata {
            temporary_variables: HashMap::new(),
            block_hierarchy: Vec::new(),
            drop_insertion_points: Vec::new(),
            ownership_hints: OwnershipHints::new(),
            temp_var_counter: 0,
        }
    }

    /// Returns the next temporary name, `__tmp_<n>` for the current counter `n`, and advances
    /// the counter; nothing else changes.
    pub fn generate_temp_name(&mut self) -> (name: String)
        requires
            old(self).temp_counter() < usize::MAX,
        ensures
            name@ == temp_name(old(self).temp_counter()),
            final(self).temp_counter() == old(self).temp_counter() + 1,
            final(self).temporary_variables == old(self).temporary_variables,
            final(self).block_hierarchy == old(self).block_hierarchy,
            final(self).drop_insertion_points == old(self).drop_insertion_points,
            final(self).ownership_hints == old(self).ownership_hints,
    {
        let mut name = String::new();
        push_char(&mut name, '_');
        push_char(&mut name, '_');
        push_char(&mut name, 't');
        push_char(&mut name, 'm');
        push_char(&mut name, 'p');
        push_char(&mut name, '_');
        push_decimal(&mut name, self.temp_var_counter as u64);
        assert(name@ =~= temp_name(old(self).temp_counter()));
        self.temp_var_counter += 1;
        name
    }

    /// Registers `name` as a temporary of the given kind (replacing an earlier entry).
    pub fn register_temporary(&mut self, name: InternedString, kind: HirExprKind)
        ensures
            final(self).temporary_variables@ == old(self).temporary_variables@.insert(name, kind),
            final(self).block_hierarchy == old(self).block_hierarchy,
            final(self).drop_insertion_points == old(self).drop_insertion_points,
            final(self).ownership_hints == old(self).ownership_hints,
            final(self).temp_counter() == old(self).temp_counter(),
    {
        self.temporary_variables.insert(name, kind);
    }

    /// Whether `name` is a compiler-introduced temporary.
    pub fn is_temporary(&self, name: &InternedString) -> (b: bool)
        ensures
            b == self.temporary_variables@.contains_key(*name),
    {
        self.temporary_variables.contains_key(name)
    }

    /// Pushes a block onto the hierarchy stack.
    pub fn push_block(&mut self, block_id: BlockId)
        ensures
            final(self).block_hierarchy@ == old(self).block_hierarchy@.push(block_id),
            final(self).temporary_variables == old(self).temporary_variables,
            final(self).drop_insertion_points == old(self).drop_insertion_points,
            final(self).ownership_hints == old(self).ownership_hints,
            final(self).temp_counter() == old(self).temp_counter(),
    {
        self.block_hierarchy.push(block_id);
    }

    /// Pops the innermost block from the hierarchy stack, if there is one.
    pub fn pop_block(&mut self) -> (r: Option<BlockId>)
        ensures
            old(self).block_hierarchy@.len() == 0 ==> r == None::<BlockId>
                && final(self).block_hierarchy@ == old(self).block_hierarchy@,
            old(self).block_hierarchy@.len() > 0 ==> r == Some(old(self).block_hierarchy@.last())
                && final(self).block_hierarchy@ == old(self).block_hierarchy@.drop_last(),
            final(self).temporary_variables == old(self).temporary_variables,
            final(self).drop_insertion_points == old(self).drop_insertion_points,
            final(self).ownership_hints == old(self).ownership_hints,
            final(self).temp_counter() == old(self).temp_counter(),
    {
        self.block_hierarchy.pop()
    }

    /// The innermost active block, if any.
    pub fn current_block(&self) -> (r: Option<BlockId>)
        ensures
            self.block_hierarchy@.len() == 0 ==> r == None::<BlockId>,
            self.block_hierarchy@.len() > 0 ==> r == Some(self.block_hierarchy@.last()),
    {
        let n = self.block_hierarchy.len();
        if n == 0 {
            None
        } else {
            Some(self.block_hierarchy[n - 1])
        }
    }

    /// Records a drop insertion point.
    pub fn record_drop_point(&mut self, point: DropInsertionPoint)
        ensures
            final(self).drop_insertion_points@ == old(self).drop_insertion_points@.push(point),
            final(self).temporary_variables == old(self).temporary_variables,
            final(self).block_hierarchy == old(self).block_hierarchy,
            final(self).ownership_hints == old(self).ownership_hints,
            final(self).temp_counter() == old(self).temp_counter(),
    {
        self.drop_insertion_points.push(point);
    }
}

// ============================================================================
// AST to HIR mapping
// ============================================================================

/// Mapping between AST nodes and the HIR nodes generated from them, with the source
/// location and build context of each HIR node.
#[derive(Debug)]
pub struct AstHirMapping {
    /// HIR nodes generated from each AST node, in recording order.
    pub ast_to_hir: HashMap<AstNodeId, Vec<HirNodeId>>,
    /// The AST node each HIR node came from.
    pub hir_to_ast: HashMap<HirNodeId, AstNodeId>,
    /// Source location of each HIR node.
    pub source_locations: HashMap<HirNodeId, TextLocation>,
    /// Build context of each HIR node.
    pub build_contexts: HashMap<HirNodeId, HirBuildContext>,
}

impl AstHirMapping {
    /// The HIR nodes recorded for `ast_id` (empty when there are none).
    pub open spec fn spec_hir_nodes(&self, ast_id: AstNodeId) -> Seq<HirNodeId> {
        if self.ast_to_hir@.contains_key(ast_id) {
            self.ast_to_hir@[ast_id]@
        } else {
            Seq::empty()
        }
    }

    /// A mapping with every table empty.
    pub fn new() -> (m: Self)
        ensures
            m.ast_to_hir@ == Map::<AstNodeId, Vec<HirNodeId>>::empty(),
            m.hir_to_ast@ == Map::<HirNodeId, AstNodeId>::empty(),
            m.source_locations@ == Map::<HirNodeId, TextLocation>::empty(),
            m.build_contexts@ == Map::<HirNodeId, HirBuildContext>::empty(),
    {
        AstHirMapping {
            ast_to_hir: HashMap::new(),
            hir_to_ast: HashMap::new(),
            source_locations: HashMap::new(),
            build_contexts: HashMap::new(),
        }
    }

    /// Records that `ast_id` generated exactly `hir_ids` (replacing an earlier list) and that
    /// each of them came from `ast_id`.
    pub fn add_mapping(&mut self, ast_id: AstNodeId, hir_ids: Vec<HirNodeId>)
        ensures
            final(self).ast_to_hir@ == old(self).ast_to_hir@.insert(ast_id, hir_ids),
            final(self).hir_to_ast@.dom() == old(self).hir_to_ast@.dom().union(hir_ids@.to_set()),
            forall|h: HirNodeId| #[trigger] final(self).hir_to_ast@.contains_key(h) ==>
                final(self).hir_to_ast@[h] == if hir_ids@.contains(h) { ast_id } else { old(self).hir_to_ast@[h] },
            final(self).source_locations == old(self).source_locations,
            final(self).build_contexts == old(self).build_contexts,
    {
        let ghost old_h2a = self.hir_to_ast@;
        let mut i: usize = 0;
        while i < hir_ids.len()
            invariant
                0 <= i <= hir_ids.len(),
                self.hir_to_ast@.dom() == old_h2a.dom().union(hir_ids@.take(i as int).to_set()),
                forall|h: HirNodeId| #[trigger] self.hir_to_ast@.contains_key(h) ==>
                    self.hir_to_ast@[h] == if hir_ids@.take(i as int).contains(h) { ast_id } else { old_h2a[h] },
                self.ast_to_hir == old(self).ast_to_hir,
                self.source_locations == old(self).source_locations,
                self.build_contexts == old(self).build_contexts,
            decreases hir_ids.len() - i,
        {
            let h = hir_ids[i];
            self.hir_to_ast.insert(h, ast_id);
            proof {
                assert(hir_ids@.take(i + 1) =~= hir_ids@.take(i as int).push(h));
                assert forall|x: HirNodeId| hir_ids@.take(i + 1).contains(x) <==>
                    (hir_ids@.take(i as int).contains(x) || x == h) by {
                    let t = hir_ids@.take(i as int);
                    if t.contains(x) {
                        let j = choose|j: int| 0 <= j < t.len() && t[j] == x;
                        assert(t.push(h)[j] == x);
                    }
                    if x == h {
                        assert(t.push(h)[t.len() as int] == x);
                    }
                }
                assert(self.hir_to_ast@.dom() =~= old_h2a.dom().union(hir_ids@.take(i + 1).to_set()));
            }
            i = i + 1;
        }
        assert(hir_ids@.take(hir_ids@.len() as int) =~= hir_ids@);
        self.ast_to_hir.insert(ast_id, hir_ids);
    }

    /// Appends `hir_id` to the HIR nodes of `ast_id` and records that it came from `ast_id`.
    pub fn add_single_mapping(&mut self, ast_id: AstNodeId, hir_id: HirNodeId)
        ensures
            final(self).hir_to_ast@ == old(self).hir_to_ast@.insert(hir_id, ast_id),
            final(self).ast_to_hir@.dom() == old(self).ast_to_hir@.dom().insert(ast_id),
            final(self).spec_hir_nodes(ast_id) == old(self).spec_hir_nodes(ast_id).push(hir_id),
            forall|a: AstNodeId| a != ast_id && #[trigger] old(self).ast_to_hir@.contains_key(a) ==>
                final(self).ast_to_hir@[a] == old(self).ast_to_hir@[a],
            final(self).source_locations == old(self).source_locations,
            final(self).build_contexts == old(self).build_contexts,
    {
        self.hir_to_ast.insert(hir_id, ast_id);
        let mut nodes = match self.ast_to_hir.remove(&ast_id) {
            Some(v) => v,
            None => Vec::new(),
        };
        nodes.push(hir_id);
        self.ast_to_hir.insert(ast_id, nodes);
        assert(self.ast_to_hir@.dom() =~= old(self).ast_to_hir@.dom().insert(ast_id));
    }

    /// Records the source location of `hir_id`.
    pub fn record_location(&mut self, hir_id: HirNodeId, location: TextLocation)
        ensures
            final(self).source_locations@ == old(self).source_locations@.insert(hir_id, location),
            final(self).ast_to_hir == old(self).ast_to_hir,
            final(self).hir_to_ast == old(self).hir_to_ast,
            final(self).build_contexts == old(self).build_contexts,
    {
        self.source_locations.insert(hir_id, location);
    }

    /// Records the build context of `hir_id`, and its source location as the location of
    /// `hir_id`.
    pub fn record_build_context(&mut self, hir_id: HirNodeId, context: HirBuildContext)
        ensures
            final(self).source_locations@ == old(self).source_locations@.insert(
                hir_id,
                context.source_location,
            ),
            final(self).build_contexts@ == old(self).build_contexts@.insert(hir_id, context),
            final(self).ast_to_hir == old(self).ast_to_hir,
            final(self).hir_to_ast == old(self).hir_to_ast,
    {
        self.source_locations.insert(hir_id, context.source_location);
        self.build_contexts.insert(hir_id, context);
    }

    /// The recorded source location of `hir_id`.
    pub fn get_source_location(&self, hir_id: HirNodeId) -> (r: Option<&TextLocation>)
        ensures
            match r {
                Some(l) => self.source_locations@.contains_key(hir_id) && *l == self.source_locations@[hir_id],
                None => !self.source_locations@.contains_key(hir_id),
            },
    {
        self.source_locations.get(&hir_id)
    }

    /// The recorded build context of `hir_id`.
    pub fn get_build_context(&self, hir_id: HirNodeId) -> (r: Option<&HirBuildContext>)
        ensures
            match r {
                Some(c) => self.build_contexts@.contains_key(hir_id) && *c == self.build_contexts@[hir_id],
                None => !self.build_contexts@.contains_key(hir_id),
            },
    {
        self.build_contexts.get(&hir_id)
    }

    /// The AST node `hir_id` came from.
    pub fn get_original_ast(&self, hir_id: HirNodeId) -> (r: Option<AstNodeId>)
        ensures
            match r {
                Some(a) => self.hir_to_ast@.contains_key(hir_id) && a == self.hir_to_ast@[hir_id],
                None => !self.hir_to_ast@.contains_key(hir_id),
            },
    {
        match self.hir_to_ast.get(&hir_id) {
            Some(a) => Some(*a),
            None => None,
        }
    }

    /// The HIR nodes generated from `ast_id`, if any were recorded.
    pub fn get_hir_nodes(&self, ast_id: AstNodeId) -> (r: Option<&Vec<HirNodeId>>)
        ensures
            match r {
                Some(v) => self.ast_to_hir@.contains_key(ast_id) && *v == self.ast_to_hir@[ast_id],
                None => !self.ast_to_hir@.contains_key(ast_id),
            },
    {
        self.ast_to_hir.get(&ast_id)
    }

    /// Whether the build context of `hir_id` is marked with ownership potential (false when
    /// none is recorded).
    pub fn has_ownership_potential(&self, hir_id: HirNodeId) -> (b: bool)
        ensures
            b == (self.build_contexts@.contains_key(hir_id)
                && self.build_contexts@[hir_id].ownership_potential),
    {
        match self.build_contexts.get(&hir_id) {
            Some(ctx) => ctx.ownership_potential,
            None => false,
        }
    }

    /// The scope depth recorded in the build context of `hir_id`.
    pub fn get_scope_depth(&self, hir_id: HirNodeId) -> (r: Option<usize>)
        ensures
            match r {
                Some(d) => self.build_contexts@.contains_key(hir_id) && d == self.build_contexts@[hir_id].scope_depth,
                None => !self.build_contexts@.contains_key(hir_id),
            },
    {
        match self.build_contexts.get(&hir_id) {
            Some(ctx) => Some(ctx.scope_depth),
            None => None,
        }
    }
}

// ============================================================================
// HIR builder context
// ============================================================================

/// The state of one HIR generation: id counters, the scope stack, drop candidates, the
/// blocks built so far, metadata, and the AST to HIR mapping.
#[derive(Debug)]
pub struct HirBuilderContext {
    string_table: StringTable,
    current_function: Option<InternedString>,
    block_counter: usize,
    node_counter: usize,
    scope_stack: Vec<ScopeInfo>,
    drop_candidates: Vec<DropCandidate>,
    blocks: Vec<HirBlock>,
    metadata: HirGenerationMetadata,
    ast_hir_mapping: AstHirMapping,
    entry_block: Option<BlockId>,
}

/// Whether `blocks` holds a block with id `id`.
pub open spec fn has_block(blocks: Seq<HirBlock>, id: BlockId) -> bool {
    exists|i: int| 0 <= i < blocks.len() && #[trigger] blocks[i].id == id
}

/// The variable a place is rooted at: the variable itself, or the root of the place a
/// field or an element is taken from.
pub open spec fn place_root(p: PlaceModel) -> InternedString
    decreases p,
{
    match p {
        PlaceModel::Var(v) => v,
        PlaceModel::Field { base, .. } => place_root(*base),
        PlaceModel::Index { base, .. } => place_root(*base),
    }
}

/// Well-formedness depends only on the blocks and the block counter.
pub proof fn lemma_wf_frame(a: HirBuilderContext, b: HirBuilderContext)
    requires
        b.block_list() == a.block_list(),
        b.block_count() == a.block_count(),
    ensures
        a.wf() ==> b.wf(),
{
}

impl HirBuilderContext {
    /// The string table.
    pub closed spec fn table(&self) -> StringTable {
        self.string_table
    }

    /// The function being processed, if any.
    pub closed spec fn function(&self) -> Option<InternedString> {
        self.current_function
    }

    /// The next block id to be allocated.
    pub closed spec fn block_count(&self) -> nat {
        self.block_counter as nat
    }

    /// The next node id to be allocated.
    pub closed spec fn node_count(&self) -> nat {
        self.node_counter as nat
    }

    /// The scope stack, outermost first.
    pub closed spec fn scopes(&self) -> Seq<ScopeInfo> {
        self.scope_stack@
    }

    /// The recorded drop candidates, in order.
    pub closed spec fn candidates(&self) -> Seq<DropCandidate> {
        self.drop_candidates@
    }

    /// The blocks created so far, in creation order.
    pub closed spec fn block_list(&self) -> Seq<HirBlock> {
        self.blocks@
    }

    /// The generation metadata.
    pub closed spec fn meta(&self) -> HirGenerationMetadata {
        self.metadata
    }

    /// The AST to HIR mapping.
    pub closed spec fn mapping(&self) -> AstHirMapping {
        self.ast_hir_mapping
    }

    /// The entry block, once set.
    pub closed spec fn entry(&self) -> Option<BlockId> {
        self.entry_block
    }

    /// Well-formedness: block ids are distinct and all below the block counter.
    pub open spec fn wf(&self) -> bool {
        &&& forall|i: int| 0 <= i < self.block_list().len() ==> (#[trigger] self.block_list()[i]).id < self.block_count()
        &&& forall|i: int, j: int| 0 <= i < j < self.block_list().len() ==>
            #[trigger] self.block_list()[i].id != #[trigger] self.block_list()[j].id
    }

    /// A fresh context over `string_table`: counters at zero, no scopes, candidates, or
    /// blocks, empty metadata and mapping, and no entry block.
    pub fn new(string_table: StringTable) -> (c: Self)
        ensures
            c.wf(),
            c.table() == string_table,
            c.function() == None::<InternedString>,
            c.block_count() == 0,
            c.node_count() == 0,
            c.scopes() == Seq::<ScopeInfo>::empty(),
            c.candidates() == Seq::<DropCandidate>::empty(),
            c.block_list() == Seq::<HirBlock>::empty(),
            c.meta().temp_counter() == 0,
            c.meta().temporary_variables@ == Map::<InternedString, HirExprKind>::empty(),
            c.meta().block_hierarchy@ == Seq::<BlockId>::empty(),
            c.meta().ownership_hints.potentially_owned@ == Set::<InternedString>::empty(),
            c.mapping().hir_to_ast@ == Map::<HirNodeId, AstNodeId>::empty(),
            c.mapping().build_contexts@ == Map::<HirNodeId, HirBuildContext>::empty(),
            c.entry() == None::<BlockId>,
    {
        HirBuilderContext {
            string_table,
            current_function: None,
            block_counter: 0,
            node_counter: 0,
            scope_stack: Vec::new(),
            drop_candidates: Vec::new(),
            blocks: Vec::new(),
            metadata: HirGenerationMetadata::new(),
            ast_hir_mapping: AstHirMapping::new(),
            entry_block: None,
        }
    }

    /// Returns the next block id and advances the block counter.
    pub fn allocate_block_id(&mut self) -> (id: BlockId)
        requires
            old(self).block_count() < usize::MAX,
        ensures
            id == old(self).block_count(),
            final(self).block_count() == old(self).block_count() + 1,
            final(self).node_count() == old(self).node_count(),
            final(self).scopes() == old(self).scopes(),
            final(self).candidates() == old(self).candidates(),
            final(self).block_list() == old(self).block_list(),
            final(self).meta() == old(self).meta(),
            final(self).mapping() == old(self).mapping(),
            final(self).entry() == old(self).entry(),
            final(self).table() == old(self).table(),
            final(self).function() == old(self).function(),
            old(self).wf() ==> final(self).wf(),
    {
        let id = self.block_counter;
        self.block_counter = self.block_counter + 1;
        assert(old(self).wf() ==> forall|i: int| 0 <= i < self.block_list().len() ==>
            (#[trigger] self.block_list()[i]).id < self.block_count()) by {
            if old(self).wf() {
                assert forall|i: int| 0 <= i < self.block_list().len() implies
                    (#[trigger] self.block_list()[i]).id < self.block_count() by {
                    assert(old(self).block_list()[i].id < old(self).block_count());
                }
            }
        }
        id
    }

    /// Returns the next node id and advances the node counter.
    pub fn allocate_node_id(&mut self) -> (id: HirNodeId)
        requires
            old(self).node_count() < usize::MAX,
        ensures
            id == old(self).node_count(),
            final(self).node_count() == old(self).node_count() + 1,
            final(self).block_count() == old(self).block_count(),
            final(self).scopes() == old(self).scopes(),
            final(self).candidates() == old(self).candidates(),
            final(self).block_list() == old(self).block_list(),
            final(self).meta() == old(self).meta(),
            final(self).mapping() == old(self).mapping(),
            final(self).entry() == old(self).entry(),
            final(self).table() == old(self).table(),
            final(self).function() == old(self).function(),
            old(self).wf() ==> final(self).wf(),
    {
        let id = self.node_counter;
        self.node_counter = self.node_counter + 1;
        assert(self.block_list() == old(self).block_list());
        assert(self.block_count() == old(self).block_count());
        id
    }

    /// Pushes a new scope of the given kind, at depth equal to the current stack height.
    pub fn enter_scope(&mut self, scope_type: ScopeType)
        ensures
            final(self).scopes().len() == old(self).scopes().len() + 1,
            final(self).scopes().drop_last() == old(self).scopes(),
            final(self).scopes().last().scope_type == scope_type,
            final(self).scopes().last().owned_variables@ == Seq::<InternedString>::empty(),
            final(self).scopes().last().block_id == None::<BlockId>,
            final(self).scopes().last().depth == old(self).scopes().len(),
            final(self).block_count() == old(self).block_count(),
            final(self).node_count() == old(self).node_count(),
            final(self).candidates() == old(self).candidates(),
            final(self).block_list() == old(self).block_list(),
            final(self).meta() == old(self).meta(),
            final(self).mapping() == old(self).mapping(),
            final(self).entry() == old(self).entry(),
            final(self).table() == old(self).table(),
            final(self).function() == old(self).function(),
            old(self).wf() ==> final(self).wf(),
    {
        let depth = self.scope_stack.len();
        self.scope_stack.push(ScopeInfo::new(scope_type, depth));
        assert(self.scope_stack@.drop_last() =~= old(self).scope_stack@);
    }

    /// Pushes a new scope associated with `block_id`.
    pub fn enter_scope_with_block(&mut self, scope_type: ScopeType, block_id: BlockId)
        ensures
            final(self).scopes().len() == old(self).scopes().len() + 1,
            final(self).scopes().drop_last() == old(self).scopes(),
            final(self).scopes().last().scope_type == scope_type,
            final(self).scopes().last().owned_variables@ == Seq::<InternedString>::empty(),
            final(self).scopes().last().block_id == Some(block_id),
            final(self).scopes().last().depth == old(self).scopes().len(),
            final(self).block_count() == old(self).block_count(),
            final(self).node_count() == old(self).node_count(),
            final(self).candidates() == old(self).candidates(),
            final(self).block_list() == old(self).block_list(),
            final(self).meta() == old(self).meta(),
            final(self).mapping() == old(self).mapping(),
            final(self).entry() == old(self).entry(),
            final(self).table() == old(self).table(),
            final(self).function() == old(self).function(),
            old(self).wf() ==> final(self).wf(),
    {
        let depth = self.scope_stack.len();
        self.scope_stack.push(ScopeInfo::with_block(scope_type, block_id, depth));
        assert(self.scope_stack@.drop_last() =~= old(self).scope_stack@);
    }

    /// Pops the innermost scope and returns the variables it owned (none when the stack is
    /// empty).
    pub fn exit_scope(&mut self) -> (vars: Vec<InternedString>)
        ensures
            old(self).scopes().len() == 0 ==> vars@ == Seq::<InternedString>::empty()
                && final(self).scopes() == old(self).scopes(),
            old(self).scopes().len() > 0 ==> vars@ == old(self).scopes().last().owned_variables@
                && final(self).scopes() == old(self).scopes().drop_last(),
            final(self).block_count() == old(self).block_count(),
            final(self).node_count() == old(self).node_count(),
            final(self).candidates() == old(self).candidates(),
            final(self).block_list() == old(self).block_list(),
            final(self).meta() == old(self).meta(),
            final(self).mapping() == old(self).mapping(),
            final(self).entry() == old(self).entry(),
            final(self).table() == old(self).table(),
            final(self).function() == old(self).function(),
            old(self).wf() ==> final(self).wf(),
    {
        let vars = match self.scope_stack.pop() {
            Some(scope_info) => scope_info.owned_variables,
            None => Vec::new(),
        };
        assert(self.block_list() == old(self).block_list());
        assert(self.block_count() == old(self).block_count());
        vars
    }

    /// The current scope depth (the height of the scope stack).
    pub fn current_scope_depth(&self) -> (d: usize)
        ensures
            d == self.scopes().len(),
    {
        self.scope_stack.len()
    }

    /// The innermost scope, if any.
    pub fn current_scope(&self) -> (r: Option<&ScopeInfo>)
        ensures
            self.scopes().len() == 0 ==> r is None,
            self.scopes().len() > 0 ==> (r matches Some(s) && *s == self.scopes().last()),
    {
        let n = self.scope_stack.len();
        if n == 0 {
            None
        } else {
            Some(&self.scope_stack[n - 1])
        }
    }

    /// Mutable access to the innermost scope, if any; everything else stays as it is.
    pub fn current_scope_mut(&mut self) -> (r: Option<&mut ScopeInfo>)
        ensures
            old(self).scopes().len() == 0 ==> r is None && *final(self) == *old(self),
            old(self).scopes().len() > 0 ==> (r matches Some(s) && *s == old(self).scopes().last()
                && final(self).scopes() == old(self).scopes().update(old(self).scopes().len() - 1, *final(s))),
            final(self).block_count() == old(self).block_count(),
            final(self).node_count() == old(self).node_count(),
            final(self).candidates() == old(self).candidates(),
            final(self).block_list() == old(self).block_list(),
            final(self).meta() == old(self).meta(),
            final(self).mapping() == old(self).mapping(),
            final(self).entry() == old(self).entry(),
            final(self).table() == old(self).table(),
            final(self).function() == old(self).function(),
    {
        let n = self.scope_stack.len();
        if n == 0 {
            None
        } else {
            Some(&mut self.scope_stack[n - 1])
        }
    }

    /// The innermost loop scope, if any.
    pub fn find_enclosing_loop(&self) -> (r: Option<&ScopeInfo>)
        ensures
            match r {
                Some(s) => exists|i: int| 0 <= i < self.scopes().len()
                    && *s == #[trigger] self.scopes()[i]
                    && s.scope_type is Loop
                    && forall|j: int| i < j < self.scopes().len() ==> !(#[trigger] self.scopes()[j].scope_type is Loop),
                None => forall|j: int| 0 <= j < self.scopes().len() ==> !(#[trigger] self.scopes()[j].scope_type is Loop),
            },
    {
        let mut i = self.scope_stack.len();
        while i > 0
            invariant
                i <= self.scope_stack@.len(),
                forall|j: int| i <= j < self.scopes().len() ==> !(#[trigger] self.scopes()[j].scope_type is Loop),
            decreases i,
        {
            i = i - 1;
            if let ScopeType::Loop { .. } = self.scope_stack[i].scope_type {
                return Some(&self.scope_stack[i]);
            }
        }
        None
    }

    /// Records `variable` as a drop candidate at the current depth and adds it to the owned
    /// variables of the innermost scope, if there is one.
    pub fn add_drop_candidate(&mut self, variable: InternedString, location: TextLocation)
        ensures
            final(self).candidates() == old(self).candidates().push(
                DropCandidate { variable, location, scope_level: old(self).scopes().len() as usize },
            ),
            final(self).scopes().len() == old(self).scopes().len(),
            forall|i: int| 0 <= i < old(self).scopes().len() - 1 ==> #[trigger] final(self).scopes()[i] == old(self).scopes()[i],
            old(self).scopes().len() > 0 ==> {
                let last = old(self).scopes().last();
                &&& final(self).scopes().last().owned_variables@ == last.owned_variables@.push(variable)
                &&& final(self).scopes().last().scope_type == last.scope_type
                &&& final(self).scopes().last().block_id == last.block_id
                &&& final(self).scopes().last().depth == last.depth
            },
            final(self).block_count() == old(self).block_count(),
            final(self).node_count() == old(self).node_count(),
            final(self).block_list() == old(self).block_list(),
            final(self).meta() == old(self).meta(),
            final(self).mapping() == old(self).mapping(),
            final(self).entry() == old(self).entry(),
            final(self).table() == old(self).table(),
            final(self).function() == old(self).function(),
            old(self).wf() ==> final(self).wf(),
    {
        let scope_level = self.scope_stack.len();
        self.drop_candidates.push(DropCandidate { variable, location, scope_level });
        match self.scope_stack.pop() {
            Some(mut scope) => {
                scope.owned_variables.push(variable);
                self.scope_stack.push(scope);
            },
            None => {},
        }
    }

    /// The drop candidates declared at depth `scope_level` or deeper, in recording order.
    pub fn get_drop_candidates_for_scope(&self, scope_level: usize) -> (r: Vec<&DropCandidate>)
        ensures
            r@.map_values(|c: &DropCandidate| *c) == self.candidates().filter(
                |c: DropCandidate| c.scope_level >= scope_level,
            ),
    {
        let mut r: Vec<&DropCandidate> = Vec::new();
        let mut i: usize = 0;
        while i < self.drop_candidates.len()
            invariant
                0 <= i <= self.drop_candidates@.len(),
                r@.map_values(|c: &DropCandidate| *c) == self.candidates().take(i as int).filter(
                    |c: DropCandidate| c.scope_level >= scope_level,
                ),
            decreases self.drop_candidates@.len() - i,
        {
            let c = &self.drop_candidates[i];
            proof {
                reveal_with_fuel(Seq::<_>::filter, 1);
                assert(self.candidates().take(i + 1).drop_last() =~= self.candidates().take(i as int));
            }
            if c.scope_level >= scope_level {
                r.push(c);
            }
            proof {
                assert(r@.map_values(|c: &DropCandidate| *c) =~= self.candidates().take(i + 1).filter(
                    |c: DropCandidate| c.scope_level >= scope_level,
                ));
            }
            i = i + 1;
        }
        assert(self.candidates().take(self.candidates().len() as int) =~= self.candidates());
        r
    }

    /// Creates an empty block under a freshly allocated id and returns that id.
    pub fn create_block(&mut self) -> (id: BlockId)
        requires
            old(self).block_count() < usize::MAX,
        ensures
            id == old(self).block_count(),
            final(self).block_count() == old(self).block_count() + 1,
            final(self).block_list().len() == old(self).block_list().len() + 1,
            final(self).block_list().drop_last() == old(self).block_list(),
            final(self).block_list().last().id == id,
            final(self).block_list().last().params@ == Seq::<InternedString>::empty(),
            final(self).block_list().last().nodes@ == Seq::<HirNode>::empty(),
            final(self).node_count() == old(self).node_count(),
            final(self).scopes() == old(self).scopes(),
            final(self).candidates() == old(self).candidates(),
            final(self).meta() == old(self).meta(),
            final(self).mapping() == old(self).mapping(),
            final(self).entry() == old(self).entry(),
            final(self).table() == old(self).table(),
            final(self).function() == old(self).function(),
            old(self).wf() ==> final(self).wf(),
    {
        let id = self.allocate_block_id();
        self.blocks.push(HirBlock { id, params: Vec::new(), nodes: Vec::new() });
        assert(self.blocks@.drop_last() =~= old(self).blocks@);
        id
    }

    /// Index of the first block with id `id`.
    fn find_block_index(&self, id: BlockId) -> (r: Option<usize>)
        ensures
            match r {
                Some(i) => i < self.block_list().len() && self.block_list()[i as int].id == id
                    && forall|j: int| 0 <= j < i ==> #[trigger] self.block_list()[j].id != id,
                None => !has_block(self.block_list(), id),
            },
    {
        let mut i: usize = 0;
        while i < self.blocks.len()
            invariant
                0 <= i <= self.blocks@.len(),
                forall|j: int| 0 <= j < i ==> #[trigger] self.blocks@[j].id != id,
            decreases self.blocks@.len() - i,
        {
            if self.blocks[i].id == id {
                return Some(i);
            }
            i = i + 1;
        }
        None
    }

    /// The first block with id `id`, if any.
    pub fn get_block(&self, id: BlockId) -> (r: Option<&HirBlock>)
        ensures
            match r {
                Some(b) => b.id == id && exists|i: int| 0 <= i < self.block_list().len()
                    && *b == #[trigger] self.block_list()[i]
                    && forall|j: int| 0 <= j < i ==> #[trigger] self.block_list()[j].id != id,
                None => !has_block(self.block_list(), id),
            },
    {
        match self.find_block_index(id) {
            Some(i) => Some(&self.blocks[i]),
            None => None,
        }
    }

    /// Mutable access to the first block with id `id`, if any; everything else stays as it
    /// is.
    pub fn get_block_mut(&mut self, id: BlockId) -> (r: Option<&mut HirBlock>)
        ensures
            match r {
                Some(b) => b.id == id && exists|i: int| 0 <= i < old(self).block_list().len()
                    && *b == #[trigger] old(self).block_list()[i]
                    && forall|j: int| 0 <= j < i ==> #[trigger] old(self).block_list()[j].id != id
                    && final(self).block_list() == old(self).block_list().update(i, *final(b)),
                None => !has_block(old(self).block_list(), id) && *final(self) == *old(self),
            },
            final(self).block_count() == old(self).block_count(),
            final(self).node_count() == old(self).node_count(),
            final(self).scopes() == old(self).scopes(),
            final(self).candidates() == old(self).candidates(),
            final(self).meta() == old(self).meta(),
            final(self).mapping() == old(self).mapping(),
            final(self).entry() == old(self).entry(),
            final(self).table() == old(self).table(),
            final(self).function() == old(self).function(),
    {
        match self.find_block_index(id) {
            Some(i) => Some(&mut self.blocks[i]),
            None => None,
        }
    }

    /// Appends `node` to the first block with id `block_id`; does nothing when there is none.
    pub fn add_node_to_block(&mut self, block_id: BlockId, node: HirNode)
        ensures
            final(self).block_list().len() == old(self).block_list().len(),
            !has_block(old(self).block_list(), block_id) ==> final(self).block_list() == old(self).block_list(),
            has_block(old(self).block_list(), block_id) ==> exists|i: int| 0 <= i < old(self).block_list().len()
                && #[trigger] old(self).block_list()[i].id == block_id
                && final(self).block_list()[i].id == block_id
                && final(self).block_list()[i].params == old(self).block_list()[i].params
                && final(self).block_list()[i].nodes@ == old(self).block_list()[i].nodes@.push(node)
                && forall|j: int| 0 <= j < old(self).block_list().len() && j != i ==>
                    #[trigger] final(self).block_list()[j] == old(self).block_list()[j],
            final(self).block_count() == old(self).block_count(),
            final(self).node_count() == old(self).node_count(),
            final(self).scopes() == old(self).scopes(),
            final(self).candidates() == old(self).candidates(),
            final(self).meta() == old(self).meta(),
            final(self).mapping() == old(self).mapping(),
            final(self).entry() == old(self).entry(),
            final(self).table() == old(self).table(),
            final(self).function() == old(self).function(),
            old(self).wf() ==> final(self).wf(),
    {
        match self.find_block_index(block_id) {
            Some(i) => {
                let mut block = self.blocks.remove(i);
                block.nodes.push(node);
                self.blocks.insert(i, block);
                assert(old(self).block_list()[i as int].id == block_id);
            },
            None => {},
        }
    }

    /// Sets the entry block.
    pub fn set_entry_block(&mut self, block_id: BlockId)
        ensures
            final(self).entry() == Some(block_id),
            final(self).block_count() == old(self).block_count(),
            final(self).node_count() == old(self).node_count(),
            final(self).scopes() == old(self).scopes(),
            final(self).candidates() == old(self).candidates(),
            final(self).block_list() == old(self).block_list(),
            final(self).meta() == old(self).meta(),
            final(self).mapping() == old(self).mapping(),
            final(self).table() == old(self).table(),
            final(self).function() == old(self).function(),
            old(self).wf() ==> final(self).wf(),
    {
        self.entry_block = Some(block_id);
    }

    /// The string table.
    pub fn string_table(&self) -> (t: &StringTable)
        ensures
            *t == self.table(),
    {
        &self.string_table
    }

    /// Interns `s` in the string table.
    pub fn intern(&mut self, s: &str) -> (id: InternedString)
        requires
            old(self).table().wf(),
            old(self).table()@.len() < u32::MAX,
        ensures
            final(self).table().wf(),
            (id as int) < final(self).table()@.len(),
            final(self).table()@[id as int] == s@,
            old(self).table()@.contains(s@) ==> final(self).table()@ == old(self).table()@,
            !old(self).table()@.contains(s@) ==> final(self).table()@ == old(self).table()@.push(s@),
            final(self).block_count() == old(self).block_count(),
            final(self).node_count() == old(self).node_count(),
            final(self).scopes() == old(self).scopes(),
            final(self).candidates() == old(self).candidates(),
            final(self).block_list() == old(self).block_list(),
            final(self).meta() == old(self).meta(),
            final(self).mapping() == old(self).mapping(),
            final(self).entry() == old(self).entry(),
            final(self).function() == old(self).function(),
            old(self).wf() ==> final(self).wf(),
    {
        let id = self.string_table.intern(s);
        proof {
            lemma_wf_frame(*old(self), *self);
        }
        id
    }

    /// The function being processed, if any.
    pub fn current_function(&self) -> (f: Option<InternedString>)
        ensures
            f == self.function(),
    {
        self.current_function
    }

    /// The generation metadata.
    pub fn metadata(&self) -> (m: &HirGenerationMetadata)
        ensures
            *m == self.meta(),
    {
        &self.metadata
    }

    /// The variables of the drop candidates, in the order they were added.
    pub fn drop_candidate_variables(&self) -> (r: Vec<InternedString>)
        ensures
            r@ == self.candidates().map_values(|c: DropCandidate| c.variable),
    {
        let mut r: Vec<InternedString> = Vec::new();
        let mut i: usize = 0;
        while i < self.drop_candidates.len()
            invariant
                0 <= i <= self.drop_candidates@.len(),
                r@ == self.candidates().take(i as int).map_values(|c: DropCandidate| c.variable),
            decreases self.drop_candidates@.len() - i,
        {
            r.push(self.drop_candidates[i].variable);
            proof {
                assert(self.candidates().take(i + 1).map_values(|c: DropCandidate| c.variable)
                    =~= self.candidates().take(i as int).map_values(|c: DropCandidate| c.variable).push(self.candidates()[i as int].variable));
            }
            i = i + 1;
        }
        proof {
            assert(self.candidates().take(i as int) =~= self.candidates());
        }
        r
    }

    /// Mutable access to the generation metadata; everything else stays as it is.
    pub fn metadata_mut(&mut self) -> (m: &mut HirGenerationMetadata)
        ensures
            *m == old(self).meta(),
            final(self).meta() == *final(m),
            final(self).block_count() == old(self).block_count(),
            final(self).node_count() == old(self).node_count(),
            final(self).scopes() == old(self).scopes(),
            final(self).candidates() == old(self).candidates(),
            final(self).block_list() == old(self).block_list(),
            final(self).mapping() == old(self).mapping(),
            final(self).entry() == old(self).entry(),
            final(self).table() == old(self).table(),
            final(self).function() == old(self).function(),
    {
        &mut self.metadata
    }

    /// The AST to HIR mapping.
    pub fn ast_hir_mapping(&self) -> (m: &AstHirMapping)
        ensures
            *m == self.mapping(),
    {
        &self.ast_hir_mapping
    }

    /// Mutable access to the AST to HIR mapping; everything else stays as it is.
    pub fn ast_hir_mapping_mut(&mut self) -> (m: &mut AstHirMapping)
        ensures
            *m == old(self).mapping(),
            final(self).mapping() == *final(m),
            final(self).block_count() == old(self).block_count(),
            final(self).node_count() == old(self).node_count(),
            final(self).scopes() == old(self).scopes(),
            final(self).candidates() == old(self).candidates(),
            final(self).block_list() == old(self).block_list(),
            final(self).meta() == old(self).meta(),
            final(self).entry() == old(self).entry(),
            final(self).table() == old(self).table(),
            final(self).function() == old(self).function(),
    {
        &mut self.ast_hir_mapping
    }

    /// A build context at `location` for the current depth, with no AST node and no ownership
    /// potential.
    pub fn create_build_context(&self, location: TextLocation) -> (c: HirBuildContext)
        ensures
            c == (HirBuildContext {
                source_location: location,
                original_ast_node: None,
                scope_depth: self.scopes().len() as usize,
                ownership_potential: false,
            }),
    {
        HirBuildContext::with_details(location, None, self.current_scope_depth(), false)
    }

    /// A build context at `location` for the current depth that refers to `ast_node_id`.
    pub fn create_build_context_with_ast(&self, location: TextLocation, ast_node_id: AstNodeId) -> (c:
        HirBuildContext)
        ensures
            c == (HirBuildContext {
                source_location: location,
                original_ast_node: Some(ast_node_id),
                scope_depth: self.scopes().len() as usize,
                ownership_potential: false,
            }),
    {
        HirBuildContext::with_details(location, Some(ast_node_id), self.current_scope_depth(), false)
    }

    /// A build context at `location` for the current depth, marked with ownership potential.
    pub fn create_build_context_with_ownership(
        &self,
        location: TextLocation,
        ast_node_id: Option<AstNodeId>,
    ) -> (c: HirBuildContext)
        ensures
            c == (HirBuildContext {
                source_location: location,
                original_ast_node: ast_node_id,
                scope_depth: self.scopes().len() as usize,
                ownership_potential: true,
            }),
    {
        HirBuildContext::with_details(location, ast_node_id, self.current_scope_depth(), true)
    }

    /// Records `context` as the build context of node `hir_id`.
    pub fn record_node_context(&mut self, hir_id: HirNodeId, context: HirBuildContext)
        ensures
            final(self).mapping().build_contexts@ == old(self).mapping().build_contexts@.insert(hir_id, context),
            final(self).mapping().source_locations@ == old(self).mapping().source_locations@.insert(
                hir_id,
                context.source_location,
            ),
            final(self).mapping().ast_to_hir == old(self).mapping().ast_to_hir,
            final(self).mapping().hir_to_ast == old(self).mapping().hir_to_ast,
            final(self).block_count() == old(self).block_count(),
            final(self).node_count() == old(self).node_count(),
            final(self).scopes() == old(self).scopes(),
            final(self).candidates() == old(self).candidates(),
            final(self).block_list() == old(self).block_list(),
            final(self).meta() == old(self).meta(),
            final(self).entry() == old(self).entry(),
            final(self).table() == old(self).table(),
            final(self).function() == old(self).function(),
            old(self).wf() ==> final(self).wf(),
    {
        self.ast_hir_mapping.record_build_context(hir_id, context);
    }

    /// Records that node `hir_id` was generated from `ast_id` at `location`, with a build
    /// context for the current depth that refers to `ast_id`.
    pub fn record_ast_to_hir(&mut self, ast_id: AstNodeId, hir_id: HirNodeId, location: TextLocation)
        ensures
            final(self).mapping().hir_to_ast@ == old(self).mapping().hir_to_ast@.insert(hir_id, ast_id),
            final(self).mapping().spec_hir_nodes(ast_id) == old(self).mapping().spec_hir_nodes(ast_id).push(hir_id),
            final(self).mapping().build_contexts@ == old(self).mapping().build_contexts@.insert(
                hir_id,
                HirBuildContext {
                    source_location: location,
                    original_ast_node: Some(ast_id),
                    scope_depth: old(self).scopes().len() as usize,
                    ownership_potential: false,
                },
            ),
            final(self).mapping().source_locations@ == old(self).mapping().source_locations@.insert(hir_id, location),
            final(self).block_count() == old(self).block_count(),
            final(self).node_count() == old(self).node_count(),
            final(self).scopes() == old(self).scopes(),
            final(self).candidates() == old(self).candidates(),
            final(self).block_list() == old(self).block_list(),
            final(self).meta() == old(self).meta(),
            final(self).entry() == old(self).entry(),
            final(self).table() == old(self).table(),
            final(self).function() == old(self).function(),
            old(self).wf() ==> final(self).wf(),
    {
        self.ast_hir_mapping.add_single_mapping(ast_id, hir_id);
        let context = self.create_build_context_with_ast(location, ast_id);
        self.ast_hir_mapping.record_build_context(hir_id, context);
        proof {
            lemma_wf_frame(*old(self), *self);
        }
    }

    /// Marks `var` as potentially owned in the ownership hints.
    pub fn mark_potentially_owned(&mut self, var: InternedString)
        ensures
            final(self).meta().ownership_hints.potentially_owned@ == old(self).meta().ownership_hints.potentially_owned@.insert(var),
            final(self).meta().ownership_hints.definitely_borrowed@ == old(self).meta().ownership_hints.definitely_borrowed@.remove(var),
            final(self).meta().ownership_hints.last_uses@ == old(self).meta().ownership_hints.last_uses@,
            final(self).meta().ownership_hints.potentially_consumed@ == old(self).meta().ownership_hints.potentially_consumed@,
            final(self).meta().temporary_variables == old(self).meta().temporary_variables,
            final(self).meta().block_hierarchy == old(self).meta().block_hierarchy,
            final(self).meta().drop_insertion_points == old(self).meta().drop_insertion_points,
            final(self).meta().temp_counter() == old(self).meta().temp_counter(),
            final(self).block_count() == old(self).block_count(),
            final(self).node_count() == old(self).node_count(),
            final(self).scopes() == old(self).scopes(),
            final(self).candidates() == old(self).candidates(),
            final(self).block_list() == old(self).block_list(),
            final(self).mapping() == old(self).mapping(),
            final(self).entry() == old(self).entry(),
            final(self).table() == old(self).table(),
            final(self).function() == old(self).function(),
            old(self).wf() ==> final(self).wf(),
    {
        self.metadata.ownership_hints.mark_potentially_owned(var);
    }

    /// Marks `var` as definitely borrowed in the ownership hints.
    pub fn mark_definitely_borrowed(&mut self, var: InternedString)
        ensures
            final(self).meta().ownership_hints.definitely_borrowed@ == old(self).meta().ownership_hints.definitely_borrowed@.insert(var),
            final(self).meta().ownership_hints.potentially_owned@ == old(self).meta().ownership_hints.potentially_owned@,
            final(self).meta().ownership_hints.last_uses@ == old(self).meta().ownership_hints.last_uses@,
            final(self).meta().ownership_hints.potentially_consumed@ == old(self).meta().ownership_hints.potentially_consumed@,
            final(self).meta().temporary_variables == old(self).meta().temporary_variables,
            final(self).meta().block_hierarchy == old(self).meta().block_hierarchy,
            final(self).meta().drop_insertion_points == old(self).meta().drop_insertion_points,
            final(self).meta().temp_counter() == old(self).meta().temp_counter(),
            final(self).block_count() == old(self).block_count(),
            final(self).node_count() == old(self).node_count(),
            final(self).scopes() == old(self).scopes(),
            final(self).candidates() == old(self).candidates(),
            final(self).block_list() == old(self).block_list(),
            final(self).mapping() == old(self).mapping(),
            final(self).entry() == old(self).entry(),
            final(self).table() == old(self).table(),
            final(self).function() == old(self).function(),
            old(self).wf() ==> final(self).wf(),
    {
        self.metadata.ownership_hints.mark_definitely_borrowed(var);
    }

    /// Records `location` as the potential last use of `var`.
    pub fn record_potential_last_use(&mut self, var: InternedString, location: TextLocation)
        ensures
            final(self).meta().ownership_hints.last_uses@ == old(self).meta().ownership_hints.last_uses@.insert(var, location),
            final(self).meta().ownership_hints.potentially_owned@ == old(self).meta().ownership_hints.potentially_owned@,
            final(self).meta().ownership_hints.definitely_borrowed@ == old(self).meta().ownership_hints.definitely_borrowed@,
            final(self).meta().ownership_hints.potentially_consumed@ == old(self).meta().ownership_hints.potentially_consumed@,
            final(self).meta().temporary_variables == old(self).meta().temporary_variables,
            final(self).meta().block_hierarchy == old(self).meta().block_hierarchy,
            final(self).meta().drop_insertion_points == old(self).meta().drop_insertion_points,
            final(self).meta().temp_counter() == old(self).meta().temp_counter(),
            final(self).block_count() == old(self).block_count(),
            final(self).node_count() == old(self).node_count(),
            final(self).scopes() == old(self).scopes(),
            final(self).candidates() == old(self).candidates(),
            final(self).block_list() == old(self).block_list(),
            final(self).mapping() == old(self).mapping(),
            final(self).entry() == old(self).entry(),
            final(self).table() == old(self).table(),
            final(self).function() == old(self).function(),
            old(self).wf() ==> final(self).wf(),
    {
        self.metadata.ownership_hints.record_potential_last_use(var, location);
    }

    /// Marks `var` as potentially consumed in the ownership hints.
    pub fn mark_potentially_consumed(&mut self, var: InternedString)
        ensures
            final(self).meta().ownership_hints.potentially_consumed@ == old(self).meta().ownership_hints.potentially_consumed@.insert(var),
            final(self).meta().ownership_hints.potentially_owned@ == old(self).meta().ownership_hints.potentially_owned@,
            final(self).meta().ownership_hints.definitely_borrowed@ == old(self).meta().ownership_hints.definitely_borrowed@,
            final(self).meta().ownership_hints.last_uses@ == old(self).meta().ownership_hints.last_uses@,
            final(self).meta().temporary_variables == old(self).meta().temporary_variables,
            final(self).meta().block_hierarchy == old(self).meta().block_hierarchy,
            final(self).meta().drop_insertion_points == old(self).meta().drop_insertion_points,
            final(self).meta().temp_counter() == old(self).meta().temp_counter(),
            final(self).block_count() == old(self).block_count(),
            final(self).node_count() == old(self).node_count(),
            final(self).scopes() == old(self).scopes(),
            final(self).candidates() == old(self).candidates(),
            final(self).block_list() == old(self).block_list(),
            final(self).mapping() == old(self).mapping(),
            final(self).entry() == old(self).entry(),
            final(self).table() == old(self).table(),
            final(self).function() == old(self).function(),
            old(self).wf() ==> final(self).wf(),
    {
        self.metadata.ownership_hints.mark_potentially_consumed(var);
    }

    /// Whether `var` could be owned according to the ownership hints.
    pub fn is_potentially_owned(&self, var: &InternedString) -> (b: bool)
        ensures
            b == self.meta().ownership_hints.potentially_owned@.contains(*var),
    {
        self.metadata.ownership_hints.is_potentially_owned(var)
    }
}

// ============================================================================
// Laws
// ============================================================================

/// Law: the temporaries named from different counter values have different names, so the
/// names handed out by successive `generate_temp_name` calls are unique.
pub proof fn lemma_temp_names_unique(m: nat, n: nat)
    requires
        m != n,
    ensures
        temp_name(m) != temp_name(n),
{
    if temp_name(m) == temp_name(n) {
        let p = seq!['_', '_', 't', 'm', 'p', '_'];
        assert(temp_name(m).skip(6) =~= decimal(m));
        assert(temp_name(n).skip(6) =~= decimal(n));
        lemma_decimal_injective(m, n);
    }
}

/// Law: pushing a block and then popping returns that block and restores the hierarchy,
/// and while it is pushed it is the current block.
pub proof fn lemma_push_then_pop_block(
    before: Seq<BlockId>,
    pushed: Seq<BlockId>,
    popped: Seq<BlockId>,
    block_id: BlockId,
)
    requires
        pushed == before.push(block_id),
        popped == pushed.drop_last(),
    ensures
        pushed.len() > 0,
        pushed.last() == block_id,
        popped == before,
{
    assert(popped =~= before);
}

/// The scope stacks `stacks[1..]` come from `stacks[0]` by entering a scope of type
/// `scope_type` and then adding the drop candidates `vars` one by one, as the contracts of
/// `enter_scope` and `add_drop_candidate` describe each step.
pub open spec fn entered_and_added(stacks: Seq<Seq<ScopeInfo>>, scope_type: ScopeType, vars: Seq<InternedString>) -> bool {
    &&& stacks.len() == vars.len() + 2
    &&& stacks[1].len() == stacks[0].len() + 1
    &&& stacks[1].drop_last() == stacks[0]
    &&& stacks[1].last().scope_type == scope_type
    &&& stacks[1].last().owned_variables@ == Seq::<InternedString>::empty()
    &&& stacks[1].last().block_id == None::<BlockId>
    &&& stacks[1].last().depth == stacks[0].len()
    &&& forall|i: int| 0 <= i < vars.len() ==> {
        let (b, a) = (#[trigger] stacks[i + 1], stacks[i + 2]);
        &&& a.len() == b.len()
        &&& forall|j: int| 0 <= j < b.len() - 1 ==> #[trigger] a[j] == b[j]
        &&& b.len() > 0 ==> {
            &&& a.last().owned_variables@ == b.last().owned_variables@.push(vars[i])
            &&& a.last().scope_type == b.last().scope_type
            &&& a.last().block_id == b.last().block_id
            &&& a.last().depth == b.last().depth
        }
    }
}

/// After entering a scope and adding candidates, the entered scope sits on top of the
/// stack it was pushed on and owns the candidates added so far, in order.
pub proof fn lemma_entered_scope_owns(stacks: Seq<Seq<ScopeInfo>>, scope_type: ScopeType, vars: Seq<InternedString>, k: int)
    requires
        entered_and_added(stacks, scope_type, vars),
        0 <= k <= vars.len(),
    ensures
        stacks[k + 1].len() == stacks[0].len() + 1,
        stacks[k + 1].drop_last() == stacks[0],
        stacks[k + 1].last().owned_variables@ == vars.take(k),
    decreases k,
{
    if k == 0 {
        assert(vars.take(0) =~= Seq::<InternedString>::empty());
    } else {
        lemma_entered_scope_owns(stacks, scope_type, vars, k - 1);
        let (b, a) = (stacks[k], stacks[k + 1]);
        assert(a.drop_last() =~= b.drop_last()) by {
            assert forall|j: int| 0 <= j < b.len() - 1 implies a.drop_last()[j] == b.drop_last()[j] by {
                assert(a[j] == b[j]);
            }
        }
        assert(vars.take(k) =~= vars.take(k - 1).push(vars[k - 1]));
    }
}

/// Law: entering a scope, adding the drop candidates `vars` (no other scope change) and
/// leaving the scope gives back exactly `vars`, in the order they were added, and leaves the
/// scope stack, and so the depth, as it was before the scope was entered.
pub proof fn lemma_scope_round_trip(
    stacks: Seq<Seq<ScopeInfo>>,
    scope_type: ScopeType,
    vars: Seq<InternedString>,
    exited: Seq<ScopeInfo>,
    returned: Seq<InternedString>,
)
    requires
        entered_and_added(stacks, scope_type, vars),
        stacks.last().len() == 0 ==> returned == Seq::<InternedString>::empty() && exited == stacks.last(),
        stacks.last().len() > 0 ==> returned == stacks.last().last().owned_variables@ && exited == stacks.last().drop_last(),
    ensures
        returned == vars,
        exited == stacks[0],
        exited.len() == stacks[0].len(),
{
    lemma_entered_scope_owns(stacks, scope_type, vars, vars.len() as int);
    assert(vars.take(vars.len() as int) =~= vars);
    assert(stacks.last() == stacks[vars.len() as int + 1]);
}

/// Law: on a builder context, entering a scope of type `scope_type`, adding the drop
/// candidates `vars` (no other scope change), and leaving the scope returns exactly `vars`,
/// in order, and restores the scope stack and so the depth. `ctxs[0]` is the context
/// before entering, `ctxs[k + 1]` the context after the `k`-th candidate was added, and
/// `after` the context `exit_scope` left with `returned`; each step is related as the
/// contracts of `enter_scope`, `add_drop_candidate` and `exit_scope` state.
pub proof fn lemma_enter_add_exit_scope(
    ctxs: Seq<HirBuilderContext>,
    scope_type: ScopeType,
    vars: Seq<InternedString>,
    after: HirBuilderContext,
    returned: Seq<InternedString>,
)
    requires
        ctxs.len() == vars.len() + 2,
        ctxs[1].scopes().len() == ctxs[0].scopes().len() + 1,
        ctxs[1].scopes().drop_last() == ctxs[0].scopes(),
        ctxs[1].scopes().last().scope_type == scope_type,
        ctxs[1].scopes().last().owned_variables@ == Seq::<InternedString>::empty(),
        ctxs[1].scopes().last().block_id == None::<BlockId>,
        ctxs[1].scopes().last().depth == ctxs[0].scopes().len(),
        forall|i: int| 0 <= i < vars.len() ==> {
            let (b, a) = (#[trigger] ctxs[i + 1], ctxs[i + 2]);
            &&& a.scopes().len() == b.scopes().len()
            &&& forall|j: int| 0 <= j < b.scopes().len() - 1 ==> #[trigger] a.scopes()[j] == b.scopes()[j]
            &&& b.scopes().len() > 0 ==> {
                &&& a.scopes().last().owned_variables@ == b.scopes().last().owned_variables@.push(vars[i])
                &&& a.scopes().last().scope_type == b.scopes().last().scope_type
                &&& a.scopes().last().block_id == b.scopes().last().block_id
                &&& a.scopes().last().depth == b.scopes().last().depth
            }
        },
        ctxs.last().scopes().len() == 0 ==> returned == Seq::<InternedString>::empty() && after.scopes() == ctxs.last().scopes(),
        ctxs.last().scopes().len() > 0 ==> returned == ctxs.last().scopes().last().owned_variables@
            && after.scopes() == ctxs.last().scopes().drop_last(),
    ensures
        returned == vars,
        after.scopes() == ctxs[0].scopes(),
        after.scopes().len() == ctxs[0].scopes().len(),
{
    let stacks = Seq::new(ctxs.len(), |i: int| ctxs[i].scopes());
    assert forall|i: int| 0 <= i < vars.len() implies {
        let (b, a) = (#[trigger] stacks[i + 1], stacks[i + 2]);
        &&& a.len() == b.len()
        &&& forall|j: int| 0 <= j < b.len() - 1 ==> #[trigger] a[j] == b[j]
        &&& b.len() > 0 ==> {
            &&& a.last().owned_variables@ == b.last().owned_variables@.push(vars[i])
            &&& a.last().scope_type == b.last().scope_type
            &&& a.last().block_id == b.last().block_id
            &&& a.last().depth == b.last().depth
        }
    } by {
        assert(stacks[i + 1] == ctxs[i + 1].scopes());
        assert(stacks[i + 2] == ctxs[i + 2].scopes());
    }
    assert(entered_and_added(stacks, scope_type, vars));
    assert(stacks.last() == ctxs.last().scopes());
    lemma_scope_round_trip(stacks, scope_type, vars, after.scopes(), returned);
}

/// Law: a temporary registered with `register_temporary` stays registered, with the kind of
/// its last registration, across any later calls: `maps` are the successive temporary maps,
/// and each step is either a registration (`Some`) or a call that leaves the map as it is
/// (`None`), as the metadata methods' contracts state.
pub proof fn lemma_temporary_kept(
    maps: Seq<Map<InternedString, HirExprKind>>,
    steps: Seq<Option<(InternedString, HirExprKind)>>,
    j: int,
)
    requires
        maps.len() == steps.len() + 1,
        forall|i: int| 0 <= i < steps.len() ==> match #[trigger] steps[i] {
            Some((n, k)) => maps[i + 1] == maps[i].insert(n, k),
            None => maps[i + 1] == maps[i],
        },
        0 <= j < steps.len(),
        steps[j] is Some,
        forall|i: int| j < i < steps.len() ==> (#[trigger] steps[i]) is None || steps[i].unwrap().0 != steps[j].unwrap().0,
    ensures
        maps.last().contains_key(steps[j].unwrap().0),
        maps.last()[steps[j].unwrap().0] == steps[j].unwrap().1,
    decreases steps.len(),
{
    let n = steps[j].unwrap().0;
    if j == steps.len() - 1 {
        assert(maps[j + 1] == maps[j].insert(n, steps[j].unwrap().1));
    } else {
        let last = steps.len() - 1;
        lemma_temporary_kept(maps.drop_last(), steps.drop_last(), j);
        assert(maps.drop_last().last() == maps[last]);
        match steps[last] {
            Some((m, k)) => {
                assert(m != n);
                assert(maps[last + 1] == maps[last].insert(m, k));
            },
            None => {},
        }
    }
}

impl HirBuilderContext {
    /// The variable an expression is based on: the root of a loaded place, or the base of a
    /// field access.
    pub fn extract_base_var_from_expr(&self, expr: &HirExpr) -> (r: Result<InternedString, CompilerError>)
        ensures
            r == match expr_model(*expr).kind {
                ExprKindModel::Load(p) => Ok::<InternedString, CompilerError>(place_root(p)),
                ExprKindModel::Field { base, .. } => Ok(base),
                _ => Err(CompilerError::NoBaseVariable),
            },
    {
        match &expr.kind {
            HirExprKind::Load(place) => self.extract_var_from_place(place),
            HirExprKind::Field { base, .. } => Ok(*base),
            _ => Err(CompilerError::NoBaseVariable),
        }
    }

    /// The variable a place is rooted at (see `place_root`).
    pub fn extract_var_from_place(&self, place: &HirPlace) -> (r: Result<InternedString, CompilerError>)
        ensures
            r == Ok::<InternedString, CompilerError>(place_root(place_model(*place))),
        decreases place,
    {
        match place {
            HirPlace::Var(name) => Ok(*name),
            HirPlace::Field { base, .. } => self.extract_var_from_place(base),
            HirPlace::Index { base, .. } => self.extract_var_from_place(base),
        }
    }
}

} // verus!
